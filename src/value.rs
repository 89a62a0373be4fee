use vstd::prelude::*;
use vstd::utf8::{encode_utf8, encode_utf8_decode_utf8};

verus! {

/// A plain SQL value: what a literal, a context value or a result cell holds.
#[derive(Debug, PartialEq)]
pub enum SqlValue {
    Null,
    Bool(bool),
    Int(i64),
    Text(String),
}

/// Lexicographic order on byte strings (a proper prefix comes first).
pub open spec fn bytes_lt(a: Seq<u8>, b: Seq<u8>) -> bool
    decreases a.len(),
{
    if b.len() == 0 {
        false
    } else if a.len() == 0 {
        true
    } else if a[0] != b[0] {
        a[0] < b[0]
    } else {
        bytes_lt(a.drop_first(), b.drop_first())
    }
}

/// Two values are the same value: same kind and same content.
pub open spec fn same_value(a: SqlValue, b: SqlValue) -> bool {
    match (a, b) {
        (SqlValue::Null, SqlValue::Null) => true,
        (SqlValue::Bool(x), SqlValue::Bool(y)) => x == y,
        (SqlValue::Int(x), SqlValue::Int(y)) => x == y,
        (SqlValue::Text(x), SqlValue::Text(y)) => x@ == y@,
        _ => false,
    }
}

/// `a` comes strictly before `b`: integers by number, booleans with `false` first, text
/// by its UTF-8 bytes. Values of different kinds, and nulls, are not ordered.
pub open spec fn value_lt(a: SqlValue, b: SqlValue) -> bool {
    match (a, b) {
        (SqlValue::Bool(x), SqlValue::Bool(y)) => !x && y,
        (SqlValue::Int(x), SqlValue::Int(y)) => x < y,
        (SqlValue::Text(x), SqlValue::Text(y)) => bytes_lt(encode_utf8(x@), encode_utf8(y@)),
        _ => false,
    }
}

/// `value` occurs in `list`.
pub open spec fn list_contains(list: Seq<SqlValue>, value: SqlValue) -> bool {
    exists|i: int| 0 <= i < list.len() && same_value(#[trigger] list[i], value)
}

impl SqlValue {
    /// A copy of the value, equal to it.
    pub fn copy(&self) -> (r: SqlValue)
        ensures
            r == *self,
    {
        match self {
            SqlValue::Null => SqlValue::Null,
            SqlValue::Bool(b) => SqlValue::Bool(*b),
            SqlValue::Int(i) => SqlValue::Int(*i),
            SqlValue::Text(s) => SqlValue::Text(s.clone()),
        }
    }

    /// Whether the two values are the same value.
    pub fn same_as(&self, other: &SqlValue) -> (r: bool)
        ensures
            r == same_value(*self, *other),
    {
        match (self, other) {
            (SqlValue::Null, SqlValue::Null) => true,
            (SqlValue::Bool(x), SqlValue::Bool(y)) => *x == *y,
            (SqlValue::Int(x), SqlValue::Int(y)) => *x == *y,
            (SqlValue::Text(x), SqlValue::Text(y)) => String::eq(x, y),
            _ => false,
        }
    }

    /// Whether `self` comes strictly before `other` (see `value_lt`).
    pub fn less_than(&self, other: &SqlValue) -> (r: bool)
        ensures
            r == value_lt(*self, *other),
    {
        match (self, other) {
            (SqlValue::Bool(x), SqlValue::Bool(y)) => !*x && *y,
            (SqlValue::Int(x), SqlValue::Int(y)) => *x < *y,
            (SqlValue::Text(x), SqlValue::Text(y)) => bytes_less(x.as_str().as_bytes(), y.as_str().as_bytes()),
            _ => false,
        }
    }
}

/// Lexicographic comparison of two byte strings.
pub fn bytes_less(a: &[u8], b: &[u8]) -> (r: bool)
    ensures
        r == bytes_lt(a@, b@),
{
    let mut i: usize = 0;
    assert(a@.subrange(0, a@.len() as int) =~= a@);
    assert(b@.subrange(0, b@.len() as int) =~= b@);
    while i < a.len() && i < b.len()
        invariant
            i <= a@.len(),
            i <= b@.len(),
            a@.subrange(0, i as int) == b@.subrange(0, i as int),
            bytes_lt(a@, b@) == bytes_lt(a@.subrange(i as int, a@.len() as int), b@.subrange(i as int, b@.len() as int)),
        decreases a.len() - i,
    {
        if a[i] != b[i] {
            return a[i] < b[i];
        }
        proof {
            let sa = a@.subrange(i as int, a@.len() as int);
            let sb = b@.subrange(i as int, b@.len() as int);
            assert(sa.drop_first() =~= a@.subrange(i + 1, a@.len() as int));
            assert(sb.drop_first() =~= b@.subrange(i + 1, b@.len() as int));
            assert(a@.subrange(0, i + 1) =~= a@.subrange(0, i as int).push(a@[i as int]));
            assert(b@.subrange(0, i + 1) =~= b@.subrange(0, i as int).push(b@[i as int]));
        }
        i = i + 1;
    }
    i < b.len()
}

/// Whether two strings hold the same characters.
pub fn str_eq(a: &str, b: &str) -> (r: bool)
    ensures
        r == (a@ == b@),
{
    let x = a.as_bytes();
    let y = b.as_bytes();
    if x.len() != y.len() {
        return false;
    }
    let mut i: usize = 0;
    while i < x.len()
        invariant
            i <= x@.len(),
            x@.len() == y@.len(),
            x@ == encode_utf8(a@),
            y@ == encode_utf8(b@),
            forall|j: int| 0 <= j < i ==> x@[j] == y@[j],
        decreases x.len() - i,
    {
        if x[i] != y[i] {
            return false;
        }
        i = i + 1;
    }
    proof {
        assert(x@ =~= y@);
        encode_utf8_decode_utf8(a@);
        encode_utf8_decode_utf8(b@);
    }
    true
}

/// Whether `list` holds `value`.
pub fn list_has(list: &Vec<SqlValue>, value: &SqlValue) -> (r: bool)
    ensures
        r == list_contains(list@, *value),
{
    let mut i: usize = 0;
    while i < list.len()
        invariant
            i <= list@.len(),
            forall|j: int| 0 <= j < i ==> !same_value(#[trigger] list@[j], *value),
        decreases list.len() - i,
    {
        if list[i].same_as(value) {
            return true;
        }
        i = i + 1;
    }
    false
}

} // verus!
