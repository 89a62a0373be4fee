use vstd::prelude::*;
use crate::value::SqlValue;
use crate::column_path::ColumnIdPath;

verus! {

/// An operand of an abstract predicate: a column reached through a path, or a literal that
/// will be bound as a parameter.
#[derive(Debug, PartialEq)]
pub enum ColumnPath<'a> {
    Physical(&'a ColumnIdPath),
    Literal(SqlValue),
    LiteralList(&'a Vec<SqlValue>),
    Null,
}

/// A boolean predicate over column paths, independent of how the paths are joined.
#[derive(Debug, PartialEq)]
pub enum AbstractPredicate<'a> {
    True,
    False,
    Eq(ColumnPath<'a>, ColumnPath<'a>),
    Neq(ColumnPath<'a>, ColumnPath<'a>),
    Lt(ColumnPath<'a>, ColumnPath<'a>),
    Lte(ColumnPath<'a>, ColumnPath<'a>),
    Gt(ColumnPath<'a>, ColumnPath<'a>),
    Gte(ColumnPath<'a>, ColumnPath<'a>),
    In(ColumnPath<'a>, ColumnPath<'a>),
    And(Box<AbstractPredicate<'a>>, Box<AbstractPredicate<'a>>),
    Or(Box<AbstractPredicate<'a>>, Box<AbstractPredicate<'a>>),
    Not(Box<AbstractPredicate<'a>>),
}

/// Conjunction that folds the constants: `True` is the identity and `False` absorbs.
pub open spec fn and_spec<'a>(a: AbstractPredicate<'a>, b: AbstractPredicate<'a>) -> AbstractPredicate<'a> {
    match (a, b) {
        (AbstractPredicate::False, _) => AbstractPredicate::False,
        (_, AbstractPredicate::False) => AbstractPredicate::False,
        (AbstractPredicate::True, q) => q,
        (p, AbstractPredicate::True) => p,
        (p, q) => AbstractPredicate::And(Box::new(p), Box::new(q)),
    }
}

/// Disjunction that folds the constants: `False` is the identity and `True` absorbs.
pub open spec fn or_spec<'a>(a: AbstractPredicate<'a>, b: AbstractPredicate<'a>) -> AbstractPredicate<'a> {
    match (a, b) {
        (AbstractPredicate::True, _) => AbstractPredicate::True,
        (_, AbstractPredicate::True) => AbstractPredicate::True,
        (AbstractPredicate::False, q) => q,
        (p, AbstractPredicate::False) => p,
        (p, q) => AbstractPredicate::Or(Box::new(p), Box::new(q)),
    }
}

/// Negation: constants swap, each comparison takes its negated form, a `Not` is removed,
/// and what has no direct negated form (`In`, `And`, `Or`) is wrapped in `Not`.
pub open spec fn not_spec<'a>(p: AbstractPredicate<'a>) -> AbstractPredicate<'a> {
    match p {
        AbstractPredicate::True => AbstractPredicate::False,
        AbstractPredicate::False => AbstractPredicate::True,
        AbstractPredicate::Eq(l, r) => AbstractPredicate::Neq(l, r),
        AbstractPredicate::Neq(l, r) => AbstractPredicate::Eq(l, r),
        AbstractPredicate::Lt(l, r) => AbstractPredicate::Gte(l, r),
        AbstractPredicate::Lte(l, r) => AbstractPredicate::Gt(l, r),
        AbstractPredicate::Gt(l, r) => AbstractPredicate::Lte(l, r),
        AbstractPredicate::Gte(l, r) => AbstractPredicate::Lt(l, r),
        AbstractPredicate::Not(q) => *q,
        other => AbstractPredicate::Not(Box::new(other)),
    }
}

/// A predicate in the form that `and`, `or` and `not` produce: a `Not` wraps only what has
/// no direct negated form.
pub open spec fn is_normal(p: AbstractPredicate) -> bool {
    match p {
        AbstractPredicate::Not(q) => match *q {
            AbstractPredicate::In(_, _) | AbstractPredicate::And(_, _) | AbstractPredicate::Or(_, _) => true,
            _ => false,
        },
        _ => true,
    }
}

impl<'a> AbstractPredicate<'a> {
    /// The predicate for a statically known truth value.
    pub fn from_bool(value: bool) -> (r: AbstractPredicate<'a>)
        ensures
            r == (if value { AbstractPredicate::True } else { AbstractPredicate::False }),
    {
        if value {
            AbstractPredicate::True
        } else {
            AbstractPredicate::False
        }
    }

    pub fn and(self, other: AbstractPredicate<'a>) -> (r: AbstractPredicate<'a>)
        ensures
            r == and_spec(self, other),
    {
        match (self, other) {
            (AbstractPredicate::False, _) => AbstractPredicate::False,
            (_, AbstractPredicate::False) => AbstractPredicate::False,
            (AbstractPredicate::True, q) => q,
            (p, AbstractPredicate::True) => p,
            (p, q) => AbstractPredicate::And(Box::new(p), Box::new(q)),
        }
    }

    pub fn or(self, other: AbstractPredicate<'a>) -> (r: AbstractPredicate<'a>)
        ensures
            r == or_spec(self, other),
    {
        match (self, other) {
            (AbstractPredicate::True, _) => AbstractPredicate::True,
            (_, AbstractPredicate::True) => AbstractPredicate::True,
            (AbstractPredicate::False, q) => q,
            (p, AbstractPredicate::False) => p,
            (p, q) => AbstractPredicate::Or(Box::new(p), Box::new(q)),
        }
    }

    pub fn not(self) -> (r: AbstractPredicate<'a>)
        ensures
            r == not_spec(self),
    {
        match self {
            AbstractPredicate::True => AbstractPredicate::False,
            AbstractPredicate::False => AbstractPredicate::True,
            AbstractPredicate::Eq(l, r) => AbstractPredicate::Neq(l, r),
            AbstractPredicate::Neq(l, r) => AbstractPredicate::Eq(l, r),
            AbstractPredicate::Lt(l, r) => AbstractPredicate::Gte(l, r),
            AbstractPredicate::Lte(l, r) => AbstractPredicate::Gt(l, r),
            AbstractPredicate::Gt(l, r) => AbstractPredicate::Lte(l, r),
            AbstractPredicate::Gte(l, r) => AbstractPredicate::Lt(l, r),
            AbstractPredicate::Not(q) => *q,
            other => AbstractPredicate::Not(Box::new(other)),
        }
    }

    /// Whether the predicate is the constant `False`.
    pub fn is_false(&self) -> (r: bool)
        ensures
            r == (*self == AbstractPredicate::False),
    {
        match self {
            AbstractPredicate::False => true,
            _ => false,
        }
    }
}

/// Negating a normal predicate twice gives it back.
pub proof fn lemma_not_involutive(p: AbstractPredicate)
    requires
        is_normal(p),
    ensures
        not_spec(not_spec(p)) == p,
{
}

/// `True` is the identity of conjunction and `False` that of disjunction.
pub proof fn lemma_identities(p: AbstractPredicate)
    ensures
        and_spec(AbstractPredicate::True, p) == p,
        or_spec(AbstractPredicate::False, p) == p,
{
}

} // verus!
