use vstd::prelude::*;
use crate::value::SqlValue;
use crate::column_path::{ColumnId, OrderBy, Ordering};
use crate::argument::{Limit, Offset};
use vstd::string::StringExecFns;

verus! {

/// A column of a physical table.
#[derive(Debug, PartialEq)]
pub struct PhysicalColumn {
    pub table_name: String,
    pub column_name: String,
}

/// A physical table and its ordered columns.
#[derive(Debug, PartialEq)]
pub struct PhysicalTable {
    pub name: String,
    pub columns: Vec<PhysicalColumn>,
}

/// The physical schema: tables, identified by their index.
#[derive(Debug, PartialEq)]
pub struct Database {
    pub tables: Vec<PhysicalTable>,
}

/// A column-like SQL expression. Nodes live in a per-request arena (a `Vec<Column>`) and
/// refer to other nodes by their index, always an earlier one.
#[derive(Debug, PartialEq)]
pub enum Column {
    /// A column of a table.
    Physical(ColumnId),
    /// A value, always bound as a parameter and never written into the statement.
    Param(SqlValue),
    /// A list of values, bound as one array parameter.
    ParamList(Vec<SqlValue>),
    /// `json_build_object('key', value, ...)`, in field order.
    JsonObject(Vec<(String, usize)>),
    /// The JSON array of the rows' values, `[]` when there are none.
    JsonAgg(usize),
    /// A parenthesized sub-select.
    SubSelect(Box<Select>),
    /// A constant string.
    Constant(String),
    /// All columns, of one table or of all.
    Star(Option<String>),
    Null,
    /// A function applied to a column, such as `count`.
    Function { function_name: String, column_id: ColumnId },
}

/// A concrete predicate whose operands are columns of the arena.
#[derive(Debug, PartialEq)]
pub enum Predicate {
    True,
    False,
    Eq(usize, usize),
    Neq(usize, usize),
    Lt(usize, usize),
    Lte(usize, usize),
    Gt(usize, usize),
    Gte(usize, usize),
    In(usize, usize),
    And(Box<Predicate>, Box<Predicate>),
    Or(Box<Predicate>, Box<Predicate>),
    Not(Box<Predicate>),
}

/// `select <columns> from <table> where <predicate>`, then the order, limit and offset
/// when there are any.
#[derive(Debug, PartialEq)]
pub struct Select {
    pub table_id: usize,
    pub columns: Vec<usize>,
    pub predicate: Predicate,
    pub order_by: Option<OrderBy>,
    pub limit: Option<Limit>,
    pub offset: Option<Offset>,
}

/// `insert into <table> (<columns>) values (<row>), ... returning <columns>`.
#[derive(Debug, PartialEq)]
pub struct Insert {
    pub table_id: usize,
    pub column_ids: Vec<ColumnId>,
    pub rows: Vec<Vec<usize>>,
    pub returning: Vec<usize>,
}

/// A statement that a transaction step runs.
#[derive(Debug, PartialEq)]
pub enum SQLOperation {
    Select(Select),
    Insert(Insert),
}

/// A value bound to one placeholder: a single value, or a list (an SQL array).
#[derive(Debug, PartialEq)]
pub enum SqlParam {
    Value(SqlValue),
    List(Vec<SqlValue>),
}

/// A bound parameter as the contracts see it: the single value, or the list's values.
pub type ParamView = (Option<SqlValue>, Seq<SqlValue>);

pub open spec fn param_view(p: SqlParam) -> ParamView {
    match p {
        SqlParam::Value(v) => (Some(v), Seq::empty()),
        SqlParam::List(l) => (None, l@),
    }
}

pub open spec fn params_view(params: Seq<SqlParam>) -> Seq<ParamView> {
    params.map_values(|p: SqlParam| param_view(p))
}

/// Statement text and, in placeholder order, the values bound to it.
#[derive(Debug, PartialEq)]
pub struct SQLBuilder {
    pub sql: String,
    pub params: Vec<SqlParam>,
}

impl SQLBuilder {
    pub fn new() -> (r: SQLBuilder)
        ensures
            r.sql@ == Seq::<char>::empty(),
            r.params@ == Seq::<SqlParam>::empty(),
    {
        SQLBuilder { sql: String::new(), params: Vec::new() }
    }
}

pub open spec fn digit_text(d: nat) -> Seq<char> {
    if d == 0 { "0"@ } else if d == 1 { "1"@ } else if d == 2 { "2"@ } else if d == 3 { "3"@ }
    else if d == 4 { "4"@ } else if d == 5 { "5"@ } else if d == 6 { "6"@ } else if d == 7 { "7"@ }
    else if d == 8 { "8"@ } else { "9"@ }
}

/// The decimal digits of `n`.
pub open spec fn decimal(n: nat) -> Seq<char>
    decreases n,
{
    if n < 10 {
        digit_text(n)
    } else {
        decimal(n / 10) + digit_text(n % 10)
    }
}

/// The placeholder of the `k`-th bound parameter (from 1).
pub open spec fn placeholder(k: nat) -> Seq<char> {
    "$"@ + decimal(k)
}

pub open spec fn quoted(name: Seq<char>) -> Seq<char> {
    "\""@ + name + "\""@
}

pub open spec fn valid_column_id(db: Database, id: ColumnId) -> bool {
    id.table_id < db.tables@.len() && id.column_index < db.tables@[id.table_id as int].columns@.len()
}

pub open spec fn column_text(db: Database, id: ColumnId) -> Seq<char> {
    let c = db.tables@[id.table_id as int].columns@[id.column_index as int];
    quoted(c.table_name@) + "."@ + quoted(c.column_name@)
}

pub open spec fn pred_size(p: Predicate) -> nat
    decreases p,
{
    match p {
        Predicate::And(a, b) => 1 + pred_size(*a) + pred_size(*b),
        Predicate::Or(a, b) => 1 + pred_size(*a) + pred_size(*b),
        Predicate::Not(a) => 1 + pred_size(*a),
        _ => 1,
    }
}

/// Every operand of the predicate is a node below `bound`.
pub open spec fn pred_below(p: Predicate, bound: int) -> bool
    decreases p,
{
    match p {
        Predicate::True | Predicate::False => true,
        Predicate::Eq(a, b) | Predicate::Neq(a, b) | Predicate::Lt(a, b) | Predicate::Lte(a, b)
        | Predicate::Gt(a, b) | Predicate::Gte(a, b) | Predicate::In(a, b) => a < bound && b < bound,
        Predicate::And(a, b) | Predicate::Or(a, b) => pred_below(*a, bound) && pred_below(*b, bound),
        Predicate::Not(a) => pred_below(*a, bound),
    }
}

pub open spec fn order_ids_valid(db: Database, elems: Seq<(ColumnId, Ordering)>) -> bool {
    forall|k: int| 0 <= k < elems.len() ==> #[trigger] valid_column_id(db, elems[k].0)
}

pub open spec fn order_wf(db: Database, order_by: Option<OrderBy>) -> bool {
    match order_by {
        Some(ob) => order_ids_valid(db, ob.0@),
        None => true,
    }
}

pub open spec fn select_wf(s: Select, bound: int, db: Database) -> bool {
    &&& s.table_id < db.tables@.len()
    &&& forall|k: int| 0 <= k < s.columns@.len() ==> #[trigger] s.columns@[k] < bound
    &&& pred_below(s.predicate, bound)
    &&& order_wf(db, s.order_by)
}

/// A node of the arena at `idx`: it refers only to earlier nodes and to columns and tables
/// of the schema.
pub open spec fn node_wf(c: Column, idx: int, db: Database) -> bool {
    match c {
        Column::Physical(id) => valid_column_id(db, id),
        Column::JsonObject(fields) => forall|k: int| 0 <= k < fields@.len() ==> #[trigger] fields@[k].1 < idx,
        Column::JsonAgg(inner) => inner < idx,
        Column::SubSelect(s) => select_wf(*s, idx, db),
        Column::Function { function_name, column_id } => valid_column_id(db, column_id),
        _ => true,
    }
}

pub open spec fn arena_wf(arena: Seq<Column>, db: Database) -> bool {
    forall|i: int| 0 <= i < arena.len() ==> node_wf(#[trigger] arena[i], i, db)
}

pub open spec fn insert_wf(ins: Insert, bound: int, db: Database) -> bool {
    &&& ins.table_id < db.tables@.len()
    &&& forall|k: int| 0 <= k < ins.column_ids@.len() ==> valid_column_id(db, #[trigger] ins.column_ids@[k])
    &&& forall|r: int, k: int| 0 <= r < ins.rows@.len() && 0 <= k < ins.rows@[r]@.len() ==> #[trigger] ins.rows@[r]@[k] < bound
    &&& forall|k: int| 0 <= k < ins.returning@.len() ==> #[trigger] ins.returning@[k] < bound
}

pub open spec fn operation_wf(op: SQLOperation, bound: int, db: Database) -> bool {
    match op {
        SQLOperation::Select(s) => select_wf(s, bound, db),
        SQLOperation::Insert(i) => insert_wf(i, bound, db),
    }
}

/// Text and parameters of the node at `idx`, when `n` parameters come before it.
pub open spec fn render(arena: Seq<Column>, db: Database, idx: int, n: nat) -> (Seq<char>, Seq<ParamView>)
    decreases idx, 3int, 0int,
{
    if idx < 0 || idx >= arena.len() {
        (Seq::empty(), Seq::empty())
    } else {
        match arena[idx] {
            Column::Physical(id) => (column_text(db, id), Seq::empty()),
            Column::Param(v) => (placeholder(n + 1), seq![(Some(v), Seq::<SqlValue>::empty())]),
            Column::ParamList(l) => (placeholder(n + 1), seq![(None::<SqlValue>, l@)]),
            Column::JsonObject(fields) => {
                let inner = render_fields(arena, db, idx, fields@, 0, n);
                ("json_build_object("@ + inner.0 + ")"@, inner.1)
            },
            Column::JsonAgg(i) => {
                if i < idx {
                    let inner = render(arena, db, i as int, n);
                    ("coalesce(json_agg("@ + inner.0 + "), '[]'::json)"@, inner.1)
                } else {
                    (Seq::empty(), Seq::empty())
                }
            },
            Column::SubSelect(s) => {
                let inner = render_select(arena, db, idx, *s, n);
                ("("@ + inner.0 + ")"@, inner.1)
            },
            Column::Constant(s) => ("'"@ + s@ + "'"@, Seq::empty()),
            Column::Star(t) => match t {
                Some(name) => (quoted(name@) + ".*"@, Seq::empty()),
                None => ("*"@, Seq::empty()),
            },
            Column::Null => ("NULL"@, Seq::empty()),
            Column::Function { function_name, column_id } => (
                function_name@ + "("@ + column_text(db, column_id) + ")"@,
                Seq::empty(),
            ),
        }
    }
}

/// The fields of a JSON object from the `k`-th on.
pub open spec fn render_fields(arena: Seq<Column>, db: Database, bound: int, fields: Seq<(String, usize)>, k: int, n: nat) -> (Seq<char>, Seq<ParamView>)
    decreases bound, 1int, fields.len() - k,
{
    if k < 0 || k >= fields.len() || fields[k].1 >= bound {
        (Seq::empty(), Seq::empty())
    } else {
        let sep = if k == 0 { Seq::empty() } else { ", "@ };
        let head = render(arena, db, fields[k].1 as int, n);
        let rest = render_fields(arena, db, bound, fields, k + 1, n + head.1.len());
        (sep + "'"@ + fields[k].0@ + "', "@ + head.0 + rest.0, head.1 + rest.1)
    }
}

/// A comma-separated list of columns from the `k`-th on.
pub open spec fn render_list(arena: Seq<Column>, db: Database, bound: int, cols: Seq<usize>, k: int, n: nat) -> (Seq<char>, Seq<ParamView>)
    decreases bound, 1int, cols.len() - k,
{
    if k < 0 || k >= cols.len() || cols[k] >= bound {
        (Seq::empty(), Seq::empty())
    } else {
        let sep = if k == 0 { Seq::empty() } else { ", "@ };
        let head = render(arena, db, cols[k] as int, n);
        let rest = render_list(arena, db, bound, cols, k + 1, n + head.1.len());
        (sep + head.0 + rest.0, head.1 + rest.1)
    }
}

/// The order-by elements from the `k`-th on: each column with its direction.
pub open spec fn order_text(db: Database, elems: Seq<(ColumnId, Ordering)>, k: int) -> Seq<char>
    decreases elems.len() - k,
{
    if k < 0 || k >= elems.len() {
        Seq::empty()
    } else {
        let sep = if k == 0 { Seq::empty() } else { ", "@ };
        let dir = match elems[k].1 {
            Ordering::Asc => " ASC"@,
            Ordering::Desc => " DESC"@,
        };
        sep + column_text(db, elems[k].0) + dir + order_text(db, elems, k + 1)
    }
}

/// The clauses after `where`: the order (when it has elements), then the limit and the
/// offset, each bound as a parameter.
pub open spec fn render_tail(db: Database, s: Select, n: nat) -> (Seq<char>, Seq<ParamView>) {
    let order = match s.order_by {
        Some(ob) => if ob.0@.len() > 0 { " order by "@ + order_text(db, ob.0@, 0) } else { Seq::empty() },
        None => Seq::empty(),
    };
    let limit: (Seq<char>, Seq<ParamView>) = match s.limit {
        Some(l) => (" limit "@ + placeholder(n + 1), seq![(Some(SqlValue::Int(l.0)), Seq::<SqlValue>::empty())]),
        None => (Seq::empty(), Seq::empty()),
    };
    let offset: (Seq<char>, Seq<ParamView>) = match s.offset {
        Some(o) => (" offset "@ + placeholder(n + limit.1.len() + 1), seq![(Some(SqlValue::Int(o.0)), Seq::<SqlValue>::empty())]),
        None => (Seq::empty(), Seq::empty()),
    };
    (order + limit.0 + offset.0, limit.1 + offset.1)
}

pub open spec fn render_select(arena: Seq<Column>, db: Database, bound: int, s: Select, n: nat) -> (Seq<char>, Seq<ParamView>)
    decreases bound, 2int, 0int,
{
    let cols = render_list(arena, db, bound, s.columns@, 0, n);
    let pred = render_predicate(arena, db, bound, s.predicate, n + cols.1.len());
    let tail = render_tail(db, s, n + cols.1.len() + pred.1.len());
    (
        "select "@ + cols.0 + " from "@ + quoted(db.tables@[s.table_id as int].name@) + " where "@ + pred.0 + tail.0,
        cols.1 + pred.1 + tail.1,
    )
}

/// The quoted names of the insert's columns from the `k`-th on.
pub open spec fn render_names(db: Database, ids: Seq<ColumnId>, k: int) -> Seq<char>
    decreases ids.len() - k,
{
    if k < 0 || k >= ids.len() {
        Seq::empty()
    } else {
        let sep = if k == 0 { Seq::empty() } else { ", "@ };
        let c = db.tables@[ids[k].table_id as int].columns@[ids[k].column_index as int];
        sep + quoted(c.column_name@) + render_names(db, ids, k + 1)
    }
}

/// The value rows of an insert from the `k`-th on.
pub open spec fn render_rows(arena: Seq<Column>, db: Database, rows: Seq<Vec<usize>>, k: int, n: nat) -> (Seq<char>, Seq<ParamView>)
    decreases rows.len() - k,
{
    if k < 0 || k >= rows.len() {
        (Seq::empty(), Seq::empty())
    } else {
        let sep = if k == 0 { Seq::empty() } else { ", "@ };
        let head = render_list(arena, db, arena.len() as int, rows[k]@, 0, n);
        let rest = render_rows(arena, db, rows, k + 1, n + head.1.len());
        (sep + "("@ + head.0 + ")"@ + rest.0, head.1 + rest.1)
    }
}

pub open spec fn render_insert(arena: Seq<Column>, db: Database, ins: Insert, n: nat) -> (Seq<char>, Seq<ParamView>) {
    let rows = render_rows(arena, db, ins.rows@, 0, n);
    let ret = render_list(arena, db, arena.len() as int, ins.returning@, 0, n + rows.1.len());
    let ret_text = if ins.returning@.len() == 0 { Seq::empty() } else { " returning "@ + ret.0 };
    (
        "insert into "@ + quoted(db.tables@[ins.table_id as int].name@) + " ("@
            + render_names(db, ins.column_ids@, 0) + ") values "@ + rows.0 + ret_text,
        rows.1 + ret.1,
    )
}

/// Text and parameters of a whole statement.
pub open spec fn render_operation(arena: Seq<Column>, db: Database, op: SQLOperation) -> (Seq<char>, Seq<ParamView>) {
    match op {
        SQLOperation::Select(s) => render_select(arena, db, arena.len() as int, s, 0),
        SQLOperation::Insert(i) => render_insert(arena, db, i, 0),
    }
}

/// A value is never written into the statement: a parameter node renders as the
/// placeholder of its position alone, whatever its value, and its value goes to the
/// parameter list.
pub proof fn lemma_param_renders_as_placeholder(arena: Seq<Column>, db: Database, idx: int, n: nat, v: SqlValue, w: SqlValue)
    requires
        0 <= idx < arena.len(),
        arena[idx] == Column::Param(v),
    ensures
        render(arena, db, idx, n).0 == placeholder(n + 1),
        render(arena, db, idx, n).1 == seq![(Some(v), Seq::<SqlValue>::empty())],
        render(arena.update(idx, Column::Param(w)), db, idx, n).0 == render(arena, db, idx, n).0,
{
}

/// Two arenas that differ at most in the values their parameter nodes hold.
pub open spec fn same_shape(a1: Seq<Column>, a2: Seq<Column>) -> bool {
    &&& a1.len() == a2.len()
    &&& forall|i: int| 0 <= i < a1.len() ==> {
        ||| #[trigger] a1[i] == a2[i]
        ||| (a1[i] is Param && a2[i] is Param)
        ||| (a1[i] is ParamList && a2[i] is ParamList)
    }
}

proof fn lemma_render_shape(a1: Seq<Column>, a2: Seq<Column>, db: Database, idx: int, n: nat)
    requires
        same_shape(a1, a2),
    ensures
        render(a1, db, idx, n).0 == render(a2, db, idx, n).0,
        render(a1, db, idx, n).1.len() == render(a2, db, idx, n).1.len(),
    decreases idx, 3int, 0int,
{
    if 0 <= idx < a1.len() && a1[idx] == a2[idx] {
        match a1[idx] {
            Column::JsonObject(fields) => lemma_fields_shape(a1, a2, db, idx, fields@, 0, n),
            Column::JsonAgg(i) => {
                if i < idx {
                    lemma_render_shape(a1, a2, db, i as int, n);
                }
            },
            Column::SubSelect(sel) => lemma_select_shape(a1, a2, db, idx, *sel, n),
            _ => {},
        }
    }
}

proof fn lemma_fields_shape(a1: Seq<Column>, a2: Seq<Column>, db: Database, bound: int, fields: Seq<(String, usize)>, k: int, n: nat)
    requires
        same_shape(a1, a2),
    ensures
        render_fields(a1, db, bound, fields, k, n).0 == render_fields(a2, db, bound, fields, k, n).0,
        render_fields(a1, db, bound, fields, k, n).1.len() == render_fields(a2, db, bound, fields, k, n).1.len(),
    decreases bound, 1int, fields.len() - k,
{
    if 0 <= k < fields.len() && fields[k].1 < bound {
        lemma_render_shape(a1, a2, db, fields[k].1 as int, n);
        let h = render(a1, db, fields[k].1 as int, n);
        lemma_fields_shape(a1, a2, db, bound, fields, k + 1, n + h.1.len());
    }
}

proof fn lemma_list_shape(a1: Seq<Column>, a2: Seq<Column>, db: Database, bound: int, cols: Seq<usize>, k: int, n: nat)
    requires
        same_shape(a1, a2),
    ensures
        render_list(a1, db, bound, cols, k, n).0 == render_list(a2, db, bound, cols, k, n).0,
        render_list(a1, db, bound, cols, k, n).1.len() == render_list(a2, db, bound, cols, k, n).1.len(),
    decreases bound, 1int, cols.len() - k,
{
    if 0 <= k < cols.len() && cols[k] < bound {
        lemma_render_shape(a1, a2, db, cols[k] as int, n);
        let h = render(a1, db, cols[k] as int, n);
        lemma_list_shape(a1, a2, db, bound, cols, k + 1, n + h.1.len());
    }
}

proof fn lemma_select_shape(a1: Seq<Column>, a2: Seq<Column>, db: Database, bound: int, sel: Select, n: nat)
    requires
        same_shape(a1, a2),
    ensures
        render_select(a1, db, bound, sel, n).0 == render_select(a2, db, bound, sel, n).0,
        render_select(a1, db, bound, sel, n).1.len() == render_select(a2, db, bound, sel, n).1.len(),
    decreases bound, 2int, 0int,
{
    lemma_list_shape(a1, a2, db, bound, sel.columns@, 0, n);
    let c = render_list(a1, db, bound, sel.columns@, 0, n);
    lemma_predicate_shape(a1, a2, db, bound, sel.predicate, n + c.1.len());
}

proof fn lemma_binary_shape(a1: Seq<Column>, a2: Seq<Column>, db: Database, bound: int, a: usize, op: Seq<char>, b: usize, n: nat)
    requires
        same_shape(a1, a2),
    ensures
        render_binary(a1, db, bound, a, op, b, n).0 == render_binary(a2, db, bound, a, op, b, n).0,
        render_binary(a1, db, bound, a, op, b, n).1.len() == render_binary(a2, db, bound, a, op, b, n).1.len(),
    decreases bound, 0int, 0int,
{
    if a < bound && b < bound {
        lemma_render_shape(a1, a2, db, a as int, n);
        let l = render(a1, db, a as int, n);
        lemma_render_shape(a1, a2, db, b as int, n + l.1.len());
    }
}

proof fn lemma_predicate_shape(a1: Seq<Column>, a2: Seq<Column>, db: Database, bound: int, p: Predicate, n: nat)
    requires
        same_shape(a1, a2),
    ensures
        render_predicate(a1, db, bound, p, n).0 == render_predicate(a2, db, bound, p, n).0,
        render_predicate(a1, db, bound, p, n).1.len() == render_predicate(a2, db, bound, p, n).1.len(),
    decreases bound, 0int, pred_size(p),
{
    match p {
        Predicate::True | Predicate::False => {},
        Predicate::Eq(a, b) => lemma_binary_shape(a1, a2, db, bound, a, " = "@, b, n),
        Predicate::Neq(a, b) => lemma_binary_shape(a1, a2, db, bound, a, " <> "@, b, n),
        Predicate::Lt(a, b) => lemma_binary_shape(a1, a2, db, bound, a, " < "@, b, n),
        Predicate::Lte(a, b) => lemma_binary_shape(a1, a2, db, bound, a, " <= "@, b, n),
        Predicate::Gt(a, b) => lemma_binary_shape(a1, a2, db, bound, a, " > "@, b, n),
        Predicate::Gte(a, b) => lemma_binary_shape(a1, a2, db, bound, a, " >= "@, b, n),
        Predicate::In(a, b) => lemma_binary_shape(a1, a2, db, bound, a, " = ANY("@, b, n),
        Predicate::And(x, y) | Predicate::Or(x, y) => {
            lemma_predicate_shape(a1, a2, db, bound, *x, n);
            let l = render_predicate(a1, db, bound, *x, n);
            lemma_predicate_shape(a1, a2, db, bound, *y, n + l.1.len());
        },
        Predicate::Not(x) => lemma_predicate_shape(a1, a2, db, bound, *x, n),
    }
}

proof fn lemma_rows_shape(a1: Seq<Column>, a2: Seq<Column>, db: Database, rows: Seq<Vec<usize>>, k: int, n: nat)
    requires
        same_shape(a1, a2),
    ensures
        render_rows(a1, db, rows, k, n).0 == render_rows(a2, db, rows, k, n).0,
        render_rows(a1, db, rows, k, n).1.len() == render_rows(a2, db, rows, k, n).1.len(),
    decreases rows.len() - k,
{
    if 0 <= k < rows.len() {
        lemma_list_shape(a1, a2, db, a1.len() as int, rows[k]@, 0, n);
        let h = render_list(a1, db, a1.len() as int, rows[k]@, 0, n);
        lemma_rows_shape(a1, a2, db, rows, k + 1, n + h.1.len());
    }
}

/// Values never reach the statement text: two arenas that differ only in the values of
/// their parameters render every statement to the same text, with as many parameters.
/// Whatever a literal holds (`'; DROP TABLE x; --` included), the text holds only its
/// placeholder.
pub proof fn lemma_values_never_reach_text(a1: Seq<Column>, a2: Seq<Column>, db: Database, op: SQLOperation)
    requires
        same_shape(a1, a2),
    ensures
        render_operation(a1, db, op).0 == render_operation(a2, db, op).0,
        render_operation(a1, db, op).1.len() == render_operation(a2, db, op).1.len(),
{
    match op {
        SQLOperation::Select(sel) => lemma_select_shape(a1, a2, db, a1.len() as int, sel, 0),
        SQLOperation::Insert(ins) => {
            lemma_rows_shape(a1, a2, db, ins.rows@, 0, 0);
            let r = render_rows(a1, db, ins.rows@, 0, 0);
            lemma_list_shape(a1, a2, db, a1.len() as int, ins.returning@, 0, r.1.len());
        },
    }
}

/// A JSON aggregate renders with an empty-array default, so a relation with no rows
/// gives `[]`, never `null`.
pub proof fn lemma_json_agg_defaults_to_empty_array(arena: Seq<Column>, db: Database, idx: int, n: nat)
    requires
        0 <= idx < arena.len(),
        arena[idx] matches Column::JsonAgg(inner) && inner < idx,
    ensures
        render(arena, db, idx, n).0 == "coalesce(json_agg("@ + render(arena, db, arena[idx]->JsonAgg_0 as int, n).0
            + "), '[]'::json)"@,
{
}

pub open spec fn render_binary(arena: Seq<Column>, db: Database, bound: int, a: usize, op: Seq<char>, b: usize, n: nat) -> (Seq<char>, Seq<ParamView>)
    decreases bound, 0int, 0int,
{
    if a >= bound || b >= bound {
        (Seq::empty(), Seq::empty())
    } else {
        let l = render(arena, db, a as int, n);
        let r = render(arena, db, b as int, n + l.1.len());
        (l.0 + op + r.0, l.1 + r.1)
    }
}

pub open spec fn render_predicate(arena: Seq<Column>, db: Database, bound: int, p: Predicate, n: nat) -> (Seq<char>, Seq<ParamView>)
    decreases bound, 0int, pred_size(p),
{
    match p {
        Predicate::True => ("TRUE"@, Seq::empty()),
        Predicate::False => ("FALSE"@, Seq::empty()),
        Predicate::Eq(a, b) => render_binary(arena, db, bound, a, " = "@, b, n),
        Predicate::Neq(a, b) => render_binary(arena, db, bound, a, " <> "@, b, n),
        Predicate::Lt(a, b) => render_binary(arena, db, bound, a, " < "@, b, n),
        Predicate::Lte(a, b) => render_binary(arena, db, bound, a, " <= "@, b, n),
        Predicate::Gt(a, b) => render_binary(arena, db, bound, a, " > "@, b, n),
        Predicate::Gte(a, b) => render_binary(arena, db, bound, a, " >= "@, b, n),
        Predicate::In(a, b) => {
            let inner = render_binary(arena, db, bound, a, " = ANY("@, b, n);
            (inner.0 + ")"@, inner.1)
        },
        Predicate::And(a, b) => {
            let l = render_predicate(arena, db, bound, *a, n);
            let r = render_predicate(arena, db, bound, *b, n + l.1.len());
            ("("@ + l.0 + ") AND ("@ + r.0 + ")"@, l.1 + r.1)
        },
        Predicate::Or(a, b) => {
            let l = render_predicate(arena, db, bound, *a, n);
            let r = render_predicate(arena, db, bound, *b, n + l.1.len());
            ("("@ + l.0 + ") OR ("@ + r.0 + ")"@, l.1 + r.1)
        },
        Predicate::Not(a) => {
            let inner = render_predicate(arena, db, bound, *a, n);
            ("NOT ("@ + inner.0 + ")"@, inner.1)
        },
    }
}


/// A copy of a list of values, equal element for element.
pub fn copy_values(values: &Vec<SqlValue>) -> (r: Vec<SqlValue>)
    ensures
        r@ == values@,
{
    let mut out: Vec<SqlValue> = Vec::new();
    let mut i: usize = 0;
    while i < values.len()
        invariant
            i <= values@.len(),
            out@ == values@.subrange(0, i as int),
        decreases values.len() - i,
    {
        out.push(values[i].copy());
        i = i + 1;
        assert(out@ =~= values@.subrange(0, i as int));
    }
    assert(values@.subrange(0, values@.len() as int) =~= values@);
    out
}

fn digit_str(d: usize) -> (r: &'static str)
    requires
        d < 10,
    ensures
        r@ == digit_text(d as nat),
{
    if d == 0 { "0" } else if d == 1 { "1" } else if d == 2 { "2" } else if d == 3 { "3" }
    else if d == 4 { "4" } else if d == 5 { "5" } else if d == 6 { "6" } else if d == 7 { "7" }
    else if d == 8 { "8" } else { "9" }
}

/// Appends the decimal digits of `n`.
pub fn append_decimal(s: &mut String, n: usize)
    ensures
        final(s)@ == old(s)@ + decimal(n as nat),
    decreases n,
{
    if n >= 10 {
        append_decimal(s, n / 10);
        s.append(digit_str(n % 10));
        assert(final(s)@ =~= old(s)@ + decimal(n as nat));
    } else {
        s.append(digit_str(n));
    }
}

fn append_quoted(s: &mut String, name: &str)
    ensures
        final(s)@ == old(s)@ + quoted(name@),
{
    s.append("\"");
    s.append(name);
    s.append("\"");
    assert(final(s)@ =~= old(s)@ + quoted(name@));
}

fn append_column_name(s: &mut String, db: &Database, id: ColumnId)
    requires
        valid_column_id(*db, id),
    ensures
        final(s)@ == old(s)@ + column_text(*db, id),
{
    let c = &db.tables[id.table_id].columns[id.column_index];
    append_quoted(s, c.table_name.as_str());
    s.append(".");
    append_quoted(s, c.column_name.as_str());
    assert(final(s)@ =~= old(s)@ + column_text(*db, id));
}

pub open spec fn appended(old_b: SQLBuilder, new_b: SQLBuilder, r: (Seq<char>, Seq<ParamView>)) -> bool {
    new_b.sql@ == old_b.sql@ + r.0 && params_view(new_b.params@) == params_view(old_b.params@) + r.1
}

impl Column {
    /// Renders the node at `idx` of the arena: its text is appended to the statement and
    /// its values, in order, to the parameters.
    pub fn build(arena: &Vec<Column>, idx: usize, database: &Database, builder: &mut SQLBuilder)
        requires
            arena_wf(arena@, *database),
            idx < arena@.len(),
        ensures
            appended(*old(builder), *final(builder), render(arena@, *database, idx as int, old(builder).params@.len())),
        decreases idx, 3int, 0int,
    {
        let ghost n = builder.params@.len();
        proof {
            assert(node_wf(arena@[idx as int], idx as int, *database));
        }
        match &arena[idx] {
            Column::Physical(id) => {
                append_column_name(&mut builder.sql, database, *id);
                assert(params_view(builder.params@) =~= params_view(old(builder).params@) + Seq::<ParamView>::empty());
            },
            Column::Param(v) => {
                builder.sql.append("$");
                builder.params.push(SqlParam::Value(v.copy()));
                let k = builder.params.len();
                append_decimal(&mut builder.sql, k);
                assert(builder.sql@ =~= old(builder).sql@ + placeholder(n + 1));
                assert(params_view(builder.params@) =~= params_view(old(builder).params@) + seq![(Some(*v), Seq::<SqlValue>::empty())]);
            },
            Column::ParamList(values) => {
                builder.sql.append("$");
                builder.params.push(SqlParam::List(copy_values(values)));
                let k = builder.params.len();
                append_decimal(&mut builder.sql, k);
                assert(builder.sql@ =~= old(builder).sql@ + placeholder(n + 1));
                assert(params_view(builder.params@) =~= params_view(old(builder).params@) + seq![(None::<SqlValue>, values@)]);
            },
            Column::JsonObject(fields) => {
                builder.sql.append("json_build_object(");
                build_fields(arena, database, idx, fields, 0, builder);
                builder.sql.append(")");
                let ghost inner = render_fields(arena@, *database, idx as int, fields@, 0, n);
                assert(builder.sql@ =~= old(builder).sql@ + ("json_build_object("@ + inner.0 + ")"@));
            },
            Column::JsonAgg(inner) => {
                builder.sql.append("coalesce(json_agg(");
                Column::build(arena, *inner, database, builder);
                builder.sql.append("), '[]'::json)");
                let ghost r = render(arena@, *database, *inner as int, n);
                assert(builder.sql@ =~= old(builder).sql@ + ("coalesce(json_agg("@ + r.0 + "), '[]'::json)"@));
            },
            Column::SubSelect(select) => {
                builder.sql.append("(");
                build_select(arena, database, idx, select, builder);
                builder.sql.append(")");
                let ghost r = render_select(arena@, *database, idx as int, **select, n);
                assert(builder.sql@ =~= old(builder).sql@ + ("("@ + r.0 + ")"@));
            },
            Column::Constant(value) => {
                builder.sql.append("'");
                builder.sql.append(value.as_str());
                builder.sql.append("'");
                assert(builder.sql@ =~= old(builder).sql@ + ("'"@ + value@ + "'"@));
                assert(params_view(builder.params@) =~= params_view(old(builder).params@) + Seq::<ParamView>::empty());
            },
            Column::Star(table_name) => {
                match table_name {
                    Some(name) => {
                        append_quoted(&mut builder.sql, name.as_str());
                        builder.sql.append(".*");
                        assert(builder.sql@ =~= old(builder).sql@ + (quoted(name@) + ".*"@));
                    },
                    None => {
                        builder.sql.append("*");
                    },
                }
                assert(params_view(builder.params@) =~= params_view(old(builder).params@) + Seq::<ParamView>::empty());
            },
            Column::Null => {
                builder.sql.append("NULL");
                assert(params_view(builder.params@) =~= params_view(old(builder).params@) + Seq::<ParamView>::empty());
            },
            Column::Function { function_name, column_id } => {
                builder.sql.append(function_name.as_str());
                builder.sql.append("(");
                append_column_name(&mut builder.sql, database, *column_id);
                builder.sql.append(")");
                assert(builder.sql@ =~= old(builder).sql@ + (function_name@ + "("@ + column_text(*database, *column_id) + ")"@));
                assert(params_view(builder.params@) =~= params_view(old(builder).params@) + Seq::<ParamView>::empty());
            },
        }
    }
}

fn build_fields(arena: &Vec<Column>, database: &Database, bound: usize, fields: &Vec<(String, usize)>, k: usize, builder: &mut SQLBuilder)
    requires
        arena_wf(arena@, *database),
        bound <= arena@.len(),
        k <= fields@.len(),
        forall|j: int| 0 <= j < fields@.len() ==> #[trigger] fields@[j].1 < bound,
    ensures
        appended(*old(builder), *final(builder), render_fields(arena@, *database, bound as int, fields@, k as int, old(builder).params@.len())),
    decreases bound, 1int, fields@.len() - k,
{
    let ghost n = builder.params@.len();
    if k >= fields.len() {
        assert(builder.sql@ =~= old(builder).sql@ + Seq::<char>::empty());
        assert(params_view(builder.params@) =~= params_view(old(builder).params@) + Seq::<ParamView>::empty());
        return;
    }
    let ghost sep: Seq<char> = if k == 0 { Seq::empty() } else { ", "@ };
    if k != 0 {
        builder.sql.append(", ");
    } else {
        assert(builder.sql@ =~= old(builder).sql@ + sep);
    }
    builder.sql.append("'");
    builder.sql.append(fields[k].0.as_str());
    builder.sql.append("', ");
    let ghost mid = *builder;
    Column::build(arena, fields[k].1, database, builder);
    let ghost head = render(arena@, *database, fields@[k as int].1 as int, n);
    let ghost after_head = *builder;
    build_fields(arena, database, bound, fields, k + 1, builder);
    let ghost rest = render_fields(arena@, *database, bound as int, fields@, k + 1, after_head.params@.len());
    assert(after_head.params@.len() == n + head.1.len());
    assert(builder.sql@ =~= old(builder).sql@ + (sep + "'"@ + fields@[k as int].0@ + "', "@ + head.0 + rest.0));
    assert(params_view(builder.params@) =~= params_view(old(builder).params@) + (head.1 + rest.1));
}

fn build_list(arena: &Vec<Column>, database: &Database, bound: usize, cols: &Vec<usize>, k: usize, builder: &mut SQLBuilder)
    requires
        arena_wf(arena@, *database),
        bound <= arena@.len(),
        k <= cols@.len(),
        forall|j: int| 0 <= j < cols@.len() ==> #[trigger] cols@[j] < bound,
    ensures
        appended(*old(builder), *final(builder), render_list(arena@, *database, bound as int, cols@, k as int, old(builder).params@.len())),
    decreases bound, 1int, cols@.len() - k,
{
    let ghost n = builder.params@.len();
    if k >= cols.len() {
        assert(builder.sql@ =~= old(builder).sql@ + Seq::<char>::empty());
        assert(params_view(builder.params@) =~= params_view(old(builder).params@) + Seq::<ParamView>::empty());
        return;
    }
    let ghost sep: Seq<char> = if k == 0 { Seq::empty() } else { ", "@ };
    if k != 0 {
        builder.sql.append(", ");
    } else {
        assert(builder.sql@ =~= old(builder).sql@ + sep);
    }
    Column::build(arena, cols[k], database, builder);
    let ghost head = render(arena@, *database, cols@[k as int] as int, n);
    let ghost after_head = *builder;
    build_list(arena, database, bound, cols, k + 1, builder);
    let ghost rest = render_list(arena@, *database, bound as int, cols@, k + 1, after_head.params@.len());
    assert(builder.sql@ =~= old(builder).sql@ + (sep + head.0 + rest.0));
    assert(params_view(builder.params@) =~= params_view(old(builder).params@) + (head.1 + rest.1));
}

fn build_select(arena: &Vec<Column>, database: &Database, bound: usize, select: &Select, builder: &mut SQLBuilder)
    requires
        arena_wf(arena@, *database),
        bound <= arena@.len(),
        select_wf(*select, bound as int, *database),
    ensures
        appended(*old(builder), *final(builder), render_select(arena@, *database, bound as int, *select, old(builder).params@.len())),
    decreases bound, 2int, 0int,
{
    let ghost n = builder.params@.len();
    builder.sql.append("select ");
    build_list(arena, database, bound, &select.columns, 0, builder);
    let ghost cols = render_list(arena@, *database, bound as int, select.columns@, 0, n);
    let ghost after_cols = *builder;
    builder.sql.append(" from ");
    append_quoted(&mut builder.sql, database.tables[select.table_id].name.as_str());
    builder.sql.append(" where ");
    build_predicate(arena, database, bound, &select.predicate, builder);
    let ghost pred = render_predicate(arena@, *database, bound as int, select.predicate, after_cols.params@.len());
    let ghost after_pred = *builder;
    build_tail(database, select, builder);
    let ghost tail = render_tail(*database, *select, after_pred.params@.len());
    assert(builder.sql@ =~= old(builder).sql@ + ("select "@ + cols.0 + " from "@ + quoted(database.tables@[select.table_id as int].name@) + " where "@ + pred.0 + tail.0));
    assert(params_view(builder.params@) =~= params_view(old(builder).params@) + (cols.1 + pred.1 + tail.1));
}

fn build_order(database: &Database, elems: &Vec<(ColumnId, Ordering)>, k: usize, s: &mut String)
    requires
        k <= elems@.len(),
        order_ids_valid(*database, elems@),
    ensures
        final(s)@ == old(s)@ + order_text(*database, elems@, k as int),
    decreases elems@.len() - k,
{
    if k >= elems.len() {
        assert(s@ =~= old(s)@ + Seq::<char>::empty());
        return;
    }
    let ghost sep: Seq<char> = if k == 0 { Seq::empty() } else { ", "@ };
    if k != 0 {
        s.append(", ");
    } else {
        assert(s@ =~= old(s)@ + sep);
    }
    assert(valid_column_id(*database, elems@[k as int].0));
    append_column_name(s, database, elems[k].0);
    match elems[k].1 {
        Ordering::Asc => s.append(" ASC"),
        Ordering::Desc => s.append(" DESC"),
    }
    let ghost dir: Seq<char> = match elems@[k as int].1 {
        Ordering::Asc => " ASC"@,
        Ordering::Desc => " DESC"@,
    };
    build_order(database, elems, k + 1, s);
    assert(s@ =~= old(s)@ + (sep + column_text(*database, elems@[k as int].0) + dir + order_text(*database, elems@, k + 1)));
}

fn build_tail(database: &Database, select: &Select, builder: &mut SQLBuilder)
    requires
        order_wf(*database, select.order_by),
    ensures
        appended(*old(builder), *final(builder), render_tail(*database, *select, old(builder).params@.len())),
{
    let ghost n = builder.params@.len();
    match &select.order_by {
        Some(ob) => {
            if ob.0.len() > 0 {
                builder.sql.append(" order by ");
                build_order(database, &ob.0, 0, &mut builder.sql);
            }
        },
        None => {},
    }
    let ghost after_order = *builder;
    match select.limit {
        Some(l) => {
            builder.sql.append(" limit $");
            builder.params.push(SqlParam::Value(SqlValue::Int(l.0)));
            let k = builder.params.len();
            append_decimal(&mut builder.sql, k);
        },
        None => {},
    }
    let ghost after_limit = *builder;
    match select.offset {
        Some(o) => {
            builder.sql.append(" offset $");
            builder.params.push(SqlParam::Value(SqlValue::Int(o.0)));
            let k = builder.params.len();
            append_decimal(&mut builder.sql, k);
        },
        None => {},
    }
    proof {
        reveal_strlit(" limit $");
        reveal_strlit(" limit ");
        reveal_strlit(" offset $");
        reveal_strlit(" offset ");
        reveal_strlit("$");
        let t = render_tail(*database, *select, n);
        assert(builder.sql@ =~= old(builder).sql@ + t.0);
        assert(params_view(builder.params@) =~= params_view(old(builder).params@) + t.1);
    }
}

fn build_binary(arena: &Vec<Column>, database: &Database, bound: usize, a: usize, op: &str, b: usize, builder: &mut SQLBuilder)
    requires
        arena_wf(arena@, *database),
        bound <= arena@.len(),
        a < bound,
        b < bound,
    ensures
        appended(*old(builder), *final(builder), render_binary(arena@, *database, bound as int, a, op@, b, old(builder).params@.len())),
    decreases bound, 0int, 0int,
{
    let ghost n = builder.params@.len();
    Column::build(arena, a, database, builder);
    let ghost l = render(arena@, *database, a as int, n);
    let ghost mid = *builder;
    builder.sql.append(op);
    Column::build(arena, b, database, builder);
    let ghost r = render(arena@, *database, b as int, mid.params@.len());
    assert(builder.sql@ =~= old(builder).sql@ + (l.0 + op@ + r.0));
    assert(params_view(builder.params@) =~= params_view(old(builder).params@) + (l.1 + r.1));
}

fn build_predicate(arena: &Vec<Column>, database: &Database, bound: usize, p: &Predicate, builder: &mut SQLBuilder)
    requires
        arena_wf(arena@, *database),
        bound <= arena@.len(),
        pred_below(*p, bound as int),
    ensures
        appended(*old(builder), *final(builder), render_predicate(arena@, *database, bound as int, *p, old(builder).params@.len())),
    decreases bound, 0int, pred_size(*p),
{
    let ghost n = builder.params@.len();
    match p {
        Predicate::True => {
            builder.sql.append("TRUE");
            assert(params_view(builder.params@) =~= params_view(old(builder).params@) + Seq::<ParamView>::empty());
        },
        Predicate::False => {
            builder.sql.append("FALSE");
            assert(params_view(builder.params@) =~= params_view(old(builder).params@) + Seq::<ParamView>::empty());
        },
        Predicate::Eq(a, b) => build_binary(arena, database, bound, *a, " = ", *b, builder),
        Predicate::Neq(a, b) => build_binary(arena, database, bound, *a, " <> ", *b, builder),
        Predicate::Lt(a, b) => build_binary(arena, database, bound, *a, " < ", *b, builder),
        Predicate::Lte(a, b) => build_binary(arena, database, bound, *a, " <= ", *b, builder),
        Predicate::Gt(a, b) => build_binary(arena, database, bound, *a, " > ", *b, builder),
        Predicate::Gte(a, b) => build_binary(arena, database, bound, *a, " >= ", *b, builder),
        Predicate::In(a, b) => {
            build_binary(arena, database, bound, *a, " = ANY(", *b, builder);
            let ghost inner = render_binary(arena@, *database, bound as int, *a, " = ANY("@, *b, n);
            builder.sql.append(")");
            assert(builder.sql@ =~= old(builder).sql@ + (inner.0 + ")"@));
        },
        Predicate::And(a, b) => {
            builder.sql.append("(");
            build_predicate(arena, database, bound, a, builder);
            let ghost l = render_predicate(arena@, *database, bound as int, **a, n);
            let ghost mid = *builder;
            builder.sql.append(") AND (");
            build_predicate(arena, database, bound, b, builder);
            let ghost r = render_predicate(arena@, *database, bound as int, **b, mid.params@.len());
            builder.sql.append(")");
            assert(builder.sql@ =~= old(builder).sql@ + ("("@ + l.0 + ") AND ("@ + r.0 + ")"@));
            assert(params_view(builder.params@) =~= params_view(old(builder).params@) + (l.1 + r.1));
        },
        Predicate::Or(a, b) => {
            builder.sql.append("(");
            build_predicate(arena, database, bound, a, builder);
            let ghost l = render_predicate(arena@, *database, bound as int, **a, n);
            let ghost mid = *builder;
            builder.sql.append(") OR (");
            build_predicate(arena, database, bound, b, builder);
            let ghost r = render_predicate(arena@, *database, bound as int, **b, mid.params@.len());
            builder.sql.append(")");
            assert(builder.sql@ =~= old(builder).sql@ + ("("@ + l.0 + ") OR ("@ + r.0 + ")"@));
            assert(params_view(builder.params@) =~= params_view(old(builder).params@) + (l.1 + r.1));
        },
        Predicate::Not(a) => {
            builder.sql.append("NOT (");
            build_predicate(arena, database, bound, a, builder);
            let ghost inner = render_predicate(arena@, *database, bound as int, **a, n);
            builder.sql.append(")");
            assert(builder.sql@ =~= old(builder).sql@ + ("NOT ("@ + inner.0 + ")"@));
        },
    }
}

fn build_names(db: &Database, ids: &Vec<ColumnId>, k: usize, s: &mut String)
    requires
        k <= ids@.len(),
        forall|j: int| 0 <= j < ids@.len() ==> valid_column_id(*db, #[trigger] ids@[j]),
    ensures
        final(s)@ == old(s)@ + render_names(*db, ids@, k as int),
    decreases ids@.len() - k,
{
    if k >= ids.len() {
        assert(s@ =~= old(s)@ + Seq::<char>::empty());
        return;
    }
    let ghost sep: Seq<char> = if k == 0 { Seq::empty() } else { ", "@ };
    if k != 0 {
        s.append(", ");
    } else {
        assert(s@ =~= old(s)@ + sep);
    }
    let id = ids[k];
    assert(valid_column_id(*db, ids@[k as int]));
    append_quoted(s, db.tables[id.table_id].columns[id.column_index].column_name.as_str());
    let ghost mid = s@;
    build_names(db, ids, k + 1, s);
    let ghost c = db.tables@[id.table_id as int].columns@[id.column_index as int];
    assert(s@ =~= old(s)@ + (sep + quoted(c.column_name@) + render_names(*db, ids@, k + 1)));
}

fn build_rows(arena: &Vec<Column>, database: &Database, rows: &Vec<Vec<usize>>, k: usize, builder: &mut SQLBuilder)
    requires
        arena_wf(arena@, *database),
        k <= rows@.len(),
        forall|r: int, j: int| 0 <= r < rows@.len() && 0 <= j < rows@[r]@.len() ==> #[trigger] rows@[r]@[j] < arena@.len(),
    ensures
        appended(*old(builder), *final(builder), render_rows(arena@, *database, rows@, k as int, old(builder).params@.len())),
    decreases rows@.len() - k,
{
    let ghost n = builder.params@.len();
    if k >= rows.len() {
        assert(builder.sql@ =~= old(builder).sql@ + Seq::<char>::empty());
        assert(params_view(builder.params@) =~= params_view(old(builder).params@) + Seq::<ParamView>::empty());
        return;
    }
    let ghost sep: Seq<char> = if k == 0 { Seq::empty() } else { ", "@ };
    if k != 0 {
        builder.sql.append(", ");
    } else {
        assert(builder.sql@ =~= old(builder).sql@ + sep);
    }
    builder.sql.append("(");
    assert(forall|j: int| 0 <= j < rows@[k as int]@.len() ==> #[trigger] rows@[k as int]@[j] < arena@.len());
    build_list(arena, database, arena.len(), &rows[k], 0, builder);
    let ghost head = render_list(arena@, *database, arena@.len() as int, rows@[k as int]@, 0, n);
    builder.sql.append(")");
    let ghost mid = *builder;
    build_rows(arena, database, rows, k + 1, builder);
    let ghost rest = render_rows(arena@, *database, rows@, k + 1, mid.params@.len());
    assert(builder.sql@ =~= old(builder).sql@ + (sep + "("@ + head.0 + ")"@ + rest.0));
    assert(params_view(builder.params@) =~= params_view(old(builder).params@) + (head.1 + rest.1));
}

fn build_insert(arena: &Vec<Column>, database: &Database, ins: &Insert, builder: &mut SQLBuilder)
    requires
        arena_wf(arena@, *database),
        insert_wf(*ins, arena@.len() as int, *database),
    ensures
        appended(*old(builder), *final(builder), render_insert(arena@, *database, *ins, old(builder).params@.len())),
{
    let ghost n = builder.params@.len();
    builder.sql.append("insert into ");
    append_quoted(&mut builder.sql, database.tables[ins.table_id].name.as_str());
    builder.sql.append(" (");
    build_names(database, &ins.column_ids, 0, &mut builder.sql);
    builder.sql.append(") values ");
    build_rows(arena, database, &ins.rows, 0, builder);
    let ghost rows = render_rows(arena@, *database, ins.rows@, 0, n);
    let ghost mid = *builder;
    let ghost ret = render_list(arena@, *database, arena@.len() as int, ins.returning@, 0, mid.params@.len());
    if ins.returning.len() != 0 {
        builder.sql.append(" returning ");
        build_list(arena, database, arena.len(), &ins.returning, 0, builder);
    } else {
        assert(ret.1 =~= Seq::<ParamView>::empty());
        assert(builder.sql@ =~= mid.sql@ + Seq::<char>::empty());
    }
    let ghost ret_text: Seq<char> = if ins.returning@.len() == 0 { Seq::empty() } else { " returning "@ + ret.0 };
    assert(builder.sql@ =~= old(builder).sql@ + ("insert into "@ + quoted(database.tables@[ins.table_id as int].name@) + " ("@
        + render_names(*database, ins.column_ids@, 0) + ") values "@ + rows.0 + ret_text));
    assert(params_view(builder.params@) =~= params_view(old(builder).params@) + (rows.1 + ret.1));
}

fn column_id_is_valid(db: &Database, id: ColumnId) -> (r: bool)
    ensures
        r == valid_column_id(*db, id),
{
    id.table_id < db.tables.len() && id.column_index < db.tables[id.table_id].columns.len()
}

fn indices_below(v: &Vec<usize>, bound: usize) -> (r: bool)
    ensures
        r == forall|k: int| 0 <= k < v@.len() ==> #[trigger] v@[k] < bound,
{
    let mut k: usize = 0;
    while k < v.len()
        invariant
            k <= v@.len(),
            forall|j: int| 0 <= j < k ==> #[trigger] v@[j] < bound,
        decreases v.len() - k,
    {
        if v[k] >= bound {
            return false;
        }
        k = k + 1;
    }
    true
}

fn predicate_is_below(p: &Predicate, bound: usize) -> (r: bool)
    ensures
        r == pred_below(*p, bound as int),
    decreases p,
{
    match p {
        Predicate::True | Predicate::False => true,
        Predicate::Eq(a, b) | Predicate::Neq(a, b) | Predicate::Lt(a, b) | Predicate::Lte(a, b)
        | Predicate::Gt(a, b) | Predicate::Gte(a, b) | Predicate::In(a, b) => *a < bound && *b < bound,
        Predicate::And(a, b) | Predicate::Or(a, b) => predicate_is_below(a, bound) && predicate_is_below(b, bound),
        Predicate::Not(a) => predicate_is_below(a, bound),
    }
}

fn select_is_wf(s: &Select, bound: usize, db: &Database) -> (r: bool)
    ensures
        r == select_wf(*s, bound as int, *db),
{
    s.table_id < db.tables.len() && indices_below(&s.columns, bound) && predicate_is_below(&s.predicate, bound)
        && order_is_wf(db, &s.order_by)
}

fn order_is_wf(db: &Database, order_by: &Option<OrderBy>) -> (r: bool)
    ensures
        r == order_wf(*db, *order_by),
{
    match order_by {
        None => true,
        Some(ob) => {
            let mut k: usize = 0;
            while k < ob.0.len()
                invariant
                    *order_by == Some(*ob),
                    k <= ob.0@.len(),
                    forall|j: int| 0 <= j < k ==> #[trigger] valid_column_id(*db, ob.0@[j].0),
                decreases ob.0.len() - k,
            {
                if !column_id_is_valid(db, ob.0[k].0) {
                    assert(!valid_column_id(*db, ob.0@[k as int].0));
                    return false;
                }
                k = k + 1;
            }
            true
        },
    }
}

/// Whether every node of the arena refers only to earlier nodes and to the schema.
pub fn arena_is_wf(arena: &Vec<Column>, database: &Database) -> (r: bool)
    ensures
        r == arena_wf(arena@, *database),
{
    let mut i: usize = 0;
    while i < arena.len()
        invariant
            i <= arena@.len(),
            forall|j: int| 0 <= j < i ==> node_wf(#[trigger] arena@[j], j, *database),
        decreases arena.len() - i,
    {
        let ok = match &arena[i] {
            Column::Physical(id) => column_id_is_valid(database, *id),
            Column::JsonObject(fields) => {
                let mut k: usize = 0;
                let mut all = true;
                while k < fields.len()
                    invariant
                        k <= fields@.len(),
                        all == forall|j: int| 0 <= j < k ==> #[trigger] fields@[j].1 < i,
                    decreases fields.len() - k,
                {
                    if fields[k].1 >= i {
                        all = false;
                    }
                    k = k + 1;
                }
                all
            },
            Column::JsonAgg(inner) => *inner < i,
            Column::SubSelect(s) => select_is_wf(s, i, database),
            Column::Function { function_name: _, column_id } => column_id_is_valid(database, *column_id),
            _ => true,
        };
        if !ok {
            return false;
        }
        i = i + 1;
    }
    true
}

/// Whether a statement refers only to nodes below `bound` and to the schema.
pub fn operation_is_wf(op: &SQLOperation, bound: usize, database: &Database) -> (r: bool)
    ensures
        r == operation_wf(*op, bound as int, *database),
{
    match op {
        SQLOperation::Select(s) => select_is_wf(s, bound, database),
        SQLOperation::Insert(ins) => {
            if ins.table_id >= database.tables.len() || !indices_below(&ins.returning, bound) {
                return false;
            }
            let mut k: usize = 0;
            while k < ins.column_ids.len()
                invariant
                    *op == SQLOperation::Insert(*ins),
                    k <= ins.column_ids@.len(),
                    forall|j: int| 0 <= j < k ==> valid_column_id(*database, #[trigger] ins.column_ids@[j]),
                decreases ins.column_ids.len() - k,
            {
                if !column_id_is_valid(database, ins.column_ids[k]) {
                    return false;
                }
                k = k + 1;
            }
            let mut r: usize = 0;
            while r < ins.rows.len()
                invariant
                    *op == SQLOperation::Insert(*ins),
                    ins.table_id < database.tables@.len(),
                    forall|j: int| 0 <= j < ins.returning@.len() ==> #[trigger] ins.returning@[j] < bound,
                    forall|j: int| 0 <= j < ins.column_ids@.len() ==> valid_column_id(*database, #[trigger] ins.column_ids@[j]),
                    r <= ins.rows@.len(),
                    forall|q: int, j: int| 0 <= q < r && 0 <= j < ins.rows@[q]@.len() ==> #[trigger] ins.rows@[q]@[j] < bound,
                decreases ins.rows.len() - r,
            {
                if !indices_below(&ins.rows[r], bound) {
                    proof {
                        let j = choose|j: int| 0 <= j < ins.rows@[r as int]@.len() && !(#[trigger] ins.rows@[r as int]@[j] < bound);
                        assert(!(ins.rows@[r as int]@[j] < bound));
                    }
                    return false;
                }
                r = r + 1;
            }
            true
        },
    }
}

impl SQLOperation {
    /// Renders the statement: its text, and the values bound to its placeholders in order.
    pub fn build(&self, arena: &Vec<Column>, database: &Database) -> (r: SQLBuilder)
        requires
            arena_wf(arena@, *database),
            operation_wf(*self, arena@.len() as int, *database),
        ensures
            r.sql@ == render_operation(arena@, *database, *self).0,
            params_view(r.params@) == render_operation(arena@, *database, *self).1,
    {
        let mut builder = SQLBuilder::new();
        match self {
            SQLOperation::Select(s) => build_select(arena, database, arena.len(), s, &mut builder),
            SQLOperation::Insert(i) => build_insert(arena, database, i, &mut builder),
        }
        assert(builder.sql@ =~= render_operation(arena@, *database, *self).0);
        assert(params_view(builder.params@) =~= render_operation(arena@, *database, *self).1);
        builder
    }
}

} // verus!
