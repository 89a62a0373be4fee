use vstd::prelude::*;
use crate::value::{SqlValue, same_value, value_lt, list_contains, list_has};
use crate::column_path::ColumnIdPath;
use crate::predicate::{AbstractPredicate, ColumnPath, and_spec, or_spec, not_spec, is_normal};

verus! {

/// A selection out of the request's contexts, such as `AccessContext.role`.
#[derive(Debug, PartialEq)]
pub enum AccessContextSelection {
    Context(String),
    Select(Box<AccessContextSelection>, String),
}

/// A leaf of an access rule.
#[derive(Debug, PartialEq)]
pub enum DatabaseAccessPrimitiveExpression {
    ContextSelection(AccessContextSelection),
    Column(ColumnIdPath),
    StringLiteral(String),
    BooleanLiteral(bool),
    NumberLiteral(i64),
}

/// A comparison between two leaves of an access rule.
#[derive(Debug, PartialEq)]
pub enum AccessRelationalOp {
    Eq(Box<DatabaseAccessPrimitiveExpression>, Box<DatabaseAccessPrimitiveExpression>),
    Neq(Box<DatabaseAccessPrimitiveExpression>, Box<DatabaseAccessPrimitiveExpression>),
    Lt(Box<DatabaseAccessPrimitiveExpression>, Box<DatabaseAccessPrimitiveExpression>),
    Lte(Box<DatabaseAccessPrimitiveExpression>, Box<DatabaseAccessPrimitiveExpression>),
    Gt(Box<DatabaseAccessPrimitiveExpression>, Box<DatabaseAccessPrimitiveExpression>),
    Gte(Box<DatabaseAccessPrimitiveExpression>, Box<DatabaseAccessPrimitiveExpression>),
    In(Box<DatabaseAccessPrimitiveExpression>, Box<DatabaseAccessPrimitiveExpression>),
}

/// A logical combination of access rules.
#[derive(Debug, PartialEq)]
pub enum AccessLogicalExpression {
    Not(Box<AccessPredicateExpression>),
    And(Box<AccessPredicateExpression>, Box<AccessPredicateExpression>),
    Or(Box<AccessPredicateExpression>, Box<AccessPredicateExpression>),
}

/// An access rule.
#[derive(Debug, PartialEq)]
pub enum AccessPredicateExpression {
    LogicalOp(AccessLogicalExpression),
    RelationalOp(AccessRelationalOp),
    BooleanLiteral(bool),
}

/// What a context path holds for the current request.
#[derive(Debug, PartialEq)]
pub enum ContextValue {
    Scalar(SqlValue),
    List(Vec<SqlValue>),
}

/// One known value of the request's context: the path (context name, then field names)
/// and the value found there.
#[derive(Debug, PartialEq)]
pub struct ContextEntry {
    pub path: Vec<String>,
    pub value: ContextValue,
}

/// The values that the request supplies to access rules. A path with no entry is
/// unresolved (for example the role of an anonymous user).
#[derive(Debug, PartialEq)]
pub struct RequestContext {
    pub entries: Vec<ContextEntry>,
}

pub open spec fn path_view(path: Seq<String>) -> Seq<Seq<char>> {
    path.map_values(|s: String| s@)
}

/// The path that a selection names: the context, then each selected field.
pub open spec fn selection_path(sel: AccessContextSelection) -> Seq<Seq<char>>
    decreases sel,
{
    match sel {
        AccessContextSelection::Context(name) => seq![name@],
        AccessContextSelection::Select(inner, field) => selection_path(*inner).push(field@),
    }
}

/// The index of the first entry at `path`, searching from `from`.
pub open spec fn find_entry(entries: Seq<ContextEntry>, path: Seq<Seq<char>>, from: int) -> Option<int>
    decreases entries.len() - from,
{
    if from < 0 || from >= entries.len() {
        None
    } else if path_view(entries[from].path@) == path {
        Some(from)
    } else {
        find_entry(entries, path, from + 1)
    }
}

/// The entry of the context that a selection resolves to, if any.
pub open spec fn lookup(ctx: RequestContext, sel: AccessContextSelection) -> Option<int> {
    find_entry(ctx.entries@, selection_path(sel), 0)
}

impl RequestContext {
    /// A context that resolves nothing (an anonymous request with no claims).
    pub fn new() -> (r: RequestContext)
        ensures
            r.entries@.len() == 0,
    {
        RequestContext { entries: Vec::new() }
    }

    /// Adds a value at a path; an earlier entry at the same path takes precedence.
    pub fn add(&mut self, path: Vec<String>, value: ContextValue)
        ensures
            final(self).entries@ == old(self).entries@.push(ContextEntry { path, value }),
    {
        self.entries.push(ContextEntry { path, value });
    }
}

/// Whether the first `len` elements of `path` are the path that `sel` names.
fn selection_matches(sel: &AccessContextSelection, path: &Vec<String>, len: usize) -> (r: bool)
    requires
        len <= path@.len(),
    ensures
        r == (selection_path(*sel) == path_view(path@.take(len as int))),
    decreases sel,
{
    let ghost pv = path_view(path@.take(len as int));
    match sel {
        AccessContextSelection::Context(name) => {
            if len != 1 {
                proof {
                    assert(selection_path(*sel).len() == 1);
                }
                return false;
            }
            let r = String::eq(&path[0], name);
            proof {
                assert(pv[0] == path@[0]@);
                if r {
                    assert(pv =~= seq![name@]);
                }
            }
            r
        }
        AccessContextSelection::Select(inner, field) => {
            if len == 0 {
                proof {
                    assert(selection_path(*sel).len() > 0);
                }
                return false;
            }
            let last = String::eq(&path[len - 1], field);
            let rest = selection_matches(inner, path, len - 1);
            proof {
                let shorter = path_view(path@.take(len - 1));
                assert(pv =~= shorter.push(path@[len - 1]@));
                let sp = selection_path(**inner);
                if selection_path(*sel) == pv {
                    assert(sp.push(field@).drop_last() =~= sp);
                    assert(shorter.push(path@[len - 1]@).drop_last() =~= shorter);
                    assert(sp.push(field@).last() == field@);
                }
            }
            last && rest
        }
    }
}

/// The value that a primitive expression reduces to once the request's context is known.
#[derive(Debug, PartialEq)]
pub enum SolvedPrimitiveExpression<'a> {
    Value(SqlValue),
    ValueList(&'a Vec<SqlValue>),
    Column(&'a ColumnIdPath),
    UnresolvedContext(&'a AccessContextSelection),
}

/// The kind of a relational operator.
#[derive(Debug, Clone, Copy, PartialEq, Eq, Structural)]
pub enum RelationalKind {
    Eq,
    Neq,
    Lt,
    Lte,
    Gt,
    Gte,
    In,
}

pub open spec fn op_kind(op: AccessRelationalOp) -> RelationalKind {
    match op {
        AccessRelationalOp::Eq(_, _) => RelationalKind::Eq,
        AccessRelationalOp::Neq(_, _) => RelationalKind::Neq,
        AccessRelationalOp::Lt(_, _) => RelationalKind::Lt,
        AccessRelationalOp::Lte(_, _) => RelationalKind::Lte,
        AccessRelationalOp::Gt(_, _) => RelationalKind::Gt,
        AccessRelationalOp::Gte(_, _) => RelationalKind::Gte,
        AccessRelationalOp::In(_, _) => RelationalKind::In,
    }
}

pub open spec fn op_sides(op: AccessRelationalOp) -> (DatabaseAccessPrimitiveExpression, DatabaseAccessPrimitiveExpression) {
    match op {
        AccessRelationalOp::Eq(l, r) => (*l, *r),
        AccessRelationalOp::Neq(l, r) => (*l, *r),
        AccessRelationalOp::Lt(l, r) => (*l, *r),
        AccessRelationalOp::Lte(l, r) => (*l, *r),
        AccessRelationalOp::Gt(l, r) => (*l, *r),
        AccessRelationalOp::Gte(l, r) => (*l, *r),
        AccessRelationalOp::In(l, r) => (*l, *r),
    }
}

/// What a primitive expression reduces to: a context selection to the value of its entry
/// (unresolved when there is none), a column to itself, a literal to its value.
pub open spec fn reduce_spec<'a>(ctx: &'a RequestContext, expr: &'a DatabaseAccessPrimitiveExpression) -> SolvedPrimitiveExpression<'a> {
    match expr {
        DatabaseAccessPrimitiveExpression::ContextSelection(sel) => match lookup(*ctx, *sel) {
            Some(i) => match ctx.entries@[i].value {
                ContextValue::Scalar(v) => SolvedPrimitiveExpression::Value(v),
                ContextValue::List(l) => SolvedPrimitiveExpression::ValueList(&l),
            },
            None => SolvedPrimitiveExpression::UnresolvedContext(sel),
        },
        DatabaseAccessPrimitiveExpression::Column(path) => SolvedPrimitiveExpression::Column(path),
        DatabaseAccessPrimitiveExpression::StringLiteral(s) => SolvedPrimitiveExpression::Value(SqlValue::Text(*s)),
        DatabaseAccessPrimitiveExpression::BooleanLiteral(b) => SolvedPrimitiveExpression::Value(SqlValue::Bool(*b)),
        DatabaseAccessPrimitiveExpression::NumberLiteral(n) => SolvedPrimitiveExpression::Value(SqlValue::Int(*n)),
    }
}

/// Two lists hold the same values in the same order.
pub open spec fn same_list(a: Seq<SqlValue>, b: Seq<SqlValue>) -> bool {
    a.len() == b.len() && forall|i: int| 0 <= i < a.len() ==> same_value(#[trigger] a[i], b[i])
}

/// The truth of a comparison between two concrete values. Only integers, booleans and
/// text are ordered; `In` holds when the left value is an element of the right list.
pub open spec fn decide(kind: RelationalKind, l: SolvedPrimitiveExpression, r: SolvedPrimitiveExpression) -> bool {
    match (l, r) {
        (SolvedPrimitiveExpression::Value(a), SolvedPrimitiveExpression::Value(b)) => match kind {
            RelationalKind::Eq => same_value(a, b),
            RelationalKind::Neq => !same_value(a, b),
            RelationalKind::Lt => value_lt(a, b),
            RelationalKind::Lte => value_lt(a, b) || same_value(a, b),
            RelationalKind::Gt => value_lt(b, a),
            RelationalKind::Gte => value_lt(b, a) || same_value(a, b),
            RelationalKind::In => false,
        },
        (SolvedPrimitiveExpression::ValueList(a), SolvedPrimitiveExpression::ValueList(b)) => match kind {
            RelationalKind::Eq => same_list(a@, b@),
            RelationalKind::Neq => !same_list(a@, b@),
            _ => false,
        },
        (SolvedPrimitiveExpression::Value(a), SolvedPrimitiveExpression::ValueList(b)) => match kind {
            RelationalKind::Neq => true,
            RelationalKind::In => list_contains(b@, a),
            _ => false,
        },
        (SolvedPrimitiveExpression::ValueList(_), SolvedPrimitiveExpression::Value(_)) => kind == RelationalKind::Neq,
        _ => false,
    }
}

/// The operand for a reduced expression that is a column or a concrete value.
pub open spec fn operand_spec<'a>(e: SolvedPrimitiveExpression<'a>) -> ColumnPath<'a> {
    match e {
        SolvedPrimitiveExpression::Column(p) => ColumnPath::Physical(p),
        SolvedPrimitiveExpression::ValueList(l) => ColumnPath::LiteralList(l),
        SolvedPrimitiveExpression::Value(v) => match v {
            SqlValue::Null => ColumnPath::Null,
            _ => ColumnPath::Literal(v),
        },
        SolvedPrimitiveExpression::UnresolvedContext(_) => ColumnPath::Null,
    }
}

pub open spec fn node<'a>(kind: RelationalKind, l: ColumnPath<'a>, r: ColumnPath<'a>) -> AbstractPredicate<'a> {
    match kind {
        RelationalKind::Eq => AbstractPredicate::Eq(l, r),
        RelationalKind::Neq => AbstractPredicate::Neq(l, r),
        RelationalKind::Lt => AbstractPredicate::Lt(l, r),
        RelationalKind::Lte => AbstractPredicate::Lte(l, r),
        RelationalKind::Gt => AbstractPredicate::Gt(l, r),
        RelationalKind::Gte => AbstractPredicate::Gte(l, r),
        RelationalKind::In => AbstractPredicate::In(l, r),
    }
}

/// The operator that compares the same two operands written the other way round.
pub open spec fn flipped(kind: RelationalKind) -> RelationalKind {
    match kind {
        RelationalKind::Lt => RelationalKind::Gt,
        RelationalKind::Lte => RelationalKind::Gte,
        RelationalKind::Gt => RelationalKind::Lt,
        RelationalKind::Gte => RelationalKind::Lte,
        k => k,
    }
}

pub open spec fn is_column(e: SolvedPrimitiveExpression) -> bool {
    e is Column
}

pub open spec fn is_unresolved(e: SolvedPrimitiveExpression) -> bool {
    e is UnresolvedContext
}

/// How a comparison of two reduced operands is solved. An unresolved context value fails
/// closed: `False`, except for `Neq`, which is `True`. Two concrete values are decided
/// now. Otherwise the comparison is pushed to the database, with the column first (and
/// the operator turned round to keep its meaning), except for `In`, which keeps its order.
pub open spec fn combine<'a>(kind: RelationalKind, l: SolvedPrimitiveExpression<'a>, r: SolvedPrimitiveExpression<'a>) -> AbstractPredicate<'a> {
    if is_unresolved(l) || is_unresolved(r) {
        if kind == RelationalKind::Neq { AbstractPredicate::True } else { AbstractPredicate::False }
    } else if !is_column(l) && !is_column(r) {
        if decide(kind, l, r) { AbstractPredicate::True } else { AbstractPredicate::False }
    } else if !is_column(l) && kind != RelationalKind::In {
        node(flipped(kind), operand_spec(r), operand_spec(l))
    } else {
        node(kind, operand_spec(l), operand_spec(r))
    }
}

pub open spec fn relational_spec<'a>(ctx: &'a RequestContext, op: &'a AccessRelationalOp) -> AbstractPredicate<'a> {
    let (l, r) = op_sides(*op);
    combine(op_kind(*op), reduce_spec(ctx, &l), reduce_spec(ctx, &r))
}

/// How an access rule is solved against a request's context.
pub open spec fn solve_spec<'a>(ctx: &'a RequestContext, expr: &'a AccessPredicateExpression) -> AbstractPredicate<'a>
    decreases expr,
{
    match expr {
        AccessPredicateExpression::BooleanLiteral(b) => if *b { AbstractPredicate::True } else { AbstractPredicate::False },
        AccessPredicateExpression::RelationalOp(op) => relational_spec(ctx, op),
        AccessPredicateExpression::LogicalOp(AccessLogicalExpression::Not(e)) => not_spec(solve_spec(ctx, e)),
        AccessPredicateExpression::LogicalOp(AccessLogicalExpression::And(a, b)) => and_spec(solve_spec(ctx, a), solve_spec(ctx, b)),
        AccessPredicateExpression::LogicalOp(AccessLogicalExpression::Or(a, b)) => or_spec(solve_spec(ctx, a), solve_spec(ctx, b)),
    }
}


/// Solves access rules against one request's context.
pub struct PostgresAccessSolver<'a> {
    pub request_context: &'a RequestContext,
}

/// The index of the first entry of the context at the path that `sel` names.
fn find_entry_index(ctx: &RequestContext, sel: &AccessContextSelection) -> (r: Option<usize>)
    ensures
        r matches Some(i) ==> lookup(*ctx, *sel) == Some(i as int) && i < ctx.entries@.len(),
        r is None ==> lookup(*ctx, *sel) is None,
{
    let ghost path = selection_path(*sel);
    let mut i: usize = 0;
    while i < ctx.entries.len()
        invariant
            i <= ctx.entries@.len(),
            path == selection_path(*sel),
            find_entry(ctx.entries@, path, 0) == find_entry(ctx.entries@, path, i as int),
        decreases ctx.entries.len() - i,
    {
        let entry_path = &ctx.entries[i].path;
        let found = selection_matches(sel, entry_path, entry_path.len());
        proof {
            assert(entry_path@.take(entry_path@.len() as int) =~= entry_path@);
            assert(found == (path_view(ctx.entries@[i as int].path@) == path));
        }
        if found {
            return Some(i);
        }
        i = i + 1;
    }
    None
}

fn same_list_exec(a: &Vec<SqlValue>, b: &Vec<SqlValue>) -> (r: bool)
    ensures
        r == same_list(a@, b@),
{
    if a.len() != b.len() {
        return false;
    }
    let mut i: usize = 0;
    while i < a.len()
        invariant
            i <= a@.len(),
            a@.len() == b@.len(),
            forall|j: int| 0 <= j < i ==> same_value(#[trigger] a@[j], b@[j]),
        decreases a.len() - i,
    {
        if !a[i].same_as(&b[i]) {
            return false;
        }
        i = i + 1;
    }
    true
}

fn decide_exec(kind: RelationalKind, l: &SolvedPrimitiveExpression, r: &SolvedPrimitiveExpression) -> (res: bool)
    ensures
        res == decide(kind, *l, *r),
{
    match (l, r) {
        (SolvedPrimitiveExpression::Value(a), SolvedPrimitiveExpression::Value(b)) => match kind {
            RelationalKind::Eq => a.same_as(b),
            RelationalKind::Neq => !a.same_as(b),
            RelationalKind::Lt => a.less_than(b),
            RelationalKind::Lte => a.less_than(b) || a.same_as(b),
            RelationalKind::Gt => b.less_than(a),
            RelationalKind::Gte => b.less_than(a) || a.same_as(b),
            RelationalKind::In => false,
        },
        (SolvedPrimitiveExpression::ValueList(a), SolvedPrimitiveExpression::ValueList(b)) => match kind {
            RelationalKind::Eq => same_list_exec(a, b),
            RelationalKind::Neq => !same_list_exec(a, b),
            _ => false,
        },
        (SolvedPrimitiveExpression::Value(a), SolvedPrimitiveExpression::ValueList(b)) => match kind {
            RelationalKind::Neq => true,
            RelationalKind::In => list_has(b, a),
            _ => false,
        },
        (SolvedPrimitiveExpression::ValueList(_), SolvedPrimitiveExpression::Value(_)) => match kind {
            RelationalKind::Neq => true,
            _ => false,
        },
        _ => false,
    }
}

fn operand<'a>(e: SolvedPrimitiveExpression<'a>) -> (r: ColumnPath<'a>)
    ensures
        r == operand_spec(e),
{
    match e {
        SolvedPrimitiveExpression::Column(p) => ColumnPath::Physical(p),
        SolvedPrimitiveExpression::ValueList(l) => ColumnPath::LiteralList(l),
        SolvedPrimitiveExpression::Value(v) => match v {
            SqlValue::Null => ColumnPath::Null,
            _ => ColumnPath::Literal(v),
        },
        SolvedPrimitiveExpression::UnresolvedContext(_) => ColumnPath::Null,
    }
}

fn make_node<'a>(kind: RelationalKind, l: ColumnPath<'a>, r: ColumnPath<'a>) -> (res: AbstractPredicate<'a>)
    ensures
        res == node(kind, l, r),
{
    match kind {
        RelationalKind::Eq => AbstractPredicate::Eq(l, r),
        RelationalKind::Neq => AbstractPredicate::Neq(l, r),
        RelationalKind::Lt => AbstractPredicate::Lt(l, r),
        RelationalKind::Lte => AbstractPredicate::Lte(l, r),
        RelationalKind::Gt => AbstractPredicate::Gt(l, r),
        RelationalKind::Gte => AbstractPredicate::Gte(l, r),
        RelationalKind::In => AbstractPredicate::In(l, r),
    }
}

fn flip(kind: RelationalKind) -> (r: RelationalKind)
    ensures
        r == flipped(kind),
{
    match kind {
        RelationalKind::Lt => RelationalKind::Gt,
        RelationalKind::Lte => RelationalKind::Gte,
        RelationalKind::Gt => RelationalKind::Lt,
        RelationalKind::Gte => RelationalKind::Lte,
        k => k,
    }
}

/// Solves a comparison of two reduced operands (see `combine`).
pub fn combine_solved<'a>(
    kind: RelationalKind,
    l: SolvedPrimitiveExpression<'a>,
    r: SolvedPrimitiveExpression<'a>,
) -> (res: AbstractPredicate<'a>)
    ensures
        res == combine(kind, l, r),
{
    let l_unresolved = match &l {
        SolvedPrimitiveExpression::UnresolvedContext(_) => true,
        _ => false,
    };
    let r_unresolved = match &r {
        SolvedPrimitiveExpression::UnresolvedContext(_) => true,
        _ => false,
    };
    let l_column = match &l {
        SolvedPrimitiveExpression::Column(_) => true,
        _ => false,
    };
    let r_column = match &r {
        SolvedPrimitiveExpression::Column(_) => true,
        _ => false,
    };
    if l_unresolved || r_unresolved {
        match kind {
            RelationalKind::Neq => AbstractPredicate::True,
            _ => AbstractPredicate::False,
        }
    } else if !l_column && !r_column {
        AbstractPredicate::from_bool(decide_exec(kind, &l, &r))
    } else if !l_column && kind != RelationalKind::In {
        make_node(flip(kind), operand(r), operand(l))
    } else {
        make_node(kind, operand(l), operand(r))
    }
}

impl<'a> PostgresAccessSolver<'a> {
    pub fn new(request_context: &'a RequestContext) -> (r: PostgresAccessSolver<'a>)
        ensures
            r.request_context == request_context,
    {
        PostgresAccessSolver { request_context }
    }

    /// The value that the context holds at a selection, if any.
    pub fn extract_context_selection(&self, selection: &AccessContextSelection) -> (r: Option<&'a ContextValue>)
        ensures
            r is None <==> lookup(*self.request_context, *selection) is None,
            r matches Some(v) ==> exists|i: int|
                lookup(*self.request_context, *selection) == Some(i)
                && *v == self.request_context.entries@[i].value,
    {
        let ctx: &'a RequestContext = self.request_context;
        match find_entry_index(ctx, selection) {
            Some(i) => Some(&ctx.entries[i].value),
            None => None,
        }
    }

    /// Reduces a leaf of an access rule (see `reduce_spec`).
    pub fn reduce_primitive_expression(&self, expr: &'a DatabaseAccessPrimitiveExpression) -> (r: SolvedPrimitiveExpression<'a>)
        ensures
            r == reduce_spec(self.request_context, expr),
    {
        let ctx: &'a RequestContext = self.request_context;
        match expr {
            DatabaseAccessPrimitiveExpression::ContextSelection(sel) => match find_entry_index(ctx, sel) {
                Some(i) => match &ctx.entries[i].value {
                    ContextValue::Scalar(v) => SolvedPrimitiveExpression::Value(v.copy()),
                    ContextValue::List(l) => SolvedPrimitiveExpression::ValueList(l),
                },
                None => SolvedPrimitiveExpression::UnresolvedContext(sel),
            },
            DatabaseAccessPrimitiveExpression::Column(path) => SolvedPrimitiveExpression::Column(path),
            DatabaseAccessPrimitiveExpression::StringLiteral(s) => SolvedPrimitiveExpression::Value(SqlValue::Text(s.clone())),
            DatabaseAccessPrimitiveExpression::BooleanLiteral(b) => SolvedPrimitiveExpression::Value(SqlValue::Bool(*b)),
            DatabaseAccessPrimitiveExpression::NumberLiteral(n) => SolvedPrimitiveExpression::Value(SqlValue::Int(*n)),
        }
    }

    /// Solves one comparison of an access rule.
    pub fn solve_relational_op(&self, op: &'a AccessRelationalOp) -> (r: AbstractPredicate<'a>)
        ensures
            r == relational_spec(self.request_context, op),
    {
        let (kind, left, right) = match op {
            AccessRelationalOp::Eq(l, r) => (RelationalKind::Eq, l, r),
            AccessRelationalOp::Neq(l, r) => (RelationalKind::Neq, l, r),
            AccessRelationalOp::Lt(l, r) => (RelationalKind::Lt, l, r),
            AccessRelationalOp::Lte(l, r) => (RelationalKind::Lte, l, r),
            AccessRelationalOp::Gt(l, r) => (RelationalKind::Gt, l, r),
            AccessRelationalOp::Gte(l, r) => (RelationalKind::Gte, l, r),
            AccessRelationalOp::In(l, r) => (RelationalKind::In, l, r),
        };
        let l = self.reduce_primitive_expression(left);
        let r = self.reduce_primitive_expression(right);
        combine_solved(kind, l, r)
    }

    /// Solves an access rule: `True` or `False` where the context decides it, otherwise
    /// the predicate to push into the query.
    pub fn solve(&self, expr: &'a AccessPredicateExpression) -> (r: AbstractPredicate<'a>)
        ensures
            r == solve_spec(self.request_context, expr),
        decreases expr,
    {
        match expr {
            AccessPredicateExpression::BooleanLiteral(b) => AbstractPredicate::from_bool(*b),
            AccessPredicateExpression::RelationalOp(op) => self.solve_relational_op(op),
            AccessPredicateExpression::LogicalOp(AccessLogicalExpression::Not(e)) => self.solve(e).not(),
            AccessPredicateExpression::LogicalOp(AccessLogicalExpression::And(a, b)) => {
                let pa = self.solve(a);
                let pb = self.solve(b);
                pa.and(pb)
            }
            AccessPredicateExpression::LogicalOp(AccessLogicalExpression::Or(a, b)) => {
                let pa = self.solve(a);
                let pb = self.solve(b);
                pa.or(pb)
            }
        }
    }
}


pub open spec fn is_literal(e: DatabaseAccessPrimitiveExpression) -> bool {
    e is StringLiteral || e is BooleanLiteral || e is NumberLiteral
}

pub open spec fn not_expr(e: AccessPredicateExpression) -> AccessPredicateExpression {
    AccessPredicateExpression::LogicalOp(AccessLogicalExpression::Not(Box::new(e)))
}

pub open spec fn and_expr(a: AccessPredicateExpression, b: AccessPredicateExpression) -> AccessPredicateExpression {
    AccessPredicateExpression::LogicalOp(AccessLogicalExpression::And(Box::new(a), Box::new(b)))
}

pub open spec fn or_expr(a: AccessPredicateExpression, b: AccessPredicateExpression) -> AccessPredicateExpression {
    AccessPredicateExpression::LogicalOp(AccessLogicalExpression::Or(Box::new(a), Box::new(b)))
}

/// A comparison between two literals is decided: it solves to `True` or `False`, never
/// to a predicate pushed to the database.
pub proof fn lemma_literal_comparison_decided(ctx: &RequestContext, op: &AccessRelationalOp)
    requires
        is_literal(op_sides(*op).0),
        is_literal(op_sides(*op).1),
    ensures
        relational_spec(ctx, op) == AbstractPredicate::True
            || relational_spec(ctx, op) == AbstractPredicate::False,
{
}

/// A comparison with a context selection that the request does not resolve fails
/// closed: `False` for `Eq`, `Lt`, `Lte`, `Gt`, `Gte` and `In`, `True` for `Neq`,
/// whatever the other operand is.
pub proof fn lemma_unresolved_context_fails_closed(
    ctx: &RequestContext,
    op: &AccessRelationalOp,
    sel: &AccessContextSelection,
)
    requires
        op_sides(*op).0 == DatabaseAccessPrimitiveExpression::ContextSelection(*sel)
            || op_sides(*op).1 == DatabaseAccessPrimitiveExpression::ContextSelection(*sel),
        lookup(*ctx, *sel) is None,
    ensures
        op_kind(*op) == RelationalKind::Neq ==> relational_spec(ctx, op) == AbstractPredicate::True,
        op_kind(*op) != RelationalKind::Neq ==> relational_spec(ctx, op) == AbstractPredicate::False,
{
}

/// What the solver returns is in normal form.
pub proof fn lemma_solve_normal(ctx: &RequestContext, expr: &AccessPredicateExpression)
    ensures
        is_normal(solve_spec(ctx, expr)),
    decreases expr,
{
    match expr {
        AccessPredicateExpression::BooleanLiteral(_) => {},
        AccessPredicateExpression::RelationalOp(op) => {},
        AccessPredicateExpression::LogicalOp(AccessLogicalExpression::Not(e)) => {
            lemma_solve_normal(ctx, e);
        },
        AccessPredicateExpression::LogicalOp(AccessLogicalExpression::And(a, b)) => {
            lemma_solve_normal(ctx, a);
            lemma_solve_normal(ctx, b);
        },
        AccessPredicateExpression::LogicalOp(AccessLogicalExpression::Or(a, b)) => {
            lemma_solve_normal(ctx, a);
            lemma_solve_normal(ctx, b);
        },
    }
}

/// Boolean laws of the solver: a double negation solves as the rule itself, `True`
/// is the identity of `And` and `False` that of `Or`.
pub proof fn lemma_solver_boolean_laws(ctx: &RequestContext, p: AccessPredicateExpression)
    ensures
        solve_spec(ctx, &not_expr(not_expr(p))) == solve_spec(ctx, &p),
        solve_spec(ctx, &and_expr(AccessPredicateExpression::BooleanLiteral(true), p)) == solve_spec(ctx, &p),
        solve_spec(ctx, &or_expr(AccessPredicateExpression::BooleanLiteral(false), p)) == solve_spec(ctx, &p),
{
    let q = solve_spec(ctx, &p);
    lemma_solve_normal(ctx, &p);
    crate::predicate::lemma_not_involutive(q);
    let once = not_expr(p);
    assert(solve_spec(ctx, &once) == not_spec(q));
    assert(solve_spec(ctx, &not_expr(once)) == not_spec(solve_spec(ctx, &once)));
    let t = AccessPredicateExpression::BooleanLiteral(true);
    assert(solve_spec(ctx, &t) == AbstractPredicate::True);
    assert(solve_spec(ctx, &and_expr(t, p)) == and_spec(solve_spec(ctx, &t), q));
    let f = AccessPredicateExpression::BooleanLiteral(false);
    assert(solve_spec(ctx, &f) == AbstractPredicate::False);
    assert(solve_spec(ctx, &or_expr(f, p)) == or_spec(solve_spec(ctx, &f), q));
    crate::predicate::lemma_identities(q);
}

} // verus!
