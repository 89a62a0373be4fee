use vstd::prelude::*;
use vstd::string::StringExecFns;
use crate::access::PostgresAccessSolver;
use crate::access_builder::{ResolvedAccess, AccessRule, rule_spec};
use crate::predicate::{AbstractPredicate, and_spec};
use crate::sql::{append_decimal, decimal};

verus! {

/// The kind of database operation a field resolves to.
#[derive(Debug, Clone, Copy, PartialEq, Eq, Structural)]
pub enum SQLOperationKind {
    Create,
    Retrieve,
    Update,
    Delete,
}

/// Errors of resolving one operation.
#[derive(Debug, PartialEq)]
pub enum ExecutionError {
    /// The access rules deny the operation.
    Authorization,
    /// A to-one operation found more than one row.
    TooManyRows(usize),
    /// An argument that must be a number is not one.
    NotANumber,
    /// A number argument does not fit in 64 signed bits.
    NumberOutOfRange,
    /// An argument value that cannot be compared with a column (a list or an object).
    UnsupportedValue,
    /// A filter names an operator that does not exist.
    UnknownOperator,
}

/// The message of an error that has more than one row.
pub open spec fn too_many_rows_message(count: nat) -> Seq<char> {
    "Result has "@ + decimal(count) + " entries; expected only zero or one"@
}

impl ExecutionError {
    /// A message for the user.
    pub fn message(&self) -> (r: String)
        ensures
            *self == ExecutionError::Authorization ==> r@ == "Not authorized"@,
            self matches ExecutionError::TooManyRows(n) ==> r@ == too_many_rows_message(n as nat),
            *self == ExecutionError::NotANumber ==> r@ == "Not a number"@,
            *self == ExecutionError::NumberOutOfRange ==> r@ == "Could not cast the number to i64"@,
            *self == ExecutionError::UnsupportedValue ==> r@ == "The value cannot be compared with a column"@,
            *self == ExecutionError::UnknownOperator ==> r@ == "Unknown filter operator"@,
    {
        match self {
            ExecutionError::Authorization => String::from_str("Not authorized"),
            ExecutionError::TooManyRows(n) => {
                let mut s = String::from_str("Result has ");
                append_decimal(&mut s, *n);
                s.append(" entries; expected only zero or one");
                s
            },
            ExecutionError::NotANumber => String::from_str("Not a number"),
            ExecutionError::NumberOutOfRange => String::from_str("Could not cast the number to i64"),
            ExecutionError::UnsupportedValue => String::from_str("The value cannot be compared with a column"),
            ExecutionError::UnknownOperator => String::from_str("Unknown filter operator"),
        }
    }
}

/// The rule of a type for one kind of operation.
pub open spec fn rule_for<'a>(access: ResolvedAccess<'a>, kind: SQLOperationKind) -> AccessRule<'a> {
    match kind {
        SQLOperationKind::Create => access.creation,
        SQLOperationKind::Retrieve => access.read,
        SQLOperationKind::Update => access.update,
        SQLOperationKind::Delete => access.delete,
    }
}

fn pick_rule<'a, 'b>(access: &'b ResolvedAccess<'a>, kind: SQLOperationKind) -> (r: &'b AccessRule<'a>)
    ensures
        *r == rule_for(*access, kind),
{
    match kind {
        SQLOperationKind::Create => &access.creation,
        SQLOperationKind::Retrieve => &access.read,
        SQLOperationKind::Update => &access.update,
        SQLOperationKind::Delete => &access.delete,
    }
}

/// The access predicate of an operation whose result has the given access rules; a
/// primitive result (`None`) has no rules and is always accessible.
pub fn compute_sql_access_predicate<'a>(
    return_type_access: Option<&ResolvedAccess<'a>>,
    kind: SQLOperationKind,
    solver: &PostgresAccessSolver<'a>,
) -> (r: AbstractPredicate<'a>)
    ensures
        return_type_access is None ==> r == AbstractPredicate::<'a>::True,
        return_type_access matches Some(access) ==> r == rule_spec(*solver, rule_for(*access, kind)),
{
    match return_type_access {
        None => AbstractPredicate::True,
        Some(access) => solver.solve_rule(pick_rule(access, kind)),
    }
}

/// The access of a custom (non-database) method: denied when the rule of its result type
/// or its own rule solves to `False`, else allowed. A query is checked against the read
/// rules, a mutation against the creation rules.
pub fn compute_service_access_predicate<'a>(
    return_type_access: Option<&ResolvedAccess<'a>>,
    method_access: &ResolvedAccess<'a>,
    is_query: bool,
    solver: &PostgresAccessSolver<'a>,
) -> (r: AbstractPredicate<'a>)
    ensures
        ({
            let kind = if is_query { SQLOperationKind::Retrieve } else { SQLOperationKind::Create };
            let type_level = match return_type_access {
                None => AbstractPredicate::True,
                Some(access) => rule_spec(*solver, rule_for(*access, kind)),
            };
            let method_level = rule_spec(*solver, rule_for(*method_access, kind));
            r == if type_level == AbstractPredicate::False || method_level == AbstractPredicate::False {
                AbstractPredicate::False
            } else {
                AbstractPredicate::True
            }
        }),
{
    let kind = if is_query { SQLOperationKind::Retrieve } else { SQLOperationKind::Create };
    let type_level = compute_sql_access_predicate(return_type_access, kind, solver);
    let method_level = solver.solve_rule(pick_rule(method_access, kind));
    if type_level.is_false() || method_level.is_false() {
        AbstractPredicate::False
    } else {
        AbstractPredicate::True
    }
}

/// Rejects an operation whose access predicate is `False`; otherwise the access predicate
/// joins the operation's own filter as one more conjunct.
pub fn authorize<'a>(access: AbstractPredicate<'a>, filter: AbstractPredicate<'a>) -> (r: Result<AbstractPredicate<'a>, ExecutionError>)
    ensures
        access == AbstractPredicate::<'a>::False <==> r is Err,
        r matches Err(e) ==> e == ExecutionError::Authorization,
        r matches Ok(p) ==> p == and_spec(filter, access),
{
    if access.is_false() {
        Err(ExecutionError::Authorization)
    } else {
        Ok(filter.and(access))
    }
}

/// The response of a to-one operation: no row is `null`, one row is that row, more is an
/// integrity error; nothing is dropped silently.
pub fn singular_result(rows: Vec<String>) -> (r: Result<Option<String>, ExecutionError>)
    ensures
        rows@.len() == 0 ==> r == Ok::<Option<String>, ExecutionError>(None),
        rows@.len() == 1 ==> r == Ok::<Option<String>, ExecutionError>(Some(rows@[0])),
        rows@.len() > 1 ==> r == Err::<Option<String>, ExecutionError>(ExecutionError::TooManyRows(rows@.len() as usize)),
{
    let mut rows = rows;
    let n = rows.len();
    if n == 1 {
        Ok(rows.pop())
    } else if n == 0 {
        Ok(None)
    } else {
        Err(ExecutionError::TooManyRows(n))
    }
}

} // verus!
