use vstd::prelude::*;
use crate::value::{SqlValue, str_eq};
use crate::column_path::ColumnIdPath;
use crate::argument::{ArgumentValue, as_i64_spec};
use crate::operation::ExecutionError;
use crate::predicate::{AbstractPredicate, ColumnPath, and_spec};

verus! {

/// How a filter parameter turns its argument into a predicate.
#[derive(Debug, PartialEq)]
pub enum PredicateParameterTypeKind {
    /// The argument is compared for equality with the parameter's column.
    ImplicitEqual,
    /// The argument is an object of operators (`eq`, `lt`, ...) applied to the column;
    /// the operators are the parameters at the listed indices.
    Operator(Vec<usize>),
    /// The argument is an object of fields, each filtered by the parameter at the listed index.
    Composite(Vec<usize>),
}

/// A filter parameter. Parameters live in a `Vec` and refer to earlier ones by index.
#[derive(Debug, PartialEq)]
pub struct PredicateParameter {
    pub name: String,
    pub column_path: Option<ColumnIdPath>,
    pub kind: PredicateParameterTypeKind,
}

/// The index of the first field of an object argument named `name`.
pub open spec fn field_index(fields: Seq<(String, ArgumentValue)>, name: Seq<char>, from: int) -> Option<int>
    decreases fields.len() - from,
{
    if from < 0 || from >= fields.len() {
        None
    } else if fields[from].0@ == name {
        Some(from)
    } else {
        field_index(fields, name, from + 1)
    }
}

/// The value of an argument's field `name`: only an object has fields.
pub open spec fn component_spec(arg: ArgumentValue, name: Seq<char>) -> Option<ArgumentValue> {
    match arg {
        ArgumentValue::Object(fields) => match field_index(fields@, name, 0) {
            Some(i) => Some(fields@[i].1),
            None => None,
        },
        _ => None,
    }
}

/// The operand for an argument value: a bound literal, or an error for what no column
/// can be compared with.
pub open spec fn literal_spec<'a>(arg: ArgumentValue) -> Result<ColumnPath<'a>, ExecutionError> {
    match arg {
        ArgumentValue::Null => Ok(ColumnPath::Null),
        ArgumentValue::Boolean(b) => Ok(ColumnPath::Literal(SqlValue::Bool(b))),
        ArgumentValue::Number(n) => match as_i64_spec(n) {
            Some(i) => Ok(ColumnPath::Literal(SqlValue::Int(i))),
            None => Err(ExecutionError::NumberOutOfRange),
        },
        ArgumentValue::String(s) => Ok(ColumnPath::Literal(SqlValue::Text(s))),
        _ => Err(ExecutionError::UnsupportedValue),
    }
}

/// The comparison that a filter operator names.
pub open spec fn operator_spec<'a>(name: Seq<char>, l: ColumnPath<'a>, r: ColumnPath<'a>) -> Option<AbstractPredicate<'a>> {
    if name == "eq"@ { Some(AbstractPredicate::Eq(l, r)) }
    else if name == "neq"@ { Some(AbstractPredicate::Neq(l, r)) }
    else if name == "lt"@ { Some(AbstractPredicate::Lt(l, r)) }
    else if name == "lte"@ { Some(AbstractPredicate::Lte(l, r)) }
    else if name == "gt"@ { Some(AbstractPredicate::Gt(l, r)) }
    else if name == "gte"@ { Some(AbstractPredicate::Gte(l, r)) }
    else { None }
}

pub open spec fn op_predicate_spec<'a>(name: Seq<char>, column: ColumnPath<'a>, value: ArgumentValue) -> Result<AbstractPredicate<'a>, ExecutionError> {
    match literal_spec(value) {
        Err(e) => Err(e),
        Ok(l) => match operator_spec(name, column, l) {
            Some(p) => Ok(p),
            None => Err(ExecutionError::UnknownOperator),
        },
    }
}

/// The predicate of parameter `idx` for an argument.
pub open spec fn param_spec<'a>(params: &'a Vec<PredicateParameter>, idx: int, arg: ArgumentValue) -> Result<AbstractPredicate<'a>, ExecutionError>
    decreases idx, 1int, 0int,
{
    if idx < 0 || idx >= params@.len() {
        Ok(AbstractPredicate::True)
    } else {
        let p = &params@[idx];
        match p.kind {
            PredicateParameterTypeKind::ImplicitEqual => match p.column_path {
                Some(path) => match literal_spec(arg) {
                    Ok(l) => Ok(AbstractPredicate::Eq(ColumnPath::Physical(&path), l)),
                    Err(e) => Err(e),
                },
                None => Ok(AbstractPredicate::True),
            },
            PredicateParameterTypeKind::Operator(ops) => match p.column_path {
                Some(path) => fold_ops(params, idx, &path, ops@, 0, arg, AbstractPredicate::True),
                None => Ok(AbstractPredicate::True),
            },
            PredicateParameterTypeKind::Composite(fields) => fold_fields(params, idx, fields@, 0, arg, AbstractPredicate::True),
        }
    }
}

/// Folds the operators from the `k`-th on into `acc` with `and`; an operator that the
/// argument does not hold adds nothing.
pub open spec fn fold_ops<'a>(params: &'a Vec<PredicateParameter>, idx: int, path: &'a ColumnIdPath, ops: Seq<usize>, k: int, arg: ArgumentValue, acc: AbstractPredicate<'a>) -> Result<AbstractPredicate<'a>, ExecutionError>
    decreases idx, 0int, ops.len() - k,
{
    if k < 0 || k >= ops.len() || ops[k] >= params@.len() {
        Ok(acc)
    } else {
        let name = params@[ops[k] as int].name@;
        let next = match component_spec(arg, name) {
            Some(v) => op_predicate_spec(name, ColumnPath::Physical(path), v),
            None => Ok(AbstractPredicate::True),
        };
        match next {
            Err(e) => Err(e),
            Ok(p) => fold_ops(params, idx, path, ops, k + 1, arg, and_spec(acc, p)),
        }
    }
}

/// Folds the fields from the `k`-th on into `acc` with `and`; a field that the argument
/// does not hold adds nothing.
pub open spec fn fold_fields<'a>(params: &'a Vec<PredicateParameter>, idx: int, fields: Seq<usize>, k: int, arg: ArgumentValue, acc: AbstractPredicate<'a>) -> Result<AbstractPredicate<'a>, ExecutionError>
    decreases idx, 0int, fields.len() - k,
{
    if k < 0 || k >= fields.len() || fields[k] >= idx {
        Ok(acc)
    } else {
        let next = match component_spec(arg, params@[fields[k] as int].name@) {
            Some(v) => param_spec(params, fields[k] as int, v),
            None => Ok(AbstractPredicate::True),
        };
        match next {
            Err(e) => Err(e),
            Ok(p) => fold_fields(params, idx, fields, k + 1, arg, and_spec(acc, p)),
        }
    }
}

fn component<'b>(arg: &'b ArgumentValue, name: &str) -> (r: Option<&'b ArgumentValue>)
    ensures
        r is None <==> component_spec(*arg, name@) is None,
        r matches Some(v) ==> component_spec(*arg, name@) == Some(*v),
{
    match arg {
        ArgumentValue::Object(fields) => {
            let mut i: usize = 0;
            while i < fields.len()
                invariant
                    i <= fields@.len(),
                    *arg == ArgumentValue::Object(*fields),
                    field_index(fields@, name@, 0) == field_index(fields@, name@, i as int),
                decreases fields.len() - i,
            {
                if str_eq(fields[i].0.as_str(), name) {
                    return Some(&fields[i].1);
                }
                i = i + 1;
            }
            None
        },
        _ => None,
    }
}

/// The operand for an argument value (see `literal_spec`).
pub fn literal_column<'a>(arg: &ArgumentValue) -> (r: Result<ColumnPath<'a>, ExecutionError>)
    ensures
        r == literal_spec::<'a>(*arg),
{
    match arg {
        ArgumentValue::Null => Ok(ColumnPath::Null),
        ArgumentValue::Boolean(b) => Ok(ColumnPath::Literal(SqlValue::Bool(*b))),
        ArgumentValue::Number(n) => match n.as_i64() {
            Some(i) => Ok(ColumnPath::Literal(SqlValue::Int(i))),
            None => Err(ExecutionError::NumberOutOfRange),
        },
        ArgumentValue::String(s) => Ok(ColumnPath::Literal(SqlValue::Text(s.clone()))),
        _ => Err(ExecutionError::UnsupportedValue),
    }
}

fn op_predicate<'a>(name: &str, column: ColumnPath<'a>, value: &ArgumentValue) -> (r: Result<AbstractPredicate<'a>, ExecutionError>)
    ensures
        r == op_predicate_spec(name@, column, *value),
{
    let l = match literal_column(value) {
        Ok(l) => l,
        Err(e) => return Err(e),
    };
    if str_eq(name, "eq") { Ok(AbstractPredicate::Eq(column, l)) }
    else if str_eq(name, "neq") { Ok(AbstractPredicate::Neq(column, l)) }
    else if str_eq(name, "lt") { Ok(AbstractPredicate::Lt(column, l)) }
    else if str_eq(name, "lte") { Ok(AbstractPredicate::Lte(column, l)) }
    else if str_eq(name, "gt") { Ok(AbstractPredicate::Gt(column, l)) }
    else if str_eq(name, "gte") { Ok(AbstractPredicate::Gte(column, l)) }
    else { Err(ExecutionError::UnknownOperator) }
}


fn fold_ops_exec<'a>(
    params: &'a Vec<PredicateParameter>,
    idx: usize,
    path: &'a ColumnIdPath,
    ops: &Vec<usize>,
    k: usize,
    arg: &ArgumentValue,
    acc: AbstractPredicate<'a>,
) -> (r: Result<AbstractPredicate<'a>, ExecutionError>)
    requires
        k <= ops@.len(),
    ensures
        r == fold_ops(params, idx as int, path, ops@, k as int, *arg, acc),
    decreases idx, 0int, ops@.len() - k,
{
    if k >= ops.len() || ops[k] >= params.len() {
        return Ok(acc);
    }
    let name = params[ops[k]].name.as_str();
    let next = match component(arg, name) {
        Some(v) => op_predicate(name, ColumnPath::Physical(path), v),
        None => Ok(AbstractPredicate::True),
    };
    match next {
        Err(e) => Err(e),
        Ok(p) => fold_ops_exec(params, idx, path, ops, k + 1, arg, acc.and(p)),
    }
}

fn fold_fields_exec<'a>(
    params: &'a Vec<PredicateParameter>,
    idx: usize,
    fields: &Vec<usize>,
    k: usize,
    arg: &ArgumentValue,
    acc: AbstractPredicate<'a>,
) -> (r: Result<AbstractPredicate<'a>, ExecutionError>)
    requires
        k <= fields@.len(),
        idx < params@.len(),
    ensures
        r == fold_fields(params, idx as int, fields@, k as int, *arg, acc),
    decreases idx, 0int, fields@.len() - k,
{
    if k >= fields.len() || fields[k] >= idx {
        return Ok(acc);
    }
    let next = match component(arg, params[fields[k]].name.as_str()) {
        Some(v) => PredicateParameter::compute_predicate(params, fields[k], v),
        None => Ok(AbstractPredicate::True),
    };
    match next {
        Err(e) => Err(e),
        Ok(p) => fold_fields_exec(params, idx, fields, k + 1, arg, acc.and(p)),
    }
}

impl PredicateParameter {
    /// The predicate that parameter `idx` gives for an argument: equality with its column,
    /// or the conjunction of what each operator or field present in the argument gives,
    /// folded from `True`. Each supplied filter narrows the result.
    pub fn compute_predicate<'a>(params: &'a Vec<PredicateParameter>, idx: usize, argument_value: &ArgumentValue)
        -> (r: Result<AbstractPredicate<'a>, ExecutionError>)
        requires
            idx < params@.len(),
        ensures
            r == param_spec(params, idx as int, *argument_value),
        decreases idx, 1int, 0int,
    {
        let p = &params[idx];
        match &p.kind {
            PredicateParameterTypeKind::ImplicitEqual => match &p.column_path {
                Some(path) => match literal_column(argument_value) {
                    Ok(l) => Ok(AbstractPredicate::Eq(ColumnPath::Physical(path), l)),
                    Err(e) => Err(e),
                },
                None => Ok(AbstractPredicate::True),
            },
            PredicateParameterTypeKind::Operator(ops) => match &p.column_path {
                Some(path) => fold_ops_exec(params, idx, path, ops, 0, argument_value, AbstractPredicate::True),
                None => Ok(AbstractPredicate::True),
            },
            PredicateParameterTypeKind::Composite(fields) => fold_fields_exec(params, idx, fields, 0, argument_value, AbstractPredicate::True),
        }
    }
}

} // verus!
