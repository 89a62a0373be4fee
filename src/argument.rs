use vstd::prelude::*;
use crate::operation::ExecutionError;

verus! {

/// A GraphQL number: a non-negative integer, a negative integer, or a number with a
/// fraction or exponent, kept as its text.
#[derive(Debug, PartialEq)]
pub enum NumberValue {
    PosInt(u64),
    NegInt(i64),
    Float(String),
}

/// A GraphQL argument value.
#[derive(Debug, PartialEq)]
pub enum ArgumentValue {
    Null,
    Number(NumberValue),
    String(String),
    Boolean(bool),
    List(Vec<ArgumentValue>),
    Object(Vec<(String, ArgumentValue)>),
}

/// The number as a 64-bit signed integer, when it is an integer that fits.
pub open spec fn as_i64_spec(n: NumberValue) -> Option<i64> {
    match n {
        NumberValue::PosInt(u) => if u <= i64::MAX { Some(u as i64) } else { None },
        NumberValue::NegInt(i) => Some(i),
        NumberValue::Float(_) => None,
    }
}

impl NumberValue {
    pub fn as_i64(&self) -> (r: Option<i64>)
        ensures
            r == as_i64_spec(*self),
    {
        match self {
            NumberValue::PosInt(u) => if *u <= i64::MAX as u64 { Some(*u as i64) } else { None },
            NumberValue::NegInt(i) => Some(*i),
            NumberValue::Float(_) => None,
        }
    }
}

/// What an argument that must be an integer gives.
pub open spec fn cast_spec(argument: ArgumentValue) -> Result<i64, ExecutionError> {
    match argument {
        ArgumentValue::Number(n) => match as_i64_spec(n) {
            Some(i) => Ok(i),
            None => Err(ExecutionError::NumberOutOfRange),
        },
        _ => Err(ExecutionError::NotANumber),
    }
}

/// Reads an argument that must be an integer.
pub fn cast_to_i64(argument: &ArgumentValue) -> (r: Result<i64, ExecutionError>)
    ensures
        r == cast_spec(*argument),
{
    match argument {
        ArgumentValue::Number(n) => match n.as_i64() {
            Some(i) => Ok(i),
            None => Err(ExecutionError::NumberOutOfRange),
        },
        _ => Err(ExecutionError::NotANumber),
    }
}

/// The number of rows a query returns at most.
#[derive(Debug, Clone, Copy, PartialEq, Eq, Structural)]
pub struct Limit(pub i64);

/// The number of rows a query skips.
#[derive(Debug, Clone, Copy, PartialEq, Eq, Structural)]
pub struct Offset(pub i64);

/// The `limit` parameter of a collection query.
#[derive(Debug, PartialEq)]
pub struct LimitParameter {
    pub name: String,
}

/// The `offset` parameter of a collection query.
#[derive(Debug, PartialEq)]
pub struct OffsetParameter {
    pub name: String,
}

impl LimitParameter {
    pub fn map_to_sql(&self, argument: &ArgumentValue) -> (r: Result<Limit, ExecutionError>)
        ensures
            r matches Ok(l) ==> cast_spec(*argument) == Ok::<i64, ExecutionError>(l.0),
            r matches Err(e) ==> cast_spec(*argument) == Err::<i64, ExecutionError>(e),
    {
        match cast_to_i64(argument) {
            Ok(i) => Ok(Limit(i)),
            Err(e) => Err(e),
        }
    }
}

impl OffsetParameter {
    pub fn map_to_sql(&self, argument: &ArgumentValue) -> (r: Result<Offset, ExecutionError>)
        ensures
            r matches Ok(o) ==> cast_spec(*argument) == Ok::<i64, ExecutionError>(o.0),
            r matches Err(e) ==> cast_spec(*argument) == Err::<i64, ExecutionError>(e),
    {
        match cast_to_i64(argument) {
            Ok(i) => Ok(Offset(i)),
            Err(e) => Err(e),
        }
    }
}

} // verus!
