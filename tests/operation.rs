use exo_core::argument::{cast_to_i64, ArgumentValue, Limit, LimitParameter, NumberValue, Offset, OffsetParameter};
use exo_core::operation::{singular_result, ExecutionError};

#[test]
fn no_row_is_null() {
    assert_eq!(singular_result(vec![]), Ok(None));
}

#[test]
fn one_row_is_that_row() {
    assert_eq!(singular_result(vec!["{\"id\": 1}".to_string()]), Ok(Some("{\"id\": 1}".to_string())));
}

#[test]
fn two_rows_are_an_integrity_error() {
    let r = singular_result(vec!["{}".to_string(), "{}".to_string()]);
    assert_eq!(r, Err(ExecutionError::TooManyRows(2)));
    assert_eq!(r.unwrap_err().message(), "Result has 2 entries; expected only zero or one");
}

#[test]
fn many_rows_report_their_count() {
    let rows: Vec<String> = (0..12).map(|i| i.to_string()).collect();
    assert_eq!(singular_result(rows).unwrap_err().message(), "Result has 12 entries; expected only zero or one");
}

#[test]
fn integer_arguments_cast() {
    assert_eq!(cast_to_i64(&ArgumentValue::Number(NumberValue::PosInt(10))), Ok(10));
    assert_eq!(cast_to_i64(&ArgumentValue::Number(NumberValue::NegInt(-3))), Ok(-3));
    assert_eq!(cast_to_i64(&ArgumentValue::Number(NumberValue::PosInt(i64::MAX as u64))), Ok(i64::MAX));
}

#[test]
fn non_integer_arguments_are_refused() {
    assert_eq!(
        cast_to_i64(&ArgumentValue::Number(NumberValue::PosInt(i64::MAX as u64 + 1))),
        Err(ExecutionError::NumberOutOfRange)
    );
    assert_eq!(cast_to_i64(&ArgumentValue::Number(NumberValue::Float("1.5".to_string()))), Err(ExecutionError::NumberOutOfRange));
    assert_eq!(cast_to_i64(&ArgumentValue::String("10".to_string())), Err(ExecutionError::NotANumber));
    assert_eq!(ExecutionError::NotANumber.message(), "Not a number");
}

#[test]
fn limit_and_offset_map_to_sql() {
    let limit = LimitParameter { name: "limit".to_string() };
    let offset = OffsetParameter { name: "offset".to_string() };
    assert_eq!(limit.map_to_sql(&ArgumentValue::Number(NumberValue::PosInt(5))), Ok(Limit(5)));
    assert_eq!(offset.map_to_sql(&ArgumentValue::Number(NumberValue::PosInt(20))), Ok(Offset(20)));
    assert_eq!(limit.map_to_sql(&ArgumentValue::Boolean(true)), Err(ExecutionError::NotANumber));
}
