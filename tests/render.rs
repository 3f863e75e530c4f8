use slog_journald::{
    decimal_i64, decimal_u64, join_messages, render_value, ErrorChain, ErrorStep, Value,
};

fn step(message: &str, os_error: Option<i32>) -> ErrorStep {
    ErrorStep { message: message.to_string(), os_error }
}

#[test]
fn decimal_text() {
    assert_eq!(decimal_u64(0), "0");
    assert_eq!(decimal_u64(7), "7");
    assert_eq!(decimal_u64(10), "10");
    assert_eq!(decimal_u64(12344), "12344");
    assert_eq!(decimal_u64(u64::MAX), "18446744073709551615");
    assert_eq!(decimal_i64(0), "0");
    assert_eq!(decimal_i64(-5), "-5");
    assert_eq!(decimal_i64(i64::MIN), "-9223372036854775808");
    assert_eq!(decimal_i64(i64::MAX), "9223372036854775807");
}

#[test]
fn primitive_values() {
    assert_eq!(render_value(&Value::Unit), "");
    assert_eq!(render_value(&Value::Absent), "None");
    assert_eq!(render_value(&Value::Bool(true)), "true");
    assert_eq!(render_value(&Value::Bool(false)), "false");
    assert_eq!(render_value(&Value::Char('x')), "x");
    assert_eq!(render_value(&Value::U8(255)), "255");
    assert_eq!(render_value(&Value::I8(-128)), "-128");
    assert_eq!(render_value(&Value::U16(65535)), "65535");
    assert_eq!(render_value(&Value::I16(-300)), "-300");
    assert_eq!(render_value(&Value::U32(42)), "42");
    assert_eq!(render_value(&Value::I32(-42)), "-42");
    assert_eq!(render_value(&Value::U64(1000)), "1000");
    assert_eq!(render_value(&Value::I64(-1000)), "-1000");
    assert_eq!(render_value(&Value::Usize(31)), "31");
    assert_eq!(render_value(&Value::Isize(-31)), "-31");
    assert_eq!(render_value(&Value::Str("bar".to_string())), "bar");
    assert_eq!(render_value(&Value::Formatted("1.5".to_string())), "1.5");
}

#[test]
fn error_chain_on_one_line() {
    let steps = vec![step("top", None), step("cause1", None), step("cause2", Some(2))];
    assert_eq!(join_messages(&steps), "top: cause1: cause2");
    let chain = ErrorChain { steps };
    assert_eq!(render_value(&Value::Error(chain)), "top: cause1: cause2");
    assert_eq!(join_messages(&vec![step("alone", None)]), "alone");
    assert_eq!(join_messages(&vec![]), "");
}
