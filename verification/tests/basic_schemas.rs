//! Tests of the boolean and absence-only schemas: exact type acceptance,
//! no truthiness coercion.

use zod_rs::{boolean, null, Number, Value};

#[allow(dead_code)]
fn num(v: f64) -> Number {
    Number::from_bits(v.to_bits(), format!("{}", v))
}

#[allow(dead_code)]
fn vnum(v: f64) -> Value {
    Value::Num(num(v))
}

#[allow(dead_code)]
fn text(s: &str) -> Value {
    Value::Text(s.to_string())
}

#[test]
fn test_boolean_validation() {
    let schema = boolean();

    assert!(schema.validate(&Value::Boolean(true)).is_ok());
    assert!(schema.validate(&Value::Boolean(false)).is_ok());
    assert!(schema.validate(&text("true")).is_err());
}

#[test]
fn test_true_returns_true() {
    let schema = boolean();
    let result = schema.validate(&Value::Boolean(true));
    assert!(result.is_ok());
    assert_eq!(result.unwrap(), true);
}

#[test]
fn test_false_returns_false() {
    let schema = boolean();
    let result = schema.validate(&Value::Boolean(false));
    assert!(result.is_ok());
    assert_eq!(result.unwrap(), false);
}

#[test]
fn test_rejects_number_one() {
    let schema = boolean();
    assert!(schema.validate(&vnum(1.0)).is_err());
}

#[test]
fn test_rejects_number_zero() {
    let schema = boolean();
    assert!(schema.validate(&vnum(0.0)).is_err());
}

#[test]
fn test_rejects_string_true() {
    let schema = boolean();
    assert!(schema.validate(&text("true")).is_err());
}

#[test]
fn test_rejects_string_false() {
    let schema = boolean();
    assert!(schema.validate(&text("false")).is_err());
}

#[test]
fn test_rejects_string_yes() {
    let schema = boolean();
    assert!(schema.validate(&text("yes")).is_err());
}

#[test]
fn test_rejects_string_no() {
    let schema = boolean();
    assert!(schema.validate(&text("no")).is_err());
}

#[test]
fn boolean_test_rejects_empty_string() {
    let schema = boolean();
    assert!(schema.validate(&text("")).is_err());
}

#[test]
fn boolean_test_rejects_null() {
    let schema = boolean();
    assert!(schema.validate(&Value::Absence).is_err());
}

#[test]
fn boolean_test_rejects_array() {
    let schema = boolean();
    assert!(schema.validate(&Value::List(vec![])).is_err());
    assert!(schema.validate(&Value::List(vec![Value::Boolean(true)])).is_err());
}

#[test]
fn boolean_test_rejects_object() {
    let schema = boolean();
    assert!(schema.validate(&Value::Mapping(vec![])).is_err());
    assert!(
        schema.validate(&Value::Mapping(vec![("value".to_string(), Value::Boolean(true))]))
            .is_err()
    );
}

#[test]
fn test_rejects_float() {
    let schema = boolean();
    assert!(schema.validate(&vnum(1.0)).is_err());
    assert!(schema.validate(&vnum(0.0)).is_err());
}

#[test]
fn test_rejects_negative_one() {
    let schema = boolean();
    assert!(schema.validate(&vnum(-1.0)).is_err());
}

#[test]
fn test_null_validation() {
    let schema = null();

    assert!(schema.validate(&Value::Absence).is_ok());
    assert!(schema.validate(&Value::Boolean(true)).is_err());
    assert!(schema.validate(&Value::Boolean(false)).is_err());
    assert!(schema.validate(&text("null")).is_err());
    assert!(schema.validate(&vnum(0.0)).is_err());
}

#[test]
fn test_null_returns_unit() {
    let schema = null();
    let result = schema.validate(&Value::Absence);
    assert!(result.is_ok());
    assert_eq!(result.unwrap(), ());
}

#[test]
fn null_test_rejects_empty_string() {
    let schema = null();
    assert!(schema.validate(&text("")).is_err());
}

#[test]
fn null_test_rejects_array() {
    let schema = null();
    assert!(schema.validate(&Value::List(vec![])).is_err());
}

#[test]
fn null_test_rejects_object() {
    let schema = null();
    assert!(schema.validate(&Value::Mapping(vec![])).is_err());
}
