//! Tests of the optional wrapper: absence passes without consulting the
//! inner schema; present values get exactly the inner schema's outcome.

use zod_rs::{boolean, number, optional, string, Number, Schema, Value};

#[allow(dead_code)]
fn num(v: f64) -> Number {
    Number::from_bits(v.to_bits(), format!("{}", v))
}

#[allow(dead_code)]
fn vnum(v: f64) -> Value {
    Value::Num(num(v))
}

#[allow(dead_code)]
fn text(s: &str) -> Value {
    Value::Text(s.to_string())
}

#[test]
fn test_optional_validation() {
    let schema = optional(string());

    assert!(schema.validate(&Value::Absence).is_ok());
    assert!(schema.validate(&text("hello")).is_ok());
    assert!(schema.validate(&vnum(123.0)).is_err());
}

#[test]
fn test_null_returns_none() {
    let schema = optional(string());
    let result = schema.validate(&Value::Absence);
    assert!(result.is_ok());
    assert_eq!(result.unwrap(), None);
}

#[test]
fn test_value_returns_some() {
    let schema = optional(string());
    let result = schema.validate(&text("hello"));
    assert!(result.is_ok());
    assert_eq!(result.unwrap(), Some(text("hello")));
}

#[test]
fn test_empty_string_is_not_null() {
    let schema = optional(string());
    let result = schema.validate(&text(""));
    assert!(result.is_ok());
    assert_eq!(result.unwrap(), Some(text("")));
}

#[test]
fn test_zero_is_not_null() {
    let schema = optional(number());
    let result = schema.validate(&vnum(0.0));
    assert!(result.is_ok());
    assert_eq!(result.unwrap(), Some(vnum(0.0)));
}

#[test]
fn test_false_is_not_null() {
    let schema = optional(boolean());
    let result = schema.validate(&Value::Boolean(false));
    assert!(result.is_ok());
    assert_eq!(result.unwrap(), Some(Value::Boolean(false)));
}

#[test]
fn test_optional_with_min_length() {
    let schema = optional(string().min(5));

    // absence passes
    assert!(schema.validate(&Value::Absence).is_ok());
    // valid string passes
    assert!(schema.validate(&text("hello")).is_ok());
    // invalid string fails
    assert!(schema.validate(&text("hi")).is_err());
}

#[test]
fn test_optional_with_positive_number() {
    let schema = optional(number().positive());

    // absence passes
    assert!(schema.validate(&Value::Absence).is_ok());
    // positive number passes
    assert!(schema.validate(&vnum(5.0)).is_ok());
    // negative number fails
    assert!(schema.validate(&vnum(-5.0)).is_err());
    // zero fails (not positive)
    assert!(schema.validate(&vnum(0.0)).is_err());
}

#[test]
fn test_optional_with_int() {
    let schema = optional(number().integer());

    assert!(schema.validate(&Value::Absence).is_ok());
    assert!(schema.validate(&vnum(5.0)).is_ok());
    assert!(schema.validate(&vnum(5.5)).is_err());
}

#[test]
fn test_optional_string_rejects_number() {
    let schema = optional(string());
    assert!(schema.validate(&vnum(123.0)).is_err());
}

#[test]
fn test_optional_number_rejects_string() {
    let schema = optional(number());
    assert!(schema.validate(&text("123")).is_err());
}

#[test]
fn test_optional_rejects_array() {
    let schema = optional(string());
    assert!(schema.validate(&Value::List(vec![text("hello")])).is_err());
}

#[test]
fn test_optional_rejects_object() {
    let schema = optional(string());
    assert!(schema.validate(&Value::Mapping(vec![("value".to_string(), text("hello"))])).is_err());
}

#[test]
fn test_schema_optional_method() {
    let schema = string().min(3).optional();

    assert!(schema.validate(&Value::Absence).is_ok());
    assert!(schema.validate(&text("hello")).is_ok());
    assert!(schema.validate(&text("hi")).is_err());
}

#[test]
fn test_number_optional_method() {
    let schema = number().positive().optional();

    assert!(schema.validate(&Value::Absence).is_ok());
    assert!(schema.validate(&vnum(5.0)).is_ok());
    assert!(schema.validate(&vnum(-5.0)).is_err());
}

#[test]
fn test_double_optional() {
    let schema = optional(optional(string()));

    // absence yields no value
    let result = schema.validate(&Value::Absence);
    assert!(result.is_ok());
    assert_eq!(result.unwrap(), None);

    // a text yields the validated text
    let result = schema.validate(&text("hello"));
    assert!(result.is_ok());
    assert_eq!(result.unwrap(), Some(text("hello")));
}
