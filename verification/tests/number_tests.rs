//! Tests of the number schema: bounds, sign constraints, the integer and
//! finiteness checks, and type rejection.

use zod_rs::{number, Number, Value};

#[allow(dead_code)]
fn num(v: f64) -> Number {
    Number::from_bits(v.to_bits(), format!("{}", v))
}

#[allow(dead_code)]
fn vnum(v: f64) -> Value {
    Value::Num(num(v))
}

#[allow(dead_code)]
fn text(s: &str) -> Value {
    Value::Text(s.to_string())
}

#[test]
fn test_number_validation() {
    let schema = number().min(num(0.0)).max(num(100.0));

    assert!(schema.validate(&vnum(50.5)).is_ok());
    assert!(schema.validate(&vnum(-1.0)).is_err());
    assert!(schema.validate(&vnum(101.0)).is_err());
    assert!(schema.validate(&text("not a number")).is_err());
}

#[test]
fn test_nan_with_finite() {
    let schema = number().finite();
    assert!(schema.validate(&vnum(f64::NAN)).is_err());
}

#[test]
fn test_infinity_with_finite() {
    let schema = number().finite();
    assert!(schema.validate(&vnum(f64::INFINITY)).is_err());
}

#[test]
fn test_neg_infinity_with_finite() {
    let schema = number().finite();
    assert!(schema.validate(&vnum(f64::NEG_INFINITY)).is_err());
}

#[test]
fn test_finite_accepts_normal_numbers() {
    let schema = number().finite();
    assert!(schema.validate(&vnum(0.0)).is_ok());
    assert!(schema.validate(&vnum(1.5)).is_ok());
    assert!(schema.validate(&vnum(-100.0)).is_ok());
}

#[test]
fn test_very_large_number() {
    let schema = number();
    assert!(schema.validate(&vnum(f64::MAX)).is_ok());
}

#[test]
fn test_very_small_positive_number() {
    let schema = number();
    assert!(schema.validate(&vnum(f64::MIN_POSITIVE)).is_ok());
}

#[test]
fn test_negative_zero() {
    let schema = number();
    assert!(schema.validate(&vnum(-0.0)).is_ok());
    // -0.0 equals 0.0 in IEEE 754
    assert_eq!(schema.validate(&vnum(-0.0)).unwrap(), num(0.0));
}

#[test]
fn test_zero_as_integer() {
    let schema = number().integer();
    assert!(schema.validate(&vnum(0.0)).is_ok());
}

#[test]
fn test_positive_integer() {
    let schema = number().integer();
    assert!(schema.validate(&vnum(5.0)).is_ok());
}

#[test]
fn test_negative_integer() {
    let schema = number().integer();
    assert!(schema.validate(&vnum(-5.0)).is_ok());
}

#[test]
fn test_float_fails_int() {
    let schema = number().integer();
    assert!(schema.validate(&vnum(5.5)).is_err());
    assert!(schema.validate(&vnum(0.1)).is_err());
    assert!(schema.validate(&vnum(-3.14)).is_err());
}

#[test]
fn test_very_small_fraction_fails_int() {
    let schema = number().integer();
    assert!(schema.validate(&vnum(5.0000001)).is_err());
}

#[test]
fn test_zero_with_positive() {
    let schema = number().positive();
    assert!(schema.validate(&vnum(0.0)).is_err()); // 0 is not positive
}

#[test]
fn test_zero_with_negative() {
    let schema = number().negative();
    assert!(schema.validate(&vnum(0.0)).is_err()); // 0 is not negative
}

#[test]
fn test_zero_with_nonnegative() {
    let schema = number().nonnegative();
    assert!(schema.validate(&vnum(0.0)).is_ok()); // 0 is nonnegative
}

#[test]
fn test_zero_with_nonpositive() {
    let schema = number().nonpositive();
    assert!(schema.validate(&vnum(0.0)).is_ok()); // 0 is nonpositive
}

#[test]
fn test_positive_number_with_positive() {
    let schema = number().positive();
    assert!(schema.validate(&vnum(0.0001)).is_ok());
    assert!(schema.validate(&vnum(100.0)).is_ok());
}

#[test]
fn test_negative_number_with_negative() {
    let schema = number().negative();
    assert!(schema.validate(&vnum(-0.0001)).is_ok());
    assert!(schema.validate(&vnum(-100.0)).is_ok());
}

#[test]
fn test_positive_with_nonnegative() {
    let schema = number().nonnegative();
    assert!(schema.validate(&vnum(5.0)).is_ok());
    assert!(schema.validate(&vnum(-5.0)).is_err());
}

#[test]
fn test_negative_with_nonpositive() {
    let schema = number().nonpositive();
    assert!(schema.validate(&vnum(-5.0)).is_ok());
    assert!(schema.validate(&vnum(5.0)).is_err());
}

#[test]
fn test_exactly_at_min() {
    let schema = number().min(num(5.0));
    assert!(schema.validate(&vnum(5.0)).is_ok());
    assert!(schema.validate(&vnum(4.9999)).is_err());
}

#[test]
fn test_exactly_at_max() {
    let schema = number().max(num(5.0));
    assert!(schema.validate(&vnum(5.0)).is_ok());
    assert!(schema.validate(&vnum(5.0001)).is_err());
}

#[test]
fn test_negative_min() {
    let schema = number().min(num(-10.0));
    assert!(schema.validate(&vnum(-10.0)).is_ok());
    assert!(schema.validate(&vnum(-5.0)).is_ok());
    assert!(schema.validate(&vnum(-11.0)).is_err());
}

#[test]
fn test_negative_max() {
    let schema = number().max(num(-1.0));
    assert!(schema.validate(&vnum(-1.0)).is_ok());
    assert!(schema.validate(&vnum(-5.0)).is_ok());
    assert!(schema.validate(&vnum(0.0)).is_err());
}

#[test]
fn test_min_equals_max() {
    let schema = number().min(num(5.0)).max(num(5.0));
    assert!(schema.validate(&vnum(5.0)).is_ok());
    assert!(schema.validate(&vnum(5.1)).is_err());
    assert!(schema.validate(&vnum(4.9)).is_err());
}

#[test]
fn number_test_impossible_constraint_min_greater_than_max() {
    let schema = number().min(num(10.0)).max(num(5.0));
    // All numbers will fail
    assert!(schema.validate(&vnum(7.0)).is_err());
    assert!(schema.validate(&vnum(3.0)).is_err());
    assert!(schema.validate(&vnum(12.0)).is_err());
}

#[test]
fn test_conflicting_positive_and_negative() {
    // Both positive and negative means nothing can pass
    let schema = number().positive().negative();
    assert!(schema.validate(&vnum(5.0)).is_err());
    assert!(schema.validate(&vnum(-5.0)).is_err());
    assert!(schema.validate(&vnum(0.0)).is_err());
}

#[test]
fn number_test_rejects_null() {
    let schema = number();
    assert!(schema.validate(&Value::Absence).is_err());
}

#[test]
fn number_test_rejects_boolean() {
    let schema = number();
    assert!(schema.validate(&Value::Boolean(true)).is_err());
    assert!(schema.validate(&Value::Boolean(false)).is_err());
}

#[test]
fn number_test_rejects_string() {
    let schema = number();
    assert!(schema.validate(&text("123")).is_err());
    assert!(schema.validate(&text("3.14")).is_err());
}

#[test]
fn number_test_rejects_array() {
    let schema = number();
    assert!(schema.validate(&Value::List(vec![vnum(1.0), vnum(2.0), vnum(3.0)])).is_err());
}

#[test]
fn number_test_rejects_object() {
    let schema = number();
    assert!(schema.validate(&Value::Mapping(vec![("value".to_string(), vnum(42.0))])).is_err());
}

#[test]
fn test_int_and_positive() {
    let schema = number().integer().positive();
    assert!(schema.validate(&vnum(5.0)).is_ok());
    assert!(schema.validate(&vnum(0.0)).is_err()); // 0 not positive
    assert!(schema.validate(&vnum(-5.0)).is_err()); // negative
    assert!(schema.validate(&vnum(5.5)).is_err()); // not int
}

#[test]
fn test_finite_and_min_max() {
    let schema = number().finite().min(num(0.0)).max(num(100.0));
    assert!(schema.validate(&vnum(50.0)).is_ok());
    assert!(schema.validate(&vnum(f64::INFINITY)).is_err());
    assert!(schema.validate(&vnum(150.0)).is_err());
}

#[test]
fn test_nonnegative_int() {
    let schema = number().nonnegative().integer();
    assert!(schema.validate(&vnum(0.0)).is_ok());
    assert!(schema.validate(&vnum(5.0)).is_ok());
    assert!(schema.validate(&vnum(-1.0)).is_err());
    assert!(schema.validate(&vnum(5.5)).is_err());
}

#[test]
fn test_json_integer_parsed_as_f64() {
    let schema = number();
    // Whole-number input compares equal to its fractional spelling
    let result = schema.validate(&vnum(42.0));
    assert!(result.is_ok());
    assert_eq!(result.unwrap(), num(42.0));
}
