//! Tests of the list schema: length bounds, element-wise validation with
//! index-prefixed issue paths, and type rejection.

use zod_rs::{array, number, string, Number, Value};

#[allow(dead_code)]
fn num(v: f64) -> Number {
    Number::from_bits(v.to_bits(), format!("{}", v))
}

#[allow(dead_code)]
fn vnum(v: f64) -> Value {
    Value::Num(num(v))
}

#[allow(dead_code)]
fn text(s: &str) -> Value {
    Value::Text(s.to_string())
}

#[allow(dead_code)]
fn texts(parts: &[&str]) -> Value {
    Value::List(parts.iter().map(|p| text(p)).collect())
}

#[test]
fn test_array_validation() {
    let schema = array(string()).min(1).max(3);

    assert!(schema.validate(&texts(&["hello", "world"])).is_ok());
    assert!(schema.validate(&Value::List(vec![])).is_err());
    assert!(schema.validate(&texts(&["a", "b", "c", "d"])).is_err());
    assert!(schema.validate(&Value::List(vec![vnum(1.0), vnum(2.0), vnum(3.0)])).is_err());
}

#[test]
fn test_empty_array_with_min_zero() {
    let schema = array(string()).min(0);
    assert!(schema.validate(&Value::List(vec![])).is_ok());
}

#[test]
fn test_empty_array_with_min_one() {
    let schema = array(string()).min(1);
    assert!(schema.validate(&Value::List(vec![])).is_err());
}

#[test]
fn test_empty_array_no_constraints() {
    let schema = array(string());
    assert!(schema.validate(&Value::List(vec![])).is_ok());
}

#[test]
fn test_exactly_at_min_length() {
    let schema = array(string()).min(3);
    assert!(schema.validate(&texts(&["a", "b", "c"])).is_ok());
    assert!(schema.validate(&texts(&["a", "b"])).is_err());
}

#[test]
fn test_exactly_at_max_length() {
    let schema = array(string()).max(3);
    assert!(schema.validate(&texts(&["a", "b", "c"])).is_ok());
    assert!(schema.validate(&texts(&["a", "b", "c", "d"])).is_err());
}

#[test]
fn test_exact_length() {
    let schema = array(string()).length(2);
    assert!(schema.validate(&texts(&["a", "b"])).is_ok());
    assert!(schema.validate(&texts(&["a"])).is_err());
    assert!(schema.validate(&texts(&["a", "b", "c"])).is_err());
}

#[test]
fn test_error_at_index_zero() {
    let schema = array(string().min(3));
    let result = schema.validate(&texts(&["hi"])); // "hi" is too short
    assert!(result.is_err());
    let err = result.unwrap_err();
    assert_eq!(err.issues[0].path, vec!["0"]);
}

#[test]
fn test_error_at_middle_index() {
    let schema = array(string().min(3));
    let result = schema.validate(&texts(&["hello", "hi", "world"]));
    assert!(result.is_err());
    let err = result.unwrap_err();
    assert_eq!(err.issues[0].path, vec!["1"]);
}

#[test]
fn test_multiple_errors_across_indices() {
    let schema = array(string().min(3));
    let result = schema.validate(&texts(&["hi", "ok", "x"]));
    assert!(result.is_err());
    let err = result.unwrap_err();
    assert_eq!(err.issues.len(), 3);
    // Check that paths are correct
    let paths: Vec<_> = err.issues.iter().map(|i| i.path[0].as_str()).collect();
    assert!(paths.contains(&"0"));
    assert!(paths.contains(&"1"));
    assert!(paths.contains(&"2"));
}

#[test]
fn test_valid_elements_return_correct_values() {
    let schema = array(string());
    let result = schema.validate(&texts(&["a", "b", "c"]));
    assert!(result.is_ok());
    let values = result.unwrap();
    assert_eq!(values, vec![text("a"), text("b"), text("c")]);
}

#[test]
fn test_nested_array() {
    let schema = array(array(string()));
    let result = schema.validate(&Value::List(vec![texts(&["a", "b"]), texts(&["c", "d"])]));
    assert!(result.is_ok());
}

#[test]
fn test_nested_array_error_path() {
    let schema = array(array(string().min(3)));
    let result = schema.validate(&Value::List(vec![texts(&["hello"]), texts(&["hi"])]));
    assert!(result.is_err());
    let err = result.unwrap_err();
    // The "hi" string sits at index 0 of the list at index 1
    assert_eq!(err.issues[0].path, vec!["1", "0"]);
}

#[test]
fn test_deeply_nested_array() {
    let schema = array(array(array(string())));
    let result = schema.validate(
        &Value::List(vec![
            Value::List(vec![texts(&["a", "b"])]),
            Value::List(vec![texts(&["c", "d"])]),
        ]),
    );
    assert!(result.is_ok());
}

#[test]
fn test_mixed_types_fail() {
    let schema = array(string());
    assert!(
        schema.validate(&Value::List(vec![text("hello"), vnum(123.0), text("world")])).is_err()
    );
}

#[test]
fn test_number_array() {
    let schema = array(number().positive());
    assert!(schema.validate(&Value::List(vec![vnum(1.0), vnum(2.0), vnum(3.0)])).is_ok());
    assert!(schema.validate(&Value::List(vec![vnum(1.0), vnum(-2.0), vnum(3.0)])).is_err());
}

#[test]
fn array_test_impossible_constraint_min_greater_than_max() {
    let schema = array(string()).min(5).max(2);
    // All arrays will fail
    assert!(schema.validate(&texts(&["a", "b", "c"])).is_err());
    assert!(schema.validate(&texts(&["a"])).is_err());
    assert!(schema.validate(&texts(&["a", "b", "c", "d", "e", "f"])).is_err());
}

#[test]
fn array_test_rejects_null() {
    let schema = array(string());
    assert!(schema.validate(&Value::Absence).is_err());
}

#[test]
fn array_test_rejects_string() {
    let schema = array(string());
    assert!(schema.validate(&text("not an array")).is_err());
}

#[test]
fn array_test_rejects_number() {
    let schema = array(string());
    assert!(schema.validate(&vnum(123.0)).is_err());
}

#[test]
fn array_test_rejects_object() {
    let schema = array(string());
    assert!(schema.validate(&Value::Mapping(vec![("key".to_string(), text("value"))])).is_err());
}

#[test]
fn array_test_rejects_boolean() {
    let schema = array(string());
    assert!(schema.validate(&Value::Boolean(true)).is_err());
}

#[test]
fn test_single_element_valid() {
    let schema = array(string());
    assert!(schema.validate(&texts(&["single"])).is_ok());
}

#[test]
fn test_single_element_invalid() {
    let schema = array(string().min(10));
    let result = schema.validate(&texts(&["short"]));
    assert!(result.is_err());
    let err = result.unwrap_err();
    assert_eq!(err.issues[0].path, vec!["0"]);
}

#[test]
fn test_large_array() {
    let schema = array(number());
    let mut items: Vec<Value> = Vec::new();
    for i in 0..1000 {
        items.push(vnum(i as f64));
    }
    assert!(schema.validate(&Value::List(items)).is_ok());
}
