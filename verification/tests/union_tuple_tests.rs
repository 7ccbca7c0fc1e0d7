//! Tests of the first-match union and the fixed-arity tuple schemas.

use zod_rs::{boolean, literal, number, string, tuple, union, Number, Value};

#[allow(dead_code)]
fn num(v: f64) -> Number {
    Number::from_bits(v.to_bits(), format!("{}", v))
}

#[allow(dead_code)]
fn vnum(v: f64) -> Value {
    Value::Num(num(v))
}

#[allow(dead_code)]
fn text(s: &str) -> Value {
    Value::Text(s.to_string())
}

#[test]
fn test_union_validation() {
    let string_union = union()
        .variant(literal("hello".to_string()))
        .variant(literal("world".to_string()));
    let number_union = union().variant(literal(num(123.0))).variant(literal(num(456.0)));

    assert!(string_union.validate(&text("hello")).is_ok());
    assert!(string_union.validate(&text("world")).is_ok());
    assert!(string_union.validate(&text("other")).is_err());

    assert!(number_union.validate(&vnum(123.0)).is_ok());
    assert!(number_union.validate(&vnum(456.0)).is_ok());
    assert!(number_union.validate(&vnum(789.0)).is_err());
}

#[test]
fn test_empty_union_always_fails() {
    let schema = union();
    assert!(schema.validate(&text("anything")).is_err());
    assert!(schema.validate(&vnum(123.0)).is_err());
    assert!(schema.validate(&Value::Absence).is_err());
}

#[test]
fn test_single_variant_union() {
    let schema = union().variant(literal("only"));
    assert!(schema.validate(&text("only")).is_ok());
    assert!(schema.validate(&text("other")).is_err());
}

#[test]
fn test_single_variant_number_union() {
    let schema = union().variant(number().positive());
    assert!(schema.validate(&vnum(5.0)).is_ok());
    assert!(schema.validate(&vnum(-5.0)).is_err());
}

#[test]
fn test_first_variant_matches_first() {
    // Both variants could match strings, but first should win
    let schema = union().variant(string().min(1)).variant(string().min(5));

    // "hi" matches first variant (min 1)
    let result = schema.validate(&text("hi"));
    assert!(result.is_ok());
    assert_eq!(result.unwrap(), text("hi"));
}

#[test]
fn test_order_matters_for_matching() {
    let schema1 = union().variant(literal("a".to_string())).variant(literal("b".to_string()));

    let schema2 = union().variant(literal("b".to_string())).variant(literal("a".to_string()));

    // Both should accept "a" and "b"
    assert!(schema1.validate(&text("a")).is_ok());
    assert!(schema1.validate(&text("b")).is_ok());
    assert!(schema2.validate(&text("a")).is_ok());
    assert!(schema2.validate(&text("b")).is_ok());
}

#[test]
fn test_all_variants_fail_error() {
    let schema = union()
        .variant(literal("a".to_string()))
        .variant(literal("b".to_string()))
        .variant(literal("c".to_string()));

    let result = schema.validate(&text("d"));
    assert!(result.is_err());
    let err = result.unwrap_err();
    // Should have collected errors - the error structure wraps all variant errors
    assert!(!err.issues.is_empty());
}

#[test]
fn test_multiple_type_union() {
    // Union of string and number literals
    let string_schema = union()
        .variant(literal("yes".to_string()))
        .variant(literal("no".to_string()));

    let number_schema = union().variant(literal(num(1.0))).variant(literal(num(0.0)));

    assert!(string_schema.validate(&text("yes")).is_ok());
    assert!(string_schema.validate(&vnum(1.0)).is_err()); // Type mismatch

    assert!(number_schema.validate(&vnum(1.0)).is_ok());
    assert!(number_schema.validate(&text("yes")).is_err()); // Type mismatch
}

#[test]
fn test_union_with_constrained_strings() {
    let schema = union().variant(string().min(5)).variant(string().max(2));

    // "hello" matches first (min 5)
    assert!(schema.validate(&text("hello")).is_ok());
    // "hi" matches second (max 2)
    assert!(schema.validate(&text("hi")).is_ok());
    // "abc" doesn't match either (too long for second, too short for first)
    assert!(schema.validate(&text("abc")).is_err());
}

#[test]
fn test_union_returns_matched_value() {
    let schema = union()
        .variant(literal("test".to_string()))
        .variant(literal("other".to_string()));

    let result = schema.validate(&text("test"));
    assert!(result.is_ok());
    assert_eq!(result.unwrap(), text("test"));
}

#[test]
fn test_union_rejects_wrong_types() {
    let schema = union().variant(literal("a".to_string())).variant(literal("b".to_string()));

    assert!(schema.validate(&vnum(123.0)).is_err());
    assert!(schema.validate(&Value::Boolean(true)).is_err());
    assert!(schema.validate(&Value::Absence).is_err());
    assert!(schema.validate(&Value::List(vec![])).is_err());
    assert!(schema.validate(&Value::Mapping(vec![])).is_err());
}

#[test]
fn test_many_variants() {
    let schema = union()
        .variant(literal("a".to_string()))
        .variant(literal("b".to_string()))
        .variant(literal("c".to_string()))
        .variant(literal("d".to_string()))
        .variant(literal("e".to_string()));

    assert!(schema.validate(&text("a")).is_ok());
    assert!(schema.validate(&text("e")).is_ok());
    assert!(schema.validate(&text("f")).is_err());
}

#[test]
fn test_empty_tuple() {
    let schema = tuple();
    assert!(schema.validate(&Value::List(vec![])).is_ok());
    assert!(schema.validate(&Value::List(vec![vnum(1.0)])).is_err());
}

#[test]
fn test_single_element_tuple() {
    let schema = tuple().element(string());
    assert!(schema.validate(&Value::List(vec![text("hello")])).is_ok());
    assert!(schema.validate(&Value::List(vec![vnum(123.0)])).is_err());
    assert!(schema.validate(&Value::List(vec![])).is_err());
    assert!(schema.validate(&Value::List(vec![text("a"), text("b")])).is_err());
}

#[test]
fn test_two_element_tuple() {
    let schema = tuple().element(string()).element(number());
    assert!(schema.validate(&Value::List(vec![text("hello"), vnum(42.0)])).is_ok());
    assert!(schema.validate(&Value::List(vec![vnum(42.0), text("hello")])).is_err());
    assert!(schema.validate(&Value::List(vec![text("hello")])).is_err());
    assert!(
        schema.validate(&Value::List(vec![text("hello"), vnum(42.0), Value::Boolean(true)]))
            .is_err()
    );
}

#[test]
fn test_three_element_tuple() {
    let schema = tuple().element(string()).element(number()).element(boolean());

    assert!(
        schema.validate(&Value::List(vec![text("test"), vnum(123.0), Value::Boolean(true)]))
            .is_ok()
    );
    assert!(
        schema.validate(&Value::List(vec![text("test"), vnum(123.0), Value::Boolean(false)]))
            .is_ok()
    );
    assert!(schema.validate(&Value::List(vec![text("test"), vnum(123.0)])).is_err());
}

#[test]
fn test_tuple_with_constraints() {
    let schema = tuple().element(string().min(3)).element(number().positive());

    assert!(schema.validate(&Value::List(vec![text("abc"), vnum(1.0)])).is_ok());
    assert!(schema.validate(&Value::List(vec![text("ab"), vnum(1.0)])).is_err()); // String too short
    assert!(schema.validate(&Value::List(vec![text("abc"), vnum(-1.0)])).is_err()); // Number not positive
}

#[test]
fn test_tuple_returns_array_value() {
    let schema = tuple().element(string()).element(number());
    let result = schema.validate(&Value::List(vec![text("hello"), vnum(42.0)]));
    assert!(result.is_ok());
    assert_eq!(result.unwrap(), Value::List(vec![text("hello"), vnum(42.0)]));
}

#[test]
fn test_tuple_rejects_non_array() {
    let schema = tuple().element(string());
    assert!(schema.validate(&text("hello")).is_err());
    assert!(schema.validate(&vnum(123.0)).is_err());
    assert!(schema.validate(&Value::Absence).is_err());
    assert!(schema.validate(&Value::Mapping(vec![])).is_err());
}

#[test]
fn test_tuple_error_includes_index() {
    let schema = tuple().element(string()).element(number());
    let result = schema.validate(&Value::List(vec![text("hello"), text("not a number")]));
    assert!(result.is_err());
    let err = result.unwrap_err();
    // Error should include path information about which element failed
    assert!(!err.issues.is_empty());
}

#[test]
fn test_homogeneous_tuple() {
    let schema = tuple().element(number()).element(number()).element(number());

    assert!(schema.validate(&Value::List(vec![vnum(1.0), vnum(2.0), vnum(3.0)])).is_ok());
    assert!(schema.validate(&Value::List(vec![vnum(1.0), vnum(2.0)])).is_err());
    assert!(schema.validate(&Value::List(vec![vnum(1.0), vnum(2.0), text("3")])).is_err());
}
