//! Concrete scenarios for the engine's properties: the success invariant,
//! path correctness, no short-circuiting, first-match unions, strict versus
//! lenient mappings, integer semantics, and optional transparency.

use zod_rs::{
    array, number, object, optional, string, union, Number, Value,
};

#[allow(dead_code)]
fn num(v: f64) -> Number {
    Number::from_bits(v.to_bits(), format!("{}", v))
}

#[allow(dead_code)]
fn vnum(v: f64) -> Value {
    Value::Num(num(v))
}

#[allow(dead_code)]
fn text(s: &str) -> Value {
    Value::Text(s.to_string())
}

#[allow(dead_code)]
fn mapping(entries: Vec<(&str, Value)>) -> Value {
    Value::Mapping(entries.into_iter().map(|(k, v)| (k.to_string(), v)).collect())
}

#[test]
fn test_failure_always_carries_issues() {
    // A failed validation never comes with an empty issue list.
    let schema = object().field("a", string()).field("b", number());
    let result = schema.validate(&mapping(vec![]));
    let err = result.unwrap_err();
    assert!(!err.is_empty());
    assert!(err.len() > 0);
}

#[test]
fn test_path_of_nested_list_element() {
    // A mapping field "a" holding a list whose second element is too short
    // yields a single issue at path ["a", "1"].
    let schema = object().field("a", array(string().min(2)));
    let result = schema.validate(
        &mapping(vec![("a", Value::List(vec![text("ok"), text("x"), text("ok")]))]),
    );
    let err = result.unwrap_err();
    assert_eq!(err.len(), 1);
    assert_eq!(err.issues[0].path, vec!["a", "1"]);
}

#[test]
fn test_two_failing_required_fields_two_issues() {
    // Both missing required fields are reported in one pass.
    let schema = object().field("first", string()).field("second", string());
    let result = schema.validate(&mapping(vec![]));
    let err = result.unwrap_err();
    assert_eq!(err.len(), 2);
    assert_eq!(err.issues[0].path, vec!["first"]);
    assert_eq!(err.issues[1].path, vec!["second"]);
}

#[test]
fn test_union_first_match_returns_first_variant() {
    let schema = union().variant(string().min(1)).variant(string().min(5));
    let result = schema.validate(&text("hi"));
    assert_eq!(result.unwrap(), text("hi"));

    // Reordering keeps acceptance for a value that satisfies both.
    let longer = union().variant(string().min(5)).variant(string().min(1));
    assert!(longer.validate(&text("hello")).is_ok());
    assert!(longer.validate(&text("hi")).is_ok());
}

#[test]
fn test_strict_vs_lenient_object() {
    let lenient = object().field("name", string());
    let input = mapping(vec![("name", text("J")), ("extra", text("z"))]);

    let out = lenient.validate(&input).unwrap();
    assert_eq!(out.get("extra").unwrap(), &text("z"));

    let strict = object().field("name", string()).strict();
    let err = strict.validate(&input).unwrap_err();
    assert_eq!(err.len(), 1);
    match &err.issues[0].error {
        zod_rs::ValidationError::UnrecognizedKeys { keys } => {
            assert_eq!(keys, &vec!["extra".to_string()]);
        },
        other => panic!("unexpected error kind: {:?}", other),
    }
}

#[test]
fn test_numeric_integer_semantics() {
    let int_schema = number().integer();
    assert!(int_schema.validate(&vnum(5.0)).is_ok());
    assert!(int_schema.validate(&vnum(5.5)).is_err());

    let positive = number().positive();
    assert!(positive.validate(&vnum(0.0)).is_err());

    let nonnegative = number().nonnegative();
    assert!(nonnegative.validate(&vnum(0.0)).is_ok());
}

#[test]
fn test_optional_null_transparency() {
    let schema = optional(string().min(5));
    // Absence passes without consulting the inner bound.
    assert!(schema.validate(&Value::Absence).is_ok());
    // A too-short present string is still rejected.
    assert!(schema.validate(&text("hi")).is_err());
}

#[test]
fn test_two_digit_index_in_path() {
    // The decimal rendering of list indices holds beyond one digit.
    let schema = array(string().min(2));
    let mut items: Vec<Value> = Vec::new();
    for _ in 0..10 {
        items.push(text("ok"));
    }
    items.push(text("x"));
    let err = schema.validate(&Value::List(items)).unwrap_err();
    assert_eq!(err.issues[0].path, vec!["10"]);
}

#[test]
fn test_tuple_arity_message() {
    let schema = zod_rs::tuple().element(string()).element(number());
    let err = schema.validate(&Value::List(vec![text("only")])).unwrap_err();
    assert_eq!(
        err.issues[0].error.local(zod_rs::Locale::En),
        "Expected tuple of 2 elements, got 1",
    );
}

#[test]
fn test_regex_constraint_really_consults_pattern() {
    // A schema whose pattern accepts only digit runs must reject letters;
    // both outcomes rule out a pattern check that ignores its inputs.
    let schema = string().regex("^[0-9]+$");
    assert!(schema.validate(&text("0451")).is_ok());
    assert!(schema.validate(&text("abc")).is_err());
}

#[test]
fn test_number_bound_message_uses_bound_rendering() {
    let schema = number().min(num(15.0));
    let err = schema.validate(&vnum(3.0)).unwrap_err();
    assert_eq!(
        err.issues[0].error.local(zod_rs::Locale::En),
        "Too small: expected number to have >= 15",
    );
}

#[test]
fn test_nan_passes_bounds_but_fails_finite() {
    // No order holds with not-a-number, so bound checks pass it while the
    // finiteness constraint rejects it.
    let bounded = number().min(num(0.0)).max(num(10.0));
    assert!(bounded.validate(&vnum(f64::NAN)).is_ok());
    let finite = number().finite();
    assert!(finite.validate(&vnum(f64::NAN)).is_err());
}

#[test]
fn test_infinity_ordering_in_bounds() {
    let schema = number().min(num(0.0));
    assert!(schema.validate(&vnum(f64::INFINITY)).is_ok());
    assert!(schema.validate(&vnum(f64::NEG_INFINITY)).is_err());
}

#[test]
fn test_subnormal_magnitudes_keep_order() {
    let schema = number().min(num(5e-324)).max(num(1e-300));
    assert!(schema.validate(&vnum(1e-310)).is_ok());
    assert!(schema.validate(&vnum(0.0)).is_err());
}
