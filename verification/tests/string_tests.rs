//! Tests of the text schema: length bounds, prefix, suffix, substring,
//! regular-expression, email and URL constraints, and type rejection.

use zod_rs::{string, Number, Value};

#[allow(dead_code)]
fn num(v: f64) -> Number {
    Number::from_bits(v.to_bits(), format!("{}", v))
}

#[allow(dead_code)]
fn vnum(v: f64) -> Value {
    Value::Num(num(v))
}

#[allow(dead_code)]
fn text(s: &str) -> Value {
    Value::Text(s.to_string())
}

#[test]
fn string_test_string_validation() {
    let schema = string().min(3).max(10);

    assert!(schema.validate(&text("hello")).is_ok());
    assert!(schema.validate(&text("hi")).is_err());
    assert!(schema.validate(&text("this is too long")).is_err());
    assert!(schema.validate(&vnum(123.0)).is_err());
}

#[test]
fn test_string_starts_with() {
    let schema = string().starts_with("john");

    assert!(schema.validate(&text("john doe")).is_ok());
    assert!(schema.validate(&text("marry jane")).is_err());
}

#[test]
fn test_string_ends_with() {
    let schema = string().ends_with("jane");

    assert!(schema.validate(&text("john doe")).is_err());
    assert!(schema.validate(&text("marry jane")).is_ok());
}

#[test]
fn test_string_includes() {
    let schema = string().includes("25 years old");

    assert!(schema.validate(&text("I am an 25 years old art director.")).is_ok());
    assert!(schema.validate(&text("I AM AN 25 YEARS OLD ART DIRECTOR")).is_err());
}

#[test]
fn test_empty_string_with_min_zero() {
    let schema = string().min(0);
    assert!(schema.validate(&text("")).is_ok());
}

#[test]
fn test_string_exactly_at_min_boundary() {
    let schema = string().min(5);
    assert!(schema.validate(&text("hello")).is_ok()); // exactly 5 chars
    assert!(schema.validate(&text("hell")).is_err()); // 4 chars
}

#[test]
fn test_string_exactly_at_max_boundary() {
    let schema = string().max(5);
    assert!(schema.validate(&text("hello")).is_ok()); // exactly 5 chars
    assert!(schema.validate(&text("hello!")).is_err()); // 6 chars
}

#[test]
fn test_string_length_exact() {
    let schema = string().length(5);
    assert!(schema.validate(&text("hello")).is_ok());
    assert!(schema.validate(&text("hi")).is_err());
    assert!(schema.validate(&text("hello!")).is_err());
}

#[test]
fn test_unicode_emoji() {
    let schema = string();
    assert!(schema.validate(&text("🦀")).is_ok());
    assert_eq!(schema.validate(&text("🦀")).unwrap(), "🦀");
}

#[test]
fn test_unicode_chinese() {
    let schema = string();
    assert!(schema.validate(&text("你好")).is_ok());
    assert_eq!(schema.validate(&text("你好")).unwrap(), "你好");
}

#[test]
fn test_unicode_mixed() {
    let schema = string();
    assert!(schema.validate(&text("Hello 🦀 世界")).is_ok());
}

#[test]
fn test_unicode_length_bytes_vs_chars() {
    // Length counts bytes, not characters: "🦀" is 4 bytes but 1 character
    let schema = string().min(1).max(10);
    // This tests that we're counting bytes (current behavior)
    assert!(schema.validate(&text("🦀")).is_ok());
}

#[test]
fn test_starts_with_empty_pattern() {
    let schema = string().starts_with("");
    assert!(schema.validate(&text("anything")).is_ok());
    assert!(schema.validate(&text("")).is_ok());
}

#[test]
fn test_ends_with_empty_pattern() {
    let schema = string().ends_with("");
    assert!(schema.validate(&text("anything")).is_ok());
}

#[test]
fn test_includes_empty_pattern() {
    let schema = string().includes("");
    assert!(schema.validate(&text("anything")).is_ok());
}

#[test]
fn test_pattern_longer_than_string() {
    let schema = string().starts_with("very long pattern");
    assert!(schema.validate(&text("short")).is_err());
}

#[test]
fn test_unicode_pattern_matching() {
    let schema = string().starts_with("🦀");
    assert!(schema.validate(&text("🦀 is a crab")).is_ok());
    assert!(schema.validate(&text("crab 🦀")).is_err());
}

#[test]
fn test_case_sensitivity() {
    let schema = string().starts_with("Hello");
    assert!(schema.validate(&text("Hello World")).is_ok());
    assert!(schema.validate(&text("hello World")).is_err());
}

#[test]
fn test_regex_empty_pattern() {
    let schema = string().regex("");
    assert!(schema.validate(&text("anything")).is_ok());
    assert!(schema.validate(&text("")).is_ok());
}

#[test]
fn test_regex_anchored() {
    let schema = string().regex("^start");
    assert!(schema.validate(&text("start here")).is_ok());
    assert!(schema.validate(&text("not start")).is_err());
}

#[test]
fn test_regex_end_anchor() {
    let schema = string().regex("end$");
    assert!(schema.validate(&text("the end")).is_ok());
    assert!(schema.validate(&text("end here")).is_err());
}

#[test]
fn test_regex_special_chars() {
    let schema = string().regex(r"\d+");
    assert!(schema.validate(&text("abc123def")).is_ok());
    assert!(schema.validate(&text("no digits")).is_err());
}

#[test]
fn test_try_regex_valid() {
    let schema = string().try_regex(r"\d+").unwrap();
    assert!(schema.validate(&text("123")).is_ok());
}

#[test]
fn test_try_regex_invalid() {
    let result = string().try_regex("[invalid");
    assert!(result.is_err());
}

#[test]
fn test_email_valid() {
    let schema = string().email();
    assert!(schema.validate(&text("user@example.com")).is_ok());
}

#[test]
fn test_email_missing_at() {
    let schema = string().email();
    assert!(schema.validate(&text("userexample.com")).is_err());
}

#[test]
fn test_email_multiple_at() {
    let schema = string().email();
    assert!(schema.validate(&text("user@@example.com")).is_err());
}

#[test]
fn test_email_with_spaces() {
    let schema = string().email();
    assert!(schema.validate(&text(" user@example.com")).is_err());
    assert!(schema.validate(&text("user@example.com ")).is_err());
    assert!(schema.validate(&text("user @example.com")).is_err());
}

#[test]
fn test_email_missing_domain() {
    let schema = string().email();
    assert!(schema.validate(&text("user@")).is_err());
}

#[test]
fn test_email_missing_tld() {
    let schema = string().email();
    assert!(schema.validate(&text("user@domain")).is_err());
}

#[test]
fn test_url_valid_https() {
    let schema = string().url();
    assert!(schema.validate(&text("https://example.com")).is_ok());
}

#[test]
fn test_url_valid_http() {
    let schema = string().url();
    assert!(schema.validate(&text("http://example.com")).is_ok());
}

#[test]
fn test_url_just_protocol() {
    let schema = string().url();
    // The minimal URL shape accepts a bare scheme prefix
    assert!(schema.validate(&text("https://")).is_ok());
}

#[test]
fn test_url_missing_protocol() {
    let schema = string().url();
    assert!(schema.validate(&text("example.com")).is_err());
    assert!(schema.validate(&text("www.example.com")).is_err());
}

#[test]
fn test_url_with_path() {
    let schema = string().url();
    assert!(schema.validate(&text("https://example.com/path/to/page")).is_ok());
}

#[test]
fn test_url_with_query() {
    let schema = string().url();
    assert!(schema.validate(&text("https://example.com?foo=bar")).is_ok());
}

#[test]
fn test_url_with_fragment() {
    let schema = string().url();
    assert!(schema.validate(&text("https://example.com#section")).is_ok());
}

#[test]
fn string_test_rejects_null() {
    let schema = string();
    assert!(schema.validate(&Value::Absence).is_err());
}

#[test]
fn string_test_rejects_boolean() {
    let schema = string();
    assert!(schema.validate(&Value::Boolean(true)).is_err());
    assert!(schema.validate(&Value::Boolean(false)).is_err());
}

#[test]
fn string_test_rejects_array() {
    let schema = string();
    assert!(schema.validate(&Value::List(vec![text("a"), text("b")])).is_err());
}

#[test]
fn string_test_rejects_object() {
    let schema = string();
    assert!(schema.validate(&Value::Mapping(vec![("key".to_string(), text("value"))])).is_err());
}

#[test]
fn string_test_impossible_constraint_min_greater_than_max() {
    let schema = string().min(10).max(5);
    // All strings will fail validation
    assert!(schema.validate(&text("hello")).is_err());
    assert!(schema.validate(&text("hi")).is_err());
    assert!(schema.validate(&text("hello world")).is_err());
}

#[test]
fn test_combined_min_max_and_pattern() {
    let schema = string().min(3).max(10).starts_with("test");
    assert!(schema.validate(&text("testing")).is_ok());
    assert!(schema.validate(&text("te")).is_err()); // too short
    assert!(schema.validate(&text("testing123456")).is_err()); // too long
    assert!(schema.validate(&text("hello")).is_err()); // wrong prefix
}

#[test]
fn test_cloned_regex_schema_still_matches() {
    let schema = string().regex("^[0-9]+$");
    let copy = schema.clone();
    assert!(copy.validate(&text("123")).is_ok());
    assert!(copy.validate(&text("abc")).is_err());
}

#[test]
fn test_email_and_length() {
    let schema = string().email().max(20);
    assert!(schema.validate(&text("a@b.com")).is_ok());
    assert!(schema.validate(&text("verylongemail@verylongdomain.com")).is_err());
}
