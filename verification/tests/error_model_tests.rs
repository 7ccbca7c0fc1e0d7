//! Tests of the error, issue and result model and of locale rendering.

use zod_rs::{
    localizer, Locale, Localizer, NumberConstraint, StringFormat, ValidationError,
    ValidationIssue, ValidationOrigin, ValidationResult, ValidationType,
};

#[test]
fn it_works() {
    let result = 2u64 + 2u64;
    assert_eq!(result, 4);
}

#[test]
fn test_validation_error_creation() {
    let error = ValidationError::required();
    assert_eq!(error.local(Locale::En), "Value is required but was not provided");

    let error = ValidationError::invalid_type(ValidationType::String, ValidationType::Number);
    assert_eq!(error.local(Locale::En), "Invalid input: expected string, received number");
}

#[test]
fn test_validation_result() {
    let mut result = ValidationResult::new();
    assert!(result.is_empty());

    result.add_error(ValidationError::required());
    assert_eq!(result.len(), 1);

    let error_result = ValidationResult::with_error(ValidationError::required());
    assert_eq!(error_result.len(), 1);
}

#[test]
fn test_validation_issue_path() {
    let issue = ValidationIssue {
        path: vec!["user".to_string(), "name".to_string()],
        error: ValidationError::required(),
    };

    assert_eq!(issue.local(Locale::En), "user.name: Value is required but was not provided");
}

#[test]
fn test_validation_result_display() {
    let mut result = ValidationResult::new();
    result.add_error_at_path(
        vec!["user".to_string(), "email".to_string()],
        ValidationError::invalid_format(StringFormat::custom("email"), None),
    );
    result.add_error_at_path(
        vec!["user".to_string(), "age".to_string()],
        ValidationError::too_small(ValidationOrigin::Number, "15", true),
    );

    let display = result.local(Locale::En);

    assert!(display.contains("user.email: Invalid email address"));
    assert!(display.contains("user.age: Too small: expected number to have >= 15"));
}

#[test]
fn test_validation_result_display_ar() {
    let mut result = ValidationResult::new();

    result.add_error_at_path(
        vec!["user".to_string(), "email".to_string()],
        ValidationError::invalid_format(StringFormat::custom("email"), None),
    );
    result.add_error_at_path(
        vec!["user".to_string(), "age".to_string()],
        ValidationError::too_small(ValidationOrigin::Number, "15", true),
    );

    let display = result.local(Locale::Ar);

    assert!(display.contains("user.email: بريد إلكتروني غير مقبول"));
    assert!(display.contains("user.age: أصغر من اللازم: يفترض لـ number أن يكون >= 15"));
}

#[test]
fn test_into_result_empty_is_ok() {
    let empty = ValidationResult::new();
    assert!(empty.into_result().is_ok());

    let with_error = ValidationResult::with_error(ValidationError::required());
    assert!(with_error.into_result().is_err());
}

#[test]
fn test_into_err() {
    let empty = ValidationResult::new();
    assert!(empty.into_err().is_none());

    let with_error = ValidationResult::with_error(ValidationError::required());
    assert!(with_error.into_err().is_some());
}

#[test]
fn test_prefix_path_prepends_segment() {
    let mut result = ValidationResult::new();
    result.add_error_at_path(vec!["name".to_string()], ValidationError::required());
    result.prefix_path("user".to_string());
    assert_eq!(result.issues[0].path, vec!["user", "name"]);
}

#[test]
fn test_merge_concatenates_in_order() {
    let mut a = ValidationResult::new();
    a.add_error_at_path(vec!["a".to_string()], ValidationError::required());
    let mut b = ValidationResult::new();
    b.add_error_at_path(vec!["b".to_string()], ValidationError::required());
    a.merge(b);
    assert_eq!(a.len(), 2);
    assert_eq!(a.issues[0].path, vec!["a"]);
    assert_eq!(a.issues[1].path, vec!["b"]);
}

#[test]
fn test_too_big_message_sized_origin() {
    let error = ValidationError::too_big(ValidationOrigin::String, "5", true);
    assert_eq!(error.local(Locale::En), "Too big: expected string to have <= 5 characters");
}

#[test]
fn test_too_small_message_array_origin() {
    let error = ValidationError::too_small(ValidationOrigin::Array, "2", true);
    assert_eq!(error.local(Locale::En), "Too small: expected array to have >= 2 items");
}

#[test]
fn test_invalid_values_message() {
    let error = ValidationError::invalid_values(vec!["a".to_string(), "b".to_string()]);
    assert_eq!(error.local(Locale::En), "Invalid option: expected one of a | b");
}

#[test]
fn test_unrecognized_keys_message_singular_and_plural() {
    let one = ValidationError::unrecognized_keys(vec!["extra".to_string()]);
    assert_eq!(one.local(Locale::En), "Unrecognized key: extra");

    let two = ValidationError::unrecognized_keys(vec!["x".to_string(), "y".to_string()]);
    assert_eq!(two.local(Locale::En), "Unrecognized keys: x, y");
}

#[test]
fn test_invalid_format_messages() {
    let sw = ValidationError::invalid_format(StringFormat::StartsWith, Some("ab".to_string()));
    assert_eq!(sw.local(Locale::En), "Invalid value: must start with \"ab\"");

    let ew = ValidationError::invalid_format(StringFormat::EndsWith, Some("yz".to_string()));
    assert_eq!(ew.local(Locale::En), "Invalid value: must end with \"yz\"");

    let inc = ValidationError::invalid_format(StringFormat::Includes, Some("mid".to_string()));
    assert_eq!(inc.local(Locale::En), "Invalid value: must include \"mid\"");

    let re = ValidationError::invalid_format(StringFormat::Regex, Some("^a+$".to_string()));
    assert_eq!(re.local(Locale::En), "Invalid value: must match pattern ^a+$");

    let url = ValidationError::invalid_format(StringFormat::custom("url"), None);
    assert_eq!(url.local(Locale::En), "Invalid URL");

    let unknown = ValidationError::invalid_format(StringFormat::custom("postcode"), None);
    assert_eq!(unknown.local(Locale::En), "Invalid postcode");
}

#[test]
fn test_invalid_number_messages() {
    let finite = ValidationError::invalid_number(NumberConstraint::Finite);
    assert_eq!(finite.local(Locale::En), "Invalid number: must be finite");
    let positive = ValidationError::invalid_number(NumberConstraint::Positive);
    assert_eq!(positive.local(Locale::En), "Invalid number: must be positive");
    let negative = ValidationError::invalid_number(NumberConstraint::Negative);
    assert_eq!(negative.local(Locale::En), "Invalid number: must be negative");
    let nonneg = ValidationError::invalid_number(NumberConstraint::NonNegative);
    assert_eq!(nonneg.local(Locale::En), "Invalid number: must be non-negative");
    let nonpos = ValidationError::invalid_number(NumberConstraint::NonPositive);
    assert_eq!(nonpos.local(Locale::En), "Invalid number: must be non-positive");
}

#[test]
fn test_custom_message_passes_through() {
    let error = ValidationError::custom("bespoke failure");
    assert_eq!(error.local(Locale::En), "bespoke failure");
    assert_eq!(error.local(Locale::Ar), "bespoke failure");
}

#[test]
fn test_invalid_union_message() {
    let error = ValidationError::invalid_union(vec![]);
    assert_eq!(error.local(Locale::En), "Invalid input");
}

#[test]
fn test_localizer_dispatch() {
    let en = localizer(Locale::En);
    assert_eq!(
        en.localize(&ValidationError::required()),
        "Value is required but was not provided",
    );
    let ar = localizer(Locale::Ar);
    assert_eq!(ar.localize(&ValidationError::required()), "القيمة مطلوبة ولكن لم يتم تقديمها");
}
