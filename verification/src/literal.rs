//! The literal schema: accepts exactly one configured value. Text literals
//! compare by characters; numeric literals compare within the tolerance of
//! `num_eps_close`, so a value within 2^-52 of the configured number is
//! accepted.

use vstd::prelude::*;
use crate::error::{SpecError, SpecIssue, SpecType, ValidationError, ValidationType};
use crate::num::{num_eps_close, Number, SpecNum};
use crate::result::{root_issue, ValidateResult, ValidationResult};
use crate::textops::text_equal;
use crate::value::{SpecVal, Value};

verus! {

/// A schema accepting exactly the configured value.
#[derive(Debug, Clone)]
pub struct LiteralSchema<T> {
    pub expected: T,
}

impl<T> LiteralSchema<T> {
    /// A literal schema for the given value.
    pub fn new(expected: T) -> (r: LiteralSchema<T>)
        ensures
            r.expected == expected,
    {
        LiteralSchema { expected }
    }
}

/// A literal schema for the given value.
pub fn literal<T>(value: T) -> (r: LiteralSchema<T>)
    ensures
        r.expected == value,
{
    LiteralSchema::new(value)
}

/// What validating a value against a text literal yields: the text when it
/// equals the expected one, else the mismatch.
pub open spec fn spec_validate_lit_text(expected: Seq<char>, v: SpecVal) -> Result<
    Seq<char>,
    Seq<SpecIssue>,
> {
    match v {
        SpecVal::Text(t) => {
            if t == expected {
                Ok(t)
            } else {
                Err(seq![root_issue(SpecError::InvalidValue { value: expected })])
            }
        },
        _ => Err(
            seq![
                root_issue(
                    SpecError::InvalidType {
                        expected: SpecType::String,
                        input: crate::error::spec_type_of(v),
                    },
                ),
            ],
        ),
    }
}

/// What validating a value against a numeric literal yields: the number
/// when it lies within tolerance of the expected one, else the mismatch,
/// reported with the expected number's rendering.
pub open spec fn spec_validate_lit_num(expected: SpecNum, v: SpecVal) -> Result<
    SpecNum,
    Seq<SpecIssue>,
> {
    match v {
        SpecVal::Num(n) => {
            if num_eps_close(n, expected) {
                Ok(n)
            } else {
                Err(seq![root_issue(SpecError::InvalidValue { value: expected.text })])
            }
        },
        _ => Err(
            seq![
                root_issue(
                    SpecError::InvalidType {
                        expected: SpecType::Number,
                        input: crate::error::spec_type_of(v),
                    },
                ),
            ],
        ),
    }
}

/// Validates a value against a text literal.
pub(crate) fn validate_lit_text(expected: &str, value: &Value) -> (r: ValidateResult<String>)
    ensures
        match r {
            Ok(t) => spec_validate_lit_text(expected@, value@) == Ok::<Seq<char>, Seq<SpecIssue>>(
                t@,
            ),
            Err(e) => spec_validate_lit_text(expected@, value@) == Err::<
                Seq<char>,
                Seq<SpecIssue>,
            >(e@),
        },
{
    match value {
        Value::Text(s) => {
            if text_equal(s.as_str(), expected) {
                Ok(s.clone())
            } else {
                Err(ValidationResult::with_error(ValidationError::invalid_value(expected)))
            }
        },
        _ => Err(
            ValidationResult::with_error(
                ValidationError::invalid_type(ValidationType::String, ValidationType::of_value(
                    value,
                )),
            ),
        ),
    }
}

/// Validates a value against a numeric literal.
pub(crate) fn validate_lit_num(expected: &Number, value: &Value) -> (r: ValidateResult<Number>)
    ensures
        match r {
            Ok(n) => spec_validate_lit_num(expected@, value@) == Ok::<SpecNum, Seq<SpecIssue>>(
                n@,
            ),
            Err(e) => spec_validate_lit_num(expected@, value@) == Err::<SpecNum, Seq<SpecIssue>>(
                e@,
            ),
        },
{
    match value {
        Value::Num(n) => {
            if n.eps_close(expected) {
                Ok(n.duplicate())
            } else {
                Err(
                    ValidationResult::with_error(
                        ValidationError::invalid_value(expected.text().as_str()),
                    ),
                )
            }
        },
        _ => Err(
            ValidationResult::with_error(
                ValidationError::invalid_type(ValidationType::Number, ValidationType::of_value(
                    value,
                )),
            ),
        ),
    }
}

impl LiteralSchema<String> {
    /// Validates a value, yielding the text or the mismatch.
    pub fn validate(&self, value: &Value) -> (r: ValidateResult<String>)
        ensures
            match r {
                Ok(t) => spec_validate_lit_text(self.expected@, value@) == Ok::<
                    Seq<char>,
                    Seq<SpecIssue>,
                >(t@),
                Err(e) => spec_validate_lit_text(self.expected@, value@) == Err::<
                    Seq<char>,
                    Seq<SpecIssue>,
                >(e@),
            },
    {
        validate_lit_text(self.expected.as_str(), value)
    }

    /// `validate`, under the name call sites that never expect failure use.
    pub fn safe_parse(&self, value: &Value) -> (r: ValidateResult<String>)
        ensures
            match r {
                Ok(t) => spec_validate_lit_text(self.expected@, value@) == Ok::<
                    Seq<char>,
                    Seq<SpecIssue>,
                >(t@),
                Err(e) => spec_validate_lit_text(self.expected@, value@) == Err::<
                    Seq<char>,
                    Seq<SpecIssue>,
                >(e@),
            },
    {
        self.validate(value)
    }

    /// Validates a value that is known to equal the literal.
    pub fn parse(&self, value: &Value) -> (t: String)
        requires
            spec_validate_lit_text(self.expected@, value@) is Ok,
        ensures
            spec_validate_lit_text(self.expected@, value@) == Ok::<Seq<char>, Seq<SpecIssue>>(
                t@,
            ),
    {
        match self.validate(value) {
            Ok(t) => t,
            Err(_) => {
                proof {
                    assert(false);
                }
                vstd::pervasive::unreached()
            },
        }
    }
}

impl LiteralSchema<&'static str> {
    /// Validates a value, yielding the text or the mismatch.
    pub fn validate(&self, value: &Value) -> (r: ValidateResult<String>)
        ensures
            match r {
                Ok(t) => spec_validate_lit_text(self.expected@, value@) == Ok::<
                    Seq<char>,
                    Seq<SpecIssue>,
                >(t@),
                Err(e) => spec_validate_lit_text(self.expected@, value@) == Err::<
                    Seq<char>,
                    Seq<SpecIssue>,
                >(e@),
            },
    {
        validate_lit_text(self.expected, value)
    }
}

impl LiteralSchema<Number> {
    /// Validates a value, yielding the number or the mismatch.
    pub fn validate(&self, value: &Value) -> (r: ValidateResult<Number>)
        ensures
            match r {
                Ok(n) => spec_validate_lit_num(self.expected@, value@) == Ok::<
                    SpecNum,
                    Seq<SpecIssue>,
                >(n@),
                Err(e) => spec_validate_lit_num(self.expected@, value@) == Err::<
                    SpecNum,
                    Seq<SpecIssue>,
                >(e@),
            },
    {
        validate_lit_num(&self.expected, value)
    }

    /// `validate`, under the name call sites that never expect failure use.
    pub fn safe_parse(&self, value: &Value) -> (r: ValidateResult<Number>)
        ensures
            match r {
                Ok(n) => spec_validate_lit_num(self.expected@, value@) == Ok::<
                    SpecNum,
                    Seq<SpecIssue>,
                >(n@),
                Err(e) => spec_validate_lit_num(self.expected@, value@) == Err::<
                    SpecNum,
                    Seq<SpecIssue>,
                >(e@),
            },
    {
        self.validate(value)
    }

    /// Validates a value that is known to lie within tolerance of the
    /// literal.
    pub fn parse(&self, value: &Value) -> (n: Number)
        requires
            spec_validate_lit_num(self.expected@, value@) is Ok,
        ensures
            spec_validate_lit_num(self.expected@, value@) == Ok::<SpecNum, Seq<SpecIssue>>(n@),
    {
        match self.validate(value) {
            Ok(n) => n,
            Err(_) => {
                proof {
                    assert(false);
                }
                vstd::pervasive::unreached()
            },
        }
    }
}

} // verus!
