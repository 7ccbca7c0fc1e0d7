//! The number schema: accepts numeric values and checks the integer,
//! finiteness, bound and sign constraints, in that order, reporting the
//! first violation. Not-a-number passes bound and sign checks (no order
//! with it holds), but fails the integer and finiteness constraints.

use vstd::prelude::*;
use crate::error::{NumberConstraint, SpecError, SpecIssue, SpecType, ValidationError,
    ValidationOrigin, ValidationType};
use crate::num::{num_is_whole, num_lt, Number, SpecNum};
use crate::result::{root_issue, ValidateResult, ValidationResult};
use crate::value::{SpecVal, Value};

verus! {

/// The configuration of a number schema; bounds are inclusive.
#[derive(Debug, Clone)]
pub struct NumberSchema {
    pub min: Option<Number>,
    pub max: Option<Number>,
    pub integer: bool,
    pub positive: bool,
    pub negative: bool,
    pub nonnegative: bool,
    pub nonpositive: bool,
    pub finite: bool,
}

/// What validating a value against a number schema yields: the number
/// itself, or the first violated constraint, checked in configuration
/// order.
pub open spec fn spec_validate_number(cfg: NumberSchema, v: SpecVal) -> Result<
    SpecNum,
    Seq<SpecIssue>,
> {
    match v {
        SpecVal::Num(n) => {
            if cfg.integer && !num_is_whole(n) {
                Err(
                    seq![
                        root_issue(
                            SpecError::InvalidType {
                                expected: SpecType::Custom("integer"@),
                                input: SpecType::Custom("float"@),
                            },
                        ),
                    ],
                )
            } else if cfg.finite && !(n.class is Finite) {
                Err(
                    seq![
                        root_issue(
                            SpecError::InvalidNumber { constraint: NumberConstraint::Finite },
                        ),
                    ],
                )
            } else if cfg.min is Some && num_lt(n, cfg.min->0@) {
                Err(
                    seq![
                        root_issue(
                            SpecError::TooSmall {
                                origin: ValidationOrigin::Number,
                                minimum: (cfg.min->0)@.text,
                                inclusive: true,
                            },
                        ),
                    ],
                )
            } else if cfg.max is Some && num_lt(cfg.max->0@, n) {
                Err(
                    seq![
                        root_issue(
                            SpecError::TooBig {
                                origin: ValidationOrigin::Number,
                                maximum: (cfg.max->0)@.text,
                                inclusive: true,
                            },
                        ),
                    ],
                )
            } else if cfg.positive && (n.class is NegInf || (n.class is Finite && n.sv <= 0)) {
                Err(
                    seq![
                        root_issue(
                            SpecError::InvalidNumber { constraint: NumberConstraint::Positive },
                        ),
                    ],
                )
            } else if cfg.negative && (n.class is PosInf || (n.class is Finite && n.sv >= 0)) {
                Err(
                    seq![
                        root_issue(
                            SpecError::InvalidNumber { constraint: NumberConstraint::Negative },
                        ),
                    ],
                )
            } else if cfg.nonnegative && (n.class is NegInf || (n.class is Finite && n.sv < 0)) {
                Err(
                    seq![
                        root_issue(
                            SpecError::InvalidNumber {
                                constraint: NumberConstraint::NonNegative,
                            },
                        ),
                    ],
                )
            } else if cfg.nonpositive && (n.class is PosInf || (n.class is Finite && n.sv > 0)) {
                Err(
                    seq![
                        root_issue(
                            SpecError::InvalidNumber {
                                constraint: NumberConstraint::NonPositive,
                            },
                        ),
                    ],
                )
            } else {
                Ok(n)
            }
        },
        _ => Err(
            seq![
                root_issue(
                    SpecError::InvalidType {
                        expected: SpecType::Number,
                        input: crate::error::spec_type_of(v),
                    },
                ),
            ],
        ),
    }
}

/// Validates a value against a number schema configuration.
pub(crate) fn validate_number(cfg: &NumberSchema, value: &Value) -> (r: ValidateResult<Number>)
    ensures
        match r {
            Ok(n) => spec_validate_number(*cfg, value@) == Ok::<SpecNum, Seq<SpecIssue>>(n@),
            Err(e) => spec_validate_number(*cfg, value@) == Err::<SpecNum, Seq<SpecIssue>>(e@),
        },
{
    match value {
        Value::Num(n) => {
            if cfg.integer && !n.is_whole() {
                return Err(
                    ValidationResult::with_error(
                        ValidationError::invalid_type(
                            ValidationType::custom("integer"),
                            ValidationType::custom("float"),
                        ),
                    ),
                );
            }
            if cfg.finite && !n.is_finite() {
                return Err(
                    ValidationResult::with_error(
                        ValidationError::invalid_number(NumberConstraint::Finite),
                    ),
                );
            }
            if let Some(mn) = &cfg.min {
                if n.lt(mn) {
                    return Err(
                        ValidationResult::with_error(
                            ValidationError::too_small(
                                ValidationOrigin::Number,
                                mn.text().as_str(),
                                true,
                            ),
                        ),
                    );
                }
            }
            if let Some(mx) = &cfg.max {
                if mx.lt(n) {
                    return Err(
                        ValidationResult::with_error(
                            ValidationError::too_big(
                                ValidationOrigin::Number,
                                mx.text().as_str(),
                                true,
                            ),
                        ),
                    );
                }
            }
            if cfg.positive && n.le_zero() {
                return Err(
                    ValidationResult::with_error(
                        ValidationError::invalid_number(NumberConstraint::Positive),
                    ),
                );
            }
            if cfg.negative && n.ge_zero() {
                return Err(
                    ValidationResult::with_error(
                        ValidationError::invalid_number(NumberConstraint::Negative),
                    ),
                );
            }
            if cfg.nonnegative && n.is_neg() {
                return Err(
                    ValidationResult::with_error(
                        ValidationError::invalid_number(NumberConstraint::NonNegative),
                    ),
                );
            }
            if cfg.nonpositive && n.is_pos() {
                return Err(
                    ValidationResult::with_error(
                        ValidationError::invalid_number(NumberConstraint::NonPositive),
                    ),
                );
            }
            Ok(n.duplicate())
        },
        _ => Err(
            ValidationResult::with_error(
                ValidationError::invalid_type(ValidationType::Number, ValidationType::of_value(
                    value,
                )),
            ),
        ),
    }
}

impl NumberSchema {
    /// A number schema with no constraints.
    pub fn new() -> (r: NumberSchema)
        ensures
            r.min is None,
            r.max is None,
            !r.integer,
            !r.positive,
            !r.negative,
            !r.nonnegative,
            !r.nonpositive,
            !r.finite,
    {
        NumberSchema {
            min: None,
            max: None,
            integer: false,
            positive: false,
            negative: false,
            nonnegative: false,
            nonpositive: false,
            finite: false,
        }
    }

    /// Requires the value to be at least `min`.
    pub fn min(self, min: Number) -> (r: NumberSchema)
        ensures
            r == (NumberSchema { min: Some(min), ..self }),
    {
        NumberSchema { min: Some(min), ..self }
    }

    /// Requires the value to be at most `max`.
    pub fn max(self, max: Number) -> (r: NumberSchema)
        ensures
            r == (NumberSchema { max: Some(max), ..self }),
    {
        NumberSchema { max: Some(max), ..self }
    }

    /// Requires a zero fractional part.
    pub fn integer(self) -> (r: NumberSchema)
        ensures
            r == (NumberSchema { integer: true, ..self }),
    {
        NumberSchema { integer: true, ..self }
    }

    /// Requires the value to be strictly greater than zero.
    pub fn positive(self) -> (r: NumberSchema)
        ensures
            r == (NumberSchema { positive: true, ..self }),
    {
        NumberSchema { positive: true, ..self }
    }

    /// Requires the value to be strictly less than zero.
    pub fn negative(self) -> (r: NumberSchema)
        ensures
            r == (NumberSchema { negative: true, ..self }),
    {
        NumberSchema { negative: true, ..self }
    }

    /// Requires the value to be at least zero.
    pub fn nonnegative(self) -> (r: NumberSchema)
        ensures
            r == (NumberSchema { nonnegative: true, ..self }),
    {
        NumberSchema { nonnegative: true, ..self }
    }

    /// Requires the value to be at most zero.
    pub fn nonpositive(self) -> (r: NumberSchema)
        ensures
            r == (NumberSchema { nonpositive: true, ..self }),
    {
        NumberSchema { nonpositive: true, ..self }
    }

    /// Rejects the infinities and not-a-number.
    pub fn finite(self) -> (r: NumberSchema)
        ensures
            r == (NumberSchema { finite: true, ..self }),
    {
        NumberSchema { finite: true, ..self }
    }

    /// Validates a value, yielding the number or every reason it was
    /// refused.
    pub fn validate(&self, value: &Value) -> (r: ValidateResult<Number>)
        ensures
            match r {
                Ok(n) => spec_validate_number(*self, value@) == Ok::<SpecNum, Seq<SpecIssue>>(n@),
                Err(e) => spec_validate_number(*self, value@) == Err::<SpecNum, Seq<SpecIssue>>(
                    e@,
                ),
            },
    {
        validate_number(self, value)
    }

    /// `validate`, under the name call sites that never expect failure use.
    pub fn safe_parse(&self, value: &Value) -> (r: ValidateResult<Number>)
        ensures
            match r {
                Ok(n) => spec_validate_number(*self, value@) == Ok::<SpecNum, Seq<SpecIssue>>(n@),
                Err(e) => spec_validate_number(*self, value@) == Err::<SpecNum, Seq<SpecIssue>>(
                    e@,
                ),
            },
    {
        self.validate(value)
    }

    /// Validates a value that is known to satisfy this schema.
    pub fn parse(&self, value: &Value) -> (n: Number)
        requires
            spec_validate_number(*self, value@) is Ok,
        ensures
            spec_validate_number(*self, value@) == Ok::<SpecNum, Seq<SpecIssue>>(n@),
    {
        match self.validate(value) {
            Ok(n) => n,
            Err(_) => {
                proof {
                    assert(false);
                }
                vstd::pervasive::unreached()
            },
        }
    }
}

impl Default for NumberSchema {
    /// A number schema with no constraints.
    fn default() -> (r: NumberSchema)
        ensures
            r.min is None,
            r.max is None,
            !r.integer,
            !r.positive,
            !r.negative,
            !r.nonnegative,
            !r.nonpositive,
            !r.finite,
    {
        NumberSchema::new()
    }
}

/// A number schema with no constraints.
pub fn number() -> (r: NumberSchema)
    ensures
        r.min is None,
        r.max is None,
        !r.integer,
        !r.positive,
        !r.negative,
        !r.nonnegative,
        !r.nonpositive,
        !r.finite,
{
    NumberSchema::new()
}

} // verus!
