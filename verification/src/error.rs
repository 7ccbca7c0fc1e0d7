//! The error taxonomy and the issue type.
//!
//! A `ValidationError` says why validation failed, independent of where; a
//! `ValidationIssue` pairs one error with the path at which it occurred
//! (field names and stringified list indices; the root is the empty path).

use vstd::prelude::*;
use crate::value::{SpecVal, Value};

verus! {

/// The subject category a size-constraint error refers to.
#[derive(Debug, Clone, PartialEq, Eq, Structural)]
pub enum ValidationOrigin {
    String,
    Array,
    Number,
}

/// The numeric constraint that a number failed to satisfy.
#[derive(Debug, Clone, PartialEq, Eq, Structural)]
pub enum NumberConstraint {
    Finite,
    Positive,
    Negative,
    NonNegative,
    NonPositive,
}

/// The shape of a value, as named in type-mismatch errors.
#[derive(Debug, Clone)]
pub enum ValidationType {
    Null,
    Bool,
    Number,
    String,
    Array,
    Object,
    Undefined,
    Custom(String),
}

/// The view of a `ValidationType`.
pub enum SpecType {
    Null,
    Bool,
    Number,
    String,
    Array,
    Object,
    Undefined,
    Custom(Seq<char>),
}

impl View for ValidationType {
    type V = SpecType;

    open spec fn view(&self) -> SpecType {
        match self {
            ValidationType::Null => SpecType::Null,
            ValidationType::Bool => SpecType::Bool,
            ValidationType::Number => SpecType::Number,
            ValidationType::String => SpecType::String,
            ValidationType::Array => SpecType::Array,
            ValidationType::Object => SpecType::Object,
            ValidationType::Undefined => SpecType::Undefined,
            ValidationType::Custom(t) => SpecType::Custom(t@),
        }
    }
}

/// The shape of a value.
pub open spec fn spec_type_of(v: SpecVal) -> SpecType {
    match v {
        SpecVal::Absence => SpecType::Null,
        SpecVal::Boolean(_) => SpecType::Bool,
        SpecVal::Num(_) => SpecType::Number,
        SpecVal::Text(_) => SpecType::String,
        SpecVal::List(_) => SpecType::Array,
        SpecVal::Mapping(_) => SpecType::Object,
    }
}

impl ValidationType {
    /// A custom type name.
    pub fn custom(val_type: &str) -> (r: ValidationType)
        ensures
            r@ == SpecType::Custom(val_type@),
    {
        ValidationType::Custom(val_type.to_owned())
    }

    /// The shape of the given value.
    pub fn of_value(value: &Value) -> (r: ValidationType)
        ensures
            r@ == spec_type_of(value@),
    {
        match value {
            Value::Absence => ValidationType::Null,
            Value::Boolean(_) => ValidationType::Bool,
            Value::Num(_) => ValidationType::Number,
            Value::Text(_) => ValidationType::String,
            Value::List(_) => ValidationType::Array,
            Value::Mapping(_) => ValidationType::Object,
        }
    }
}

/// The kind of a text-format constraint.
#[derive(Debug, Clone)]
pub enum StringFormat {
    StartsWith,
    EndsWith,
    Includes,
    Regex,
    Custom(String),
}

/// The view of a `StringFormat`.
pub enum SpecFormat {
    StartsWith,
    EndsWith,
    Includes,
    Regex,
    Custom(Seq<char>),
}

impl View for StringFormat {
    type V = SpecFormat;

    open spec fn view(&self) -> SpecFormat {
        match self {
            StringFormat::StartsWith => SpecFormat::StartsWith,
            StringFormat::EndsWith => SpecFormat::EndsWith,
            StringFormat::Includes => SpecFormat::Includes,
            StringFormat::Regex => SpecFormat::Regex,
            StringFormat::Custom(t) => SpecFormat::Custom(t@),
        }
    }
}

impl StringFormat {
    /// A named format, such as an email or URL shape.
    pub fn custom(val_type: &str) -> (r: StringFormat)
        ensures
            r@ == SpecFormat::Custom(val_type@),
    {
        StringFormat::Custom(val_type.to_owned())
    }
}

/// Why validation failed, independent of where.
#[derive(Debug)]
pub enum ValidationError {
    Required,
    InvalidType { expected: ValidationType, input: ValidationType },
    InvalidValue { value: String },
    InvalidValues { values: Vec<String> },
    TooBig { origin: ValidationOrigin, maximum: String, inclusive: bool },
    TooSmall { origin: ValidationOrigin, minimum: String, inclusive: bool },
    InvalidFormat { format: StringFormat, detail: Option<String> },
    InvalidNumber { constraint: NumberConstraint },
    UnrecognizedKeys { keys: Vec<String> },
    InvalidUnion { issues: Vec<ValidationIssue> },
    Custom { message: String },
}

/// One error and the path at which it occurred.
#[derive(Debug)]
pub struct ValidationIssue {
    pub path: Vec<String>,
    pub error: ValidationError,
}

/// The view of a `ValidationError`.
pub enum SpecError {
    Required,
    InvalidType { expected: SpecType, input: SpecType },
    InvalidValue { value: Seq<char> },
    InvalidValues { values: Seq<Seq<char>> },
    TooBig { origin: ValidationOrigin, maximum: Seq<char>, inclusive: bool },
    TooSmall { origin: ValidationOrigin, minimum: Seq<char>, inclusive: bool },
    InvalidFormat { format: SpecFormat, detail: Option<Seq<char>> },
    InvalidNumber { constraint: NumberConstraint },
    UnrecognizedKeys { keys: Seq<Seq<char>> },
    InvalidUnion { issues: Seq<SpecIssue> },
    Custom { message: Seq<char> },
}

/// The view of a `ValidationIssue`.
pub struct SpecIssue {
    pub path: Seq<Seq<char>>,
    pub error: SpecError,
}

/// The views of a list of texts, in order.
pub open spec fn texts_view(p: Seq<String>) -> Seq<Seq<char>> {
    Seq::new(p.len(), |i: int| p[i]@)
}

/// The view of one error.
pub open spec fn err_view(e: ValidationError) -> SpecError
    decreases e,
{
    match e {
        ValidationError::Required => SpecError::Required,
        ValidationError::InvalidType { expected, input } => SpecError::InvalidType {
            expected: expected@,
            input: input@,
        },
        ValidationError::InvalidValue { value } => SpecError::InvalidValue { value: value@ },
        ValidationError::InvalidValues { values } => SpecError::InvalidValues {
            values: texts_view(values@),
        },
        ValidationError::TooBig { origin, maximum, inclusive } => SpecError::TooBig {
            origin,
            maximum: maximum@,
            inclusive,
        },
        ValidationError::TooSmall { origin, minimum, inclusive } => SpecError::TooSmall {
            origin,
            minimum: minimum@,
            inclusive,
        },
        ValidationError::InvalidFormat { format, detail } => SpecError::InvalidFormat {
            format: format@,
            detail: match detail {
                Some(d) => Some(d@),
                None => None,
            },
        },
        ValidationError::InvalidNumber { constraint } => SpecError::InvalidNumber { constraint },
        ValidationError::UnrecognizedKeys { keys } => SpecError::UnrecognizedKeys {
            keys: texts_view(keys@),
        },
        ValidationError::InvalidUnion { issues } => SpecError::InvalidUnion {
            issues: issues_view(issues@),
        },
        ValidationError::Custom { message } => SpecError::Custom { message: message@ },
    }
}

/// The view of one issue.
pub open spec fn issue_view(i: ValidationIssue) -> SpecIssue
    decreases i,
{
    SpecIssue { path: texts_view(i.path@), error: err_view(i.error) }
}

/// The views of a list of issues, in order.
pub open spec fn issues_view(s: Seq<ValidationIssue>) -> Seq<SpecIssue>
    decreases s,
{
    if s.len() == 0 {
        Seq::empty()
    } else {
        issues_view(s.drop_last()).push(issue_view(s.last()))
    }
}

impl View for ValidationError {
    type V = SpecError;

    open spec fn view(&self) -> SpecError {
        err_view(*self)
    }
}

impl View for ValidationIssue {
    type V = SpecIssue;

    open spec fn view(&self) -> SpecIssue {
        issue_view(*self)
    }
}

/// `issues_view` maps issue views positionwise.
pub broadcast proof fn lemma_issues_view(s: Seq<ValidationIssue>)
    ensures
        (#[trigger] issues_view(s)).len() == s.len(),
        forall|i: int| 0 <= i < s.len() ==> issues_view(s)[i] == s[i]@,
    decreases s,
{
    if s.len() > 0 {
        lemma_issues_view(s.drop_last());
        assert(forall|i: int| 0 <= i < s.len() - 1 ==> s.drop_last()[i] == s[i]);
    }
}

impl ValidationError {
    /// A value was required but absent.
    pub fn required() -> (r: ValidationError)
        ensures
            r@ == SpecError::Required,
    {
        ValidationError::Required
    }

    /// The value has the wrong shape.
    pub fn invalid_type(expected: ValidationType, input: ValidationType) -> (r: ValidationError)
        ensures
            r@ == (SpecError::InvalidType { expected: expected@, input: input@ }),
    {
        ValidationError::InvalidType { expected, input }
    }

    /// The value differs from the one expected.
    pub fn invalid_value(value: &str) -> (r: ValidationError)
        ensures
            r@ == (SpecError::InvalidValue { value: value@ }),
    {
        ValidationError::InvalidValue { value: value.to_owned() }
    }

    /// The value is none of the allowed ones.
    pub fn invalid_values(values: Vec<String>) -> (r: ValidationError)
        ensures
            r@ == (SpecError::InvalidValues { values: texts_view(values@) }),
    {
        ValidationError::InvalidValues { values }
    }

    /// The value exceeds a maximum.
    pub fn too_big(origin: ValidationOrigin, maximum: &str, inclusive: bool) -> (r:
        ValidationError)
        ensures
            r@ == (SpecError::TooBig { origin, maximum: maximum@, inclusive }),
    {
        ValidationError::TooBig { origin, maximum: maximum.to_owned(), inclusive }
    }

    /// The value falls short of a minimum.
    pub fn too_small(origin: ValidationOrigin, minimum: &str, inclusive: bool) -> (r:
        ValidationError)
        ensures
            r@ == (SpecError::TooSmall { origin, minimum: minimum@, inclusive }),
    {
        ValidationError::TooSmall { origin, minimum: minimum.to_owned(), inclusive }
    }

    /// The text does not meet a format constraint.
    pub fn invalid_format(format: StringFormat, detail: Option<String>) -> (r: ValidationError)
        ensures
            r@ == (SpecError::InvalidFormat {
                format: format@,
                detail: match detail {
                    Some(d) => Some(d@),
                    None => None,
                },
            }),
    {
        ValidationError::InvalidFormat { format, detail }
    }

    /// The number fails a numeric constraint.
    pub fn invalid_number(constraint: NumberConstraint) -> (r: ValidationError)
        ensures
            r@ == (SpecError::InvalidNumber { constraint }),
    {
        ValidationError::InvalidNumber { constraint }
    }

    /// A strict mapping held keys that no field configures.
    pub fn unrecognized_keys(keys: Vec<String>) -> (r: ValidationError)
        ensures
            r@ == (SpecError::UnrecognizedKeys { keys: texts_view(keys@) }),
    {
        ValidationError::UnrecognizedKeys { keys }
    }

    /// Every variant of a union failed; their issues are kept.
    pub fn invalid_union(issues: Vec<ValidationIssue>) -> (r: ValidationError)
        ensures
            r@ == (SpecError::InvalidUnion { issues: issues_view(issues@) }),
    {
        ValidationError::InvalidUnion { issues }
    }

    /// A custom message.
    pub fn custom(message: &str) -> (r: ValidationError)
        ensures
            r@ == (SpecError::Custom { message: message@ }),
    {
        ValidationError::Custom { message: message.to_owned() }
    }
}

} // verus!
