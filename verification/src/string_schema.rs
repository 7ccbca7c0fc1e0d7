//! The text schema: accepts text values and checks length bounds
//! (byte-length semantics), prefix, suffix, substring, regular-expression,
//! email and URL constraints, in that order, reporting the first violation.

use vstd::prelude::*;
use crate::error::{SpecError, SpecFormat, SpecIssue, SpecType, StringFormat, ValidationError,
    ValidationOrigin, ValidationType};
use crate::pattern::{regex_clone, regex_is_match, regex_match, regex_new, regex_source,
    regex_valid};
use crate::result::{root_issue, ValidateResult, ValidationResult};
use crate::textops::{byte_len, dec_of, is_email, is_prefix, is_substring, is_suffix, is_url,
    is_valid_email, is_valid_url, text_contains, text_ends_with, text_starts_with,
    usize_to_string};
use crate::value::{SpecVal, Value};

verus! {

/// The configuration of a text schema. The `pattern` pair holds the regular
/// expression's source text beside its compiled form.
#[derive(Debug)]
pub struct StringSchema {
    pub min_length: Option<usize>,
    pub max_length: Option<usize>,
    pub starts_with: Option<String>,
    pub ends_with: Option<String>,
    pub includes: Option<String>,
    pub pattern: Option<(String, regex::Regex)>,
    pub email: bool,
    pub url: bool,
}

/// What validating a value against a text schema yields: the text itself,
/// or the first violated constraint, checked in configuration order.
pub open spec fn spec_validate_text(cfg: StringSchema, v: SpecVal) -> Result<
    Seq<char>,
    Seq<SpecIssue>,
> {
    match v {
        SpecVal::Text(t) => {
            if cfg.min_length is Some && byte_len(t) < cfg.min_length->0 {
                Err(
                    seq![
                        root_issue(
                            SpecError::TooSmall {
                                origin: ValidationOrigin::String,
                                minimum: dec_of(cfg.min_length->0 as nat),
                                inclusive: true,
                            },
                        ),
                    ],
                )
            } else if cfg.max_length is Some && byte_len(t) > cfg.max_length->0 {
                Err(
                    seq![
                        root_issue(
                            SpecError::TooBig {
                                origin: ValidationOrigin::String,
                                maximum: dec_of(cfg.max_length->0 as nat),
                                inclusive: true,
                            },
                        ),
                    ],
                )
            } else if cfg.starts_with is Some && !is_prefix(cfg.starts_with->0@, t) {
                Err(
                    seq![
                        root_issue(
                            SpecError::InvalidFormat {
                                format: SpecFormat::StartsWith,
                                detail: Some(cfg.starts_with->0@),
                            },
                        ),
                    ],
                )
            } else if cfg.ends_with is Some && !is_suffix(cfg.ends_with->0@, t) {
                Err(
                    seq![
                        root_issue(
                            SpecError::InvalidFormat {
                                format: SpecFormat::EndsWith,
                                detail: Some(cfg.ends_with->0@),
                            },
                        ),
                    ],
                )
            } else if cfg.includes is Some && !is_substring(cfg.includes->0@, t) {
                Err(
                    seq![
                        root_issue(
                            SpecError::InvalidFormat {
                                format: SpecFormat::Includes,
                                detail: Some(cfg.includes->0@),
                            },
                        ),
                    ],
                )
            } else if cfg.pattern is Some && !regex_match(regex_source((cfg.pattern->0).1), t) {
                Err(
                    seq![
                        root_issue(
                            SpecError::InvalidFormat {
                                format: SpecFormat::Regex,
                                detail: Some((cfg.pattern->0).0@),
                            },
                        ),
                    ],
                )
            } else if cfg.email && !is_email(t) {
                Err(
                    seq![
                        root_issue(
                            SpecError::InvalidFormat {
                                format: SpecFormat::Custom("email"@),
                                detail: None,
                            },
                        ),
                    ],
                )
            } else if cfg.url && !is_url(t) {
                Err(
                    seq![
                        root_issue(
                            SpecError::InvalidFormat {
                                format: SpecFormat::Custom("url"@),
                                detail: None,
                            },
                        ),
                    ],
                )
            } else {
                Ok(t)
            }
        },
        _ => Err(
            seq![
                root_issue(
                    SpecError::InvalidType {
                        expected: SpecType::String,
                        input: crate::error::spec_type_of(v),
                    },
                ),
            ],
        ),
    }
}

/// Validates a value against a text schema configuration.
pub(crate) fn validate_text(cfg: &StringSchema, value: &Value) -> (r: ValidateResult<String>)
    ensures
        match r {
            Ok(t) => spec_validate_text(*cfg, value@) == Ok::<Seq<char>, Seq<SpecIssue>>(t@),
            Err(e) => spec_validate_text(*cfg, value@) == Err::<Seq<char>, Seq<SpecIssue>>(e@),
        },
{
    match value {
        Value::Text(s) => {
            if let Some(m) = &cfg.min_length {
                if s.as_str().len() < *m {
                    return Err(
                        ValidationResult::with_error(
                            ValidationError::too_small(
                                ValidationOrigin::String,
                                usize_to_string(*m).as_str(),
                                true,
                            ),
                        ),
                    );
                }
            }
            if let Some(m) = &cfg.max_length {
                if s.as_str().len() > *m {
                    return Err(
                        ValidationResult::with_error(
                            ValidationError::too_big(
                                ValidationOrigin::String,
                                usize_to_string(*m).as_str(),
                                true,
                            ),
                        ),
                    );
                }
            }
            if let Some(p) = &cfg.starts_with {
                if !text_starts_with(s.as_str(), p.as_str()) {
                    return Err(
                        ValidationResult::with_error(
                            ValidationError::invalid_format(
                                StringFormat::StartsWith,
                                Some(p.clone()),
                            ),
                        ),
                    );
                }
            }
            if let Some(p) = &cfg.ends_with {
                if !text_ends_with(s.as_str(), p.as_str()) {
                    return Err(
                        ValidationResult::with_error(
                            ValidationError::invalid_format(
                                StringFormat::EndsWith,
                                Some(p.clone()),
                            ),
                        ),
                    );
                }
            }
            if let Some(p) = &cfg.includes {
                if !text_contains(s.as_str(), p.as_str()) {
                    return Err(
                        ValidationResult::with_error(
                            ValidationError::invalid_format(
                                StringFormat::Includes,
                                Some(p.clone()),
                            ),
                        ),
                    );
                }
            }
            if let Some(pr) = &cfg.pattern {
                if !regex_is_match(&pr.1, s.as_str()) {
                    return Err(
                        ValidationResult::with_error(
                            ValidationError::invalid_format(StringFormat::Regex, Some(pr.0.clone())),
                        ),
                    );
                }
            }
            if cfg.email && !is_valid_email(s.as_str()) {
                return Err(
                    ValidationResult::with_error(
                        ValidationError::invalid_format(StringFormat::custom("email"), None),
                    ),
                );
            }
            if cfg.url && !is_valid_url(s.as_str()) {
                return Err(
                    ValidationResult::with_error(
                        ValidationError::invalid_format(StringFormat::custom("url"), None),
                    ),
                );
            }
            Ok(s.clone())
        },
        _ => Err(
            ValidationResult::with_error(
                ValidationError::invalid_type(ValidationType::String, ValidationType::of_value(
                    value,
                )),
            ),
        ),
    }
}

impl StringSchema {
    /// A text schema with no constraints.
    pub fn new() -> (r: StringSchema)
        ensures
            r.min_length is None,
            r.max_length is None,
            r.starts_with is None,
            r.ends_with is None,
            r.includes is None,
            r.pattern is None,
            !r.email,
            !r.url,
    {
        StringSchema {
            min_length: None,
            max_length: None,
            starts_with: None,
            ends_with: None,
            includes: None,
            pattern: None,
            email: false,
            url: false,
        }
    }

    /// Requires at least `min` bytes.
    pub fn min(self, min: usize) -> (r: StringSchema)
        ensures
            r == (StringSchema { min_length: Some(min), ..self }),
    {
        StringSchema { min_length: Some(min), ..self }
    }

    /// Allows at most `max` bytes.
    pub fn max(self, max: usize) -> (r: StringSchema)
        ensures
            r == (StringSchema { max_length: Some(max), ..self }),
    {
        StringSchema { max_length: Some(max), ..self }
    }

    /// Requires exactly `len` bytes.
    pub fn length(self, len: usize) -> (r: StringSchema)
        ensures
            r == (StringSchema { min_length: Some(len), max_length: Some(len), ..self }),
    {
        self.min(len).max(len)
    }

    /// Requires the given prefix.
    pub fn starts_with(self, val: &str) -> (r: StringSchema)
        ensures
            r.starts_with matches Some(p) && p@ == val@,
            r == (StringSchema { starts_with: r.starts_with, ..self }),
    {
        StringSchema { starts_with: Some(val.to_owned()), ..self }
    }

    /// Requires the given suffix.
    pub fn ends_with(self, val: &str) -> (r: StringSchema)
        ensures
            r.ends_with matches Some(p) && p@ == val@,
            r == (StringSchema { ends_with: r.ends_with, ..self }),
    {
        StringSchema { ends_with: Some(val.to_owned()), ..self }
    }

    /// Requires the given substring.
    pub fn includes(self, val: &str) -> (r: StringSchema)
        ensures
            r.includes matches Some(p) && p@ == val@,
            r == (StringSchema { includes: r.includes, ..self }),
    {
        StringSchema { includes: Some(val.to_owned()), ..self }
    }

    /// Requires a match of the given regular expression, which must be a
    /// valid pattern; `try_regex` is the fallible form.
    pub fn regex(self, pattern: &str) -> (r: StringSchema)
        requires
            regex_valid(pattern@),
        ensures
            r.pattern matches Some(pr) && pr.0@ == pattern@ && regex_source(pr.1) == pattern@,
            r == (StringSchema { pattern: r.pattern, ..self }),
    {
        match regex_new(pattern) {
            Ok(re) => StringSchema { pattern: Some((pattern.to_owned(), re)), ..self },
            Err(_) => {
                proof {
                    assert(false);
                }
                vstd::pervasive::unreached()
            },
        }
    }

    /// Requires a match of the given regular expression; an invalid pattern
    /// is reported as the compile error's message.
    pub fn try_regex(self, pattern: &str) -> (r: Result<StringSchema, String>)
        ensures
            r is Ok <==> regex_valid(pattern@),
            r matches Ok(cfg) ==> cfg.pattern matches Some(pr) && pr.0@ == pattern@
                && regex_source(pr.1) == pattern@ && cfg == (StringSchema {
                pattern: cfg.pattern,
                ..self
            }),
    {
        match regex_new(pattern) {
            Ok(_) => Ok(self.regex(pattern)),
            Err(e) => Err(e),
        }
    }

    /// Requires the email shape.
    pub fn email(self) -> (r: StringSchema)
        ensures
            r == (StringSchema { email: true, ..self }),
    {
        StringSchema { email: true, ..self }
    }

    /// Requires the URL shape: an `http://` or `https://` scheme prefix.
    pub fn url(self) -> (r: StringSchema)
        ensures
            r == (StringSchema { url: true, ..self }),
    {
        StringSchema { url: true, ..self }
    }

    /// Validates a value, yielding the text or every reason it was refused.
    pub fn validate(&self, value: &Value) -> (r: ValidateResult<String>)
        ensures
            match r {
                Ok(t) => spec_validate_text(*self, value@) == Ok::<Seq<char>, Seq<SpecIssue>>(t@),
                Err(e) => spec_validate_text(*self, value@) == Err::<Seq<char>, Seq<SpecIssue>>(
                    e@,
                ),
            },
    {
        validate_text(self, value)
    }

    /// `validate`, under the name call sites that never expect failure use.
    pub fn safe_parse(&self, value: &Value) -> (r: ValidateResult<String>)
        ensures
            match r {
                Ok(t) => spec_validate_text(*self, value@) == Ok::<Seq<char>, Seq<SpecIssue>>(t@),
                Err(e) => spec_validate_text(*self, value@) == Err::<Seq<char>, Seq<SpecIssue>>(
                    e@,
                ),
            },
    {
        self.validate(value)
    }

    /// Validates a value that is known to satisfy this schema.
    pub fn parse(&self, value: &Value) -> (t: String)
        requires
            spec_validate_text(*self, value@) is Ok,
        ensures
            spec_validate_text(*self, value@) == Ok::<Seq<char>, Seq<SpecIssue>>(t@),
    {
        match self.validate(value) {
            Ok(t) => t,
            Err(_) => {
                proof {
                    assert(false);
                }
                vstd::pervasive::unreached()
            },
        }
    }
}

impl Clone for StringSchema {
    /// A clone validates as the original does.
    fn clone(&self) -> (r: StringSchema) {
        StringSchema {
            min_length: self.min_length,
            max_length: self.max_length,
            starts_with: match &self.starts_with {
                Some(p) => Some(p.clone()),
                None => None,
            },
            ends_with: match &self.ends_with {
                Some(p) => Some(p.clone()),
                None => None,
            },
            includes: match &self.includes {
                Some(p) => Some(p.clone()),
                None => None,
            },
            pattern: match &self.pattern {
                Some(pr) => Some((pr.0.clone(), regex_clone(&pr.1))),
                None => None,
            },
            email: self.email,
            url: self.url,
        }
    }
}

/// A text schema with no constraints.
pub fn string() -> (r: StringSchema)
    ensures
        r.min_length is None,
        r.max_length is None,
        r.starts_with is None,
        r.ends_with is None,
        r.includes is None,
        r.pattern is None,
        !r.email,
        !r.url,
{
    StringSchema::new()
}

} // verus!
