//! The localization layer: maps (locale, error) to human-readable text,
//! entirely separate from the error taxonomy. Unknown custom format names
//! fall back to the raw key; size-denominated messages look up a per-origin
//! unit-and-verb pair so the same error kind reads grammatically in each
//! locale.

use vstd::prelude::*;
use crate::error::{texts_view, NumberConstraint, SpecError, SpecFormat, SpecIssue, SpecType,
    StringFormat, ValidationError, ValidationIssue, ValidationOrigin, ValidationType};
use crate::result::ValidationResult;
use crate::textops::text_equal;

verus! {

broadcast use vstd::std_specs::vec::group_vec_axioms;

/// A locale tag; rendering falls back to English where a table has no
/// entry.
#[derive(Debug, Clone, Copy, PartialEq, Eq, Structural, Hash)]
pub enum Locale {
    En,
    Ar,
}

/// The label of a value shape in messages.
pub open spec fn type_text(t: SpecType) -> Seq<char> {
    match t {
        SpecType::Null => "null"@,
        SpecType::Bool => "bool"@,
        SpecType::Number => "number"@,
        SpecType::String => "string"@,
        SpecType::Array => "array"@,
        SpecType::Object => "object"@,
        SpecType::Undefined => "undefined"@,
        SpecType::Custom(s) => s,
    }
}

/// The label of a size-constraint subject in messages.
pub open spec fn origin_text(o: ValidationOrigin) -> Seq<char> {
    match o {
        ValidationOrigin::String => "string"@,
        ValidationOrigin::Array => "array"@,
        ValidationOrigin::Number => "number"@,
    }
}

/// The parts joined by a separator.
pub open spec fn join_texts(parts: Seq<Seq<char>>, sep: Seq<char>) -> Seq<char>
    decreases parts.len(),
{
    if parts.len() == 0 {
        Seq::empty()
    } else if parts.len() == 1 {
        parts[0]
    } else {
        join_texts(parts.drop_last(), sep) + sep + parts.last()
    }
}

/// The label of a value shape.
fn type_label(t: &ValidationType) -> (r: &str)
    ensures
        r@ == type_text(t@),
{
    match t {
        ValidationType::Null => "null",
        ValidationType::Bool => "bool",
        ValidationType::Number => "number",
        ValidationType::String => "string",
        ValidationType::Array => "array",
        ValidationType::Object => "object",
        ValidationType::Undefined => "undefined",
        ValidationType::Custom(s) => s.as_str(),
    }
}

/// The label of a size-constraint subject.
fn origin_label(o: &ValidationOrigin) -> (r: &str)
    ensures
        r@ == origin_text(*o),
{
    match o {
        ValidationOrigin::String => "string",
        ValidationOrigin::Array => "array",
        ValidationOrigin::Number => "number",
    }
}

/// Joins the parts with the separator.
#[verifier::loop_isolation(false)]
pub fn join_with(parts: &Vec<String>, sep: &str) -> (r: String)
    ensures
        r@ == join_texts(texts_view(parts@), sep@),
{
    let ghost tv = texts_view(parts@);
    let mut out = String::new();
    let mut i: usize = 0;
    while i < parts.len()
        invariant
            i <= parts.len(),
            out@ == join_texts(tv.take(i as int), sep@),
        decreases parts.len() - i,
    {
        if i > 0 {
            out.append(sep);
        }
        out.append(parts[i].as_str());
        i = i + 1;
        proof {
            assert(tv.take(i as int).drop_last() =~= tv.take(i - 1));
            assert(tv.take(i as int).last() == parts@[i - 1]@);
            if i == 1 {
                assert(out@ =~= tv.take(1)[0]);
            }
        }
    }
    proof {
        assert(tv.take(parts@.len() as int) =~= tv);
    }
    out
}

/// The English noun for a named format, falling back to the raw key.
pub open spec fn en_noun(key: Seq<char>) -> Seq<char> {
    if key == "regex"@ {
        "input"@
    } else if key == "email"@ {
        "email address"@
    } else if key == "url"@ {
        "URL"@
    } else if key == "emoji"@ {
        "emoji"@
    } else if key == "uuid"@ {
        "UUID"@
    } else if key == "uuidv4"@ {
        "UUIDv4"@
    } else if key == "uuidv6"@ {
        "UUIDv6"@
    } else if key == "nanoid"@ {
        "nanoid"@
    } else if key == "guid"@ {
        "GUID"@
    } else if key == "cuid"@ {
        "cuid"@
    } else if key == "cuid2"@ {
        "cuid2"@
    } else if key == "ulid"@ {
        "ULID"@
    } else if key == "xid"@ {
        "XID"@
    } else if key == "ksuid"@ {
        "KSUID"@
    } else if key == "datetime"@ {
        "ISO datetime"@
    } else if key == "date"@ {
        "ISO date"@
    } else if key == "time"@ {
        "ISO time"@
    } else if key == "duration"@ {
        "ISO duration"@
    } else if key == "ipv4"@ {
        "IPv4 address"@
    } else if key == "ipv6"@ {
        "IPv6 address"@
    } else if key == "cidrv4"@ {
        "IPv4 range"@
    } else if key == "cidrv6"@ {
        "IPv6 range"@
    } else if key == "base64"@ {
        "base64-encoded string"@
    } else if key == "base64url"@ {
        "base64url-encoded string"@
    } else if key == "json_string"@ {
        "JSON string"@
    } else if key == "e164"@ {
        "E.164 number"@
    } else if key == "jwt"@ {
        "JWT"@
    } else if key == "template_literal"@ {
        "input"@
    } else {
        key
    }
}

/// The Arabic noun for a named format, falling back to the raw key; the
/// identifier-like keys keep their Latin form.
pub open spec fn ar_noun(key: Seq<char>) -> Seq<char> {
    if key == "regex"@ {
        "مدخل"@
    } else if key == "email"@ {
        "بريد إلكتروني"@
    } else if key == "url"@ {
        "رابط"@
    } else {
        key
    }
}

/// The English unit of a sizable subject.
pub open spec fn en_unit(o: ValidationOrigin) -> Seq<char> {
    match o {
        ValidationOrigin::String => "characters"@,
        ValidationOrigin::Array => "items"@,
        ValidationOrigin::Number => ""@,
    }
}

/// The Arabic unit of a sizable subject.
pub open spec fn ar_unit(o: ValidationOrigin) -> Seq<char> {
    match o {
        ValidationOrigin::String => "حرف"@,
        ValidationOrigin::Array => "عنصر"@,
        ValidationOrigin::Number => ""@,
    }
}

/// The English message for one error.
pub open spec fn en_message(e: SpecError) -> Seq<char> {
    match e {
        SpecError::Required => "Value is required but was not provided"@,
        SpecError::InvalidType { expected, input } => "Invalid input: expected "@ + type_text(
            expected,
        ) + ", received "@ + type_text(input),
        SpecError::InvalidValue { value } => "Invalid input: expected "@ + value,
        SpecError::InvalidValues { values } => "Invalid option: expected one of "@ + join_texts(
            values,
            " | "@,
        ),
        SpecError::TooBig { origin, maximum, inclusive } => {
            let adj = if inclusive {
                "<="@
            } else {
                "<"@
            };
            if origin is Number {
                "Too big: expected "@ + origin_text(origin) + " to have "@ + adj + " "@ + maximum
            } else {
                "Too big: expected "@ + origin_text(origin) + " to have "@ + adj + " "@ + maximum
                    + " "@ + en_unit(origin)
            }
        },
        SpecError::TooSmall { origin, minimum, inclusive } => {
            let adj = if inclusive {
                ">="@
            } else {
                ">"@
            };
            if origin is Number {
                "Too small: expected "@ + origin_text(origin) + " to have "@ + adj + " "@
                    + minimum
            } else {
                "Too small: expected "@ + origin_text(origin) + " to have "@ + adj + " "@
                    + minimum + " "@ + en_unit(origin)
            }
        },
        SpecError::InvalidFormat { format, detail } => {
            let d = match detail {
                Some(d) => d,
                None => ""@,
            };
            match format {
                SpecFormat::StartsWith => "Invalid value: must start with \""@ + d + "\""@,
                SpecFormat::EndsWith => "Invalid value: must end with \""@ + d + "\""@,
                SpecFormat::Includes => "Invalid value: must include \""@ + d + "\""@,
                SpecFormat::Regex => "Invalid value: must match pattern "@ + d,
                SpecFormat::Custom(f) => "Invalid "@ + en_noun(f),
            }
        },
        SpecError::InvalidNumber { constraint } => match constraint {
            NumberConstraint::Finite => "Invalid number: must be finite"@,
            NumberConstraint::Positive => "Invalid number: must be positive"@,
            NumberConstraint::Negative => "Invalid number: must be negative"@,
            NumberConstraint::NonNegative => "Invalid number: must be non-negative"@,
            NumberConstraint::NonPositive => "Invalid number: must be non-positive"@,
        },
        SpecError::UnrecognizedKeys { keys } => "Unrecognized key"@ + (if keys.len() > 1 {
            "s"@
        } else {
            ""@
        }) + ": "@ + join_texts(keys, ", "@),
        SpecError::InvalidUnion { issues } => "Invalid input"@,
        SpecError::Custom { message } => message,
    }
}

/// The Arabic message for one error.
pub open spec fn ar_message(e: SpecError) -> Seq<char> {
    match e {
        SpecError::Required => "القيمة مطلوبة ولكن لم يتم تقديمها"@,
        SpecError::InvalidType { expected, input } => "مدخلات غير مقبولة: يفترض إدخال "@ + type_text(expected) + "، ولكن تم إدخال "@
            + type_text(input),
        SpecError::InvalidValue { value } => "مدخلات غير مقبولة: يفترض إدخال "@ + value,
        SpecError::InvalidValues { values } => "اختيار غير مقبول: يتوقع انتقاء أحد هذه الخيارات: "@ + join_texts(values, " | "@),
        SpecError::TooBig { origin, maximum, inclusive } => {
            let adj = if inclusive {
                "<="@
            } else {
                "<"@
            };
            if origin is Number {
                "أكبر من اللازم: يفترض أن تكون "@ + origin_text(origin) + " "@ + adj + " "@ + maximum
            } else {
                " أكبر من اللازم: يفترض "@ + origin_text(origin) + " أن يحوي "@ + adj + " "@ + maximum + " "@
                    + ar_unit(origin)
            }
        },
        SpecError::TooSmall { origin, minimum, inclusive } => {
            let adj = if inclusive {
                ">="@
            } else {
                ">"@
            };
            if origin is Number {
                "أصغر من اللازم: يفترض لـ "@ + origin_text(origin) + " أن يكون "@ + adj + " "@ + minimum
            } else {
                "أصغر من اللازم: يفترض لـ "@ + origin_text(origin) + " أن يحوي "@ + adj + " "@ + minimum + " "@
                    + ar_unit(origin)
            }
        },
        SpecError::InvalidFormat { format, detail } => {
            let d = match detail {
                Some(d) => d,
                None => ""@,
            };
            match format {
                SpecFormat::StartsWith => "نَص غير مقبول: يجب أن يبدأ بـ \""@ + d + "\""@,
                SpecFormat::EndsWith => "نَص غير مقبول: يجب أن ينتهي بـ \""@ + d + "\""@,
                SpecFormat::Includes => "نَص غير مقبول: يجب أن يتضمَّن \""@ + d + "\""@,
                SpecFormat::Regex => "نَص غير مقبول: يجب أن يطابق النمط "@ + d,
                SpecFormat::Custom(f) => ar_noun(f) + " غير مقبول"@,
            }
        },
        SpecError::InvalidNumber { constraint } => match constraint {
            NumberConstraint::Finite => "رقم غير صالح: يجب أن يكون محدودًا"@,
            NumberConstraint::Positive => "رقم غير صالح: يجب أن يكون موجبًا"@,
            NumberConstraint::Negative => "رقم غير صالح: يجب أن يكون سالبًا"@,
            NumberConstraint::NonNegative => "رقم غير صالح: يجب ألا يكون سالبًا"@,
            NumberConstraint::NonPositive => "رقم غير صالح: يجب ألا يكون موجبًا"@,
        },
        SpecError::UnrecognizedKeys { keys } => "معرف"@ + (if keys.len() > 1 {
            "ات"@
        } else {
            ""@
        }) + " غريب"@ + (if keys.len() > 1 {
            "ة"@
        } else {
            ""@
        }) + ": "@ + join_texts(keys, "، "@),
        SpecError::InvalidUnion { issues } => "مدخل غير مقبول"@,
        SpecError::Custom { message } => message,
    }
}

/// The message for one error under a locale.
pub open spec fn spec_message(locale: Locale, e: SpecError) -> Seq<char> {
    match locale {
        Locale::En => en_message(e),
        Locale::Ar => ar_message(e),
    }
}

/// The rendering of one issue: its dot-joined path, a separator when the
/// path is not the root, and the error's message.
pub open spec fn spec_issue_text(locale: Locale, i: SpecIssue) -> Seq<char> {
    if i.path.len() == 0 {
        spec_message(locale, i.error)
    } else {
        join_texts(i.path, "."@) + ": "@ + spec_message(locale, i.error)
    }
}

/// The rendering of a list of issues, one line each.
pub open spec fn spec_issues_text(locale: Locale, s: Seq<SpecIssue>) -> Seq<char>
    decreases s.len(),
{
    if s.len() == 0 {
        Seq::empty()
    } else if s.len() == 1 {
        spec_issue_text(locale, s[0])
    } else {
        spec_issues_text(locale, s.drop_last()) + "\n"@ + spec_issue_text(locale, s.last())
    }
}

/// The English noun for a named format.
fn en_noun_label<'a>(key: &'a str) -> (r: &'a str)
    ensures
        r@ == en_noun(key@),
{
    if text_equal(key, "regex") {
        "input"
    } else if text_equal(key, "email") {
        "email address"
    } else if text_equal(key, "url") {
        "URL"
    } else if text_equal(key, "emoji") {
        "emoji"
    } else if text_equal(key, "uuid") {
        "UUID"
    } else if text_equal(key, "uuidv4") {
        "UUIDv4"
    } else if text_equal(key, "uuidv6") {
        "UUIDv6"
    } else if text_equal(key, "nanoid") {
        "nanoid"
    } else if text_equal(key, "guid") {
        "GUID"
    } else if text_equal(key, "cuid") {
        "cuid"
    } else if text_equal(key, "cuid2") {
        "cuid2"
    } else if text_equal(key, "ulid") {
        "ULID"
    } else if text_equal(key, "xid") {
        "XID"
    } else if text_equal(key, "ksuid") {
        "KSUID"
    } else if text_equal(key, "datetime") {
        "ISO datetime"
    } else if text_equal(key, "date") {
        "ISO date"
    } else if text_equal(key, "time") {
        "ISO time"
    } else if text_equal(key, "duration") {
        "ISO duration"
    } else if text_equal(key, "ipv4") {
        "IPv4 address"
    } else if text_equal(key, "ipv6") {
        "IPv6 address"
    } else if text_equal(key, "cidrv4") {
        "IPv4 range"
    } else if text_equal(key, "cidrv6") {
        "IPv6 range"
    } else if text_equal(key, "base64") {
        "base64-encoded string"
    } else if text_equal(key, "base64url") {
        "base64url-encoded string"
    } else if text_equal(key, "json_string") {
        "JSON string"
    } else if text_equal(key, "e164") {
        "E.164 number"
    } else if text_equal(key, "jwt") {
        "JWT"
    } else if text_equal(key, "template_literal") {
        "input"
    } else {
        key
    }
}

/// The Arabic noun for a named format.
fn ar_noun_label<'a>(key: &'a str) -> (r: &'a str)
    ensures
        r@ == ar_noun(key@),
{
    if text_equal(key, "regex") {
        "مدخل"
    } else if text_equal(key, "email") {
        "بريد إلكتروني"
    } else if text_equal(key, "url") {
        "رابط"
    } else {
        key
    }
}

/// Renders one error under a locale.
fn localize_error(locale: Locale, error: &ValidationError) -> (r: String)
    ensures
        r@ == spec_message(locale, error@),
{
    let en: bool = match locale {
        Locale::En => true,
        Locale::Ar => false,
    };
    match error {
        ValidationError::Required => {
            if en {
                "Value is required but was not provided".to_owned()
            } else {
                "القيمة مطلوبة ولكن لم يتم تقديمها".to_owned()
            }
        },
        ValidationError::InvalidType { expected, input } => {
            let mut s = if en {
                "Invalid input: expected ".to_owned()
            } else {
                "مدخلات غير مقبولة: يفترض إدخال ".to_owned()
            };
            s.append(type_label(expected));
            if en {
                s.append(", received ");
            } else {
                s.append("، ولكن تم إدخال ");
            }
            s.append(type_label(input));
            s
        },
        ValidationError::InvalidValue { value } => {
            let mut s = if en {
                "Invalid input: expected ".to_owned()
            } else {
                "مدخلات غير مقبولة: يفترض إدخال ".to_owned()
            };
            s.append(value.as_str());
            s
        },
        ValidationError::InvalidValues { values } => {
            let mut s = if en {
                "Invalid option: expected one of ".to_owned()
            } else {
                "اختيار غير مقبول: يتوقع انتقاء أحد هذه الخيارات: ".to_owned()
            };
            let joined = join_with(values, " | ");
            s.append(joined.as_str());
            s
        },
        ValidationError::TooBig { origin, maximum, inclusive } => {
            let adj: &str = if *inclusive {
                "<="
            } else {
                "<"
            };
            let number_origin: bool = match origin {
                ValidationOrigin::Number => true,
                _ => false,
            };
            let mut s: String;
            if en {
                s = "Too big: expected ".to_owned();
                s.append(origin_label(origin));
                s.append(" to have ");
                s.append(adj);
                s.append(" ");
                s.append(maximum.as_str());
                if !number_origin {
                    s.append(" ");
                    s.append(
                        match origin {
                            ValidationOrigin::String => "characters",
                            ValidationOrigin::Array => "items",
                            ValidationOrigin::Number => "",
                        },
                    );
                }
            } else {
                if number_origin {
                    s = "أكبر من اللازم: يفترض أن تكون ".to_owned();
                    s.append(origin_label(origin));
                    s.append(" ");
                    s.append(adj);
                    s.append(" ");
                    s.append(maximum.as_str());
                } else {
                    s = " أكبر من اللازم: يفترض ".to_owned();
                    s.append(origin_label(origin));
                    s.append(" أن يحوي ");
                    s.append(adj);
                    s.append(" ");
                    s.append(maximum.as_str());
                    s.append(" ");
                    s.append(
                        match origin {
                            ValidationOrigin::String => "حرف",
                            ValidationOrigin::Array => "عنصر",
                            ValidationOrigin::Number => "",
                        },
                    );
                }
            }
            s
        },
        ValidationError::TooSmall { origin, minimum, inclusive } => {
            let adj: &str = if *inclusive {
                ">="
            } else {
                ">"
            };
            let number_origin: bool = match origin {
                ValidationOrigin::Number => true,
                _ => false,
            };
            let mut s: String;
            if en {
                s = "Too small: expected ".to_owned();
                s.append(origin_label(origin));
                s.append(" to have ");
                s.append(adj);
                s.append(" ");
                s.append(minimum.as_str());
                if !number_origin {
                    s.append(" ");
                    s.append(
                        match origin {
                            ValidationOrigin::String => "characters",
                            ValidationOrigin::Array => "items",
                            ValidationOrigin::Number => "",
                        },
                    );
                }
            } else {
                s = "أصغر من اللازم: يفترض لـ ".to_owned();
                s.append(origin_label(origin));
                if number_origin {
                    s.append(" أن يكون ");
                    s.append(adj);
                    s.append(" ");
                    s.append(minimum.as_str());
                } else {
                    s.append(" أن يحوي ");
                    s.append(adj);
                    s.append(" ");
                    s.append(minimum.as_str());
                    s.append(" ");
                    s.append(
                        match origin {
                            ValidationOrigin::String => "حرف",
                            ValidationOrigin::Array => "عنصر",
                            ValidationOrigin::Number => "",
                        },
                    );
                }
            }
            s
        },
        ValidationError::InvalidFormat { format, detail } => {
            let d: &str = match detail {
                Some(d) => d.as_str(),
                None => "",
            };
            match format {
                StringFormat::StartsWith => {
                    let mut s = if en {
                        "Invalid value: must start with \"".to_owned()
                    } else {
                        "نَص غير مقبول: يجب أن يبدأ بـ \"".to_owned()
                    };
                    s.append(d);
                    s.append("\"");
                    s
                },
                StringFormat::EndsWith => {
                    let mut s = if en {
                        "Invalid value: must end with \"".to_owned()
                    } else {
                        "نَص غير مقبول: يجب أن ينتهي بـ \"".to_owned()
                    };
                    s.append(d);
                    s.append("\"");
                    s
                },
                StringFormat::Includes => {
                    let mut s = if en {
                        "Invalid value: must include \"".to_owned()
                    } else {
                        "نَص غير مقبول: يجب أن يتضمَّن \"".to_owned()
                    };
                    s.append(d);
                    s.append("\"");
                    s
                },
                StringFormat::Regex => {
                    let mut s = if en {
                        "Invalid value: must match pattern ".to_owned()
                    } else {
                        "نَص غير مقبول: يجب أن يطابق النمط ".to_owned()
                    };
                    s.append(d);
                    s
                },
                StringFormat::Custom(f) => {
                    if en {
                        let mut s = "Invalid ".to_owned();
                        s.append(en_noun_label(f.as_str()));
                        s
                    } else {
                        let mut s = ar_noun_label(f.as_str()).to_owned();
                        s.append(" غير مقبول");
                        s
                    }
                },
            }
        },
        ValidationError::InvalidNumber { constraint } => {
            let r: &str = match (en, constraint) {
                (true, NumberConstraint::Finite) => "Invalid number: must be finite",
                (true, NumberConstraint::Positive) => "Invalid number: must be positive",
                (true, NumberConstraint::Negative) => "Invalid number: must be negative",
                (true, NumberConstraint::NonNegative) => "Invalid number: must be non-negative",
                (true, NumberConstraint::NonPositive) => "Invalid number: must be non-positive",
                (false, NumberConstraint::Finite) => "رقم غير صالح: يجب أن يكون محدودًا",
                (false, NumberConstraint::Positive) => "رقم غير صالح: يجب أن يكون موجبًا",
                (false, NumberConstraint::Negative) => "رقم غير صالح: يجب أن يكون سالبًا",
                (false, NumberConstraint::NonNegative) => "رقم غير صالح: يجب ألا يكون سالبًا",
                (false, NumberConstraint::NonPositive) => "رقم غير صالح: يجب ألا يكون موجبًا",
            };
            r.to_owned()
        },
        ValidationError::UnrecognizedKeys { keys } => {
            let many: bool = keys.len() > 1;
            let mut s: String;
            if en {
                s = "Unrecognized key".to_owned();
                if many {
                    s.append("s");
                }
                s.append(": ");
                let joined = join_with(keys, ", ");
                s.append(joined.as_str());
                proof {
                    reveal_strlit("");
                    assert(s@ =~= spec_message(locale, error@));
                }
            } else {
                s = "معرف".to_owned();
                if many {
                    s.append("ات");
                }
                s.append(" غريب");
                if many {
                    s.append("ة");
                }
                s.append(": ");
                let joined = join_with(keys, "، ");
                s.append(joined.as_str());
                proof {
                    reveal_strlit("");
                    assert(s@ =~= spec_message(locale, error@));
                }
            }
            s
        },
        ValidationError::InvalidUnion { issues: _ } => {
            if en {
                "Invalid input".to_owned()
            } else {
                "مدخل غير مقبول".to_owned()
            }
        },
        ValidationError::Custom { message } => message.clone(),
    }
}

/// A per-locale message table.
pub trait Localizer {
    /// The message this table gives one error.
    spec fn spec_localize(&self, e: SpecError) -> Seq<char>;

    /// Renders one error.
    fn localize(&self, error: &ValidationError) -> (r: String)
        ensures
            r@ == self.spec_localize(error@),
    ;
}

/// The English message table.
#[derive(Debug, Default, Clone)]
pub struct En;

impl Localizer for En {
    open spec fn spec_localize(&self, e: SpecError) -> Seq<char> {
        en_message(e)
    }

    fn localize(&self, error: &ValidationError) -> (r: String) {
        localize_error(Locale::En, error)
    }
}

/// The Arabic message table.
#[derive(Debug, Default, Clone)]
pub struct Ar;

impl Localizer for Ar {
    open spec fn spec_localize(&self, e: SpecError) -> Seq<char> {
        ar_message(e)
    }

    fn localize(&self, error: &ValidationError) -> (r: String) {
        localize_error(Locale::Ar, error)
    }
}

/// The message table of one locale.
#[derive(Debug, Clone)]
pub enum LocaleTable {
    En(En),
    Ar(Ar),
}

impl Localizer for LocaleTable {
    open spec fn spec_localize(&self, e: SpecError) -> Seq<char> {
        match self {
            LocaleTable::En(_) => en_message(e),
            LocaleTable::Ar(_) => ar_message(e),
        }
    }

    fn localize(&self, error: &ValidationError) -> (r: String) {
        match self {
            LocaleTable::En(l) => l.localize(error),
            LocaleTable::Ar(l) => l.localize(error),
        }
    }
}

/// The message table for a locale tag.
pub fn localizer(locale: Locale) -> (r: LocaleTable)
    ensures
        locale is En ==> r is En,
        locale is Ar ==> r is Ar,
{
    match locale {
        Locale::En => LocaleTable::En(En),
        Locale::Ar => LocaleTable::Ar(Ar),
    }
}

impl ValidationError {
    /// Renders this error under a locale.
    pub fn local(&self, locale: Locale) -> (r: String)
        ensures
            r@ == spec_message(locale, self@),
    {
        localize_error(locale, self)
    }
}

impl ValidationIssue {
    /// Renders this issue under a locale: the dot-joined path, then the
    /// error's message.
    pub fn local(&self, lang: Locale) -> (r: String)
        ensures
            r@ == spec_issue_text(lang, self@),
    {
        if self.path.len() == 0 {
            let r = self.error.local(lang);
            proof {
                assert(texts_view(self.path@).len() == 0);
            }
            r
        } else {
            let mut s = join_with(&self.path, ".");
            s.append(": ");
            let msg = self.error.local(lang);
            s.append(msg.as_str());
            proof {
                assert(texts_view(self.path@).len() == self.path@.len());
            }
            s
        }
    }
}

impl ValidationResult {
    /// Renders every issue under a locale, one line each.
    #[verifier::loop_isolation(false)]
    pub fn local(&self, lang: Locale) -> (r: String)
        ensures
            r@ == spec_issues_text(lang, self@),
    {
        broadcast use crate::error::lemma_issues_view;

        let ghost iv = self@;
        let mut out = String::new();
        let mut i: usize = 0;
        while i < self.issues.len()
            invariant
                i <= self.issues.len(),
                out@ == spec_issues_text(lang, iv.take(i as int)),
            decreases self.issues.len() - i,
        {
            if i > 0 {
                out.append("\n");
            }
            let line = self.issues[i].local(lang);
            out.append(line.as_str());
            i = i + 1;
            proof {
                assert(iv.take(i as int).drop_last() =~= iv.take(i - 1));
                assert(iv.take(i as int).last() == self.issues@[i - 1]@);
                if i == 1 {
                    assert(out@ =~= spec_issue_text(lang, iv.take(1)[0]));
                }
            }
        }
        proof {
            assert(iv.take(self.issues@.len() as int) =~= iv);
        }
        out
    }
}

} // verus!
