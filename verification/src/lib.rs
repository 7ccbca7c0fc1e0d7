//! A schema-combinator validation library for tree-shaped, dynamically typed
//! values: schemas are composed from primitive and composite builders, and a
//! recursive engine walks the schema and the value in lock-step, collecting
//! every violation with the path at which it occurred.

mod error;
mod laws;
mod literal;
mod locales;
mod num;
mod number_schema;
mod pattern;
mod result;
mod schema;
mod string_schema;
mod textops;
mod value;

pub use error::{
    NumberConstraint, SpecError, SpecFormat, SpecIssue, SpecType, StringFormat, ValidationError,
    ValidationIssue, ValidationOrigin, ValidationType,
};
pub use laws::{
    lemma_error_has_issues, lemma_optional_transparency, lemma_strict_vs_lenient,
    lemma_union_accepts_iff, lemma_union_first_match, lemma_object_no_short_circuit,
    count_missing_required,
};
pub use locales::{
    ar_message, ar_noun, ar_unit, en_message, en_noun, en_unit, join_texts, join_with, localizer,
    origin_text, spec_issue_text, spec_issues_text, spec_message, type_text, Ar, En, Locale,
    LocaleTable, Localizer,
};
pub use num::{NumClass, Number, SpecNum};
pub use result::{prefix_issues, root_issue, ValidateResult, ValidationResult};
pub use schema::{
    array, boolean, field_names, null, object, optional, spec_elems, spec_field_upsert,
    spec_fields, spec_tuple_elems, spec_unconfigured, spec_union_variants, spec_validate,
    spec_validate_bool, spec_validate_list, spec_validate_null, spec_validate_object,
    spec_validate_opt, spec_validate_tuple, spec_validate_union, tuple, tuple_len_message, union,
    validate_node, ArraySchema, BooleanSchema, NullSchema, ObjField, ObjectSchema,
    OptionalSchema, Schema, SchemaNode, TupleSchema, UnionSchema,
};
pub use literal::{literal, spec_validate_lit_num, spec_validate_lit_text, LiteralSchema};
pub use number_schema::{number, spec_validate_number, NumberSchema};
pub use pattern::{regex_match, regex_source, regex_valid};
pub use string_schema::{string, spec_validate_text, StringSchema};
pub use textops::usize_to_string;
pub use value::{SpecVal, Value};
