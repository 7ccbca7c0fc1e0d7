//! Laws of the validation engine, stated and proved over its
//! specification: validation never fails silently, union resolution is
//! first-match and its acceptance does not depend on variant order, the
//! optional wrapper is transparent, a mapping schema reports every missing
//! required field, and strictness only matters in the presence of
//! unconfigured keys.

use vstd::prelude::*;
use crate::error::{SpecError, SpecIssue};
use crate::schema::{field_names, spec_fields, spec_unconfigured, spec_union_variants,
    spec_validate, spec_validate_object, spec_validate_opt, ObjField, ObjectSchema,
    OptionalSchema, SchemaNode};
use crate::value::{spec_lookup, SpecVal};

verus! {

/// A failed validation always carries at least one issue: success is
/// exactly the empty result, and there is no failure state with an empty
/// issue list.
pub proof fn lemma_error_has_issues(n: SchemaNode, v: SpecVal)
    ensures
        spec_validate(n, v) matches Err(e) ==> e.len() > 0,
    decreases n,
{
    if let SchemaNode::Opt(b) = n {
        if !(v is Absence) {
            lemma_error_has_issues(b.inner, v);
        }
    }
}

/// First-match union resolution: when the variants before `i` all reject
/// the value and variant `i` accepts it, the union returns exactly variant
/// `i`'s result, whatever later variants would have said.
pub proof fn lemma_union_first_match(variants: Seq<SchemaNode>, v: SpecVal, i: int)
    requires
        0 <= i < variants.len(),
        forall|j: int| 0 <= j < i ==> spec_validate(variants[j], v) is Err,
        spec_validate(variants[i], v) is Ok,
    ensures
        spec_union_variants(variants, v) == spec_validate(variants[i], v),
    decreases i,
{
    assert(variants.first() == variants[0]);
    if i == 0 {
    } else {
        assert(spec_validate(variants[0], v) is Err);
        lemma_union_first_match(variants.drop_first(), v, i - 1);
        assert(variants.drop_first()[i - 1] == variants[i]);
    }
}

/// Union acceptance does not depend on variant order: the union accepts a
/// value exactly when some variant does. Reordering the variants can change
/// which variant's output is returned, never whether the value is
/// accepted.
pub proof fn lemma_union_accepts_iff(variants: Seq<SchemaNode>, v: SpecVal)
    ensures
        (spec_union_variants(variants, v) is Ok) == (exists|i: int|
            0 <= i < variants.len() && spec_validate(variants[i], v) is Ok),
    decreases variants.len(),
{
    if variants.len() > 0 {
        lemma_union_accepts_iff(variants.drop_first(), v);
        if spec_validate(variants.first(), v) is Ok {
            assert(spec_validate(variants[0], v) is Ok);
        } else {
            if exists|i: int|
                0 <= i < variants.drop_first().len() && spec_validate(
                    variants.drop_first()[i],
                    v,
                ) is Ok {
                let i = choose|i: int|
                    0 <= i < variants.drop_first().len() && spec_validate(
                        variants.drop_first()[i],
                        v,
                    ) is Ok;
                assert(variants[i + 1] == variants.drop_first()[i]);
            }
            if exists|i: int| 0 <= i < variants.len() && spec_validate(variants[i], v) is Ok {
                let i = choose|i: int|
                    0 <= i < variants.len() && spec_validate(variants[i], v) is Ok;
                assert(i != 0);
                assert(variants.drop_first()[i - 1] == variants[i]);
            }
        }
    }
}

/// The optional wrapper is transparent: absence is accepted without
/// consulting the inner schema, and any present value gets exactly the
/// inner schema's outcome, its issues unprefixed.
pub proof fn lemma_optional_transparency(o: OptionalSchema, v: SpecVal)
    ensures
        v is Absence ==> spec_validate_opt(o, v) == Ok::<Option<SpecVal>, Seq<SpecIssue>>(None),
        !(v is Absence) ==> (spec_validate(o.inner, v) matches Ok(x) ==> spec_validate_opt(o, v)
            == Ok::<Option<SpecVal>, Seq<SpecIssue>>(Some(x))),
        !(v is Absence) ==> (spec_validate(o.inner, v) matches Err(e) ==> spec_validate_opt(
            o,
            v,
        ) == Err::<Option<SpecVal>, Seq<SpecIssue>>(e)),
{
}

/// How many required fields have no entry in the mapping.
pub open spec fn count_missing_required(
    fields: Seq<ObjField>,
    entries: Seq<(Seq<char>, SpecVal)>,
) -> int
    decreases fields.len(),
{
    if fields.len() == 0 {
        0
    } else {
        count_missing_required(fields.drop_last(), entries) + (if fields.last().required
            && spec_lookup(entries, fields.last().name@) is None {
            1int
        } else {
            0int
        })
    }
}

/// No short-circuit across fields: every missing required field contributes
/// its own issue, so one pass reports at least as many issues as there are
/// missing required fields.
pub proof fn lemma_object_no_short_circuit(
    fields: Seq<ObjField>,
    entries: Seq<(Seq<char>, SpecVal)>,
)
    ensures
        spec_fields(fields, entries).1.len() >= count_missing_required(fields, entries),
    decreases fields.len(),
{
    if fields.len() > 0 {
        lemma_object_no_short_circuit(fields.drop_last(), entries);
    }
}

/// Strictness matters only in the presence of unconfigured keys: on a
/// mapping whose keys are all configured, a strict schema validates exactly
/// as the lenient schema with the same fields; on a mapping with
/// unconfigured keys, the strict schema fails.
pub proof fn lemma_strict_vs_lenient(lenient: ObjectSchema, strict: ObjectSchema, v: SpecVal)
    requires
        lenient.fields == strict.fields,
        !lenient.strict,
        strict.strict,
    ensures
        v matches SpecVal::Mapping(entries) && spec_unconfigured(
            entries,
            field_names(lenient.fields@),
        ).len() == 0 ==> spec_validate_object(strict, v) == spec_validate_object(lenient, v),
        v matches SpecVal::Mapping(entries) && spec_unconfigured(
            entries,
            field_names(lenient.fields@),
        ).len() > 0 ==> spec_validate_object(strict, v) is Err,
{
    if let SpecVal::Mapping(entries) = v {
        let extra = spec_unconfigured(entries, field_names(lenient.fields@));
        let pair = spec_fields(lenient.fields@, entries);
        if extra.len() == 0 {
            assert(pair.0 + extra =~= pair.0);
        } else {
            if pair.1.len() == 0 {
                assert(pair.1.push(
                    crate::result::root_issue(
                        SpecError::UnrecognizedKeys {
                            keys: extra.map_values(|e: (Seq<char>, SpecVal)| e.0),
                        },
                    ),
                ).len() == 1);
            }
        }
    }
}

} // verus!
