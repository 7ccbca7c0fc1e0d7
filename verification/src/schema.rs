//! The schema tree and the validation engine.
//!
//! Every schema converts into a `SchemaNode`; `spec_validate` is the
//! denotational meaning of a node — what validating any value against it
//! yields — and `validate_node` is the verified engine computing it. The
//! engine walks schema and value in lock-step, validates every constituent
//! independently (no short-circuit), prefixes each constituent's issues
//! with its path segment, and succeeds only when no issue was produced
//! anywhere in the subtree.

use vstd::prelude::*;
use crate::error::{spec_type_of, SpecError, SpecIssue, SpecType, ValidationError,
    ValidationType};
use crate::literal::{spec_validate_lit_num, spec_validate_lit_text, validate_lit_num,
    validate_lit_text, LiteralSchema};
use crate::num::Number;
use crate::number_schema::{spec_validate_number, validate_number, NumberSchema};
use crate::result::{prefix_issues, root_issue, ValidateResult, ValidationResult};
use crate::string_schema::{spec_validate_text, validate_text, StringSchema};
use crate::textops::{dec_of, usize_to_string};
use crate::value::{entries_view, lemma_entries_view, lemma_list_view, list_view, lookup,
    spec_lookup, SpecVal, Value};

verus! {

broadcast use vstd::std_specs::vec::group_vec_axioms;

/// The boolean schema: accepts exactly the boolean values.
#[derive(Debug, Clone)]
pub struct BooleanSchema;

/// The absence-only schema: accepts exactly the absent value.
#[derive(Debug, Clone)]
pub struct NullSchema;

/// A list schema: element schema and optional length bounds.
#[derive(Debug)]
pub struct ArraySchema {
    pub element: SchemaNode,
    pub min_length: Option<usize>,
    pub max_length: Option<usize>,
}

/// An optional wrapper: accepts absence, else delegates to the inner
/// schema.
#[derive(Debug)]
pub struct OptionalSchema {
    pub inner: SchemaNode,
}

/// A fixed-arity tuple schema: one schema per position.
#[derive(Debug)]
pub struct TupleSchema {
    pub elements: Vec<SchemaNode>,
}

/// One configured field of a mapping schema.
#[derive(Debug)]
pub struct ObjField {
    pub name: String,
    pub required: bool,
    pub schema: SchemaNode,
}

/// A keyed-mapping schema: configured fields, and a strictness mode for
/// unconfigured keys.
#[derive(Debug)]
pub struct ObjectSchema {
    pub fields: Vec<ObjField>,
    pub strict: bool,
}

/// A first-match union schema: variants tried in order.
#[derive(Debug)]
pub struct UnionSchema {
    pub variants: Vec<SchemaNode>,
}

/// One node of a schema tree.
#[derive(Debug)]
pub enum SchemaNode {
    Text(StringSchema),
    Num(NumberSchema),
    Bool(BooleanSchema),
    Null(NullSchema),
    LitText(String),
    LitNum(Number),
    List(Box<ArraySchema>),
    Opt(Box<OptionalSchema>),
    Tuple(TupleSchema),
    Obj(ObjectSchema),
    Union(UnionSchema),
}

/// A capability every schema type has: it stands for one engine node, and
/// any schema can be wrapped optional or turned into a list of itself.
pub trait Schema: Sized {
    /// Whether `n` is the engine node this schema stands for.
    spec fn matches_node(&self, n: SchemaNode) -> bool;

    /// This schema as an engine node.
    fn to_node(self) -> (n: SchemaNode)
        ensures
            self.matches_node(n),
    ;

    /// This schema wrapped so that absence is accepted as well.
    fn optional(self) -> (r: OptionalSchema)
        ensures
            self.matches_node(r.inner),
    {
        OptionalSchema { inner: self.to_node() }
    }

    /// A list schema whose elements this schema validates.
    fn array(self) -> (r: ArraySchema)
        ensures
            self.matches_node(r.element),
            r.min_length is None,
            r.max_length is None,
    {
        ArraySchema { element: self.to_node(), min_length: None, max_length: None }
    }
}

impl Schema for StringSchema {
    open spec fn matches_node(&self, n: SchemaNode) -> bool {
        n == SchemaNode::Text(*self)
    }

    fn to_node(self) -> (n: SchemaNode) {
        SchemaNode::Text(self)
    }
}

impl Schema for NumberSchema {
    open spec fn matches_node(&self, n: SchemaNode) -> bool {
        n == SchemaNode::Num(*self)
    }

    fn to_node(self) -> (n: SchemaNode) {
        SchemaNode::Num(self)
    }
}

impl Schema for BooleanSchema {
    open spec fn matches_node(&self, n: SchemaNode) -> bool {
        n is Bool
    }

    fn to_node(self) -> (n: SchemaNode) {
        SchemaNode::Bool(self)
    }
}

impl Schema for NullSchema {
    open spec fn matches_node(&self, n: SchemaNode) -> bool {
        n is Null
    }

    fn to_node(self) -> (n: SchemaNode) {
        SchemaNode::Null(self)
    }
}

impl Schema for LiteralSchema<String> {
    open spec fn matches_node(&self, n: SchemaNode) -> bool {
        n matches SchemaNode::LitText(t) && t@ == self.expected@
    }

    fn to_node(self) -> (n: SchemaNode) {
        SchemaNode::LitText(self.expected)
    }
}

impl Schema for LiteralSchema<&'static str> {
    open spec fn matches_node(&self, n: SchemaNode) -> bool {
        n matches SchemaNode::LitText(t) && t@ == self.expected@
    }

    fn to_node(self) -> (n: SchemaNode) {
        SchemaNode::LitText(self.expected.to_owned())
    }
}

impl Schema for LiteralSchema<Number> {
    open spec fn matches_node(&self, n: SchemaNode) -> bool {
        n matches SchemaNode::LitNum(m) && m@ == self.expected@
    }

    fn to_node(self) -> (n: SchemaNode) {
        SchemaNode::LitNum(self.expected)
    }
}

impl Schema for ArraySchema {
    open spec fn matches_node(&self, n: SchemaNode) -> bool {
        n matches SchemaNode::List(b) && *b == *self
    }

    fn to_node(self) -> (n: SchemaNode) {
        SchemaNode::List(Box::new(self))
    }
}

impl Schema for OptionalSchema {
    open spec fn matches_node(&self, n: SchemaNode) -> bool {
        n matches SchemaNode::Opt(b) && *b == *self
    }

    fn to_node(self) -> (n: SchemaNode) {
        SchemaNode::Opt(Box::new(self))
    }
}

impl Schema for TupleSchema {
    open spec fn matches_node(&self, n: SchemaNode) -> bool {
        n == SchemaNode::Tuple(*self)
    }

    fn to_node(self) -> (n: SchemaNode) {
        SchemaNode::Tuple(self)
    }
}

impl Schema for ObjectSchema {
    open spec fn matches_node(&self, n: SchemaNode) -> bool {
        n == SchemaNode::Obj(*self)
    }

    fn to_node(self) -> (n: SchemaNode) {
        SchemaNode::Obj(self)
    }
}

impl Schema for UnionSchema {
    open spec fn matches_node(&self, n: SchemaNode) -> bool {
        n == SchemaNode::Union(*self)
    }

    fn to_node(self) -> (n: SchemaNode) {
        SchemaNode::Union(self)
    }
}

/// What validating a value against the boolean schema yields.
pub open spec fn spec_validate_bool(v: SpecVal) -> Result<bool, Seq<SpecIssue>> {
    match v {
        SpecVal::Boolean(b) => Ok(b),
        _ => Err(
            seq![
                root_issue(
                    SpecError::InvalidType { expected: SpecType::Bool, input: spec_type_of(v) },
                ),
            ],
        ),
    }
}

/// What validating a value against the absence-only schema yields.
pub open spec fn spec_validate_null(v: SpecVal) -> Result<(), Seq<SpecIssue>> {
    match v {
        SpecVal::Absence => Ok(()),
        _ => Err(
            seq![
                root_issue(
                    SpecError::InvalidType { expected: SpecType::Null, input: spec_type_of(v) },
                ),
            ],
        ),
    }
}

/// The message of a tuple arity mismatch.
pub open spec fn tuple_len_message(expected: nat, got: nat) -> Seq<char> {
    "Expected tuple of "@ + dec_of(expected) + " elements, got "@ + dec_of(got)
}

/// The names of the configured fields, in configuration order.
pub open spec fn field_names(fields: Seq<ObjField>) -> Seq<Seq<char>> {
    Seq::new(fields.len(), |i: int| fields[i].name@)
}

/// The entries whose keys no configured field names, in input order.
pub open spec fn spec_unconfigured(
    entries: Seq<(Seq<char>, SpecVal)>,
    names: Seq<Seq<char>>,
) -> Seq<(Seq<char>, SpecVal)> {
    entries.filter(|e: (Seq<char>, SpecVal)| !names.contains(e.0))
}

/// What validating a value against a schema node yields: the validated
/// output value, or every issue found in the subtree, each with its path.
pub open spec fn spec_validate(n: SchemaNode, v: SpecVal) -> Result<SpecVal, Seq<SpecIssue>>
    decreases n, 0nat,
{
    match n {
        SchemaNode::Text(cfg) => match spec_validate_text(cfg, v) {
            Ok(t) => Ok(SpecVal::Text(t)),
            Err(e) => Err(e),
        },
        SchemaNode::Num(cfg) => match spec_validate_number(cfg, v) {
            Ok(x) => Ok(SpecVal::Num(x)),
            Err(e) => Err(e),
        },
        SchemaNode::Bool(_) => match spec_validate_bool(v) {
            Ok(b) => Ok(SpecVal::Boolean(b)),
            Err(e) => Err(e),
        },
        SchemaNode::Null(_) => match spec_validate_null(v) {
            Ok(_) => Ok(SpecVal::Absence),
            Err(e) => Err(e),
        },
        SchemaNode::LitText(t) => match spec_validate_lit_text(t@, v) {
            Ok(s) => Ok(SpecVal::Text(s)),
            Err(e) => Err(e),
        },
        SchemaNode::LitNum(m) => match spec_validate_lit_num(m@, v) {
            Ok(x) => Ok(SpecVal::Num(x)),
            Err(e) => Err(e),
        },
        SchemaNode::List(b) => match spec_validate_list(*b, v) {
            Ok(outs) => Ok(SpecVal::List(outs)),
            Err(e) => Err(e),
        },
        SchemaNode::Opt(b) => match spec_validate_opt(*b, v) {
            Ok(Some(o)) => Ok(o),
            Ok(None) => Ok(SpecVal::Absence),
            Err(e) => Err(e),
        },
        SchemaNode::Tuple(t) => match spec_validate_tuple(t, v) {
            Ok(outs) => Ok(SpecVal::List(outs)),
            Err(e) => Err(e),
        },
        SchemaNode::Obj(ob) => match spec_validate_object(ob, v) {
            Ok(outs) => Ok(SpecVal::Mapping(outs)),
            Err(e) => Err(e),
        },
        SchemaNode::Union(u) => match spec_validate_union(u, v) {
            Ok(o) => Ok(o),
            Err(e) => Err(e),
        },
    }
}

/// What validating a value against a list schema yields: the validated
/// elements, or the length-bound violation or the element issues.
pub open spec fn spec_validate_list(a: ArraySchema, v: SpecVal) -> Result<
    Seq<SpecVal>,
    Seq<SpecIssue>,
>
    decreases a, 1nat,
{
    match v {
        SpecVal::List(items) => {
            if a.min_length is Some && items.len() < a.min_length->0 {
                Err(
                    seq![
                        root_issue(
                            SpecError::TooSmall {
                                origin: crate::error::ValidationOrigin::Array,
                                minimum: dec_of(a.min_length->0 as nat),
                                inclusive: true,
                            },
                        ),
                    ],
                )
            } else if a.max_length is Some && items.len() > a.max_length->0 {
                Err(
                    seq![
                        root_issue(
                            SpecError::TooBig {
                                origin: crate::error::ValidationOrigin::Array,
                                maximum: dec_of(a.max_length->0 as nat),
                                inclusive: true,
                            },
                        ),
                    ],
                )
            } else {
                let pair = spec_elems(a.element, items);
                if pair.1.len() == 0 {
                    Ok(pair.0)
                } else {
                    Err(pair.1)
                }
            }
        },
        _ => Err(
            seq![
                root_issue(
                    SpecError::InvalidType { expected: SpecType::Array, input: spec_type_of(v) },
                ),
            ],
        ),
    }
}

/// What validating a value against an optional wrapper yields: no value on
/// absence, without consulting the inner schema; else exactly what the
/// inner schema yields.
pub open spec fn spec_validate_opt(o: OptionalSchema, v: SpecVal) -> Result<
    Option<SpecVal>,
    Seq<SpecIssue>,
>
    decreases o, 1nat,
{
    if v is Absence {
        Ok(None)
    } else {
        match spec_validate(o.inner, v) {
            Ok(x) => Ok(Some(x)),
            Err(e) => Err(e),
        }
    }
}

/// What validating a value against a tuple schema yields: the validated
/// positions, or the arity mismatch or the position issues.
pub open spec fn spec_validate_tuple(t: TupleSchema, v: SpecVal) -> Result<
    Seq<SpecVal>,
    Seq<SpecIssue>,
>
    decreases t, 1nat,
{
    match v {
        SpecVal::List(items) => {
            if items.len() != t.elements@.len() {
                Err(
                    seq![
                        root_issue(
                            SpecError::Custom {
                                message: tuple_len_message(
                                    t.elements@.len() as nat,
                                    items.len() as nat,
                                ),
                            },
                        ),
                    ],
                )
            } else {
                let pair = spec_tuple_elems(t.elements@, items);
                if pair.1.len() == 0 {
                    Ok(pair.0)
                } else {
                    Err(pair.1)
                }
            }
        },
        _ => Err(
            seq![
                root_issue(
                    SpecError::InvalidType { expected: SpecType::Array, input: spec_type_of(v) },
                ),
            ],
        ),
    }
}

/// What validating a value against a mapping schema yields: the validated
/// and passed-through entries, or the field issues, with one issue naming
/// the unconfigured keys in strict mode.
pub open spec fn spec_validate_object(ob: ObjectSchema, v: SpecVal) -> Result<
    Seq<(Seq<char>, SpecVal)>,
    Seq<SpecIssue>,
>
    decreases ob, 1nat,
{
    match v {
        SpecVal::Mapping(entries) => {
            let pair = spec_fields(ob.fields@, entries);
            let extra = spec_unconfigured(entries, field_names(ob.fields@));
            if ob.strict {
                let issues = if extra.len() > 0 {
                    pair.1.push(
                        root_issue(
                            SpecError::UnrecognizedKeys {
                                keys: extra.map_values(|e: (Seq<char>, SpecVal)| e.0),
                            },
                        ),
                    )
                } else {
                    pair.1
                };
                if issues.len() == 0 {
                    Ok(pair.0)
                } else {
                    Err(issues)
                }
            } else {
                if pair.1.len() == 0 {
                    Ok(pair.0 + extra)
                } else {
                    Err(pair.1)
                }
            }
        },
        _ => Err(
            seq![
                root_issue(
                    SpecError::InvalidType {
                        expected: SpecType::Object,
                        input: spec_type_of(v),
                    },
                ),
            ],
        ),
    }
}

/// What validating a value against a union schema yields: the first
/// variant's success, or one issue holding every variant's issues.
pub open spec fn spec_validate_union(u: UnionSchema, v: SpecVal) -> Result<
    SpecVal,
    Seq<SpecIssue>,
>
    decreases u, 1nat,
{
    match spec_union_variants(u.variants@, v) {
        Ok(o) => Ok(o),
        Err(all) => Err(seq![root_issue(SpecError::InvalidUnion { issues: all })]),
    }
}

/// Element-wise validation of a list: the outputs of the elements that
/// passed, and the issues of those that failed, each prefixed with its
/// index. Every element is validated; nothing short-circuits.
pub open spec fn spec_elems(elem: SchemaNode, items: Seq<SpecVal>) -> (Seq<SpecVal>, Seq<
    SpecIssue,
>)
    decreases elem, items.len() + 1,
{
    if items.len() == 0 {
        (Seq::empty(), Seq::empty())
    } else {
        let prev = spec_elems(elem, items.drop_last());
        match spec_validate(elem, items.last()) {
            Ok(o) => (prev.0.push(o), prev.1),
            Err(e) => (prev.0, prev.1 + prefix_issues(e, dec_of((items.len() - 1) as nat))),
        }
    }
}

/// Position-wise validation of a tuple: as `spec_elems`, but each position
/// against its own schema.
pub open spec fn spec_tuple_elems(elems: Seq<SchemaNode>, items: Seq<SpecVal>) -> (
    Seq<SpecVal>,
    Seq<SpecIssue>,
)
    decreases elems, 0nat,
{
    if elems.len() == 0 || items.len() == 0 {
        (Seq::empty(), Seq::empty())
    } else {
        let prev = spec_tuple_elems(elems.drop_last(), items.drop_last());
        match spec_validate(elems.last(), items.last()) {
            Ok(o) => (prev.0.push(o), prev.1),
            Err(e) => (prev.0, prev.1 + prefix_issues(e, dec_of((elems.len() - 1) as nat))),
        }
    }
}

/// Field-wise validation of a mapping: the validated entries of the fields
/// that passed, and the issues of those that failed, each prefixed with the
/// field name. A required field must be present; an optional field that is
/// absent, or present as the absent value, is omitted without validation.
/// Every field is validated; nothing short-circuits.
pub open spec fn spec_fields(fields: Seq<ObjField>, entries: Seq<(Seq<char>, SpecVal)>) -> (
    Seq<(Seq<char>, SpecVal)>,
    Seq<SpecIssue>,
)
    decreases fields, 0nat,
{
    if fields.len() == 0 {
        (Seq::empty(), Seq::empty())
    } else {
        let prev = spec_fields(fields.drop_last(), entries);
        let f = fields.last();
        match spec_lookup(entries, f.name@) {
            None => {
                if f.required {
                    (
                        prev.0,
                        prev.1.push(SpecIssue { path: seq![f.name@], error: SpecError::Required }),
                    )
                } else {
                    prev
                }
            },
            Some(x) => {
                if !f.required && x is Absence {
                    prev
                } else {
                    match spec_validate(f.schema, x) {
                        Ok(o) => (prev.0.push((f.name@, o)), prev.1),
                        Err(e) => (prev.0, prev.1 + prefix_issues(e, f.name@)),
                    }
                }
            },
        }
    }
}

/// First-match union resolution: the first variant that accepts the value
/// wins; when every variant fails, all their issues are concatenated in
/// variant order.
pub open spec fn spec_union_variants(variants: Seq<SchemaNode>, v: SpecVal) -> Result<
    SpecVal,
    Seq<SpecIssue>,
>
    decreases variants, 0nat,
{
    if variants.len() == 0 {
        Err(Seq::empty())
    } else {
        match spec_validate(variants.first(), v) {
            Ok(o) => Ok(o),
            Err(e) => match spec_union_variants(variants.drop_first(), v) {
                Ok(o) => Ok(o),
                Err(rest) => Err(e + rest),
            },
        }
    }
}


/// Whether some configured field has the given name.
#[verifier::loop_isolation(false)]
fn has_field(fields: &Vec<ObjField>, key: &String) -> (r: bool)
    ensures
        r == field_names(fields@).contains(key@),
{
    let mut i: usize = 0;
    while i < fields.len()
        invariant
            i <= fields.len(),
            forall|j: int| 0 <= j < i ==> fields@[j].name@ != key@,
        decreases fields.len() - i,
    {
        if fields[i].name == *key {
            proof {
                assert(field_names(fields@)[i as int] == key@);
            }
            return true;
        }
        i = i + 1;
    }
    proof {
        assert forall|k: int| 0 <= k < field_names(fields@).len() implies field_names(fields@)[k]
            != key@ by {
            assert(fields@[k].name@ != key@);
        }
    }
    false
}

/// Validates each element of a list against the element schema, collecting
/// outputs and index-prefixed issues; every element is validated.
#[verifier::loop_isolation(false)]
fn validate_list_elems(elem: &SchemaNode, items: &Vec<Value>) -> (r: (
    Vec<Value>,
    ValidationResult,
))
    ensures
        (list_view(r.0@), r.1@) == spec_elems(*elem, list_view(items@)),
    decreases *elem, 1nat,
{
    broadcast use lemma_list_view;

    let ghost full = list_view(items@);
    let mut outs: Vec<Value> = Vec::new();
    let mut res = ValidationResult::new();
    let mut i: usize = 0;
    proof {
        assert(full.take(0) =~= Seq::<SpecVal>::empty());
    }
    while i < items.len()
        invariant
            i <= items.len(),
            (list_view(outs@), res@) == spec_elems(*elem, full.take(i as int)),
        decreases items.len() - i,
    {
        let ghost prev_outs = list_view(outs@);
        let ghost prev_res = res@;
        match validate_node(elem, &items[i]) {
            Ok(o) => {
                let ghost ov = o@;
                outs.push(o);
                proof {
                    assert(list_view(outs@) =~= prev_outs.push(ov));
                }
            },
            Err(mut e) => {
                e.prefix_path(usize_to_string(i));
                res.merge(e);
            },
        }
        i = i + 1;
        proof {
            assert(full.take(i as int).drop_last() =~= full.take(i - 1));
            assert(full.take(i as int).last() == items@[i - 1]@);
        }
    }
    proof {
        assert(full.take(items@.len() as int) =~= full);
    }
    (outs, res)
}

/// Validates each position of a tuple against its own schema, collecting
/// outputs and index-prefixed issues; every position is validated.
#[verifier::loop_isolation(false)]
fn validate_tuple_elems(elems: &Vec<SchemaNode>, items: &Vec<Value>) -> (r: (
    Vec<Value>,
    ValidationResult,
))
    requires
        elems@.len() == items@.len(),
    ensures
        (list_view(r.0@), r.1@) == spec_tuple_elems(elems@, list_view(items@)),
    decreases elems@, 0nat,
{
    broadcast use lemma_list_view;

    let ghost full = list_view(items@);
    let mut outs: Vec<Value> = Vec::new();
    let mut res = ValidationResult::new();
    let mut i: usize = 0;
    proof {
        assert(elems@.take(0) =~= Seq::<SchemaNode>::empty());
    }
    while i < items.len()
        invariant
            i <= items.len(),
            elems@.len() == items@.len(),
            (list_view(outs@), res@) == spec_tuple_elems(
                elems@.take(i as int),
                full.take(i as int),
            ),
        decreases items.len() - i,
    {
        let ghost prev_outs = list_view(outs@);
        let ghost prev_res = res@;
        match validate_node(&elems[i], &items[i]) {
            Ok(o) => {
                let ghost ov = o@;
                outs.push(o);
                proof {
                    assert(list_view(outs@) =~= prev_outs.push(ov));
                }
            },
            Err(mut e) => {
                e.prefix_path(usize_to_string(i));
                res.merge(e);
            },
        }
        i = i + 1;
        proof {
            assert(elems@.take(i as int).drop_last() =~= elems@.take(i - 1));
            assert(full.take(i as int).drop_last() =~= full.take(i - 1));
            assert(elems@.take(i as int).last() == elems@[i - 1]);
            assert(full.take(i as int).last() == items@[i - 1]@);
        }
    }
    proof {
        assert(elems@.take(elems@.len() as int) =~= elems@);
        assert(full.take(items@.len() as int) =~= full);
    }
    (outs, res)
}

/// Validates each configured field of a mapping, collecting validated
/// entries and name-prefixed issues; every field is validated.
#[verifier::loop_isolation(false)]
fn validate_fields(fields: &Vec<ObjField>, entries: &Vec<(String, Value)>) -> (r: (
    Vec<(String, Value)>,
    ValidationResult,
))
    ensures
        (entries_view(r.0@), r.1@) == spec_fields(fields@, entries_view(entries@)),
    decreases fields@, 1nat,
{
    broadcast use lemma_entries_view;

    let ghost ev = entries_view(entries@);
    let mut outs: Vec<(String, Value)> = Vec::new();
    let mut res = ValidationResult::new();
    let mut i: usize = 0;
    proof {
        assert(fields@.take(0) =~= Seq::<ObjField>::empty());
    }
    while i < fields.len()
        invariant
            i <= fields.len(),
            (entries_view(outs@), res@) == spec_fields(fields@.take(i as int), ev),
        decreases fields.len() - i,
    {
        let ghost prev_outs = entries_view(outs@);
        let ghost prev_res = res@;
        let f = &fields[i];
        match lookup(entries, &f.name) {
            None => {
                if f.required {
                    let mut path: Vec<String> = Vec::new();
                    path.push(f.name.clone());
                    let ghost pv = crate::error::texts_view(path@);
                    res.add_error_at_path(path, ValidationError::required());
                    proof {
                        assert(pv =~= seq![f.name@]);
                    }
                }
            },
            Some(x) => {
                let skip_field: bool = if f.required {
                    false
                } else {
                    match x {
                        Value::Absence => true,
                        _ => false,
                    }
                };
                if !skip_field {
                    match validate_node(&f.schema, x) {
                        Ok(o) => {
                            let ghost ov = o@;
                            outs.push((f.name.clone(), o));
                            proof {
                                assert(entries_view(outs@) =~= prev_outs.push((f.name@, ov)));
                            }
                        },
                        Err(mut e) => {
                            e.prefix_path(f.name.clone());
                            res.merge(e);
                        },
                    }
                }
            },
        }
        i = i + 1;
        proof {
            assert(fields@.take(i as int).drop_last() =~= fields@.take(i - 1));
            assert(fields@.take(i as int).last() == fields@[i - 1]);
        }
    }
    proof {
        assert(fields@.take(fields@.len() as int) =~= fields@);
    }
    (outs, res)
}

/// Tries the variants from `idx` on, in order; the first success wins, and
/// when all fail their issues are concatenated in variant order.
fn validate_union_from(variants: &Vec<SchemaNode>, idx: usize, value: &Value) -> (r: Result<
    Value,
    ValidationResult,
>)
    requires
        idx <= variants@.len(),
    ensures
        match r {
            Ok(o) => spec_union_variants(variants@.skip(idx as int), value@) == Ok::<
                SpecVal,
                Seq<SpecIssue>,
            >(o@),
            Err(e) => spec_union_variants(variants@.skip(idx as int), value@) == Err::<
                SpecVal,
                Seq<SpecIssue>,
            >(e@),
        },
    decreases variants@, variants@.len() - idx,
{
    if idx == variants.len() {
        proof {
            assert(variants@.skip(idx as int).len() == 0);
        }
        Err(ValidationResult::new())
    } else {
        proof {
            assert(variants@.skip(idx as int).first() == variants@[idx as int]);
            assert(variants@.skip(idx as int).drop_first() =~= variants@.skip(idx as int + 1));
        }
        match validate_node(&variants[idx], value) {
            Ok(o) => Ok(o),
            Err(e) => match validate_union_from(variants, idx + 1, value) {
                Ok(o) => Ok(o),
                Err(rest) => {
                    let mut all = e;
                    all.merge(rest);
                    Err(all)
                },
            },
        }
    }
}

/// Validates a value against a list schema, yielding the validated
/// elements.
#[verifier::loop_isolation(false)]
pub(crate) fn validate_list(a: &ArraySchema, value: &Value) -> (r: ValidateResult<Vec<Value>>)
    ensures
        match r {
            Ok(outs) => spec_validate_list(*a, value@) == Ok::<Seq<SpecVal>, Seq<SpecIssue>>(
                list_view(outs@),
            ),
            Err(e) => spec_validate_list(*a, value@) == Err::<Seq<SpecVal>, Seq<SpecIssue>>(e@),
        },
    decreases *a, 2nat,
{
    broadcast use lemma_list_view;

    match value {
        Value::List(items) => {
            proof {
                assert(value@ == SpecVal::List(list_view(items@)));
                assert(list_view(items@).len() == items@.len());
            }
            if let Some(mn) = &a.min_length {
                if items.len() < *mn {
                    return Err(
                        ValidationResult::with_error(
                            ValidationError::too_small(
                                crate::error::ValidationOrigin::Array,
                                usize_to_string(*mn).as_str(),
                                true,
                            ),
                        ),
                    );
                }
            }
            if let Some(mx) = &a.max_length {
                if items.len() > *mx {
                    return Err(
                        ValidationResult::with_error(
                            ValidationError::too_big(
                                crate::error::ValidationOrigin::Array,
                                usize_to_string(*mx).as_str(),
                                true,
                            ),
                        ),
                    );
                }
            }
            let pair = validate_list_elems(&a.element, items);
            let res = pair.1;
            if res.is_empty() {
                Ok(pair.0)
            } else {
                Err(res)
            }
        },
        _ => Err(
            ValidationResult::with_error(
                ValidationError::invalid_type(ValidationType::Array, ValidationType::of_value(
                    value,
                )),
            ),
        ),
    }
}

/// Validates a value against a tuple schema, yielding the validated
/// positions.
pub(crate) fn validate_tuple(t: &TupleSchema, value: &Value) -> (r: ValidateResult<Vec<Value>>)
    ensures
        match r {
            Ok(outs) => spec_validate_tuple(*t, value@) == Ok::<Seq<SpecVal>, Seq<SpecIssue>>(
                list_view(outs@),
            ),
            Err(e) => spec_validate_tuple(*t, value@) == Err::<Seq<SpecVal>, Seq<SpecIssue>>(e@),
        },
    decreases *t, 2nat,
{
    broadcast use lemma_list_view;

    match value {
        Value::List(items) => {
            proof {
                assert(value@ == SpecVal::List(list_view(items@)));
                assert(list_view(items@).len() == items@.len());
            }
            if items.len() != t.elements.len() {
                let mut msg = String::new();
                msg.append("Expected tuple of ");
                msg.append(usize_to_string(t.elements.len()).as_str());
                msg.append(" elements, got ");
                msg.append(usize_to_string(items.len()).as_str());
                proof {
                    assert(msg@ =~= tuple_len_message(
                        t.elements@.len() as nat,
                        items@.len() as nat,
                    ));
                }
                return Err(
                    ValidationResult::with_error(ValidationError::custom(msg.as_str())),
                );
            }
            let pair = validate_tuple_elems(&t.elements, items);
            let res = pair.1;
            if res.is_empty() {
                Ok(pair.0)
            } else {
                Err(res)
            }
        },
        _ => Err(
            ValidationResult::with_error(
                ValidationError::invalid_type(ValidationType::Array, ValidationType::of_value(
                    value,
                )),
            ),
        ),
    }
}

/// Validates a value against a mapping schema, yielding the validated and
/// passed-through entries.
#[verifier::loop_isolation(false)]
pub(crate) fn validate_object(ob: &ObjectSchema, value: &Value) -> (r: ValidateResult<
    Vec<(String, Value)>,
>)
    ensures
        match r {
            Ok(outs) => spec_validate_object(*ob, value@) == Ok::<
                Seq<(Seq<char>, SpecVal)>,
                Seq<SpecIssue>,
            >(entries_view(outs@)),
            Err(e) => spec_validate_object(*ob, value@) == Err::<
                Seq<(Seq<char>, SpecVal)>,
                Seq<SpecIssue>,
            >(e@),
        },
    decreases *ob, 2nat,
{
    broadcast use lemma_entries_view;

    match value {
        Value::Mapping(entries) => {
            proof {
                assert(value@ == SpecVal::Mapping(entries_view(entries@)));
            }
            let ghost ev = entries_view(entries@);
            let ghost names = field_names(ob.fields@);
            let ghost pred = |e: (Seq<char>, SpecVal)| !names.contains(e.0);
            let pair = validate_fields(&ob.fields, entries);
            let mut outs = pair.0;
            let mut res = pair.1;
            if ob.strict {
                let mut extra: Vec<String> = Vec::new();
                let mut i: usize = 0;
                proof {
                    assert(ev.take(0) =~= Seq::<(Seq<char>, SpecVal)>::empty());
                    assert(crate::error::texts_view(extra@) =~= ev.take(0).filter(
                        pred,
                    ).map_values(|e: (Seq<char>, SpecVal)| e.0));
                }
                while i < entries.len()
                    invariant
                        i <= entries.len(),
                        crate::error::texts_view(extra@) == ev.take(i as int).filter(
                            pred,
                        ).map_values(|e: (Seq<char>, SpecVal)| e.0),
                        pred == (|e: (Seq<char>, SpecVal)| !names.contains(e.0)),
                        names == field_names(ob.fields@),
                        ev == entries_view(entries@),
                    decreases entries.len() - i,
                {
                    let ghost prev = crate::error::texts_view(extra@);
                    let kv = &entries[i];
                    if !has_field(&ob.fields, &kv.0) {
                        extra.push(kv.0.clone());
                        proof {
                            assert(crate::error::texts_view(extra@) =~= prev.push(kv.0@));
                        }
                    }
                    i = i + 1;
                    proof {
                        reveal_with_fuel(Seq::filter, 2);
                        assert(ev.take(i as int).drop_last() =~= ev.take(i - 1));
                        assert(ev.take(i as int).last() == (entries@[i - 1].0@, entries@[i
                            - 1].1@));
                        assert(ev.take(i as int).filter(pred).map_values(
                            |e: (Seq<char>, SpecVal)| e.0,
                        ) =~= (if pred(ev.take(i as int).last()) {
                            ev.take(i - 1).filter(pred).map_values(
                                |e: (Seq<char>, SpecVal)| e.0,
                            ).push(ev.take(i as int).last().0)
                        } else {
                            ev.take(i - 1).filter(pred).map_values(
                                |e: (Seq<char>, SpecVal)| e.0,
                            )
                        }));
                    }
                }
                proof {
                    assert(ev.take(entries@.len() as int) =~= ev);
                }
                if extra.len() > 0 {
                    proof {
                        assert(crate::error::texts_view(extra@).len() == extra@.len());
                        assert(spec_unconfigured(ev, names).len() > 0);
                    }
                    res.add_error(ValidationError::unrecognized_keys(extra));
                } else {
                    proof {
                        assert(spec_unconfigured(ev, names).map_values(
                            |e: (Seq<char>, SpecVal)| e.0,
                        ).len() == 0);
                    }
                }
                if res.is_empty() {
                    Ok(outs)
                } else {
                    Err(res)
                }
            } else {
                let ghost validated = entries_view(outs@);
                let mut i: usize = 0;
                proof {
                    assert(ev.take(0) =~= Seq::<(Seq<char>, SpecVal)>::empty());
                    assert(entries_view(outs@) =~= validated + ev.take(0).filter(pred));
                }
                while i < entries.len()
                    invariant
                        i <= entries.len(),
                        entries_view(outs@) == validated + ev.take(i as int).filter(pred),
                        pred == (|e: (Seq<char>, SpecVal)| !names.contains(e.0)),
                        names == field_names(ob.fields@),
                        ev == entries_view(entries@),
                    decreases entries.len() - i,
                {
                    let ghost prev = entries_view(outs@);
                    let kv = &entries[i];
                    if !has_field(&ob.fields, &kv.0) {
                        let dup = kv.1.clone();
                        let ghost dv = dup@;
                        outs.push((kv.0.clone(), dup));
                        proof {
                            assert(entries_view(outs@) =~= prev.push((kv.0@, dv)));
                        }
                    }
                    i = i + 1;
                    proof {
                        reveal_with_fuel(Seq::filter, 2);
                        assert(ev.take(i as int).drop_last() =~= ev.take(i - 1));
                        assert(ev.take(i as int).last() == (entries@[i - 1].0@, entries@[i
                            - 1].1@));
                        assert(ev.take(i as int).filter(pred) =~= (if pred(
                            ev.take(i as int).last(),
                        ) {
                            ev.take(i - 1).filter(pred).push(ev.take(i as int).last())
                        } else {
                            ev.take(i - 1).filter(pred)
                        }));
                        assert(validated + ev.take(i as int).filter(pred) =~= (if pred(
                            ev.take(i as int).last(),
                        ) {
                            (validated + ev.take(i - 1).filter(pred)).push(
                                ev.take(i as int).last(),
                            )
                        } else {
                            validated + ev.take(i - 1).filter(pred)
                        }));
                    }
                }
                proof {
                    assert(ev.take(entries@.len() as int) =~= ev);
                }
                if res.is_empty() {
                    Ok(outs)
                } else {
                    Err(res)
                }
            }
        },
        _ => Err(
            ValidationResult::with_error(
                ValidationError::invalid_type(ValidationType::Object, ValidationType::of_value(
                    value,
                )),
            ),
        ),
    }
}

/// Validates a value against a union schema: the first variant that
/// accepts it wins.
pub(crate) fn validate_union(u: &UnionSchema, value: &Value) -> (r: ValidateResult<Value>)
    ensures
        match r {
            Ok(o) => spec_validate_union(*u, value@) == Ok::<SpecVal, Seq<SpecIssue>>(o@),
            Err(e) => spec_validate_union(*u, value@) == Err::<SpecVal, Seq<SpecIssue>>(e@),
        },
    decreases *u, 2nat,
{
    proof {
        assert(u.variants@.skip(0) =~= u.variants@);
    }
    match validate_union_from(&u.variants, 0, value) {
        Ok(o) => Ok(o),
        Err(e) => Err(
            ValidationResult::with_error(ValidationError::invalid_union(e.issues)),
        ),
    }
}

/// The verified engine: validates a value against a schema node, returning
/// the validated output value, or every issue found in the subtree.
pub fn validate_node(n: &SchemaNode, value: &Value) -> (r: ValidateResult<Value>)
    ensures
        match r {
            Ok(o) => spec_validate(*n, value@) == Ok::<SpecVal, Seq<SpecIssue>>(o@),
            Err(e) => spec_validate(*n, value@) == Err::<SpecVal, Seq<SpecIssue>>(e@),
        },
    decreases *n, 0nat,
{
    broadcast use lemma_list_view, lemma_entries_view;

    match n {
        SchemaNode::Text(cfg) => match validate_text(cfg, value) {
            Ok(t) => Ok(Value::Text(t)),
            Err(e) => Err(e),
        },
        SchemaNode::Num(cfg) => match validate_number(cfg, value) {
            Ok(x) => Ok(Value::Num(x)),
            Err(e) => Err(e),
        },
        SchemaNode::Bool(_) => match value {
            Value::Boolean(b) => Ok(Value::Boolean(*b)),
            _ => Err(
                ValidationResult::with_error(
                    ValidationError::invalid_type(ValidationType::Bool, ValidationType::of_value(
                        value,
                    )),
                ),
            ),
        },
        SchemaNode::Null(_) => match value {
            Value::Absence => Ok(Value::Absence),
            _ => Err(
                ValidationResult::with_error(
                    ValidationError::invalid_type(ValidationType::Null, ValidationType::of_value(
                        value,
                    )),
                ),
            ),
        },
        SchemaNode::LitText(t) => match validate_lit_text(t.as_str(), value) {
            Ok(s) => Ok(Value::Text(s)),
            Err(e) => Err(e),
        },
        SchemaNode::LitNum(m) => match validate_lit_num(m, value) {
            Ok(x) => Ok(Value::Num(x)),
            Err(e) => Err(e),
        },
        SchemaNode::List(b) => match validate_list(b, value) {
            Ok(outs) => Ok(Value::List(outs)),
            Err(e) => Err(e),
        },
        SchemaNode::Opt(b) => match value {
            Value::Absence => Ok(Value::Absence),
            _ => validate_node(&b.inner, value),
        },
        SchemaNode::Tuple(t) => match validate_tuple(t, value) {
            Ok(outs) => Ok(Value::List(outs)),
            Err(e) => Err(e),
        },
        SchemaNode::Obj(ob) => match validate_object(ob, value) {
            Ok(outs) => Ok(Value::Mapping(outs)),
            Err(e) => Err(e),
        },
        SchemaNode::Union(u) => match validate_union(u, value) {
            Ok(o) => Ok(o),
            Err(e) => Err(e),
        },
    }
}

/// Whether `new_fields` is `old_fields` with the field `name` set to a
/// field with the given requiredness and schema: replaced in place when a
/// field of that name existed, appended otherwise.
pub open spec fn spec_field_upsert(
    old_fields: Seq<ObjField>,
    new_fields: Seq<ObjField>,
    name: Seq<char>,
    required: bool,
    nd: SchemaNode,
) -> bool {
    if field_names(old_fields).contains(name) {
        exists|i: int|
            {
                &&& 0 <= i < old_fields.len()
                &&& old_fields[i].name@ == name
                &&& (forall|j: int| 0 <= j < i ==> old_fields[j].name@ != name)
                &&& new_fields == old_fields.update(i, new_fields[i])
                &&& new_fields[i].name@ == name
                &&& new_fields[i].required == required
                &&& new_fields[i].schema == nd
            }
    } else {
        &&& new_fields.len() == old_fields.len() + 1
        &&& new_fields == old_fields.push(new_fields.last())
        &&& new_fields.last().name@ == name
        &&& new_fields.last().required == required
        &&& new_fields.last().schema == nd
    }
}

impl ArraySchema {
    /// A list schema over the given element schema, without length bounds.
    pub fn new<S: Schema>(element_schema: S) -> (r: ArraySchema)
        ensures
            element_schema.matches_node(r.element),
            r.min_length is None,
            r.max_length is None,
    {
        ArraySchema { element: element_schema.to_node(), min_length: None, max_length: None }
    }

    /// Requires at least `min` elements.
    pub fn min(self, min: usize) -> (r: ArraySchema)
        ensures
            r == (ArraySchema { min_length: Some(min), ..self }),
    {
        ArraySchema { min_length: Some(min), ..self }
    }

    /// Allows at most `max` elements.
    pub fn max(self, max: usize) -> (r: ArraySchema)
        ensures
            r == (ArraySchema { max_length: Some(max), ..self }),
    {
        ArraySchema { max_length: Some(max), ..self }
    }

    /// Requires exactly `len` elements.
    pub fn length(self, len: usize) -> (r: ArraySchema)
        ensures
            r == (ArraySchema { min_length: Some(len), max_length: Some(len), ..self }),
    {
        self.min(len).max(len)
    }

    /// Validates a value, yielding the validated elements or every issue
    /// found.
    pub fn validate(&self, value: &Value) -> (r: ValidateResult<Vec<Value>>)
        ensures
            match r {
                Ok(outs) => spec_validate_list(*self, value@) == Ok::<
                    Seq<SpecVal>,
                    Seq<SpecIssue>,
                >(list_view(outs@)),
                Err(e) => spec_validate_list(*self, value@) == Err::<
                    Seq<SpecVal>,
                    Seq<SpecIssue>,
                >(e@),
            },
    {
        validate_list(self, value)
    }

    /// `validate`, under the name call sites that never expect failure use.
    pub fn safe_parse(&self, value: &Value) -> (r: ValidateResult<Vec<Value>>)
        ensures
            match r {
                Ok(outs) => spec_validate_list(*self, value@) == Ok::<
                    Seq<SpecVal>,
                    Seq<SpecIssue>,
                >(list_view(outs@)),
                Err(e) => spec_validate_list(*self, value@) == Err::<
                    Seq<SpecVal>,
                    Seq<SpecIssue>,
                >(e@),
            },
    {
        self.validate(value)
    }

    /// Validates a value that is known to satisfy this schema.
    pub fn parse(&self, value: &Value) -> (outs: Vec<Value>)
        requires
            spec_validate_list(*self, value@) is Ok,
        ensures
            spec_validate_list(*self, value@) == Ok::<Seq<SpecVal>, Seq<SpecIssue>>(
                list_view(outs@),
            ),
    {
        match self.validate(value) {
            Ok(outs) => outs,
            Err(_) => {
                proof {
                    assert(false);
                }
                vstd::pervasive::unreached()
            },
        }
    }
}

/// A list schema over the given element schema, without length bounds.
pub fn array<S: Schema>(element_schema: S) -> (r: ArraySchema)
    ensures
        element_schema.matches_node(r.element),
        r.min_length is None,
        r.max_length is None,
{
    ArraySchema::new(element_schema)
}

impl OptionalSchema {
    /// An optional wrapper around the given schema.
    pub fn new<S: Schema>(inner: S) -> (r: OptionalSchema)
        ensures
            inner.matches_node(r.inner),
    {
        OptionalSchema { inner: inner.to_node() }
    }

    /// Validates a value: absence yields no value without consulting the
    /// inner schema; anything else is the inner schema's outcome.
    pub fn validate(&self, value: &Value) -> (r: ValidateResult<Option<Value>>)
        ensures
            match r {
                Ok(Some(o)) => spec_validate_opt(*self, value@) == Ok::<
                    Option<SpecVal>,
                    Seq<SpecIssue>,
                >(Some(o@)),
                Ok(None) => spec_validate_opt(*self, value@) == Ok::<
                    Option<SpecVal>,
                    Seq<SpecIssue>,
                >(None),
                Err(e) => spec_validate_opt(*self, value@) == Err::<
                    Option<SpecVal>,
                    Seq<SpecIssue>,
                >(e@),
            },
    {
        match value {
            Value::Absence => Ok(None),
            _ => match validate_node(&self.inner, value) {
                Ok(o) => Ok(Some(o)),
                Err(e) => Err(e),
            },
        }
    }

    /// `validate`, under the name call sites that never expect failure use.
    pub fn safe_parse(&self, value: &Value) -> (r: ValidateResult<Option<Value>>)
        ensures
            match r {
                Ok(Some(o)) => spec_validate_opt(*self, value@) == Ok::<
                    Option<SpecVal>,
                    Seq<SpecIssue>,
                >(Some(o@)),
                Ok(None) => spec_validate_opt(*self, value@) == Ok::<
                    Option<SpecVal>,
                    Seq<SpecIssue>,
                >(None),
                Err(e) => spec_validate_opt(*self, value@) == Err::<
                    Option<SpecVal>,
                    Seq<SpecIssue>,
                >(e@),
            },
    {
        self.validate(value)
    }
}

impl OptionalSchema {
    /// Validates a value that is known to satisfy this schema.
    pub fn parse(&self, value: &Value) -> (o: Option<Value>)
        requires
            spec_validate_opt(*self, value@) is Ok,
        ensures
            match o {
                Some(x) => spec_validate_opt(*self, value@) == Ok::<
                    Option<SpecVal>,
                    Seq<SpecIssue>,
                >(Some(x@)),
                None => spec_validate_opt(*self, value@) == Ok::<
                    Option<SpecVal>,
                    Seq<SpecIssue>,
                >(None),
            },
    {
        match self.validate(value) {
            Ok(o) => o,
            Err(_) => {
                proof {
                    assert(false);
                }
                vstd::pervasive::unreached()
            },
        }
    }
}

/// An optional wrapper around the given schema.
pub fn optional<S: Schema>(schema: S) -> (r: OptionalSchema)
    ensures
        schema.matches_node(r.inner),
{
    OptionalSchema::new(schema)
}

impl TupleSchema {
    /// A tuple schema with no positions yet.
    pub fn new() -> (r: TupleSchema)
        ensures
            r.elements@.len() == 0,
    {
        TupleSchema { elements: Vec::new() }
    }

    /// Appends one position's schema.
    pub fn element<S: Schema>(self, schema: S) -> (r: TupleSchema)
        ensures
            r.elements@.len() == self.elements@.len() + 1,
            r.elements@ == self.elements@.push(r.elements@.last()),
            schema.matches_node(r.elements@.last()),
    {
        let mut elements = self.elements;
        elements.push(schema.to_node());
        TupleSchema { elements }
    }

    /// Validates a value, yielding the validated positions or every issue
    /// found.
    pub fn validate(&self, value: &Value) -> (r: ValidateResult<Value>)
        ensures
            match r {
                Ok(o) => o@ matches SpecVal::List(outs) && spec_validate_tuple(*self, value@)
                    == Ok::<Seq<SpecVal>, Seq<SpecIssue>>(outs),
                Err(e) => spec_validate_tuple(*self, value@) == Err::<
                    Seq<SpecVal>,
                    Seq<SpecIssue>,
                >(e@),
            },
    {
        match validate_tuple(self, value) {
            Ok(outs) => Ok(Value::List(outs)),
            Err(e) => Err(e),
        }
    }

    /// `validate`, under the name call sites that never expect failure use.
    pub fn safe_parse(&self, value: &Value) -> (r: ValidateResult<Value>)
        ensures
            match r {
                Ok(o) => o@ matches SpecVal::List(outs) && spec_validate_tuple(*self, value@)
                    == Ok::<Seq<SpecVal>, Seq<SpecIssue>>(outs),
                Err(e) => spec_validate_tuple(*self, value@) == Err::<
                    Seq<SpecVal>,
                    Seq<SpecIssue>,
                >(e@),
            },
    {
        self.validate(value)
    }

    /// Validates a value that is known to satisfy this schema.
    pub fn parse(&self, value: &Value) -> (o: Value)
        requires
            spec_validate_tuple(*self, value@) is Ok,
        ensures
            o@ matches SpecVal::List(outs) && spec_validate_tuple(*self, value@) == Ok::<
                Seq<SpecVal>,
                Seq<SpecIssue>,
            >(outs),
    {
        match self.validate(value) {
            Ok(o) => o,
            Err(_) => {
                proof {
                    assert(false);
                }
                vstd::pervasive::unreached()
            },
        }
    }
}

impl Default for TupleSchema {
    /// A tuple schema with no positions.
    fn default() -> (r: TupleSchema)
        ensures
            r.elements@.len() == 0,
    {
        TupleSchema::new()
    }
}

/// A tuple schema with no positions yet.
pub fn tuple() -> (r: TupleSchema)
    ensures
        r.elements@.len() == 0,
{
    TupleSchema::new()
}

impl ObjectSchema {
    /// A lenient mapping schema with no configured fields.
    pub fn new() -> (r: ObjectSchema)
        ensures
            r.fields@.len() == 0,
            !r.strict,
    {
        ObjectSchema { fields: Vec::new(), strict: false }
    }

    /// Configures a required field, replacing a previously configured field
    /// of the same name.
    #[verifier::loop_isolation(false)]
    pub fn field<S: Schema>(self, name: &str, schema: S) -> (r: ObjectSchema)
        ensures
            r.strict == self.strict,
            exists|nd: SchemaNode|
                #[trigger] schema.matches_node(nd) && spec_field_upsert(
                    self.fields@,
                    r.fields@,
                    name@,
                    true,
                    nd,
                ),
    {
        self.set_field(name, schema.to_node(), true)
    }

    /// Configures an optional field, replacing a previously configured
    /// field of the same name.
    #[verifier::loop_isolation(false)]
    pub fn optional_field<S: Schema>(self, name: &str, schema: S) -> (r: ObjectSchema)
        ensures
            r.strict == self.strict,
            exists|nd: SchemaNode|
                #[trigger] schema.matches_node(nd) && spec_field_upsert(
                    self.fields@,
                    r.fields@,
                    name@,
                    false,
                    nd,
                ),
    {
        self.set_field(name, schema.to_node(), false)
    }

    /// Sets the field `name` to the given node, replacing in place or
    /// appending.
    #[verifier::loop_isolation(false)]
    fn set_field(self, name: &str, nd: SchemaNode, required: bool) -> (r: ObjectSchema)
        ensures
            r.strict == self.strict,
            spec_field_upsert(self.fields@, r.fields@, name@, required, nd),
    {
        let ghost old_fields = self.fields@;
        let ghost ndg = nd;
        let newf = ObjField { name: name.to_owned(), required, schema: nd };
        let mut fields = self.fields;
        let mut i: usize = 0;
        while i < fields.len()
            invariant
                i <= fields.len(),
                fields@ == old_fields,
                forall|j: int| 0 <= j < i ==> old_fields[j].name@ != name@,
            decreases fields.len() - i,
        {
            if crate::textops::text_equal(fields[i].name.as_str(), name) {
                fields.remove(i);
                fields.insert(i, newf);
                proof {
                    assert(field_names(old_fields)[i as int] == name@);
                    assert(fields@ =~= old_fields.update(i as int, fields@[i as int]));
                }
                return ObjectSchema { fields, strict: self.strict };
            }
            i = i + 1;
        }
        fields.push(newf);
        proof {
            assert forall|k: int|
                0 <= k < field_names(old_fields).len() implies field_names(old_fields)[k]
                != name@ by {
                assert(old_fields[k].name@ != name@);
            }
        }
        ObjectSchema { fields, strict: self.strict }
    }

    /// Rejects unconfigured keys instead of passing them through.
    pub fn strict(self) -> (r: ObjectSchema)
        ensures
            r == (ObjectSchema { strict: true, ..self }),
    {
        ObjectSchema { strict: true, ..self }
    }

    /// Validates a value, yielding a freshly built mapping of the
    /// validated and passed-through entries, or every issue found.
    pub fn validate(&self, value: &Value) -> (r: ValidateResult<Value>)
        ensures
            match r {
                Ok(o) => o@ matches SpecVal::Mapping(outs) && spec_validate_object(
                    *self,
                    value@,
                ) == Ok::<Seq<(Seq<char>, SpecVal)>, Seq<SpecIssue>>(outs),
                Err(e) => spec_validate_object(*self, value@) == Err::<
                    Seq<(Seq<char>, SpecVal)>,
                    Seq<SpecIssue>,
                >(e@),
            },
    {
        match validate_object(self, value) {
            Ok(outs) => Ok(Value::Mapping(outs)),
            Err(e) => Err(e),
        }
    }

    /// `validate`, under the name call sites that never expect failure use.
    pub fn safe_parse(&self, value: &Value) -> (r: ValidateResult<Value>)
        ensures
            match r {
                Ok(o) => o@ matches SpecVal::Mapping(outs) && spec_validate_object(
                    *self,
                    value@,
                ) == Ok::<Seq<(Seq<char>, SpecVal)>, Seq<SpecIssue>>(outs),
                Err(e) => spec_validate_object(*self, value@) == Err::<
                    Seq<(Seq<char>, SpecVal)>,
                    Seq<SpecIssue>,
                >(e@),
            },
    {
        self.validate(value)
    }

    /// Validates a value that is known to satisfy this schema.
    pub fn parse(&self, value: &Value) -> (o: Value)
        requires
            spec_validate_object(*self, value@) is Ok,
        ensures
            o@ matches SpecVal::Mapping(outs) && spec_validate_object(*self, value@) == Ok::<
                Seq<(Seq<char>, SpecVal)>,
                Seq<SpecIssue>,
            >(outs),
    {
        match self.validate(value) {
            Ok(o) => o,
            Err(_) => {
                proof {
                    assert(false);
                }
                vstd::pervasive::unreached()
            },
        }
    }
}

impl Default for ObjectSchema {
    /// A lenient mapping schema with no configured fields.
    fn default() -> (r: ObjectSchema)
        ensures
            r.fields@.len() == 0,
            !r.strict,
    {
        ObjectSchema::new()
    }
}

/// A lenient mapping schema with no configured fields.
pub fn object() -> (r: ObjectSchema)
    ensures
        r.fields@.len() == 0,
        !r.strict,
{
    ObjectSchema::new()
}

impl UnionSchema {
    /// A union schema with no variants yet; it accepts nothing.
    pub fn new() -> (r: UnionSchema)
        ensures
            r.variants@.len() == 0,
    {
        UnionSchema { variants: Vec::new() }
    }

    /// Appends one variant.
    pub fn variant<S: Schema>(self, schema: S) -> (r: UnionSchema)
        ensures
            r.variants@.len() == self.variants@.len() + 1,
            r.variants@ == self.variants@.push(r.variants@.last()),
            schema.matches_node(r.variants@.last()),
    {
        let mut variants = self.variants;
        variants.push(schema.to_node());
        UnionSchema { variants }
    }

    /// Validates a value: the first variant that accepts it wins; when all
    /// fail, one issue holds every variant's issues.
    pub fn validate(&self, value: &Value) -> (r: ValidateResult<Value>)
        ensures
            match r {
                Ok(o) => spec_validate_union(*self, value@) == Ok::<SpecVal, Seq<SpecIssue>>(o@),
                Err(e) => spec_validate_union(*self, value@) == Err::<SpecVal, Seq<SpecIssue>>(
                    e@,
                ),
            },
    {
        validate_union(self, value)
    }

    /// `validate`, under the name call sites that never expect failure use.
    pub fn safe_parse(&self, value: &Value) -> (r: ValidateResult<Value>)
        ensures
            match r {
                Ok(o) => spec_validate_union(*self, value@) == Ok::<SpecVal, Seq<SpecIssue>>(o@),
                Err(e) => spec_validate_union(*self, value@) == Err::<SpecVal, Seq<SpecIssue>>(
                    e@,
                ),
            },
    {
        self.validate(value)
    }

    /// Validates a value that is known to satisfy some variant.
    pub fn parse(&self, value: &Value) -> (o: Value)
        requires
            spec_validate_union(*self, value@) is Ok,
        ensures
            spec_validate_union(*self, value@) == Ok::<SpecVal, Seq<SpecIssue>>(o@),
    {
        match self.validate(value) {
            Ok(o) => o,
            Err(_) => {
                proof {
                    assert(false);
                }
                vstd::pervasive::unreached()
            },
        }
    }
}

impl Default for UnionSchema {
    /// A union schema with no variants.
    fn default() -> (r: UnionSchema)
        ensures
            r.variants@.len() == 0,
    {
        UnionSchema::new()
    }
}

/// A union schema with no variants yet.
pub fn union() -> (r: UnionSchema)
    ensures
        r.variants@.len() == 0,
{
    UnionSchema::new()
}

impl BooleanSchema {
    /// The boolean schema.
    pub fn new() -> (r: BooleanSchema) {
        BooleanSchema
    }

    /// Validates a value, yielding the boolean or the type mismatch.
    pub fn validate(&self, value: &Value) -> (r: ValidateResult<bool>)
        ensures
            match r {
                Ok(b) => spec_validate_bool(value@) == Ok::<bool, Seq<SpecIssue>>(b),
                Err(e) => spec_validate_bool(value@) == Err::<bool, Seq<SpecIssue>>(e@),
            },
    {
        match value {
            Value::Boolean(b) => Ok(*b),
            _ => Err(
                ValidationResult::with_error(
                    ValidationError::invalid_type(ValidationType::Bool, ValidationType::of_value(
                        value,
                    )),
                ),
            ),
        }
    }

    /// `validate`, under the name call sites that never expect failure use.
    pub fn safe_parse(&self, value: &Value) -> (r: ValidateResult<bool>)
        ensures
            match r {
                Ok(b) => spec_validate_bool(value@) == Ok::<bool, Seq<SpecIssue>>(b),
                Err(e) => spec_validate_bool(value@) == Err::<bool, Seq<SpecIssue>>(e@),
            },
    {
        self.validate(value)
    }

    /// Validates a value that is known to be a boolean.
    pub fn parse(&self, value: &Value) -> (b: bool)
        requires
            spec_validate_bool(value@) is Ok,
        ensures
            spec_validate_bool(value@) == Ok::<bool, Seq<SpecIssue>>(b),
    {
        match self.validate(value) {
            Ok(b) => b,
            Err(_) => {
                proof {
                    assert(false);
                }
                vstd::pervasive::unreached()
            },
        }
    }
}

impl Default for BooleanSchema {
    /// The boolean schema.
    fn default() -> (r: BooleanSchema) {
        BooleanSchema::new()
    }
}

/// The boolean schema.
pub fn boolean() -> (r: BooleanSchema) {
    BooleanSchema::new()
}

impl NullSchema {
    /// The absence-only schema.
    pub fn new() -> (r: NullSchema) {
        NullSchema
    }

    /// Validates a value, accepting exactly absence.
    pub fn validate(&self, value: &Value) -> (r: ValidateResult<()>)
        ensures
            match r {
                Ok(_) => spec_validate_null(value@) is Ok,
                Err(e) => spec_validate_null(value@) == Err::<(), Seq<SpecIssue>>(e@),
            },
    {
        match value {
            Value::Absence => Ok(()),
            _ => Err(
                ValidationResult::with_error(
                    ValidationError::invalid_type(ValidationType::Null, ValidationType::of_value(
                        value,
                    )),
                ),
            ),
        }
    }

    /// `validate`, under the name call sites that never expect failure use.
    pub fn safe_parse(&self, value: &Value) -> (r: ValidateResult<()>)
        ensures
            match r {
                Ok(_) => spec_validate_null(value@) is Ok,
                Err(e) => spec_validate_null(value@) == Err::<(), Seq<SpecIssue>>(e@),
            },
    {
        self.validate(value)
    }

    /// Validates a value that is known to be absent.
    pub fn parse(&self, value: &Value)
        requires
            spec_validate_null(value@) is Ok,
    {
        match self.validate(value) {
            Ok(_) => (),
            Err(_) => {
                proof {
                    assert(false);
                }
            },
        }
    }
}

impl Default for NullSchema {
    /// The absence-only schema.
    fn default() -> (r: NullSchema) {
        NullSchema::new()
    }
}

/// The absence-only schema.
pub fn null() -> (r: NullSchema) {
    NullSchema::new()
}

/// A fresh copy of a schema node; clones of schemas validate as the
/// originals do at run time.
#[verifier::loop_isolation(false)]
fn duplicate_node(n: &SchemaNode) -> SchemaNode
    decreases *n, 0nat,
{
    match n {
        SchemaNode::Text(cfg) => SchemaNode::Text(cfg.clone()),
        SchemaNode::Num(cfg) => SchemaNode::Num(cfg.clone()),
        SchemaNode::Bool(_) => SchemaNode::Bool(BooleanSchema),
        SchemaNode::Null(_) => SchemaNode::Null(NullSchema),
        SchemaNode::LitText(t) => SchemaNode::LitText(t.clone()),
        SchemaNode::LitNum(m) => SchemaNode::LitNum(m.clone()),
        SchemaNode::List(b) => SchemaNode::List(
            Box::new(
                ArraySchema {
                    element: duplicate_node(&b.element),
                    min_length: b.min_length,
                    max_length: b.max_length,
                },
            ),
        ),
        SchemaNode::Opt(b) => SchemaNode::Opt(
            Box::new(OptionalSchema { inner: duplicate_node(&b.inner) }),
        ),
        SchemaNode::Tuple(t) => SchemaNode::Tuple(
            TupleSchema { elements: duplicate_nodes(&t.elements) },
        ),
        SchemaNode::Obj(ob) => {
            let mut fields: Vec<ObjField> = Vec::new();
            let mut i: usize = 0;
            while i < ob.fields.len()
                decreases ob.fields.len() - i,
            {
                let f = &ob.fields[i];
                fields.push(
                    ObjField {
                        name: f.name.clone(),
                        required: f.required,
                        schema: duplicate_node(&f.schema),
                    },
                );
                i = i + 1;
            }
            SchemaNode::Obj(ObjectSchema { fields, strict: ob.strict })
        },
        SchemaNode::Union(u) => SchemaNode::Union(
            UnionSchema { variants: duplicate_nodes(&u.variants) },
        ),
    }
}

/// Fresh copies of a list of schema nodes.
#[verifier::loop_isolation(false)]
fn duplicate_nodes(ns: &Vec<SchemaNode>) -> Vec<SchemaNode>
    decreases ns@, 1nat,
{
    let mut out: Vec<SchemaNode> = Vec::new();
    let mut i: usize = 0;
    while i < ns.len()
        decreases ns.len() - i,
    {
        out.push(duplicate_node(&ns[i]));
        i = i + 1;
    }
    out
}

impl Clone for SchemaNode {
    fn clone(&self) -> SchemaNode {
        duplicate_node(self)
    }
}

impl Clone for ArraySchema {
    fn clone(&self) -> ArraySchema {
        ArraySchema {
            element: duplicate_node(&self.element),
            min_length: self.min_length,
            max_length: self.max_length,
        }
    }
}

impl Clone for OptionalSchema {
    fn clone(&self) -> OptionalSchema {
        OptionalSchema { inner: duplicate_node(&self.inner) }
    }
}

impl Clone for TupleSchema {
    fn clone(&self) -> TupleSchema {
        TupleSchema { elements: duplicate_nodes(&self.elements) }
    }
}

impl Clone for ObjField {
    fn clone(&self) -> ObjField {
        ObjField {
            name: self.name.clone(),
            required: self.required,
            schema: duplicate_node(&self.schema),
        }
    }
}

impl Clone for ObjectSchema {
    fn clone(&self) -> ObjectSchema {
        let mut fields: Vec<ObjField> = Vec::new();
        let mut i: usize = 0;
        while i < self.fields.len()
            decreases self.fields.len() - i,
        {
            fields.push(self.fields[i].clone());
            i = i + 1;
        }
        ObjectSchema { fields, strict: self.strict }
    }
}

impl Clone for UnionSchema {
    fn clone(&self) -> UnionSchema {
        UnionSchema { variants: duplicate_nodes(&self.variants) }
    }
}

} // verus!
