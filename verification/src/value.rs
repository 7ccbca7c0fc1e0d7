//! The value model: the six-shape tree that schemas are validated against.
//!
//! A `Value` is absence, a boolean, a number, a text, an ordered list, or a
//! keyed mapping. The engine only reads values; validated output trees are
//! built fresh. The mathematical content of a value is its `SpecVal` view.

use vstd::prelude::*;
use crate::num::{Number, SpecNum};

verus! {

broadcast use vstd::std_specs::vec::group_vec_axioms;

/// The mathematical content of a `Value`.
pub enum SpecVal {
    Absence,
    Boolean(bool),
    Num(SpecNum),
    Text(Seq<char>),
    List(Seq<SpecVal>),
    Mapping(Seq<(Seq<char>, SpecVal)>),
}

/// One tree-shaped input or output value.
#[derive(Debug)]
pub enum Value {
    /// The absent value (what a parsed `null` becomes).
    Absence,
    Boolean(bool),
    Num(Number),
    Text(String),
    List(Vec<Value>),
    /// Keyed mapping; keys are expected to be unique, and lookups take the
    /// first entry with the sought key.
    Mapping(Vec<(String, Value)>),
}

/// The view of one value.
pub open spec fn val_view(v: Value) -> SpecVal
    decreases v,
{
    match v {
        Value::Absence => SpecVal::Absence,
        Value::Boolean(b) => SpecVal::Boolean(b),
        Value::Num(n) => SpecVal::Num(n@),
        Value::Text(s) => SpecVal::Text(s@),
        Value::List(vs) => SpecVal::List(list_view(vs@)),
        Value::Mapping(fs) => SpecVal::Mapping(entries_view(fs@)),
    }
}

/// The views of the elements of a list, in order.
pub open spec fn list_view(s: Seq<Value>) -> Seq<SpecVal>
    decreases s,
{
    if s.len() == 0 {
        Seq::empty()
    } else {
        list_view(s.drop_last()).push(val_view(s.last()))
    }
}

/// The views of the entries of a mapping, in order.
pub open spec fn entries_view(s: Seq<(String, Value)>) -> Seq<(Seq<char>, SpecVal)>
    decreases s,
{
    if s.len() == 0 {
        Seq::empty()
    } else {
        entries_view(s.drop_last()).push((s.last().0@, val_view(s.last().1)))
    }
}

impl View for Value {
    type V = SpecVal;

    open spec fn view(&self) -> SpecVal {
        val_view(*self)
    }
}

/// `list_view` maps element views positionwise.
pub broadcast proof fn lemma_list_view(s: Seq<Value>)
    ensures
        (#[trigger] list_view(s)).len() == s.len(),
        forall|i: int| 0 <= i < s.len() ==> list_view(s)[i] == s[i]@,
    decreases s,
{
    if s.len() > 0 {
        lemma_list_view(s.drop_last());
        assert(forall|i: int| 0 <= i < s.len() - 1 ==> s.drop_last()[i] == s[i]);
    }
}

/// `entries_view` maps entry views positionwise.
pub broadcast proof fn lemma_entries_view(s: Seq<(String, Value)>)
    ensures
        (#[trigger] entries_view(s)).len() == s.len(),
        forall|i: int| 0 <= i < s.len() ==> entries_view(s)[i] == (s[i].0@, s[i].1@),
    decreases s,
{
    if s.len() > 0 {
        lemma_entries_view(s.drop_last());
        assert(forall|i: int| 0 <= i < s.len() - 1 ==> s.drop_last()[i] == s[i]);
    }
}

/// Numbers are the same value when class and scaled value agree; the
/// rendering text does not count.
pub open spec fn num_eq(a: SpecNum, b: SpecNum) -> bool {
    a.class == b.class && a.sv == b.sv
}

/// Structural equality of values, with numbers compared by `num_eq`.
pub open spec fn val_eq(a: SpecVal, b: SpecVal) -> bool
    decreases a,
{
    match (a, b) {
        (SpecVal::Absence, SpecVal::Absence) => true,
        (SpecVal::Boolean(x), SpecVal::Boolean(y)) => x == y,
        (SpecVal::Num(x), SpecVal::Num(y)) => num_eq(x, y),
        (SpecVal::Text(x), SpecVal::Text(y)) => x == y,
        (SpecVal::List(x), SpecVal::List(y)) => {
            x.len() == y.len() && (forall|i: int| 0 <= i < x.len() ==> val_eq(x[i], y[i]))
        },
        (SpecVal::Mapping(x), SpecVal::Mapping(y)) => {
            x.len() == y.len() && (forall|i: int|
                0 <= i < x.len() ==> x[i].0 == y[i].0 && val_eq(x[i].1, y[i].1))
        },
        _ => false,
    }
}

/// Deep equality of two values, by `val_eq` of their views.
#[verifier::loop_isolation(false)]
pub fn val_equal(a: &Value, b: &Value) -> (r: bool)
    ensures
        r == val_eq(a@, b@),
    decreases a,
{
    broadcast use lemma_list_view, lemma_entries_view;

    match (a, b) {
        (Value::Absence, Value::Absence) => {
            proof {
                assert(val_eq(a@, b@));
            }
            true
        },
        (Value::Boolean(x), Value::Boolean(y)) => *x == *y,
        (Value::Num(x), Value::Num(y)) => *x == *y,
        (Value::Text(x), Value::Text(y)) => *x == *y,
        (Value::List(xs), Value::List(ys)) => {
            if xs.len() != ys.len() {
                proof {
                    assert(list_view(xs@).len() == xs@.len());
                    assert(list_view(ys@).len() == ys@.len());
                    assert(!val_eq(a@, b@));
                }
                false
            } else {
                let mut i: usize = 0;
                while i < xs.len()
                    invariant
                        i <= xs.len(),
                        forall|j: int| 0 <= j < i ==> val_eq(xs@[j]@, ys@[j]@),
                    decreases xs.len() - i,
                {
                    if !val_equal(&xs[i], &ys[i]) {
                        proof {
                            assert(list_view(xs@)[i as int] == xs@[i as int]@);
                            assert(list_view(ys@)[i as int] == ys@[i as int]@);
                        }
                        return false;
                    }
                    i = i + 1;
                }
                proof {
                    assert forall|j: int| 0 <= j < list_view(xs@).len() implies val_eq(
                        list_view(xs@)[j],
                        list_view(ys@)[j],
                    ) by {
                        assert(list_view(xs@)[j] == xs@[j]@);
                        assert(list_view(ys@)[j] == ys@[j]@);
                        assert(val_eq(xs@[j]@, ys@[j]@));
                    }
                    assert(a@ == SpecVal::List(list_view(xs@)));
                    assert(b@ == SpecVal::List(list_view(ys@)));
                    assert(list_view(xs@).len() == list_view(ys@).len());
                    assert(forall|j: int|
                        0 <= j < list_view(xs@).len() ==> val_eq(
                            list_view(xs@)[j],
                            list_view(ys@)[j],
                        ));
                    assert(val_eq(a@, b@));
                }
                true
            }
        },
        (Value::Mapping(xs), Value::Mapping(ys)) => {
            if xs.len() != ys.len() {
                proof {
                    assert(entries_view(xs@).len() == xs@.len());
                    assert(entries_view(ys@).len() == ys@.len());
                    assert(!val_eq(a@, b@));
                }
                false
            } else {
                let mut i: usize = 0;
                while i < xs.len()
                    invariant
                        i <= xs.len(),
                        forall|j: int|
                            0 <= j < i ==> xs@[j].0@ == ys@[j].0@ && val_eq(xs@[j].1@, ys@[j].1@),
                    decreases xs.len() - i,
                {
                    let (k1, v1) = &xs[i];
                    let (k2, v2) = &ys[i];
                    proof {
                        assert(entries_view(xs@)[i as int] == (xs@[i as int].0@, xs@[
                            i as int].1@));
                        assert(entries_view(ys@)[i as int] == (ys@[i as int].0@, ys@[
                            i as int].1@));
                    }
                    if !(*k1 == *k2) {
                        return false;
                    }
                    if !val_equal(v1, v2) {
                        return false;
                    }
                    i = i + 1;
                }
                proof {
                    assert forall|j: int| 0 <= j < entries_view(xs@).len() implies entries_view(
                        xs@,
                    )[j].0 == entries_view(ys@)[j].0 && val_eq(
                        entries_view(xs@)[j].1,
                        entries_view(ys@)[j].1,
                    ) by {
                        assert(entries_view(xs@)[j] == (xs@[j].0@, xs@[j].1@));
                        assert(entries_view(ys@)[j] == (ys@[j].0@, ys@[j].1@));
                        assert(xs@[j].0@ == ys@[j].0@ && val_eq(xs@[j].1@, ys@[j].1@));
                    }
                    assert(a@ == SpecVal::Mapping(entries_view(xs@)));
                    assert(b@ == SpecVal::Mapping(entries_view(ys@)));
                    assert(entries_view(xs@).len() == entries_view(ys@).len());
                    assert(forall|j: int|
                        0 <= j < entries_view(xs@).len() ==> entries_view(xs@)[j].0
                            == entries_view(ys@)[j].0 && val_eq(
                            entries_view(xs@)[j].1,
                            entries_view(ys@)[j].1,
                        ));
                    assert(val_eq(a@, b@));
                }
                true
            }
        },
        _ => {
            proof {
                assert(!val_eq(a@, b@));
            }
            false
        },
    }
}

impl Clone for Value {
    /// A clone is a fresh tree with the same view.
    fn clone(&self) -> (r: Value)
        ensures
            r@ == self@,
    {
        self.duplicate()
    }
}

impl PartialEq for Value {
    fn eq(&self, other: &Value) -> (r: bool) {
        val_equal(self, other)
    }
}

impl vstd::std_specs::cmp::PartialEqSpecImpl for Value {
    open spec fn obeys_eq_spec() -> bool {
        true
    }

    open spec fn eq_spec(&self, other: &Value) -> bool {
        val_eq(self@, other@)
    }
}

impl Value {
    /// A fresh value with the same view.
    #[verifier::loop_isolation(false)]
    pub fn duplicate(&self) -> (r: Value)
        ensures
            r@ == self@,
        decreases self,
    {
        broadcast use lemma_list_view, lemma_entries_view;

        match self {
            Value::Absence => Value::Absence,
            Value::Boolean(b) => Value::Boolean(*b),
            Value::Num(n) => Value::Num(n.duplicate()),
            Value::Text(s) => Value::Text(s.clone()),
            Value::List(vs) => {
                let mut out: Vec<Value> = Vec::new();
                let mut i: usize = 0;
                while i < vs.len()
                    invariant
                        i <= vs.len(),
                        out@.len() == i,
                        forall|j: int| 0 <= j < i ==> out@[j]@ == vs@[j]@,
                    decreases vs.len() - i,
                {
                    out.push(vs[i].duplicate());
                    i = i + 1;
                }
                proof {
                    assert(list_view(out@) =~= list_view(vs@));
                }
                Value::List(out)
            },
            Value::Mapping(fs) => {
                let mut out: Vec<(String, Value)> = Vec::new();
                let mut i: usize = 0;
                while i < fs.len()
                    invariant
                        i <= fs.len(),
                        out@.len() == i,
                        forall|j: int|
                            0 <= j < i ==> out@[j].0@ == fs@[j].0@ && out@[j].1@ == fs@[j].1@,
                    decreases fs.len() - i,
                {
                    let (k, v) = &fs[i];
                    out.push((k.clone(), v.duplicate()));
                    i = i + 1;
                }
                proof {
                    assert(entries_view(out@) =~= entries_view(fs@));
                }
                Value::Mapping(out)
            },
        }
    }
}

impl Value {
    /// The first entry with the given key, when this value is a mapping
    /// that holds one.
    #[verifier::loop_isolation(false)]
    pub fn get<'a>(&'a self, key: &str) -> (r: Option<&'a Value>)
        ensures
            match r {
                Some(x) => self@ matches SpecVal::Mapping(entries) && spec_lookup(entries, key@)
                    == Some(x@),
                None => match self@ {
                    SpecVal::Mapping(entries) => spec_lookup(entries, key@) is None,
                    _ => true,
                },
            },
    {
        broadcast use lemma_entries_view;

        match self {
            Value::Mapping(entries) => {
                let ghost ev = entries_view(entries@);
                let mut i: usize = 0;
                while i < entries.len()
                    invariant
                        i <= entries.len(),
                        forall|j: int| 0 <= j < i ==> ev[j].0 != key@,
                    decreases entries.len() - i,
                {
                    let kv = &entries[i];
                    proof {
                        assert(ev[i as int] == (entries@[i as int].0@, entries@[i as int].1@));
                    }
                    if crate::textops::text_equal(kv.0.as_str(), key) {
                        proof {
                            lemma_lookup_from(ev, key@, i as int);
                            assert(ev.skip(i as int)[0] == ev[i as int]);
                        }
                        return Some(&kv.1);
                    }
                    i = i + 1;
                }
                proof {
                    lemma_lookup_from(ev, key@, entries@.len() as int);
                    assert(ev.skip(entries@.len() as int).len() == 0);
                }
                None
            },
            _ => None,
        }
    }
}

/// First-match lookup among mapping entries.
pub open spec fn spec_lookup(entries: Seq<(Seq<char>, SpecVal)>, key: Seq<char>) -> Option<
    SpecVal,
>
    decreases entries.len(),
{
    if entries.len() == 0 {
        None
    } else if entries[0].0 == key {
        Some(entries[0].1)
    } else {
        spec_lookup(entries.drop_first(), key)
    }
}

/// A scan that finds no matching key before `i` agrees with `spec_lookup`
/// continued from `i`.
proof fn lemma_lookup_from(entries: Seq<(Seq<char>, SpecVal)>, key: Seq<char>, i: int)
    requires
        0 <= i <= entries.len(),
        forall|j: int| 0 <= j < i ==> entries[j].0 != key,
    ensures
        spec_lookup(entries, key) == spec_lookup(entries.skip(i), key),
    decreases i,
{
    if i > 0 {
        assert(entries[0].0 != key);
        lemma_lookup_from(entries.drop_first(), key, i - 1);
        assert(entries.drop_first().skip(i - 1) =~= entries.skip(i));
    } else {
        assert(entries.skip(0) =~= entries);
    }
}

/// First-match lookup of `key` among the entries of a mapping.
#[verifier::loop_isolation(false)]
pub fn lookup<'a>(entries: &'a Vec<(String, Value)>, key: &String) -> (r: Option<&'a Value>)
    ensures
        match r {
            Some(v) => spec_lookup(entries_view(entries@), key@) == Some(v@),
            None => spec_lookup(entries_view(entries@), key@) is None,
        },
{
    broadcast use lemma_entries_view;

    let mut i: usize = 0;
    while i < entries.len()
        invariant
            i <= entries.len(),
            forall|j: int| 0 <= j < i ==> entries_view(entries@)[j].0 != key@,
        decreases entries.len() - i,
    {
        let (k, v) = &entries[i];
        proof {
            assert(entries_view(entries@)[i as int] == (entries@[i as int].0@, entries@[
                i as int].1@));
        }
        if *k == *key {
            proof {
                lemma_lookup_from(entries_view(entries@), key@, i as int);
                assert(entries_view(entries@).skip(i as int)[0] == entries_view(entries@)[
                    i as int]);
            }
            return Some(v);
        }
        i = i + 1;
    }
    proof {
        lemma_lookup_from(entries_view(entries@), key@, entries@.len() as int);
        assert(entries_view(entries@).skip(entries@.len() as int).len() == 0);
    }
    None
}

} // verus!
