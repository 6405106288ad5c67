//! Json render contexts and their recursive merge.
//!
//! A page render works on a json document: the base context merged
//! with the page's own metadata.  The library holds such documents in
//! a type of its own, with object entries as (key, value) pairs and a
//! number kept as its literal text; the serving shell converts to and
//! from its json library's values at the edge.

use vstd::prelude::*;
use vstd::std_specs::vec::axiom_vec_index_decreases;

use crate::text::str_eq;

verus! {

broadcast use vstd::std_specs::vec::axiom_vec_index_decreases;

/// A json document.  Keys of every object are meant to be unique;
/// [`json_wf`] says so, and the merge relies on it.
pub enum JsonValue {
    /// The json `null`.
    Null,
    /// A boolean.
    Bool(bool),
    /// A number, kept as its literal text.
    Number(String),
    /// A string.
    Text(String),
    /// An array of documents.
    Array(Vec<JsonValue>),
    /// An object: its entries as (key, value) pairs.
    Object(Vec<(String, JsonValue)>),
}

/// Two documents with the same shape and the same contents.
pub open spec fn json_eq(a: JsonValue, b: JsonValue) -> bool
    decreases a,
{
    match (a, b) {
        (JsonValue::Null, JsonValue::Null) => true,
        (JsonValue::Bool(x), JsonValue::Bool(y)) => x == y,
        (JsonValue::Number(x), JsonValue::Number(y)) => x@ == y@,
        (JsonValue::Text(x), JsonValue::Text(y)) => x@ == y@,
        (JsonValue::Array(xs), JsonValue::Array(ys)) => {
            &&& xs@.len() == ys@.len()
            &&& forall|i: int| 0 <= i < xs@.len() ==> json_eq(#[trigger] xs@[i], ys@[i])
        },
        (JsonValue::Object(xs), JsonValue::Object(ys)) => {
            &&& xs@.len() == ys@.len()
            &&& forall|i: int|
                0 <= i < xs@.len() ==> (#[trigger] xs@[i]).0@ == ys@[i].0@ && json_eq(
                    xs@[i].1,
                    ys@[i].1,
                )
        },
        _ => false,
    }
}

/// Whether the entry list stores `key`.
pub open spec fn has_key(entries: Seq<(String, JsonValue)>, key: Seq<char>) -> bool {
    exists|i: int| 0 <= i < entries.len() && entries[i].0@ == key
}

/// Every object of the document holds each key at most once.
pub open spec fn json_wf(v: JsonValue) -> bool
    decreases v, 1int,
{
    match v {
        JsonValue::Array(items) => items_wf(items),
        JsonValue::Object(entries) => entries_wf(entries),
        _ => true,
    }
}

/// Every element of the array is well formed.
pub open spec fn items_wf(items: Vec<JsonValue>) -> bool
    decreases items, 0int,
{
    forall|i: int| 0 <= i < items@.len() ==> json_wf(#[trigger] items@[i])
}

/// The entry list holds each key at most once, and every value is
/// well formed.
pub open spec fn entries_wf(entries: Vec<(String, JsonValue)>) -> bool
    decreases entries, 0int,
{
    &&& forall|i: int, j: int| 0 <= i < j < entries@.len() ==> entries@[i].0@ != entries@[j].0@
    &&& forall|i: int| 0 <= i < entries@.len() ==> json_wf((#[trigger] entries@[i]).1)
}

/// An object's entries are each well formed.
proof fn lemma_object_entry_wf(entries: Vec<(String, JsonValue)>, i: int)
    requires
        json_wf(JsonValue::Object(entries)),
        0 <= i < entries@.len(),
    ensures
        json_wf(entries@[i].1),
{
    assert(entries_wf(entries));
}

/// Holds of a pair whose key the entry list `ae` does not store:
/// such a pair of `b` is appended by a merge rather than merged in.
pub open spec fn new_key_pred(ae: Seq<(String, JsonValue)>) -> spec_fn((String, JsonValue)) -> bool {
    |kv: (String, JsonValue)| !has_key(ae, kv.0@)
}

/// How a document `r` relates to `a` with `b` merged into it: two
/// objects merge entry by entry, while any other pair of documents
/// is settled by `b` alone.
pub open spec fn is_merged(a: JsonValue, b: JsonValue, r: JsonValue) -> bool
    decreases b,
{
    match b {
        JsonValue::Object(be) => match a {
            JsonValue::Object(ae) => match r {
                JsonValue::Object(re) => is_merged_entries(ae, be, re),
                _ => false,
            },
            _ => json_eq(b, r),
        },
        _ => json_eq(b, r),
    }
}

/// The entries of a merged object: each entry of `ae` keeps its key
/// and place, its value merged with the value `be` holds under that
/// key, if any; after them come exactly the entries of `be` whose
/// keys `ae` does not store, in their order in `be`.
pub open spec fn is_merged_entries(
    ae: Vec<(String, JsonValue)>,
    be: Vec<(String, JsonValue)>,
    re: Vec<(String, JsonValue)>,
) -> bool
    decreases be,
{
    let tail = be@.filter(new_key_pred(ae@));
    &&& re@.len() == ae@.len() + tail.len()
    &&& forall|i: int| 0 <= i < ae@.len() ==> (#[trigger] re@[i]).0@ == ae@[i].0@
    &&& forall|i: int|
        0 <= i < ae@.len() && has_key(be@, ae@[i].0@) ==> exists|j: int|
            {
                &&& 0 <= j < be@.len()
                &&& be@[j].0@ == ae@[i].0@
                &&& is_merged(ae@[i].1, be@[j].1, (#[trigger] re@[i]).1)
            }
    &&& forall|i: int|
        0 <= i < ae@.len() && !has_key(be@, ae@[i].0@) ==> json_eq(
            ae@[i].1,
            (#[trigger] re@[i]).1,
        )
    &&& forall|i: int|
        0 <= i < tail.len() ==> (#[trigger] re@[ae@.len() + i]).0@ == tail[i].0@ && json_eq(
            tail[i].1,
            re@[ae@.len() + i].1,
        )
}

impl JsonValue {
    /// Check that every object of the document holds each key at
    /// most once, which the merge relies on.
    pub fn is_wf(&self) -> (r: bool)
        ensures
            r == json_wf(*self),
        decreases self,
    {
        match self {
            JsonValue::Null => true,
            JsonValue::Bool(_) => true,
            JsonValue::Number(_) => true,
            JsonValue::Text(_) => true,
            JsonValue::Array(items) => {
                let mut i: usize = 0;
                while i < items.len()
                    invariant
                        *self == JsonValue::Array(*items),
                        i <= items@.len(),
                        forall|m: int| 0 <= m < i ==> json_wf(#[trigger] items@[m]),
                    decreases items@.len() - i,
                {
                    proof {
                        axiom_vec_index_decreases(*items, i as int);
                        assert(decreases_to!(*self => (*self)->Array_0));
                        assert((*self)->Array_0 == *items);
                        assert(decreases_to!(*self => items@[i as int]));
                    }
                    if !items[i].is_wf() {
                        proof {
                            assert(!items_wf(*items));
                        }
                        return false;
                    }
                    i += 1;
                }
                proof {
                    assert(items_wf(*items));
                }
                true
            },
            JsonValue::Object(entries) => {
                let mut i: usize = 0;
                while i < entries.len()
                    invariant
                        *self == JsonValue::Object(*entries),
                        i <= entries@.len(),
                        forall|a: int, b: int|
                            0 <= a < b < i ==> entries@[a].0@ != entries@[b].0@,
                        forall|m: int| 0 <= m < i ==> json_wf((#[trigger] entries@[m]).1),
                    decreases entries@.len() - i,
                {
                    let mut j: usize = 0;
                    while j < i
                        invariant
                            *self == JsonValue::Object(*entries),
                            j <= i,
                            i < entries@.len(),
                            forall|b: int| 0 <= b < j ==> entries@[b].0@ != entries@[i as int].0@,
                        decreases i - j,
                    {
                        if str_eq(entries[j].0.as_str(), entries[i].0.as_str()) {
                            proof {
                                assert(entries@[j as int].0@ == entries@[i as int].0@);
                                assert(!entries_wf(*entries));
                            }
                            return false;
                        }
                        j += 1;
                    }
                    proof {
                        axiom_vec_index_decreases(*entries, i as int);
                        assert(decreases_to!(*self => (*self)->Object_0));
                        assert((*self)->Object_0 == *entries);
                        assert(decreases_to!(*self => entries@[i as int].1));
                    }
                    if !entries[i].1.is_wf() {
                        proof {
                            assert(!entries_wf(*entries));
                        }
                        return false;
                    }
                    i += 1;
                }
                proof {
                    assert(entries_wf(*entries));
                }
                true
            },
        }
    }
}

/// A copy of the document, equal in shape and contents.
fn clone_value(v: &JsonValue) -> (r: JsonValue)
    ensures
        json_eq(*v, r),
    decreases v,
{
    match v {
        JsonValue::Null => JsonValue::Null,
        JsonValue::Bool(x) => JsonValue::Bool(*x),
        JsonValue::Number(s) => JsonValue::Number(s.clone()),
        JsonValue::Text(s) => JsonValue::Text(s.clone()),
        JsonValue::Array(items) => {
            let mut out: Vec<JsonValue> = Vec::new();
            let mut i: usize = 0;
            while i < items.len()
                invariant
                    *v == JsonValue::Array(*items),
                    i <= items@.len(),
                    out@.len() == i,
                    forall|m: int| 0 <= m < i ==> json_eq(items@[m], #[trigger] out@[m]),
                decreases items@.len() - i,
            {
                proof {
                    axiom_vec_index_decreases(*items, i as int);
                    assert(decreases_to!(*v => (*v)->Array_0));
                    assert((*v)->Array_0 == *items);
                    assert(decreases_to!(*v => items@[i as int]));
                }
                out.push(clone_value(&items[i]));
                i += 1;
            }
            JsonValue::Array(out)
        },
        JsonValue::Object(entries) => {
            let mut out: Vec<(String, JsonValue)> = Vec::new();
            let mut i: usize = 0;
            while i < entries.len()
                invariant
                    *v == JsonValue::Object(*entries),
                    i <= entries@.len(),
                    out@.len() == i,
                    forall|m: int|
                        0 <= m < i ==> (#[trigger] out@[m]).0@ == entries@[m].0@ && json_eq(
                            entries@[m].1,
                            out@[m].1,
                        ),
                decreases entries@.len() - i,
            {
                proof {
                    axiom_vec_index_decreases(*entries, i as int);
                    assert(decreases_to!(*v => (*v)->Object_0));
                    assert((*v)->Object_0 == *entries);
                    assert(decreases_to!(*v => entries@[i as int].1));
                }
                out.push((entries[i].0.clone(), clone_value(&entries[i].1)));
                i += 1;
            }
            JsonValue::Object(out)
        },
    }
}

impl Clone for JsonValue {
    /// A copy of the document, equal in shape and contents.
    fn clone(&self) -> (r: Self)
        ensures
            json_eq(*self, r),
    {
        clone_value(self)
    }
}

/// Index of the entry stored under `key`, if any.
fn find_entry(entries: &Vec<(String, JsonValue)>, key: &str) -> (r: Option<usize>)
    ensures
        match r {
            Some(j) => j < entries@.len() && entries@[j as int].0@ == key@,
            None => !has_key(entries@, key@),
        },
{
    let mut idx: usize = 0;
    while idx < entries.len()
        invariant
            idx <= entries@.len(),
            forall|j: int| 0 <= j < idx ==> entries@[j].0@ != key@,
        decreases entries@.len() - idx,
    {
        if str_eq(entries[idx].0.as_str(), key) {
            return Some(idx);
        }
        idx += 1;
    }
    None
}

/// The document `b` merged into `a`: objects merge recursively,
/// anything else is settled by `b`.
pub fn merged(a: &JsonValue, b: &JsonValue) -> (r: JsonValue)
    requires
        json_wf(*a),
        json_wf(*b),
    ensures
        is_merged(*a, *b, r),
    decreases b,
{
    let be: &Vec<(String, JsonValue)> = match b {
        JsonValue::Object(entries) => entries,
        _ => {
            return b.clone();
        },
    };
    let ae: &Vec<(String, JsonValue)> = match a {
        JsonValue::Object(entries) => entries,
        _ => {
            return b.clone();
        },
    };
    let mut out: Vec<(String, JsonValue)> = Vec::new();
    let mut i: usize = 0;
    while i < ae.len()
        invariant
            *a == JsonValue::Object(*ae),
            *b == JsonValue::Object(*be),
            json_wf(*a),
            json_wf(*b),
            i <= ae@.len(),
            out@.len() == i,
            forall|m: int| 0 <= m < i ==> (#[trigger] out@[m]).0@ == ae@[m].0@,
            forall|m: int|
                0 <= m < i && has_key(be@, ae@[m].0@) ==> exists|j: int|
                    {
                        &&& 0 <= j < be@.len()
                        &&& be@[j].0@ == ae@[m].0@
                        &&& is_merged(ae@[m].1, be@[j].1, (#[trigger] out@[m]).1)
                    },
            forall|m: int|
                0 <= m < i && !has_key(be@, ae@[m].0@) ==> json_eq(
                    ae@[m].1,
                    (#[trigger] out@[m]).1,
                ),
        decreases ae@.len() - i,
    {
        match find_entry(be, ae[i].0.as_str()) {
            Some(j) => {
                proof {
                    lemma_object_entry_wf(*ae, i as int);
                    lemma_object_entry_wf(*be, j as int);
                    axiom_vec_index_decreases(*be, j as int);
                    assert(decreases_to!(*b => (*b)->Object_0));
                    assert((*b)->Object_0 == *be);
                    assert(decreases_to!(*b => be@[j as int].1));
                }
                let value = merged(&ae[i].1, &be[j].1);
                out.push((ae[i].0.clone(), value));
            },
            None => {
                out.push((ae[i].0.clone(), ae[i].1.clone()));
            },
        }
        i += 1;
    }
    let ghost merged_part = out@;
    let mut j: usize = 0;
    while j < be.len()
        invariant
            *a == JsonValue::Object(*ae),
            *b == JsonValue::Object(*be),
            j <= be@.len(),
            merged_part.len() == ae@.len(),
            forall|m: int| 0 <= m < ae@.len() ==> (#[trigger] merged_part[m]).0@ == ae@[m].0@,
            forall|m: int|
                0 <= m < ae@.len() && has_key(be@, ae@[m].0@) ==> exists|k: int|
                    {
                        &&& 0 <= k < be@.len()
                        &&& be@[k].0@ == ae@[m].0@
                        &&& is_merged(ae@[m].1, be@[k].1, (#[trigger] merged_part[m]).1)
                    },
            forall|m: int|
                0 <= m < ae@.len() && !has_key(be@, ae@[m].0@) ==> json_eq(
                    ae@[m].1,
                    (#[trigger] merged_part[m]).1,
                ),
            out@.len() == merged_part.len() + be@.subrange(0, j as int).filter(
                new_key_pred(ae@),
            ).len(),
            forall|m: int| 0 <= m < merged_part.len() ==> out@[m] == merged_part[m],
            forall|m: int|
                0 <= m < be@.subrange(0, j as int).filter(new_key_pred(ae@)).len() ==> {
                    let tail = be@.subrange(0, j as int).filter(new_key_pred(ae@));
                    (#[trigger] out@[merged_part.len() + m]).0@ == tail[m].0@ && json_eq(
                        tail[m].1,
                        out@[merged_part.len() + m].1,
                    )
                },
        decreases be@.len() - j,
    {
        proof {
            let pred = new_key_pred(ae@);
            let shorter = be@.subrange(0, j as int);
            let longer = be@.subrange(0, j as int + 1);
            assert(longer =~= shorter.push(be@[j as int]));
            shorter.lemma_filter_push(be@[j as int], pred);
        }
        if find_entry(ae, be[j].0.as_str()).is_none() {
            out.push((be[j].0.clone(), be[j].1.clone()));
        }
        j += 1;
    }
    proof {
        assert(be@.subrange(0, be@.len() as int) =~= be@);
        let tail = be@.filter(new_key_pred(ae@));
        assert(out@.len() == ae@.len() + tail.len());
        assert forall|m: int| 0 <= m < ae@.len() implies (#[trigger] out@[m]).0@
            == ae@[m].0@ by {
            assert(out@[m] == merged_part[m]);
        }
        assert forall|m: int|
            0 <= m < ae@.len() && has_key(be@, ae@[m].0@) implies exists|k: int|
                {
                    &&& 0 <= k < be@.len()
                    &&& be@[k].0@ == ae@[m].0@
                    &&& is_merged(ae@[m].1, be@[k].1, (#[trigger] out@[m]).1)
                } by {
            assert(out@[m] == merged_part[m]);
            let k = choose|k: int|
                {
                    &&& 0 <= k < be@.len()
                    &&& be@[k].0@ == ae@[m].0@
                    &&& is_merged(ae@[m].1, be@[k].1, merged_part[m].1)
                };
            assert(0 <= k < be@.len() && be@[k].0@ == ae@[m].0@ && is_merged(
                ae@[m].1,
                be@[k].1,
                out@[m].1,
            ));
        }
        assert forall|m: int|
            0 <= m < ae@.len() && !has_key(be@, ae@[m].0@) implies json_eq(
            ae@[m].1,
            (#[trigger] out@[m]).1,
        ) by {
            assert(out@[m] == merged_part[m]);
        }
        assert forall|m: int| 0 <= m < tail.len() implies (#[trigger] out@[ae@.len() + m]).0@
            == tail[m].0@ && json_eq(tail[m].1, out@[ae@.len() + m].1) by {
            assert(out@[merged_part.len() + m] == out@[ae@.len() + m]);
        }
        assert(is_merged_entries(*ae, *be, out));
    }
    JsonValue::Object(out)
}

/// Merge `b` into `a` in place: objects merge recursively, anything
/// else is replaced by `b`.
pub fn merge_json(a: &mut JsonValue, b: &JsonValue)
    requires
        json_wf(*old(a)),
        json_wf(*b),
    ensures
        is_merged(*old(a), *b, *final(a)),
{
    let merged_value = merged(a, b);
    *a = merged_value;
}

} // verus!
