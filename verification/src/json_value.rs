//! JSON values as plain data, and the operations the backend layer performs
//! on metadata and provider options: reading fields, building the metadata
//! of checkouts and sandboxes, redacting secrets, merging overrides, and
//! reading recalled memories out of a tool's structured reply.
//!
//! Objects keep their members in order, each key at most once.

use vstd::prelude::*;
use crate::memory_render::RecallMemory;
use crate::strmap::{str_equal, StrMap};

verus! {

/// A JSON value; numbers are kept as their text.
#[derive(Debug)]
pub enum JsonValue {
    Null,
    Bool(bool),
    Number(String),
    Str(String),
    Array(Vec<JsonValue>),
    Object(Vec<(String, JsonValue)>),
}

/// The members of an object by the text of their keys.
pub open spec fn obj_view(entries: Seq<(String, JsonValue)>) -> Seq<(Seq<char>, JsonValue)> {
    entries.map_values(|p: (String, JsonValue)| (p.0@, p.1))
}

/// The first member of `entries` named `key`.
pub open spec fn obj_get(entries: Seq<(Seq<char>, JsonValue)>, key: Seq<char>) -> Option<JsonValue>
    decreases entries.len(),
{
    if entries.len() == 0 {
        None
    } else if entries[0].0 == key {
        Some(entries[0].1)
    } else {
        obj_get(entries.drop_first(), key)
    }
}

/// The member `key` of an object; nothing for other values.
pub open spec fn json_get(v: JsonValue, key: Seq<char>) -> Option<JsonValue> {
    match v {
        JsonValue::Object(e) => obj_get(obj_view(e@), key),
        _ => None,
    }
}

/// The text of a string value.
pub open spec fn json_str(v: Option<JsonValue>) -> Option<Seq<char>> {
    match v {
        Some(JsonValue::Str(s)) => Some(s@),
        _ => None,
    }
}

/// `entries` with `key` set to `value`: in place when present, else last.
pub open spec fn obj_insert(entries: Seq<(Seq<char>, JsonValue)>, key: Seq<char>, value: JsonValue) -> Seq<(Seq<char>, JsonValue)>
    decreases entries.len(),
{
    if entries.len() == 0 {
        seq![(key, value)]
    } else if entries[0].0 == key {
        seq![(key, value)] + entries.drop_first()
    } else {
        seq![entries[0]] + obj_insert(entries.drop_first(), key, value)
    }
}

/// `entries` without the members named `key`.
pub open spec fn obj_remove(entries: Seq<(Seq<char>, JsonValue)>, key: Seq<char>) -> Seq<(Seq<char>, JsonValue)>
    decreases entries.len(),
{
    if entries.len() == 0 {
        entries
    } else if entries[0].0 == key {
        obj_remove(entries.drop_first(), key)
    } else {
        seq![entries[0]] + obj_remove(entries.drop_first(), key)
    }
}

/// Reading a member after setting one.
pub proof fn lemma_get_after_insert(e: Seq<(Seq<char>, JsonValue)>, key: Seq<char>, value: JsonValue, k: Seq<char>)
    ensures
        obj_get(obj_insert(e, key, value), k) == (if k == key { Some(value) } else { obj_get(e, k) }),
    decreases e.len(),
{
    let r = obj_insert(e, key, value);
    reveal_with_fuel(obj_get, 2);
    if e.len() == 0 {
        assert(r[0] == (key, value));
        assert(r.drop_first().len() == 0);
    } else if e[0].0 == key {
        assert(r[0] == (key, value));
        assert(r.drop_first() =~= e.drop_first());
    } else {
        lemma_get_after_insert(e.drop_first(), key, value, k);
        assert(r[0] == e[0]);
        assert(r.drop_first() =~= obj_insert(e.drop_first(), key, value));
    }
}

/// Reading a member after removing one.
pub proof fn lemma_get_after_remove(e: Seq<(Seq<char>, JsonValue)>, key: Seq<char>, k: Seq<char>)
    ensures
        obj_get(obj_remove(e, key), k) == (if k == key { None } else { obj_get(e, k) }),
    decreases e.len(),
{
    if e.len() > 0 {
        lemma_get_after_remove(e.drop_first(), key, k);
        if e[0].0 != key {
            let r = obj_remove(e, key);
            assert(r[0] == e[0]);
            assert(r.drop_first() =~= obj_remove(e.drop_first(), key));
        }
    }
}

impl JsonValue {
    /// The member `key` of an object.
    pub fn get(&self, key: &str) -> (r: Option<&JsonValue>)
        ensures
            match r {
                Some(x) => json_get(*self, key@) == Some(*x),
                None => json_get(*self, key@) is None,
            },
    {
        match self {
            JsonValue::Object(entries) => {
                let n = entries.len();
                let mut i: usize = 0;
                let ghost ev = obj_view(entries@);
                assert(ev.skip(0) =~= ev);
                while i < n
                    invariant
                        n == entries@.len(),
                        ev == obj_view(entries@),
                        i <= n,
                        obj_get(ev, key@) == obj_get(ev.skip(i as int), key@),
                        json_get(*self, key@) == obj_get(ev, key@),
                    decreases n - i,
                {
                    assert(ev.skip(i as int)[0] == ev[i as int]);
                    assert(ev[i as int] == (entries@[i as int].0@, entries@[i as int].1));
                    assert(ev.skip(i as int).len() > 0);
                    if str_equal(entries[i].0.as_str(), key) {
                        assert(obj_get(ev.skip(i as int), key@) == Some(entries@[i as int].1));
                        return Some(&entries[i].1);
                    }
                    assert(ev.skip(i as int).drop_first() =~= ev.skip(i + 1));
                    i = i + 1;
                }
                None
            },
            _ => None,
        }
    }

    /// The text of a string value.
    pub fn as_str(&self) -> (r: Option<&str>)
        ensures
            match r {
                Some(s) => *self matches JsonValue::Str(t) && t@ == s@,
                None => !(*self is Str),
            },
    {
        match self {
            JsonValue::Str(s) => Some(s.as_str()),
            _ => None,
        }
    }
}

/// Set member `key` of `entries` to `value`.
pub fn object_insert(entries: &mut Vec<(String, JsonValue)>, key: String, value: JsonValue)
    ensures
        obj_view(final(entries)@) == obj_insert(obj_view(old(entries)@), key@, value),
{
    let n = entries.len();
    let mut i: usize = 0;
    let ghost ev = obj_view(entries@);
    while i < n
        invariant
            n == entries@.len(),
            i <= n,
            entries@ == old(entries)@,
            ev == obj_view(entries@),
            forall|j: int| 0 <= j < i ==> (#[trigger] ev[j]).0 != key@,
        decreases n - i,
    {
        assert(ev[i as int] == (entries@[i as int].0@, entries@[i as int].1));
        if str_equal(entries[i].0.as_str(), key.as_str()) {
            let (old_k, _old_v) = entries.remove(i);
            entries.insert(i, (old_k, value));
            proof {
                lemma_insert_at(ev, i as int, key@, value);
                assert(obj_view(entries@) =~= ev.update(i as int, (key@, value)));
            }
            return;
        }
        i = i + 1;
    }
    let ghost k = key@;
    entries.push((key, value));
    proof {
        lemma_insert_absent(ev, k, value);
        assert(obj_view(entries@) =~= ev.push((k, value)));
    }
}

proof fn lemma_insert_at(e: Seq<(Seq<char>, JsonValue)>, i: int, key: Seq<char>, value: JsonValue)
    requires
        0 <= i < e.len(),
        e[i].0 == key,
        forall|j: int| 0 <= j < i ==> (#[trigger] e[j]).0 != key,
    ensures
        obj_insert(e, key, value) == e.update(i, (key, value)),
    decreases i,
{
    if i == 0 {
        assert(seq![(key, value)] + e.drop_first() =~= e.update(0, (key, value)));
    } else {
        let t = e.drop_first();
        assert forall|j: int| 0 <= j < i - 1 implies (#[trigger] t[j]).0 != key by {
            assert(t[j] == e[j + 1]);
        }
        lemma_insert_at(t, i - 1, key, value);
        assert(e[0].0 != key);
        assert(seq![e[0]] + t.update(i - 1, (key, value)) =~= e.update(i, (key, value)));
    }
}

proof fn lemma_insert_absent(e: Seq<(Seq<char>, JsonValue)>, key: Seq<char>, value: JsonValue)
    requires
        forall|j: int| 0 <= j < e.len() ==> (#[trigger] e[j]).0 != key,
    ensures
        obj_insert(e, key, value) == e.push((key, value)),
    decreases e.len(),
{
    if e.len() > 0 {
        let t = e.drop_first();
        assert forall|j: int| 0 <= j < t.len() implies (#[trigger] t[j]).0 != key by {
            assert(t[j] == e[j + 1]);
        }
        lemma_insert_absent(t, key, value);
        assert(e[0].0 != key);
        assert(seq![e[0]] + t.push((key, value)) =~= e.push((key, value)));
    }
}

/// Remove the members named `key` from `entries`.
pub fn object_remove(entries: Vec<(String, JsonValue)>, key: &str) -> (r: Vec<(String, JsonValue)>)
    ensures
        obj_view(r@) == obj_remove(obj_view(entries@), key@),
{
    let ghost all = obj_view(entries@);
    let mut rest = entries;
    let mut kept: Vec<(String, JsonValue)> = Vec::new();
    let n = rest.len();
    let mut i: usize = 0;
    assert(obj_view(rest@) =~= all.skip(0));
    while i < n
        invariant
            n == all.len(),
            i <= n,
            rest@.len() == n - i,
            obj_view(rest@) == all.skip(i as int),
            obj_view(kept@) + obj_remove(all.skip(i as int), key@) == obj_remove(all, key@),
        decreases n - i,
    {
        let ghost before = rest@;
        let item = rest.remove(0);
        proof {
            assert(obj_view(before)[0] == (before[0].0@, before[0].1));
            assert(all.skip(i as int)[0] == all[i as int]);
            assert((item.0@, item.1) == all[i as int]);
            assert(rest@ =~= before.drop_first());
            assert(obj_view(rest@) =~= obj_view(before).drop_first());
            assert(all.skip(i as int).drop_first() =~= all.skip(i + 1));
        }
        if str_equal(item.0.as_str(), key) {
        } else {
            let ghost k0 = obj_view(kept@);
            let ghost iv = (item.0@, item.1);
            kept.push(item);
            assert(obj_view(kept@) =~= k0.push(iv));
            assert(obj_view(kept@) + obj_remove(all.skip(i + 1), key@) =~= k0 + (seq![all[i as int]] + obj_remove(all.skip(i + 1), key@)));
        }
        i = i + 1;
    }
    assert(obj_remove(all.skip(n as int), key@) =~= Seq::<(Seq<char>, JsonValue)>::empty());
    assert(obj_view(kept@) + Seq::<(Seq<char>, JsonValue)>::empty() =~= obj_view(kept@));
    kept
}

// ----------------------------------------------------------------------------
// Metadata

/// Metadata as an object: an object as it is, null as empty, any other
/// value kept under `user_metadata`.
pub fn into_metadata_object(v: JsonValue) -> (r: Vec<(String, JsonValue)>)
    ensures
        match v {
            JsonValue::Object(o) => r@ == o@,
            JsonValue::Null => r@.len() == 0,
            _ => r@.len() == 1 && r@[0].0@ == "user_metadata"@ && r@[0].1 == v,
        },
{
    match v {
        JsonValue::Object(o) => o,
        JsonValue::Null => Vec::new(),
        other => {
            let mut r: Vec<(String, JsonValue)> = Vec::new();
            r.push((String::from_str("user_metadata"), other));
            r
        },
    }
}

/// Whether `metadata` holds every pair of `filter` as string members; an
/// empty filter matches anything, a non-object matches no other filter.
pub open spec fn metadata_matches_spec(metadata: JsonValue, filter: Map<Seq<char>, Seq<char>>) -> bool {
    if filter == Map::<Seq<char>, Seq<char>>::empty() {
        true
    } else {
        metadata is Object && forall|k: Seq<char>| #[trigger] filter.contains_key(k) ==> json_str(json_get(metadata, k)) == Some(filter[k])
    }
}

pub fn metadata_matches_filter(metadata: &JsonValue, filter: &StrMap<String>) -> (r: bool)
    requires
        filter.wf(),
    ensures
        r == metadata_matches_spec(*metadata, filter@.map_values(|s: String| s@)),
{
    let entries = filter.entries();
    let n = entries.len();
    let ghost fv = filter@.map_values(|s: String| s@);
    if n == 0 {
        proof {
            assert(filter@ =~= Map::<Seq<char>, String>::empty());
            assert(fv =~= Map::<Seq<char>, Seq<char>>::empty());
        }
        return true;
    }
    proof {
        crate::strmap::lemma_map_of_index(entries@, 0);
        assert(fv.contains_key(entries@[0].0@));
        assert(fv != Map::<Seq<char>, Seq<char>>::empty()) by {
            assert(!Map::<Seq<char>, Seq<char>>::empty().contains_key(entries@[0].0@));
        }
    }
    let is_object = match metadata {
        JsonValue::Object(_) => true,
        _ => false,
    };
    if !is_object {
        return false;
    }
    let mut i: usize = 0;
    while i < n
        invariant
            filter.wf(),
            n == entries@.len(),
            entries@ == filter.spec_entries(),
            i <= n,
            metadata is Object,
            fv == filter@.map_values(|s: String| s@),
            forall|j: int| 0 <= j < i ==> json_str(json_get(*metadata, (#[trigger] entries@[j]).0@)) == Some(entries@[j].1@),
        decreases n - i,
    {
        let ok = match metadata.get(entries[i].0.as_str()) {
            Some(v) => match v.as_str() {
                Some(actual) => str_equal(actual, entries[i].1.as_str()),
                None => false,
            },
            None => false,
        };
        if !ok {
            proof {
                crate::strmap::lemma_map_of_index(entries@, i as int);
                assert(fv.contains_key(entries@[i as int].0@));
            }
            return false;
        }
        i = i + 1;
    }
    proof {
        assert forall|k: Seq<char>| #[trigger] fv.contains_key(k) implies json_str(json_get(*metadata, k)) == Some(fv[k]) by {
            let j = crate::strmap::key_index(entries@, k);
            crate::strmap::lemma_map_of_index(entries@, j);
        }
    }
    true
}

} // verus!
