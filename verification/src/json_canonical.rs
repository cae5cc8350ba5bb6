//! The canonical form of a JSON value: every object's members sorted by key
//! at every depth, the last of several members with one key kept. Equal
//! configurations written in another member order have one canonical form,
//! which is what backend configurations are hashed by.

use vstd::prelude::*;
use crate::json_value::JsonValue;
use crate::str_order::{lemma_str_lt_irreflexive, lemma_str_lt_total, lemma_str_lt_transitive, sorted_strictly, str_less, str_lt};
use crate::strmap::{has_key, keys_unique};

verus! {

/// The keys of object members, in order.
pub open spec fn member_keys(f: Seq<(String, JsonValue)>) -> Seq<Seq<char>> {
    f.map_values(|p: (String, JsonValue)| p.0@)
}

/// The position of the last member with key `key` among the first `upto`
/// of `e`; -1 when there is none.
pub open spec fn last_index_of(e: Seq<(String, JsonValue)>, key: Seq<char>, upto: int) -> int
    decreases upto,
{
    if upto <= 0 {
        -1
    } else if e[upto - 1].0@ == key {
        upto - 1
    } else {
        last_index_of(e, key, upto - 1)
    }
}

/// Whether `r` is the canonical form of `v`: scalars as they are, arrays
/// element by element, objects with their keys strictly increasing, each
/// key of `v` once, holding the canonical form of the last member with that
/// key in `v`.
pub open spec fn is_canonical_of(v: JsonValue, r: JsonValue) -> bool
    decreases v,
{
    match v {
        JsonValue::Null => r is Null,
        JsonValue::Bool(b) => r == JsonValue::Bool(b),
        JsonValue::Number(n) => r matches JsonValue::Number(m) && m@ == n@,
        JsonValue::Str(s) => r matches JsonValue::Str(t) && t@ == s@,
        JsonValue::Array(a) => r matches JsonValue::Array(b) && b@.len() == a@.len()
            && forall|i: int| 0 <= i < a@.len() ==> is_canonical_of(#[trigger] a@[i], b@[i]),
        JsonValue::Object(e) => r matches JsonValue::Object(f)
            && sorted_strictly(member_keys(f@))
            && (forall|j: int| 0 <= j < f@.len() ==> {
                let k = last_index_of(e@, (#[trigger] f@[j]).0@, e@.len() as int);
                0 <= k < e@.len() && is_canonical_of(e@[k].1, f@[j].1)
            })
            && (forall|i: int| 0 <= i < e@.len() ==> last_index_of(f@, (#[trigger] e@[i]).0@, f@.len() as int) >= 0),
    }
}

/// Whether each member of `f` holds the canonical form of the last member
/// with its key among the first `upto` of `e`.
pub open spec fn placed_from(e: Seq<(String, JsonValue)>, f: Seq<(String, JsonValue)>, upto: int) -> bool {
    forall|j: int| 0 <= j < f.len() ==> {
        let k = last_index_of(e, (#[trigger] f[j]).0@, upto);
        0 <= k < upto && is_canonical_of(e[k].1, f[j].1)
    }
}

/// Keys that are strictly increasing are distinct.
proof fn lemma_sorted_distinct(ks: Seq<Seq<char>>, a: int, b: int)
    requires
        sorted_strictly(ks),
        0 <= a < ks.len(),
        0 <= b < ks.len(),
        a != b,
    ensures
        ks[a] != ks[b],
{
    if a < b {
        assert(str_lt(ks[a], ks[b]));
    } else {
        assert(str_lt(ks[b], ks[a]));
    }
    lemma_str_lt_irreflexive(ks[a]);
}

/// Sets `value` under `key` in the members `f`, kept in strictly increasing
/// key order: in place of the member with that key, else inserted where
/// the order puts it.
fn place_member(f: &mut Vec<(String, JsonValue)>, key: String, value: JsonValue)
    requires
        sorted_strictly(member_keys(old(f)@)),
    ensures
        sorted_strictly(member_keys(final(f)@)),
        has_key(old(f)@, key@) ==> exists|j: int| 0 <= j < old(f)@.len() && (#[trigger] old(f)@[j]).0@ == key@
            && final(f)@ == old(f)@.update(j, (old(f)@[j].0, value)),
        !has_key(old(f)@, key@) ==> exists|p: int| 0 <= p <= old(f)@.len()
            && final(f)@ == #[trigger] old(f)@.insert(p, (key, value)),
{
    let n = f.len();
    let mut j: usize = 0;
    while j < n && str_less(f[j].0.as_str(), key.as_str())
        invariant
            n == f@.len(),
            f@ == old(f)@,
            j <= n,
            forall|k: int| 0 <= k < j ==> str_lt(#[trigger] f@[k].0@, key@),
        decreases n - j,
    {
        j = j + 1;
    }
    let ghost before = f@;
    let ghost keys = member_keys(before);
    assert(forall|k: int| 0 <= k < before.len() ==> #[trigger] keys[k] == before[k].0@);
    if j < n && crate::strmap::str_equal(f[j].0.as_str(), key.as_str()) {
        let (old_key, _old_value) = f.remove(j);
        f.insert(j, (old_key, value));
        proof {
            assert(f@ =~= before.update(j as int, (before[j as int].0, value)));
            assert(member_keys(f@) =~= keys);
            assert(before[j as int].0@ == key@);
        }
    } else {
        proof {
            // every member at or after `j` has a key above `key`
            if j < n {
                lemma_str_lt_total(before[j as int].0@, key@);
                assert(str_lt(key@, before[j as int].0@));
            }
            assert forall|k: int| 0 <= k < before.len() implies #[trigger] before[k].0@ != key@ by {
                if k < j {
                    lemma_str_lt_irreflexive(key@);
                } else {
                    assert(str_lt(key@, before[j as int].0@));
                    if k > j {
                        assert(str_lt(keys[j as int], keys[k]));
                        lemma_str_lt_transitive(key@, before[j as int].0@, before[k].0@);
                    }
                    lemma_str_lt_irreflexive(key@);
                }
            }
            assert(!has_key(before, key@));
        }
        let ghost kv = key@;
        let ghost pair = (key, value);
        f.insert(j, (key, value));
        proof {
            let after = member_keys(f@);
            assert(after =~= keys.insert(j as int, kv));
            assert forall|a: int, b: int| 0 <= a < b < after.len() implies str_lt(#[trigger] after[a], #[trigger] after[b]) by {
                if b < j {
                } else if b == j {
                } else if a < j {
                    assert(after[b] == keys[b - 1]);
                    assert(str_lt(kv, keys[j as int]));
                    if b - 1 > j {
                        lemma_str_lt_transitive(kv, keys[j as int], keys[b - 1]);
                    }
                    lemma_str_lt_transitive(after[a], kv, after[b]);
                } else if a == j {
                    assert(str_lt(kv, keys[j as int]));
                    if b - 1 > j {
                        lemma_str_lt_transitive(kv, keys[j as int], keys[b - 1]);
                    }
                } else {
                    assert(after[a] == keys[a - 1] && after[b] == keys[b - 1]);
                }
            }
            assert(f@ == before.insert(j as int, pair));
        }
    }
}

/// The canonical form of `v`.
pub fn canonical_json(v: &JsonValue) -> (r: JsonValue)
    ensures
        is_canonical_of(*v, r),
    decreases v,
{
    match v {
        JsonValue::Null => JsonValue::Null,
        JsonValue::Bool(b) => JsonValue::Bool(*b),
        JsonValue::Number(n) => JsonValue::Number(String::from_str(n.as_str())),
        JsonValue::Str(t) => JsonValue::Str(String::from_str(t.as_str())),
        JsonValue::Array(a) => {
            let mut b: Vec<JsonValue> = Vec::new();
            let n = a.len();
            let mut i: usize = 0;
            while i < n
                invariant
                    *v == JsonValue::Array(*a),
                    n == a@.len(),
                    i <= n,
                    b@.len() == i,
                    forall|j: int| 0 <= j < i ==> is_canonical_of(#[trigger] a@[j], b@[j]),
                decreases n - i,
            {
                proof {
                    assert(decreases_to!(*v => v->Array_0));
                    assert(decreases_to!(v->Array_0 => v->Array_0@));
                    assert(decreases_to!(v->Array_0@ => v->Array_0@[i as int]));
                }
                let c = canonical_json(&a[i]);
                b.push(c);
                i = i + 1;
            }
            JsonValue::Array(b)
        },
        JsonValue::Object(e) => {
            let mut f: Vec<(String, JsonValue)> = Vec::new();
            let n = e.len();
            let mut i: usize = 0;
            while i < n
                invariant
                    *v == JsonValue::Object(*e),
                    n == e@.len(),
                    i <= n,
                    sorted_strictly(member_keys(f@)),
                    placed_from(e@, f@, i as int),
                    forall|k: int| 0 <= k < i ==> has_key(f@, (#[trigger] e@[k]).0@),
                decreases n - i,
            {
                proof {
                    assert(decreases_to!(*v => v->Object_0));
                    assert(decreases_to!(v->Object_0 => v->Object_0@));
                    assert(decreases_to!(v->Object_0@ => v->Object_0@[i as int]));
                    assert(decreases_to!(v->Object_0@[i as int] => v->Object_0@[i as int].1));
                }

                let c = canonical_json(&e[i].1);
                let key = String::from_str(e[i].0.as_str());
                let ghost before = f@;
                let ghost ks = key;
                let ghost cv = c;

                place_member(&mut f, key, c);
                proof {
                    lemma_place_keeps(e@, before, f@, i as int, ks, cv);
                }
                i = i + 1;
            }
            proof {
                assert forall|k: int| 0 <= k < e@.len() implies last_index_of(f@, (#[trigger] e@[k]).0@, f@.len() as int) >= 0 by {
                    lemma_last_index(f@, e@[k].0@, f@.len() as int);
                    assert(has_key(f@, e@[k].0@));
                }
            }
            JsonValue::Object(f)
        },
    }
}

/// The object loop's invariant survives placing member `i` of `e`.
proof fn lemma_place_keeps(
    e: Seq<(String, JsonValue)>,
    before: Seq<(String, JsonValue)>,
    after: Seq<(String, JsonValue)>,
    i: int,
    key_s: String,
    c: JsonValue,
)
    requires
        0 <= i < e.len(),
        e[i].0@ == key_s@,
        is_canonical_of(e[i].1, c),
        sorted_strictly(member_keys(before)),
        sorted_strictly(member_keys(after)),
        placed_from(e, before, i),
        forall|k: int| 0 <= k < i ==> has_key(before, (#[trigger] e[k]).0@),
        has_key(before, key_s@) ==> exists|j: int| 0 <= j < before.len() && (#[trigger] before[j]).0@ == key_s@
            && after == before.update(j, (before[j].0, c)),
        !has_key(before, key_s@) ==> exists|p: int| 0 <= p <= before.len()
            && after == #[trigger] before.insert(p, (key_s, c)),
    ensures
        placed_from(e, after, i + 1),
        forall|k: int| 0 <= k < i + 1 ==> has_key(after, (#[trigger] e[k]).0@),
{
    let key = key_s@;
    let bk = member_keys(before);
    assert(forall|j: int| 0 <= j < before.len() ==> #[trigger] bk[j] == before[j].0@);
    // a member of `before` other than `key` keeps the member it came from
    assert forall|j: int| 0 <= j < before.len() && before[j].0@ != key implies ({
        let k = last_index_of(e, (#[trigger] before[j]).0@, i + 1);
        0 <= k < i + 1 && is_canonical_of(e[k].1, before[j].1)
    }) by {
        assert(last_index_of(e, before[j].0@, i + 1) == last_index_of(e, before[j].0@, i));
    }
    assert(last_index_of(e, key, i + 1) == i);
    if has_key(before, key) {
        let j0 = choose|j: int| 0 <= j < before.len() && (#[trigger] before[j]).0@ == key && after == before.update(j, (before[j].0, c));
        assert forall|j: int| 0 <= j < after.len() implies ({
            let k = last_index_of(e, (#[trigger] after[j]).0@, i + 1);
            0 <= k < i + 1 && is_canonical_of(e[k].1, after[j].1)
        }) by {
            if j != j0 {
                lemma_sorted_distinct(bk, j, j0);
                assert(after[j] == before[j]);
            }
        }
        assert forall|k: int| 0 <= k < i + 1 implies has_key(after, (#[trigger] e[k]).0@) by {
            if k == i {
                assert(after[j0].0@ == key);
            } else {
                let j = choose|j: int| 0 <= j < before.len() && #[trigger] before[j].0@ == e[k].0@;
                assert(after[j].0@ == before[j].0@);
            }
        }
    } else {
        let p = choose|p: int| 0 <= p <= before.len() && after == #[trigger] before.insert(p, (key_s, c));
        assert forall|j: int| 0 <= j < after.len() implies ({
            let k = last_index_of(e, (#[trigger] after[j]).0@, i + 1);
            0 <= k < i + 1 && is_canonical_of(e[k].1, after[j].1)
        }) by {
            if j < p {
                assert(after[j] == before[j]);
                assert(before[j].0@ != key);
            } else if j > p {
                assert(after[j] == before[j - 1]);
                assert(before[j - 1].0@ != key);
            }
        }
        assert forall|k: int| 0 <= k < i + 1 implies has_key(after, (#[trigger] e[k]).0@) by {
            if k == i {
                assert(after[p].0@ == key);
            } else {
                let j = choose|j: int| 0 <= j < before.len() && #[trigger] before[j].0@ == e[k].0@;
                if j < p {
                    assert(after[j] == before[j]);
                } else {
                    assert(after[j + 1] == before[j]);
                }
            }
        }
    }
}

proof fn lemma_last_index(e: Seq<(String, JsonValue)>, key: Seq<char>, upto: int)
    requires
        0 <= upto <= e.len(),
    ensures
        -1 <= last_index_of(e, key, upto) < upto,
        last_index_of(e, key, upto) >= 0 ==> e[last_index_of(e, key, upto)].0@ == key,
        last_index_of(e, key, upto) == -1 ==> forall|j: int| 0 <= j < upto ==> (#[trigger] e[j]).0@ != key,
        forall|j: int| last_index_of(e, key, upto) < j < upto ==> (#[trigger] e[j]).0@ != key,
    decreases upto,
{
    if upto > 0 && e[upto - 1].0@ != key {
        lemma_last_index(e, key, upto - 1);
    }
}

/// Whether `e2` holds the members of `e1` and no others, in any order.
pub open spec fn same_members(e1: Seq<(String, JsonValue)>, e2: Seq<(String, JsonValue)>) -> bool {
    &&& forall|i: int| #![trigger e1[i]] 0 <= i < e1.len() ==> exists|j: int| #![trigger e2[j]] 0 <= j < e2.len() && e2[j] == e1[i]
    &&& forall|j: int| #![trigger e2[j]] 0 <= j < e2.len() ==> exists|i: int| #![trigger e1[i]] 0 <= i < e1.len() && e1[i] == e2[j]
}

/// Two objects holding the same members, each key once, in whatever order,
/// have the same canonical forms: the order in which a configuration lists
/// its options does not change what it is hashed by.
pub proof fn law_canonical_form_ignores_member_order(e1: Vec<(String, JsonValue)>, e2: Vec<(String, JsonValue)>, r: JsonValue)
    requires
        keys_unique(e1@),
        keys_unique(e2@),
        same_members(e1@, e2@),
        is_canonical_of(JsonValue::Object(e1), r),
    ensures
        is_canonical_of(JsonValue::Object(e2), r),
{
    let f = r->Object_0;
    assert(r == JsonValue::Object(f));
    assert forall|j: int| 0 <= j < f@.len() implies ({
        let k = last_index_of(e2@, (#[trigger] f@[j]).0@, e2@.len() as int);
        0 <= k < e2@.len() && is_canonical_of(e2@[k].1, f@[j].1)
    }) by {
        let key = f@[j].0@;
        let k1 = last_index_of(e1@, key, e1@.len() as int);
        lemma_last_index(e1@, key, e1@.len() as int);
        let j2 = choose|j2: int| 0 <= j2 < e2@.len() && #[trigger] e2@[j2] == e1@[k1];
        assert(e2@[j2] == e1@[k1]);
        lemma_last_index(e2@, key, e2@.len() as int);
        let k2 = last_index_of(e2@, key, e2@.len() as int);
        assert(e2@[j2].0@ == key);
        if k2 != j2 {
            if k2 == -1 {
                assert(e2@[j2].0@ != key);
            } else {
                assert(e2@[k2].0@ != e2@[j2].0@);
            }
        }
    }
    assert forall|i: int| 0 <= i < e2@.len() implies last_index_of(f@, (#[trigger] e2@[i]).0@, f@.len() as int) >= 0 by {
        let i1 = choose|i1: int| 0 <= i1 < e1@.len() && #[trigger] e1@[i1] == e2@[i];
        assert(e1@[i1] == e2@[i]);
    }
}

/// What `std::collections::hash_map::DefaultHasher::new()` finishes with
/// after hashing `kind` and then `text`, both as `str`. Hashers made by
/// `new` use one fixed algorithm and keys, so this is a function of the two
/// texts.
pub uninterp spec fn default_hash_of(kind: Seq<char>, text: Seq<char>) -> u64;

/// `DefaultHasher::new()`, `Hash::hash` of `kind` then of `text`, then
/// `finish`. Claimed: the result is `default_hash_of` the two texts.
#[verifier::external_body]
fn default_hash_pair(kind: &str, text: &str) -> (h: u64)
    ensures
        h == default_hash_of(kind@, text@),
{
    let mut hasher = std::collections::hash_map::DefaultHasher::new();
    std::hash::Hash::hash(kind, &mut hasher);
    std::hash::Hash::hash(text, &mut hasher);
    std::hash::Hasher::finish(&hasher)
}

/// The hash that tells backend configurations apart: of their kind and the
/// JSON text of their canonical options. Configurations with the same kind
/// and canonical text hash alike.
pub fn config_hash(kind: &str, canonical_options_text: &str) -> (h: u64)
    ensures
        h == default_hash_of(kind@, canonical_options_text@),
{
    default_hash_pair(kind, canonical_options_text)
}

} // verus!
