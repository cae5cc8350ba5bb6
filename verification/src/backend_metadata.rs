//! Metadata and provider options of backends as JSON objects: the metadata
//! of a checked-out backend and of a new sandbox, provider options with their
//! secrets removed or with a fork's overrides, and the memories read out of a
//! recall reply.

use vstd::prelude::*;
use crate::json_value::{
    json_get, json_str, lemma_get_after_insert, lemma_get_after_remove, obj_get, obj_insert, obj_remove, obj_view,
    object_insert, object_remove, JsonValue,
};
use crate::memory_render::RecallMemory;

verus! {

/// The member `k` of metadata taken as an object: an object's own member,
/// nothing for null, and any other value under `user_metadata`.
pub open spec fn metadata_get(v: JsonValue, k: Seq<char>) -> Option<JsonValue> {
    match v {
        JsonValue::Object(e) => obj_get(obj_view(e@), k),
        JsonValue::Null => None,
        _ => if k == "user_metadata"@ { Some(v) } else { None },
    }
}

/// Metadata as the members of an object.
pub fn into_metadata_object(v: JsonValue) -> (r: Vec<(String, JsonValue)>)
    ensures
        forall|k: Seq<char>| #[trigger] obj_get(obj_view(r@), k) == metadata_get(v, k),
{
    match v {
        JsonValue::Object(o) => o,
        JsonValue::Null => {
            let r: Vec<(String, JsonValue)> = Vec::new();
            assert(obj_view(r@) =~= Seq::<(Seq<char>, JsonValue)>::empty());
            r
        },
        other => {
            let ghost ov = other;
            let mut r: Vec<(String, JsonValue)> = Vec::new();
            r.push((String::from_str("user_metadata"), other));
            proof {
                reveal_with_fuel(obj_get, 2);
                assert(obj_view(r@) =~= seq![("user_metadata"@, ov)]);
                assert(seq![("user_metadata"@, ov)].drop_first().len() == 0);
            }
            r
        },
    }
}

/// Set member `key` to the string `value`, leaving every other member.
fn insert_str(entries: &mut Vec<(String, JsonValue)>, key: &str, value: &str)
    ensures
        json_str(obj_get(obj_view(final(entries)@), key@)) == Some(value@),
        forall|k: Seq<char>| k != key@ ==> #[trigger] obj_get(obj_view(final(entries)@), k) == obj_get(obj_view(old(entries)@), k),
{
    let ghost before = obj_view(entries@);
    let v = JsonValue::Str(String::from_str(value));
    let ghost vv = v;
    object_insert(entries, String::from_str(key), v);
    proof {
        lemma_get_after_insert(before, key@, vv, key@);
        assert forall|k: Seq<char>| k != key@ implies #[trigger] obj_get(obj_view(entries@), k) == obj_get(before, k) by {
            lemma_get_after_insert(before, key@, vv, k);
        }
    }
}

/// Set member `key` to `value`, leaving every other member.
fn insert_value(entries: &mut Vec<(String, JsonValue)>, key: &str, value: JsonValue)
    ensures
        obj_view(final(entries)@) == obj_insert(obj_view(old(entries)@), key@, value),
        obj_get(obj_view(final(entries)@), key@) == Some(value),
        forall|k: Seq<char>| k != key@ ==> #[trigger] obj_get(obj_view(final(entries)@), k) == obj_get(obj_view(old(entries)@), k),
{
    let ghost before = obj_view(entries@);
    object_insert(entries, String::from_str(key), value);
    proof {
        lemma_get_after_insert(before, key@, value, key@);
        assert forall|k: Seq<char>| k != key@ implies #[trigger] obj_get(obj_view(entries@), k) == obj_get(before, k) by {
            lemma_get_after_insert(before, key@, value, k);
        }
    }
}

/// Remove member `key`, leaving every other member.
fn remove_member(entries: Vec<(String, JsonValue)>, key: &str) -> (r: Vec<(String, JsonValue)>)
    ensures
        obj_view(r@) == obj_remove(obj_view(entries@), key@),
        obj_get(obj_view(r@), key@) is None,
        forall|k: Seq<char>| k != key@ ==> #[trigger] obj_get(obj_view(r@), k) == obj_get(obj_view(entries@), k),
{
    let ghost before = obj_view(entries@);
    let r = object_remove(entries, key);
    proof {
        lemma_get_after_remove(before, key@, key@);
        assert forall|k: Seq<char>| k != key@ implies #[trigger] obj_get(obj_view(r@), k) == obj_get(before, k) by {
            lemma_get_after_remove(before, key@, k);
        }
    }
    r
}

/// The text set under `k` in a checked-out backend's metadata, if `k` is one
/// of the keys the checkout sets.
pub open spec fn checkout_member_text(checkpoint_id: Seq<char>, snapshot_id: Option<Seq<char>>, source_backend_id: Option<Seq<char>>,
    child_backend_id: Seq<char>, k: Seq<char>) -> Option<Seq<char>> {
    if k == "xiaoo_checkout_child_backend_id"@ {
        Some(child_backend_id)
    } else if k == "xiaoo_checkpoint_source_backend_id"@ && source_backend_id is Some {
        source_backend_id
    } else if k == "xiaoo_provider_snapshot_id"@ && snapshot_id is Some {
        snapshot_id
    } else if k == "xiaoo_checkpoint_id"@ {
        Some(checkpoint_id)
    } else {
        None
    }
}

pub open spec fn opt_str(o: Option<&str>) -> Option<Seq<char>> {
    match o {
        Some(s) => Some(s@),
        None => None,
    }
}

/// The metadata of a backend checked out from a checkpoint: the request's
/// metadata with the checkpoint id, the provider snapshot id and source
/// backend (when known), and the child backend id.
pub fn checkout_metadata(metadata: JsonValue, checkpoint_id: &str, provider_snapshot_id: Option<&str>,
    source_backend_id: Option<&str>, child_backend_id: &str) -> (r: JsonValue)
    ensures
        r is Object,
        forall|k: Seq<char>| #![trigger json_get(r, k)]
            checkout_member_text(checkpoint_id@, opt_str(provider_snapshot_id), opt_str(source_backend_id), child_backend_id@, k)
                matches Some(t) ==> json_str(json_get(r, k)) == Some(t),
        forall|k: Seq<char>| #![trigger json_get(r, k)]
            checkout_member_text(checkpoint_id@, opt_str(provider_snapshot_id), opt_str(source_backend_id), child_backend_id@, k)
                is None ==> json_get(r, k) == metadata_get(metadata, k),
{
    proof {
        reveal_strlit("xiaoo_checkout_child_backend_id");
        reveal_strlit("xiaoo_checkpoint_source_backend_id");
        reveal_strlit("xiaoo_provider_snapshot_id");
        reveal_strlit("xiaoo_checkpoint_id");
    }
    let ghost m = metadata;
    let mut object = into_metadata_object(metadata);
    let ghost o0 = obj_view(object@);
    insert_str(&mut object, "xiaoo_checkpoint_id", checkpoint_id);
    let ghost o1 = obj_view(object@);
    if let Some(snapshot_id) = provider_snapshot_id {
        insert_str(&mut object, "xiaoo_provider_snapshot_id", snapshot_id);
    }
    let ghost o2 = obj_view(object@);
    if let Some(source) = source_backend_id {
        insert_str(&mut object, "xiaoo_checkpoint_source_backend_id", source);
    }
    let ghost o3 = obj_view(object@);
    insert_str(&mut object, "xiaoo_checkout_child_backend_id", child_backend_id);
    let ghost o4 = obj_view(object@);
    let r = JsonValue::Object(object);
    proof {
        assert forall|k: Seq<char>| #![trigger json_get(r, k)]
            checkout_member_text(checkpoint_id@, opt_str(provider_snapshot_id), opt_str(source_backend_id), child_backend_id@, k)
                is None implies json_get(r, k) == metadata_get(m, k) by {
            assert(obj_get(o4, k) == obj_get(o3, k));
            assert(obj_get(o3, k) == obj_get(o2, k));
            assert(obj_get(o2, k) == obj_get(o1, k));
            assert(obj_get(o1, k) == obj_get(o0, k));
        }
        assert forall|k: Seq<char>| #![trigger json_get(r, k)]
            checkout_member_text(checkpoint_id@, opt_str(provider_snapshot_id), opt_str(source_backend_id), child_backend_id@, k)
                is Some implies json_str(json_get(r, k)) == checkout_member_text(checkpoint_id@, opt_str(provider_snapshot_id),
                    opt_str(source_backend_id), child_backend_id@, k) by {
            if k == "xiaoo_checkout_child_backend_id"@ {
            } else if k == "xiaoo_checkpoint_source_backend_id"@ && source_backend_id is Some {
                assert(obj_get(o4, k) == obj_get(o3, k));
            } else if k == "xiaoo_provider_snapshot_id"@ && provider_snapshot_id is Some {
                assert(obj_get(o4, k) == obj_get(o3, k));
                assert(obj_get(o3, k) == obj_get(o2, k));
            } else {
                assert(obj_get(o4, k) == obj_get(o3, k));
                assert(obj_get(o3, k) == obj_get(o2, k));
                assert(obj_get(o2, k) == obj_get(o1, k));
            }
        }
    }
    r
}

/// Whether `red` is `options` with its secrets removed: no `api_key`,
/// `env_vars` or `envVars`; `api_key_configured: true` when a key was set;
/// every other member as in `options` (a non-object counts as empty).
pub open spec fn is_redaction_of(red: JsonValue, options: JsonValue, api_key_configured: bool) -> bool {
    &&& red is Object
    &&& forall|k: Seq<char>| #![trigger json_get(red, k)]
        (k == "api_key"@ || k == "env_vars"@ || k == "envVars"@) ==> json_get(red, k) is None
    &&& api_key_configured ==> json_get(red, "api_key_configured"@) == Some(JsonValue::Bool(true))
    &&& forall|k: Seq<char>| #![trigger json_get(red, k)]
        (k != "api_key"@ && k != "env_vars"@ && k != "envVars"@ && !(api_key_configured && k == "api_key_configured"@))
            ==> json_get(red, k) == json_get(options, k)
}

/// The members of an object; none for another value.
pub open spec fn object_members(v: JsonValue) -> Seq<(Seq<char>, JsonValue)> {
    match v {
        JsonValue::Object(e) => obj_view(e@),
        _ => Seq::empty(),
    }
}

/// The members of redacted options: those of `o` without any `api_key`,
/// `env_vars` or `envVars` member, in order, then `api_key_configured: true`
/// when a key was configured.
pub open spec fn redacted_members(o: Seq<(Seq<char>, JsonValue)>, api_key_configured: bool) -> Seq<(Seq<char>, JsonValue)> {
    let kept = obj_remove(obj_remove(obj_remove(o, "api_key"@), "env_vars"@), "envVars"@);
    if api_key_configured { obj_insert(kept, "api_key_configured"@, JsonValue::Bool(true)) } else { kept }
}

/// Provider options as stored in a backend's metadata, without secrets.
pub fn redacted_provider_options(provider_options: JsonValue, api_key_configured: bool) -> (r: JsonValue)
    ensures
        is_redaction_of(r, provider_options, api_key_configured),
        r matches JsonValue::Object(e) && obj_view(e@) == redacted_members(object_members(provider_options), api_key_configured),
{
    let ghost p = provider_options;
    let object = match provider_options {
        JsonValue::Object(o) => o,
        _ => Vec::new(),
    };
    let ghost o0 = obj_view(object@);
    assert(forall|k: Seq<char>| #[trigger] obj_get(o0, k) == json_get(p, k)) by {
        if !(p is Object) {
            assert(o0 =~= Seq::<(Seq<char>, JsonValue)>::empty());
        }
    }
    let object = remove_member(object, "api_key");
    let object = remove_member(object, "env_vars");
    let mut object = remove_member(object, "envVars");
    let ghost o3 = obj_view(object@);
    if api_key_configured {
        insert_value(&mut object, "api_key_configured", JsonValue::Bool(true));
    }
    let ghost o4 = obj_view(object@);
    let r = JsonValue::Object(object);
    proof {
        reveal_strlit("api_key");
        reveal_strlit("env_vars");
        reveal_strlit("envVars");
        reveal_strlit("api_key_configured");
        assert("api_key"@.len() == 7 && "env_vars"@.len() == 8 && "envVars"@.len() == 7 && "api_key_configured"@.len() == 18);
        assert forall|k: Seq<char>| #![trigger json_get(r, k)]
            (k == "api_key"@ || k == "env_vars"@ || k == "envVars"@) implies json_get(r, k) is None by {
            assert(obj_get(o4, k) == obj_get(o3, k));
        }
    }
    r
}

/// The last member of `entries` named `key`.
pub open spec fn obj_get_last(entries: Seq<(Seq<char>, JsonValue)>, key: Seq<char>) -> Option<JsonValue>
    decreases entries.len(),
{
    if entries.len() == 0 {
        None
    } else if entries.last().0 == key {
        Some(entries.last().1)
    } else {
        obj_get_last(entries.drop_last(), key)
    }
}

/// The member `k` of a fork's options: the last override of `k` when the
/// overrides are an object holding one, else the parent's member.
pub open spec fn forked_member(parent: JsonValue, overrides: Option<JsonValue>, k: Seq<char>) -> Option<JsonValue> {
    match overrides {
        Some(JsonValue::Object(e)) => match obj_get_last(obj_view(e@), k) {
            Some(v) => Some(v),
            None => json_get(parent, k),
        },
        _ => json_get(parent, k),
    }
}

/// The provider options of a fork: the parent's options, overridden member
/// by member, with the template set to the fork's snapshot.
pub fn forked_provider_options(parent_options: JsonValue, override_options: Option<JsonValue>, snapshot_id: &str) -> (r: JsonValue)
    ensures
        r is Object,
        json_str(json_get(r, "template_id"@)) == Some(snapshot_id@),
        forall|k: Seq<char>| #![trigger json_get(r, k)] k != "template_id"@ ==> json_get(r, k) == forked_member(parent_options, override_options, k),
{
    let ghost p = parent_options;
    let ghost ov = override_options;
    let mut object = match parent_options {
        JsonValue::Object(o) => o,
        _ => Vec::new(),
    };
    assert(forall|k: Seq<char>| #[trigger] obj_get(obj_view(object@), k) == json_get(p, k)) by {
        if !(p is Object) {
            assert(obj_view(object@) =~= Seq::<(Seq<char>, JsonValue)>::empty());
        }
    }
    match override_options {
        Some(JsonValue::Object(overrides)) => {
            let ghost all = obj_view(overrides@);
            let mut rest = overrides;
            let n = rest.len();
            let mut i: usize = 0;
            assert(obj_view(rest@) =~= all.skip(0));
            while i < n
                invariant
                    n == all.len(),
                    i <= n,
                    rest@.len() == n - i,
                    obj_view(rest@) == all.skip(i as int),
                    forall|k: Seq<char>| #[trigger] obj_get(obj_view(object@), k) == (match obj_get_last(all.take(i as int), k) {
                        Some(v) => Some(v),
                        None => json_get(p, k),
                    }),
                decreases n - i,
            {
                let ghost before = rest@;
                let ghost obj_before = obj_view(object@);
                let (key, value) = rest.remove(0);
                proof {
                    assert(obj_view(before)[0] == (before[0].0@, before[0].1));
                    assert(all.skip(i as int)[0] == all[i as int]);
                    assert((key@, value) == all[i as int]);
                    assert(rest@ =~= before.drop_first());
                    assert(obj_view(rest@) =~= obj_view(before).drop_first());
                    assert(all.skip(i as int).drop_first() =~= all.skip(i + 1));
                    assert(all.take(i + 1).drop_last() =~= all.take(i as int));
                    assert(all.take(i + 1).last() == all[i as int]);
                }
                let ghost kv = key@;
                let ghost vv = value;
                object_insert(&mut object, key, value);
                proof {
                    assert forall|k: Seq<char>| #[trigger] obj_get(obj_view(object@), k) == (match obj_get_last(all.take(i + 1), k) {
                        Some(v) => Some(v),
                        None => json_get(p, k),
                    }) by {
                        lemma_get_after_insert(obj_before, kv, vv, k);
                        assert(obj_get(obj_before, k) == (match obj_get_last(all.take(i as int), k) {
                            Some(v) => Some(v),
                            None => json_get(p, k),
                        }));
                    }
                }
                i = i + 1;
            }
            assert(all.take(n as int) =~= all);
        },
        _ => {},
    }
    let ghost o1 = obj_view(object@);
    insert_str(&mut object, "template_id", snapshot_id);
    JsonValue::Object(object)
}

/// The metadata of a new sandbox backend: the request's metadata with the
/// provider, sandbox and template ids, whether a traffic token was issued,
/// and the provider options without secrets.
pub fn metadata_for_instance(metadata: JsonValue, provider_options: JsonValue, sandbox_id: &str, template_id: &str,
    traffic_token_present: bool, api_key_configured: bool) -> (r: JsonValue)
    ensures
        r is Object,
        json_str(json_get(r, "provider"@)) == Some("e2b"@),
        json_str(json_get(r, "sandbox_id"@)) == Some(sandbox_id@),
        json_str(json_get(r, "template_id"@)) == Some(template_id@),
        traffic_token_present ==> json_get(r, "traffic_access_token_present"@) == Some(JsonValue::Bool(true)),
        json_get(r, "provider_options"@) matches Some(red) && is_redaction_of(red, provider_options, api_key_configured),
        forall|k: Seq<char>| #![trigger json_get(r, k)]
            (k != "provider"@ && k != "sandbox_id"@ && k != "template_id"@ && k != "provider_options"@
                && !(traffic_token_present && k == "traffic_access_token_present"@)) ==> json_get(r, k) == metadata_get(metadata, k),
{
    proof {
        reveal_strlit("provider");
        reveal_strlit("sandbox_id");
        reveal_strlit("template_id");
        reveal_strlit("provider_options");
        reveal_strlit("traffic_access_token_present");
        assert("provider"@.len() == 8 && "sandbox_id"@.len() == 10 && "template_id"@.len() == 11
            && "provider_options"@.len() == 16 && "traffic_access_token_present"@.len() == 28);
        assert("provider"@ != "sandbox_id"@ && "provider"@ != "template_id"@ && "sandbox_id"@ != "template_id"@);
    }
    let ghost m = metadata;
    let mut object = into_metadata_object(metadata);
    let ghost o0 = obj_view(object@);
    insert_str(&mut object, "provider", "e2b");
    let ghost o1 = obj_view(object@);
    insert_str(&mut object, "sandbox_id", sandbox_id);
    let ghost o2 = obj_view(object@);
    insert_str(&mut object, "template_id", template_id);
    let ghost o3 = obj_view(object@);
    if traffic_token_present {
        insert_value(&mut object, "traffic_access_token_present", JsonValue::Bool(true));
    }
    let ghost o4 = obj_view(object@);
    let red = redacted_provider_options(provider_options, api_key_configured);
    let ghost rv = red;
    insert_value(&mut object, "provider_options", red);
    let ghost o5 = obj_view(object@);
    let r = JsonValue::Object(object);
    proof {
        assert(obj_get(o5, "template_id"@) == obj_get(o4, "template_id"@));
        assert(obj_get(o4, "template_id"@) == obj_get(o3, "template_id"@));
        assert(obj_get(o5, "sandbox_id"@) == obj_get(o4, "sandbox_id"@));
        assert(obj_get(o4, "sandbox_id"@) == obj_get(o3, "sandbox_id"@));
        assert(obj_get(o3, "sandbox_id"@) == obj_get(o2, "sandbox_id"@));
        assert(obj_get(o5, "provider"@) == obj_get(o4, "provider"@));
        assert(obj_get(o4, "provider"@) == obj_get(o3, "provider"@));
        assert(obj_get(o3, "provider"@) == obj_get(o2, "provider"@));
        assert(obj_get(o2, "provider"@) == obj_get(o1, "provider"@));
        if traffic_token_present {
            assert(obj_get(o5, "traffic_access_token_present"@) == obj_get(o4, "traffic_access_token_present"@));
        }
        assert forall|k: Seq<char>| #![trigger json_get(r, k)]
            (k != "provider"@ && k != "sandbox_id"@ && k != "template_id"@ && k != "provider_options"@
                && !(traffic_token_present && k == "traffic_access_token_present"@)) implies json_get(r, k) == metadata_get(m, k) by {
            assert(obj_get(o5, k) == obj_get(o4, k));
            assert(obj_get(o4, k) == obj_get(o3, k));
            assert(obj_get(o3, k) == obj_get(o2, k));
            assert(obj_get(o2, k) == obj_get(o1, k));
            assert(obj_get(o1, k) == obj_get(o0, k));
        }
    }
    r
}

// ----------------------------------------------------------------------------
// Recalled memories

/// Where a recall reply keeps its memories: under `memories`, else under
/// `results`, else the reply itself when it is an array.
pub open spec fn memories_holder(v: JsonValue) -> Option<JsonValue> {
    match json_get(v, "memories"@) {
        Some(x) => Some(x),
        None => match json_get(v, "results"@) {
            Some(x) => Some(x),
            None => if v is Array { Some(v) } else { None },
        },
    }
}

/// One recalled memory: it needs a string `id` and a string `text` (or,
/// without `text`, `memory`); its `source` is kept when it is a string.
pub open spec fn memory_of(item: JsonValue) -> Option<(Seq<char>, Seq<char>, Option<Seq<char>>)> {
    let id = json_str(json_get(item, "id"@));
    let text = json_str(match json_get(item, "text"@) {
        Some(t) => Some(t),
        None => json_get(item, "memory"@),
    });
    if id is Some && text is Some {
        Some((id.unwrap(), text.unwrap(), json_str(json_get(item, "source"@))))
    } else {
        None
    }
}

/// The memories of the items that are well formed, in order.
pub open spec fn memories_of(items: Seq<JsonValue>) -> Seq<(Seq<char>, Seq<char>, Option<Seq<char>>)>
    decreases items.len(),
{
    if items.len() == 0 {
        Seq::empty()
    } else {
        let rest = memories_of(items.drop_last());
        match memory_of(items.last()) {
            Some(m) => rest.push(m),
            None => rest,
        }
    }
}

/// The memories of a recall reply, if it holds an array of them.
pub open spec fn parse_memories_spec(value: Option<JsonValue>) -> Option<Seq<(Seq<char>, Seq<char>, Option<Seq<char>>)>> {
    match value {
        None => None,
        Some(v) => match memories_holder(v) {
            Some(JsonValue::Array(items)) => Some(memories_of(items@)),
            _ => None,
        },
    }
}

pub open spec fn recall_view(m: RecallMemory) -> (Seq<char>, Seq<char>, Option<Seq<char>>) {
    (m.id@, m.text@, match m.source { Some(s) => Some(s@), None => None })
}

fn memory_from(item: &JsonValue) -> (r: Option<RecallMemory>)
    ensures
        match r {
            Some(m) => memory_of(*item) == Some(recall_view(m)),
            None => memory_of(*item) is None,
        },
{
    let id = match item.get("id") {
        Some(v) => match v.as_str() {
            Some(s) => s,
            None => return None,
        },
        None => return None,
    };
    let text_value = match item.get("text") {
        Some(t) => t,
        None => match item.get("memory") {
            Some(m) => m,
            None => return None,
        },
    };
    let text = match text_value.as_str() {
        Some(s) => s,
        None => return None,
    };
    let source = match item.get("source") {
        Some(v) => match v.as_str() {
            Some(s) => Some(String::from_str(s)),
            None => None,
        },
        None => None,
    };
    Some(RecallMemory { id: String::from_str(id), text: String::from_str(text), source })
}

/// Read the memories out of a recall tool's structured reply.
pub fn parse_memories(value: Option<&JsonValue>) -> (r: Option<Vec<RecallMemory>>)
    ensures
        match r {
            Some(v) => parse_memories_spec(match value { Some(x) => Some(*x), None => None })
                == Some(v@.map_values(|m: RecallMemory| recall_view(m))),
            None => parse_memories_spec(match value { Some(x) => Some(*x), None => None }) is None,
        },
{
    let value = match value {
        Some(v) => v,
        None => return None,
    };
    let holder = match value.get("memories") {
        Some(x) => x,
        None => match value.get("results") {
            Some(x) => x,
            None => match value {
                JsonValue::Array(_) => value,
                _ => return None,
            },
        },
    };
    let items = match holder {
        JsonValue::Array(items) => items,
        _ => return None,
    };
    let n = items.len();
    let mut out: Vec<RecallMemory> = Vec::new();
    let mut i: usize = 0;
    assert(items@.take(0) =~= Seq::<JsonValue>::empty());
    while i < n
        invariant
            n == items@.len(),
            i <= n,
            out@.map_values(|m: RecallMemory| recall_view(m)) == memories_of(items@.take(i as int)),
        decreases n - i,
    {
        proof {
            assert(items@.take(i + 1).drop_last() =~= items@.take(i as int));
            assert(items@.take(i + 1).last() == items@[i as int]);
        }
        match memory_from(&items[i]) {
            Some(m) => {
                let ghost mv = recall_view(m);
                let ghost before = out@;
                out.push(m);
                assert(out@.map_values(|m: RecallMemory| recall_view(m))
                    =~= before.map_values(|m: RecallMemory| recall_view(m)).push(mv));
            },
            None => {},
        }
        i = i + 1;
    }
    assert(items@.take(n as int) =~= items@);
    Some(out)
}

} // verus!
