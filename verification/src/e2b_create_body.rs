//! The JSON body of the request that creates an E2B sandbox.

use vstd::prelude::*;
use crate::e2b_provider::{values_view, E2bProviderOptions};
use crate::json_value::JsonValue;
use crate::strmap::{has_key, keys_unique, lemma_map_of_index, StrMap};
use crate::text::{decimal, push_decimal};

verus! {

/// Whether `v` is an object of strings holding exactly `m`, each key once.
pub open spec fn is_string_object(v: JsonValue, m: Map<Seq<char>, Seq<char>>) -> bool {
    &&& v matches JsonValue::Object(e)
    &&& keys_unique(e@)
    &&& forall|i: int| 0 <= i < e@.len() ==> ((#[trigger] e@[i]).1 matches JsonValue::Str(s)
        && m.contains_key(e@[i].0@) && m[e@[i].0@] == s@)
    &&& forall|k: Seq<char>| #[trigger] m.contains_key(k) ==> has_key(e@, k)
}

/// Whether `v` is the object `{ key: b }`.
pub open spec fn is_flag_object(v: JsonValue, key: Seq<char>, b: bool) -> bool {
    v matches JsonValue::Object(e) && e@.len() == 1 && e@[0].0@ == key && e@[0].1 == JsonValue::Bool(b)
}

/// Whether the configured environment variables are sent: set and not empty.
pub open spec fn sends_env_vars(options: E2bProviderOptions) -> bool {
    options.env_vars matches Some(m) && m@ != Map::<Seq<char>, String>::empty()
}

/// The members a create request can carry.
pub enum CreateBodyKey {
    TemplateId,
    Timeout,
    Secure,
    AllowInternetAccess,
    AutoPause,
    AutoResume,
    Metadata,
    EnvVars,
    Network,
    Mcp,
    VolumeMounts,
}

/// The name of a member in the request.
pub open spec fn create_body_key_text(k: CreateBodyKey) -> Seq<char> {
    match k {
        CreateBodyKey::TemplateId => "templateID"@,
        CreateBodyKey::Timeout => "timeout"@,
        CreateBodyKey::Secure => "secure"@,
        CreateBodyKey::AllowInternetAccess => "allow_internet_access"@,
        CreateBodyKey::AutoPause => "autoPause"@,
        CreateBodyKey::AutoResume => "autoResume"@,
        CreateBodyKey::Metadata => "metadata"@,
        CreateBodyKey::EnvVars => "envVars"@,
        CreateBodyKey::Network => "network"@,
        CreateBodyKey::Mcp => "mcp"@,
        CreateBodyKey::VolumeMounts => "volumeMounts"@,
    }
}

/// `s` with `k` added at the end when `present`.
pub open spec fn push_if(s: Seq<CreateBodyKey>, present: bool, k: CreateBodyKey) -> Seq<CreateBodyKey> {
    if present { s.push(k) } else { s }
}

/// The members of the create request, in order: template, timeout and
/// `secure` always; each optional flag when configured; the metadata when
/// not empty; the environment when configured and not empty; then the
/// network, MCP and volume settings when configured.
pub open spec fn create_body_keys(options: E2bProviderOptions, metadata: Map<Seq<char>, String>) -> Seq<CreateBodyKey> {
    let k0 = seq![CreateBodyKey::TemplateId, CreateBodyKey::Timeout, CreateBodyKey::Secure];
    let k1 = push_if(k0, options.allow_internet_access is Some, CreateBodyKey::AllowInternetAccess);
    let k2 = push_if(k1, options.auto_pause is Some, CreateBodyKey::AutoPause);
    let k3 = push_if(k2, options.auto_resume is Some, CreateBodyKey::AutoResume);
    let k4 = push_if(k3, metadata != Map::<Seq<char>, String>::empty(), CreateBodyKey::Metadata);
    let k5 = push_if(k4, sends_env_vars(options), CreateBodyKey::EnvVars);
    let k6 = push_if(k5, options.network is Some, CreateBodyKey::Network);
    let k7 = push_if(k6, options.mcp is Some, CreateBodyKey::Mcp);
    push_if(k7, options.volume_mounts is Some, CreateBodyKey::VolumeMounts)
}

/// What the member `k` of the create request holds: the template id; the
/// timeout in seconds; `secure`, true unless configured; the configured
/// flags, `autoResume` as `{"enabled": ..}`; the metadata and environment
/// as objects of strings; the network, MCP and volume settings as given.
pub open spec fn create_body_member(
    k: CreateBodyKey,
    v: JsonValue,
    template_id: Seq<char>,
    timeout_secs: u64,
    options: E2bProviderOptions,
    metadata: Map<Seq<char>, String>,
) -> bool {
    match k {
        CreateBodyKey::TemplateId => v matches JsonValue::Str(s) && s@ == template_id,
        CreateBodyKey::Timeout => v matches JsonValue::Number(n) && n@ == decimal(timeout_secs as nat),
        CreateBodyKey::Secure => v == JsonValue::Bool(match options.secure { Some(b) => b, None => true }),
        CreateBodyKey::AllowInternetAccess => v is Bool && options.allow_internet_access == Some(v->Bool_0),
        CreateBodyKey::AutoPause => v is Bool && options.auto_pause == Some(v->Bool_0),
        CreateBodyKey::AutoResume => options.auto_resume matches Some(b) && is_flag_object(v, "enabled"@, b),
        CreateBodyKey::Metadata => is_string_object(v, values_view(metadata)),
        CreateBodyKey::EnvVars => options.env_vars matches Some(m) && is_string_object(v, values_view(m@)),
        CreateBodyKey::Network => options.network == Some(v),
        CreateBodyKey::Mcp => options.mcp == Some(v),
        CreateBodyKey::VolumeMounts => options.volume_mounts == Some(v),
    }
}

/// Whether the members `e` carry the keys `ks`, each with its value.
#[verifier::opaque]
pub open spec fn members_ok(
    e: Seq<(String, JsonValue)>,
    ks: Seq<CreateBodyKey>,
    template_id: Seq<char>,
    timeout_secs: u64,
    options: E2bProviderOptions,
    metadata: Map<Seq<char>, String>,
) -> bool {
    &&& e.len() == ks.len()
    &&& forall|i: int| 0 <= i < e.len() ==> (#[trigger] e[i]).0@ == create_body_key_text(ks[i])
        && create_body_member(ks[i], e[i].1, template_id, timeout_secs, options, metadata)
}

proof fn lemma_members_push(
    e: Seq<(String, JsonValue)>,
    ks: Seq<CreateBodyKey>,
    tag: CreateBodyKey,
    key: String,
    v: JsonValue,
    template_id: Seq<char>,
    timeout_secs: u64,
    options: E2bProviderOptions,
    metadata: Map<Seq<char>, String>,
)
    requires
        members_ok(e, ks, template_id, timeout_secs, options, metadata),
        key@ == create_body_key_text(tag),
        create_body_member(tag, v, template_id, timeout_secs, options, metadata),
    ensures
        members_ok(e.push((key, v)), ks.push(tag), template_id, timeout_secs, options, metadata),
{
    reveal(members_ok);
    let e2 = e.push((key, v));
    let ks2 = ks.push(tag);
    assert forall|i: int| 0 <= i < e2.len() implies (#[trigger] e2[i]).0@ == create_body_key_text(ks2[i])
        && create_body_member(ks2[i], e2[i].1, template_id, timeout_secs, options, metadata) by {
        if i < e.len() {
            assert(e2[i] == e[i]);
        }
    }
}

/// The object of strings holding the map `m`, in its entries' order.
pub fn string_object(m: &StrMap<String>) -> (v: JsonValue)
    requires
        m.wf(),
    ensures
        is_string_object(v, values_view(m@)),
{
    let src = m.entries();
    let n = src.len();
    let mut e: Vec<(String, JsonValue)> = Vec::new();
    let mut i: usize = 0;
    while i < n
        invariant
            n == src@.len(),
            src@ == m.spec_entries(),
            i <= n,
            e@.len() == i,
            forall|j: int| 0 <= j < i ==> (#[trigger] e@[j]).0@ == src@[j].0@
                && (e@[j].1 matches JsonValue::Str(s) && s@ == src@[j].1@),
        decreases n - i,
    {
        let key = String::from_str(src[i].0.as_str());
        let value = String::from_str(src[i].1.as_str());
        e.push((key, JsonValue::Str(value)));
        i = i + 1;
    }
    let ghost mv = values_view(m@);
    proof {
        assert forall|a: int, b: int| 0 <= a < e@.len() && 0 <= b < e@.len() && a != b
            implies #[trigger] e@[a].0@ != #[trigger] e@[b].0@ by {
            assert(src@[a].0@ != src@[b].0@);
        }
        assert forall|j: int| 0 <= j < e@.len() implies ((#[trigger] e@[j]).1 matches JsonValue::Str(s)
            && mv.contains_key(e@[j].0@) && mv[e@[j].0@] == s@) by {
            lemma_map_of_index(src@, j);
        }
        assert forall|k: Seq<char>| #[trigger] mv.contains_key(k) implies has_key(e@, k) by {
            let j = choose|j: int| 0 <= j < src@.len() && #[trigger] src@[j].0@ == k;
            assert(e@[j].0@ == k);
        }
    }
    JsonValue::Object(e)
}

/// The body of the request that creates a sandbox from `template_id`, to
/// live `timeout_secs`, configured by `options`, labelled with `metadata`.
#[verifier::rlimit(80)]
pub fn sandbox_create_body(template_id: &str, timeout_secs: u64, options: E2bProviderOptions, metadata: &StrMap<String>) -> (b: JsonValue)
    requires
        metadata.wf(),
        options.env_vars matches Some(m) ==> m.wf(),
    ensures
        b matches JsonValue::Object(e) && members_ok(e@, create_body_keys(options, metadata@),
            template_id@, timeout_secs, options, metadata@),
{
    let ghost opts = options;
    let ghost meta = metadata@;
    let ghost tid = template_id@;
    let mut e: Vec<(String, JsonValue)> = Vec::new();
    let ghost mut ks: Seq<CreateBodyKey> = Seq::empty();
    assert(members_ok(e@, ks, tid, timeout_secs, opts, meta)) by {
        reveal(members_ok);
    }

    let key = String::from_str("templateID");
    let v = JsonValue::Str(String::from_str(template_id));
    proof {
        lemma_members_push(e@, ks, CreateBodyKey::TemplateId, key, v, tid, timeout_secs, opts, meta);
        ks = ks.push(CreateBodyKey::TemplateId);
    }
    e.push((key, v));

    let mut text = String::new();
    push_decimal(&mut text, timeout_secs);
    assert(text@ =~= decimal(timeout_secs as nat));
    let key = String::from_str("timeout");
    let v = JsonValue::Number(text);
    proof {
        lemma_members_push(e@, ks, CreateBodyKey::Timeout, key, v, tid, timeout_secs, opts, meta);
        ks = ks.push(CreateBodyKey::Timeout);
    }
    e.push((key, v));

    let secure = match options.secure { Some(b) => b, None => true };
    let key = String::from_str("secure");
    let v = JsonValue::Bool(secure);
    proof {
        lemma_members_push(e@, ks, CreateBodyKey::Secure, key, v, tid, timeout_secs, opts, meta);
        ks = ks.push(CreateBodyKey::Secure);
    }
    e.push((key, v));

    if let Some(b) = options.allow_internet_access {
        let key = String::from_str("allow_internet_access");
        let v = JsonValue::Bool(b);
        proof { lemma_members_push(e@, ks, CreateBodyKey::AllowInternetAccess, key, v, tid, timeout_secs, opts, meta); }
        e.push((key, v));
    }
    proof { ks = push_if(ks, opts.allow_internet_access is Some, CreateBodyKey::AllowInternetAccess); }

    if let Some(b) = options.auto_pause {
        let key = String::from_str("autoPause");
        let v = JsonValue::Bool(b);
        proof { lemma_members_push(e@, ks, CreateBodyKey::AutoPause, key, v, tid, timeout_secs, opts, meta); }
        e.push((key, v));
    }
    proof { ks = push_if(ks, opts.auto_pause is Some, CreateBodyKey::AutoPause); }

    if let Some(b) = options.auto_resume {
        let mut flag: Vec<(String, JsonValue)> = Vec::new();
        flag.push((String::from_str("enabled"), JsonValue::Bool(b)));
        let key = String::from_str("autoResume");
        let v = JsonValue::Object(flag);
        proof { lemma_members_push(e@, ks, CreateBodyKey::AutoResume, key, v, tid, timeout_secs, opts, meta); }
        e.push((key, v));
    }
    proof { ks = push_if(ks, opts.auto_resume is Some, CreateBodyKey::AutoResume); }

    if !metadata.is_empty() {
        let key = String::from_str("metadata");
        let v = string_object(metadata);
        proof { lemma_members_push(e@, ks, CreateBodyKey::Metadata, key, v, tid, timeout_secs, opts, meta); }
        e.push((key, v));
    }
    proof { ks = push_if(ks, meta != Map::<Seq<char>, String>::empty(), CreateBodyKey::Metadata); }

    match &options.env_vars {
        Some(m) => {
            if !m.is_empty() {
                let key = String::from_str("envVars");
                let v = string_object(m);
                proof { lemma_members_push(e@, ks, CreateBodyKey::EnvVars, key, v, tid, timeout_secs, opts, meta); }
                e.push((key, v));
            }
        },
        None => {},
    }
    proof { ks = push_if(ks, sends_env_vars(opts), CreateBodyKey::EnvVars); }

    if let Some(n) = options.network {
        let key = String::from_str("network");
        proof { lemma_members_push(e@, ks, CreateBodyKey::Network, key, n, tid, timeout_secs, opts, meta); }
        e.push((key, n));
    }
    proof { ks = push_if(ks, opts.network is Some, CreateBodyKey::Network); }

    if let Some(n) = options.mcp {
        let key = String::from_str("mcp");
        proof { lemma_members_push(e@, ks, CreateBodyKey::Mcp, key, n, tid, timeout_secs, opts, meta); }
        e.push((key, n));
    }
    proof { ks = push_if(ks, opts.mcp is Some, CreateBodyKey::Mcp); }

    if let Some(n) = options.volume_mounts {
        let key = String::from_str("volumeMounts");
        proof { lemma_members_push(e@, ks, CreateBodyKey::VolumeMounts, key, n, tid, timeout_secs, opts, meta); }
        e.push((key, n));
    }
    proof { ks = push_if(ks, opts.volume_mounts is Some, CreateBodyKey::VolumeMounts); }

    assert(ks == create_body_keys(opts, meta));
    JsonValue::Object(e)
}

} // verus!
