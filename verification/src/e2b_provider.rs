//! Decisions of the E2B provider: the settings a sandbox backend is built
//! with, the API key, the body of the create request, the encoding of ids in
//! request paths, the meaning of replies, and the back-off between attempts
//! to initialise the sandbox workspace.

use vstd::prelude::*;
use crate::backend_base::BackendError;
use crate::backend_path::{normalize_backend_path, normalize_outcome, OperationError};
use crate::e2b_backend::{
    opt_view, DEFAULT_API_BASE, DEFAULT_ENVD_PORT, DEFAULT_HOME_DIR, DEFAULT_SHELL, DEFAULT_TEMPLATE_ID,
    DEFAULT_TEMP_ROOT, DEFAULT_TIMEOUT_SECS, DEFAULT_WORKSPACE_ROOT,
};
use crate::json_value::JsonValue;
use crate::strmap::StrMap;
use crate::text::{chars_of, push_char, push_str, string_of, trim, trim_chars};
use vstd::string::StringSliceAdditionalSpecFns;

verus! {

/// Provider options of an E2B backend, as read from its configuration.
pub struct E2bProviderOptions {
    pub api_key: Option<String>,
    pub api_key_env: Option<String>,
    pub api_base: Option<String>,
    pub template_id: Option<String>,
    pub timeout_secs: Option<u64>,
    pub secure: Option<bool>,
    pub allow_internet_access: Option<bool>,
    pub auto_pause: Option<bool>,
    pub auto_resume: Option<bool>,
    pub envd_port: Option<u16>,
    pub envd_scheme: Option<String>,
    pub workspace_root: Option<String>,
    pub home_dir: Option<String>,
    pub temp_root: Option<String>,
    pub default_shell: Option<String>,
    pub username: Option<String>,
    pub metadata: Option<StrMap<String>>,
    pub env_vars: Option<StrMap<String>>,
    /// Passed through to the create request as they were configured.
    pub network: Option<JsonValue>,
    pub mcp: Option<JsonValue>,
    pub volume_mounts: Option<JsonValue>,
}

/// The value of an option when it is set and not blank.
pub open spec fn non_blank(o: Option<Seq<char>>) -> Option<Seq<char>> {
    match o {
        Some(v) => if trim(v).len() > 0 { Some(v) } else { None },
        None => None,
    }
}

/// The option's text when set and not blank, else `default`.
pub open spec fn or_default(o: Option<Seq<char>>, default: Seq<char>) -> Seq<char> {
    match non_blank(o) {
        Some(v) => v,
        None => default,
    }
}

fn non_blank_exec(o: &Option<String>) -> (r: Option<String>)
    ensures
        opt_view(r) == non_blank(opt_view(*o)),
{
    match o {
        Some(v) => {
            let chars = chars_of(v.as_str());
            if trim_chars(&chars).len() > 0 { Some(String::from_str(v.as_str())) } else { None }
        },
        None => None,
    }
}

fn or_default_exec(o: &Option<String>, default: &str) -> (r: String)
    ensures
        r@ == or_default(opt_view(*o), default@),
{
    match non_blank_exec(o) {
        Some(v) => v,
        None => String::from_str(default),
    }
}

/// Settings a sandbox backend is built with.
pub struct E2bBackendSettings {
    pub api_base: String,
    pub template_id: String,
    pub workspace_root: String,
    pub home_dir: Option<String>,
    pub temp_root: String,
    pub envd_port: u16,
    pub envd_scheme: String,
    pub default_shell: Option<String>,
    pub username: Option<String>,
}

/// A configured path normalised, or the invalid-request error for it.
pub open spec fn settings_path(p: Seq<char>) -> Result<Seq<char>, Seq<char>> {
    normalize_outcome(p)
}

fn backend_path(value: &str) -> (r: Result<String, BackendError>)
    ensures
        normalize_outcome(value@) matches Ok(q) ==> (r matches Ok(s) && s@ == q),
        normalize_outcome(value@) matches Err(m) ==> (r matches Err(BackendError::InvalidRequest { message }) && message@ == m),
{
    match normalize_backend_path(value) {
        Ok(p) => Ok(p),
        Err(OperationError::InvalidPath { message }) => Err(BackendError::InvalidRequest { message }),
        Err(_) => Err(BackendError::InvalidRequest { message: String::new() }),
    }
}

/// The first path setting that does not normalise, in the order workspace
/// root, home directory, temporary root; `None` when all do.
pub open spec fn first_path_fault(options: E2bProviderOptions) -> Option<Seq<char>> {
    let ws = normalize_outcome(or_default_plain(opt_view(options.workspace_root), DEFAULT_WORKSPACE_ROOT@));
    let home = match options.home_dir { Some(h) => normalize_outcome(h@), None => Ok(DEFAULT_HOME_DIR@) };
    let tmp = normalize_outcome(or_default_plain(opt_view(options.temp_root), DEFAULT_TEMP_ROOT@));
    if ws is Err { Some(ws->Err_0) } else if home is Err { Some(home->Err_0) } else if tmp is Err { Some(tmp->Err_0) } else { None }
}

/// The option's text when set (even if blank), else `default`.
pub open spec fn or_default_plain(o: Option<Seq<char>>, default: Seq<char>) -> Seq<char> {
    match o {
        Some(v) => v,
        None => default,
    }
}

/// Resolve the settings of a new sandbox backend from its options: the API
/// base and template fall back to the defaults when unset or blank, the
/// three paths are normalised (the home directory defaulting to
/// `/home/user`), the envd scheme defaults to `https`, the shell to
/// `/bin/sh`, and a blank user name counts as none.
pub fn resolve_e2b_settings(options: &E2bProviderOptions) -> (r: Result<E2bBackendSettings, BackendError>)
    ensures
        first_path_fault(*options) matches Some(m) ==> (r matches Err(BackendError::InvalidRequest { message }) && message@ == m),
        first_path_fault(*options) is None ==> (r matches Ok(s) && {
            &&& s.api_base@ == or_default(opt_view(options.api_base), DEFAULT_API_BASE@)
            &&& s.template_id@ == or_default(opt_view(options.template_id), DEFAULT_TEMPLATE_ID@)
            &&& Ok::<Seq<char>, Seq<char>>(s.workspace_root@) == normalize_outcome(or_default_plain(opt_view(options.workspace_root), DEFAULT_WORKSPACE_ROOT@))
            &&& s.home_dir is Some
            &&& Ok::<Seq<char>, Seq<char>>(s.home_dir.unwrap()@) == (match options.home_dir { Some(h) => normalize_outcome(h@), None => Ok(DEFAULT_HOME_DIR@) })
            &&& Ok::<Seq<char>, Seq<char>>(s.temp_root@) == normalize_outcome(or_default_plain(opt_view(options.temp_root), DEFAULT_TEMP_ROOT@))
            &&& s.envd_port == (match options.envd_port { Some(p) => p, None => DEFAULT_ENVD_PORT })
            &&& s.envd_scheme@ == or_default(opt_view(options.envd_scheme), "https"@)
            &&& opt_view(s.default_shell) == Some(or_default(opt_view(options.default_shell), DEFAULT_SHELL@))
            &&& opt_view(s.username) == non_blank(opt_view(options.username))
        }),
{
    let api_base = or_default_exec(&options.api_base, DEFAULT_API_BASE);
    let template_id = or_default_exec(&options.template_id, DEFAULT_TEMPLATE_ID);
    let workspace_text = match &options.workspace_root {
        Some(w) => w.as_str(),
        None => DEFAULT_WORKSPACE_ROOT,
    };
    let workspace_root = backend_path(workspace_text)?;
    let home_dir = match &options.home_dir {
        Some(h) => backend_path(h.as_str())?,
        None => String::from_str(DEFAULT_HOME_DIR),
    };
    let temp_text = match &options.temp_root {
        Some(t) => t.as_str(),
        None => DEFAULT_TEMP_ROOT,
    };
    let temp_root = backend_path(temp_text)?;
    let envd_port = match options.envd_port {
        Some(p) => p,
        None => DEFAULT_ENVD_PORT,
    };
    let envd_scheme = or_default_exec(&options.envd_scheme, "https");
    let default_shell = or_default_exec(&options.default_shell, DEFAULT_SHELL);
    let username = non_blank_exec(&options.username);
    proof {
        reveal_strlit("/home/user");
        assert(normalize_outcome(DEFAULT_HOME_DIR@) is Ok ==> true);
    }
    Ok(E2bBackendSettings {
        api_base,
        template_id,
        workspace_root,
        home_dir: Some(home_dir),
        temp_root,
        envd_port,
        envd_scheme,
        default_shell: Some(default_shell),
        username,
    })
}

// ----------------------------------------------------------------------------
// API key

/// The environment variable the API key is read from when none is given.
pub open spec fn api_key_env_name_spec(options: E2bProviderOptions) -> Seq<char> {
    or_default(opt_view(options.api_key_env), "E2B_API_KEY"@)
}

pub fn api_key_env_name(options: &E2bProviderOptions) -> (s: String)
    ensures
        s@ == api_key_env_name_spec(*options),
{
    or_default_exec(&options.api_key_env, "E2B_API_KEY")
}

/// The API key: the configured one when not blank, else the value of the
/// environment variable (`env_value`, read by the caller) when not blank;
/// otherwise an invalid-request error naming the variable.
pub fn choose_api_key(options: &E2bProviderOptions, env_value: Option<String>) -> (r: Result<String, BackendError>)
    ensures
        non_blank(opt_view(options.api_key)) matches Some(k) ==> (r matches Ok(s) && s@ == k),
        non_blank(opt_view(options.api_key)) is None ==> (non_blank(opt_view(env_value)) matches Some(k) ==> (r matches Ok(s) && s@ == k)),
        non_blank(opt_view(options.api_key)) is None && non_blank(opt_view(env_value)) is None ==> (r matches Err(BackendError::InvalidRequest { message })
            && message@ == "e2b backend requires api_key or non-empty env var "@ + api_key_env_name_spec(*options)),
{
    if let Some(key) = non_blank_exec(&options.api_key) {
        return Ok(key);
    }
    if let Some(key) = non_blank_exec(&env_value) {
        return Ok(key);
    }
    let name = api_key_env_name(options);
    let mut message = String::from_str("e2b backend requires api_key or non-empty env var ");
    push_str(&mut message, name.as_str());
    Err(BackendError::InvalidRequest { message })
}

// ----------------------------------------------------------------------------
// Create request

/// The sandbox timeout in seconds: the configured one, else the resource
/// limit's milliseconds in whole seconds, else one hour.
pub open spec fn sandbox_timeout_spec(timeout_secs: Option<u64>, limit_timeout_ms: Option<u64>) -> u64 {
    match timeout_secs {
        Some(t) => t,
        None => match limit_timeout_ms {
            Some(ms) => (ms / 1000) as u64,
            None => DEFAULT_TIMEOUT_SECS,
        },
    }
}

pub fn sandbox_timeout_secs(timeout_secs: Option<u64>, limit_timeout_ms: Option<u64>) -> (t: u64)
    ensures
        t == sandbox_timeout_spec(timeout_secs, limit_timeout_ms),
{
    match timeout_secs {
        Some(t) => t,
        None => match limit_timeout_ms {
            Some(ms) => ms / 1000,
            None => DEFAULT_TIMEOUT_SECS,
        },
    }
}

/// A map of strings by the texts of its values.
pub open spec fn values_view(m: Map<Seq<char>, String>) -> Map<Seq<char>, Seq<char>> {
    m.map_values(|v: String| v@)
}

/// Metadata sent with a new sandbox: the configured metadata, overridden by
/// the request's string-valued metadata, overridden by the backend id,
/// session id and host workspace under their `xiaoo_` keys.
pub open spec fn platform_metadata_spec(
    configured: Map<Seq<char>, Seq<char>>,
    requested: Map<Seq<char>, Seq<char>>,
    backend_id: Seq<char>,
    session_id: Seq<char>,
    host_workspace: Seq<char>,
) -> Map<Seq<char>, Seq<char>> {
    configured.union_prefer_right(requested)
        .insert("xiaoo_backend_id"@, backend_id)
        .insert("xiaoo_session_id"@, session_id)
        .insert("xiaoo_host_workspace"@, host_workspace)
}

pub fn platform_metadata(
    configured: Option<&StrMap<String>>,
    requested: &StrMap<String>,
    backend_id: &str,
    session_id: &str,
    host_workspace: &str,
) -> (m: StrMap<String>)
    requires
        configured matches Some(c) ==> c.wf(),
        requested.wf(),
    ensures
        m.wf(),
        values_view(m@) == platform_metadata_spec(
            match configured { Some(c) => values_view(c@), None => Map::empty() },
            values_view(requested@), backend_id@, session_id@, host_workspace@),
{
    let mut m: StrMap<String> = StrMap::new();
    if let Some(conf) = configured {
        copy_into(&mut m, conf);
    }
    let ghost c = values_view(m@);
    assert(c =~= match configured { Some(cc) => values_view(cc@), None => Map::<Seq<char>, Seq<char>>::empty() });
    copy_into(&mut m, requested);
    m.insert(String::from_str("xiaoo_backend_id"), String::from_str(backend_id));
    m.insert(String::from_str("xiaoo_session_id"), String::from_str(session_id));
    m.insert(String::from_str("xiaoo_host_workspace"), String::from_str(host_workspace));
    assert(values_view(m@) =~= platform_metadata_spec(c, values_view(requested@), backend_id@, session_id@, host_workspace@));
    m
}

/// Insert every entry of `src` into `dst`, overriding.
fn copy_into(dst: &mut StrMap<String>, src: &StrMap<String>)
    requires
        old(dst).wf(),
        src.wf(),
    ensures
        final(dst).wf(),
        values_view(final(dst)@) == values_view(old(dst)@).union_prefer_right(values_view(src@)),
{
    let entries = src.entries();
    let n = entries.len();
    let mut i: usize = 0;
    assert(src.spec_entries().take(0) =~= Seq::<(String, String)>::empty());
    assert(values_view(crate::strmap::map_of(Seq::<(String, String)>::empty())) =~= Map::<Seq<char>, Seq<char>>::empty());
    assert(values_view(old(dst)@).union_prefer_right(Map::<Seq<char>, Seq<char>>::empty()) =~= values_view(old(dst)@));
    while i < n
        invariant
            dst.wf(),
            src.wf(),
            n == entries@.len(),
            entries@ == src.spec_entries(),
            i <= n,
            values_view(dst@) == values_view(old(dst)@).union_prefer_right(values_view(crate::strmap::map_of(src.spec_entries().take(i as int)))),
        decreases n - i,
    {
        let key = String::from_str(entries[i].0.as_str());
        let value = String::from_str(entries[i].1.as_str());
        proof {
            crate::strmap::lemma_map_of_take_push(src.spec_entries(), i as int);
        }
        let ghost before = values_view(dst@);
        dst.insert(key, value);
        assert(values_view(dst@) =~= before.insert(key@, value@));
        assert(values_view(crate::strmap::map_of(src.spec_entries().take(i + 1)))
            =~= values_view(crate::strmap::map_of(src.spec_entries().take(i as int))).insert(key@, value@));
        assert(values_view(dst@) =~= values_view(old(dst)@).union_prefer_right(values_view(crate::strmap::map_of(src.spec_entries().take(i + 1)))));
        i = i + 1;
    }
    proof {
        assert(src.spec_entries().take(n as int) =~= src.spec_entries());
    }
}

// ----------------------------------------------------------------------------
// Request paths and replies

pub open spec fn is_unreserved(b: u8) -> bool {
    (65 <= b <= 90) || (97 <= b <= 122) || (48 <= b <= 57) || b == 45 || b == 46 || b == 95 || b == 126
}

pub open spec fn hex_digit(d: u8) -> char {
    if d < 10 { (48 + d) as char } else { (55 + d) as char }
}

/// The percent-encoding of one byte.
pub open spec fn encode_byte(b: u8) -> Seq<char> {
    if is_unreserved(b) { seq![b as char] } else { seq!['%', hex_digit(b / 16), hex_digit(b % 16)] }
}

/// `bytes` percent-encoded for use as one URL path segment: unreserved
/// bytes are kept, every other byte is `%` and two upper-case hex digits.
pub open spec fn encode_segment_spec(bytes: Seq<u8>) -> Seq<char>
    decreases bytes.len(),
{
    if bytes.len() == 0 { Seq::empty() } else { encode_segment_spec(bytes.drop_last()) + encode_byte(bytes.last()) }
}

fn hex_char(d: u8) -> (c: char)
    requires
        d < 16,
    ensures
        c == hex_digit(d),
{
    if d < 10 { (48 + d) as char } else { (55 + d) as char }
}

/// Percent-encode `value`'s UTF-8 bytes as one URL path segment.
pub fn encode_path_segment(value: &str) -> (s: String)
    ensures
        s@ == encode_segment_spec(value.spec_bytes()),
{
    let bytes = value.as_bytes();
    let n = bytes.len();
    let mut s = String::new();
    let mut i: usize = 0;
    assert(bytes@.take(0) =~= Seq::<u8>::empty());
    while i < n
        invariant
            n == bytes@.len(),
            i <= n,
            bytes@ == value.spec_bytes(),
            s@ == encode_segment_spec(bytes@.take(i as int)),
        decreases n - i,
    {
        let b = bytes[i];
        assert(bytes@.take(i + 1).drop_last() =~= bytes@.take(i as int));
        assert(bytes@.take(i + 1).last() == b);
        if (65 <= b && b <= 90) || (97 <= b && b <= 122) || (48 <= b && b <= 57) || b == 45 || b == 46 || b == 95 || b == 126 {
            push_char(&mut s, b as char);
        } else {
            push_char(&mut s, '%');
            push_char(&mut s, hex_char(b / 16));
            push_char(&mut s, hex_char(b % 16));
        }
        assert(s@ =~= encode_segment_spec(bytes@.take(i + 1)));
        i = i + 1;
    }
    assert(bytes@.take(n as int) =~= bytes@);
    s
}

/// An id used in a request path, trimmed; a blank id is an invalid request
/// (`e2b <what> id cannot be empty`).
pub fn required_id(id: &str, what: &str) -> (r: Result<String, BackendError>)
    ensures
        trim(id@).len() > 0 ==> (r matches Ok(s) && s@ == trim(id@)),
        trim(id@).len() == 0 ==> (r matches Err(BackendError::InvalidRequest { message })
            && message@ == "e2b "@ + what@ + " id cannot be empty"@),
{
    let chars = chars_of(id);
    let trimmed = trim_chars(&chars);
    if trimmed.len() == 0 {
        let mut message = String::from_str("e2b ");
        push_str(&mut message, what);
        push_str(&mut message, " id cannot be empty");
        return Err(BackendError::InvalidRequest { message });
    }
    Ok(string_of(trimmed.as_slice()))
}

/// What a reply to deleting a snapshot template means: 204 deleted, 404
/// already gone, anything else a failure.
pub fn snapshot_delete_outcome(status: u16) -> (r: Option<bool>)
    ensures
        status == 204 ==> r == Some(true),
        status == 404 ==> r == Some(false),
        status != 204 && status != 404 ==> r is None,
{
    if status == 204 {
        Some(true)
    } else if status == 404 {
        Some(false)
    } else {
        None
    }
}

/// The build failure for an unexpected provider reply:
/// `e2b <what> failed with HTTP <status line>: <message>`.
pub fn provider_http_failure(what: &str, status_line: &str, message: &str) -> (e: BackendError)
    ensures
        e matches BackendError::BuildFailed { message: m } && m@ == "e2b "@ + what@ + " failed with HTTP "@ + status_line@ + ": "@ + message@,
{
    let mut m = String::from_str("e2b ");
    push_str(&mut m, what);
    push_str(&mut m, " failed with HTTP ");
    push_str(&mut m, status_line);
    push_str(&mut m, ": ");
    push_str(&mut m, message);
    BackendError::BuildFailed { message: m }
}

// ----------------------------------------------------------------------------
// Workspace initialisation

pub const WORKSPACE_INIT_MAX_ATTEMPTS: usize = 6;
pub const WORKSPACE_INIT_BASE_DELAY_MS: u64 = 200;
pub const WORKSPACE_INIT_MAX_DELAY_MS: u64 = 2_000;

/// The undisturbed delay before retry number `attempt` (from 1): 200 ms
/// doubling per attempt, at most 2 s.
pub open spec fn backoff_base(attempt: nat) -> nat
    decreases attempt,
{
    if attempt <= 1 {
        200
    } else {
        let b = 2 * backoff_base((attempt - 1) as nat);
        if b > 2000 { 2000 } else { b }
    }
}

/// A random `u64` from `rand::random`. Nothing is claimed of its value.
#[verifier::external_body]
fn random_u64() -> (r: u64) {
    rand::random::<u64>()
}

fn backoff_base_exec(attempt: usize) -> (b: u64)
    ensures
        b == backoff_base(attempt as nat),
        200 <= b <= 2000,
{
    let mut b: u64 = 200;
    let mut k: usize = 1;
    assert(backoff_base(1) == 200);
    while k < attempt
        invariant
            1 <= k,
            k <= attempt || attempt <= 1,
            attempt <= 1 ==> k == 1,
            b == backoff_base(k as nat),
            200 <= b <= 2000,
        decreases attempt - k,
    {
        b = if 2 * b > 2000 { 2000 } else { 2 * b };
        k = k + 1;
    }
    proof {
        if attempt <= 1 {
            assert(backoff_base(attempt as nat) == 200);
        } else {
            assert(k == attempt);
        }
    }
    b
}

/// The delay before retry number `attempt` given a random draw: the base
/// delay, moved by at most a fifth of it either way.
pub fn workspace_init_backoff_with(attempt: usize, draw: u64) -> (delay_ms: u64)
    ensures
        ({
            let base = backoff_base(attempt as nat);
            let spread = base / 5;
            &&& delay_ms == base - spread + ((draw as nat) % (2 * spread + 1))
            &&& base - spread <= delay_ms <= base + spread
        }),
{
    let base = backoff_base_exec(attempt);
    let spread = base / 5;
    let jitter = if spread == 0 { 0 } else { draw % (spread * 2 + 1) };
    base - spread + jitter
}

/// The delay before retry number `attempt`, with fresh jitter; whatever the
/// draw, it lies within a fifth of the base delay.
pub fn workspace_init_backoff(attempt: usize) -> (delay_ms: u64)
    ensures
        ({
            let base = backoff_base(attempt as nat);
            base - base / 5 <= delay_ms <= base + base / 5
        }),
{
    let draw = random_u64();
    workspace_init_backoff_with(attempt, draw)
}

/// What to do after attempt number `attempt` (from 1) failed.
pub enum WorkspaceInitStep {
    /// Sleep this many milliseconds, then try again.
    Retry(u64),
    /// Report the failure.
    GiveUp,
}

/// A failed attempt is retried while it is retryable and attempts remain.
pub fn workspace_init_after_failure(attempt: usize, retryable: bool) -> (step: WorkspaceInitStep)
    ensures
        (retryable && attempt < WORKSPACE_INIT_MAX_ATTEMPTS) <==> step is Retry,
        step matches WorkspaceInitStep::Retry(d) ==> backoff_base(attempt as nat) - backoff_base(attempt as nat) / 5 <= d
            <= backoff_base(attempt as nat) + backoff_base(attempt as nat) / 5,
{
    if retryable && attempt < WORKSPACE_INIT_MAX_ATTEMPTS {
        WorkspaceInitStep::Retry(workspace_init_backoff(attempt))
    } else {
        WorkspaceInitStep::GiveUp
    }
}

} // verus!
