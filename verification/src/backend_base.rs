//! Vocabulary of the managed-backend layer: limits, requests, lineage, and
//! the backend error with its conversions to and from the errors of backend
//! builders and of the sandbox counter and registry.

use vstd::prelude::*;
use crate::sandbox_counter::{counter_error_text, SandboxCounterError};
use crate::strmap::StrMap;
use crate::text::{chars_of, push_str, trim, trim_chars};
use crate::strmap::str_equal;

verus! {

/// A backend whose owner heartbeat is older than this is presumed orphaned.
pub const STALE_OWNER_THRESHOLD_MS: u64 = 30_000;

#[derive(Debug, Clone, Copy)]
pub struct BackendManagerLimits {
    pub checkpoint_before_eviction: bool,
    pub max_eviction_attempts: usize,
    /// `None`: read the limit from the sandbox configuration file.
    pub max_active_sandboxes_per_key: Option<usize>,
}

impl Default for BackendManagerLimits {
    fn default() -> (l: Self)
        ensures
            l.checkpoint_before_eviction && l.max_eviction_attempts == 5 && l.max_active_sandboxes_per_key is None,
    {
        BackendManagerLimits { checkpoint_before_eviction: true, max_eviction_attempts: 5, max_active_sandboxes_per_key: None }
    }
}

#[derive(Debug, Clone)]
pub struct BackendConnectRequest {
    pub timeout: Option<u64>,
    pub session_id: Option<String>,
}

impl Default for BackendConnectRequest {
    fn default() -> (r: Self)
        ensures
            r.timeout is None && r.session_id is None,
    {
        BackendConnectRequest { timeout: None, session_id: None }
    }
}

/// Backends are listed when their metadata holds every pair of the filter.
pub struct BackendListFilter {
    pub metadata: StrMap<String>,
}

impl Default for BackendListFilter {
    fn default() -> (f: Self)
        ensures
            f.metadata.wf(),
            f.metadata@ == Map::<Seq<char>, String>::empty(),
    {
        BackendListFilter { metadata: StrMap::new() }
    }
}

#[derive(Debug, Clone)]
pub struct BackendLineageInfo {
    pub parent_backend_id: Option<String>,
    pub children_backend_ids: Vec<String>,
    pub forked_from_snapshot_id: Option<String>,
    pub forked_snapshot_names: Vec<String>,
    pub forked_at_ms: Option<u64>,
}

impl Default for BackendLineageInfo {
    fn default() -> (l: Self)
        ensures
            l.parent_backend_id is None && l.children_backend_ids@.len() == 0 && l.forked_from_snapshot_id is None
                && l.forked_snapshot_names@.len() == 0 && l.forked_at_ms is None,
    {
        BackendLineageInfo {
            parent_backend_id: None,
            children_backend_ids: Vec::new(),
            forked_from_snapshot_id: None,
            forked_snapshot_names: Vec::new(),
            forked_at_ms: None,
        }
    }
}

#[derive(Debug, Clone)]
pub struct BackendCheckpointSnapshotDeleteResult {
    pub checkpoint_id: String,
    pub provider: String,
    pub provider_snapshot_id: Option<String>,
    pub provider_snapshot_names: Vec<String>,
    pub deleted: bool,
}

/// Why a managed-backend operation failed.
#[derive(Debug)]
pub enum BackendError {
    InvalidRequest { message: String },
    Conflict { message: String },
    NotFound { backend_id: String },
    UnsupportedBackend { kind: String },
    ResourceLimitExceeded { message: String },
    NeedsEviction,
    BuildFailed { message: String },
    Operation { message: String },
}

/// Why a backend builder failed.
#[derive(Debug)]
pub enum BackendBuildError {
    InvalidConfig { message: String },
    UnsupportedBackend { kind: String },
    ResourceLimitExceeded { message: String },
    Unsupported { message: String },
    BuildFailed { message: String },
}

/// The text of a backend error, as displayed to users.
pub open spec fn backend_error_text(e: BackendError) -> Seq<char> {
    match e {
        BackendError::InvalidRequest { message } => "invalid managed backend request: "@ + message@,
        BackendError::Conflict { message } => "managed backend conflict: "@ + message@,
        BackendError::NotFound { backend_id } => "managed backend not found: "@ + backend_id@,
        BackendError::UnsupportedBackend { kind } => "unsupported backend kind: "@ + kind@,
        BackendError::ResourceLimitExceeded { message } => "managed backend resource limit exceeded: "@ + message@,
        BackendError::NeedsEviction => "managed backend needs eviction before creation"@,
        BackendError::BuildFailed { message } => "managed backend build failed: "@ + message@,
        BackendError::Operation { message } => "managed backend operation failed: "@ + message@,
    }
}

/// A backend error as plain values: the variant's position and its text field.
pub open spec fn backend_error_view(e: BackendError) -> (int, Seq<char>) {
    match e {
        BackendError::InvalidRequest { message } => (0, message@),
        BackendError::Conflict { message } => (1, message@),
        BackendError::NotFound { backend_id } => (2, backend_id@),
        BackendError::UnsupportedBackend { kind } => (3, kind@),
        BackendError::ResourceLimitExceeded { message } => (4, message@),
        BackendError::NeedsEviction => (5, Seq::empty()),
        BackendError::BuildFailed { message } => (6, message@),
        BackendError::Operation { message } => (7, message@),
    }
}

/// A builder error as plain values: the variant's position and its text field.
pub open spec fn build_error_view(e: BackendBuildError) -> (int, Seq<char>) {
    match e {
        BackendBuildError::InvalidConfig { message } => (0, message@),
        BackendBuildError::UnsupportedBackend { kind } => (1, kind@),
        BackendBuildError::ResourceLimitExceeded { message } => (2, message@),
        BackendBuildError::Unsupported { message } => (3, message@),
        BackendBuildError::BuildFailed { message } => (4, message@),
    }
}

/// The backend error a builder error stands for.
pub open spec fn from_build_error_spec(e: (int, Seq<char>)) -> (int, Seq<char>) {
    if e.0 == 0 { (0, e.1) } else if e.0 == 1 { (3, e.1) } else if e.0 == 2 { (4, e.1) } else { (6, e.1) }
}

/// The builder error a backend error is reported as.
pub open spec fn into_build_error_spec(e: (int, Seq<char>)) -> (int, Seq<char>) {
    if e.0 == 0 || e.0 == 1 {
        (0, e.1)
    } else if e.0 == 3 {
        (1, e.1)
    } else if e.0 == 4 {
        (2, e.1)
    } else if e.0 == 5 {
        (2, "needs eviction before creation"@)
    } else if e.0 == 2 {
        (4, "managed backend not found: "@ + e.1)
    } else {
        (4, e.1)
    }
}

impl BackendError {
    /// The error's text, as displayed to users.
    pub fn message(&self) -> (s: String)
        ensures
            s@ == backend_error_text(*self),
    {
        let (prefix, field) = match self {
            BackendError::InvalidRequest { message } => ("invalid managed backend request: ", message.as_str()),
            BackendError::Conflict { message } => ("managed backend conflict: ", message.as_str()),
            BackendError::NotFound { backend_id } => ("managed backend not found: ", backend_id.as_str()),
            BackendError::UnsupportedBackend { kind } => ("unsupported backend kind: ", kind.as_str()),
            BackendError::ResourceLimitExceeded { message } => ("managed backend resource limit exceeded: ", message.as_str()),
            BackendError::NeedsEviction => ("managed backend needs eviction before creation", ""),
            BackendError::BuildFailed { message } => ("managed backend build failed: ", message.as_str()),
            BackendError::Operation { message } => ("managed backend operation failed: ", message.as_str()),
        };
        let mut s = String::from_str(prefix);
        push_str(&mut s, field);
        proof {
            reveal_strlit("");
            assert(s@ =~= backend_error_text(*self));
        }
        s
    }

    /// The backend error for a failed backend build.
    pub fn from_build_error(error: BackendBuildError) -> (e: Self)
        ensures
            backend_error_view(e) == from_build_error_spec(build_error_view(error)),
    {
        match error {
            BackendBuildError::InvalidConfig { message } => BackendError::InvalidRequest { message },
            BackendBuildError::UnsupportedBackend { kind } => BackendError::UnsupportedBackend { kind },
            BackendBuildError::ResourceLimitExceeded { message } => BackendError::ResourceLimitExceeded { message },
            BackendBuildError::Unsupported { message } => BackendError::BuildFailed { message },
            BackendBuildError::BuildFailed { message } => BackendError::BuildFailed { message },
        }
    }

    /// The builder error this backend error is reported as.
    pub fn into_build_error(self) -> (e: BackendBuildError)
        ensures
            build_error_view(e) == into_build_error_spec(backend_error_view(self)),
    {
        match self {
            BackendError::InvalidRequest { message } => BackendBuildError::InvalidConfig { message },
            BackendError::Conflict { message } => BackendBuildError::InvalidConfig { message },
            BackendError::UnsupportedBackend { kind } => BackendBuildError::UnsupportedBackend { kind },
            BackendError::ResourceLimitExceeded { message } => BackendBuildError::ResourceLimitExceeded { message },
            BackendError::NeedsEviction => BackendBuildError::ResourceLimitExceeded {
                message: String::from_str("needs eviction before creation"),
            },
            BackendError::NotFound { backend_id } => {
                let mut message = String::from_str("managed backend not found: ");
                push_str(&mut message, backend_id.as_str());
                BackendBuildError::BuildFailed { message }
            },
            BackendError::BuildFailed { message } => BackendBuildError::BuildFailed { message },
            BackendError::Operation { message } => BackendBuildError::BuildFailed { message },
        }
    }

    /// A sandbox counter failure is a resource-limit error with its text.
    pub fn from_counter_error(error: SandboxCounterError) -> (e: Self)
        ensures
            e matches BackendError::ResourceLimitExceeded { message } && message@ == counter_error_text(error),
    {
        BackendError::ResourceLimitExceeded { message: error.message() }
    }
}


/// Whether `c` is a lower-case hexadecimal digit.
pub open spec fn is_lower_hex(c: char) -> bool {
    ('0' <= c && c <= '9') || ('a' <= c && c <= 'f')
}

/// Whether `s` is the simple form of a UUID: 32 lower-case hex digits.
pub open spec fn is_uuid_simple(s: Seq<char>) -> bool {
    s.len() == 32 && forall|i: int| 0 <= i < s.len() ==> is_lower_hex(#[trigger] s[i])
}

/// The `simple()` text of a fresh `uuid::Uuid::new_v4`. Claimed, as uuid's
/// formatting code writes it: 32 lower-case hex digits. Which digits is not
/// claimed (they are random).
#[verifier::external_body]
pub(crate) fn fresh_uuid_simple() -> (s: String)
    ensures
        is_uuid_simple(s@),
{
    uuid::Uuid::new_v4().simple().to_string()
}

/// The backend kind a session runs on: `local` and `e2b` as configured,
/// `local` when nothing is configured; any other kind is unsupported.
pub fn resolve_session_backend_kind(kind: Option<&str>) -> (r: Result<String, BackendBuildError>)
    ensures
        kind is None ==> (r matches Ok(k) && k@ == "local"@),
        kind matches Some(k) ==> ((k@ == "local"@ || k@ == "e2b"@) ==> (r matches Ok(o) && o@ == k@)),
        kind matches Some(k) ==> (!(k@ == "local"@ || k@ == "e2b"@) ==> (r matches Err(BackendBuildError::UnsupportedBackend { kind: u })
            && u@ == k@)),
{
    match kind {
        None => Ok(String::from_str("local")),
        Some(k) => {
            if str_equal(k, "local") || str_equal(k, "e2b") {
                Ok(String::from_str(k))
            } else {
                Err(BackendBuildError::UnsupportedBackend { kind: String::from_str(k) })
            }
        },
    }
}

/// The id of a new backend: the requested one (a blank one is an invalid
/// request), else `bkd_` and `fresh_suffix`.
pub fn requested_backend_id_with(backend_id: Option<String>, fresh_suffix: &str) -> (r: Result<String, BackendError>)
    ensures
        backend_id matches Some(b) ==> (trim(b@).len() == 0 ==> (r matches Err(BackendError::InvalidRequest { message })
            && message@ == "backend_id cannot be empty"@)),
        backend_id matches Some(b) ==> (trim(b@).len() > 0 ==> (r matches Ok(id) && id@ == b@)),
        backend_id is None ==> (r matches Ok(id) && id@ == "bkd_"@ + fresh_suffix@),
{
    match backend_id {
        Some(b) => {
            let chars = chars_of(b.as_str());
            if trim_chars(&chars).len() == 0 {
                Err(BackendError::InvalidRequest { message: String::from_str("backend_id cannot be empty") })
            } else {
                Ok(b)
            }
        },
        None => {
            let mut id = String::from_str("bkd_");
            push_str(&mut id, fresh_suffix);
            Ok(id)
        },
    }
}

/// The id of a new backend, generating a fresh one when none is requested.
pub fn requested_backend_id(backend_id: Option<String>) -> (r: Result<String, BackendError>)
    ensures
        backend_id matches Some(b) ==> (trim(b@).len() == 0 <==> r is Err),
        backend_id matches Some(b) ==> (trim(b@).len() > 0 ==> (r matches Ok(id) && id@ == b@)),
        backend_id is None ==> (r matches Ok(id) && exists|t: Seq<char>| is_uuid_simple(t) && id@ == "bkd_"@ + t),
{
    let suffix = fresh_uuid_simple();
    let r = requested_backend_id_with(backend_id, suffix.as_str());
    proof {
        if backend_id is None {
            assert(is_uuid_simple(suffix@));
        }
    }
    r
}

/// When a backend with a timeout expires: `timeout_secs` after `now_ms`,
/// saturating.
pub fn expires_at_ms_from_timeout_at(timeout_secs: u64, now_ms: u64) -> (t: u64)
    ensures
        t == ({
            let span: int = if timeout_secs * 1000 > u64::MAX { u64::MAX as int } else { timeout_secs * 1000 };
            if now_ms + span > u64::MAX { u64::MAX } else { (now_ms + span) as u64 }
        }),
{
    let span: u64 = match timeout_secs.checked_mul(1000) {
        Some(v) => v,
        None => u64::MAX,
    };
    now_ms.saturating_add(span)
}

/// Every builder error except `Unsupported` survives the trip through the
/// backend error unchanged; `Unsupported` comes back as `BuildFailed` with
/// the same message.
pub proof fn law_build_error_round_trip(e: (int, Seq<char>))
    requires
        0 <= e.0 <= 4,
    ensures
        e.0 != 3 ==> into_build_error_spec(from_build_error_spec(e)) == e,
        e.0 == 3 ==> into_build_error_spec(from_build_error_spec(e)) == (4int, e.1),
{
}

} // verus!
