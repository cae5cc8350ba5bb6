//! Errors of the session service, as its callers see them.

use vstd::prelude::*;
use crate::backend_base::{backend_error_text, BackendError};
use crate::session_lease::LeaseCheckFailure;
use crate::text::{decimal, push_decimal, push_str};

verus! {

/// Why a session service request failed. `S` is the partial state (loop
/// state, memory snapshot and tool manifest) that a failed core run leaves.
#[derive(Debug)]
pub enum SessionServiceError<S> {
    InvalidRequest { message: String },
    RuntimeConflict { message: String },
    PayloadTooLarge { message: String },
    SessionStore { message: String },
    RuntimeResolve { message: String },
    RuntimeBuild { message: String },
    RuntimeShutdown { message: String },
    CoreRun { message: String },
    CoreRunWithState { message: String, partial_state: S },
    Memory { message: String },
    UnsupportedCapability { capability: String },
    SessionNotFound { session_id: String },
    SessionBusy { session_id: String, message: String },
    SessionClosed { session_id: String },
    /// Another client holds the session's lease; `stale` tells whether its
    /// heartbeat had already expired when the error was made.
    SessionAttachedByAnotherClient {
        session_id: String,
        holder_client_id: String,
        holder_hostname: String,
        holder_pid: u32,
        last_heartbeat_ms: u64,
        stale: bool,
    },
    /// A mutating request came without a client id.
    LeaseRequired { session_id: String },
    /// The wall clock reads before the Unix epoch; leases fail closed.
    LeaseClockSkew { session_id: String },
}

pub open spec fn bool_text(b: bool) -> Seq<char> {
    if b { "true"@ } else { "false"@ }
}

/// The text of a session service error, as displayed to users.
pub open spec fn service_error_text<S>(e: SessionServiceError<S>) -> Seq<char> {
    match e {
        SessionServiceError::InvalidRequest { message } => "invalid request: "@ + message@,
        SessionServiceError::RuntimeConflict { message } => "runtime conflict: "@ + message@,
        SessionServiceError::PayloadTooLarge { message } => "request payload too large: "@ + message@,
        SessionServiceError::SessionStore { message } => "session store failed: "@ + message@,
        SessionServiceError::RuntimeResolve { message } => "runtime resolution failed: "@ + message@,
        SessionServiceError::RuntimeBuild { message } => "runtime build failed: "@ + message@,
        SessionServiceError::RuntimeShutdown { message } => "runtime shutdown failed: "@ + message@,
        SessionServiceError::CoreRun { message } => "core runtime execution failed: "@ + message@,
        SessionServiceError::CoreRunWithState { message, .. } =>
            "core runtime execution failed with partial state: "@ + message@,
        SessionServiceError::Memory { message } => "memory handling failed: "@ + message@,
        SessionServiceError::UnsupportedCapability { capability } => "unsupported capability: "@ + capability@,
        SessionServiceError::SessionNotFound { session_id } => "session not found: "@ + session_id@,
        SessionServiceError::SessionBusy { session_id, message } => "session busy: "@ + session_id@ + ": "@ + message@,
        SessionServiceError::SessionClosed { session_id } => "session closed: "@ + session_id@,
        SessionServiceError::SessionAttachedByAnotherClient {
            session_id, holder_client_id, holder_hostname, holder_pid, last_heartbeat_ms, stale,
        } => "session attached by another client: "@ + session_id@ + " (held by "@ + holder_client_id@ + "@"@
            + holder_hostname@ + " pid="@ + decimal(holder_pid as nat) + ", last_heartbeat_ms="@
            + decimal(last_heartbeat_ms as nat) + ", stale="@ + bool_text(stale) + ")"@,
        SessionServiceError::LeaseRequired { session_id } =>
            "lease required: anonymous callers are not permitted on session "@ + session_id@,
        SessionServiceError::LeaseClockSkew { session_id } =>
            "lease clock skew: daemon wall clock is before UNIX_EPOCH; lease enforcement is fail-closed for session "@
            + session_id@,
    }
}

impl<S> SessionServiceError<S> {
    /// The error's text, as displayed to users.
    pub fn message(&self) -> (s: String)
        ensures
            s@ == service_error_text(*self),
    {
        let (prefix, detail) = match self {
            SessionServiceError::InvalidRequest { message } => ("invalid request: ", message.as_str()),
            SessionServiceError::RuntimeConflict { message } => ("runtime conflict: ", message.as_str()),
            SessionServiceError::PayloadTooLarge { message } => ("request payload too large: ", message.as_str()),
            SessionServiceError::SessionStore { message } => ("session store failed: ", message.as_str()),
            SessionServiceError::RuntimeResolve { message } => ("runtime resolution failed: ", message.as_str()),
            SessionServiceError::RuntimeBuild { message } => ("runtime build failed: ", message.as_str()),
            SessionServiceError::RuntimeShutdown { message } => ("runtime shutdown failed: ", message.as_str()),
            SessionServiceError::CoreRun { message } => ("core runtime execution failed: ", message.as_str()),
            SessionServiceError::CoreRunWithState { message, .. } =>
                ("core runtime execution failed with partial state: ", message.as_str()),
            SessionServiceError::Memory { message } => ("memory handling failed: ", message.as_str()),
            SessionServiceError::UnsupportedCapability { capability } => ("unsupported capability: ", capability.as_str()),
            SessionServiceError::SessionNotFound { session_id } => ("session not found: ", session_id.as_str()),
            SessionServiceError::SessionBusy { session_id, message } => {
                let mut s = String::from_str("session busy: ");
                push_str(&mut s, session_id.as_str());
                push_str(&mut s, ": ");
                push_str(&mut s, message.as_str());
                return s;
            },
            SessionServiceError::SessionClosed { session_id } => ("session closed: ", session_id.as_str()),
            SessionServiceError::SessionAttachedByAnotherClient {
                session_id, holder_client_id, holder_hostname, holder_pid, last_heartbeat_ms, stale,
            } => {
                let mut s = String::from_str("session attached by another client: ");
                push_str(&mut s, session_id.as_str());
                push_str(&mut s, " (held by ");
                push_str(&mut s, holder_client_id.as_str());
                push_str(&mut s, "@");
                push_str(&mut s, holder_hostname.as_str());
                push_str(&mut s, " pid=");
                push_decimal(&mut s, *holder_pid as u64);
                push_str(&mut s, ", last_heartbeat_ms=");
                push_decimal(&mut s, *last_heartbeat_ms);
                push_str(&mut s, ", stale=");
                push_str(&mut s, if *stale { "true" } else { "false" });
                push_str(&mut s, ")");
                return s;
            },
            SessionServiceError::LeaseRequired { session_id } =>
                ("lease required: anonymous callers are not permitted on session ", session_id.as_str()),
            SessionServiceError::LeaseClockSkew { session_id } =>
                ("lease clock skew: daemon wall clock is before UNIX_EPOCH; lease enforcement is fail-closed for session ",
                    session_id.as_str()),
        };
        let mut s = String::from_str(prefix);
        push_str(&mut s, detail);
        s
    }

    /// The error for a refused lease check on `session_id`: another holder
    /// (its hostname empty and pid 0 where unknown), or a clock before the
    /// Unix epoch.
    pub fn from_lease_check_failure(session_id: String, failure: LeaseCheckFailure) -> (e: Self)
        ensures
            match failure {
                LeaseCheckFailure::Busy { holder_client_id, holder_hostname, holder_pid, last_heartbeat_ms, stale } =>
                    e matches SessionServiceError::SessionAttachedByAnotherClient {
                        session_id: sid, holder_client_id: hc, holder_hostname: hh, holder_pid: hp,
                        last_heartbeat_ms: hb, stale: st,
                    } && sid@ == session_id@ && hc@ == holder_client_id@
                        && hh@ == (match holder_hostname { Some(h) => h@, None => Seq::<char>::empty() })
                        && hp == (match holder_pid { Some(p) => p, None => 0u32 })
                        && hb == last_heartbeat_ms && st == stale,
                LeaseCheckFailure::ClockSkew => e matches SessionServiceError::LeaseClockSkew { session_id: sid }
                    && sid@ == session_id@,
            },
    {
        match failure {
            LeaseCheckFailure::Busy { holder_client_id, holder_hostname, holder_pid, last_heartbeat_ms, stale } => {
                let holder_hostname = match holder_hostname {
                    Some(h) => h,
                    None => String::new(),
                };
                let holder_pid = match holder_pid {
                    Some(p) => p,
                    None => 0,
                };
                SessionServiceError::SessionAttachedByAnotherClient {
                    session_id,
                    holder_client_id,
                    holder_hostname,
                    holder_pid,
                    last_heartbeat_ms,
                    stale,
                }
            },
            LeaseCheckFailure::ClockSkew => SessionServiceError::LeaseClockSkew { session_id },
        }
    }
}

/// A backend failure as the session service reports it: a full sandbox
/// pool leaves the session busy; any other failure is a runtime build
/// failure described as `<context>: <error>`.
pub fn map_backend_error<S>(context: &str, session_id: &str, error: BackendError) -> (e: SessionServiceError<S>)
    ensures
        error matches BackendError::ResourceLimitExceeded { message: m } ==> (e matches SessionServiceError::SessionBusy {
            session_id: sid, message } && sid@ == session_id@ && message@ == m@),
        !(error is ResourceLimitExceeded) ==> (e matches SessionServiceError::RuntimeBuild { message }
            && message@ == context@ + ": "@ + backend_error_text(error)),
{
    match error {
        BackendError::ResourceLimitExceeded { message } =>
            SessionServiceError::SessionBusy { session_id: String::from_str(session_id), message },
        other => {
            let mut message = String::from_str(context);
            push_str(&mut message, ": ");
            let text = other.message();
            push_str(&mut message, text.as_str());
            SessionServiceError::RuntimeBuild { message }
        },
    }
}

/// The texts that a checkout with eviction retries reports its failures
/// with, so that a resume and a runtime checkout can be told apart.
#[derive(Debug, Clone, Copy)]
pub struct CheckoutEvictionContext {
    /// Context of a failed checkout.
    pub checkout: &'static str,
    /// Context of a failed eviction.
    pub eviction: &'static str,
    /// Prefix of a failure to lease the checked-out backend.
    pub lease: &'static str,
    /// The message once the retries are spent.
    pub exhausted: &'static str,
}

impl CheckoutEvictionContext {
    /// The texts of resuming a paused session.
    pub fn resume() -> (c: Self)
        ensures
            c.checkout@ == "resume checkout"@,
            c.eviction@ == "resume checkout eviction"@,
            c.lease@ == "failed to lease resumed backend"@,
            c.exhausted@ == "resume failed: sandbox limit reached and no idle sandbox to evict"@,
    {
        CheckoutEvictionContext {
            checkout: "resume checkout",
            eviction: "resume checkout eviction",
            lease: "failed to lease resumed backend",
            exhausted: "resume failed: sandbox limit reached and no idle sandbox to evict",
        }
    }

    /// The texts of checking out a runtime's backend from a checkpoint.
    pub fn runtime_checkout() -> (c: Self)
        ensures
            c.checkout@ == "checkout runtime backend"@,
            c.eviction@ == "checkout runtime backend eviction"@,
            c.lease@ == "failed to lease checked out backend"@,
            c.exhausted@ == "checkout runtime backend failed: sandbox limit reached and no idle sandbox to evict"@,
    {
        CheckoutEvictionContext {
            checkout: "checkout runtime backend",
            eviction: "checkout runtime backend eviction",
            lease: "failed to lease checked out backend",
            exhausted: "checkout runtime backend failed: sandbox limit reached and no idle sandbox to evict",
        }
    }
}

/// The error once a checkout's eviction retries are spent.
pub fn checkout_exhausted<S>(context: &CheckoutEvictionContext, session_id: &str) -> (e: SessionServiceError<S>)
    ensures
        e matches SessionServiceError::SessionBusy { session_id: sid, message } && sid@ == session_id@
            && message@ == context.exhausted@,
{
    SessionServiceError::SessionBusy { session_id: String::from_str(session_id), message: String::from_str(context.exhausted) }
}

/// The error when the checked-out backend cannot be leased.
pub fn checkout_lease_failed<S>(context: &CheckoutEvictionContext, error: &BackendError) -> (e: SessionServiceError<S>)
    ensures
        e matches SessionServiceError::RuntimeBuild { message } && message@ == context.lease@ + ": "@ + backend_error_text(*error),
{
    let mut message = String::from_str(context.lease);
    push_str(&mut message, ": ");
    let text = error.message();
    push_str(&mut message, text.as_str());
    SessionServiceError::RuntimeBuild { message }
}

/// How a session's backend is obtained before a turn.
#[derive(Debug, Clone, Copy, PartialEq, Eq, Structural)]
pub enum BackendLeasePlan {
    /// Check a new backend out of the session's eviction checkpoint.
    ResumeFromCheckpoint,
    /// Reuse or create the session's backend.
    Ensure,
    /// The session is paused with nothing to resume from.
    PausedWithoutCheckpoint,
}

/// The plan for a session: a paused session resumes from its eviction
/// checkpoint; without one only a local MCP session (an MCP entry whose
/// backend is local or unset) may go on; any other session ensures its
/// backend.
pub fn backend_lease_plan(paused: bool, has_eviction_checkpoint: bool, entry_is_mcp: bool, backend_kind: Option<&str>)
    -> (p: BackendLeasePlan)
    ensures
        !paused ==> p == BackendLeasePlan::Ensure,
        paused && has_eviction_checkpoint ==> p == BackendLeasePlan::ResumeFromCheckpoint,
        paused && !has_eviction_checkpoint ==> p == (if entry_is_mcp && (match backend_kind { Some(k) => k@ == "local"@,
            None => true }) { BackendLeasePlan::Ensure } else { BackendLeasePlan::PausedWithoutCheckpoint }),
{
    if paused {
        if has_eviction_checkpoint {
            return BackendLeasePlan::ResumeFromCheckpoint;
        }
        let local = match backend_kind {
            Some(k) => crate::strmap::str_equal(k, "local"),
            None => true,
        };
        if !(entry_is_mcp && local) {
            return BackendLeasePlan::PausedWithoutCheckpoint;
        }
    }
    BackendLeasePlan::Ensure
}

/// The error of a paused session with no checkpoint to resume from.
pub fn paused_without_checkpoint<S>(session_id: &str) -> (e: SessionServiceError<S>)
    ensures
        e matches SessionServiceError::SessionBusy { session_id: sid, message } && sid@ == session_id@
            && message@ == "session is paused and has no eviction checkpoint to resume from"@,
{
    SessionServiceError::SessionBusy {
        session_id: String::from_str(session_id),
        message: String::from_str("session is paused and has no eviction checkpoint to resume from"),
    }
}

/// Whether the bootstrap manifest found in the sandbox is the one the
/// runtime was bound to; a different version or digest is a conflict that
/// names what was found.
pub fn check_remote_manifest<S>(version: u32, archive_sha256: &str, expected_version: u32, expected_digest: &str)
    -> (r: Result<(), SessionServiceError<S>>)
    ensures
        (version == expected_version && archive_sha256@ == expected_digest@) <==> r is Ok,
        r matches Err(e) ==> (e matches SessionServiceError::RuntimeConflict { message }
            && message@ == "E2B bootstrap manifest does not match runtime binding (version "@ + decimal(version as nat)
                + ", digest "@ + archive_sha256@ + ")"@),
{
    if version == expected_version && crate::strmap::str_equal(archive_sha256, expected_digest) {
        return Ok(());
    }
    let mut message = String::from_str("E2B bootstrap manifest does not match runtime binding (version ");
    push_decimal(&mut message, version as u64);
    push_str(&mut message, ", digest ");
    push_str(&mut message, archive_sha256);
    push_str(&mut message, ")");
    Err(SessionServiceError::RuntimeConflict { message })
}

/// The system prompt with the sandbox workspace's section: an empty section
/// changes nothing; otherwise it follows a blank line unless the prompt is
/// blank.
pub open spec fn prompt_with_section(prompt: Seq<char>, section: Seq<char>) -> Seq<char> {
    if section.len() == 0 {
        prompt
    } else if crate::text::trim(prompt).len() > 0 {
        prompt + "\n\n"@ + section
    } else {
        prompt + section
    }
}

pub fn append_workspace_section(system_prompt: &mut String, section: &str)
    ensures
        final(system_prompt)@ == prompt_with_section(old(system_prompt)@, section@),
{
    if section.is_empty() {
        return;
    }
    let chars = crate::text::chars_of(system_prompt.as_str());
    if crate::text::trim_chars(&chars).len() > 0 {
        push_str(system_prompt, "\n\n");
    }
    push_str(system_prompt, section);
}

} // verus!
