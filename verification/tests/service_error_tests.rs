use xiaoo_shared::backend_base::BackendError;
use xiaoo_shared::session_service::{
    append_workspace_section, backend_lease_plan, check_remote_manifest, checkout_exhausted, checkout_lease_failed, map_backend_error, paused_without_checkpoint,
    BackendLeasePlan, CheckoutEvictionContext,
};
use xiaoo_shared::session_lease::LeaseCheckFailure;
use xiaoo_shared::session_service::SessionServiceError;

#[test]
fn lease_failure_becomes_attached_error() {
    let failure = LeaseCheckFailure::Busy {
        holder_client_id: "tui-1".to_string(),
        holder_hostname: None,
        holder_pid: Some(4242),
        last_heartbeat_ms: 1_000,
        stale: false,
    };
    let e = SessionServiceError::<()>::from_lease_check_failure("s1".to_string(), failure);
    assert_eq!(
        e.message(),
        "session attached by another client: s1 (held by tui-1@ pid=4242, last_heartbeat_ms=1000, stale=false)"
    );
    match e {
        SessionServiceError::SessionAttachedByAnotherClient { holder_hostname, holder_pid, stale, .. } => {
            assert_eq!(holder_hostname, "");
            assert_eq!(holder_pid, 4242);
            assert!(!stale);
        }
        other => panic!("unexpected {:?}", other),
    }
}

#[test]
fn clock_skew_becomes_lease_clock_skew() {
    let e = SessionServiceError::<()>::from_lease_check_failure("s2".to_string(), LeaseCheckFailure::ClockSkew);
    assert_eq!(
        e.message(),
        "lease clock skew: daemon wall clock is before UNIX_EPOCH; lease enforcement is fail-closed for session s2"
    );
}

#[test]
fn service_error_messages() {
    let e: SessionServiceError<()> = SessionServiceError::SessionBusy { session_id: "s".to_string(), message: "turn running".to_string() };
    assert_eq!(e.message(), "session busy: s: turn running");
    let e: SessionServiceError<u8> = SessionServiceError::CoreRunWithState { message: "boom".to_string(), partial_state: 1 };
    assert_eq!(e.message(), "core runtime execution failed with partial state: boom");
    let e: SessionServiceError<()> = SessionServiceError::LeaseRequired { session_id: "s".to_string() };
    assert_eq!(e.message(), "lease required: anonymous callers are not permitted on session s");
    let e: SessionServiceError<()> = SessionServiceError::UnsupportedCapability { capability: "export_session".to_string() };
    assert_eq!(e.message(), "unsupported capability: export_session");
}

#[test]
fn backend_errors_map_to_service_errors() {
    let e: SessionServiceError<()> = map_backend_error("resume checkout", "s1", BackendError::ResourceLimitExceeded { message: "full".to_string() });
    match e {
        SessionServiceError::SessionBusy { session_id, message } => {
            assert_eq!(session_id, "s1");
            assert_eq!(message, "full");
        }
        other => panic!("unexpected {:?}", other),
    }
    let e: SessionServiceError<()> = map_backend_error("resume checkout", "s1", BackendError::NotFound { backend_id: "bkd_a".to_string() });
    assert_eq!(e.message(), "runtime build failed: resume checkout: managed backend not found: bkd_a");
}

#[test]
fn checkout_contexts_and_plans() {
    let resume = CheckoutEvictionContext::resume();
    let e: SessionServiceError<()> = checkout_exhausted(&resume, "s1");
    assert_eq!(e.message(), "session busy: s1: resume failed: sandbox limit reached and no idle sandbox to evict");
    let runtime = CheckoutEvictionContext::runtime_checkout();
    let e: SessionServiceError<()> = checkout_lease_failed(&runtime, &BackendError::NotFound { backend_id: "session:s1".to_string() });
    assert_eq!(e.message(), "runtime build failed: failed to lease checked out backend: managed backend not found: session:s1");
    assert_eq!(backend_lease_plan(false, false, false, Some("e2b")), BackendLeasePlan::Ensure);
    assert_eq!(backend_lease_plan(true, true, false, Some("e2b")), BackendLeasePlan::ResumeFromCheckpoint);
    assert_eq!(backend_lease_plan(true, false, true, None), BackendLeasePlan::Ensure);
    assert_eq!(backend_lease_plan(true, false, true, Some("local")), BackendLeasePlan::Ensure);
    assert_eq!(backend_lease_plan(true, false, true, Some("e2b")), BackendLeasePlan::PausedWithoutCheckpoint);
    assert_eq!(backend_lease_plan(true, false, false, None), BackendLeasePlan::PausedWithoutCheckpoint);
    let e: SessionServiceError<()> = paused_without_checkpoint("s1");
    assert_eq!(e.message(), "session busy: s1: session is paused and has no eviction checkpoint to resume from");
}

#[test]
fn remote_manifest_must_match_binding() {
    assert!(check_remote_manifest::<()>(1, "abc", 1, "abc").is_ok());
    let e = check_remote_manifest::<()>(2, "def", 1, "abc").unwrap_err();
    assert_eq!(
        e.message(),
        "runtime conflict: E2B bootstrap manifest does not match runtime binding (version 2, digest def)"
    );
}

#[test]
fn workspace_section_follows_a_blank_line() {
    let mut p = "You are helpful.".to_string();
    append_workspace_section(&mut p, "WS");
    assert_eq!(p, "You are helpful.\n\nWS");
    let mut p = "  ".to_string();
    append_workspace_section(&mut p, "WS");
    assert_eq!(p, "  WS");
    let mut p = "x".to_string();
    append_workspace_section(&mut p, "");
    assert_eq!(p, "x");
}

#[test]
fn pending_interactions_are_taken_once() {
    let mut store = xiaoo_shared::pending_interaction::PendingInteractionStore::new();
    assert!(!store.has_pending("s1"));
    store.register("s1", "question-1");
    store.register("s1", "question-2");
    assert!(store.has_pending("s1"));
    assert_eq!(store.take("s1"), Some("question-2"));
    assert!(!store.has_pending("s1"));
    assert_eq!(store.take("s1"), None);
}
