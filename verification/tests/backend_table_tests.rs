use xiaoo_shared::backend_base::{BackendBuildError, BackendError};
use xiaoo_shared::backend_table::{binding_failure, sole_session, sorted_keys, BackendTable, SessionBinding};
use xiaoo_shared::strmap::StrMap;
use xiaoo_shared::manager_rules::{
    checkout_snapshot_id, delete_snapshot_target, eviction_checkpoint_name, exhausted_error, fork_snapshot_id,
    is_counted_kind, live_counts, manager_process_id, EvictOutcome, ReserveLoop, ReserveResult, ReserveStep,
};
use xiaoo_shared::backend_registry::BackendRegistryEntry;
use xiaoo_shared::sandbox_counter::SandboxCounterKey;
use xiaoo_shared::str_order::{insert_sorted, str_less};

fn table_with(ids: &[(&str, Option<&str>, Option<&str>)]) -> BackendTable<u32> {
    let mut t = BackendTable::new();
    for (n, (id, session, parent)) in ids.iter().enumerate() {
        t.insert_backend(
            id.to_string(),
            session.map(|s| s.to_string()),
            parent.map(|p| p.to_string()),
            n as u32,
            "/ws".to_string(),
            7,
            None,
        )
        .map_err(|(e, _)| e)
        .unwrap();
    }
    t
}

#[test]
fn new_backend_conflicts() {
    let mut t = table_with(&[("bkd_a", Some("s1"), None)]);
    match t.check_new("bkd_a", None) {
        Err(BackendError::Conflict { message }) => assert_eq!(message, "backend_id bkd_a already exists"),
        other => panic!("unexpected {:?}", other),
    }
    match t.check_new("bkd_b", Some("s1")) {
        Err(BackendError::Conflict { message }) => assert_eq!(message, "session_id s1 is already bound to backend_id bkd_a"),
        other => panic!("unexpected {:?}", other),
    }
    assert!(t.check_new("bkd_b", Some("s2")).is_ok());
    let refused = t.insert_backend("bkd_a".to_string(), None, None, 99, "/ws".to_string(), 7, None);
    match refused {
        Err((BackendError::Conflict { .. }, instance)) => assert_eq!(instance, 99),
        other => panic!("unexpected {:?}", other.is_ok()),
    }
}

#[test]
fn children_are_linked_and_unlinked() {
    let mut t = table_with(&[("bkd_p", Some("s1"), None), ("bkd_c", Some("s2"), Some("bkd_p"))]);
    let parent = t.get("bkd_p").unwrap();
    assert!(parent.children_backend_ids.contains_key("bkd_c"));
    let removed = t.remove_backend("bkd_c").unwrap();
    assert_eq!(removed.instance, 1);
    assert!(!t.get("bkd_p").unwrap().children_backend_ids.contains_key("bkd_c"));
    assert_eq!(t.bound_backend_id("s2"), None);
    assert_eq!(t.bound_backend_id("s1"), Some("bkd_p".to_string()));
    match t.remove_backend("bkd_c") {
        Err(BackendError::NotFound { backend_id }) => assert_eq!(backend_id, "bkd_c"),
        other => panic!("unexpected {:?}", other.is_ok()),
    }
}

#[test]
fn connect_binds_sessions() {
    let mut t = table_with(&[("bkd_a", Some("s1"), None), ("bkd_b", None, None)]);
    match t.connect("bkd_b", Some("s1".to_string()), None) {
        Err(BackendError::Conflict { message }) => assert_eq!(message, "session_id s1 is already bound to backend_id bkd_a"),
        other => panic!("unexpected {:?}", other),
    }
    match t.connect("bkd_x", Some("s9".to_string()), None) {
        Err(BackendError::NotFound { backend_id }) => assert_eq!(backend_id, "bkd_x"),
        other => panic!("unexpected {:?}", other),
    }
    t.connect("bkd_b", Some("s2".to_string()), Some(5_000)).unwrap();
    assert_eq!(t.bound_backend_id("s2"), Some("bkd_b".to_string()));
    assert_eq!(t.get("bkd_b").unwrap().expires_at_ms, Some(5_000));
    t.connect("bkd_a", Some("s1".to_string()), None).unwrap();
}

#[test]
fn releasing_the_last_session_removes_the_backend() {
    let mut t = table_with(&[("bkd_a", Some("s1"), None)]);
    t.connect("bkd_a", Some("s2".to_string()), None).unwrap();
    assert!(t.release_session("s1").is_none());
    assert!(t.contains_backend("bkd_a"));
    let removed = t.release_session("s2").unwrap();
    assert_eq!(removed.instance, 0);
    assert!(!t.contains_backend("bkd_a"));
    assert!(t.release_session("s2").is_none());
}

#[test]
fn bound_session_leases_its_backend() {
    let t = table_with(&[("bkd_a", Some("s1"), None)]);
    assert_eq!(t.lease_bound("s1").unwrap().instance, 0);
    match t.lease_bound("s9") {
        Err(BackendError::NotFound { backend_id }) => assert_eq!(backend_id, "session:s9"),
        other => panic!("unexpected {:?}", other.is_ok()),
    }
}

#[test]
fn session_binding_decides_reuse() {
    let t = table_with(&[("bkd_a", Some("s1"), None)]);
    assert!(matches!(t.session_binding("s0", "/ws", 7), SessionBinding::Unbound));
    assert!(matches!(t.session_binding("s1", "/ws", 7), SessionBinding::Reusable(ref b) if b == "bkd_a"));
    let mismatched = t.session_binding("s1", "/other", 7);
    assert!(matches!(mismatched, SessionBinding::Mismatched(ref b) if b == "bkd_a"));
    match binding_failure("s1", &mismatched) {
        Some(BackendBuildError::BuildFailed { message }) => assert_eq!(
            message,
            "session s1 is already bound to backend bkd_a with different workspace or config"
        ),
        other => panic!("unexpected {:?}", other),
    }
    match binding_failure("s1", &SessionBinding::Missing("bkd_z".to_string())) {
        Some(BackendBuildError::BuildFailed { message }) => assert_eq!(message, "session s1 is bound to missing backend bkd_z"),
        other => panic!("unexpected {:?}", other),
    }
    assert!(binding_failure("s1", &SessionBinding::Unbound).is_none());
}

#[test]
fn tree_roots_are_sorted_and_orphans_count() {
    let mut t = table_with(&[
        ("bkd_m", None, None),
        ("bkd_c", None, Some("bkd_m")),
        ("bkd_b", None, None),
        ("bkd_x", None, Some("bkd_gone")),
    ]);
    assert_eq!(t.tree_roots(), vec!["bkd_b".to_string(), "bkd_m".to_string(), "bkd_x".to_string()]);
    t.remove_backend("bkd_m").unwrap();
    assert_eq!(t.tree_roots(), vec!["bkd_b".to_string(), "bkd_c".to_string(), "bkd_x".to_string()]);
    let drained = t.drain_all();
    assert_eq!(drained.len(), 3);
    assert!(t.tree_roots().is_empty());
}

#[test]
fn string_order_matches_std() {
    let words = ["", "a", "ab", "b", "B", "é", "a\u{0}", "zz"];
    for x in words.iter() {
        for y in words.iter() {
            assert_eq!(str_less(x, y), x.to_string() < y.to_string(), "{:?} {:?}", x, y);
        }
    }
    let mut v = Vec::new();
    for w in ["m", "c", "x", "a"] {
        insert_sorted(&mut v, w.to_string());
    }
    assert_eq!(v, vec!["a", "c", "m", "x"]);
}

#[test]
fn manager_rules_small_decisions() {
    assert!(is_counted_kind("e2b"));
    assert!(is_counted_kind("conch"));
    assert!(!is_counted_kind("local"));
    assert_eq!(manager_process_id(4242, 1_700_000_000_000), "4242_1700000000000");
    assert_eq!(eviction_checkpoint_name("bkd_a"), "eviction-bkd_a");
    assert_eq!(checkout_snapshot_id("e2b", Some("snap".to_string())).unwrap(), "snap");
    match checkout_snapshot_id("local", Some("snap".to_string())) {
        Err(BackendError::UnsupportedBackend { kind }) => assert_eq!(kind, "local:checkout"),
        other => panic!("unexpected {:?}", other),
    }
    match checkout_snapshot_id("e2b", None) {
        Err(BackendError::UnsupportedBackend { kind }) => assert_eq!(kind, "e2b:checkout"),
        other => panic!("unexpected {:?}", other),
    }
    assert_eq!(delete_snapshot_target("local", None).unwrap(), None);
    assert_eq!(delete_snapshot_target("e2b", Some("s".to_string())).unwrap(), Some("s".to_string()));
    match delete_snapshot_target("conch", Some("s".to_string())) {
        Err(BackendError::UnsupportedBackend { kind }) => assert_eq!(kind, "conch:delete_snapshot"),
        other => panic!("unexpected {:?}", other),
    }
    assert_eq!(fork_snapshot_id(None, "bcp_1".to_string()), "bcp_1");
    assert_eq!(fork_snapshot_id(Some("snap".to_string()), "bcp_1".to_string()), "snap");
    match exhausted_error() {
        BackendError::ResourceLimitExceeded { message } => {
            assert_eq!(message, "sandbox limit reached; no idle sandbox available to evict")
        }
        other => panic!("unexpected {:?}", other),
    }
}

#[test]
fn live_counts_count_every_entry() {
    let key = |id: &str| SandboxCounterKey::from_stored("e2b".to_string(), id.to_string());
    let entry = |b: &str, k: &str| BackendRegistryEntry::new_at(b.to_string(), key(k), vec![], "p".to_string(), String::new(), None, 0, 1);
    let entries = vec![entry("b1", "k1"), entry("b2", "k1"), entry("b3", "k2")];
    let counts = live_counts(&entries);
    assert_eq!(counts.get("e2b:k1"), Some(&2));
    assert_eq!(counts.get("e2b:k2"), Some(&1));
    assert_eq!(counts.get("e2b:k3"), None);
}

#[test]
fn reservation_retries_then_gives_up_clearing_its_mark() {
    let (mut l, step) = ReserveLoop::start(2, true);
    assert!(matches!(step, ReserveStep::Reserve { wait: false, clear_mark: None, last: false }));
    assert!(matches!(l.on_reserve(ReserveResult::LimitReached), ReserveStep::Evict));
    let step = l.on_evict(EvictOutcome::Marked("bkd_r".to_string()));
    assert!(matches!(step, ReserveStep::Reserve { wait: true, clear_mark: None, last: false }));
    assert!(matches!(l.on_reserve(ReserveResult::LimitReached), ReserveStep::Evict));
    let step = l.on_evict(EvictOutcome::NothingEvictable);
    match step {
        ReserveStep::Reserve { wait, clear_mark, last } => {
            assert!(wait && last);
            assert_eq!(clear_mark, Some("bkd_r".to_string()));
        }
        other => panic!("unexpected {:?}", other),
    }
    assert!(matches!(l.on_reserve(ReserveResult::LimitReached), ReserveStep::Exhausted));
}

#[test]
fn reservation_direct_eviction_clears_mark_and_succeeds() {
    let (mut l, _) = ReserveLoop::start(0, true);
    assert_eq!(l.max_attempts, 1);
    let (mut l2, _) = ReserveLoop::start(5, true);
    l2.on_reserve(ReserveResult::LimitReached);
    l2.on_evict(EvictOutcome::Marked("bkd_r".to_string()));
    match l2.on_evict(EvictOutcome::Evicted) {
        ReserveStep::Reserve { wait, clear_mark, last } => {
            assert!(!wait && !last);
            assert_eq!(clear_mark, Some("bkd_r".to_string()));
        }
        other => panic!("unexpected {:?}", other),
    }
    assert!(matches!(l2.on_reserve(ReserveResult::Reserved), ReserveStep::Done));
    assert!(matches!(l.on_reserve(ReserveResult::Failed), ReserveStep::Fail));
    assert!(matches!(l.on_evict(EvictOutcome::Failed), ReserveStep::Fail));
}

#[test]
fn checkout_retry_gives_up_without_a_final_try() {
    let (mut l, _) = ReserveLoop::start(1, false);
    assert!(matches!(l.on_reserve(ReserveResult::LimitReached), ReserveStep::Evict));
    match l.on_evict(EvictOutcome::Marked("bkd_r".to_string())) {
        ReserveStep::GiveUp { wait, clear_mark } => {
            assert!(wait);
            assert_eq!(clear_mark, Some("bkd_r".to_string()));
        }
        other => panic!("unexpected {:?}", other),
    }
}

#[test]
fn backend_info_lists_sessions_in_order() {
    let mut t = table_with(&[("bkd_a", Some("s2"), None)]);
    t.connect("bkd_a", Some("s1".to_string()), None).unwrap();
    let ids = sorted_keys(&t.get("bkd_a").unwrap().session_ids);
    assert_eq!(ids, vec!["s1".to_string(), "s2".to_string()]);
    assert_eq!(sole_session(&ids), None);
    assert_eq!(sole_session(&vec!["s9".to_string()]), Some("s9".to_string()));
    let mut m: StrMap<()> = StrMap::new();
    m.insert("b".to_string(), ());
    m.insert("a".to_string(), ());
    assert_eq!(sorted_keys(&m), vec!["a".to_string(), "b".to_string()]);
}

