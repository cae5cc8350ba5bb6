use xiaoo_shared::backend_base::{BackendBuildError, BackendError};
use xiaoo_shared::backend_table::BackendTable;
use xiaoo_shared::manager_flow::{
    admit_new_backend, checkout_lineage, commit_new_backend, ensure_commit, ensure_recheck, EnsureStep, NewBackend,
};
use xiaoo_shared::sandbox_counter::{SandboxCounterData, SandboxCounterKey};

fn key() -> SandboxCounterKey {
    SandboxCounterKey::from_stored("e2b".to_string(), "k1".to_string())
}

fn child(id: &str, session: Option<&str>, instance: u32) -> NewBackend<u32> {
    NewBackend {
        backend_id: id.to_string(),
        session_id: session.map(|s| s.to_string()),
        parent_backend_id: Some("bkd_parent".to_string()),
        instance,
        workspace_root: "/ws".to_string(),
        config_hash: 7,
        expires_at_ms: Some(1_000),
    }
}

#[test]
fn checkout_reserves_then_confirms() {
    let mut table: BackendTable<u32> = BackendTable::new();
    let mut counter = SandboxCounterData::new();
    assert!(admit_new_backend(&table, &mut counter, "bkd_child", Some("s1"), true, &key(), 2, 100).is_ok());
    assert_eq!(counter.get_total_count(&key()), 1);
    assert_eq!(counter.pending_entries().len(), 1);

    assert!(commit_new_backend(&mut table, &mut counter, Ok(child("bkd_child", Some("s1"), 5)), true, &key(), 2).is_ok());
    assert!(table.contains_backend("bkd_child"));
    assert_eq!(table.bound_backend_id("s1").as_deref(), Some("bkd_child"));
    assert_eq!(counter.get_total_count(&key()), 1);
    assert!(counter.pending_entries().is_empty());
    assert_eq!(counter.counts_entries(), &vec![("e2b:k1".to_string(), 1)]);
}

#[test]
fn checkout_full_pool_needs_eviction_and_leaves_counter() {
    let table: BackendTable<u32> = BackendTable::new();
    let mut counter = SandboxCounterData::new();
    assert!(admit_new_backend(&table, &mut counter, "bkd_a", None, true, &key(), 1, 100).is_ok());
    let r = admit_new_backend(&table, &mut counter, "bkd_b", None, true, &key(), 1, 100);
    assert!(matches!(r, Err(BackendError::NeedsEviction)));
    assert_eq!(counter.get_total_count(&key()), 1);
}

#[test]
fn checkout_conflict_is_refused_before_reserving() {
    let mut table: BackendTable<u32> = BackendTable::new();
    table.insert_backend("bkd_a".to_string(), Some("s1".to_string()), None, 1, "/ws".to_string(), 7, None).ok();
    let mut counter = SandboxCounterData::new();
    match admit_new_backend(&table, &mut counter, "bkd_a", None, true, &key(), 5, 100) {
        Err(BackendError::Conflict { message }) => assert_eq!(message, "backend_id bkd_a already exists"),
        other => panic!("unexpected {:?}", other),
    }
    match admit_new_backend(&table, &mut counter, "bkd_b", Some("s1"), true, &key(), 5, 100) {
        Err(BackendError::Conflict { message }) => {
            assert_eq!(message, "session_id s1 is already bound to backend_id bkd_a")
        }
        other => panic!("unexpected {:?}", other),
    }
    assert_eq!(counter.get_total_count(&key()), 0);
}

#[test]
fn failed_build_gives_the_reservation_back() {
    let mut table: BackendTable<u32> = BackendTable::new();
    let mut counter = SandboxCounterData::new();
    admit_new_backend(&table, &mut counter, "bkd_child", None, true, &key(), 2, 100).unwrap();
    let failure = BackendError::BuildFailed { message: "boom".to_string() };
    match commit_new_backend(&mut table, &mut counter, Err(failure), true, &key(), 2) {
        Err((BackendError::BuildFailed { message }, None)) => assert_eq!(message, "boom"),
        other => panic!("unexpected {:?}", other.is_ok()),
    }
    assert_eq!(counter.get_total_count(&key()), 0);
    assert!(!table.contains_backend("bkd_child"));
}

#[test]
fn late_conflict_hands_the_child_back_for_deletion() {
    let mut table: BackendTable<u32> = BackendTable::new();
    let mut counter = SandboxCounterData::new();
    admit_new_backend(&table, &mut counter, "bkd_child", Some("s1"), true, &key(), 2, 100).unwrap();
    table.insert_backend("bkd_other".to_string(), Some("s1".to_string()), None, 1, "/ws".to_string(), 7, None).ok();
    match commit_new_backend(&mut table, &mut counter, Ok(child("bkd_child", Some("s1"), 42)), true, &key(), 2) {
        Err((BackendError::Conflict { message }, Some(instance))) => {
            assert_eq!(message, "session_id s1 is already bound to backend_id bkd_other");
            assert_eq!(instance, 42);
        }
        other => panic!("unexpected {:?}", other.is_ok()),
    }
    assert!(!table.contains_backend("bkd_child"));
    assert_eq!(counter.get_total_count(&key()), 0);
}

#[test]
fn ensure_recheck_reuses_fails_or_builds() {
    let mut table: BackendTable<u32> = BackendTable::new();
    table.insert_backend("bkd_a".to_string(), Some("s1".to_string()), None, 1, "/ws".to_string(), 7, None).ok();
    let mut counter = SandboxCounterData::new();

    counter.check_and_reserve(&key(), 5, 100).unwrap();
    assert!(matches!(ensure_recheck(&table, &mut counter, "s1", "/ws", 7, true, &key()), EnsureStep::Reuse(b) if b == "bkd_a"));
    assert_eq!(counter.get_total_count(&key()), 0);

    counter.check_and_reserve(&key(), 5, 100).unwrap();
    match ensure_recheck(&table, &mut counter, "s1", "/other", 7, true, &key()) {
        EnsureStep::Fail(BackendBuildError::BuildFailed { message }) => assert_eq!(
            message,
            "session s1 is already bound to backend bkd_a with different workspace or config"
        ),
        other => panic!("unexpected {:?}", other),
    }
    assert_eq!(counter.get_total_count(&key()), 0);

    counter.check_and_reserve(&key(), 5, 100).unwrap();
    assert!(matches!(ensure_recheck(&table, &mut counter, "s2", "/ws", 7, true, &key()), EnsureStep::Build));
    assert_eq!(counter.get_total_count(&key()), 1);
}

#[test]
fn ensure_commit_binds_and_confirms() {
    let mut table: BackendTable<u32> = BackendTable::new();
    let mut counter = SandboxCounterData::new();
    counter.check_and_reserve(&key(), 5, 100).unwrap();
    let r = ensure_commit(&mut table, &mut counter, "bkd_new".to_string(), "s9".to_string(), Ok(3), "/ws".to_string(), 7, true, &key(), 5);
    assert!(r.is_ok());
    assert_eq!(table.bound_backend_id("s9").as_deref(), Some("bkd_new"));
    assert!(counter.pending_entries().is_empty());
    assert_eq!(counter.get_total_count(&key()), 1);

    let mut uncounted = SandboxCounterData::new();
    let failure = BackendBuildError::BuildFailed { message: "no".to_string() };
    let r = ensure_commit(&mut table, &mut uncounted, "bkd_x".to_string(), "s10".to_string(), Err(failure), "/ws".to_string(), 7, false, &key(), 5);
    assert!(matches!(r, Err((BackendBuildError::BuildFailed { .. }, None))));
    assert!(!table.contains_backend("bkd_x"));
    assert_eq!(uncounted.get_total_count(&key()), 0);
}

#[test]
fn uncounted_backend_leaves_the_counter_alone() {
    let mut table: BackendTable<u32> = BackendTable::new();
    let mut counter = SandboxCounterData::new();
    assert!(admit_new_backend(&table, &mut counter, "bkd_local", Some("s1"), false, &key(), 0, 100).is_ok());
    assert_eq!(counter.get_total_count(&key()), 0);
    let mut local = child("bkd_local", Some("s1"), 8);
    local.parent_backend_id = None;
    assert!(commit_new_backend(&mut table, &mut counter, Ok(local), false, &key(), 0).is_ok());
    assert!(table.contains_backend("bkd_local"));
    assert!(counter.counts_entries().is_empty());
}

#[test]
fn checkout_lineage_records_the_snapshot() {
    let l = checkout_lineage(Some("bkd_parent".to_string()), "snap_1".to_string(), vec!["before-fix".to_string()], 42);
    assert_eq!(l.parent_backend_id.as_deref(), Some("bkd_parent"));
    assert!(l.children_backend_ids.is_empty());
    assert_eq!(l.forked_from_snapshot_id.as_deref(), Some("snap_1"));
    assert_eq!(l.forked_snapshot_names, vec!["before-fix".to_string()]);
    assert_eq!(l.forked_at_ms, Some(42));
}
