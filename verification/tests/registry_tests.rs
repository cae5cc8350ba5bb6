use xiaoo_shared::eviction::should_signal_owner;
use xiaoo_shared::backend_registry::{BackendRegistryData, BackendRegistryEntry, BackendRegistryError, SessionStatusSnapshot};
use xiaoo_shared::eviction::{marked_backend_actions_at, plan_eviction_at, EvictionKind, EvictionPlan, MarkedBackendAction};
use xiaoo_shared::keyhash::hash_key_identifier;
use xiaoo_shared::sandbox_counter::{sandbox_key_for_kind, SandboxCounterData, SandboxCounterError, SandboxCounterKey};

const THRESHOLD: u64 = 30_000;

fn key() -> SandboxCounterKey {
    SandboxCounterKey::from_stored("e2b".to_string(), "k".to_string())
}

fn entry(id: &str, owner: &str, created: u64, status: &str) -> BackendRegistryEntry {
    BackendRegistryEntry::new_at(
        id.to_string(),
        key(),
        vec!["s-".to_string() + id],
        owner.to_string(),
        format!("inst-{id}"),
        Some((status, 0)),
        created,
        7,
    )
}

#[test]
fn key_identifiers_are_hashed_one_way() {
    assert_eq!(hash_key_identifier("test-api-key"), "7sEMDNc5Hpe7pH-FZMWS29Es3zKyZAYUnUbt0p53Zu4");
    let k = sandbox_key_for_kind("e2b", Some("test-api-key"));
    assert_eq!(k.sandbox_type, "e2b");
    assert_eq!(k.key_identifier, "7sEMDNc5Hpe7pH-FZMWS29Es3zKyZAYUnUbt0p53Zu4");
    assert_eq!(sandbox_key_for_kind("local", None).sandbox_type, "local");
}

#[test]
fn counter_reserves_up_to_the_limit_and_releases() {
    let mut data = SandboxCounterData::new();
    let k = key();
    assert!(data.check_and_reserve(&k, 2, 1_000).is_ok());
    assert!(data.check_and_reserve(&k, 2, 1_000).is_ok());
    match data.check_and_reserve(&k, 2, 1_000) {
        Err(e @ SandboxCounterError::LimitExceeded { .. }) => {
            assert_eq!(e.message(), "limit exceeded for e2b k: current=2, max=2")
        }
        _ => panic!("expected the limit"),
    }
    assert_eq!(data.get_total_count(&k), 2);
    assert!(data.cancel_reservation(&k));
    assert_eq!(data.get_total_count(&k), 1);
    assert!(data.gc_stale_pending(1_000 + 300_000));
    assert_eq!(data.get_total_count(&k), 0);
}

#[test]
fn registry_entries_and_idle_checks() {
    let mut e = entry("b1", "p1", 100, "running");
    assert!(!e.is_all_sessions_idle());
    e.update_session_status_at("s-b1", "idle", 0, 200);
    assert!(e.is_all_sessions_idle());
    assert!(e.is_evictable_at(THRESHOLD, 300));
    e.pending_eviction = true;
    assert!(!e.is_evictable_at(THRESHOLD, 300));
    assert!(e.is_eviction_safe_at(THRESHOLD, 300));
    assert!(!e.is_owner_stale_at(THRESHOLD, 100 + THRESHOLD));
    assert!(e.is_owner_stale_at(THRESHOLD, 100 + THRESHOLD + 1));
    let d = SessionStatusSnapshot::default();
    assert_eq!(d.status, "idle");
    assert_eq!(
        BackendRegistryError::LockError { message: "busy".to_string() }.message(),
        "lock error: busy"
    );
}

#[test]
fn registry_register_update_and_refresh() {
    let mut data = BackendRegistryData::new();
    data.register(entry("b1", "p1", 100, "idle"));
    data.register(entry("b2", "p2", 50, "idle"));
    data.register(entry("b3", "p1", 70, "running"));
    assert_eq!(data.get_all_entries().len(), 3);
    assert_eq!(data.get_entries_for_process("p1").len(), 2);
    assert_eq!(data.get_entries_by_key(&key()).len(), 3);
    assert!(data.set_pending_eviction("b2", true));
    assert!(!data.set_pending_eviction("missing", true));
    assert!(data.update_activity_at("b1", 999));
    assert!(data.update_session_status_at("b3", "s-b3", "idle", 0, 1_000));
    assert!(data.refresh_heartbeats_for_process_at("p1", 5_000));
    assert!(!data.refresh_heartbeats_for_process_at("nobody", 5_000));
    let p1 = data.get_entries_for_process("p1");
    assert!(p1.iter().all(|e| e.owner_heartbeat_ms == 5_000));
    let b1 = p1.iter().find(|e| e.backend_id == "b1").expect("b1");
    assert_eq!(b1.last_activity_ms, 999);
    data.unregister("b2");
    assert_eq!(data.get_all_entries().len(), 2);
}

#[test]
fn eviction_picks_the_earliest_created_evictable_backend() {
    let entries = vec![
        entry("late", "other", 300, "idle"),
        entry("busy", "me", 100, "running"),
        entry("early", "me", 200, "idle"),
    ];
    match plan_eviction_at(&entries, "me", 3, 3, THRESHOLD, 1_000) {
        EvictionPlan::Candidates(c) => {
            assert_eq!(c, vec![(2, EvictionKind::EvictOwn), (0, EvictionKind::AskOwner)]);
        }
        other => panic!("unexpected plan {other:?}"),
    }
    match plan_eviction_at(&entries, "me", 3, 3, THRESHOLD, 300 + THRESHOLD + 1) {
        EvictionPlan::Candidates(c) => {
            assert_eq!(
                c,
                vec![(1, EvictionKind::EvictOwn), (2, EvictionKind::EvictOwn), (0, EvictionKind::ReclaimOrphan)]
            );
        }
        other => panic!("unexpected plan {other:?}"),
    }
    assert!(matches!(plan_eviction_at(&entries, "me", 2, 3, THRESHOLD, 1_000), EvictionPlan::NotNeeded));
    let mut marked = entries;
    marked[0].pending_eviction = true;
    assert!(matches!(plan_eviction_at(&marked, "me", 3, 3, THRESHOLD, 1_000), EvictionPlan::AlreadyMarked));
    marked[1].pending_eviction = true;
    let actions = marked_backend_actions_at(&marked, THRESHOLD, 1_000);
    assert_eq!(actions, vec![(0, MarkedBackendAction::Evict), (1, MarkedBackendAction::ClearMark)]);
}

#[test]
fn owner_is_signalled_only_when_known_and_foreign() {
    assert!(!should_signal_owner(0, 42));
    assert!(!should_signal_owner(42, 42));
    assert!(should_signal_owner(7, 42));
}
