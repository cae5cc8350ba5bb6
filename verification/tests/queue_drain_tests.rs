use xiaoo_shared::backend_base::BackendError;
use xiaoo_shared::memory_automation::{
    drain_cursor_after, CompletedTurnIngest, DrainOutcome, IngestQueueEntries, MemoryAutomationConfig,
};
use xiaoo_shared::sandbox_counter::SandboxCounterError;
use xiaoo_shared::session_actor::{lifecycle_for_phase, SessionPhase};
use xiaoo_shared::session_record::SessionLifecycleStatus;

fn queue(ids: &[(&str, u64)]) -> IngestQueueEntries {
    let entries = ids
        .iter()
        .map(|(id, at)| {
            let mut e = CompletedTurnIngest::for_test(id, "u", "a");
            e.next_attempt_ms = *at;
            e
        })
        .collect();
    IngestQueueEntries::from_entries(entries)
}

#[test]
fn next_due_finds_the_first_due_entry() {
    let q = queue(&[("m1", 500), ("m2", 100), ("m3", 0)]);
    assert_eq!(q.next_due(0, 200), Some(1));
    assert_eq!(q.next_due(2, 200), Some(2));
    assert_eq!(q.next_due(0, 50), Some(2));
    assert_eq!(queue(&[("m1", 500)]).next_due(0, 10), None);
}

#[test]
fn failed_attempts_back_off_then_drop() {
    let mut q = queue(&[("m1", 0), ("m2", 0)]);
    assert_eq!(q.record_attempt(0, false, 2, 250, 1_000), DrainOutcome::Rescheduled);
    assert_eq!(q.entries()[0].retries, 1);
    assert_eq!(q.entries()[0].next_attempt_ms, 1_000 + 500);
    assert_eq!(q.record_attempt(0, false, 2, 250, 2_000), DrainOutcome::Rescheduled);
    assert_eq!(q.entries()[0].next_attempt_ms, 2_000 + 1_000);
    assert_eq!(q.record_attempt(0, false, 2, 250, 3_000), DrainOutcome::Dropped);
    assert_eq!(q.len(), 1);
    assert_eq!(q.record_attempt(0, true, 2, 250, 3_000), DrainOutcome::Ingested);
    assert_eq!(q.len(), 0);
}

#[test]
fn default_memory_config_is_disabled() {
    let c = MemoryAutomationConfig::default_config();
    assert!(!c.enabled);
    assert_eq!(c.queue_capacity, 256);
    assert_eq!(c.queue_path, "memory-automation-queue.jsonl");
}

#[test]
fn phases_map_to_lifecycle_statuses() {
    assert_eq!(lifecycle_for_phase(SessionPhase::Idle, SessionLifecycleStatus::Paused), SessionLifecycleStatus::Paused);
    assert_eq!(lifecycle_for_phase(SessionPhase::Closing, SessionLifecycleStatus::Idle), SessionLifecycleStatus::Running);
    assert_eq!(lifecycle_for_phase(SessionPhase::Closed, SessionLifecycleStatus::Idle), SessionLifecycleStatus::Closed);
}

#[test]
fn counter_failures_become_resource_limit_errors() {
    let e = BackendError::from_counter_error(SandboxCounterError::LockError { message: "busy".to_string() });
    match e {
        BackendError::ResourceLimitExceeded { message } => assert_eq!(message, "lock error: busy"),
        other => panic!("unexpected {:?}", other),
    }
}

#[test]
fn rescheduled_entry_keeps_its_turn_and_the_drain_steps_over_it() {
    let mut q = IngestQueueEntries::from_entries(vec![
        CompletedTurnIngest::for_test("m1", "what is up", "not much"),
        CompletedTurnIngest::for_test("m2", "second", "reply"),
    ]);
    let outcome = q.record_attempt(0, false, 3, 100, 5_000);
    assert_eq!(outcome, DrainOutcome::Rescheduled);
    let kept = &q.entries()[0];
    assert_eq!(kept.message_id, "m1");
    assert_eq!(kept.user_text, "what is up");
    assert_eq!(kept.assistant_text, "not much");
    assert_eq!(kept.retries, 1);
    assert_eq!(kept.next_attempt_ms, 5_200);
    assert_eq!(drain_cursor_after(0, outcome), 1);
    assert_eq!(drain_cursor_after(0, DrainOutcome::Ingested), 0);
    assert_eq!(drain_cursor_after(4, DrainOutcome::Dropped), 4);
}
