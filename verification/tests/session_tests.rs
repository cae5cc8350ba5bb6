use xiaoo_shared::principal::{daemon_channel_principal, daemon_cron_principal, daemon_hook_principal, is_daemon_principal};
use xiaoo_shared::session_actor::{
    try_increment_queue_depth, CloseOutcome, QueuedTurn, SessionActorState, SessionPhase, TurnAdmissionError,
};
use xiaoo_shared::session_base::channel_session_id;
use xiaoo_shared::session_lease::{LeaseAcquireOutcome, LeaseCheckFailure, SessionLeaseTable, STALE_LEASE_THRESHOLD_MS};
use xiaoo_shared::turn_flow::{
    hooks_enabled, plan_session_record_update, session_lifecycle_hook_point, stamp_and_cap_send_prompt_actions, PromptAction,
};

const NOW: u64 = 10_000_000;
const STALE: u64 = NOW - STALE_LEASE_THRESHOLD_MS - 1_000;

#[test]
fn acquire_then_busy_for_other_client() {
    let mut table = SessionLeaseTable::new();
    let outcome_a = table.acquire_at("s1", "client-a", Some(1), Some("host-a".to_string()), NOW);
    assert!(matches!(outcome_a, LeaseAcquireOutcome::Acquired));

    let outcome_b = table.acquire_at("s1", "client-b", Some(2), Some("host-b".to_string()), NOW);
    match outcome_b {
        LeaseAcquireOutcome::Busy { holder_client_id, .. } => assert_eq!(holder_client_id, "client-a"),
        other => panic!("expected Busy, got {other:?}"),
    }
}

#[test]
fn stale_lease_taken_over_without_force() {
    let mut table = SessionLeaseTable::new();
    let _ = table.acquire_at("s1", "client-a", Some(1), None, STALE);
    let outcome = table.acquire_at("s1", "client-b", Some(2), None, NOW);
    assert!(matches!(outcome, LeaseAcquireOutcome::Acquired));
}

#[test]
fn heartbeat_returns_error_when_taken_over() {
    let mut table = SessionLeaseTable::new();
    let _ = table.acquire_at("s1", "client-a", Some(1), None, STALE);
    assert!(table.heartbeat_at("s1", "client-a", None, None, STALE).is_ok());
    let _ = table.acquire_at("s1", "client-b", Some(2), None, NOW);
    let result = table.heartbeat_at("s1", "client-a", None, None, NOW);
    match result {
        Err(LeaseCheckFailure::Busy { holder_client_id, stale: false, .. }) => assert_eq!(holder_client_id, "client-b"),
        other => panic!("expected Busy(holder=client-b, stale=false), got {other:?}"),
    }
}

#[test]
fn detach_only_releases_self_lease() {
    let mut table = SessionLeaseTable::new();
    let _ = table.acquire("s1", "client-a", Some(1), None);
    table.detach("s1", "client-b");
    assert!(table.check_holder("s1", Some("client-a")).is_ok());
    table.detach("s1", "client-a");
    assert!(table.check_holder("s1", Some("client-a")).is_ok());
    assert!(table.check_holder("s1", Some("client-b")).is_ok());
    let outcome = table.acquire("s1", "client-b", Some(2), None);
    assert!(matches!(outcome, LeaseAcquireOutcome::Acquired));
}

#[test]
fn check_holder_returns_ok_when_no_lease() {
    let table = SessionLeaseTable::new();
    assert!(table.check_holder("s1", Some("client-a")).is_ok());
    assert!(table.check_holder("s1", None).is_ok());
}

#[test]
fn check_holder_does_not_take_over_stale_lease() {
    let mut table = SessionLeaseTable::new();
    let _ = table.acquire_at("s1", "client-a", Some(1), None, STALE);
    assert!(table.check_holder_at("s1", Some("client-b"), NOW).is_ok());
    match table.heartbeat_at("s1", "client-b", None, None, NOW) {
        Err(LeaseCheckFailure::Busy { holder_client_id, stale: true, .. }) => assert_eq!(holder_client_id, "client-a"),
        other => panic!("expected Busy(holder=client-a, stale=true), got {other:?}"),
    }
}

#[test]
fn check_or_takeover_holder_takes_over_stale_lease_for_identified_caller() {
    let mut table = SessionLeaseTable::new();
    let _ = table.acquire_at("s1", "client-a", Some(1), None, STALE);
    assert!(table.check_or_takeover_holder_at("s1", Some("client-b"), NOW).is_ok());
    match table.heartbeat_at("s1", "client-a", None, None, NOW) {
        Err(LeaseCheckFailure::Busy { holder_client_id, .. }) => assert_eq!(holder_client_id, "client-b"),
        other => panic!("expected Busy(holder=client-b), got {other:?}"),
    }
    assert!(table.heartbeat_at("s1", "client-b", None, None, NOW).is_ok());
}

#[test]
fn check_or_takeover_holder_allows_anonymous_caller_through_stale_lease_without_takeover() {
    let mut table = SessionLeaseTable::new();
    let _ = table.acquire_at("s1", "client-a", Some(1), None, STALE);
    assert!(table.check_or_takeover_holder_at("s1", None, NOW).is_ok());
    let snapshot = table.snapshot();
    let (_, holder, _) = snapshot.iter().find(|(sid, _, _)| sid == "s1").expect("lease still recorded");
    assert_eq!(holder, "client-a", "anonymous caller must not take over");
}

#[test]
fn daemon_principals_are_recognised() {
    assert_eq!(daemon_cron_principal(), "daemon:cron");
    assert_eq!(daemon_hook_principal("h1"), "daemon:hook:h1");
    assert_eq!(daemon_channel_principal("c1"), "daemon:channel:c1");
    assert!(is_daemon_principal(&daemon_hook_principal("x")));
    assert!(!is_daemon_principal("client-a"));
    assert_eq!(channel_session_id("slack", None, "conv"), "slack:conv");
    assert_eq!(channel_session_id("slack", Some("ws1"), "conv"), "ws1:conv");
}

fn turn(ticket: u64, client: Option<&str>) -> QueuedTurn {
    QueuedTurn { ticket, client_id: client.map(|c| c.to_string()) }
}

#[test]
fn actor_runs_turns_in_order_and_refuses_taken_over_ones() {
    let mut leases = SessionLeaseTable::new();
    let _ = leases.acquire_at("s1", "client-b", None, None, NOW);
    let mut actor = SessionActorState::new();
    assert_eq!(try_increment_queue_depth(false, 0).ok(), Some(1));
    actor.queue_depth = 3;
    assert!(actor.on_run_turn(turn(1, Some("client-a"))));
    assert!(actor.on_run_turn(turn(2, Some("daemon:cron"))));
    assert!(actor.on_run_turn(turn(3, Some("client-b"))));
    let step = actor.start_next_turn_at(&leases, "s1", NOW);
    assert_eq!(step.refused.len(), 1);
    assert_eq!(step.refused[0].0, 1);
    assert_eq!(step.started.as_ref().map(|t| t.ticket), Some(2));
    assert_eq!(actor.phase, SessionPhase::Running);
    assert_eq!(actor.active_turn, Some(2));
    assert_eq!(actor.queue_depth, 1);
    let again = actor.start_next_turn_at(&leases, "s1", NOW);
    assert!(again.started.is_none());
    assert!(!actor.on_active_done());
    assert_eq!(actor.phase, SessionPhase::Idle);
    let third = actor.start_next_turn_at(&leases, "s1", NOW);
    assert_eq!(third.started.map(|t| t.ticket), Some(3));
}

#[test]
fn forced_close_drains_queue_and_waits_for_running_turn() {
    let leases = SessionLeaseTable::new();
    let mut actor = SessionActorState::new();
    actor.queue_depth = 2;
    assert!(actor.on_run_turn(turn(1, None)));
    assert!(actor.on_run_turn(turn(2, None)));
    let _ = actor.start_next_turn_at(&leases, "s1", NOW);
    let close = actor.begin_force_close();
    assert_eq!(close.cancel, Some(1));
    assert_eq!(close.refused, vec![2]);
    assert_eq!(close.outcome, CloseOutcome::WaitForActiveTurn);
    assert_eq!(actor.begin_force_close().outcome, CloseOutcome::AlreadyClosing);
    actor.queue_depth += 1;
    assert!(!actor.on_run_turn(turn(3, None)));
    assert!(actor.on_active_done());
    assert_eq!(actor.phase, SessionPhase::Closed);
    assert_eq!(actor.begin_force_close().outcome, CloseOutcome::AlreadyClosed);
    assert!(matches!(try_increment_queue_depth(true, 0), Err(TurnAdmissionError::SessionClosed)));
    assert!(matches!(try_increment_queue_depth(false, 16), Err(TurnAdmissionError::SessionBusy { .. })));
}

#[test]
fn idle_session_hibernates_only_when_quiet_and_old() {
    let mut actor = SessionActorState::new();
    assert!(actor.may_hibernate(100, 200));
    assert!(!actor.may_hibernate(300, 200));
    actor.hibernate();
    assert_eq!(actor.phase, SessionPhase::Paused);
    actor.queue_depth = 1;
    assert!(!actor.on_run_turn(turn(9, None)));
}

#[test]
fn turn_flow_decisions() {
    assert!(!hooks_enabled(true, Some("chatbot")));
    assert!(hooks_enabled(false, Some("chatbot")));
    assert!(hooks_enabled(true, None));
    assert_eq!(session_lifecycle_hook_point("agent", "created"), "agent.Session.lifecycle.created");
    let plan = plan_session_record_update(false, true, false, false);
    assert!(plan.resume_paused && plan.touch && plan.save);
    let plan = plan_session_record_update(false, false, false, true);
    assert!(!plan.touch && plan.save);
    let actions = vec![
        PromptAction::SendPrompt { session_id: "s".to_string(), text: "t".to_string(), chain_depth: 99 },
        PromptAction::Other(5),
    ];
    let kept = stamp_and_cap_send_prompt_actions(actions, 2, 4);
    assert_eq!(kept.len(), 2);
    assert!(matches!(kept[0], PromptAction::SendPrompt { chain_depth: 3, .. }));
    let capped = stamp_and_cap_send_prompt_actions(
        vec![PromptAction::SendPrompt { session_id: "s".to_string(), text: "t".to_string(), chain_depth: 0 }],
        3,
        4,
    );
    assert!(capped.is_empty());
}
