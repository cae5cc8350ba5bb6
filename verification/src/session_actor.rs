//! The decisions of a session's actor: which queued turn runs next, when a
//! turn is refused, how a forced close drains the queue, and when an idle
//! session may hibernate. The caller runs the loop: it holds the turns'
//! payloads and reply channels under their tickets, performs what each step
//! asks for (start, reply, cancel, close), and feeds the outcomes back.

use vstd::prelude::*;
use crate::principal::{daemon_prefix, is_daemon_principal};
use crate::session_lease::{check_holder_spec, check_view, LeaseCheckFailure, LeaseOutcome, LeaseMap, SessionLeaseTable};
use crate::session_record::SessionLifecycleStatus;
use crate::text::has_prefix;

verus! {

/// Capacity of a session's queue of root turns.
pub const SESSION_COMMAND_QUEUE_CAPACITY: usize = 16;

#[derive(Debug, Clone, Copy, PartialEq, Eq, Structural)]
pub enum SessionPhase {
    Idle,
    Running,
    Paused,
    Closing,
    Closed,
}

/// A turn waiting in the queue: the caller's ticket for it, and the client
/// that submitted it.
#[derive(Debug)]
pub struct QueuedTurn {
    pub ticket: u64,
    pub client_id: Option<String>,
}

pub open spec fn turn_view(t: QueuedTurn) -> (u64, Option<Seq<char>>) {
    (t.ticket, match t.client_id { Some(c) => Some(c@), None => None })
}

pub open spec fn turns_view(s: Seq<QueuedTurn>) -> Seq<(u64, Option<Seq<char>>)> {
    s.map_values(|t: QueuedTurn| turn_view(t))
}

/// The actor's state.
#[derive(Debug)]
pub struct SessionActorState {
    pub phase: SessionPhase,
    /// Turns waiting to run, oldest first.
    pub pending: Vec<QueuedTurn>,
    /// Ticket of the running turn.
    pub active_turn: Option<u64>,
    /// Turns admitted by the handle and not yet started or refused.
    pub queue_depth: usize,
    /// Set while the orphan reaper is deciding whether to close the session.
    pub closing: bool,
    /// A forced close waits for the running turn to finish.
    pub close_waiting: bool,
}

/// Whether the phase refuses new turns.
pub open spec fn phase_refuses(p: SessionPhase) -> bool {
    p == SessionPhase::Paused || p == SessionPhase::Closing || p == SessionPhase::Closed
}

/// Whether a queued turn is refused when it reaches the front: it names a
/// client that is not a daemon principal and is not let through by the
/// lease holder check.
pub open spec fn pop_rejects(t: LeaseMap, session_id: Seq<char>, client_id: Option<Seq<char>>, now: u64) -> bool {
    match client_id {
        Some(c) => c.len() > 0 && !has_prefix(c, daemon_prefix())
            && !(check_holder_spec(t, session_id, Some(c), now) is Granted),
        None => false,
    }
}

/// How many turns at the front of `p` are refused before one may run.
pub open spec fn refused_prefix(p: Seq<(u64, Option<Seq<char>>)>, t: LeaseMap, session_id: Seq<char>, now: u64) -> int
    decreases p.len(),
{
    if p.len() == 0 {
        0
    } else if pop_rejects(t, session_id, p[0].1, now) {
        1 + refused_prefix(p.drop_first(), t, session_id, now)
    } else {
        0
    }
}

/// Why the handle refuses to queue a turn.
#[derive(Debug)]
pub enum TurnAdmissionError {
    SessionClosed,
    SessionBusy { message: String },
}

/// Count a new turn into the queue: refused while the session is closing,
/// or when the queue is at capacity; otherwise the new depth.
pub fn try_increment_queue_depth(closing: bool, queue_depth: usize) -> (r: Result<usize, TurnAdmissionError>)
    ensures
        closing ==> r matches Err(TurnAdmissionError::SessionClosed),
        !closing && queue_depth >= SESSION_COMMAND_QUEUE_CAPACITY ==> (r matches Err(TurnAdmissionError::SessionBusy { message })
            && message@ == "session root turn queue is full"@),
        !closing && queue_depth < SESSION_COMMAND_QUEUE_CAPACITY ==> r == Ok::<usize, TurnAdmissionError>((queue_depth + 1) as usize),
{
    if closing {
        return Err(TurnAdmissionError::SessionClosed);
    }
    if queue_depth >= SESSION_COMMAND_QUEUE_CAPACITY {
        return Err(TurnAdmissionError::SessionBusy { message: String::from_str("session root turn queue is full") });
    }
    Ok(queue_depth + 1)
}

/// Outcome of the pop-time check of one queued turn.
pub fn should_reject_at_pop_time(turn: &QueuedTurn, leases: &SessionLeaseTable, session_id: &str, now: u64) -> (r: Option<LeaseCheckFailure>)
    requires
        leases.wf(),
    ensures
        r is Some == pop_rejects(leases@, session_id@, turn_view(*turn).1, now),
        r matches Some(f) ==> check_view(Err(f)) == check_holder_spec(leases@, session_id@, turn_view(*turn).1, now),
{
    let client_id = match &turn.client_id {
        Some(c) => c,
        None => return None,
    };
    if client_id.as_str().is_empty() {
        return None;
    }
    if is_daemon_principal(client_id.as_str()) {
        return None;
    }
    match leases.check_holder_at(session_id, Some(client_id.as_str()), now) {
        Ok(()) => None,
        Err(f) => Some(f),
    }
}

/// What a forced close asks of the caller.
#[derive(Debug, Clone, Copy, PartialEq, Eq, Structural)]
pub enum CloseOutcome {
    /// The session was closed before: answer with its record.
    AlreadyClosed,
    /// Close the session now and answer with the closed record.
    Finish,
    /// Keep the reply until the running turn finishes.
    WaitForActiveTurn,
    /// Another close is already waiting: answer that the session is busy.
    AlreadyClosing,
}

/// One step of a forced close.
#[derive(Debug)]
pub struct ForceCloseStep {
    /// Running turn to cancel.
    pub cancel: Option<u64>,
    /// Queued turns to refuse as closed, oldest first.
    pub refused: Vec<u64>,
    pub outcome: CloseOutcome,
}

/// Turns refused at the front of the queue, and the turn to start.
#[derive(Debug)]
pub struct TurnStart {
    pub refused: Vec<(u64, LeaseCheckFailure)>,
    pub started: Option<QueuedTurn>,
}

/// What starting the next turn at `now` does: nothing while a turn runs,
/// the session refuses turns, closes, or has none waiting; otherwise the
/// waiting turns whose client fails the lease check at `now` are refused
/// in order, and the first that passes starts.
pub open spec fn turn_start_at(before: SessionActorState, after: SessionActorState, step: TurnStart, leases: LeaseMap,
    session_id: Seq<char>, now: u64) -> bool {
    &&& after.wf()
    &&& after.in_flight() == before.in_flight()
    &&& after.closing == before.closing && after.close_waiting == before.close_waiting
    &&& (before.active_turn is Some || phase_refuses(before.phase) || before.closing || before.pending@.len() == 0)
        ==> (step.refused@.len() == 0 && step.started is None
            && turns_view(after.pending@) == turns_view(before.pending@)
            && after.queue_depth == before.queue_depth && after.phase == before.phase
            && after.active_turn == before.active_turn)
    &&& !(before.active_turn is Some || phase_refuses(before.phase) || before.closing || before.pending@.len() == 0)
        ==> ({
            let p = turns_view(before.pending@);
            let k = refused_prefix(p, leases, session_id, now);
            &&& 0 <= k <= p.len()
            &&& step.refused@.len() == k
            &&& forall|j: int| 0 <= j < k ==> (#[trigger] step.refused@[j]).0 == p[j].0
                && check_view(Err(step.refused@[j].1)) == check_holder_spec(leases, session_id, p[j].1, now)
            &&& k < p.len() ==> (step.started matches Some(t) && turn_view(t) == p[k]
                && turns_view(after.pending@) == p.skip(k + 1)
                && after.active_turn == Some(p[k].0)
                && after.phase == SessionPhase::Running
                && after.queue_depth == before.queue_depth - k - 1)
            &&& k == p.len() ==> (step.started is None && after.pending@.len() == 0
                && after.queue_depth == before.queue_depth - k
                && after.phase == before.phase && after.active_turn == before.active_turn)
        })
}

impl SessionActorState {
    /// The actor's invariant: every queued turn is counted; a running turn
    /// exists exactly while running or closing around it; a waiting close
    /// has a turn to wait for; a paused, closing or closed session holds no
    /// queued turn.
    pub open spec fn wf(&self) -> bool {
        &&& self.queue_depth >= self.pending@.len()
        &&& (self.active_turn is Some ==> self.phase == SessionPhase::Running || self.phase == SessionPhase::Closing)
        &&& (self.phase == SessionPhase::Running ==> self.active_turn is Some)
        &&& (self.close_waiting ==> self.active_turn is Some && self.phase == SessionPhase::Closing)
        &&& (phase_refuses(self.phase) ==> self.pending@.len() == 0)
    }

    /// Turns admitted by the handle that have not reached the actor.
    pub open spec fn in_flight(&self) -> int {
        self.queue_depth - self.pending@.len()
    }

    pub fn new() -> (s: Self)
        ensures
            s.wf(),
            s.phase == SessionPhase::Idle && s.pending@.len() == 0 && s.active_turn is None && s.queue_depth == 0
                && !s.closing && !s.close_waiting,
    {
        SessionActorState {
            phase: SessionPhase::Idle,
            pending: Vec::new(),
            active_turn: None,
            queue_depth: 0,
            closing: false,
            close_waiting: false,
        }
    }

    /// A turn arrives. It is queued, unless the session is paused, closing
    /// or closed, in which case it is refused (`false`) and uncounted.
    pub fn on_run_turn(&mut self, turn: QueuedTurn) -> (queued: bool)
        requires
            old(self).wf(),
            old(self).in_flight() >= 1,
        ensures
            final(self).wf(),
            queued == !phase_refuses(old(self).phase),
            queued ==> turns_view(final(self).pending@) == turns_view(old(self).pending@).push(turn_view(turn))
                && final(self).queue_depth == old(self).queue_depth,
            !queued ==> final(self).pending@ == old(self).pending@ && final(self).queue_depth == old(self).queue_depth - 1,
            final(self).phase == old(self).phase && final(self).active_turn == old(self).active_turn
                && final(self).closing == old(self).closing && final(self).close_waiting == old(self).close_waiting,
            final(self).in_flight() == old(self).in_flight() - 1,
    {
        if self.phase == SessionPhase::Paused || self.phase == SessionPhase::Closing || self.phase == SessionPhase::Closed {
            self.queue_depth = self.queue_depth - 1;
            return false;
        }
        let ghost before = self.pending@;
        self.pending.push(turn);
        assert(turns_view(self.pending@) =~= turns_view(before).push(turn_view(turn)));
        true
    }

    /// Start the next turn if the session may run one: turns at the front
    /// whose submitter lost the lease are refused, then the first eligible
    /// one starts. While the reaper's `closing` flag is set nothing is
    /// popped or refused.
    pub fn start_next_turn_at(&mut self, leases: &SessionLeaseTable, session_id: &str, now: u64) -> (step: TurnStart)
        requires
            old(self).wf(),
            leases.wf(),
        ensures
            final(self).wf(),
            final(self).in_flight() == old(self).in_flight(),
            final(self).closing == old(self).closing && final(self).close_waiting == old(self).close_waiting,
            (old(self).active_turn is Some || phase_refuses(old(self).phase) || old(self).closing
                || old(self).pending@.len() == 0) ==> (step.refused@.len() == 0 && step.started is None
                && turns_view(final(self).pending@) == turns_view(old(self).pending@)
                && final(self).queue_depth == old(self).queue_depth && final(self).phase == old(self).phase
                && final(self).active_turn == old(self).active_turn),
            !(old(self).active_turn is Some || phase_refuses(old(self).phase) || old(self).closing
                || old(self).pending@.len() == 0) ==> ({
                let p = turns_view(old(self).pending@);
                let k = refused_prefix(p, leases@, session_id@, now);
                &&& 0 <= k <= p.len()
                &&& step.refused@.len() == k
                &&& forall|j: int| 0 <= j < k ==> (#[trigger] step.refused@[j]).0 == p[j].0
                    && check_view(Err(step.refused@[j].1)) == check_holder_spec(leases@, session_id@, p[j].1, now)
                &&& k < p.len() ==> (step.started matches Some(t) && turn_view(t) == p[k]
                    && turns_view(final(self).pending@) == p.skip(k + 1)
                    && final(self).active_turn == Some(p[k].0)
                    && final(self).phase == SessionPhase::Running
                    && final(self).queue_depth == old(self).queue_depth - k - 1)
                &&& k == p.len() ==> (step.started is None && final(self).pending@.len() == 0
                    && final(self).queue_depth == old(self).queue_depth - k
                    && final(self).phase == old(self).phase && final(self).active_turn == old(self).active_turn)
            }),
            turn_start_at(*old(self), *final(self), step, leases@, session_id@, now),
    {
        let mut refused: Vec<(u64, LeaseCheckFailure)> = Vec::new();
        if self.active_turn.is_some() || self.phase == SessionPhase::Paused || self.phase == SessionPhase::Closing
            || self.phase == SessionPhase::Closed || self.closing || self.pending.len() == 0 {
            return TurnStart { refused, started: None };
        }
        let ghost p = turns_view(self.pending@);
        let ghost d0 = self.queue_depth;
        let mut found: Option<QueuedTurn> = None;
        assert(turns_view(self.pending@) =~= p.skip(0));
        while found.is_none() && self.pending.len() > 0
            invariant
                leases.wf(),
                p.len() <= d0,
                found is None ==> ({
                    &&& turns_view(self.pending@) == p.skip(refused@.len() as int)
                    &&& refused@.len() <= p.len()
                    &&& self.queue_depth == d0 - refused@.len()
                    &&& refused_prefix(p, leases@, session_id@, now) == refused@.len()
                        + refused_prefix(p.skip(refused@.len() as int), leases@, session_id@, now)
                }),
                found matches Some(t) ==> ({
                    &&& refused@.len() < p.len()
                    &&& turn_view(t) == p[refused@.len() as int]
                    &&& turns_view(self.pending@) == p.skip(refused@.len() as int + 1)
                    &&& self.queue_depth == d0 - refused@.len()
                    &&& refused_prefix(p, leases@, session_id@, now) == refused@.len()
                }),
                forall|j: int| 0 <= j < refused@.len() ==> (#[trigger] refused@[j]).0 == p[j].0
                    && check_view(Err(refused@[j].1)) == check_holder_spec(leases@, session_id@, p[j].1, now),
                self.phase == old(self).phase,
                self.active_turn == old(self).active_turn,
                self.closing == old(self).closing,
                self.close_waiting == old(self).close_waiting,
            decreases self.pending@.len(),
        {
            let ghost i = refused@.len() as int;
            let ghost before = self.pending@;
            let next = self.pending.remove(0);
            proof {
                assert(next == before[0]);
                assert(turns_view(before)[0] == turn_view(before[0]));
                assert(turns_view(before).len() == before.len());
                assert(p.skip(i).len() > 0);
                assert(i < p.len());
                assert(turns_view(before)[0] == p.skip(i)[0]);
                assert(p.skip(i)[0] == p[i]);
                assert(turn_view(next) == p[i]);
                assert(turns_view(self.pending@) =~= p.skip(i + 1)) by {
                    assert(turns_view(self.pending@) =~= turns_view(before).drop_first());
                }
                assert(p.skip(i).drop_first() =~= p.skip(i + 1));
                assert(p.skip(i)[0] == p[i]);
            }
            match should_reject_at_pop_time(&next, leases, session_id, now) {
                Some(failure) => {
                    self.queue_depth = self.queue_depth - 1;
                    refused.push((next.ticket, failure));
                },
                None => {
                    found = Some(next);
                },
            }
        }
        match found {
            Some(turn) => {
                self.queue_depth = self.queue_depth - 1;
                self.active_turn = Some(turn.ticket);
                self.phase = SessionPhase::Running;
                TurnStart { refused, started: Some(turn) }
            },
            None => {
                proof {
                    assert(p.skip(refused@.len() as int).len() == 0);
                    assert(refused_prefix(p.skip(refused@.len() as int), leases@, session_id@, now) == 0);
                }
                TurnStart { refused, started: None }
            },
        }
    }

    /// `start_next_turn_at` at the wall-clock time.
    pub fn start_next_turn(&mut self, leases: &SessionLeaseTable, session_id: &str) -> (step: TurnStart)
        requires
            old(self).wf(),
            leases.wf(),
        ensures
            final(self).wf(),
            final(self).in_flight() == old(self).in_flight(),
            (old(self).active_turn is Some || phase_refuses(old(self).phase) || old(self).closing) ==> step.started is None
                && step.refused@.len() == 0,
            exists|now: u64| #[trigger] turn_start_at(*old(self), *final(self), step, leases@, session_id@, now),
    {
        let now = crate::clock::current_time_ms();
        let step = self.start_next_turn_at(leases, session_id, now);
        assert(turn_start_at(*old(self), *self, step, leases@, session_id@, now));
        step
    }

    /// The running turn finished. Returns whether a waiting forced close now
    /// completes (the session is then closed).
    pub fn on_active_done(&mut self) -> (finish_close: bool)
        requires
            old(self).wf(),
        ensures
            final(self).wf(),
            finish_close == old(self).close_waiting,
            final(self).active_turn is None && !final(self).close_waiting,
            finish_close ==> final(self).phase == SessionPhase::Closed,
            !finish_close ==> final(self).phase == (if old(self).phase == SessionPhase::Closed { SessionPhase::Closed }
                else if old(self).phase == SessionPhase::Closing { SessionPhase::Closing } else if old(self).phase == SessionPhase::Paused {
                SessionPhase::Paused } else { SessionPhase::Idle }),
            turns_view(final(self).pending@) == turns_view(old(self).pending@),
            final(self).queue_depth == old(self).queue_depth && final(self).closing == old(self).closing,
    {
        self.active_turn = None;
        if self.close_waiting {
            self.close_waiting = false;
            self.phase = SessionPhase::Closed;
            return true;
        }
        if self.phase == SessionPhase::Running || self.phase == SessionPhase::Idle {
            self.phase = SessionPhase::Idle;
        }
        false
    }

    /// Begin a forced close: refuse every queued turn, cancel the running
    /// one, and either close now or wait for the running turn to finish.
    pub fn begin_force_close(&mut self) -> (step: ForceCloseStep)
        requires
            old(self).wf(),
        ensures
            final(self).wf(),
            final(self).in_flight() == old(self).in_flight(),
            final(self).closing == old(self).closing,
            old(self).phase == SessionPhase::Closed ==> step.outcome == CloseOutcome::AlreadyClosed
                && step.refused@.len() == 0 && step.cancel is None
                && final(self).phase == SessionPhase::Closed && final(self).active_turn == old(self).active_turn
                && final(self).close_waiting == old(self).close_waiting,
            old(self).phase != SessionPhase::Closed ==> ({
                &&& step.refused@ == turns_view(old(self).pending@).map_values(|t: (u64, Option<Seq<char>>)| t.0)
                &&& final(self).pending@.len() == 0
                &&& final(self).queue_depth == old(self).queue_depth - old(self).pending@.len()
                &&& step.cancel == old(self).active_turn
                &&& final(self).active_turn == old(self).active_turn
                &&& old(self).active_turn is None ==> step.outcome == CloseOutcome::Finish && final(self).phase == SessionPhase::Closed
                    && !final(self).close_waiting
                &&& old(self).active_turn is Some ==> final(self).phase == SessionPhase::Closing && final(self).close_waiting
                    && step.outcome == (if old(self).close_waiting { CloseOutcome::AlreadyClosing } else { CloseOutcome::WaitForActiveTurn })
            }),
    {
        if self.phase == SessionPhase::Closed {
            return ForceCloseStep { cancel: None, refused: Vec::new(), outcome: CloseOutcome::AlreadyClosed };
        }
        self.phase = SessionPhase::Closing;
        let cancel = self.active_turn;
        let ghost p = turns_view(self.pending@);
        let ghost d0 = self.queue_depth;
        let mut refused: Vec<u64> = Vec::new();
        assert(turns_view(self.pending@) =~= p.skip(0));
        while self.pending.len() > 0
            invariant
                p.len() <= d0,
                refused@.len() <= p.len(),
                turns_view(self.pending@) == p.skip(refused@.len() as int),
                refused@ == p.take(refused@.len() as int).map_values(|t: (u64, Option<Seq<char>>)| t.0),
                self.queue_depth == d0 - refused@.len(),
                self.phase == SessionPhase::Closing,
                self.active_turn == old(self).active_turn,
                self.close_waiting == old(self).close_waiting,
                self.closing == old(self).closing,
            decreases self.pending@.len(),
        {
            let ghost i = refused@.len() as int;
            let ghost before = self.pending@;
            let turn = self.pending.remove(0);
            proof {
                assert(turn == before[0]);
                assert(turns_view(before)[0] == turn_view(before[0]));
                assert(turns_view(before).len() == before.len());
                assert(p.skip(i).len() > 0);
                assert(i < p.len());
                assert(turns_view(before)[0] == p.skip(i)[0]);
                assert(p.skip(i)[0] == p[i]);
                assert(turns_view(self.pending@) =~= turns_view(before).drop_first());
                assert(turns_view(self.pending@) =~= p.skip(i + 1));
            }
            self.queue_depth = self.queue_depth - 1;
            refused.push(turn.ticket);
            assert(refused@ =~= p.take(i + 1).map_values(|t: (u64, Option<Seq<char>>)| t.0));
        }
        assert(p.take(p.len() as int) =~= p);
        match self.active_turn {
            Some(_) => {
                let outcome = if self.close_waiting { CloseOutcome::AlreadyClosing } else { CloseOutcome::WaitForActiveTurn };
                self.close_waiting = true;
                ForceCloseStep { cancel, refused, outcome }
            },
            None => {
                self.phase = SessionPhase::Closed;
                ForceCloseStep { cancel, refused, outcome: CloseOutcome::Finish }
            },
        }
    }

    /// The running turn to cancel, if any.
    pub fn cancel_active_turn(&self) -> (t: Option<u64>)
        ensures
            t == self.active_turn,
    {
        self.active_turn
    }

    /// Whether nothing runs, waits or is on its way: the first condition for
    /// hibernation.
    pub fn is_quiescent(&self) -> (r: bool)
        ensures
            r == (self.phase == SessionPhase::Idle && self.active_turn is None && self.pending@.len() == 0
                && self.queue_depth == 0),
    {
        self.phase == SessionPhase::Idle && self.active_turn.is_none() && self.pending.len() == 0 && self.queue_depth == 0
    }

    /// Whether the session may hibernate: quiescent, and last active no
    /// later than `idle_before_ms`.
    pub fn may_hibernate(&self, updated_at_ms: u64, idle_before_ms: u64) -> (r: bool)
        ensures
            r == (self.phase == SessionPhase::Idle && self.active_turn is None && self.pending@.len() == 0
                && self.queue_depth == 0 && updated_at_ms <= idle_before_ms),
    {
        self.is_quiescent() && updated_at_ms <= idle_before_ms
    }

    /// Enter the paused phase after hibernating.
    pub fn hibernate(&mut self)
        requires
            old(self).wf(),
            old(self).phase == SessionPhase::Idle,
            old(self).active_turn is None,
            old(self).pending@.len() == 0,
        ensures
            final(self).wf(),
            final(self).phase == SessionPhase::Paused,
            final(self).active_turn is None && final(self).pending@.len() == 0,
            final(self).queue_depth == old(self).queue_depth && final(self).closing == old(self).closing
                && final(self).close_waiting == old(self).close_waiting,
    {
        self.phase = SessionPhase::Paused;
    }
}

/// The lifecycle status published for a phase: an idle session reports its
/// recorded status; running and closing sessions report running.
pub open spec fn lifecycle_spec(phase: SessionPhase, recorded: SessionLifecycleStatus) -> SessionLifecycleStatus {
    match phase {
        SessionPhase::Idle => recorded,
        SessionPhase::Running | SessionPhase::Closing => SessionLifecycleStatus::Running,
        SessionPhase::Paused => SessionLifecycleStatus::Paused,
        SessionPhase::Closed => SessionLifecycleStatus::Closed,
    }
}

pub fn lifecycle_for_phase(phase: SessionPhase, recorded: SessionLifecycleStatus) -> (s: SessionLifecycleStatus)
    ensures
        s == lifecycle_spec(phase, recorded),
{
    match phase {
        SessionPhase::Idle => recorded,
        SessionPhase::Running | SessionPhase::Closing => SessionLifecycleStatus::Running,
        SessionPhase::Paused => SessionLifecycleStatus::Paused,
        SessionPhase::Closed => SessionLifecycleStatus::Closed,
    }
}

/// Once a session is closing or closed it never starts another turn.
pub proof fn law_no_turn_after_close(phase: SessionPhase)
    ensures
        (phase == SessionPhase::Closing || phase == SessionPhase::Closed) ==> phase_refuses(phase),
{
}

} // verus!
