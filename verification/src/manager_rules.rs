//! Decisions of the backend manager: which backends count against the
//! shared sandbox limit, which checkpoints can be checked out or deleted,
//! the live counts that the counter is reconciled to, and the retry loop
//! that reserves a sandbox slot, evicting idle sandboxes when the pool is
//! full.

use vstd::prelude::*;
use crate::backend_base::BackendError;
use crate::backend_registry::BackendRegistryEntry;
use crate::strmap::{str_equal, StrMap};
use crate::text::{decimal, push_decimal, push_str};

verus! {

/// Whether backends of `kind` take a slot of the shared sandbox counter and
/// appear in the shared registry (local backends never do).
pub fn is_counted_kind(kind: &str) -> (r: bool)
    ensures
        r == (kind@ == "e2b"@ || kind@ == "conch"@),
{
    str_equal(kind, "e2b") || str_equal(kind, "conch")
}

/// The id a manager gives its process: the OS process id and the start time.
pub fn manager_process_id(pid: u32, started_at_ms: u64) -> (s: String)
    ensures
        s@ == decimal(pid as nat) + "_"@ + decimal(started_at_ms as nat),
{
    let mut s = String::new();
    push_decimal(&mut s, pid as u64);
    push_str(&mut s, "_");
    push_decimal(&mut s, started_at_ms);
    proof {
        assert(s@ =~= decimal(pid as nat) + "_"@ + decimal(started_at_ms as nat));
    }
    s
}

/// The name of the checkpoint taken before evicting `backend_id`.
pub fn eviction_checkpoint_name(backend_id: &str) -> (s: String)
    ensures
        s@ == "eviction-"@ + backend_id@,
{
    let mut s = String::from_str("eviction-");
    push_str(&mut s, backend_id);
    s
}

/// `<provider><suffix>` as an unsupported-backend error.
fn unsupported(provider: &str, suffix: &str) -> (e: BackendError)
    ensures
        e matches BackendError::UnsupportedBackend { kind } && kind@ == provider@ + suffix@,
{
    let mut kind = String::from_str(provider);
    push_str(&mut kind, suffix);
    BackendError::UnsupportedBackend { kind }
}

/// The provider snapshot a checkpoint is checked out from: only an e2b
/// checkpoint with a provider snapshot can be; any other is unsupported as
/// `<provider>:checkout`.
pub fn checkout_snapshot_id(provider: &str, provider_snapshot_id: Option<String>) -> (r: Result<String, BackendError>)
    ensures
        (provider@ == "e2b"@ && provider_snapshot_id is Some) ==> r == Ok::<String, BackendError>(provider_snapshot_id->0),
        !(provider@ == "e2b"@ && provider_snapshot_id is Some) ==> (r matches Err(BackendError::UnsupportedBackend { kind })
            && kind@ == provider@ + ":checkout"@),
{
    match provider_snapshot_id {
        Some(id) => {
            if str_equal(provider, "e2b") {
                Ok(id)
            } else {
                Err(unsupported(provider, ":checkout"))
            }
        },
        None => Err(unsupported(provider, ":checkout")),
    }
}

/// The provider snapshot that deleting a checkpoint's snapshot deletes:
/// none for a checkpoint without one (nothing is deleted); a snapshot of a
/// provider other than e2b is unsupported as `<provider>:delete_snapshot`.
pub fn delete_snapshot_target(provider: &str, provider_snapshot_id: Option<String>) -> (r: Result<Option<String>, BackendError>)
    ensures
        provider_snapshot_id is None ==> r == Ok::<Option<String>, BackendError>(None),
        provider_snapshot_id is Some && provider@ == "e2b"@ ==> r == Ok::<Option<String>, BackendError>(provider_snapshot_id),
        provider_snapshot_id is Some && provider@ != "e2b"@ ==> (r matches Err(BackendError::UnsupportedBackend { kind })
            && kind@ == provider@ + ":delete_snapshot"@),
{
    match provider_snapshot_id {
        None => Ok(None),
        Some(id) => {
            if str_equal(provider, "e2b") {
                Ok(Some(id))
            } else {
                Err(unsupported(provider, ":delete_snapshot"))
            }
        },
    }
}

/// The snapshot id a fork reports: the provider's snapshot, else the
/// checkpoint's own id.
pub fn fork_snapshot_id(provider_snapshot_id: Option<String>, checkpoint_id: String) -> (s: String)
    ensures
        s == (match provider_snapshot_id { Some(p) => p, None => checkpoint_id }),
{
    match provider_snapshot_id {
        Some(p) => p,
        None => checkpoint_id,
    }
}

/// The counter key text of a registry entry.
pub open spec fn entry_key(e: BackendRegistryEntry) -> Seq<char> {
    e.sandbox_key.sandbox_type@ + ":"@ + e.sandbox_key.key_identifier@
}

/// How many of `entries` have counter key `k`.
pub open spec fn count_key(entries: Seq<BackendRegistryEntry>, k: Seq<char>) -> nat
    decreases entries.len(),
{
    if entries.len() == 0 {
        0
    } else {
        count_key(entries.drop_last(), k) + (if entry_key(entries.last()) == k { 1nat } else { 0nat })
    }
}

/// The number of registry entries per counter key, every entry counted
/// (an entry whose owner is stale still holds a remote sandbox).
pub fn live_counts(entries: &Vec<BackendRegistryEntry>) -> (m: StrMap<usize>)
    ensures
        m.wf(),
        forall|k: Seq<char>| #[trigger] m@.contains_key(k) <==> count_key(entries@, k) > 0,
        forall|k: Seq<char>| #[trigger] m@.contains_key(k) ==> m@[k] == count_key(entries@, k),
{
    let mut m: StrMap<usize> = StrMap::new();
    let n = entries.len();
    let mut i: usize = 0;
    while i < n
        invariant
            n == entries@.len(),
            i <= n,
            m.wf(),
            forall|k: Seq<char>| #[trigger] m@.contains_key(k) <==> count_key(entries@.take(i as int), k) > 0,
            forall|k: Seq<char>| #[trigger] m@.contains_key(k) ==> m@[k] == count_key(entries@.take(i as int), k),
            forall|k: Seq<char>| count_key(entries@.take(i as int), k) <= i,
        decreases n - i,
    {
        let key = entries[i].sandbox_key.to_string_key();
        let ghost t0 = entries@.take(i as int);
        let ghost t1 = entries@.take(i + 1);
        proof {
            assert(t1.drop_last() =~= t0);
            assert(t1.last() == entries@[i as int]);
        }
        let current: usize = match m.get(key.as_str()) {
            Some(c) => *c,
            None => 0,
        };
        assert(current == count_key(t0, key@));
        m.insert(key, current + 1);
        proof {
            assert forall|k: Seq<char>| #[trigger] m@.contains_key(k) <==> count_key(t1, k) > 0 by {}
            assert forall|k: Seq<char>| #[trigger] m@.contains_key(k) implies m@[k] == count_key(t1, k) by {}
            assert forall|k: Seq<char>| count_key(t1, k) <= i + 1 by {
                assert(count_key(t0, k) <= i);
            }
        }
        i = i + 1;
    }
    assert(entries@.take(n as int) =~= entries@);
    m
}

/// What reserving a slot gave.
#[derive(Debug, Clone, Copy, PartialEq, Eq, Structural)]
pub enum ReserveResult {
    /// A slot was reserved.
    Reserved,
    /// The key is at its limit.
    LimitReached,
    /// The counter failed otherwise (its error is the caller's to return).
    Failed,
}

/// What an eviction attempt gave.
#[derive(Debug)]
pub enum EvictOutcome {
    /// A sandbox of this process, or an orphan, was freed.
    Evicted,
    /// A live owner's sandbox was marked (this id) and its owner signalled.
    Marked(String),
    /// Nothing could be evicted, or a sandbox is already marked.
    NothingEvictable,
    /// Eviction failed otherwise (its error is the caller's to return).
    Failed,
}

/// The next thing the reservation loop does.
#[derive(Debug)]
pub enum ReserveStep {
    /// Wait briefly if `wait`, then clear the pending-eviction mark of
    /// `clear_mark` (if any), then reserve a slot; `last` marks the final try.
    Reserve { wait: bool, clear_mark: Option<String>, last: bool },
    /// Try to free a slot by eviction.
    Evict,
    /// A slot is reserved.
    Done,
    /// Return the error that the counter or the eviction gave.
    Fail,
    /// Every try is spent; the pool stays full.
    Exhausted,
    /// Every try is spent and no final try follows: wait briefly if `wait`,
    /// clear the mark of `clear_mark` (if any), and give up.
    GiveUp { wait: bool, clear_mark: Option<String> },
}

/// The state of one reservation: tries made and allowed, whether one more
/// try follows the last eviction (reserving a slot does; checking out a
/// checkpoint does not), the backend that this reservation marked for
/// eviction (if any), and whether the loop is past its last eviction.
pub struct ReserveLoop {
    pub attempt: usize,
    pub max_attempts: usize,
    pub retry_after_budget: bool,
    pub marked: Option<String>,
    pub final_try: bool,
}

impl ReserveLoop {
    pub open spec fn wf(&self) -> bool {
        1 <= self.max_attempts && self.attempt < self.max_attempts
    }

    /// A reservation allowed `max_eviction_attempts` tries (at least one);
    /// it starts by reserving.
    pub fn start(max_eviction_attempts: usize, retry_after_budget: bool) -> (r: (Self, ReserveStep))
        ensures
            r.0.wf(),
            r.0.attempt == 0,
            r.0.max_attempts == (if max_eviction_attempts > 1 { max_eviction_attempts } else { 1 }),
            r.0.retry_after_budget == retry_after_budget,
            r.0.marked is None,
            !r.0.final_try,
            r.1 matches ReserveStep::Reserve { wait, clear_mark, last } && !wait && clear_mark is None && !last,
    {
        let max_attempts = if max_eviction_attempts > 1 { max_eviction_attempts } else { 1 };
        (ReserveLoop { attempt: 0, max_attempts, retry_after_budget, marked: None, final_try: false },
            ReserveStep::Reserve { wait: false, clear_mark: None, last: false })
    }

    /// The step after a reservation: done when reserved, failing on a
    /// counter error; at the limit, evict (or, after the final try, give up).
    pub fn on_reserve(&mut self, result: ReserveResult) -> (step: ReserveStep)
        requires
            old(self).wf(),
        ensures
            *final(self) == *old(self),
            result == ReserveResult::Reserved ==> step is Done,
            result == ReserveResult::Failed ==> step is Fail,
            result == ReserveResult::LimitReached ==> (if old(self).final_try { step is Exhausted } else { step is Evict }),
    {
        match result {
            ReserveResult::Reserved => ReserveStep::Done,
            ReserveResult::Failed => ReserveStep::Fail,
            ReserveResult::LimitReached => if self.final_try { ReserveStep::Exhausted } else { ReserveStep::Evict },
        }
    }

    /// The step after an eviction attempt. A direct eviction clears this
    /// reservation's mark; a remote mark is remembered and waited on; when
    /// nothing is evictable the loop waits. The next reservation is the
    /// final one once every try is spent, and then this reservation's mark
    /// (if any) is cleared first.
    pub fn on_evict(&mut self, outcome: EvictOutcome) -> (step: ReserveStep)
        requires
            old(self).wf(),
            !old(self).final_try,
        ensures
            outcome is Failed ==> step is Fail && *final(self) == *old(self),
            !(outcome is Failed) ==> ({
                let marked = match outcome { EvictOutcome::Marked(id) => Some(id), EvictOutcome::Evicted => None,
                    _ => old(self).marked };
                let wait = !(outcome is Evicted);
                let last = old(self).attempt + 1 >= old(self).max_attempts;
                let clear = if outcome is Evicted { old(self).marked } else if last { marked } else { None };
                &&& final(self).max_attempts == old(self).max_attempts
                &&& final(self).retry_after_budget == old(self).retry_after_budget
                &&& final(self).final_try == last
                &&& final(self).marked is None || !last
                &&& !last ==> final(self).attempt == old(self).attempt + 1 && final(self).marked == marked
                &&& !last ==> final(self).wf()
                &&& last ==> final(self).attempt == old(self).attempt && final(self).wf()
                &&& (!last || old(self).retry_after_budget) ==> (step matches ReserveStep::Reserve { wait: w, clear_mark, last: l }
                    && w == wait && l == last && clear_mark == clear)
                &&& (last && !old(self).retry_after_budget) ==> (step matches ReserveStep::GiveUp { wait: w, clear_mark }
                    && w == wait && clear_mark == clear)
            }),
    {
        let wait;
        let mut clear: Option<String> = None;
        match outcome {
            EvictOutcome::Failed => return ReserveStep::Fail,
            EvictOutcome::Evicted => {
                wait = false;
                clear = self.marked.take();
            },
            EvictOutcome::Marked(id) => {
                wait = true;
                self.marked = Some(id);
            },
            EvictOutcome::NothingEvictable => {
                wait = true;
            },
        }
        let last = self.attempt + 1 >= self.max_attempts;
        if last {
            self.final_try = true;
            if clear.is_none() {
                clear = self.marked.take();
            } else {
                self.marked = None;
            }
            if !self.retry_after_budget {
                return ReserveStep::GiveUp { wait, clear_mark: clear };
            }
        } else {
            self.attempt = self.attempt + 1;
        }
        ReserveStep::Reserve { wait, clear_mark: clear, last }
    }
}

/// The error a reservation gives up with once every try is spent.
pub fn exhausted_error() -> (e: BackendError)
    ensures
        e matches BackendError::ResourceLimitExceeded { message }
            && message@ == "sandbox limit reached; no idle sandbox available to evict"@,
{
    BackendError::ResourceLimitExceeded { message: String::from_str("sandbox limit reached; no idle sandbox available to evict") }
}

} // verus!
