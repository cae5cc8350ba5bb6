//! Opt-in long-term memory automation: its configuration, and the durable
//! ingest queue's bookkeeping (admission, completion, retry with backoff).
//!
//! Recalled text is rendered as untrusted context by `memory_render`; the
//! MCP calls, the queue file and its lock stay outside.

use vstd::prelude::*;
use crate::strmap::str_equal;
use crate::text::{decimal, push_decimal, push_str};

verus! {

pub fn default_top_k() -> (n: usize)
    ensures n == 5,
{
    5
}

pub fn default_token_budget() -> (n: usize)
    ensures n == 512,
{
    512
}

pub fn default_queue_capacity() -> (n: usize)
    ensures n == 256,
{
    256
}

pub fn default_max_retries() -> (n: u32)
    ensures n == 5,
{
    5
}

pub fn default_backoff_ms() -> (n: u64)
    ensures n == 250,
{
    250
}

pub fn default_queue_path() -> (s: String)
    ensures s@ == "memory-automation-queue.jsonl"@,
{
    String::from_str("memory-automation-queue.jsonl")
}

/// Settings of the memory automation (the queue path is kept as text).
#[derive(Debug, Clone)]
pub struct MemoryAutomationConfig {
    pub enabled: bool,
    pub server: String,
    pub recall_top_k: usize,
    pub recall_token_budget: usize,
    pub context_messages: usize,
    pub queue_path: String,
    pub queue_capacity: usize,
    pub max_retries: u32,
    pub retry_backoff_ms: u64,
    pub allowed_agent_roles: Vec<String>,
}

impl MemoryAutomationConfig {
    /// The settings used when none are given: disabled, with the default limits.
    pub fn default_config() -> (c: Self)
        ensures
            !c.enabled,
            c.server@ == Seq::<char>::empty(),
            c.recall_top_k == 5,
            c.recall_token_budget == 512,
            c.context_messages == 0,
            c.queue_path@ == "memory-automation-queue.jsonl"@,
            c.queue_capacity == 256,
            c.max_retries == 5,
            c.retry_backoff_ms == 250,
            c.allowed_agent_roles@.len() == 0,
    {
        MemoryAutomationConfig {
            enabled: false,
            server: String::new(),
            recall_top_k: default_top_k(),
            recall_token_budget: default_token_budget(),
            context_messages: 0,
            queue_path: default_queue_path(),
            queue_capacity: default_queue_capacity(),
            max_retries: default_max_retries(),
            retry_backoff_ms: default_backoff_ms(),
            allowed_agent_roles: Vec::new(),
        }
    }

    /// Whether the automation serves `role`: every role when none is listed,
    /// otherwise only the listed ones.
    pub fn allowed(&self, role: &str) -> (r: bool)
        ensures
            r == (self.allowed_agent_roles@.len() == 0
                || exists|i: int| 0 <= i < self.allowed_agent_roles@.len() && #[trigger] self.allowed_agent_roles@[i]@ == role@),
    {
        let n = self.allowed_agent_roles.len();
        if n == 0 {
            return true;
        }
        let mut i: usize = 0;
        while i < n
            invariant
                n == self.allowed_agent_roles@.len(),
                i <= n,
                forall|j: int| 0 <= j < i ==> #[trigger] self.allowed_agent_roles@[j]@ != role@,
            decreases n - i,
        {
            if str_equal(self.allowed_agent_roles[i].as_str(), role) {
                return true;
            }
            i = i + 1;
        }
        false
    }
}

/// What a turn offers to a recall.
#[derive(Debug, Clone)]
pub struct TurnMemoryContext {
    pub query: String,
    pub conversation_id: String,
    pub message_id: Option<String>,
    pub sender_id: String,
    pub agent_role: String,
    pub timestamp_ms: u64,
}

/// Last observed outcome of a memory operation (an indication, not a guarantee).
#[derive(Clone, Copy, Debug, PartialEq, Eq, Structural)]
pub enum MemoryAutomationHealth {
    Healthy,
    Degraded,
}

/// A completed turn waiting to be ingested.
#[derive(Debug, Clone)]
pub struct CompletedTurnIngest {
    pub message_id: String,
    pub conversation_id: String,
    pub sender_id: String,
    pub agent_role: String,
    pub timestamp_ms: u64,
    pub user_text: String,
    pub assistant_text: String,
    pub recent_messages: Vec<String>,
    pub retries: u32,
    pub next_attempt_ms: u64,
}

impl CompletedTurnIngest {
    /// A fresh entry for tests: conversation "conversation", sender "sender",
    /// role "main", no context, never retried.
    pub fn for_test(id: &str, user: &str, assistant: &str) -> (e: Self)
        ensures
            e.message_id@ == id@,
            e.user_text@ == user@,
            e.assistant_text@ == assistant@,
            e.conversation_id@ == "conversation"@,
            e.sender_id@ == "sender"@,
            e.agent_role@ == "main"@,
            e.timestamp_ms == 0,
            e.recent_messages@.len() == 0,
            e.retries == 0,
            e.next_attempt_ms == 0,
    {
        CompletedTurnIngest {
            message_id: String::from_str(id),
            conversation_id: String::from_str("conversation"),
            sender_id: String::from_str("sender"),
            agent_role: String::from_str("main"),
            timestamp_ms: 0,
            user_text: String::from_str(user),
            assistant_text: String::from_str(assistant),
            recent_messages: Vec::new(),
            retries: 0,
            next_attempt_ms: 0,
        }
    }
}

/// Why the ingest queue refused an operation.
#[derive(Debug, Clone, Copy, PartialEq, Eq, Structural)]
pub enum IngestQueueError {
    /// The queue holds `capacity` entries already.
    QueueFull,
}

/// What happened to a due entry after an ingest attempt.
#[derive(Debug, Clone, Copy, PartialEq, Eq, Structural)]
pub enum DrainOutcome {
    /// Ingested; removed from the queue.
    Ingested,
    /// Failed past the retry limit; removed from the queue.
    Dropped,
    /// Failed; kept with one more retry and a later attempt time.
    Rescheduled,
}

/// Whether some entry of `s` has message id `id`.
pub open spec fn has_message(s: Seq<CompletedTurnIngest>, id: Seq<char>) -> bool {
    exists|i: int| 0 <= i < s.len() && #[trigger] s[i].message_id@ == id
}

/// Queue after enqueueing `e`: refused when full, a no-op for a known message id.
pub open spec fn enqueue_spec(s: Seq<CompletedTurnIngest>, e: CompletedTurnIngest, capacity: usize) -> Option<Seq<CompletedTurnIngest>> {
    if s.len() >= capacity {
        None
    } else if has_message(s, e.message_id@) {
        Some(s)
    } else {
        Some(s.push(e))
    }
}

/// The entries of `s` whose message id is not `id`, in order.
pub open spec fn without_message(s: Seq<CompletedTurnIngest>, id: Seq<char>) -> Seq<CompletedTurnIngest>
    decreases s.len(),
{
    if s.len() == 0 {
        s
    } else if s.last().message_id@ == id {
        without_message(s.drop_last(), id)
    } else {
        without_message(s.drop_last(), id).push(s.last())
    }
}

/// The delay before the next attempt after `retries` failed attempts:
/// `backoff_ms * 2^min(retries, 16)`, saturating.
pub open spec fn retry_delay(backoff_ms: u64, retries: u32) -> int {
    let factor = pow2_spec(if retries < 16 { retries as nat } else { 16 });
    if backoff_ms * factor > u64::MAX { u64::MAX as int } else { backoff_ms * factor }
}

/// `a + b`, saturating at `u64::MAX`.
pub open spec fn sat_add(a: u64, b: int) -> int {
    if a + b > u64::MAX { u64::MAX as int } else { a + b }
}

/// The pending ingest entries, in arrival order.
pub struct IngestQueueEntries {
    entries: Vec<CompletedTurnIngest>,
}

impl View for IngestQueueEntries {
    type V = Seq<CompletedTurnIngest>;

    closed spec fn view(&self) -> Seq<CompletedTurnIngest> {
        self.entries@
    }
}

impl IngestQueueEntries {
    /// A queue holding `entries` (as read back from the queue file).
    pub fn from_entries(entries: Vec<CompletedTurnIngest>) -> (q: Self)
        ensures
            q@ == entries@,
    {
        IngestQueueEntries { entries }
    }

    /// The entries, in arrival order.
    pub fn entries(&self) -> (e: &Vec<CompletedTurnIngest>)
        ensures
            e@ == self@,
    {
        &self.entries
    }

    pub fn into_entries(self) -> (e: Vec<CompletedTurnIngest>)
        ensures
            e@ == self@,
    {
        self.entries
    }

    pub fn len(&self) -> (n: usize)
        ensures
            n == self@.len(),
    {
        self.entries.len()
    }

    fn find(&self, id: &str) -> (r: Option<usize>)
        ensures
            match r {
                Some(i) => i < self@.len() && self@[i as int].message_id@ == id@
                    && forall|j: int| 0 <= j < i ==> #[trigger] self@[j].message_id@ != id@,
                None => !has_message(self@, id@),
            },
    {
        let n = self.entries.len();
        let mut i: usize = 0;
        while i < n
            invariant
                n == self.entries@.len(),
                i <= n,
                forall|j: int| 0 <= j < i ==> #[trigger] self.entries@[j].message_id@ != id@,
            decreases n - i,
        {
            if str_equal(self.entries[i].message_id.as_str(), id) {
                return Some(i);
            }
            i = i + 1;
        }
        None
    }

    /// Admit `entry` unless the queue holds `capacity` entries; an entry
    /// whose message id is already queued is not added twice.
    pub fn enqueue(&mut self, entry: CompletedTurnIngest, capacity: usize) -> (r: Result<(), IngestQueueError>)
        ensures
            match enqueue_spec(old(self)@, entry, capacity) {
                Some(s) => r is Ok && final(self)@ == s,
                None => r == Err::<(), IngestQueueError>(IngestQueueError::QueueFull) && final(self)@ == old(self)@,
            },
    {
        if self.entries.len() >= capacity {
            return Err(IngestQueueError::QueueFull);
        }
        if self.find(entry.message_id.as_str()).is_none() {
            self.entries.push(entry);
        }
        Ok(())
    }

    /// Remove every entry with message id `id`.
    pub fn complete(&mut self, id: &str)
        ensures
            final(self)@ == without_message(old(self)@, id@),
    {
        let mut rest: Vec<CompletedTurnIngest> = Vec::new();
        std::mem::swap(&mut rest, &mut self.entries);
        let ghost s = rest@;
        let mut kept: Vec<CompletedTurnIngest> = Vec::new();
        let n = rest.len();
        let mut i: usize = 0;
        while i < n
            invariant
                n == s.len(),
                i <= n,
                rest@ == s.skip(i as int),
                kept@ == without_message(s.take(i as int), id@),
            decreases n - i,
        {
            let e = rest.remove(0);
            assert(e == s[i as int]);
            assert(rest@ =~= s.skip(i + 1));
            assert(s.take(i + 1).drop_last() =~= s.take(i as int));
            assert(s.take(i + 1).last() == e);
            if !str_equal(e.message_id.as_str(), id) {
                kept.push(e);
            }
            i = i + 1;
        }
        assert(s.take(n as int) =~= s);
        self.entries = kept;
    }

    /// Set the retry bookkeeping of the first entry with message id `id`.
    pub fn retry(&mut self, id: &str, retries: u32, next_attempt_ms: u64)
        ensures
            has_message(old(self)@, id@) ==> exists|i: int| 0 <= i < old(self)@.len()
                && (#[trigger] old(self)@[i]).message_id@ == id@
                && (forall|j: int| 0 <= j < i ==> old(self)@[j].message_id@ != id@)
                && final(self)@ == old(self)@.update(i, CompletedTurnIngest {
                    retries,
                    next_attempt_ms,
                    ..old(self)@[i]
                }),
            !has_message(old(self)@, id@) ==> final(self)@ == old(self)@,
    {
        match self.find(id) {
            Some(i) => {
                let mut e = self.entries.remove(i);
                e.retries = retries;
                e.next_attempt_ms = next_attempt_ms;
                let ghost updated = e;
                self.entries.insert(i, e);
                assert(self.entries@ =~= old(self).entries@.update(i as int, updated));
                assert(old(self)@[i as int].message_id@ == id@);
            },
            None => {},
        }
    }

    /// The first index at or after `from` whose entry is due at `now`.
    pub fn next_due(&self, from: usize, now: u64) -> (r: Option<usize>)
        ensures
            match r {
                Some(i) => from <= i < self@.len() && self@[i as int].next_attempt_ms <= now
                    && forall|j: int| from <= j < i ==> #[trigger] self@[j].next_attempt_ms > now,
                None => forall|j: int| from <= j < self@.len() ==> #[trigger] self@[j].next_attempt_ms > now,
            },
    {
        let n = self.entries.len();
        let mut i = from;
        while i < n
            invariant
                n == self.entries@.len(),
                from <= i || i >= n,
                forall|j: int| from <= j < i && j < n ==> #[trigger] self.entries@[j].next_attempt_ms > now,
            decreases n - i,
        {
            if self.entries[i].next_attempt_ms <= now {
                return Some(i);
            }
            i = i + 1;
        }
        None
    }

    /// Apply the outcome of an ingest attempt on the entry at `index` at `now`:
    /// success removes it; a failure bumps its retries (saturating) and drops it
    /// past `max_retries`, else reschedules it `retry_delay` later.
    pub fn record_attempt(&mut self, index: usize, succeeded: bool, max_retries: u32, retry_backoff_ms: u64, now: u64) -> (r: DrainOutcome)
        requires
            index < old(self)@.len(),
        ensures
            ({
                let e = old(self)@[index as int];
                let retries: int = if e.retries < u32::MAX { e.retries + 1 } else { u32::MAX as int };
                &&& succeeded ==> r == DrainOutcome::Ingested && final(self)@ == old(self)@.remove(index as int)
                &&& !succeeded && retries > max_retries ==> r == DrainOutcome::Dropped && final(self)@ == old(self)@.remove(index as int)
                &&& !succeeded && retries <= max_retries ==> r == DrainOutcome::Rescheduled
                    && final(self)@ == old(self)@.update(index as int, CompletedTurnIngest {
                        retries: retries as u32,
                        next_attempt_ms: sat_add(now, retry_delay(retry_backoff_ms, retries as u32)) as u64,
                        ..e
                    })
            }),
    {
        if succeeded {
            let _ = self.entries.remove(index);
            return DrainOutcome::Ingested;
        }
        let retries = self.entries[index].retries.saturating_add(1);
        if retries > max_retries {
            let _ = self.entries.remove(index);
            return DrainOutcome::Dropped;
        }
        let shift: u32 = if retries < 16 { retries } else { 16 };
        let factor: u64 = pow2_u64(shift);
        assert(factor == pow2_spec(if retries < 16 { retries as nat } else { 16 }));
        let delay: u64 = match retry_backoff_ms.checked_mul(factor) {
            Some(d) => d,
            None => u64::MAX,
        };
        let mut e = self.entries.remove(index);
        e.retries = retries;
        e.next_attempt_ms = now.saturating_add(delay);
        let ghost updated = e;
        self.entries.insert(index, e);
        assert(self.entries@ =~= old(self).entries@.update(index as int, updated));
        DrainOutcome::Rescheduled
    }
}

/// Where a drain goes on after the attempt on the entry at `index`: a
/// rescheduled entry stays in place and is stepped over; an ingested or
/// dropped one left the queue, so the next entry now stands at `index`.
pub fn drain_cursor_after(index: usize, outcome: DrainOutcome) -> (next: usize)
    requires
        index < usize::MAX,
    ensures
        outcome == DrainOutcome::Rescheduled ==> next == index + 1,
        outcome != DrainOutcome::Rescheduled ==> next == index,
{
    match outcome {
        DrainOutcome::Rescheduled => index + 1,
        _ => index,
    }
}

/// `2^n`.
pub open spec fn pow2_spec(n: nat) -> nat
    decreases n,
{
    if n == 0 { 1 } else { 2 * pow2_spec((n - 1) as nat) }
}

proof fn lemma_pow2_monotone(i: nat, j: nat)
    requires
        i <= j,
    ensures
        pow2_spec(i) <= pow2_spec(j),
    decreases j,
{
    if i < j {
        lemma_pow2_monotone(i, (j - 1) as nat);
    }
}

/// `2^k` for `k <= 16`.
fn pow2_u64(k: u32) -> (r: u64)
    requires
        k <= 16,
    ensures
        r == pow2_spec(k as nat),
{
    let mut r: u64 = 1;
    let mut i: u32 = 0;
    while i < k
        invariant
            i <= k <= 16,
            r == pow2_spec(i as nat),
        decreases k - i,
    {
        proof {
            lemma_pow2_monotone(i as nat, 15);
            reveal_with_fuel(pow2_spec, 16);
            assert(pow2_spec(15) == 32768);
        }
        r = r * 2;
        i = i + 1;
    }
    r
}

/// Whether no message id occurs twice in `s`.
pub open spec fn message_ids_unique(s: Seq<CompletedTurnIngest>) -> bool {
    forall|i: int, j: int| 0 <= i < s.len() && 0 <= j < s.len() && i != j
        ==> #[trigger] s[i].message_id@ != #[trigger] s[j].message_id@
}

/// Enqueueing never grows the queue past its capacity, never queues a message
/// id twice, and enqueueing the same entry again changes nothing.
pub proof fn lemma_enqueue_bounded_and_idempotent(s: Seq<CompletedTurnIngest>, e: CompletedTurnIngest, capacity: usize)
    requires
        s.len() <= capacity,
        message_ids_unique(s),
    ensures
        enqueue_spec(s, e, capacity) matches Some(t) ==> {
            &&& t.len() <= capacity
            &&& message_ids_unique(t)
            &&& has_message(t, e.message_id@)
            &&& (t.len() < capacity ==> enqueue_spec(t, e, capacity) == Some(t))
        },
{
    if let Some(t) = enqueue_spec(s, e, capacity) {
        if !has_message(s, e.message_id@) {
            assert(t[s.len() as int] == e);
            assert forall|i: int, j: int| 0 <= i < t.len() && 0 <= j < t.len() && i != j
                implies #[trigger] t[i].message_id@ != #[trigger] t[j].message_id@ by {
                if i < s.len() && j < s.len() {
                    assert(t[i] == s[i] && t[j] == s[j]);
                } else if i < s.len() {
                    assert(t[i] == s[i]);
                } else if j < s.len() {
                    assert(t[j] == s[j]);
                }
            }
        }
        assert(has_message(t, e.message_id@)) by {
            if has_message(s, e.message_id@) {
                let i = choose|i: int| 0 <= i < s.len() && #[trigger] s[i].message_id@ == e.message_id@;
                assert(t[i] == s[i]);
            } else {
                assert(t[s.len() as int].message_id@ == e.message_id@);
            }
        }
    }
}

/// Completing a message removes it entirely and keeps every other entry.
pub proof fn lemma_complete_removes_only_that_message(s: Seq<CompletedTurnIngest>, id: Seq<char>, other: Seq<char>)
    requires
        other != id,
    ensures
        !has_message(without_message(s, id), id),
        has_message(without_message(s, id), other) == has_message(s, other),
    decreases s.len(),
{
    if s.len() > 0 {
        lemma_complete_removes_only_that_message(s.drop_last(), id, other);
        let r = without_message(s.drop_last(), id);
        if has_message(s, other) && !has_message(s.drop_last(), other) {
            assert(s.last().message_id@ == other) by {
                let i = choose|i: int| 0 <= i < s.len() && #[trigger] s[i].message_id@ == other;
                if i < s.len() - 1 {
                    assert(s.drop_last()[i] == s[i]);
                }
            }
            assert(r.push(s.last())[r.len() as int].message_id@ == other);
        }
        if has_message(s.drop_last(), other) {
            let i = choose|i: int| 0 <= i < r.len() && #[trigger] r[i].message_id@ == other;
            if s.last().message_id@ != id {
                assert(r.push(s.last())[i] == r[i]);
            }
        }
        if has_message(without_message(s, id), other) && s.last().message_id@ != id {
            let t = r.push(s.last());
            let i = choose|i: int| 0 <= i < t.len() && #[trigger] t[i].message_id@ == other;
            if i < r.len() {
                assert(t[i] == r[i]);
            } else {
                assert(s[s.len() - 1].message_id@ == other);
            }
        }
        if has_message(without_message(s, id), other) && s.last().message_id@ == id {
            let i = choose|i: int| 0 <= i < r.len() && #[trigger] r[i].message_id@ == other;
            assert(has_message(s.drop_last(), other));
            let k = choose|k: int| 0 <= k < s.drop_last().len() && #[trigger] s.drop_last()[k].message_id@ == other;
            assert(s[k] == s.drop_last()[k]);
        }
        if s.last().message_id@ != id {
            let t = r.push(s.last());
            assert forall|i: int| 0 <= i < t.len() implies #[trigger] t[i].message_id@ != id by {
                if i < r.len() {
                    assert(t[i] == r[i]);
                }
            }
        }
    }
}


// ----------------------------------------------------------------------------
// Ingest request

/// The text `chrono` gives for a UTC instant `timestamp_ms` milliseconds
/// after the epoch, in RFC 3339 form with milliseconds and a `Z` suffix;
/// `None` where the instant is out of `chrono`'s range.
pub uninterp spec fn rfc3339_millis_text(timestamp_ms: int) -> Option<Seq<char>>;

/// `chrono::Utc.timestamp_millis_opt(..).single()` then
/// `to_rfc3339_opts(SecondsFormat::Millis, true)`; a time past `i64::MAX`
/// milliseconds has no text. The result is named by `rfc3339_millis_text`.
#[verifier::external_body]
fn rfc3339_timestamp(timestamp_ms: u64) -> (r: Option<String>)
    ensures
        timestamp_ms > i64::MAX ==> r is None,
        timestamp_ms <= i64::MAX ==> match r {
            Some(t) => rfc3339_millis_text(timestamp_ms as int) == Some(t@),
            None => rfc3339_millis_text(timestamp_ms as int) is None,
        },
{
    i64::try_from(timestamp_ms)
        .ok()
        .and_then(|ms| chrono::TimeZone::timestamp_millis_opt(&chrono::Utc, ms).single())
        .map(|t| t.to_rfc3339_opts(chrono::SecondsFormat::Millis, true))
}

/// One message of an ingest request.
#[derive(Debug)]
pub struct IngestMessage {
    pub id: String,
    pub role: String,
    pub speaker: String,
    pub text: String,
    pub timestamp: Option<String>,
    pub candidate: bool,
}

pub open spec fn ingest_message_view(m: IngestMessage) -> (Seq<char>, Seq<char>, Seq<char>, Seq<char>, Option<Seq<char>>, bool) {
    (m.id@, m.role@, m.speaker@, m.text@, match m.timestamp { Some(t) => Some(t@), None => None }, m.candidate)
}

/// The timestamp text of an entry.
pub open spec fn entry_timestamp(ms: u64) -> Option<Seq<char>> {
    if ms > i64::MAX { None } else { rfc3339_millis_text(ms as int) }
}

/// The messages sent to ingest a completed turn whose time reads `ts`: each
/// recent context message as a non-candidate system message
/// `<id>:context:<i>`, then the user's message under the turn's id and the
/// assistant's reply `<id>:assistant`, both candidates and stamped `ts`.
pub open spec fn ingest_messages_spec_with(e: CompletedTurnIngest, ts: Option<Seq<char>>) -> Seq<(Seq<char>, Seq<char>, Seq<char>, Seq<char>, Option<Seq<char>>, bool)> {
    let ctx = Seq::new(e.recent_messages@.len(), |i: int|
        (e.message_id@ + ":context:"@ + decimal(i as nat), "system"@, "context"@, e.recent_messages@[i]@, None::<Seq<char>>, false));
    ctx + seq![
        (e.message_id@, "user"@, e.sender_id@, e.user_text@, ts, true),
        (e.message_id@ + ":assistant"@, "assistant"@, e.agent_role@, e.assistant_text@, ts, true),
    ]
}

/// The messages sent to ingest a completed turn, stamped with the RFC 3339
/// text of the turn's time.
pub open spec fn ingest_messages_spec(e: CompletedTurnIngest) -> Seq<(Seq<char>, Seq<char>, Seq<char>, Seq<char>, Option<Seq<char>>, bool)> {
    ingest_messages_spec_with(e, entry_timestamp(e.timestamp_ms))
}

/// The messages of the ingest request for `entry`.
pub fn ingest_messages(entry: &CompletedTurnIngest) -> (v: Vec<IngestMessage>)
    ensures
        v@.map_values(|m: IngestMessage| ingest_message_view(m)) == ingest_messages_spec(*entry),
{
    let ts = rfc3339_timestamp(entry.timestamp_ms);
    let ts_text = match &ts {
        Some(t) => Some(t.as_str()),
        None => None,
    };
    ingest_messages_with(entry, ts_text)
}

/// The messages of the ingest request for `entry`, stamped `timestamp`.
pub fn ingest_messages_with(entry: &CompletedTurnIngest, timestamp: Option<&str>) -> (v: Vec<IngestMessage>)
    ensures
        v@.map_values(|m: IngestMessage| ingest_message_view(m))
            == ingest_messages_spec_with(*entry, match timestamp { Some(t) => Some(t@), None => None }),
{
    let mut v: Vec<IngestMessage> = Vec::new();
    let n = entry.recent_messages.len();
    let mut i: usize = 0;
    let ghost ctx = Seq::new(entry.recent_messages@.len(), |i: int|
        (entry.message_id@ + ":context:"@ + decimal(i as nat), "system"@, "context"@, entry.recent_messages@[i]@, None::<Seq<char>>, false));
    while i < n
        invariant
            n == entry.recent_messages@.len(),
            i <= n,
            ctx == Seq::new(entry.recent_messages@.len(), |i: int|
                (entry.message_id@ + ":context:"@ + decimal(i as nat), "system"@, "context"@, entry.recent_messages@[i]@, None::<Seq<char>>, false)),
            v@.map_values(|m: IngestMessage| ingest_message_view(m)) == ctx.take(i as int),
        decreases n - i,
    {
        let mut id = String::from_str(entry.message_id.as_str());
        push_str(&mut id, ":context:");
        push_decimal(&mut id, i as u64);
        let m = IngestMessage {
            id,
            role: String::from_str("system"),
            speaker: String::from_str("context"),
            text: String::from_str(entry.recent_messages[i].as_str()),
            timestamp: None,
            candidate: false,
        };
        let ghost mv = ingest_message_view(m);
        let ghost before = v@;
        v.push(m);
        proof {
            assert(v@.map_values(|m: IngestMessage| ingest_message_view(m))
                =~= before.map_values(|m: IngestMessage| ingest_message_view(m)).push(mv));
            assert(ctx.take(i + 1) =~= ctx.take(i as int).push(ctx[i as int]));
        }
        i = i + 1;
    }
    assert(ctx.take(n as int) =~= ctx);
    let ts = match timestamp {
        Some(t) => Some(String::from_str(t)),
        None => None,
    };
    let ts2 = match timestamp {
        Some(t) => Some(String::from_str(t)),
        None => None,
    };
    let mut assistant_id = String::from_str(entry.message_id.as_str());
    push_str(&mut assistant_id, ":assistant");
    let user = IngestMessage {
        id: String::from_str(entry.message_id.as_str()),
        role: String::from_str("user"),
        speaker: String::from_str(entry.sender_id.as_str()),
        text: String::from_str(entry.user_text.as_str()),
        timestamp: ts,
        candidate: true,
    };
    let assistant = IngestMessage {
        id: assistant_id,
        role: String::from_str("assistant"),
        speaker: String::from_str(entry.agent_role.as_str()),
        text: String::from_str(entry.assistant_text.as_str()),
        timestamp: ts2,
        candidate: true,
    };
    let ghost uv = ingest_message_view(user);
    let ghost av = ingest_message_view(assistant);
    let ghost before = v@;
    v.push(user);
    v.push(assistant);
    proof {
        assert(v@.map_values(|m: IngestMessage| ingest_message_view(m))
            =~= before.map_values(|m: IngestMessage| ingest_message_view(m)).push(uv).push(av));
        assert(v@.map_values(|m: IngestMessage| ingest_message_view(m))
            =~= ingest_messages_spec_with(*entry, match timestamp { Some(t) => Some(t@), None => None }));
    }
    v
}


/// The arguments of a recall request: the turn's query and how many
/// memories to return.
#[derive(Debug)]
pub struct RecallArgs {
    pub query: String,
    pub top_k: usize,
}

pub fn recall_args(context: &TurnMemoryContext, top_k: usize) -> (a: RecallArgs)
    ensures
        a.query@ == context.query@ && a.top_k == top_k,
{
    RecallArgs { query: String::from_str(context.query.as_str()), top_k }
}

} // verus!
