//! Per-key sandbox accounting: confirmed counts, pending reservations (with a
//! time-to-live) and "ghost" credits for sandboxes confirmed over the limit.
//!
//! These are the decisions that the shared counter file goes through; the
//! file locking and the persistence stay outside.

use vstd::prelude::*;
use crate::keyhash::{hash_key_identifier, hashed_key_identifier};
use crate::strmap::StrMap;
use crate::text::{decimal, push_decimal, push_str};
use vstd::string::StringSliceAdditionalSpecFns;

verus! {

/// Default limit of active sandboxes per key.
pub const MAX_ACTIVE_SANDBOXES_PER_KEY: usize = 20;

/// How long a pending reservation is considered valid.
pub const PENDING_RESERVATION_TTL_MS: u64 = 300_000;

/// Identifies a pool of sandboxes: the sandbox type and the hashed key identifier.
#[derive(Debug)]
pub struct SandboxCounterKey {
    pub sandbox_type: String,
    /// Derived (one-way hashed) form of the plaintext key identifier.
    pub key_identifier: String,
}

impl SandboxCounterKey {
    /// A key whose identifier is stored only in hashed form.
    pub fn new(sandbox_type: String, key_identifier: &str) -> (k: Self)
        ensures
            k.sandbox_type@ == sandbox_type@,
            k.key_identifier@ == hashed_key_identifier(key_identifier.spec_bytes()),
    {
        SandboxCounterKey { sandbox_type, key_identifier: hash_key_identifier(key_identifier) }
    }

    /// A key from its stored parts (as read back from disk; not re-hashed).
    pub fn from_stored(sandbox_type: String, key_identifier: String) -> (k: Self)
        ensures
            k.sandbox_type == sandbox_type,
            k.key_identifier == key_identifier,
    {
        SandboxCounterKey { sandbox_type, key_identifier }
    }

    /// `"<sandbox_type>:<key_identifier>"`, the key of the counter file.
    pub fn to_string_key(&self) -> (s: String)
        ensures
            s@ == self.sandbox_type@ + ":"@ + self.key_identifier@,
    {
        let s = self.sandbox_type.clone();
        let s = s.concat(":");
        s.concat(self.key_identifier.as_str())
    }

    pub fn duplicate(&self) -> (k: Self)
        ensures
            k.sandbox_type@ == self.sandbox_type@,
            k.key_identifier@ == self.key_identifier@,
    {
        SandboxCounterKey { sandbox_type: self.sandbox_type.clone(), key_identifier: self.key_identifier.clone() }
    }

    pub fn same_as(&self, other: &SandboxCounterKey) -> (r: bool)
        ensures
            r == (self.sandbox_type@ == other.sandbox_type@ && self.key_identifier@ == other.key_identifier@),
    {
        self.sandbox_type == other.sandbox_type && self.key_identifier == other.key_identifier
    }
}

/// The counter key of a backend configuration kind: e2b sandboxes are keyed
/// by their API key (`"e2b_default"` when none is configured), conch by a
/// fixed identifier, everything else counts as local.
pub fn sandbox_key_for_kind(kind: &str, e2b_api_key: Option<&str>) -> (k: SandboxCounterKey)
    ensures
        kind@ == "e2b"@ ==> k.sandbox_type@ == "e2b"@ && k.key_identifier@ == hashed_key_identifier(
            match e2b_api_key { Some(key) => key.spec_bytes(), None => "e2b_default".spec_bytes() }),
        kind@ == "conch"@ ==> k.sandbox_type@ == "conch"@ && k.key_identifier@ == hashed_key_identifier("conch_default".spec_bytes()),
        kind@ != "e2b"@ && kind@ != "conch"@ ==> k.sandbox_type@ == "local"@ && k.key_identifier@ == hashed_key_identifier("local_default".spec_bytes()),
{
    proof {
        reveal_strlit("e2b");
        reveal_strlit("conch");
        assert("conch"@.len() != "e2b"@.len());
    }
    if crate::strmap::str_equal(kind, "e2b") {
        let id = match e2b_api_key {
            Some(key) => key,
            None => "e2b_default",
        };
        SandboxCounterKey::new(String::from_str("e2b"), id)
    } else if crate::strmap::str_equal(kind, "conch") {
        SandboxCounterKey::new(String::from_str("conch"), "conch_default")
    } else {
        SandboxCounterKey::new(String::from_str("local"), "local_default")
    }
}

/// A single pending sandbox reservation.
#[derive(Debug, Clone, Copy)]
pub struct PendingReservation {
    pub reserved_at_ms: u64,
}

/// Why a counter operation failed.
#[derive(Debug)]
pub enum SandboxCounterError {
    LimitExceeded { current: usize, max: usize, key: SandboxCounterKey },
    FileError { message: String },
    LockError { message: String },
    ParseError { message: String },
}

/// The text of a counter error.
pub open spec fn counter_error_text(e: SandboxCounterError) -> Seq<char> {
    match e {
        SandboxCounterError::LimitExceeded { current, max, key } => "limit exceeded for "@ + key.sandbox_type@ + " "@
            + key.key_identifier@ + ": current="@ + decimal(current as nat) + ", max="@ + decimal(max as nat),
        SandboxCounterError::FileError { message } => "file error: "@ + message@,
        SandboxCounterError::LockError { message } => "lock error: "@ + message@,
        SandboxCounterError::ParseError { message } => "parse error: "@ + message@,
    }
}

impl SandboxCounterError {
    /// The error's text, as displayed to users.
    pub fn message(&self) -> (s: String)
        ensures
            s@ == counter_error_text(*self),
    {
        match self {
            SandboxCounterError::LimitExceeded { current, max, key } => {
                let mut s = String::from_str("limit exceeded for ");
                push_str(&mut s, key.sandbox_type.as_str());
                push_str(&mut s, " ");
                push_str(&mut s, key.key_identifier.as_str());
                push_str(&mut s, ": current=");
                push_decimal(&mut s, *current as u64);
                push_str(&mut s, ", max=");
                push_decimal(&mut s, *max as u64);
                s
            },
            SandboxCounterError::FileError { message } => {
                let mut s = String::from_str("file error: ");
                push_str(&mut s, message.as_str());
                s
            },
            SandboxCounterError::LockError { message } => {
                let mut s = String::from_str("lock error: ");
                push_str(&mut s, message.as_str());
                s
            },
            SandboxCounterError::ParseError { message } => {
                let mut s = String::from_str("parse error: ");
                push_str(&mut s, message.as_str());
                s
            },
        }
    }
}

/// The counter state as plain values.
pub struct CounterView {
    pub counts: Map<Seq<char>, usize>,
    pub pending: Map<Seq<char>, Seq<u64>>,
    pub ghosts: Map<Seq<char>, usize>,
}

/// Value of `k` in `m`, or 0.
pub open spec fn value_or_zero(m: Map<Seq<char>, usize>, k: Seq<char>) -> usize {
    if m.contains_key(k) { m[k] } else { 0 }
}

/// Reservations pending for `k`.
pub open spec fn pending_for(p: Map<Seq<char>, Seq<u64>>, k: Seq<char>) -> Seq<u64> {
    if p.contains_key(k) { p[k] } else { Seq::empty() }
}

/// Confirmed plus pending sandboxes for `k`.
pub open spec fn total_for(v: CounterView, k: Seq<char>) -> int {
    value_or_zero(v.counts, k) + pending_for(v.pending, k).len()
}

/// `total_for` as a `usize`, saturating at `usize::MAX`.
pub open spec fn total_saturated(v: CounterView, k: Seq<char>) -> usize {
    if total_for(v, k) > usize::MAX { usize::MAX } else { total_for(v, k) as usize }
}

/// The pending map after popping one reservation of `k` (dropping the key
/// once it has none left); unchanged when `k` has no entry.
pub open spec fn pop_pending_spec(p: Map<Seq<char>, Seq<u64>>, k: Seq<char>) -> Map<Seq<char>, Seq<u64>> {
    if !p.contains_key(k) {
        p
    } else if p[k].len() <= 1 {
        p.remove(k)
    } else {
        p.insert(k, p[k].drop_last())
    }
}

/// Whether a reservation made at `reserved_at` is still valid at `now`.
pub open spec fn reservation_is_live(reserved_at: u64, now: u64) -> bool {
    (if now >= reserved_at { now - reserved_at } else { 0int }) < PENDING_RESERVATION_TTL_MS
}

/// The counter invariant: no key's confirmed count exceeds `max`, and a key
/// carries ghost credits only while its confirmed count is at the limit.
pub open spec fn counter_within_limit(v: CounterView, max: usize) -> bool {
    &&& forall|k: Seq<char>| v.counts.contains_key(k) ==> #[trigger] v.counts[k] <= max
    &&& forall|k: Seq<char>| v.ghosts.contains_key(k) && #[trigger] v.ghosts[k] > 0 ==> value_or_zero(v.counts, k) == max
}

/// State after reserving a slot for `k` at `now`.
pub open spec fn reserve_spec(v: CounterView, k: Seq<char>, now: u64) -> CounterView {
    CounterView { pending: v.pending.insert(k, pending_for(v.pending, k).push(now)), ..v }
}

/// State after confirming a creation for `k`: one reservation is consumed;
/// the sandbox is counted below the limit, or as a ghost credit at it.
pub open spec fn confirm_spec(v: CounterView, k: Seq<char>, max: usize) -> CounterView {
    let current = value_or_zero(v.counts, k);
    let pending = pop_pending_spec(v.pending, k);
    if current < max {
        CounterView { counts: v.counts.insert(k, (current + 1) as usize), pending, ghosts: v.ghosts }
    } else {
        let g = value_or_zero(v.ghosts, k);
        CounterView { counts: v.counts, pending, ghosts: v.ghosts.insert(k, if g < usize::MAX { (g + 1) as usize } else { g }) }
    }
}

/// State after cancelling one reservation of `k`.
pub open spec fn cancel_spec(v: CounterView, k: Seq<char>) -> CounterView {
    CounterView { pending: pop_pending_spec(v.pending, k), ..v }
}

/// State after releasing one sandbox of `k`: a ghost credit first, else the
/// confirmed count (never below zero).
pub open spec fn release_spec(v: CounterView, k: Seq<char>) -> CounterView {
    let ghosts = value_or_zero(v.ghosts, k);
    let current = value_or_zero(v.counts, k);
    if ghosts > 1 {
        CounterView { ghosts: v.ghosts.insert(k, (ghosts - 1) as usize), ..v }
    } else if ghosts == 1 {
        CounterView { ghosts: v.ghosts.remove(k), ..v }
    } else if current > 0 {
        CounterView { counts: v.counts.insert(k, (current - 1) as usize), ..v }
    } else {
        v
    }
}

/// The reservations of `s` still valid at `now`, in order.
pub open spec fn keep_live(s: Seq<u64>, now: u64) -> Seq<u64>
    decreases s.len(),
{
    if s.len() == 0 {
        s
    } else if reservation_is_live(s.last(), now) {
        keep_live(s.drop_last(), now).push(s.last())
    } else {
        keep_live(s.drop_last(), now)
    }
}

/// State after dropping the reservations that expired by `now` (and the keys left without any).
pub open spec fn gc_spec(v: CounterView, now: u64) -> CounterView {
    CounterView {
        pending: Map::new(
            |k: Seq<char>| v.pending.contains_key(k) && keep_live(v.pending[k], now).len() > 0,
            |k: Seq<char>| keep_live(v.pending[k], now),
        ),
        ..v
    }
}

/// Whether the collection at `now` drops anything.
pub open spec fn gc_removes_something(v: CounterView, now: u64) -> bool {
    exists|k: Seq<char>| v.pending.contains_key(k) && keep_live(#[trigger] v.pending[k], now).len() != v.pending[k].len()
        || (v.pending.contains_key(k) && v.pending[k].len() == 0)
}

/// State after re-deriving the confirmed counts from the live counts.
pub open spec fn reconcile_spec(v: CounterView, live: Map<Seq<char>, usize>) -> CounterView {
    CounterView { counts: live, pending: v.pending, ghosts: Map::empty() }
}

/// Whether reconciliation changes anything.
pub open spec fn reconcile_changes(v: CounterView, live: Map<Seq<char>, usize>) -> bool {
    v.counts != live || v.ghosts != Map::<Seq<char>, usize>::empty()
}

/// The persisted counter state.
pub struct SandboxCounterData {
    counts: StrMap<usize>,
    pending_reservations: StrMap<Vec<PendingReservation>>,
    ghosts: StrMap<usize>,
}

pub open spec fn reservations_view(v: Vec<PendingReservation>) -> Seq<u64> {
    v@.map_values(|r: PendingReservation| r.reserved_at_ms)
}

impl View for SandboxCounterData {
    type V = CounterView;

    closed spec fn view(&self) -> CounterView {
        CounterView {
            counts: self.counts@,
            pending: self.pending_reservations@.map_values(|v: Vec<PendingReservation>| reservations_view(v)),
            ghosts: self.ghosts@,
        }
    }
}

impl SandboxCounterData {
    pub closed spec fn wf(&self) -> bool {
        self.counts.wf() && self.pending_reservations.wf() && self.ghosts.wf()
    }

    /// An empty counter state.
    pub fn new() -> (d: Self)
        ensures
            d.wf(),
            d@.counts == Map::<Seq<char>, usize>::empty(),
            d@.pending == Map::<Seq<char>, Seq<u64>>::empty(),
            d@.ghosts == Map::<Seq<char>, usize>::empty(),
    {
        let d = SandboxCounterData { counts: StrMap::new(), pending_reservations: StrMap::new(), ghosts: StrMap::new() };
        assert(d@.pending =~= Map::<Seq<char>, Seq<u64>>::empty());
        d
    }

    /// Sets the confirmed count of `key` (used when loading stored state).
    pub fn set_count(&mut self, key: String, count: usize)
        requires
            old(self).wf(),
        ensures
            final(self).wf(),
            final(self)@.counts == old(self)@.counts.insert(key@, count),
            final(self)@.pending == old(self)@.pending,
            final(self)@.ghosts == old(self)@.ghosts,
    {
        self.counts.insert(key, count);
    }

    /// Sets the ghost credits of `key` (used when loading stored state).
    pub fn set_ghosts(&mut self, key: String, count: usize)
        requires
            old(self).wf(),
        ensures
            final(self).wf(),
            final(self)@.ghosts == old(self)@.ghosts.insert(key@, count),
            final(self)@.pending == old(self)@.pending,
            final(self)@.counts == old(self)@.counts,
    {
        self.ghosts.insert(key, count);
    }

    /// Sets the pending reservations of `key` (used when loading stored state).
    pub fn set_pending(&mut self, key: String, reservations: Vec<PendingReservation>)
        requires
            old(self).wf(),
        ensures
            final(self).wf(),
            final(self)@.pending == old(self)@.pending.insert(key@, reservations_view(reservations)),
            final(self)@.counts == old(self)@.counts,
            final(self)@.ghosts == old(self)@.ghosts,
    {
        let ghost rv = reservations_view(reservations);
        self.pending_reservations.insert(key, reservations);
        assert(self@.pending =~= old(self)@.pending.insert(key@, rv));
    }

    /// Confirmed counts, in stored order, each key once.
    pub fn counts_entries(&self) -> (e: &Vec<(String, usize)>)
        requires
            self.wf(),
        ensures
            crate::strmap::keys_unique(e@),
            crate::strmap::map_of(e@) == self@.counts,
    {
        self.counts.entries()
    }

    /// Ghost credits, in stored order, each key once.
    pub fn ghost_entries(&self) -> (e: &Vec<(String, usize)>)
        requires
            self.wf(),
        ensures
            crate::strmap::keys_unique(e@),
            crate::strmap::map_of(e@) == self@.ghosts,
    {
        self.ghosts.entries()
    }

    /// Pending reservations, in stored order, each key once.
    pub fn pending_entries(&self) -> (e: &Vec<(String, Vec<PendingReservation>)>)
        requires
            self.wf(),
        ensures
            crate::strmap::keys_unique(e@),
            crate::strmap::map_of(e@).map_values(|v: Vec<PendingReservation>| reservations_view(v)) == self@.pending,
    {
        self.pending_reservations.entries()
    }

    fn count_of(&self, key: &str) -> (n: usize)
        requires
            self.wf(),
        ensures
            n == value_or_zero(self@.counts, key@),
    {
        match self.counts.get(key) {
            Some(n) => *n,
            None => 0,
        }
    }

    fn ghosts_of(&self, key: &str) -> (n: usize)
        requires
            self.wf(),
        ensures
            n == value_or_zero(self@.ghosts, key@),
    {
        match self.ghosts.get(key) {
            Some(n) => *n,
            None => 0,
        }
    }

    fn pending_len(&self, key: &str) -> (n: usize)
        requires
            self.wf(),
        ensures
            n == pending_for(self@.pending, key@).len(),
    {
        match self.pending_reservations.get(key) {
            Some(v) => v.len(),
            None => 0,
        }
    }

    /// Pop one pending reservation of `key`, dropping the key once none is left.
    /// Returns whether `key` had an entry (so the caller knows to persist).
    pub fn pop_pending(&mut self, key: &str) -> (popped: bool)
        requires
            old(self).wf(),
        ensures
            final(self).wf(),
            popped == old(self)@.pending.contains_key(key@),
            final(self)@.pending == pop_pending_spec(old(self)@.pending, key@),
            final(self)@.counts == old(self)@.counts,
            final(self)@.ghosts == old(self)@.ghosts,
    {
        match self.pending_reservations.remove(key) {
            Some(mut reservations) => {
                let ghost before = reservations_view(reservations);
                if reservations.len() > 1 {
                    reservations.pop();
                    assert(reservations_view(reservations) =~= before.drop_last());
                    let ghost rv = reservations_view(reservations);
                    self.pending_reservations.insert(String::from_str(key), reservations);
                    assert(self@.pending =~= old(self)@.pending.remove(key@).insert(key@, rv));
                }
                assert(self@.pending =~= pop_pending_spec(old(self)@.pending, key@));
                true
            },
            None => {
                assert(self@.pending =~= old(self)@.pending);
                false
            },
        }
    }

    /// Confirmed plus pending sandboxes for `key`.
    pub fn get_total_count(&self, key: &SandboxCounterKey) -> (n: usize)
        requires
            self.wf(),
        ensures
            n == total_saturated(self@, key.sandbox_type@ + ":"@ + key.key_identifier@),
    {
        let k = key.to_string_key();
        self.count_of(k.as_str()).saturating_add(self.pending_len(k.as_str()))
    }

    /// Reserve a slot for `key` at `now` unless confirmed plus pending
    /// sandboxes already reach `max_per_key`.
    pub fn check_and_reserve(&mut self, key: &SandboxCounterKey, max_per_key: usize, now: u64) -> (r: Result<(), SandboxCounterError>)
        requires
            old(self).wf(),
        ensures
            final(self).wf(),
            ({
                let k = key.sandbox_type@ + ":"@ + key.key_identifier@;
                let total = total_for(old(self)@, k);
                &&& (r is Ok <==> total < max_per_key)
                &&& r is Ok ==> final(self)@ == reserve_spec(old(self)@, k, now)
                &&& r is Err ==> final(self)@ == old(self)@
                &&& r is Err ==> (r matches Err(SandboxCounterError::LimitExceeded { current, max, key: k2 })
                    && current == total_saturated(old(self)@, k) && max == max_per_key
                    && k2.sandbox_type@ == key.sandbox_type@ && k2.key_identifier@ == key.key_identifier@)
            }),
    {
        let k = key.to_string_key();
        let current = self.count_of(k.as_str());
        let pending = self.pending_len(k.as_str());
        let total = current.saturating_add(pending);
        if total >= max_per_key {
            return Err(SandboxCounterError::LimitExceeded { current: total, max: max_per_key, key: key.duplicate() });
        }
        let mut reservations = match self.pending_reservations.remove(k.as_str()) {
            Some(v) => v,
            None => Vec::new(),
        };
        let ghost before = reservations_view(reservations);
        let ghost kv = k@;
        assert(before == pending_for(old(self)@.pending, kv));
        reservations.push(PendingReservation { reserved_at_ms: now });
        assert(reservations_view(reservations) =~= before.push(now));
        let ghost rv = reservations_view(reservations);
        self.pending_reservations.insert(k, reservations);
        assert(self@.pending =~= old(self)@.pending.remove(kv).insert(kv, rv));
        assert(self@.pending =~= old(self)@.pending.insert(kv, pending_for(old(self)@.pending, kv).push(now)));
        Ok(())
    }

    /// Consume one pending reservation of `key` and count the created sandbox:
    /// in the confirmed count below `max_per_key`, as a ghost credit at the
    /// limit (the credit saturates at `usize::MAX`).
    pub fn confirm_creation(&mut self, key: &SandboxCounterKey, max_per_key: usize)
        requires
            old(self).wf(),
        ensures
            final(self).wf(),
            final(self)@ == confirm_spec(old(self)@, key.sandbox_type@ + ":"@ + key.key_identifier@, max_per_key),
    {
        let k = key.to_string_key();
        self.pop_pending(k.as_str());
        let current = self.count_of(k.as_str());
        if current < max_per_key {
            self.counts.insert(k, current + 1);
        } else {
            let ghosts = self.ghosts_of(k.as_str());
            self.ghosts.insert(k, ghosts.saturating_add(1));
        }
    }

    /// Drop one pending reservation of `key`; returns whether anything changed.
    pub fn cancel_reservation(&mut self, key: &SandboxCounterKey) -> (changed: bool)
        requires
            old(self).wf(),
        ensures
            final(self).wf(),
            changed == old(self)@.pending.contains_key(key.sandbox_type@ + ":"@ + key.key_identifier@),
            final(self)@ == cancel_spec(old(self)@, key.sandbox_type@ + ":"@ + key.key_identifier@),
    {
        let k = key.to_string_key();
        self.pop_pending(k.as_str())
    }

    /// Release one sandbox of `key`: consume a ghost credit if there is one,
    /// else decrement the confirmed count (never below zero). Returns whether
    /// anything changed.
    pub fn release(&mut self, key: &SandboxCounterKey) -> (changed: bool)
        requires
            old(self).wf(),
        ensures
            final(self).wf(),
            final(self)@ == release_spec(old(self)@, key.sandbox_type@ + ":"@ + key.key_identifier@),
            changed == (value_or_zero(old(self)@.ghosts, key.sandbox_type@ + ":"@ + key.key_identifier@) > 0
                || value_or_zero(old(self)@.counts, key.sandbox_type@ + ":"@ + key.key_identifier@) > 0),
    {
        let k = key.to_string_key();
        let ghosts = self.ghosts_of(k.as_str());
        if ghosts > 0 {
            if ghosts > 1 {
                self.ghosts.insert(k, ghosts - 1);
            } else {
                let _ = self.ghosts.remove(k.as_str());
            }
            return true;
        }
        let current = self.count_of(k.as_str());
        if current > 0 {
            self.counts.insert(k, current - 1);
            return true;
        }
        false
    }

    /// Drop the reservations that expired by `now`, and the keys left without
    /// any. Returns whether anything was dropped.
    pub fn gc_stale_pending(&mut self, now: u64) -> (removed: bool)
        requires
            old(self).wf(),
        ensures
            final(self).wf(),
            final(self)@ == gc_spec(old(self)@, now),
            removed == gc_removes_something(old(self)@, now),
    {
        let entries = self.pending_reservations.entries();
        let n = entries.len();
        let mut kept: StrMap<Vec<PendingReservation>> = StrMap::new();
        let mut removed = false;
        let mut i: usize = 0;
        while i < n
            invariant
                self.wf(),
                entries@ == self.pending_reservations.spec_entries(),
                n == entries@.len(),
                i <= n,
                kept.wf(),
                forall|k: Seq<char>| #[trigger] kept@.contains_key(k) <==> exists|j: int|
                    0 <= j < i && (#[trigger] entries@[j]).0@ == k && keep_live(reservations_view(entries@[j].1), now).len() > 0,
                forall|j: int| 0 <= j < i && #[trigger] kept@.contains_key(entries@[j].0@) ==>
                    reservations_view(kept@[entries@[j].0@]) == keep_live(reservations_view(entries@[j].1), now),
                removed == exists|j: int| 0 <= j < i && {
                    let s = reservations_view((#[trigger] entries@[j]).1);
                    keep_live(s, now).len() != s.len() || s.len() == 0
                },
            decreases n - i,
        {
            let (key, reservations) = &entries[i];
            let live = Self::live_reservations(reservations, now);
            if live.len() != reservations.len() || reservations.len() == 0 {
                removed = true;
            }
            if live.len() > 0 {
                proof {
                    if kept@.contains_key(key@) {
                        let j = choose|j: int| 0 <= j < i && (#[trigger] entries@[j]).0@ == key@
                            && keep_live(reservations_view(entries@[j].1), now).len() > 0;
                        assert(entries@[j].0@ == entries@[i as int].0@);
                    }
                }
                let ghost lv = reservations_view(live);
                kept.insert(key.clone(), live);
                proof {
                    assert forall|j: int| 0 <= j < i + 1 && #[trigger] kept@.contains_key(entries@[j].0@) implies
                        reservations_view(kept@[entries@[j].0@]) == keep_live(reservations_view(entries@[j].1), now) by {
                        if j < i && entries@[j].0@ == key@ {
                            assert(entries@[j].0@ == entries@[i as int].0@);
                        }
                    }
                }
            }
            i = i + 1;
        }
        let ghost old_view = self@;
        proof {
            assert forall|k: Seq<char>| #[trigger] kept@.contains_key(k) <==> gc_spec(old_view, now).pending.contains_key(k) by {
                if old_view.pending.contains_key(k) {
                    crate::strmap::lemma_map_of_index(entries@, crate::strmap::key_index(entries@, k));
                }
                if kept@.contains_key(k) {
                    let j = choose|j: int| 0 <= j < n && (#[trigger] entries@[j]).0@ == k
                        && keep_live(reservations_view(entries@[j].1), now).len() > 0;
                    crate::strmap::lemma_map_of_index(entries@, j);
                }
            }
            assert forall|k: Seq<char>| #[trigger] kept@.contains_key(k) implies
                reservations_view(kept@[k]) == gc_spec(old_view, now).pending[k] by {
                let j = choose|j: int| 0 <= j < n && (#[trigger] entries@[j]).0@ == k
                    && keep_live(reservations_view(entries@[j].1), now).len() > 0;
                crate::strmap::lemma_map_of_index(entries@, j);
            }
            if removed {
                let j = choose|j: int| 0 <= j < n && {
                    let s = reservations_view((#[trigger] entries@[j]).1);
                    keep_live(s, now).len() != s.len() || s.len() == 0
                };
                crate::strmap::lemma_map_of_index(entries@, j);
                let k = entries@[j].0@;
                assert(old_view.pending.contains_key(k));
                assert(old_view.pending[k] == reservations_view(entries@[j].1));
                assert(old_view.pending.contains_key(k) && keep_live(old_view.pending[k], now).len() != old_view.pending[k].len()
                    || (old_view.pending.contains_key(k) && old_view.pending[k].len() == 0));
                assert(gc_removes_something(old_view, now));
            }
            if gc_removes_something(old_view, now) {
                let k = choose|k: Seq<char>| old_view.pending.contains_key(k) && keep_live(#[trigger] old_view.pending[k], now).len() != old_view.pending[k].len()
                    || (old_view.pending.contains_key(k) && old_view.pending[k].len() == 0);
                assert(self.pending_reservations@.contains_key(k));
                let j = crate::strmap::key_index(entries@, k);
                crate::strmap::lemma_map_of_index(entries@, j);
                assert(old_view.pending[k] == reservations_view(entries@[j].1));
                let sj = reservations_view(entries@[j].1);
                assert(keep_live(sj, now).len() != sj.len() || sj.len() == 0);
                assert(removed);
            }
        }
        self.pending_reservations = kept;
        assert(self@.pending =~= gc_spec(old_view, now).pending);
        removed
    }

    /// The reservations of `reservations` still valid at `now`, in order.
    fn live_reservations(reservations: &Vec<PendingReservation>, now: u64) -> (live: Vec<PendingReservation>)
        ensures
            reservations_view(live) == keep_live(reservations_view(*reservations), now),
    {
        let mut live: Vec<PendingReservation> = Vec::new();
        let n = reservations.len();
        let mut i: usize = 0;
        while i < n
            invariant
                n == reservations@.len(),
                i <= n,
                reservations_view(live) == keep_live(reservations_view(*reservations).take(i as int), now),
            decreases n - i,
        {
            let r = reservations[i];
            let ghost s = reservations_view(*reservations);
            assert(s.take(i + 1).drop_last() =~= s.take(i as int));
            assert(s.take(i + 1).last() == r.reserved_at_ms);
            let ghost before = reservations_view(live);
            if now.saturating_sub(r.reserved_at_ms) < PENDING_RESERVATION_TTL_MS {
                live.push(r);
                assert(reservations_view(live) =~= before.push(r.reserved_at_ms));
            }
            i = i + 1;
        }
        assert(reservations_view(*reservations).take(n as int) =~= reservations_view(*reservations));
        live
    }

    /// Whether two count maps hold the same keys with the same values.
    fn same_counts(a: &StrMap<usize>, b: &StrMap<usize>) -> (r: bool)
        requires
            a.wf(),
            b.wf(),
        ensures
            r == (a@ == b@),
    {
        let ea = a.entries();
        let mut i: usize = 0;
        while i < ea.len()
            invariant
                a.wf(),
                b.wf(),
                ea@ == a.spec_entries(),
                i <= ea@.len(),
                forall|j: int| 0 <= j < i ==> b@.contains_key((#[trigger] ea@[j]).0@) && b@[ea@[j].0@] == ea@[j].1,
            decreases ea@.len() - i,
        {
            proof { crate::strmap::lemma_map_of_index(ea@, i as int); }
            match b.get(ea[i].0.as_str()) {
                Some(v) => {
                    if *v != ea[i].1 {
                        return false;
                    }
                },
                None => { return false; },
            }
            i = i + 1;
        }
        let eb = b.entries();
        let mut j: usize = 0;
        while j < eb.len()
            invariant
                a.wf(),
                b.wf(),
                eb@ == b.spec_entries(),
                j <= eb@.len(),
                forall|m: int| 0 <= m < j ==> a@.contains_key((#[trigger] eb@[m]).0@),
            decreases eb@.len() - j,
        {
            proof { crate::strmap::lemma_map_of_index(eb@, j as int); }
            if !a.contains_key(eb[j].0.as_str()) {
                return false;
            }
            j = j + 1;
        }
        proof {
            assert forall|k: Seq<char>| #[trigger] a@.contains_key(k) implies b@.contains_key(k) && b@[k] == a@[k] by {
                let m = crate::strmap::key_index(ea@, k);
                crate::strmap::lemma_map_of_index(ea@, m);
            }
            assert forall|k: Seq<char>| #[trigger] b@.contains_key(k) implies a@.contains_key(k) by {
                let m = crate::strmap::key_index(eb@, k);
                crate::strmap::lemma_map_of_index(eb@, m);
            }
            assert(a@ =~= b@);
        }
        true
    }

    /// Reset the confirmed counts to the live counts (computed from the
    /// registry), drop all ghost credits, and leave reservations alone.
    /// Returns whether anything changed.
    pub fn reconcile_counts(&mut self, live_counts: StrMap<usize>) -> (changed: bool)
        requires
            old(self).wf(),
            live_counts.wf(),
        ensures
            final(self).wf(),
            final(self)@ == reconcile_spec(old(self)@, live_counts@),
            changed == reconcile_changes(old(self)@, live_counts@),
    {
        let same = Self::same_counts(&self.counts, &live_counts);
        let no_ghosts = self.ghosts.is_empty();
        self.counts = live_counts;
        self.ghosts = StrMap::new();
        !same || !no_ghosts
    }
}

} // verus!
