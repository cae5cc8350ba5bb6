//! Per-session attach lease table.
//!
//! Enforces "one session = one writer at a time" across clients sharing one
//! daemon. A lease whose heartbeat is older than the staleness threshold is
//! orphaned and may be taken over; a live lease held by another client is
//! never overridden. The decisions take the current time as an argument; the
//! entry points without `_at` read the wall clock and refuse to act when it
//! is broken.

use vstd::prelude::*;
use crate::clock::{wall_clock_ms, ClockSkew};
use crate::strmap::{StrMap, str_equal};

verus! {

/// Heartbeat staleness threshold (3x the 15 s heartbeat interval).
pub const STALE_LEASE_THRESHOLD_MS: u64 = 45_000;

/// Reaper threshold: a session with no live lease for this long may be closed.
pub const ORPHAN_SESSION_THRESHOLD_MS: u64 = 7_200_000;

/// Whether a heartbeat stamped `heartbeat_ms` is older than `threshold_ms`
/// at `now` (a zero stamp is always stale; a stamp in the future is fresh).
pub open spec fn heartbeat_is_stale(heartbeat_ms: u64, now: u64, threshold_ms: u64) -> bool {
    heartbeat_ms == 0 || (now > heartbeat_ms && now - heartbeat_ms > threshold_ms)
}

pub open spec fn opt_string_view(o: Option<String>) -> Option<Seq<char>> {
    match o {
        Some(s) => Some(s@),
        None => None,
    }
}

pub fn clone_opt_string(o: &Option<String>) -> (r: Option<String>)
    ensures
        opt_string_view(r) == opt_string_view(*o),
{
    match o {
        Some(s) => Some(s.clone()),
        None => None,
    }
}

/// The recorded holder of a session.
#[derive(Debug)]
pub struct SessionLease {
    pub client_id: String,
    pub client_pid: Option<u32>,
    pub client_hostname: Option<String>,
    pub last_heartbeat_ms: u64,
}

/// A lease as plain values.
pub struct LeaseView {
    pub client_id: Seq<char>,
    pub client_pid: Option<u32>,
    pub client_hostname: Option<Seq<char>>,
    pub last_heartbeat_ms: u64,
}

impl View for SessionLease {
    type V = LeaseView;

    open spec fn view(&self) -> LeaseView {
        LeaseView {
            client_id: self.client_id@,
            client_pid: self.client_pid,
            client_hostname: opt_string_view(self.client_hostname),
            last_heartbeat_ms: self.last_heartbeat_ms,
        }
    }
}

/// A lease for `client_id` stamped at `now`.
pub open spec fn fresh_lease_view(
    client_id: Seq<char>,
    client_pid: Option<u32>,
    client_hostname: Option<Seq<char>>,
    now: u64,
) -> LeaseView {
    LeaseView { client_id, client_pid, client_hostname, last_heartbeat_ms: now }
}

impl SessionLease {
    /// Whether this lease is older than `threshold_ms` relative to `now`.
    pub fn is_stale(&self, now: u64, threshold_ms: u64) -> (r: bool)
        ensures
            r == heartbeat_is_stale(self.last_heartbeat_ms, now, threshold_ms),
    {
        if self.last_heartbeat_ms == 0 {
            return true;
        }
        now.saturating_sub(self.last_heartbeat_ms) > threshold_ms
    }

    pub fn duplicate(&self) -> (r: SessionLease)
        ensures
            r@ == self@,
    {
        SessionLease {
            client_id: self.client_id.clone(),
            client_pid: self.client_pid,
            client_hostname: clone_opt_string(&self.client_hostname),
            last_heartbeat_ms: self.last_heartbeat_ms,
        }
    }
}

/// A lease for `client_id` stamped at `now`.
pub fn fresh_lease(
    client_id: String,
    client_pid: Option<u32>,
    client_hostname: Option<String>,
    now: u64,
) -> (l: SessionLease)
    ensures
        l@ == fresh_lease_view(client_id@, client_pid, opt_string_view(client_hostname), now),
{
    SessionLease { client_id, client_pid, client_hostname, last_heartbeat_ms: now }
}

/// Outcome of a lease-acquire attempt.
#[derive(Debug)]
pub enum LeaseAcquireOutcome {
    /// The caller had no prior lease, held it already (refreshed), or took over a stale one.
    Acquired,
    /// Another live client holds the lease.
    Busy {
        holder_client_id: String,
        holder_hostname: Option<String>,
        holder_pid: Option<u32>,
        last_heartbeat_ms: u64,
        stale: bool,
    },
    /// The wall clock reads before the UNIX epoch; nothing was changed.
    ClockSkew,
}

/// Why a lease check refused the caller.
#[derive(Debug)]
pub enum LeaseCheckFailure {
    /// The session is held by another client.
    Busy {
        holder_client_id: String,
        holder_hostname: Option<String>,
        holder_pid: Option<u32>,
        last_heartbeat_ms: u64,
        stale: bool,
    },
    /// The wall clock reads before the UNIX epoch.
    ClockSkew,
}

/// The outcome of a lease operation as plain values.
pub enum LeaseOutcome {
    Granted,
    Busy { holder: LeaseView, stale: bool },
    ClockSkew,
}

impl View for LeaseAcquireOutcome {
    type V = LeaseOutcome;

    open spec fn view(&self) -> LeaseOutcome {
        match self {
            LeaseAcquireOutcome::Acquired => LeaseOutcome::Granted,
            LeaseAcquireOutcome::Busy { holder_client_id, holder_hostname, holder_pid, last_heartbeat_ms, stale } =>
                LeaseOutcome::Busy {
                    holder: LeaseView {
                        client_id: holder_client_id@,
                        client_pid: *holder_pid,
                        client_hostname: opt_string_view(*holder_hostname),
                        last_heartbeat_ms: *last_heartbeat_ms,
                    },
                    stale: *stale,
                },
            LeaseAcquireOutcome::ClockSkew => LeaseOutcome::ClockSkew,
        }
    }
}

/// The outcome of a check as plain values (`Granted` for `Ok(())`).
pub open spec fn check_view(r: Result<(), LeaseCheckFailure>) -> LeaseOutcome {
    match r {
        Ok(()) => LeaseOutcome::Granted,
        Err(LeaseCheckFailure::Busy { holder_client_id, holder_hostname, holder_pid, last_heartbeat_ms, stale }) =>
            LeaseOutcome::Busy {
                holder: LeaseView {
                    client_id: holder_client_id@,
                    client_pid: holder_pid,
                    client_hostname: opt_string_view(holder_hostname),
                    last_heartbeat_ms,
                },
                stale,
            },
        Err(LeaseCheckFailure::ClockSkew) => LeaseOutcome::ClockSkew,
    }
}

/// The leases, keyed by session id.
pub type LeaseMap = Map<Seq<char>, LeaseView>;

/// Table and outcome after `acquire` by `client_id` on `session_id` at `now`.
pub open spec fn acquire_spec(
    t: LeaseMap,
    session_id: Seq<char>,
    client_id: Seq<char>,
    client_pid: Option<u32>,
    client_hostname: Option<Seq<char>>,
    now: u64,
) -> (LeaseMap, LeaseOutcome) {
    if !t.contains_key(session_id) {
        (t.insert(session_id, fresh_lease_view(client_id, client_pid, client_hostname, now)), LeaseOutcome::Granted)
    } else {
        let lease = t[session_id];
        if lease.client_id == client_id {
            let refreshed = LeaseView {
                client_id: lease.client_id,
                client_pid: if client_pid is Some { client_pid } else { lease.client_pid },
                client_hostname: if client_hostname is Some { client_hostname } else { lease.client_hostname },
                last_heartbeat_ms: now,
            };
            (t.insert(session_id, refreshed), LeaseOutcome::Granted)
        } else if heartbeat_is_stale(lease.last_heartbeat_ms, now, STALE_LEASE_THRESHOLD_MS) {
            (t.insert(session_id, fresh_lease_view(client_id, client_pid, client_hostname, now)), LeaseOutcome::Granted)
        } else {
            (t, LeaseOutcome::Busy { holder: lease, stale: false })
        }
    }
}

/// Table and outcome after a heartbeat by `client_id` on `session_id` at `now`.
pub open spec fn heartbeat_spec(
    t: LeaseMap,
    session_id: Seq<char>,
    client_id: Seq<char>,
    client_pid: Option<u32>,
    client_hostname: Option<Seq<char>>,
    now: u64,
) -> (LeaseMap, LeaseOutcome) {
    if !t.contains_key(session_id) {
        (t.insert(session_id, fresh_lease_view(client_id, client_pid, client_hostname, now)), LeaseOutcome::Granted)
    } else {
        let lease = t[session_id];
        if lease.client_id == client_id {
            (t.insert(session_id, LeaseView { last_heartbeat_ms: now, ..lease }), LeaseOutcome::Granted)
        } else {
            (t, LeaseOutcome::Busy {
                holder: lease,
                stale: heartbeat_is_stale(lease.last_heartbeat_ms, now, STALE_LEASE_THRESHOLD_MS),
            })
        }
    }
}

/// Whether `client_id` names the recorded holder (an absent caller never does).
pub open spec fn is_recorded_holder(lease: LeaseView, client_id: Option<Seq<char>>) -> bool {
    match client_id {
        Some(c) => lease.client_id == c,
        None => false,
    }
}

/// Outcome of the read-only holder check at `now`.
pub open spec fn check_holder_spec(t: LeaseMap, session_id: Seq<char>, client_id: Option<Seq<char>>, now: u64) -> LeaseOutcome {
    if !t.contains_key(session_id) {
        LeaseOutcome::Granted
    } else {
        let lease = t[session_id];
        if is_recorded_holder(lease, client_id) || heartbeat_is_stale(lease.last_heartbeat_ms, now, STALE_LEASE_THRESHOLD_MS) {
            LeaseOutcome::Granted
        } else {
            LeaseOutcome::Busy { holder: lease, stale: false }
        }
    }
}

/// Table after the takeover check: an identified, non-empty caller takes over a stale lease.
pub open spec fn takeover_spec(t: LeaseMap, session_id: Seq<char>, client_id: Option<Seq<char>>, now: u64) -> LeaseMap {
    if !t.contains_key(session_id) {
        t
    } else {
        let lease = t[session_id];
        if is_recorded_holder(lease, client_id) {
            t
        } else if heartbeat_is_stale(lease.last_heartbeat_ms, now, STALE_LEASE_THRESHOLD_MS) {
            match client_id {
                Some(c) if c.len() > 0 => t.insert(session_id, fresh_lease_view(c, None, None, now)),
                _ => t,
            }
        } else {
            t
        }
    }
}

/// Table after a detach by `client_id`: only the holder's own lease is released.
pub open spec fn detach_spec(t: LeaseMap, session_id: Seq<char>, client_id: Seq<char>) -> LeaseMap {
    if t.contains_key(session_id) && t[session_id].client_id == client_id {
        t.remove(session_id)
    } else {
        t
    }
}

/// Whether `session_id` has a lease fresher than `threshold_ms` at `now`.
pub open spec fn has_live_lease_spec(t: LeaseMap, session_id: Seq<char>, threshold_ms: u64, now: u64) -> bool {
    t.contains_key(session_id) && !heartbeat_is_stale(t[session_id].last_heartbeat_ms, now, threshold_ms)
}

/// Attach leases, one per session at most.
pub struct SessionLeaseTable {
    leases: StrMap<SessionLease>,
}

impl View for SessionLeaseTable {
    type V = LeaseMap;

    closed spec fn view(&self) -> LeaseMap {
        self.leases@.map_values(|l: SessionLease| l@)
    }
}

impl SessionLeaseTable {
    pub closed spec fn wf(&self) -> bool {
        self.leases.wf()
    }

    pub fn new() -> (t: Self)
        ensures
            t.wf(),
            t@ == Map::<Seq<char>, LeaseView>::empty(),
    {
        let t = SessionLeaseTable { leases: StrMap::new() };
        assert(t@ =~= Map::<Seq<char>, LeaseView>::empty());
        t
    }

    fn lookup(&self, session_id: &str) -> (r: Option<&SessionLease>)
        requires
            self.wf(),
        ensures
            match r {
                Some(l) => self@.contains_key(session_id@) && l@ == self@[session_id@],
                None => !self@.contains_key(session_id@),
            },
    {
        self.leases.get(session_id)
    }

    fn store(&mut self, session_id: &str, lease: SessionLease)
        requires
            old(self).wf(),
        ensures
            final(self).wf(),
            final(self)@ == old(self)@.insert(session_id@, lease@),
    {
        let ghost l = lease@;
        self.leases.insert(String::from_str(session_id), lease);
        assert(self@ =~= old(self)@.insert(session_id@, l));
    }

    fn busy_acquire(lease: &SessionLease) -> (r: LeaseAcquireOutcome)
        ensures
            r@ == (LeaseOutcome::Busy { holder: lease@, stale: false }),
    {
        LeaseAcquireOutcome::Busy {
            holder_client_id: lease.client_id.clone(),
            holder_hostname: clone_opt_string(&lease.client_hostname),
            holder_pid: lease.client_pid,
            last_heartbeat_ms: lease.last_heartbeat_ms,
            stale: false,
        }
    }

    fn busy_check(lease: &SessionLease, stale: bool) -> (r: Result<(), LeaseCheckFailure>)
        ensures
            check_view(r) == (LeaseOutcome::Busy { holder: lease@, stale }),
    {
        Err(LeaseCheckFailure::Busy {
            holder_client_id: lease.client_id.clone(),
            holder_hostname: clone_opt_string(&lease.client_hostname),
            holder_pid: lease.client_pid,
            last_heartbeat_ms: lease.last_heartbeat_ms,
            stale,
        })
    }

    /// Acquire or refresh the lease on `session_id` for `client_id` at time `now`.
    /// A live lease of another client is never overridden; a stale one is taken over.
    pub fn acquire_at(
        &mut self,
        session_id: &str,
        client_id: &str,
        client_pid: Option<u32>,
        client_hostname: Option<String>,
        now: u64,
    ) -> (r: LeaseAcquireOutcome)
        requires
            old(self).wf(),
        ensures
            final(self).wf(),
            (final(self)@, r@) == acquire_spec(old(self)@, session_id@, client_id@, client_pid, opt_string_view(client_hostname), now),
    {
        let ghost host = opt_string_view(client_hostname);
        match self.lookup(session_id) {
            Some(lease) => {
                if str_equal(lease.client_id.as_str(), client_id) {
                    let refreshed = SessionLease {
                        client_id: lease.client_id.clone(),
                        client_pid: if client_pid.is_some() { client_pid } else { lease.client_pid },
                        client_hostname: if client_hostname.is_some() { client_hostname } else { clone_opt_string(&lease.client_hostname) },
                        last_heartbeat_ms: now,
                    };
                    self.store(session_id, refreshed);
                    LeaseAcquireOutcome::Acquired
                } else if lease.is_stale(now, STALE_LEASE_THRESHOLD_MS) {
                    let fresh = fresh_lease(String::from_str(client_id), client_pid, client_hostname, now);
                    self.store(session_id, fresh);
                    LeaseAcquireOutcome::Acquired
                } else {
                    Self::busy_acquire(lease)
                }
            },
            None => {
                let fresh = fresh_lease(String::from_str(client_id), client_pid, client_hostname, now);
                self.store(session_id, fresh);
                LeaseAcquireOutcome::Acquired
            },
        }
    }

    /// `acquire_at` at the wall-clock time; `ClockSkew`, with nothing changed,
    /// when the clock reads before the epoch.
    pub fn acquire(
        &mut self,
        session_id: &str,
        client_id: &str,
        client_pid: Option<u32>,
        client_hostname: Option<String>,
    ) -> (r: LeaseAcquireOutcome)
        requires
            old(self).wf(),
        ensures
            final(self).wf(),
            r is ClockSkew ==> final(self)@ == old(self)@,
            !(r is ClockSkew) ==> exists|now: u64|
                (final(self)@, r@) == #[trigger] acquire_spec(old(self)@, session_id@, client_id@, client_pid, opt_string_view(client_hostname), now),
    {
        match wall_clock_ms() {
            Ok(now) => {
                let r = self.acquire_at(session_id, client_id, client_pid, client_hostname, now);
                assert((self@, r@) == acquire_spec(old(self)@, session_id@, client_id@, client_pid, opt_string_view(client_hostname), now));
                r
            },
            Err(_) => LeaseAcquireOutcome::ClockSkew,
        }
    }

    /// Renew a lease at `now`: `Ok` when the caller holds it or no lease is in
    /// place (then the caller re-acquires it); `Busy` when another client holds
    /// it, with its staleness computed at `now`.
    pub fn heartbeat_at(
        &mut self,
        session_id: &str,
        client_id: &str,
        client_pid: Option<u32>,
        client_hostname: Option<String>,
        now: u64,
    ) -> (r: Result<(), LeaseCheckFailure>)
        requires
            old(self).wf(),
        ensures
            final(self).wf(),
            (final(self)@, check_view(r)) == heartbeat_spec(old(self)@, session_id@, client_id@, client_pid, opt_string_view(client_hostname), now),
    {
        match self.lookup(session_id) {
            Some(lease) => {
                if str_equal(lease.client_id.as_str(), client_id) {
                    let mut refreshed = lease.duplicate();
                    refreshed.last_heartbeat_ms = now;
                    self.store(session_id, refreshed);
                    Ok(())
                } else {
                    let stale = lease.is_stale(now, STALE_LEASE_THRESHOLD_MS);
                    Self::busy_check(lease, stale)
                }
            },
            None => {
                let fresh = fresh_lease(String::from_str(client_id), client_pid, client_hostname, now);
                self.store(session_id, fresh);
                Ok(())
            },
        }
    }

    /// `heartbeat_at` at the wall-clock time; `ClockSkew`, with nothing
    /// changed, when the clock reads before the epoch.
    pub fn heartbeat(
        &mut self,
        session_id: &str,
        client_id: &str,
        client_pid: Option<u32>,
        client_hostname: Option<String>,
    ) -> (r: Result<(), LeaseCheckFailure>)
        requires
            old(self).wf(),
        ensures
            final(self).wf(),
            check_view(r) is ClockSkew ==> final(self)@ == old(self)@,
            !(check_view(r) is ClockSkew) ==> exists|now: u64|
                (final(self)@, check_view(r)) == #[trigger] heartbeat_spec(old(self)@, session_id@, client_id@, client_pid, opt_string_view(client_hostname), now),
    {
        match wall_clock_ms() {
            Ok(now) => {
                let r = self.heartbeat_at(session_id, client_id, client_pid, client_hostname, now);
                assert((self@, check_view(r)) == heartbeat_spec(old(self)@, session_id@, client_id@, client_pid, opt_string_view(client_hostname), now));
                r
            },
            Err(_) => Err(LeaseCheckFailure::ClockSkew),
        }
    }

    /// Release the lease if `client_id` holds it; otherwise nothing changes.
    pub fn detach(&mut self, session_id: &str, client_id: &str)
        requires
            old(self).wf(),
        ensures
            final(self).wf(),
            final(self)@ == detach_spec(old(self)@, session_id@, client_id@),
    {
        let holds = match self.lookup(session_id) {
            Some(lease) => str_equal(lease.client_id.as_str(), client_id),
            None => false,
        };
        if holds {
            self.remove(session_id);
        }
    }

    /// Whether `session_id` has a lease fresher than `stale_threshold_ms` at `now`.
    pub fn has_live_lease_at(&self, session_id: &str, stale_threshold_ms: u64, now: u64) -> (r: bool)
        requires
            self.wf(),
        ensures
            r == has_live_lease_spec(self@, session_id@, stale_threshold_ms, now),
    {
        match self.lookup(session_id) {
            Some(lease) => !lease.is_stale(now, stale_threshold_ms),
            None => false,
        }
    }

    /// `has_live_lease_at` at the wall-clock time; `false` when the clock is broken.
    pub fn has_live_lease(&self, session_id: &str, stale_threshold_ms: u64) -> (r: bool)
        requires
            self.wf(),
        ensures
            r ==> exists|now: u64| #[trigger] has_live_lease_spec(self@, session_id@, stale_threshold_ms, now),
            r ==> self@.contains_key(session_id@),
    {
        match wall_clock_ms() {
            Ok(now) => self.has_live_lease_at(session_id, stale_threshold_ms, now),
            Err(_) => false,
        }
    }

    /// Read-only holder check at `now`: `Ok` iff the caller is the holder, no
    /// lease is in place, or the recorded lease is stale. Never changes the table.
    pub fn check_holder_at(&self, session_id: &str, client_id: Option<&str>, now: u64) -> (r: Result<(), LeaseCheckFailure>)
        requires
            self.wf(),
        ensures
            check_view(r) == check_holder_spec(self@, session_id@, opt_str_view(client_id), now),
    {
        match self.lookup(session_id) {
            None => Ok(()),
            Some(lease) => {
                let is_holder = match client_id {
                    Some(cid) => str_equal(lease.client_id.as_str(), cid),
                    None => false,
                };
                if is_holder || lease.is_stale(now, STALE_LEASE_THRESHOLD_MS) {
                    Ok(())
                } else {
                    Self::busy_check(lease, false)
                }
            },
        }
    }

    /// `check_holder_at` at the wall-clock time; `ClockSkew` when the clock is broken.
    pub fn check_holder(&self, session_id: &str, client_id: Option<&str>) -> (r: Result<(), LeaseCheckFailure>)
        requires
            self.wf(),
        ensures
            !(check_view(r) is ClockSkew) ==> exists|now: u64|
                check_view(r) == #[trigger] check_holder_spec(self@, session_id@, opt_str_view(client_id), now),
    {
        match wall_clock_ms() {
            Ok(now) => {
                let r = self.check_holder_at(session_id, client_id, now);
                assert(check_view(r) == check_holder_spec(self@, session_id@, opt_str_view(client_id), now));
                r
            },
            Err(_) => Err(LeaseCheckFailure::ClockSkew),
        }
    }

    /// Holder check with stale takeover at `now`: answers as `check_holder_at`;
    /// on a stale lease an identified, non-empty caller becomes the holder.
    pub fn check_or_takeover_holder_at(&mut self, session_id: &str, client_id: Option<&str>, now: u64) -> (r: Result<(), LeaseCheckFailure>)
        requires
            old(self).wf(),
        ensures
            final(self).wf(),
            check_view(r) == check_holder_spec(old(self)@, session_id@, opt_str_view(client_id), now),
            final(self)@ == takeover_spec(old(self)@, session_id@, opt_str_view(client_id), now),
    {
        let (is_holder, stale) = match self.lookup(session_id) {
            None => { return Ok(()); },
            Some(lease) => {
                let is_holder = match client_id {
                    Some(cid) => str_equal(lease.client_id.as_str(), cid),
                    None => false,
                };
                if !is_holder && !lease.is_stale(now, STALE_LEASE_THRESHOLD_MS) {
                    return Self::busy_check(lease, false);
                }
                (is_holder, true)
            },
        };
        if is_holder {
            return Ok(());
        }
        match client_id {
            Some(cid) => {
                if !cid.is_empty() {
                    let fresh = fresh_lease(String::from_str(cid), None, None, now);
                    self.store(session_id, fresh);
                }
            },
            None => {},
        }
        Ok(())
    }

    /// `check_or_takeover_holder_at` at the wall-clock time; `ClockSkew`, with
    /// nothing changed, when the clock is broken.
    pub fn check_or_takeover_holder(&mut self, session_id: &str, client_id: Option<&str>) -> (r: Result<(), LeaseCheckFailure>)
        requires
            old(self).wf(),
        ensures
            final(self).wf(),
            check_view(r) is ClockSkew ==> final(self)@ == old(self)@,
            !(check_view(r) is ClockSkew) ==> exists|now: u64|
                check_view(r) == #[trigger] check_holder_spec(old(self)@, session_id@, opt_str_view(client_id), now)
                && final(self)@ == takeover_spec(old(self)@, session_id@, opt_str_view(client_id), now),
    {
        match wall_clock_ms() {
            Ok(now) => self.check_or_takeover_holder_at(session_id, client_id, now),
            Err(_) => Err(LeaseCheckFailure::ClockSkew),
        }
    }

    /// Remove the lease for `session_id` unconditionally.
    pub fn remove(&mut self, session_id: &str)
        requires
            old(self).wf(),
        ensures
            final(self).wf(),
            final(self)@ == old(self)@.remove(session_id@),
    {
        let _ = self.leases.remove(session_id);
        assert(self@ =~= old(self)@.remove(session_id@));
    }

    /// `(session_id, holder_client_id, last_heartbeat_ms)` for every lease, each session once.
    pub fn snapshot(&self) -> (out: Vec<(String, String, u64)>)
        requires
            self.wf(),
        ensures
            forall|i: int| 0 <= i < out@.len() ==> {
                &&& self@.contains_key(#[trigger] out@[i].0@)
                &&& self@[out@[i].0@].client_id == out@[i].1@
                &&& self@[out@[i].0@].last_heartbeat_ms == out@[i].2
            },
            forall|k: Seq<char>| self@.contains_key(k) ==> exists|i: int| 0 <= i < out@.len() && #[trigger] out@[i].0@ == k,
            forall|i: int, j: int| 0 <= i < out@.len() && 0 <= j < out@.len() && i != j ==> #[trigger] out@[i].0@ != #[trigger] out@[j].0@,
    {
        let entries = self.leases.entries();
        let mut out: Vec<(String, String, u64)> = Vec::new();
        let n = entries.len();
        let mut i: usize = 0;
        while i < n
            invariant
                self.wf(),
                entries@ == self.leases.spec_entries(),
                n == entries@.len(),
                i <= n,
                out@.len() == i,
                forall|j: int| 0 <= j < i ==> {
                    &&& (#[trigger] out@[j]).0@ == entries@[j].0@
                    &&& out@[j].1@ == entries@[j].1.client_id@
                    &&& out@[j].2 == entries@[j].1.last_heartbeat_ms
                },
            decreases n - i,
        {
            let (sid, lease) = &entries[i];
            out.push((sid.clone(), lease.client_id.clone(), lease.last_heartbeat_ms));
            i = i + 1;
        }
        proof {
            assert forall|i: int| 0 <= i < out@.len() implies {
                &&& self@.contains_key(#[trigger] out@[i].0@)
                &&& self@[out@[i].0@].client_id == out@[i].1@
                &&& self@[out@[i].0@].last_heartbeat_ms == out@[i].2
            } by {
                crate::strmap::lemma_map_of_index(entries@, i);
            }
            assert forall|k: Seq<char>| self@.contains_key(k) implies exists|i: int| 0 <= i < out@.len() && #[trigger] out@[i].0@ == k by {
                assert(self.leases@.contains_key(k));
                let i = crate::strmap::key_index(entries@, k);
                assert(out@[i].0@ == k);
            }
        }
        out
    }
}

pub open spec fn opt_str_view(o: Option<&str>) -> Option<Seq<char>> {
    match o {
        Some(s) => Some(s@),
        None => None,
    }
}

} // verus!
