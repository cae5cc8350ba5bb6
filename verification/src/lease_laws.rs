//! Properties of the lease table that span several operations.

use vstd::prelude::*;
use crate::session_lease::{
    acquire_spec, check_holder_spec, detach_spec, heartbeat_is_stale, heartbeat_spec, takeover_spec,
    LeaseMap, LeaseOutcome, STALE_LEASE_THRESHOLD_MS,
};

verus! {

/// Single writer: once `a` has acquired a session at `t1 > 0`, any other
/// client trying to acquire it within the staleness threshold is refused with
/// `a` reported as holder, and the table is left as it was.
pub proof fn lemma_live_lease_excludes_other_clients(
    t: LeaseMap,
    session_id: Seq<char>,
    a: Seq<char>,
    a_pid: Option<u32>,
    a_host: Option<Seq<char>>,
    t1: u64,
    b: Seq<char>,
    b_pid: Option<u32>,
    b_host: Option<Seq<char>>,
    t2: u64,
)
    requires
        a != b,
        t1 > 0,
        t2 <= t1 + STALE_LEASE_THRESHOLD_MS,
        acquire_spec(t, session_id, a, a_pid, a_host, t1).1 is Granted,
    ensures
        ({
            let held = acquire_spec(t, session_id, a, a_pid, a_host, t1).0;
            let (after, outcome) = acquire_spec(held, session_id, b, b_pid, b_host, t2);
            &&& after == held
            &&& outcome matches LeaseOutcome::Busy { holder, stale } && holder.client_id == a && !stale
        }),
{
}

/// The holder of a freshly acquired lease passes the holder check and renews
/// it by heartbeat, at any later time.
pub proof fn lemma_acquired_lease_admits_its_holder(
    t: LeaseMap,
    session_id: Seq<char>,
    a: Seq<char>,
    a_pid: Option<u32>,
    a_host: Option<Seq<char>>,
    t1: u64,
    t2: u64,
)
    requires
        acquire_spec(t, session_id, a, a_pid, a_host, t1).1 is Granted,
    ensures
        ({
            let held = acquire_spec(t, session_id, a, a_pid, a_host, t1).0;
            &&& held.contains_key(session_id)
            &&& held[session_id].client_id == a
            &&& held[session_id].last_heartbeat_ms == t1
            &&& check_holder_spec(held, session_id, Some(a), t2) is Granted
            &&& heartbeat_spec(held, session_id, a, None, None, t2).1 is Granted
        }),
{
}

/// A stale lease is taken over by another client, after which the previous
/// holder's heartbeat is refused within the threshold, naming the new holder
/// as live.
pub proof fn lemma_takeover_displaces_stale_holder(
    t: LeaseMap,
    session_id: Seq<char>,
    a: Seq<char>,
    b: Seq<char>,
    b_pid: Option<u32>,
    b_host: Option<Seq<char>>,
    t2: u64,
    t3: u64,
)
    requires
        a != b,
        t.contains_key(session_id),
        t[session_id].client_id == a,
        heartbeat_is_stale(t[session_id].last_heartbeat_ms, t2, STALE_LEASE_THRESHOLD_MS),
        t2 > 0,
        t2 <= t3 <= t2 + STALE_LEASE_THRESHOLD_MS,
    ensures
        ({
            let (taken, outcome) = acquire_spec(t, session_id, b, b_pid, b_host, t2);
            &&& outcome is Granted
            &&& heartbeat_spec(taken, session_id, a, None, None, t3).1
                matches LeaseOutcome::Busy { holder, stale } && holder.client_id == b && !stale
        }),
{
}

/// The read-only check never takes over: a stale lease still names its old
/// holder afterwards (the check takes the table by shared reference, so only
/// its answer is at issue), and the takeover variant gives the same answer.
pub proof fn lemma_check_and_takeover_agree(
    t: LeaseMap,
    session_id: Seq<char>,
    caller: Option<Seq<char>>,
    now: u64,
)
    ensures
        takeover_spec(t, session_id, None, now) == t,
        (t.contains_key(session_id) && takeover_spec(t, session_id, caller, now) != t) ==> (
            check_holder_spec(t, session_id, caller, now) is Granted
            && heartbeat_is_stale(t[session_id].last_heartbeat_ms, now, STALE_LEASE_THRESHOLD_MS)),
{
}

/// A stale lease taken over through the holder check belongs to the caller:
/// the caller's heartbeat then succeeds and the previous holder's fails.
pub proof fn lemma_checked_takeover_transfers_lease(
    t: LeaseMap,
    session_id: Seq<char>,
    a: Seq<char>,
    b: Seq<char>,
    now: u64,
    later: u64,
)
    requires
        a != b,
        b.len() > 0,
        now > 0,
        now <= later <= now + STALE_LEASE_THRESHOLD_MS,
        t.contains_key(session_id),
        t[session_id].client_id == a,
        heartbeat_is_stale(t[session_id].last_heartbeat_ms, now, STALE_LEASE_THRESHOLD_MS),
    ensures
        ({
            let taken = takeover_spec(t, session_id, Some(b), now);
            &&& check_holder_spec(t, session_id, Some(b), now) is Granted
            &&& heartbeat_spec(taken, session_id, b, None, None, later).1 is Granted
            &&& heartbeat_spec(taken, session_id, a, None, None, later).1
                matches LeaseOutcome::Busy { holder, .. } && holder.client_id == b
        }),
{
}

/// Detach only releases the caller's own lease; once released, every caller
/// passes the holder check and a new acquire succeeds.
pub proof fn lemma_detach_releases_only_own_lease(
    t: LeaseMap,
    session_id: Seq<char>,
    caller: Seq<char>,
    other: Option<Seq<char>>,
    now: u64,
)
    requires
        t.contains_key(session_id),
    ensures
        t[session_id].client_id != caller ==> detach_spec(t, session_id, caller) == t,
        t[session_id].client_id == caller ==> {
            let released = detach_spec(t, session_id, caller);
            &&& !released.contains_key(session_id)
            &&& check_holder_spec(released, session_id, other, now) is Granted
        },
{
}

} // verus!
