//! Properties of the sandbox counter that span several operations.

use vstd::prelude::*;
use crate::sandbox_counter::{
    cancel_spec, confirm_spec, counter_within_limit, gc_spec, keep_live, pending_for, release_spec,
    reservation_is_live, reserve_spec, total_for, value_or_zero, CounterView,
};

verus! {

/// A granted reservation raises the key's total by one and keeps it within
/// the limit; the counter invariant is preserved.
pub proof fn lemma_reserve_stays_within_limit(v: CounterView, k: Seq<char>, max: usize, now: u64)
    requires
        counter_within_limit(v, max),
        total_for(v, k) < max,
    ensures
        counter_within_limit(reserve_spec(v, k, now), max),
        total_for(reserve_spec(v, k, now), k) == total_for(v, k) + 1,
        total_for(reserve_spec(v, k, now), k) <= max,
{
}

/// Confirming a creation never lifts a confirmed count above the limit, and
/// ghost credits only exist at the limit.
pub proof fn lemma_confirm_stays_within_limit(v: CounterView, k: Seq<char>, max: usize)
    requires
        counter_within_limit(v, max),
    ensures
        counter_within_limit(confirm_spec(v, k, max), max),
{
    let w = confirm_spec(v, k, max);
    assert forall|kk: Seq<char>| w.ghosts.contains_key(kk) && #[trigger] w.ghosts[kk] > 0 implies value_or_zero(w.counts, kk) == max by {
        if kk != k {
            assert(v.ghosts.contains_key(kk) && v.ghosts[kk] > 0);
        }
    }
}

/// Confirming a creation consumes one pending reservation of the key (none
/// when it has none) and counts exactly one more sandbox: in the confirmed
/// count below the limit, as a ghost credit at it. Stated below the machine
/// limit of the ghost credit, where the credit saturates.
pub proof fn law_confirm_counts_one_sandbox(v: CounterView, k: Seq<char>, max: usize)
    requires
        counter_within_limit(v, max),
        value_or_zero(v.ghosts, k) < usize::MAX,
    ensures
        ({
            let w = confirm_spec(v, k, max);
            let c = value_or_zero(v.counts, k);
            let g = value_or_zero(v.ghosts, k);
            let p = pending_for(v.pending, k).len();
            &&& pending_for(w.pending, k).len() == (if p > 0 { p - 1 } else { 0 })
            &&& c < max ==> value_or_zero(w.counts, k) == c + 1 && value_or_zero(w.ghosts, k) == g
            &&& c >= max ==> value_or_zero(w.counts, k) == c && value_or_zero(w.ghosts, k) == g + 1
            &&& value_or_zero(w.counts, k) + value_or_zero(w.ghosts, k) == c + g + 1
            &&& counter_within_limit(w, max)
        }),
{
    lemma_confirm_stays_within_limit(v, k, max);
}

/// Releasing, cancelling and collecting expired reservations all keep the
/// counter invariant.
pub proof fn lemma_release_cancel_gc_stay_within_limit(v: CounterView, k: Seq<char>, max: usize, now: u64)
    requires
        counter_within_limit(v, max),
    ensures
        counter_within_limit(release_spec(v, k), max),
        counter_within_limit(cancel_spec(v, k), max),
        counter_within_limit(gc_spec(v, now), max),
{
    let w = release_spec(v, k);
    assert forall|kk: Seq<char>| w.ghosts.contains_key(kk) && #[trigger] w.ghosts[kk] > 0 implies value_or_zero(w.counts, kk) == max by {
        assert(v.ghosts.contains_key(kk) && v.ghosts[kk] > 0);
    }
}

/// Releasing a sandbox undoes its confirmation: per key, the confirmed counts
/// and ghost credits are back to what they were.
pub proof fn lemma_release_undoes_confirm(v: CounterView, k: Seq<char>, max: usize, kk: Seq<char>)
    requires
        counter_within_limit(v, max),
        value_or_zero(v.ghosts, k) < usize::MAX,
    ensures
        value_or_zero(release_spec(confirm_spec(v, k, max), k).counts, kk) == value_or_zero(v.counts, kk),
        value_or_zero(release_spec(confirm_spec(v, k, max), k).ghosts, kk) == value_or_zero(v.ghosts, kk),
{
    if value_or_zero(v.counts, k) < max {
        if v.ghosts.contains_key(k) && v.ghosts[k] > 0 {
            assert(value_or_zero(v.counts, k) == max);
        }
    }
}

/// Cancelling a reservation undoes it: per key, the pending reservations are
/// back to what they were, and nothing else moved.
pub proof fn lemma_cancel_undoes_reserve(v: CounterView, k: Seq<char>, now: u64, kk: Seq<char>)
    ensures
        pending_for(cancel_spec(reserve_spec(v, k, now), k).pending, kk) == pending_for(v.pending, kk),
        cancel_spec(reserve_spec(v, k, now), k).counts == v.counts,
        cancel_spec(reserve_spec(v, k, now), k).ghosts == v.ghosts,
{
    let p = pending_for(v.pending, k);
    assert(p.push(now).drop_last() =~= p);
}

/// Expiry only ever keeps a subsequence of still-valid reservations.
pub proof fn lemma_keep_live_shrinks(s: Seq<u64>, now: u64)
    ensures
        keep_live(s, now).len() <= s.len(),
        forall|i: int| 0 <= i < keep_live(s, now).len() ==> reservation_is_live(#[trigger] keep_live(s, now)[i], now),
    decreases s.len(),
{
    if s.len() > 0 {
        lemma_keep_live_shrinks(s.drop_last(), now);
    }
}

/// Collecting expired reservations never raises a key's total, and every
/// reservation it keeps is still valid.
pub proof fn lemma_gc_only_drops_expired(v: CounterView, now: u64, k: Seq<char>)
    ensures
        total_for(gc_spec(v, now), k) <= total_for(v, k),
        forall|i: int| 0 <= i < pending_for(gc_spec(v, now).pending, k).len() ==>
            reservation_is_live(#[trigger] pending_for(gc_spec(v, now).pending, k)[i], now),
{
    if v.pending.contains_key(k) {
        lemma_keep_live_shrinks(v.pending[k], now);
    }
}

} // verus!
