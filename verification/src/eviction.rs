//! Which sandbox to free when a sandbox key is at its limit, and what the
//! owner of a backend marked for eviction does with it.

use vstd::prelude::*;
use crate::backend_registry::{evictable, eviction_safe, owner_stale, BackendRegistryEntry};
use crate::strmap::str_equal;

verus! {

/// How a chosen backend is freed.
#[derive(Debug, Clone, Copy, PartialEq, Eq, Structural)]
pub enum EvictionKind {
    /// This process owns it: checkpoint (if configured) and evict it.
    EvictOwn,
    /// Its owner is presumed dead: reclaim the slot directly.
    ReclaimOrphan,
    /// A live process owns it: mark it and signal the owner.
    AskOwner,
}

/// What freeing a slot for a sandbox key takes.
#[derive(Debug)]
pub enum EvictionPlan {
    /// The key is under its limit.
    NotNeeded,
    /// A backend of the key is already marked; wait for it.
    AlreadyMarked,
    /// The evictable backends (positions in the entries), earliest created
    /// first, each with how it is freed; none means nothing can be evicted.
    Candidates(Vec<(usize, EvictionKind)>),
}

/// Whether entry `i` comes before entry `j`: created earlier, or at the
/// same time and listed earlier.
pub open spec fn before(created: Seq<u64>, i: int, j: int) -> bool {
    created[i] < created[j] || (created[i] == created[j] && i < j)
}

pub open spec fn created_of(entries: Seq<BackendRegistryEntry>) -> Seq<u64> {
    entries.map_values(|e: BackendRegistryEntry| e.created_at_ms)
}

/// How an evictable backend is freed.
pub open spec fn kind_for(e: BackendRegistryEntry, own_process_id: Seq<char>, threshold_ms: u64, now: u64) -> EvictionKind {
    if e.owner_process_id@ == own_process_id {
        EvictionKind::EvictOwn
    } else if owner_stale(e.owner_heartbeat_ms, threshold_ms, now) {
        EvictionKind::ReclaimOrphan
    } else {
        EvictionKind::AskOwner
    }
}

pub open spec fn any_marked(entries: Seq<BackendRegistryEntry>) -> bool {
    exists|i: int| 0 <= i < entries.len() && (#[trigger] entries[i]).pending_eviction
}

/// Whether the owner of a backend marked for eviction is signalled: only a
/// known process (pid not 0) other than this one.
pub fn should_signal_owner(owner_pid: u32, own_pid: u32) -> (r: bool)
    ensures
        r == (owner_pid != 0 && owner_pid != own_pid),
{
    owner_pid != 0 && owner_pid != own_pid
}

/// The evictable entries of a key, earliest created first.
pub fn plan_eviction_at(entries: &Vec<BackendRegistryEntry>, own_process_id: &str, total_count: usize, max_per_key: usize,
    threshold_ms: u64, now: u64) -> (plan: EvictionPlan)
    requires
        forall|i: int| 0 <= i < entries@.len() ==> (#[trigger] entries@[i]).wf(),
    ensures
        total_count < max_per_key ==> plan is NotNeeded,
        total_count >= max_per_key && any_marked(entries@) ==> plan is AlreadyMarked,
        total_count >= max_per_key && !any_marked(entries@) ==> (plan matches EvictionPlan::Candidates(c) && {
            let created = created_of(entries@);
            &&& forall|k: int| 0 <= k < c@.len() ==> 0 <= (#[trigger] c@[k]).0 < entries@.len()
                && evictable(entries@[c@[k].0 as int]@, threshold_ms, now)
                && c@[k].1 == kind_for(entries@[c@[k].0 as int], own_process_id@, threshold_ms, now)
            &&& forall|i: int| 0 <= i < entries@.len() && evictable((#[trigger] entries@[i])@, threshold_ms, now)
                ==> exists|k: int| 0 <= k < c@.len() && (#[trigger] c@[k]).0 == i
            &&& forall|a: int, b: int| 0 <= a < b < c@.len() ==> before(created, (#[trigger] c@[a]).0 as int, (#[trigger] c@[b]).0 as int)
        }),
{
    if total_count < max_per_key {
        return EvictionPlan::NotNeeded;
    }
    let n = entries.len();
    let mut m: usize = 0;
    while m < n
        invariant
            n == entries@.len(),
            m <= n,
            total_count >= max_per_key,
            forall|j: int| 0 <= j < m ==> !(#[trigger] entries@[j]).pending_eviction,
        decreases n - m,
    {
        if entries[m].pending_eviction {
            return EvictionPlan::AlreadyMarked;
        }
        m = m + 1;
    }
    let ghost created = created_of(entries@);
    assert(!any_marked(entries@));
    let mut order: Vec<usize> = Vec::new();
    let mut i: usize = 0;
    while i < n
        invariant
            n == entries@.len(),
            i <= n,
            created == created_of(entries@),
            total_count >= max_per_key,
            !any_marked(entries@),
            forall|j: int| 0 <= j < entries@.len() ==> (#[trigger] entries@[j]).wf(),
            forall|k: int| 0 <= k < order@.len() ==> (#[trigger] order@[k]) < i
                && evictable(entries@[order@[k] as int]@, threshold_ms, now),
            forall|j: int| 0 <= j < i && evictable((#[trigger] entries@[j])@, threshold_ms, now)
                ==> exists|k: int| 0 <= k < order@.len() && (#[trigger] order@[k]) == j,
            forall|a: int, b: int| 0 <= a < b < order@.len() ==> before(created, (#[trigger] order@[a]) as int, (#[trigger] order@[b]) as int),
        decreases n - i,
    {
        if entries[i].is_evictable_at(threshold_ms, now) {
            let c = entries[i].created_at_ms;
            assert(created[i as int] == c);
            let mut p: usize = 0;
            while p < order.len() && entries[order[p]].created_at_ms <= c
                invariant
                    p <= order@.len(),
                    i < n,
                    c == created[i as int],
                    n == entries@.len(),
                    created == created_of(entries@),
                    forall|k: int| 0 <= k < order@.len() ==> (#[trigger] order@[k]) < i,
                    forall|q: int| 0 <= q < p ==> created[(#[trigger] order@[q]) as int] <= c,
                decreases order@.len() - p,
            {
                assert(created[order@[p as int] as int] == entries@[order@[p as int] as int].created_at_ms);
                p = p + 1;
            }
            proof {
                if p < order@.len() {
                    assert(created[order@[p as int] as int] == entries@[order@[p as int] as int].created_at_ms);
                    assert(created[order@[p as int] as int] > c);
                }
            }
            let ghost old_order = order@;
            order.insert(p, i);
            proof {
                assert(order@ == old_order.insert(p as int, i));
                assert forall|a: int, b: int| 0 <= a < b < order@.len() implies before(created, (#[trigger] order@[a]) as int, (#[trigger] order@[b]) as int) by {
                    if b < p {
                        assert(order@[a] == old_order[a] && order@[b] == old_order[b]);
                    } else if b == p {
                        assert(order@[a] == old_order[a]);
                        assert(created[old_order[a] as int] <= c);
                    } else if a == p {
                        assert(order@[b] == old_order[b - 1]);
                        // every later element was created strictly later, since the order is sorted
                        assert(before(created, old_order[p as int] as int, old_order[b - 1] as int) || b - 1 == p);
                        assert(created[old_order[p as int] as int] > c);
                    } else if a < p {
                        assert(order@[a] == old_order[a] && order@[b] == old_order[b - 1]);
                    } else {
                        assert(order@[a] == old_order[a - 1] && order@[b] == old_order[b - 1]);
                    }
                }
                assert forall|j: int| 0 <= j < i + 1 && evictable((#[trigger] entries@[j])@, threshold_ms, now)
                    implies exists|k: int| 0 <= k < order@.len() && (#[trigger] order@[k]) == j by {
                    if j == i {
                        assert(order@[p as int] == i);
                    } else {
                        let k0 = choose|k: int| 0 <= k < old_order.len() && (#[trigger] old_order[k]) == j;
                        if k0 < p {
                            assert(order@[k0] == j);
                        } else {
                            assert(order@[k0 + 1] == j);
                        }
                    }
                }
                assert forall|k: int| 0 <= k < order@.len() implies (#[trigger] order@[k]) < i + 1
                    && evictable(entries@[order@[k] as int]@, threshold_ms, now) by {
                    if k < p {
                        assert(order@[k] == old_order[k]);
                    } else if k > p {
                        assert(order@[k] == old_order[k - 1]);
                    }
                }
            }
        }
        i = i + 1;
    }
    let mut candidates: Vec<(usize, EvictionKind)> = Vec::new();
    let mut k: usize = 0;
    while k < order.len()
        invariant
            n == entries@.len(),
            created == created_of(entries@),
            forall|q: int| 0 <= q < order@.len() ==> evictable(entries@[(#[trigger] order@[q]) as int]@, threshold_ms, now),
            forall|j: int| 0 <= j < n && evictable((#[trigger] entries@[j])@, threshold_ms, now)
                ==> exists|q: int| 0 <= q < order@.len() && (#[trigger] order@[q]) == j,
            forall|a: int, b: int| 0 <= a < b < order@.len() ==> before(created, (#[trigger] order@[a]) as int, (#[trigger] order@[b]) as int),
            k <= order@.len(),
            candidates@.len() == k,
            forall|q: int| 0 <= q < order@.len() ==> (#[trigger] order@[q]) < n,
            forall|q: int| 0 <= q < k ==> (#[trigger] candidates@[q]).0 == order@[q]
                && candidates@[q].1 == kind_for(entries@[order@[q] as int], own_process_id@, threshold_ms, now),
        decreases order@.len() - k,
    {
        let idx = order[k];
        let e = &entries[idx];
        let kind = if str_equal(e.owner_process_id.as_str(), own_process_id) {
            EvictionKind::EvictOwn
        } else if e.is_owner_stale_at(threshold_ms, now) {
            EvictionKind::ReclaimOrphan
        } else {
            EvictionKind::AskOwner
        };
        candidates.push((idx, kind));
        k = k + 1;
    }
    proof {
        assert forall|i: int| 0 <= i < entries@.len() && evictable((#[trigger] entries@[i])@, threshold_ms, now)
            implies exists|k: int| 0 <= k < candidates@.len() && (#[trigger] candidates@[k]).0 == i by {
            let k0 = choose|k: int| 0 <= k < order@.len() && (#[trigger] order@[k]) == i;
            assert(candidates@[k0].0 == i);
        }
        assert forall|a: int, b: int| 0 <= a < b < candidates@.len() implies before(created, (#[trigger] candidates@[a]).0 as int, (#[trigger] candidates@[b]).0 as int) by {
            assert(candidates@[a].0 == order@[a] && candidates@[b].0 == order@[b]);
        }
        assert(!any_marked(entries@) ==> true);
    }
    EvictionPlan::Candidates(candidates)
}

/// What the owner does with one of its backends that another process
/// marked for eviction.
#[derive(Debug, Clone, Copy, PartialEq, Eq, Structural)]
pub enum MarkedBackendAction {
    /// Still safe to delete (idle, or owner presumed dead): evict it.
    Evict,
    /// Active again: clear the mark.
    ClearMark,
}

/// The actions for the marked entries among `entries`, in order, with their positions.
pub fn marked_backend_actions_at(entries: &Vec<BackendRegistryEntry>, threshold_ms: u64, now: u64) -> (actions: Vec<(usize, MarkedBackendAction)>)
    requires
        forall|i: int| 0 <= i < entries@.len() ==> (#[trigger] entries@[i]).wf(),
    ensures
        forall|k: int| 0 <= k < actions@.len() ==> 0 <= (#[trigger] actions@[k]).0 < entries@.len()
            && entries@[actions@[k].0 as int].pending_eviction
            && (actions@[k].1 == MarkedBackendAction::Evict <==> eviction_safe(entries@[actions@[k].0 as int]@, threshold_ms, now)),
        forall|i: int| 0 <= i < entries@.len() && (#[trigger] entries@[i]).pending_eviction
            ==> exists|k: int| 0 <= k < actions@.len() && (#[trigger] actions@[k]).0 == i,
        forall|a: int, b: int| 0 <= a < b < actions@.len() ==> (#[trigger] actions@[a]).0 < (#[trigger] actions@[b]).0,
{
    let n = entries.len();
    let mut actions: Vec<(usize, MarkedBackendAction)> = Vec::new();
    let mut i: usize = 0;
    while i < n
        invariant
            n == entries@.len(),
            i <= n,
            forall|j: int| 0 <= j < entries@.len() ==> (#[trigger] entries@[j]).wf(),
            forall|k: int| 0 <= k < actions@.len() ==> (#[trigger] actions@[k]).0 < i
                && entries@[actions@[k].0 as int].pending_eviction
                && (actions@[k].1 == MarkedBackendAction::Evict <==> eviction_safe(entries@[actions@[k].0 as int]@, threshold_ms, now)),
            forall|j: int| 0 <= j < i && (#[trigger] entries@[j]).pending_eviction
                ==> exists|k: int| 0 <= k < actions@.len() && (#[trigger] actions@[k]).0 == j,
            forall|a: int, b: int| 0 <= a < b < actions@.len() ==> (#[trigger] actions@[a]).0 < (#[trigger] actions@[b]).0,
        decreases n - i,
    {
        if entries[i].pending_eviction {
            let action = if entries[i].is_eviction_safe_at(threshold_ms, now) {
                MarkedBackendAction::Evict
            } else {
                MarkedBackendAction::ClearMark
            };
            let ghost before = actions@;
            actions.push((i, action));
            proof {
                assert forall|j: int| 0 <= j < i + 1 && (#[trigger] entries@[j]).pending_eviction
                    implies exists|k: int| 0 <= k < actions@.len() && (#[trigger] actions@[k]).0 == j by {
                    if j == i {
                        assert(actions@[before.len() as int].0 == i);
                    } else {
                        let k0 = choose|k: int| 0 <= k < before.len() && (#[trigger] before[k]).0 == j;
                        assert(actions@[k0] == before[k0]);
                    }
                }
            }
        }
        i = i + 1;
    }
    actions
}

} // verus!
