//! The backend manager's decisions around a provider's build: for a backend
//! created fresh or checked out from a checkpoint, and for a session's own
//! backend, whether a new backend
//! may be built at all, and what the table and the sandbox counter become
//! once the build is done. Every refusal leaves the table as it was and
//! gives back any reservation.

use vstd::prelude::*;
use crate::backend_base::{BackendBuildError, BackendError, BackendLineageInfo};
use crate::backend_table::{
    binding_failure, bound_text, children_of, exists_text, links_after_join, parent_of, sessions_of, BackendTable,
    SessionBinding,
};
use crate::sandbox_counter::{
    cancel_spec, confirm_spec, pending_for, reserve_spec, total_for, CounterView, SandboxCounterData,
    SandboxCounterKey,
};

verus! {

/// The counter file's key of `key`.
pub open spec fn counter_key(key: SandboxCounterKey) -> Seq<char> {
    key.sandbox_type@ + ":"@ + key.key_identifier@
}

/// Whether the table takes a new backend `child` bound to `session`.
pub open spec fn may_join<P>(table: BackendTable<P>, child: Seq<char>, session: Option<Seq<char>>) -> bool {
    !table.slots().contains_key(child) && !(session matches Some(s) && table.index().contains_key(s))
}

/// The conflict the table answers a refused newcomer with.
pub open spec fn join_conflict<P>(table: BackendTable<P>, child: Seq<char>, session: Option<Seq<char>>, e: BackendError) -> bool {
    &&& table.slots().contains_key(child) ==> (e matches BackendError::Conflict { message } && message@ == exists_text(child))
    &&& !table.slots().contains_key(child) ==> (session matches Some(s) ==> (e matches BackendError::Conflict { message }
        && message@ == bound_text(s, table.index()[s])))
}

pub open spec fn opt_text(o: Option<&str>) -> Option<Seq<char>> {
    match o {
        Some(s) => Some(s@),
        None => None,
    }
}

/// The first step of creating a backend (fresh, or checked out from a
/// checkpoint), before it is built: the new backend must be able to join the
/// table; then, where its kind is `counted`, its sandbox pool must have room,
/// in which case a slot is reserved at `now`. A full pool asks the caller to
/// evict. Any refusal leaves the counter as it was.
pub fn admit_new_backend<P>(
    table: &BackendTable<P>,
    counter: &mut SandboxCounterData,
    backend_id: &str,
    session_id: Option<&str>,
    counted: bool,
    key: &SandboxCounterKey,
    max_per_key: usize,
    now: u64,
) -> (r: Result<(), BackendError>)
    requires
        table.wf(),
        old(counter).wf(),
    ensures
        final(counter).wf(),
        !may_join(*table, backend_id@, opt_text(session_id)) ==> (r is Err
            && join_conflict(*table, backend_id@, opt_text(session_id), r->Err_0)),
        may_join(*table, backend_id@, opt_text(session_id)) && counted
            && total_for(old(counter)@, counter_key(*key)) >= max_per_key ==> r matches Err(BackendError::NeedsEviction),
        may_join(*table, backend_id@, opt_text(session_id))
            && (!counted || total_for(old(counter)@, counter_key(*key)) < max_per_key) ==> r is Ok,
        r is Ok ==> final(counter)@ == (if counted { reserve_spec(old(counter)@, counter_key(*key), now) }
            else { old(counter)@ }),
        r is Err ==> final(counter)@ == old(counter)@,
{
    match table.check_new(backend_id, session_id) {
        Err(e) => return Err(e),
        Ok(()) => {},
    }
    if !counted {
        return Ok(());
    }
    match counter.check_and_reserve(key, max_per_key, now) {
        Ok(()) => Ok(()),
        Err(_) => Err(BackendError::NeedsEviction),
    }
}

/// A backend the provider built, and where it joins.
pub struct NewBackend<P> {
    pub backend_id: String,
    pub session_id: Option<String>,
    pub parent_backend_id: Option<String>,
    pub instance: P,
    pub workspace_root: String,
    pub config_hash: u64,
    pub expires_at_ms: Option<u64>,
}

/// The last step of creating a backend, once the provider answered the
/// build: a failed build gives back the slot reserved for a `counted` kind;
/// a built backend joins the table and its slot is confirmed, unless another
/// backend took its id or session meanwhile, in which case the slot is given
/// back and the backend is handed back to be deleted. On every refusal the
/// table is left as it was.
pub fn commit_new_backend<P>(
    table: &mut BackendTable<P>,
    counter: &mut SandboxCounterData,
    built: Result<NewBackend<P>, BackendError>,
    counted: bool,
    key: &SandboxCounterKey,
    max_per_key: usize,
) -> (r: Result<(), (BackendError, Option<P>)>)
    requires
        old(table).wf(),
        old(counter).wf(),
    ensures
        final(table).wf(),
        final(counter).wf(),
        r is Err ==> final(table).slots() == old(table).slots() && final(table).index() == old(table).index()
            && final(counter)@ == after_give_back(old(counter)@, counted, counter_key(*key)),
        built matches Err(e) ==> r == Err::<(), (BackendError, Option<P>)>((e, None)),
        built matches Ok(c) ==> ({
            let joins = may_join(*old(table), c.backend_id@, match c.session_id { Some(s) => Some(s@), None => None });
            &&& (r is Ok <==> joins)
            &&& (!joins ==> (r matches Err((e, Some(p))) && p == c.instance
                && join_conflict(*old(table), c.backend_id@, match c.session_id { Some(s) => Some(s@), None => None }, e)))
            &&& (joins ==> ({
                let parent = match c.parent_backend_id { Some(p) => if old(table).slots().contains_key(p@) { Some(p@) } else { None },
                    None => None };
                let slot = final(table).slots()[c.backend_id@];
                &&& final(table).slots().dom() == old(table).slots().dom().insert(c.backend_id@)
                &&& links_after_join(old(table).slots(), final(table).slots(), c.backend_id@, parent)
                &&& slot.instance == c.instance
                &&& sessions_of(slot) == (match c.session_id { Some(s) => set![s@], None => Set::<Seq<char>>::empty() })
                &&& parent_of(slot) == (match c.parent_backend_id { Some(p) => Some(p@), None => None })
                &&& children_of(slot) == Set::<Seq<char>>::empty()
                &&& slot.workspace_root == c.workspace_root && slot.config_hash == c.config_hash
                &&& slot.expires_at_ms == c.expires_at_ms
                &&& final(table).index() == (match c.session_id { Some(s) => old(table).index().insert(s@, c.backend_id@),
                    None => old(table).index() })
                &&& final(counter)@ == (if counted { confirm_spec(old(counter)@, counter_key(*key), max_per_key) }
                    else { old(counter)@ })
            }))
        }),
{
    match built {
        Err(e) => {
            if counted {
                let _ = counter.cancel_reservation(key);
            }
            Err((e, None))
        },
        Ok(c) => {
            let NewBackend { backend_id, session_id, parent_backend_id, instance, workspace_root, config_hash, expires_at_ms } = c;
            match table.insert_backend(backend_id, session_id, parent_backend_id, instance, workspace_root, config_hash, expires_at_ms) {
                Ok(()) => {
                    if counted {
                        counter.confirm_creation(key, max_per_key);
                    }
                    Ok(())
                },
                Err((e, p)) => {
                    if counted {
                        let _ = counter.cancel_reservation(key);
                    }
                    Err((e, Some(p)))
                },
            }
        },
    }
}

/// What a session's request for its backend does once a slot is held.
#[derive(Debug)]
pub enum EnsureStep {
    /// The session is bound to this live backend, on the same workspace and
    /// configuration: it is used again.
    Reuse(String),
    /// The session's binding cannot serve the request.
    Fail(BackendBuildError),
    /// The session is unbound: a backend is built for it.
    Build,
}

/// The reservation made for a counted backend, given back where the
/// request does not build.
pub open spec fn after_give_back(v: CounterView, counted: bool, k: Seq<char>) -> CounterView {
    if counted { cancel_spec(v, k) } else { v }
}

/// The look at the session's binding once a slot is held (`counted`: a slot
/// of `key` was reserved for it): a binding on the same workspace and
/// configuration is used again; a binding elsewhere or to a backend that is
/// not live fails; either way the slot is given back. An unbound session
/// goes on to build, keeping the slot.
pub fn ensure_recheck<P>(
    table: &BackendTable<P>,
    counter: &mut SandboxCounterData,
    session_id: &str,
    workspace_root: &str,
    config_hash: u64,
    counted: bool,
    key: &SandboxCounterKey,
) -> (r: EnsureStep)
    requires
        table.wf(),
        old(counter).wf(),
    ensures
        final(counter).wf(),
        !table.index().contains_key(session_id@) <==> r is Build,
        r is Build ==> final(counter)@ == old(counter)@,
        !(r is Build) ==> final(counter)@ == after_give_back(old(counter)@, counted, counter_key(*key)),
        table.index().contains_key(session_id@) ==> ({
            let b = table.index()[session_id@];
            let slot = table.slots()[b];
            &&& (slot.workspace_root@ == workspace_root@ && slot.config_hash == config_hash)
                ==> (r matches EnsureStep::Reuse(id) && id@ == b)
            &&& !(slot.workspace_root@ == workspace_root@ && slot.config_hash == config_hash)
                ==> (r matches EnsureStep::Fail(BackendBuildError::BuildFailed { message })
                    && message@ == "session "@ + session_id@ + " is already bound to backend "@ + b
                        + " with different workspace or config"@)
        }),
{
    let binding = table.session_binding(session_id, workspace_root, config_hash);
    let step = match binding_failure(session_id, &binding) {
        Some(e) => EnsureStep::Fail(e),
        None => match binding {
            SessionBinding::Reusable(b) => EnsureStep::Reuse(b),
            _ => EnsureStep::Build,
        },
    };
    match step {
        EnsureStep::Build => {},
        _ => {
            if counted {
                let _ = counter.cancel_reservation(key);
            }
        },
    }
    step
}

/// The last step of a session's request, once the provider answered the
/// build of backend `backend_id`: a failed build gives back the slot; a built
/// backend joins the table bound to the session, and its slot is confirmed.
/// Where the table no longer takes it, the backend is handed back and the
/// slot given back. Uncounted backends leave the counter alone.
pub fn ensure_commit<P>(
    table: &mut BackendTable<P>,
    counter: &mut SandboxCounterData,
    backend_id: String,
    session_id: String,
    built: Result<P, BackendBuildError>,
    workspace_root: String,
    config_hash: u64,
    counted: bool,
    key: &SandboxCounterKey,
    max_per_key: usize,
) -> (r: Result<(), (BackendBuildError, Option<P>)>)
    requires
        old(table).wf(),
        old(counter).wf(),
    ensures
        final(table).wf(),
        final(counter).wf(),
        r is Err ==> final(table).slots() == old(table).slots() && final(table).index() == old(table).index()
            && final(counter)@ == after_give_back(old(counter)@, counted, counter_key(*key)),
        built matches Err(e) ==> r == Err::<(), (BackendBuildError, Option<P>)>((e, None)),
        built matches Ok(instance) ==> ({
            let joins = may_join(*old(table), backend_id@, Some(session_id@));
            &&& (r is Ok <==> joins)
            &&& (!joins ==> (r matches Err((BackendBuildError::BuildFailed { message }, Some(p))) && p == instance))
            &&& (joins ==> ({
                let slot = final(table).slots()[backend_id@];
                &&& final(table).slots().dom() == old(table).slots().dom().insert(backend_id@)
                &&& links_after_join(old(table).slots(), final(table).slots(), backend_id@, None)
                &&& slot.instance == instance
                &&& sessions_of(slot) == set![session_id@]
                &&& parent_of(slot) == None::<Seq<char>>
                &&& children_of(slot) == Set::<Seq<char>>::empty()
                &&& slot.workspace_root == workspace_root && slot.config_hash == config_hash
                &&& slot.expires_at_ms == None::<u64>
                &&& final(table).index() == old(table).index().insert(session_id@, backend_id@)
                &&& final(counter)@ == (if counted { confirm_spec(old(counter)@, counter_key(*key), max_per_key) }
                    else { old(counter)@ })
            }))
        }),
{
    match built {
        Err(e) => {
            if counted {
                let _ = counter.cancel_reservation(key);
            }
            Err((e, None))
        },
        Ok(instance) => {
            match table.insert_backend(backend_id, Some(session_id), None, instance, workspace_root, config_hash, None) {
                Ok(()) => {
                    if counted {
                        counter.confirm_creation(key, max_per_key);
                    }
                    Ok(())
                },
                Err((e, p)) => {
                    if counted {
                        let _ = counter.cancel_reservation(key);
                    }
                    let message = e.message();
                    Err((BackendBuildError::BuildFailed { message }, Some(p)))
                },
            }
        },
    }
}

/// The lineage of a backend checked out at `now` from snapshot
/// `snapshot_id` (carrying `snapshot_names`) of a checkpoint taken from
/// `source_backend_id`: that backend as its parent, no children yet.
pub fn checkout_lineage(source_backend_id: Option<String>, snapshot_id: String, snapshot_names: Vec<String>, now: u64)
    -> (l: BackendLineageInfo)
    ensures
        l.parent_backend_id == source_backend_id,
        l.children_backend_ids@.len() == 0,
        l.forked_from_snapshot_id == Some(snapshot_id),
        l.forked_snapshot_names == snapshot_names,
        l.forked_at_ms == Some(now),
{
    BackendLineageInfo {
        parent_backend_id: source_backend_id,
        children_backend_ids: Vec::new(),
        forked_from_snapshot_id: Some(snapshot_id),
        forked_snapshot_names: snapshot_names,
        forked_at_ms: Some(now),
    }
}

/// A reservation given back leaves every key's confirmed count, ghost
/// credits and pending reservations as they were before it was made: a
/// creation refused (by `commit_new_backend` or `ensure_commit`) after its
/// slot was reserved leaves the counter as it found it.
pub proof fn law_cancel_undoes_reserve(v: CounterView, k: Seq<char>, now: u64)
    ensures
        cancel_spec(reserve_spec(v, k, now), k).counts == v.counts,
        cancel_spec(reserve_spec(v, k, now), k).ghosts == v.ghosts,
        forall|k2: Seq<char>| #[trigger] pending_for(cancel_spec(reserve_spec(v, k, now), k).pending, k2) == pending_for(v.pending, k2),
{
    let after = cancel_spec(reserve_spec(v, k, now), k);
    assert forall|k2: Seq<char>| #[trigger] pending_for(after.pending, k2) == pending_for(v.pending, k2) by {
        if k2 == k {
            assert(pending_for(v.pending, k).push(now).drop_last() =~= pending_for(v.pending, k));
        }
    }
}

} // verus!
