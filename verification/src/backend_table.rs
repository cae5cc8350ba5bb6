//! The backend manager's table of live backends: each backend's sessions,
//! its place in the fork lineage, and the index from session to backend.
//! The instance that each entry carries (`P`) is opaque here.

use vstd::prelude::*;
use crate::backend_base::BackendError;
use crate::strmap::{str_equal, StrMap};
use crate::text::push_str;

verus! {

/// A live backend: its instance, the sessions bound to it, and its lineage.
pub struct BackendSlot<P> {
    pub instance: P,
    pub session_ids: StrMap<()>,
    pub parent_backend_id: Option<String>,
    pub children_backend_ids: StrMap<()>,
    pub workspace_root: String,
    pub config_hash: u64,
    pub expires_at_ms: Option<u64>,
}

pub open spec fn sessions_of<P>(slot: BackendSlot<P>) -> Set<Seq<char>> {
    slot.session_ids@.dom()
}

pub open spec fn children_of<P>(slot: BackendSlot<P>) -> Set<Seq<char>> {
    slot.children_backend_ids@.dom()
}

pub open spec fn parent_of<P>(slot: BackendSlot<P>) -> Option<Seq<char>> {
    match slot.parent_backend_id {
        Some(p) => Some(p@),
        None => None,
    }
}

pub open spec fn slot_wf<P>(slot: BackendSlot<P>) -> bool {
    slot.session_ids.wf() && slot.children_backend_ids.wf()
}

/// The live backends by id, and which backend each session is bound to.
pub struct BackendTable<P> {
    backends: StrMap<BackendSlot<P>>,
    session_index: StrMap<String>,
}

impl<P> BackendTable<P> {
    /// The live backends by id.
    pub closed spec fn slots(&self) -> Map<Seq<char>, BackendSlot<P>> {
        self.backends@
    }

    /// The backend id each bound session resolves to.
    pub closed spec fn index(&self) -> Map<Seq<char>, Seq<char>> {
        self.session_index@.map_values(|b: String| b@)
    }

    /// Well-formedness: a session resolves to a live backend that lists it,
    /// every session a backend lists resolves to it, and every child a live
    /// backend lists is live and names it as parent.
    pub closed spec fn wf(&self) -> bool {
        &&& self.backends.wf()
        &&& self.session_index.wf()
        &&& forall|b: Seq<char>| #[trigger] self.backends@.contains_key(b) ==> slot_wf(self.backends@[b])
        &&& forall|s: Seq<char>| #[trigger] self.session_index@.contains_key(s) ==> {
            let b = self.session_index@[s]@;
            self.backends@.contains_key(b) && sessions_of(self.backends@[b]).contains(s)
        }
        &&& forall|b: Seq<char>, s: Seq<char>| self.backends@.contains_key(b)
            && #[trigger] sessions_of(self.backends@[b]).contains(s) ==> self.session_index@.contains_key(s)
                && self.session_index@[s]@ == b
        &&& forall|p: Seq<char>, c: Seq<char>| self.backends@.contains_key(p)
            && #[trigger] children_of(self.backends@[p]).contains(c) ==> self.backends@.contains_key(c)
                && parent_of(self.backends@[c]) == Some(p)
    }

    /// Bindings stay consistent in every table that the operations build:
    /// a bound session resolves to a live backend that lists it, every
    /// session a backend lists resolves to that backend, and every child a
    /// live backend lists is live and names it as its parent.
    pub proof fn law_bindings_stay_consistent(&self)
        requires
            self.wf(),
        ensures
            forall|s: Seq<char>| #[trigger] self.index().contains_key(s) ==> self.slots().contains_key(self.index()[s])
                && sessions_of(self.slots()[self.index()[s]]).contains(s),
            forall|b: Seq<char>, s: Seq<char>| self.slots().contains_key(b)
                && #[trigger] sessions_of(self.slots()[b]).contains(s) ==> self.index().contains_key(s)
                    && self.index()[s] == b,
            forall|p: Seq<char>, c: Seq<char>| self.slots().contains_key(p)
                && #[trigger] children_of(self.slots()[p]).contains(c) ==> self.slots().contains_key(c)
                    && parent_of(self.slots()[c]) == Some(p),
    {
    }

    pub fn new() -> (t: Self)
        ensures
            t.wf(),
            t.slots() == Map::<Seq<char>, BackendSlot<P>>::empty(),
            t.index() == Map::<Seq<char>, Seq<char>>::empty(),
    {
        let t = BackendTable { backends: StrMap::new(), session_index: StrMap::new() };
        assert(t.index() =~= Map::<Seq<char>, Seq<char>>::empty());
        t
    }

    /// Whether `backend_id` is live.
    pub fn contains_backend(&self, backend_id: &str) -> (r: bool)
        requires
            self.wf(),
        ensures
            r == self.slots().contains_key(backend_id@),
    {
        self.backends.contains_key(backend_id)
    }

    /// The live backend `backend_id`.
    pub fn get(&self, backend_id: &str) -> (r: Option<&BackendSlot<P>>)
        requires
            self.wf(),
        ensures
            match r {
                Some(s) => self.slots().contains_key(backend_id@) && *s == self.slots()[backend_id@],
                None => !self.slots().contains_key(backend_id@),
            },
    {
        self.backends.get(backend_id)
    }

    /// The backend `session_id` is bound to.
    pub fn bound_backend_id(&self, session_id: &str) -> (r: Option<String>)
        requires
            self.wf(),
        ensures
            match r {
                Some(b) => self.index().contains_key(session_id@) && b@ == self.index()[session_id@],
                None => !self.index().contains_key(session_id@),
            },
    {
        match self.session_index.get(session_id) {
            Some(b) => Some(b.clone()),
            None => None,
        }
    }
}

/// `backend_id <id> already exists`
pub open spec fn exists_text(backend_id: Seq<char>) -> Seq<char> {
    "backend_id "@ + backend_id + " already exists"@
}

/// `session_id <s> is already bound to backend_id <b>`
pub open spec fn bound_text(session_id: Seq<char>, backend_id: Seq<char>) -> Seq<char> {
    "session_id "@ + session_id + " is already bound to backend_id "@ + backend_id
}

fn exists_conflict(backend_id: &str) -> (e: BackendError)
    ensures
        e matches BackendError::Conflict { message } && message@ == exists_text(backend_id@),
{
    let mut message = String::from_str("backend_id ");
    push_str(&mut message, backend_id);
    push_str(&mut message, " already exists");
    BackendError::Conflict { message }
}

fn bound_conflict(session_id: &str, backend_id: &str) -> (e: BackendError)
    ensures
        e matches BackendError::Conflict { message } && message@ == bound_text(session_id@, backend_id@),
{
    let mut message = String::from_str("session_id ");
    push_str(&mut message, session_id);
    push_str(&mut message, " is already bound to backend_id ");
    push_str(&mut message, backend_id);
    BackendError::Conflict { message }
}

impl<P> BackendTable<P> {
    /// Whether a new backend `backend_id`, bound to `session_id` if given,
    /// may join: its id must be free and its session unbound.
    pub fn check_new(&self, backend_id: &str, session_id: Option<&str>) -> (r: Result<(), BackendError>)
        requires
            self.wf(),
        ensures
            self.slots().contains_key(backend_id@) ==> (r matches Err(BackendError::Conflict { message })
                && message@ == exists_text(backend_id@)),
            !self.slots().contains_key(backend_id@) ==> (session_id matches Some(s) ==> (self.index().contains_key(s@)
                ==> (r matches Err(BackendError::Conflict { message })
                    && message@ == bound_text(s@, self.index()[s@])))),
            r is Ok <==> !self.slots().contains_key(backend_id@)
                && !(session_id matches Some(s) && self.index().contains_key(s@)),
    {
        if self.backends.contains_key(backend_id) {
            return Err(exists_conflict(backend_id));
        }
        if let Some(s) = session_id {
            if let Some(b) = self.session_index.get(s) {
                return Err(bound_conflict(s, b.as_str()));
            }
        }
        Ok(())
    }
}

/// A slot equal to `b` in all but its children.
pub open spec fn same_but_children<P>(a: BackendSlot<P>, b: BackendSlot<P>) -> bool {
    &&& a.instance == b.instance
    &&& a.session_ids == b.session_ids
    &&& a.parent_backend_id == b.parent_backend_id
    &&& a.workspace_root == b.workspace_root
    &&& a.config_hash == b.config_hash
    &&& a.expires_at_ms == b.expires_at_ms
}

/// The backends after `child` joins under `parent`: a live parent lists it.
pub open spec fn links_after_join<P>(before: Map<Seq<char>, BackendSlot<P>>, after: Map<Seq<char>, BackendSlot<P>>,
    child: Seq<char>, parent: Option<Seq<char>>) -> bool {
    forall|b: Seq<char>| #[trigger] before.contains_key(b) ==> after.contains_key(b) && same_but_children(after[b], before[b])
        && children_of(after[b]) == (if parent == Some(b) { children_of(before[b]).insert(child) } else {
            children_of(before[b]) })
}

impl<P> BackendTable<P> {
    /// Adds a child id to the children of live backend `parent`.
    fn link_child(&mut self, parent: &str, child: &str)
        requires
            old(self).backends.wf(),
            forall|b: Seq<char>| #[trigger] old(self).backends@.contains_key(b) ==> slot_wf(old(self).backends@[b]),
        ensures
            final(self).backends.wf(),
            final(self).session_index == old(self).session_index,
            final(self).backends@.dom() == old(self).backends@.dom(),
            forall|b: Seq<char>| #[trigger] final(self).backends@.contains_key(b) ==> slot_wf(final(self).backends@[b]),
            links_after_join(old(self).backends@, final(self).backends@, child@,
                if old(self).backends@.contains_key(parent@) { Some(parent@) } else { None }),
    {
        match self.backends.remove(parent) {
            Some(mut slot) => {
                slot.children_backend_ids.insert(String::from_str(child), ());
                self.backends.insert(String::from_str(parent), slot);
                assert(self.backends@.dom() =~= old(self).backends@.dom());
            },
            None => {
                assert(self.backends@ =~= old(self).backends@);
            },
        }
    }

    /// Adds the backend `backend_id` with its instance, bound to `session_id`
    /// if given and listed as a child of `parent_backend_id` if that backend
    /// is live. Refused, with the instance handed back, where `check_new`
    /// refuses it.
    pub fn insert_backend(&mut self, backend_id: String, session_id: Option<String>, parent_backend_id: Option<String>,
        instance: P, workspace_root: String, config_hash: u64, expires_at_ms: Option<u64>) -> (r: Result<(), (BackendError, P)>)
        requires
            old(self).wf(),
        ensures
            final(self).wf(),
            (r is Ok) <==> !old(self).slots().contains_key(backend_id@)
                && !(session_id matches Some(s) && old(self).index().contains_key(s@)),
            r matches Err((e, p)) ==> p == instance && final(self).slots() == old(self).slots()
                && final(self).index() == old(self).index()
                && (old(self).slots().contains_key(backend_id@) ==> (e matches BackendError::Conflict { message }
                    && message@ == exists_text(backend_id@)))
                && (!old(self).slots().contains_key(backend_id@) ==> (session_id matches Some(s) ==> (e matches BackendError::Conflict { message }
                    && message@ == bound_text(s@, old(self).index()[s@])))),
            r is Ok ==> ({
                let parent = match parent_backend_id { Some(p) => if old(self).slots().contains_key(p@) { Some(p@) } else { None },
                    None => None };
                let slot = final(self).slots()[backend_id@];
                &&& final(self).slots().dom() == old(self).slots().dom().insert(backend_id@)
                &&& links_after_join(old(self).slots(), final(self).slots(), backend_id@, parent)
                &&& slot.instance == instance
                &&& sessions_of(slot) == (match session_id { Some(s) => set![s@], None => Set::<Seq<char>>::empty() })
                &&& parent_of(slot) == (match parent_backend_id { Some(p) => Some(p@), None => None })
                &&& children_of(slot) == Set::<Seq<char>>::empty()
                &&& slot.workspace_root == workspace_root && slot.config_hash == config_hash
                &&& slot.expires_at_ms == expires_at_ms
                &&& final(self).index() == (match session_id { Some(s) => old(self).index().insert(s@, backend_id@),
                    None => old(self).index() })
            }),
    {
        let sid = match &session_id { Some(s) => Some(s.as_str()), None => None };
        match self.check_new(backend_id.as_str(), sid) {
            Err(e) => return Err((e, instance)),
            Ok(()) => {},
        }
        let ghost before = *self;
        let ghost pb = parent_backend_id;
        if let Some(p) = &parent_backend_id {
            self.link_child(p.as_str(), backend_id.as_str());
        } else {
            assert(links_after_join(before.backends@, self.backends@, backend_id@, None));
        }
        let ghost linked = *self;
        let mut sessions: StrMap<()> = StrMap::new();
        if let Some(s) = &session_id {
            sessions.insert(String::from_str(s.as_str()), ());
            self.session_index.insert(String::from_str(s.as_str()), String::from_str(backend_id.as_str()));
        }
        let slot = BackendSlot {
            instance,
            session_ids: sessions,
            parent_backend_id,
            children_backend_ids: StrMap::new(),
            workspace_root,
            config_hash,
            expires_at_ms,
        };
        let ghost new_slot = slot;
        let ghost key = backend_id@;
        self.backends.insert(backend_id, slot);
        proof {
            let parent = match pb { Some(p) => if before.backends@.contains_key(p@) { Some(p@) } else { None },
                None => None };
            assert(links_after_join(before.backends@, linked.backends@, key, parent));
            assert(sessions_of(new_slot) =~= (match session_id { Some(s) => set![s@], None => Set::<Seq<char>>::empty() }));
            assert(children_of(new_slot) =~= Set::<Seq<char>>::empty());
            assert(self.backends@.dom() =~= before.backends@.dom().insert(key));
            assert forall|b: Seq<char>| #[trigger] before.backends@.contains_key(b) implies self.backends@.contains_key(b)
                && same_but_children(self.backends@[b], before.backends@[b])
                && children_of(self.backends@[b]) == (if parent == Some(b) { children_of(before.backends@[b]).insert(key) }
                    else { children_of(before.backends@[b]) }) by {
                assert(b != key);
                assert(linked.backends@.contains_key(b));
            }
            let idx = match session_id { Some(s) => before.index().insert(s@, key), None => before.index() };
            assert(self.index() =~= idx);
            // well-formedness
            assert forall|b: Seq<char>| #[trigger] self.backends@.contains_key(b) implies slot_wf(self.backends@[b]) by {
                if b != key {
                    assert(linked.backends@.contains_key(b));
                }
            }
            assert forall|s: Seq<char>| #[trigger] self.session_index@.contains_key(s) implies ({
                let b = self.session_index@[s]@;
                self.backends@.contains_key(b) && sessions_of(self.backends@[b]).contains(s)
            }) by {
                if session_id matches Some(s0) && s == s0@ {
                    assert(self.index()[s] == key);
                } else {
                    assert(before.session_index@.contains_key(s));
                    assert(self.session_index@[s] == before.session_index@[s]);
                    let b = before.session_index@[s]@;
                    assert(before.backends@.contains_key(b));
                    assert(b != key);
                }
            }
            assert forall|b: Seq<char>, s: Seq<char>| self.backends@.contains_key(b)
                && #[trigger] sessions_of(self.backends@[b]).contains(s) implies self.session_index@.contains_key(s)
                    && self.session_index@[s]@ == b by {
                if b == key {
                    assert(session_id matches Some(s0) && s == s0@);
                } else {
                    assert(before.backends@.contains_key(b));
                    assert(sessions_of(before.backends@[b]).contains(s));
                    assert(before.session_index@.contains_key(s) && before.session_index@[s]@ == b);
                    if let Some(s0) = session_id {
                        assert(s != s0@);
                    }
                }
            }
            assert forall|p: Seq<char>, c: Seq<char>| self.backends@.contains_key(p)
                && #[trigger] children_of(self.backends@[p]).contains(c) implies self.backends@.contains_key(c)
                    && parent_of(self.backends@[c]) == Some(p) by {
                if p == key {
                    assert(false);
                } else {
                    assert(before.backends@.contains_key(p));
                    if parent == Some(p) && c == key {
                        assert(parent_of(self.backends@[c]) == Some(p));
                    } else {
                        assert(children_of(before.backends@[p]).contains(c));
                        assert(before.backends@.contains_key(c));
                        assert(c != key);
                        assert(same_but_children(self.backends@[c], before.backends@[c]));
                    }
                }
            }
        }
        Ok(())
    }
}

/// The backends after `child` leaves `parent`: a live parent no longer lists it.
pub open spec fn links_after_leave<P>(before: Map<Seq<char>, BackendSlot<P>>, after: Map<Seq<char>, BackendSlot<P>>,
    child: Seq<char>, parent: Option<Seq<char>>) -> bool {
    forall|b: Seq<char>| #[trigger] before.contains_key(b) ==> after.contains_key(b) && same_but_children(after[b], before[b])
        && children_of(after[b]) == (if parent == Some(b) { children_of(before[b]).remove(child) } else {
            children_of(before[b]) })
}

/// `backend_id`'s text as a not-found error.
fn not_found(backend_id: &str) -> (e: BackendError)
    ensures
        e matches BackendError::NotFound { backend_id: b } && b@ == backend_id@,
{
    BackendError::NotFound { backend_id: String::from_str(backend_id) }
}

/// Removes every key of `keys` from `index`.
fn unbind_all(index: &mut StrMap<String>, keys: &StrMap<()>)
    requires
        old(index).wf(),
        keys.wf(),
    ensures
        final(index).wf(),
        final(index)@ == old(index)@.remove_keys(keys@.dom()),
{
    let entries = keys.entries();
    let n = entries.len();
    let mut i: usize = 0;
    while i < n
        invariant
            n == entries@.len(),
            entries@ == keys.spec_entries(),
            keys.wf(),
            i <= n,
            index.wf(),
            index@ == old(index)@.remove_keys(Set::new(|k: Seq<char>| crate::strmap::has_key(entries@.take(i as int), k))),
        decreases n - i,
    {
        let ghost before = index@;
        index.remove(entries[i].0.as_str());
        proof {
            let t0 = entries@.take(i as int);
            let t1 = entries@.take(i + 1);
            assert forall|k: Seq<char>| crate::strmap::has_key(t1, k) == (crate::strmap::has_key(t0, k) || k == entries@[i as int].0@) by {
                if crate::strmap::has_key(t1, k) {
                    let j = choose|j: int| 0 <= j < t1.len() && #[trigger] t1[j].0@ == k;
                    if j < i {
                        assert(t0[j].0@ == k);
                    }
                }
                if crate::strmap::has_key(t0, k) {
                    let j = choose|j: int| 0 <= j < t0.len() && #[trigger] t0[j].0@ == k;
                    assert(t1[j].0@ == k);
                }
                if k == entries@[i as int].0@ {
                    assert(t1[i as int].0@ == k);
                }
            }
            assert(index@ =~= old(index)@.remove_keys(Set::new(|k: Seq<char>| crate::strmap::has_key(t1, k))));
        }
        i = i + 1;
    }
    assert(entries@.take(n as int) =~= entries@);
    assert(Set::new(|k: Seq<char>| crate::strmap::has_key(entries@, k)) =~= keys@.dom());
}

impl<P> BackendTable<P> {
    /// Removes a child id from the children of live backend `parent`.
    fn unlink_child(&mut self, parent: &str, child: &str)
        requires
            old(self).backends.wf(),
            forall|b: Seq<char>| #[trigger] old(self).backends@.contains_key(b) ==> slot_wf(old(self).backends@[b]),
        ensures
            final(self).backends.wf(),
            final(self).session_index == old(self).session_index,
            final(self).backends@.dom() == old(self).backends@.dom(),
            forall|b: Seq<char>| #[trigger] final(self).backends@.contains_key(b) ==> slot_wf(final(self).backends@[b]),
            links_after_leave(old(self).backends@, final(self).backends@, child@,
                if old(self).backends@.contains_key(parent@) { Some(parent@) } else { None }),
    {
        match self.backends.remove(parent) {
            Some(mut slot) => {
                slot.children_backend_ids.remove(child);
                self.backends.insert(String::from_str(parent), slot);
                assert(self.backends@.dom() =~= old(self).backends@.dom());
            },
            None => {
                assert(self.backends@ =~= old(self).backends@);
            },
        }
    }

    /// Takes the live backend `backend_id` out of the table: its sessions are
    /// unbound and its live parent no longer lists it. A backend that is not
    /// live is not found.
    pub fn remove_backend(&mut self, backend_id: &str) -> (r: Result<BackendSlot<P>, BackendError>)
        requires
            old(self).wf(),
        ensures
            final(self).wf(),
            !old(self).slots().contains_key(backend_id@) ==> (r matches Err(BackendError::NotFound { backend_id: b })
                && b@ == backend_id@ && final(self).slots() == old(self).slots() && final(self).index() == old(self).index()),
            old(self).slots().contains_key(backend_id@) ==> (r matches Ok(slot) && slot == old(self).slots()[backend_id@]
                && final(self).slots().dom() == old(self).slots().dom().remove(backend_id@)
                && links_after_leave(old(self).slots().remove(backend_id@), final(self).slots(), backend_id@,
                    match parent_of(slot) { Some(p) => if old(self).slots().contains_key(p) { Some(p) } else { None }, None => None })
                && final(self).index() == old(self).index().remove_keys(sessions_of(slot))),
    {
        let ghost before = *self;
        let slot = match self.backends.remove(backend_id) {
            Some(slot) => slot,
            None => return Err(not_found(backend_id)),
        };
        let ghost removed = *self;
        let ghost gs = slot;
        unbind_all(&mut self.session_index, &slot.session_ids);
        let ghost unbound = *self;
        if let Some(p) = &slot.parent_backend_id {
            self.unlink_child(p.as_str(), backend_id);
        }
        proof {
            let key = backend_id@;
            let parent = match parent_of(gs) { Some(p) => if before.backends@.contains_key(p) { Some(p) } else { None },
                None => None };
            assert(self.backends@.dom() =~= before.backends@.dom().remove(key));
            if let Some(p) = gs.parent_backend_id {
                if p@ == key {
                    assert(!removed.backends@.contains_key(p@));
                }
            }
            assert(links_after_leave(before.backends@.remove(key), self.backends@, key, parent)) by {
                if gs.parent_backend_id is None {
                    assert(self.backends@ == removed.backends@);
                }
            }
            assert(self.index() =~= before.index().remove_keys(sessions_of(gs)));
            // well-formedness
            assert forall|s: Seq<char>| #[trigger] self.session_index@.contains_key(s) implies ({
                let b = self.session_index@[s]@;
                self.backends@.contains_key(b) && sessions_of(self.backends@[b]).contains(s)
            }) by {
                assert(before.session_index@.contains_key(s) && !sessions_of(gs).contains(s));
                let b = before.session_index@[s]@;
                assert(before.backends@.contains_key(b) && sessions_of(before.backends@[b]).contains(s));
                assert(b != key);
                assert(same_but_children(self.backends@[b], before.backends@[b]));
            }
            assert forall|b: Seq<char>, s: Seq<char>| self.backends@.contains_key(b)
                && #[trigger] sessions_of(self.backends@[b]).contains(s) implies self.session_index@.contains_key(s)
                    && self.session_index@[s]@ == b by {
                assert(before.backends@.contains_key(b) && b != key);
                assert(same_but_children(self.backends@[b], before.backends@[b]));
                assert(sessions_of(before.backends@[b]).contains(s));
                assert(before.session_index@[s]@ == b);
                if sessions_of(gs).contains(s) {
                    assert(before.session_index@[s]@ == key);
                }
            }
            assert forall|p: Seq<char>, c: Seq<char>| self.backends@.contains_key(p)
                && #[trigger] children_of(self.backends@[p]).contains(c) implies self.backends@.contains_key(c)
                    && parent_of(self.backends@[c]) == Some(p) by {
                assert(before.backends@.contains_key(p) && p != key);
                assert(children_of(before.backends@[p]).contains(c));
                assert(before.backends@.contains_key(c) && parent_of(before.backends@[c]) == Some(p));
                if c == key {
                    assert(parent == Some(p));
                    assert(false);
                }
                assert(same_but_children(self.backends@[c], before.backends@[c]));
            }
            assert forall|b: Seq<char>| #[trigger] self.backends@.contains_key(b) implies slot_wf(self.backends@[b]) by {}
        }
        Ok(slot)
    }
}

/// A slot equal to `b` in its instance, lineage and place.
pub open spec fn same_place<P>(a: BackendSlot<P>, b: BackendSlot<P>) -> bool {
    &&& a.instance == b.instance
    &&& a.parent_backend_id == b.parent_backend_id
    &&& a.children_backend_ids == b.children_backend_ids
    &&& a.workspace_root == b.workspace_root
    &&& a.config_hash == b.config_hash
}

impl<P> BackendTable<P> {
    /// Binds `session_id` (if given) to the live backend `backend_id` and
    /// sets its expiry (if given). A session bound to another backend is a
    /// conflict; a backend that is not live is not found.
    pub fn connect(&mut self, backend_id: &str, session_id: Option<String>, expires_at_ms: Option<u64>)
        -> (r: Result<(), BackendError>)
        requires
            old(self).wf(),
        ensures
            final(self).wf(),
            session_id matches Some(s) ==> (old(self).index().contains_key(s@) && old(self).index()[s@] != backend_id@
                ==> (r matches Err(BackendError::Conflict { message }) && message@ == bound_text(s@, old(self).index()[s@]))),
            !(session_id matches Some(s) && old(self).index().contains_key(s@) && old(self).index()[s@] != backend_id@)
                && !old(self).slots().contains_key(backend_id@)
                ==> (r matches Err(BackendError::NotFound { backend_id: b }) && b@ == backend_id@),
            r is Err ==> final(self).slots() == old(self).slots() && final(self).index() == old(self).index(),
            r is Ok <==> !(session_id matches Some(s) && old(self).index().contains_key(s@) && old(self).index()[s@] != backend_id@)
                && old(self).slots().contains_key(backend_id@),
            r is Ok ==> ({
                let before = old(self).slots()[backend_id@];
                let after = final(self).slots()[backend_id@];
                &&& final(self).slots().dom() == old(self).slots().dom()
                &&& forall|b: Seq<char>| #[trigger] old(self).slots().contains_key(b) && b != backend_id@
                    ==> final(self).slots()[b] == old(self).slots()[b]
                &&& same_place(after, before)
                &&& after.expires_at_ms == (if expires_at_ms is Some { expires_at_ms } else { before.expires_at_ms })
                &&& sessions_of(after) == (match session_id { Some(s) => sessions_of(before).insert(s@),
                    None => sessions_of(before) })
                &&& final(self).index() == (match session_id { Some(s) => old(self).index().insert(s@, backend_id@),
                    None => old(self).index() })
            }),
    {
        if let Some(s) = &session_id {
            if let Some(b) = self.session_index.get(s.as_str()) {
                if !str_equal(b.as_str(), backend_id) {
                    return Err(bound_conflict(s.as_str(), b.as_str()));
                }
            }
        }
        let ghost before = *self;
        let mut slot = match self.backends.remove(backend_id) {
            Some(slot) => slot,
            None => return Err(not_found(backend_id)),
        };
        let ghost old_slot = slot;
        if let Some(t) = expires_at_ms {
            slot.expires_at_ms = Some(t);
        }
        if let Some(s) = &session_id {
            slot.session_ids.insert(String::from_str(s.as_str()), ());
            self.session_index.insert(String::from_str(s.as_str()), String::from_str(backend_id));
        }
        let ghost new_slot = slot;
        self.backends.insert(String::from_str(backend_id), slot);
        proof {
            let key = backend_id@;
            assert(self.backends@.dom() =~= before.backends@.dom());
            assert(sessions_of(new_slot) =~= (match session_id { Some(s) => sessions_of(old_slot).insert(s@),
                None => sessions_of(old_slot) }));
            let idx = match session_id { Some(s) => before.index().insert(s@, key), None => before.index() };
            assert(self.index() =~= idx);
            assert forall|s: Seq<char>| #[trigger] self.session_index@.contains_key(s) implies ({
                let b = self.session_index@[s]@;
                self.backends@.contains_key(b) && sessions_of(self.backends@[b]).contains(s)
            }) by {
                if session_id is Some && s == session_id->0@ {
                } else {
                    assert(before.session_index@.contains_key(s));
                    let b = before.session_index@[s]@;
                    assert(before.backends@.contains_key(b) && sessions_of(before.backends@[b]).contains(s));
                }
            }
            assert forall|b: Seq<char>, s: Seq<char>| self.backends@.contains_key(b)
                && #[trigger] sessions_of(self.backends@[b]).contains(s) implies self.session_index@.contains_key(s)
                    && self.session_index@[s]@ == b by {
                if session_id is Some && s == session_id->0@ {
                    if b != key {
                        assert(sessions_of(before.backends@[b]).contains(s));
                        assert(before.session_index@[s]@ == b);
                        assert(before.index().contains_key(s) && before.index()[s] != key);
                        assert(false);
                    }
                } else {
                    assert(sessions_of(before.backends@[b]).contains(s));
                }
            }
            assert forall|p: Seq<char>, c: Seq<char>| self.backends@.contains_key(p)
                && #[trigger] children_of(self.backends@[p]).contains(c) implies self.backends@.contains_key(c)
                    && parent_of(self.backends@[c]) == Some(p) by {
                assert(children_of(before.backends@[p]).contains(c));
            }
        }
        Ok(())
    }

    /// The live backend `session_id` is bound to; an unbound session is not
    /// found as `session:<id>`.
    pub fn lease_bound(&self, session_id: &str) -> (r: Result<&BackendSlot<P>, BackendError>)
        requires
            self.wf(),
        ensures
            !self.index().contains_key(session_id@) ==> (r matches Err(BackendError::NotFound { backend_id: b })
                && b@ == "session:"@ + session_id@),
            self.index().contains_key(session_id@) ==> (r matches Ok(slot) && *slot == self.slots()[self.index()[session_id@]]),
    {
        match self.session_index.get(session_id) {
            None => {
                let mut b = String::from_str("session:");
                push_str(&mut b, session_id);
                Err(BackendError::NotFound { backend_id: b })
            },
            Some(b) => match self.backends.get(b.as_str()) {
                Some(slot) => Ok(slot),
                None => Err(not_found(b.as_str())),
            },
        }
    }

    /// Empties the table, handing back every backend with its id.
    pub fn drain_all(&mut self) -> (v: Vec<(String, BackendSlot<P>)>)
        requires
            old(self).wf(),
        ensures
            final(self).wf(),
            final(self).slots() == Map::<Seq<char>, BackendSlot<P>>::empty(),
            final(self).index() == Map::<Seq<char>, Seq<char>>::empty(),
            crate::strmap::keys_unique(v@),
            crate::strmap::map_of(v@) == old(self).slots(),
    {
        let mut backends: StrMap<BackendSlot<P>> = StrMap::new();
        std::mem::swap(&mut backends, &mut self.backends);
        self.session_index = StrMap::new();
        assert(self.index() =~= Map::<Seq<char>, Seq<char>>::empty());
        backends.into_entries()
    }
}

/// What a session's existing binding means for a request to run it on a
/// workspace and configuration.
#[derive(Debug)]
pub enum SessionBinding {
    /// The session is not bound.
    Unbound,
    /// Bound to this backend, on the same workspace and configuration.
    Reusable(String),
    /// Bound to this backend, on another workspace or configuration.
    Mismatched(String),
    /// Bound to a backend that is not live.
    Missing(String),
}

impl<P> BackendTable<P> {
    /// How `session_id`'s binding relates to `workspace_root` and `config_hash`.
    pub fn session_binding(&self, session_id: &str, workspace_root: &str, config_hash: u64) -> (r: SessionBinding)
        requires
            self.wf(),
        ensures
            !self.index().contains_key(session_id@) <==> r is Unbound,
            self.index().contains_key(session_id@) ==> ({
                let b = self.index()[session_id@];
                let slot = self.slots()[b];
                &&& self.slots().contains_key(b)
                &&& (slot.workspace_root@ == workspace_root@ && slot.config_hash == config_hash)
                    ==> (r matches SessionBinding::Reusable(id) && id@ == b)
                &&& !(slot.workspace_root@ == workspace_root@ && slot.config_hash == config_hash)
                    ==> (r matches SessionBinding::Mismatched(id) && id@ == b)
            }),
    {
        match self.session_index.get(session_id) {
            None => SessionBinding::Unbound,
            Some(b) => match self.backends.get(b.as_str()) {
                None => SessionBinding::Missing(b.clone()),
                Some(slot) => {
                    if str_equal(slot.workspace_root.as_str(), workspace_root) && slot.config_hash == config_hash {
                        SessionBinding::Reusable(b.clone())
                    } else {
                        SessionBinding::Mismatched(b.clone())
                    }
                },
            },
        }
    }
}

/// The build failure a session's binding stands for, where it is one: a
/// binding to a backend that is not live, or to one on another workspace or
/// configuration.
pub fn binding_failure(session_id: &str, binding: &SessionBinding) -> (r: Option<crate::backend_base::BackendBuildError>)
    ensures
        (binding is Unbound || binding is Reusable) <==> r is None,
        binding matches SessionBinding::Missing(b) ==> (r matches Some(crate::backend_base::BackendBuildError::BuildFailed { message })
            && message@ == "session "@ + session_id@ + " is bound to missing backend "@ + b@),
        binding matches SessionBinding::Mismatched(b) ==> (r matches Some(crate::backend_base::BackendBuildError::BuildFailed { message })
            && message@ == "session "@ + session_id@ + " is already bound to backend "@ + b@
                + " with different workspace or config"@),
{
    match binding {
        SessionBinding::Missing(b) => {
            let mut message = String::from_str("session ");
            push_str(&mut message, session_id);
            push_str(&mut message, " is bound to missing backend ");
            push_str(&mut message, b.as_str());
            Some(crate::backend_base::BackendBuildError::BuildFailed { message })
        },
        SessionBinding::Mismatched(b) => {
            let mut message = String::from_str("session ");
            push_str(&mut message, session_id);
            push_str(&mut message, " is already bound to backend ");
            push_str(&mut message, b.as_str());
            push_str(&mut message, " with different workspace or config");
            Some(crate::backend_base::BackendBuildError::BuildFailed { message })
        },
        _ => None,
    }
}

impl<P> BackendTable<P> {
    /// Unbinds `session_id`. When its backend is left with no session, that
    /// backend leaves the table too (and its live parent's children) and is
    /// handed back; otherwise nothing is handed back.
    pub fn release_session(&mut self, session_id: &str) -> (r: Option<BackendSlot<P>>)
        requires
            old(self).wf(),
        ensures
            final(self).wf(),
            !old(self).index().contains_key(session_id@) ==> r is None && final(self).slots() == old(self).slots()
                && final(self).index() == old(self).index(),
            old(self).index().contains_key(session_id@) ==> ({
                let b = old(self).index()[session_id@];
                let before = old(self).slots()[b];
                let rest = sessions_of(before).remove(session_id@);
                &&& final(self).index() == old(self).index().remove(session_id@)
                &&& rest.is_empty() ==> (r matches Some(slot) && same_place(slot, before)
                    && slot.expires_at_ms == before.expires_at_ms && sessions_of(slot).is_empty()
                    && final(self).slots().dom() == old(self).slots().dom().remove(b)
                    && links_after_leave(old(self).slots().remove(b), final(self).slots(), b,
                        match parent_of(before) { Some(p) => if old(self).slots().contains_key(p) { Some(p) } else { None },
                            None => None }))
                &&& !rest.is_empty() ==> (r is None
                    && final(self).slots().dom() == old(self).slots().dom()
                    && (forall|c: Seq<char>| #[trigger] old(self).slots().contains_key(c) && c != b
                        ==> final(self).slots()[c] == old(self).slots()[c])
                    && same_place(final(self).slots()[b], before)
                    && final(self).slots()[b].expires_at_ms == before.expires_at_ms
                    && sessions_of(final(self).slots()[b]) == rest)
            }),
    {
        let ghost before = *self;
        let b = match self.session_index.remove(session_id) {
            Some(b) => b,
            None => return None,
        };
        let ghost bk = b@;
        let mut slot = match self.backends.remove(b.as_str()) {
            Some(slot) => slot,
            None => {
                assert(false);
                return None;
            },
        };
        let ghost old_slot = slot;
        slot.session_ids.remove(session_id);
        assert(sessions_of(slot) =~= sessions_of(old_slot).remove(session_id@));
        if slot.session_ids.is_empty() {
            let ghost removed = *self;
            if let Some(p) = &slot.parent_backend_id {
                self.unlink_child(p.as_str(), b.as_str());
            }
            proof {
                assert(sessions_of(slot) =~= Set::<Seq<char>>::empty());
                let parent = match parent_of(old_slot) { Some(p) => if before.backends@.contains_key(p) { Some(p) } else { None },
                    None => None };
                if old_slot.parent_backend_id is Some {
                    if old_slot.parent_backend_id->0@ == bk {
                        assert(!removed.backends@.contains_key(bk));
                    }
                } else {
                    assert(self.backends@ == removed.backends@);
                }
                assert(links_after_leave(before.backends@.remove(bk), self.backends@, bk, parent));
                assert(self.backends@.dom() =~= before.backends@.dom().remove(bk));
                assert(self.index() =~= before.index().remove(session_id@));
                assert forall|s: Seq<char>| #[trigger] self.session_index@.contains_key(s) implies ({
                    let c = self.session_index@[s]@;
                    self.backends@.contains_key(c) && sessions_of(self.backends@[c]).contains(s)
                }) by {
                    let c = before.session_index@[s]@;
                    assert(before.backends@.contains_key(c) && sessions_of(before.backends@[c]).contains(s));
                    if c == bk {
                        assert(sessions_of(slot).contains(s));
                    }
                    assert(same_but_children(self.backends@[c], before.backends@[c]));
                }
                assert forall|c: Seq<char>, s: Seq<char>| self.backends@.contains_key(c)
                    && #[trigger] sessions_of(self.backends@[c]).contains(s) implies self.session_index@.contains_key(s)
                        && self.session_index@[s]@ == c by {
                    assert(same_but_children(self.backends@[c], before.backends@[c]));
                    assert(sessions_of(before.backends@[c]).contains(s));
                    assert(before.session_index@[s]@ == c);
                    assert(s != session_id@);
                }
                assert forall|p: Seq<char>, c: Seq<char>| self.backends@.contains_key(p)
                    && #[trigger] children_of(self.backends@[p]).contains(c) implies self.backends@.contains_key(c)
                        && parent_of(self.backends@[c]) == Some(p) by {
                    assert(before.backends@.contains_key(p) && p != bk);
                    assert(children_of(before.backends@[p]).contains(c));
                    assert(before.backends@.contains_key(c) && parent_of(before.backends@[c]) == Some(p));
                    if c == bk {
                        assert(parent == Some(p));
                    }
                    assert(same_but_children(self.backends@[c], before.backends@[c]));
                }
            }
            Some(slot)
        } else {
            let ghost new_slot = slot;
            self.backends.insert(b, slot);
            proof {
                assert(self.backends@.dom() =~= before.backends@.dom());
                assert(self.index() =~= before.index().remove(session_id@));
                assert(!sessions_of(new_slot).is_empty()) by {
                    if sessions_of(new_slot).is_empty() {
                        assert(new_slot.session_ids@ =~= Map::<Seq<char>, ()>::empty());
                    }
                }
                assert forall|s: Seq<char>| #[trigger] self.session_index@.contains_key(s) implies ({
                    let c = self.session_index@[s]@;
                    self.backends@.contains_key(c) && sessions_of(self.backends@[c]).contains(s)
                }) by {
                    let c = before.session_index@[s]@;
                    assert(before.backends@.contains_key(c) && sessions_of(before.backends@[c]).contains(s));
                }
                assert forall|c: Seq<char>, s: Seq<char>| self.backends@.contains_key(c)
                    && #[trigger] sessions_of(self.backends@[c]).contains(s) implies self.session_index@.contains_key(s)
                        && self.session_index@[s]@ == c by {
                    if c == bk {
                        assert(sessions_of(old_slot).contains(s));
                    } else {
                        assert(sessions_of(before.backends@[c]).contains(s));
                    }
                    assert(before.session_index@[s]@ == c);
                }
                assert forall|p: Seq<char>, c: Seq<char>| self.backends@.contains_key(p)
                    && #[trigger] children_of(self.backends@[p]).contains(c) implies self.backends@.contains_key(c)
                        && parent_of(self.backends@[c]) == Some(p) by {
                    assert(children_of(before.backends@[p]).contains(c));
                }
            }
            None
        }
    }
}

/// Whether live backend `b` heads a tree: it has no parent, or its parent
/// is no longer live.
pub open spec fn is_root<P>(slots: Map<Seq<char>, BackendSlot<P>>, b: Seq<char>) -> bool {
    slots.contains_key(b) && !(parent_of(slots[b]) matches Some(p) && slots.contains_key(p))
}

impl<P> BackendTable<P> {
    /// The ids of the backends that head the lineage trees, in string order.
    pub fn tree_roots(&self) -> (v: Vec<String>)
        requires
            self.wf(),
        ensures
            crate::str_order::sorted_strictly(crate::str_order::strings_of(v@)),
            forall|b: Seq<char>| crate::str_order::strings_of(v@).contains(b) <==> is_root(self.slots(), b),
    {
        let entries = self.backends.entries();
        let n = entries.len();
        let mut roots: Vec<String> = Vec::new();
        let mut i: usize = 0;
        while i < n
            invariant
                n == entries@.len(),
                entries@ == self.backends.spec_entries(),
                self.wf(),
                i <= n,
                crate::str_order::sorted_strictly(crate::str_order::strings_of(roots@)),
                forall|b: Seq<char>| crate::str_order::strings_of(roots@).contains(b) <==> (is_root(self.slots(), b)
                    && crate::strmap::has_key(entries@.take(i as int), b)),
            decreases n - i,
        {
            let (id, slot) = &entries[i];
            let root = match &slot.parent_backend_id {
                Some(p) => !self.backends.contains_key(p.as_str()),
                None => true,
            };
            proof {
                crate::strmap::lemma_map_of_index(entries@, i as int);
            }
            let ghost t0 = entries@.take(i as int);
            let ghost t1 = entries@.take(i + 1);
            proof {
                assert forall|k: Seq<char>| crate::strmap::has_key(t1, k) == (crate::strmap::has_key(t0, k) || k == id@) by {
                    if crate::strmap::has_key(t1, k) {
                        let m = choose|m: int| 0 <= m < t1.len() && #[trigger] t1[m].0@ == k;
                        if m < i {
                            assert(t0[m].0@ == k);
                        }
                    }
                    if crate::strmap::has_key(t0, k) {
                        let m = choose|m: int| 0 <= m < t0.len() && #[trigger] t0[m].0@ == k;
                        assert(t1[m].0@ == k);
                    }
                    if k == id@ {
                        assert(t1[i as int].0@ == k);
                    }
                }
                assert(!crate::strmap::has_key(t0, id@)) by {
                    if crate::strmap::has_key(t0, id@) {
                        let m = choose|m: int| 0 <= m < t0.len() && #[trigger] t0[m].0@ == id@;
                        assert(entries@[m].0@ == entries@[i as int].0@);
                    }
                }
                assert(root == is_root(self.slots(), id@));
            }
            if root {
                crate::str_order::insert_sorted(&mut roots, id.clone());
            }
            i = i + 1;
        }
        assert(entries@.take(n as int) =~= entries@);
        proof {
            assert forall|b: Seq<char>| is_root(self.slots(), b) implies crate::strmap::has_key(entries@, b) by {}
        }
        roots
    }
}

/// The keys of `m` in string order (a `BTreeMap`'s key order).
pub fn sorted_keys<V>(m: &StrMap<V>) -> (v: Vec<String>)
    requires
        m.wf(),
    ensures
        crate::str_order::sorted_strictly(crate::str_order::strings_of(v@)),
        forall|k: Seq<char>| crate::str_order::strings_of(v@).contains(k) <==> m@.contains_key(k),
{
    let entries = m.entries();
    let n = entries.len();
    let mut out: Vec<String> = Vec::new();
    let mut i: usize = 0;
    while i < n
        invariant
            n == entries@.len(),
            entries@ == m.spec_entries(),
            m.wf(),
            i <= n,
            crate::str_order::sorted_strictly(crate::str_order::strings_of(out@)),
            forall|k: Seq<char>| crate::str_order::strings_of(out@).contains(k) <==> crate::strmap::has_key(entries@.take(i as int), k),
        decreases n - i,
    {
        let ghost t0 = entries@.take(i as int);
        let ghost t1 = entries@.take(i + 1);
        let ghost id = entries@[i as int].0;
        proof {
            assert forall|k: Seq<char>| crate::strmap::has_key(t1, k) == (crate::strmap::has_key(t0, k) || k == id@) by {
                if crate::strmap::has_key(t1, k) {
                    let q = choose|q: int| 0 <= q < t1.len() && #[trigger] t1[q].0@ == k;
                    if q < i {
                        assert(t0[q].0@ == k);
                    }
                }
                if crate::strmap::has_key(t0, k) {
                    let q = choose|q: int| 0 <= q < t0.len() && #[trigger] t0[q].0@ == k;
                    assert(t1[q].0@ == k);
                }
                if k == id@ {
                    assert(t1[i as int].0@ == k);
                }
            }
            assert(!crate::strmap::has_key(t0, id@)) by {
                if crate::strmap::has_key(t0, id@) {
                    let q = choose|q: int| 0 <= q < t0.len() && #[trigger] t0[q].0@ == id@;
                    assert(entries@[q].0@ == entries@[i as int].0@);
                }
            }
        }
        crate::str_order::insert_sorted(&mut out, entries[i].0.clone());
        i = i + 1;
    }
    assert(entries@.take(n as int) =~= entries@);
    out
}

/// The session a backend reports as its own: its only session, where it
/// has exactly one.
pub fn sole_session(session_ids: &Vec<String>) -> (r: Option<String>)
    ensures
        session_ids@.len() == 1 ==> r == Some(session_ids@[0]),
        session_ids@.len() != 1 ==> r is None,
{
    if session_ids.len() == 1 {
        Some(session_ids[0].clone())
    } else {
        None
    }
}

} // verus!
