//! The cross-process registry of live backends: which process owns each
//! sandbox, the status of the sessions bound to it, and whether it may be
//! evicted. The registry file and its lock are handled by the caller; this
//! module holds the registry's contents and their operations.

use vstd::prelude::*;
use crate::sandbox_counter::SandboxCounterKey;
use crate::strmap::{keys_unique, map_of, str_equal, StrMap};
use crate::text::push_str;
use crate::clock::current_time_ms;

verus! {


/// Why reading or writing the registry file failed.
#[derive(Debug)]
pub enum BackendRegistryError {
    FileError { message: String },
    LockError { message: String },
    ParseError { message: String },
}

pub open spec fn registry_error_text(e: BackendRegistryError) -> Seq<char> {
    match e {
        BackendRegistryError::FileError { message } => "file error: "@ + message@,
        BackendRegistryError::LockError { message } => "lock error: "@ + message@,
        BackendRegistryError::ParseError { message } => "parse error: "@ + message@,
    }
}

impl BackendRegistryError {
    /// The error's text, as displayed to users.
    pub fn message(&self) -> (s: String)
        ensures
            s@ == registry_error_text(*self),
    {
        let (prefix, detail) = match self {
            BackendRegistryError::FileError { message } => ("file error: ", message.as_str()),
            BackendRegistryError::LockError { message } => ("lock error: ", message.as_str()),
            BackendRegistryError::ParseError { message } => ("parse error: ", message.as_str()),
        };
        let mut s = String::from_str(prefix);
        push_str(&mut s, detail);
        s
    }
}

/// The last reported status of one session.
#[derive(Debug)]
pub struct SessionStatusSnapshot {
    pub status: String,
    pub queue_depth: usize,
    pub updated_at_ms: u64,
}

impl Default for SessionStatusSnapshot {
    fn default() -> (s: Self)
        ensures
            s.status@ == "idle"@ && s.queue_depth == 0 && s.updated_at_ms == 0,
    {
        SessionStatusSnapshot { status: String::from_str("idle"), queue_depth: 0, updated_at_ms: 0 }
    }
}

pub open spec fn snapshot_view(s: SessionStatusSnapshot) -> (Seq<char>, usize, u64) {
    (s.status@, s.queue_depth, s.updated_at_ms)
}

pub open spec fn statuses_view(m: Map<Seq<char>, SessionStatusSnapshot>) -> Map<Seq<char>, (Seq<char>, usize, u64)> {
    m.map_values(|s: SessionStatusSnapshot| snapshot_view(s))
}

/// A registry entry as plain values.
pub struct RegistryEntryView {
    pub backend_id: Seq<char>,
    pub sandbox_type: Seq<char>,
    pub key_identifier: Seq<char>,
    pub session_ids: Seq<Seq<char>>,
    pub owner_process_id: Seq<char>,
    pub session_statuses: Map<Seq<char>, (Seq<char>, usize, u64)>,
    pub created_at_ms: u64,
    pub last_activity_ms: u64,
    pub pending_eviction: bool,
    pub instance_id: Seq<char>,
    pub owner_heartbeat_ms: u64,
    pub owner_pid: u32,
}

/// One live backend in the registry.
pub struct BackendRegistryEntry {
    pub backend_id: String,
    pub sandbox_key: SandboxCounterKey,
    pub session_ids: Vec<String>,
    pub owner_process_id: String,
    pub session_statuses: StrMap<SessionStatusSnapshot>,
    pub created_at_ms: u64,
    pub last_activity_ms: u64,
    pub pending_eviction: bool,
    /// The provider's id of the sandbox, used to delete it when reclaiming.
    pub instance_id: String,
    /// Last time the owner process touched the entry.
    pub owner_heartbeat_ms: u64,
    /// OS process id of the owner, for eviction signals.
    pub owner_pid: u32,
}

pub open spec fn strings_view(v: Seq<String>) -> Seq<Seq<char>> {
    v.map_values(|s: String| s@)
}

impl View for BackendRegistryEntry {
    type V = RegistryEntryView;

    open spec fn view(&self) -> RegistryEntryView {
        RegistryEntryView {
            backend_id: self.backend_id@,
            sandbox_type: self.sandbox_key.sandbox_type@,
            key_identifier: self.sandbox_key.key_identifier@,
            session_ids: strings_view(self.session_ids@),
            owner_process_id: self.owner_process_id@,
            session_statuses: statuses_view(self.session_statuses@),
            created_at_ms: self.created_at_ms,
            last_activity_ms: self.last_activity_ms,
            pending_eviction: self.pending_eviction,
            instance_id: self.instance_id@,
            owner_heartbeat_ms: self.owner_heartbeat_ms,
            owner_pid: self.owner_pid,
        }
    }
}

/// Whether a session reports itself idle with nothing queued.
pub open spec fn is_idle(s: (Seq<char>, usize, u64)) -> bool {
    s.0 == "idle"@ && s.1 == 0
}

pub open spec fn all_idle(m: Map<Seq<char>, (Seq<char>, usize, u64)>) -> bool {
    forall|k: Seq<char>| #[trigger] m.contains_key(k) ==> is_idle(m[k])
}

/// Whether the owner is presumed dead at `now`: it never beat, or its last
/// heartbeat is older than `threshold_ms`.
pub open spec fn owner_stale(heartbeat_ms: u64, threshold_ms: u64, now: u64) -> bool {
    heartbeat_ms == 0 || (if now > heartbeat_ms { now - heartbeat_ms } else { 0 }) > threshold_ms
}

/// Whether eviction may go ahead: every session idle, or the owner dead.
pub open spec fn eviction_safe(e: RegistryEntryView, threshold_ms: u64, now: u64) -> bool {
    all_idle(e.session_statuses) || owner_stale(e.owner_heartbeat_ms, threshold_ms, now)
}

/// Whether a backend may be picked for eviction: not already marked, and safe.
pub open spec fn evictable(e: RegistryEntryView, threshold_ms: u64, now: u64) -> bool {
    !e.pending_eviction && eviction_safe(e, threshold_ms, now)
}

/// The initial statuses of `ids`: each with the given status and queue
/// depth stamped `now`, or idle and unstamped.
pub open spec fn initial_statuses(ids: Seq<Seq<char>>, initial: Option<(Seq<char>, usize)>, now: u64) -> Map<Seq<char>, (Seq<char>, usize, u64)> {
    Map::new(|k: Seq<char>| ids.contains(k), |k: Seq<char>| match initial {
        Some((st, depth)) => (st, depth, now),
        None => ("idle"@, 0usize, 0u64),
    })
}

impl BackendRegistryEntry {
    pub open spec fn wf(&self) -> bool {
        self.session_statuses.wf()
    }

    /// A new entry created at `now` by process `owner_pid`; every session
    /// gets the initial status, or idle when none is given.
    pub fn new_at(
        backend_id: String,
        sandbox_key: SandboxCounterKey,
        session_ids: Vec<String>,
        owner_process_id: String,
        instance_id: String,
        initial_session_status: Option<(&str, usize)>,
        now_ms: u64,
        owner_pid: u32,
    ) -> (e: Self)
        ensures
            e.wf(),
            e@ == (RegistryEntryView {
                backend_id: backend_id@,
                sandbox_type: sandbox_key.sandbox_type@,
                key_identifier: sandbox_key.key_identifier@,
                session_ids: strings_view(session_ids@),
                owner_process_id: owner_process_id@,
                session_statuses: initial_statuses(strings_view(session_ids@),
                    match initial_session_status { Some((st, d)) => Some((st@, d)), None => None }, now_ms),
                created_at_ms: now_ms,
                last_activity_ms: now_ms,
                pending_eviction: false,
                instance_id: instance_id@,
                owner_heartbeat_ms: now_ms,
                owner_pid,
            }),
    {
        let mut statuses: StrMap<SessionStatusSnapshot> = StrMap::new();
        let ghost ids = strings_view(session_ids@);
        let ghost init = match initial_session_status { Some((st, d)) => Some((st@, d)), None => None::<(Seq<char>, usize)> };
        let n = session_ids.len();
        let mut i: usize = 0;
        while i < n
            invariant
                n == session_ids@.len(),
                ids == strings_view(session_ids@),
                init == (match initial_session_status { Some((st, d)) => Some((st@, d)), None => None::<(Seq<char>, usize)> }),
                i <= n,
                statuses.wf(),
                statuses_view(statuses@) == initial_statuses(ids.take(i as int), init, now_ms),
            decreases n - i,
        {
            let snapshot = match initial_session_status {
                Some((status, queue_depth)) => SessionStatusSnapshot {
                    status: String::from_str(status),
                    queue_depth,
                    updated_at_ms: now_ms,
                },
                None => SessionStatusSnapshot::default(),
            };
            let ghost before = statuses_view(statuses@);
            let ghost sv = snapshot_view(snapshot);
            assert(sv == (match init { Some((st, depth)) => (st, depth, now_ms), None => ("idle"@, 0usize, 0u64) }));
            let key = String::from_str(session_ids[i].as_str());
            statuses.insert(key, snapshot);
            proof {
                let t0 = ids.take(i as int);
                let t1 = ids.take(i + 1);
                assert(t1 =~= t0.push(ids[i as int]));
                assert(ids[i as int] == session_ids@[i as int]@);
                assert forall|k: Seq<char>| t1.contains(k) == (t0.contains(k) || k == ids[i as int]) by {
                    if t1.contains(k) {
                        let j = choose|j: int| 0 <= j < t1.len() && t1[j] == k;
                        if j < i {
                            assert(t0[j] == k);
                        }
                    }
                    if t0.contains(k) {
                        let j = choose|j: int| 0 <= j < t0.len() && t0[j] == k;
                        assert(t1[j] == k);
                    }
                    if k == ids[i as int] {
                        assert(t1[i as int] == k);
                    }
                }
                assert(statuses_view(statuses@) =~= before.insert(key@, sv));
                assert(statuses_view(statuses@) =~= initial_statuses(ids.take(i + 1), init, now_ms));
            }
            i = i + 1;
        }
        assert(ids.take(n as int) =~= ids);
        BackendRegistryEntry {
            backend_id,
            sandbox_key,
            session_ids,
            owner_process_id,
            session_statuses: statuses,
            created_at_ms: now_ms,
            last_activity_ms: now_ms,
            pending_eviction: false,
            instance_id,
            owner_heartbeat_ms: now_ms,
            owner_pid,
        }
    }

    /// Record a session's status at `now`.
    pub fn update_session_status_at(&mut self, session_id: &str, status: &str, queue_depth: usize, now_ms: u64)
        requires
            old(self).wf(),
        ensures
            final(self).wf(),
            final(self)@ == (RegistryEntryView {
                session_statuses: old(self)@.session_statuses.insert(session_id@, (status@, queue_depth, now_ms)),
                ..old(self)@
            }),
    {
        let snapshot = SessionStatusSnapshot { status: String::from_str(status), queue_depth, updated_at_ms: now_ms };
        self.session_statuses.insert(String::from_str(session_id), snapshot);
        assert(statuses_view(self.session_statuses@) =~= statuses_view(old(self).session_statuses@).insert(
            session_id@, (status@, queue_depth, now_ms)));
    }

    /// Record a session's status now.
    pub fn update_session_status(&mut self, session_id: &str, status: &str, queue_depth: usize)
        requires
            old(self).wf(),
        ensures
            final(self).wf(),
            final(self)@ == (RegistryEntryView {
                session_statuses: old(self)@.session_statuses.insert(session_id@,
                    (status@, queue_depth, final(self)@.session_statuses[session_id@].2)),
                ..old(self)@
            }),
    {
        let now = current_time_ms();
        self.update_session_status_at(session_id, status, queue_depth, now);
    }

    /// Whether every session is idle with nothing queued.
    pub fn is_all_sessions_idle(&self) -> (r: bool)
        requires
            self.wf(),
        ensures
            r == all_idle(self@.session_statuses),
    {
        let entries = self.session_statuses.entries();
        let n = entries.len();
        let mut i: usize = 0;
        while i < n
            invariant
                n == entries@.len(),
                entries@ == self.session_statuses.spec_entries(),
                self.session_statuses.wf(),
                i <= n,
                forall|j: int| 0 <= j < i ==> is_idle(snapshot_view(#[trigger] entries@[j].1)),
            decreases n - i,
        {
            let idle = str_equal(entries[i].1.status.as_str(), "idle") && entries[i].1.queue_depth == 0;
            if !idle {
                proof {
                    crate::strmap::lemma_map_of_index(entries@, i as int);
                    let k = entries@[i as int].0@;
                    assert(statuses_view(self.session_statuses@).contains_key(k));
                }
                return false;
            }
            i = i + 1;
        }
        proof {
            let m = statuses_view(self.session_statuses@);
            assert forall|k: Seq<char>| #[trigger] m.contains_key(k) implies is_idle(m[k]) by {
                let j = crate::strmap::key_index(entries@, k);
                crate::strmap::lemma_map_of_index(entries@, j);
            }
        }
        true
    }

    /// Whether the owner is presumed dead at `now`.
    pub fn is_owner_stale_at(&self, threshold_ms: u64, now_ms: u64) -> (r: bool)
        ensures
            r == owner_stale(self.owner_heartbeat_ms, threshold_ms, now_ms),
    {
        if self.owner_heartbeat_ms == 0 {
            return true;
        }
        now_ms.saturating_sub(self.owner_heartbeat_ms) > threshold_ms
    }

    /// Whether eviction may go ahead at `now`.
    pub fn is_eviction_safe_at(&self, threshold_ms: u64, now_ms: u64) -> (r: bool)
        requires
            self.wf(),
        ensures
            r == eviction_safe(self@, threshold_ms, now_ms),
    {
        self.is_all_sessions_idle() || self.is_owner_stale_at(threshold_ms, now_ms)
    }

    /// Whether the backend may be picked for eviction at `now`.
    pub fn is_evictable_at(&self, threshold_ms: u64, now_ms: u64) -> (r: bool)
        requires
            self.wf(),
        ensures
            r == evictable(self@, threshold_ms, now_ms),
    {
        !self.pending_eviction && self.is_eviction_safe_at(threshold_ms, now_ms)
    }

    /// Whether the owner is presumed dead now.
    pub fn is_owner_stale(&self, threshold_ms: u64) -> (r: bool)
        ensures
            exists|now: u64| r == #[trigger] owner_stale(self.owner_heartbeat_ms, threshold_ms, now),
    {
        let now = current_time_ms();
        self.is_owner_stale_at(threshold_ms, now)
    }

    /// Whether eviction may go ahead now.
    pub fn is_eviction_safe(&self, threshold_ms: u64) -> (r: bool)
        requires
            self.wf(),
        ensures
            exists|now: u64| r == #[trigger] eviction_safe(self@, threshold_ms, now),
    {
        let now = current_time_ms();
        self.is_eviction_safe_at(threshold_ms, now)
    }

    /// Whether the backend may be picked for eviction now.
    pub fn is_evictable(&self, threshold_ms: u64) -> (r: bool)
        requires
            self.wf(),
        ensures
            exists|now: u64| r == #[trigger] evictable(self@, threshold_ms, now),
    {
        let now = current_time_ms();
        self.is_evictable_at(threshold_ms, now)
    }

    /// A copy of the entry.
    pub fn duplicate(&self) -> (e: Self)
        requires
            self.wf(),
        ensures
            e.wf(),
            e@ == self@,
    {
        let mut statuses: StrMap<SessionStatusSnapshot> = StrMap::new();
        let entries = self.session_statuses.entries();
        let n = entries.len();
        let mut i: usize = 0;
        assert(entries@.take(0) =~= Seq::<(String, SessionStatusSnapshot)>::empty());
        assert(statuses_view(map_of(entries@.take(0))) =~= Map::<Seq<char>, (Seq<char>, usize, u64)>::empty());
        while i < n
            invariant
                n == entries@.len(),
                entries@ == self.session_statuses.spec_entries(),
                self.session_statuses.wf(),
                i <= n,
                statuses.wf(),
                statuses_view(statuses@) == statuses_view(map_of(entries@.take(i as int))),
            decreases n - i,
        {
            let s = &entries[i].1;
            let copy = SessionStatusSnapshot {
                status: String::from_str(s.status.as_str()),
                queue_depth: s.queue_depth,
                updated_at_ms: s.updated_at_ms,
            };
            proof {
                crate::strmap::lemma_map_of_take_push(entries@, i as int);
            }
            let ghost cv = snapshot_view(copy);
            let ghost before = statuses_view(statuses@);
            assert(cv == snapshot_view(entries@[i as int].1));
            let key = String::from_str(entries[i].0.as_str());
            statuses.insert(key, copy);
            assert(statuses_view(statuses@) =~= before.insert(key@, cv));
            assert(statuses_view(map_of(entries@.take(i + 1))) =~= statuses_view(map_of(entries@.take(i as int))).insert(key@, cv));
            assert(statuses_view(statuses@) =~= statuses_view(map_of(entries@.take(i + 1))));
            i = i + 1;
        }
        assert(entries@.take(n as int) =~= entries@);
        let mut ids: Vec<String> = Vec::new();
        let m = self.session_ids.len();
        let mut j: usize = 0;
        while j < m
            invariant
                m == self.session_ids@.len(),
                j <= m,
                strings_view(ids@) == strings_view(self.session_ids@).take(j as int),
            decreases m - j,
        {
            let ghost before = ids@;
            let copy = String::from_str(self.session_ids[j].as_str());
            ids.push(copy);
            assert(ids@ == before.push(copy));
            assert(strings_view(ids@) =~= strings_view(before).push(copy@));
            assert(strings_view(ids@) =~= strings_view(self.session_ids@).take(j + 1));
            j = j + 1;
        }
        assert(strings_view(self.session_ids@).take(m as int) =~= strings_view(self.session_ids@));
        BackendRegistryEntry {
            backend_id: String::from_str(self.backend_id.as_str()),
            sandbox_key: self.sandbox_key.duplicate(),
            session_ids: ids,
            owner_process_id: String::from_str(self.owner_process_id.as_str()),
            session_statuses: statuses,
            created_at_ms: self.created_at_ms,
            last_activity_ms: self.last_activity_ms,
            pending_eviction: self.pending_eviction,
            instance_id: String::from_str(self.instance_id.as_str()),
            owner_heartbeat_ms: self.owner_heartbeat_ms,
            owner_pid: self.owner_pid,
        }
    }
}


/// The entries of a registry, by backend id, as plain values.
pub open spec fn registry_view(m: Map<Seq<char>, BackendRegistryEntry>) -> Map<Seq<char>, RegistryEntryView> {
    m.map_values(|e: BackendRegistryEntry| e@)
}

/// The views of the entries of a list.
pub open spec fn entry_views(s: Seq<(String, BackendRegistryEntry)>) -> Seq<RegistryEntryView> {
    s.map_values(|p: (String, BackendRegistryEntry)| p.1@)
}

/// The entries of `s` counted against the sandbox key `(ty, id)`, in order.
pub open spec fn select_by_key(s: Seq<RegistryEntryView>, ty: Seq<char>, id: Seq<char>) -> Seq<RegistryEntryView>
    decreases s.len(),
{
    if s.len() == 0 {
        s
    } else {
        let r = select_by_key(s.drop_last(), ty, id);
        if s.last().sandbox_type == ty && s.last().key_identifier == id { r.push(s.last()) } else { r }
    }
}

/// The entries of `s` owned by process `pid`, in order.
pub open spec fn select_owned(s: Seq<RegistryEntryView>, pid: Seq<char>) -> Seq<RegistryEntryView>
    decreases s.len(),
{
    if s.len() == 0 {
        s
    } else {
        let r = select_owned(s.drop_last(), pid);
        if s.last().owner_process_id == pid { r.push(s.last()) } else { r }
    }
}

/// An entry after its owner's heartbeat at `now`, if `pid` owns it.
pub open spec fn beat(e: RegistryEntryView, pid: Seq<char>, now: u64) -> RegistryEntryView {
    if e.owner_process_id == pid { RegistryEntryView { owner_heartbeat_ms: now, ..e } } else { e }
}

pub open spec fn views_of(v: Seq<BackendRegistryEntry>) -> Seq<RegistryEntryView> {
    v.map_values(|e: BackendRegistryEntry| e@)
}

/// The contents of the backend registry file.
pub struct BackendRegistryData {
    entries: StrMap<BackendRegistryEntry>,
}

impl View for BackendRegistryData {
    type V = Map<Seq<char>, RegistryEntryView>;

    closed spec fn view(&self) -> Map<Seq<char>, RegistryEntryView> {
        registry_view(self.entries@)
    }
}

impl BackendRegistryData {
    /// The entries in file order, as plain values.
    pub closed spec fn ordered(&self) -> Seq<RegistryEntryView> {
        entry_views(self.entries.spec_entries())
    }

    pub closed spec fn wf(&self) -> bool {
        &&& self.entries.wf()
        &&& forall|k: Seq<char>| #[trigger] self.entries@.contains_key(k) ==> self.entries@[k].wf()
    }

    pub fn new() -> (d: Self)
        ensures
            d.wf(),
            d@ == Map::<Seq<char>, RegistryEntryView>::empty(),
            d.ordered() == Seq::<RegistryEntryView>::empty(),
    {
        let d = BackendRegistryData { entries: StrMap::new() };
        assert(registry_view(d.entries@) =~= Map::<Seq<char>, RegistryEntryView>::empty());
        assert(entry_views(d.entries.spec_entries()) =~= Seq::<RegistryEntryView>::empty());
        d
    }

    /// Add or replace the entry of its backend id.
    pub fn register(&mut self, entry: BackendRegistryEntry)
        requires
            old(self).wf(),
            entry.wf(),
        ensures
            final(self).wf(),
            final(self)@ == old(self)@.insert(entry.backend_id@, entry@),
    {
        let key = String::from_str(entry.backend_id.as_str());
        let ghost ev = entry@;
        self.entries.insert(key, entry);
        assert(registry_view(self.entries@) =~= registry_view(old(self).entries@).insert(key@, ev));
    }

    /// Remove the entry of `backend_id`, if any.
    pub fn unregister(&mut self, backend_id: &str)
        requires
            old(self).wf(),
        ensures
            final(self).wf(),
            final(self)@ == old(self)@.remove(backend_id@),
    {
        self.entries.remove(backend_id);
        assert(registry_view(self.entries@) =~= registry_view(old(self).entries@).remove(backend_id@));
    }

    /// Copies of all entries, in file order.
    pub fn get_all_entries(&self) -> (v: Vec<BackendRegistryEntry>)
        requires
            self.wf(),
        ensures
            views_of(v@) == self.ordered(),
    {
        let entries = self.entries.entries();
        let n = entries.len();
        let mut out: Vec<BackendRegistryEntry> = Vec::new();
        let mut i: usize = 0;
        while i < n
            invariant
                self.wf(),
                n == entries@.len(),
                entries@ == self.entries.spec_entries(),
                i <= n,
                views_of(out@) == entry_views(entries@).take(i as int),
            decreases n - i,
        {
            proof { self.lemma_entry_wf(i as int); }
            let copy = entries[i].1.duplicate();
            let ghost before = out@;
            out.push(copy);
            assert(views_of(out@) =~= views_of(before).push(copy@));
            assert(views_of(out@) =~= entry_views(entries@).take(i + 1));
            i = i + 1;
        }
        assert(entry_views(entries@).take(n as int) =~= entry_views(entries@));
        out
    }

    /// Copies of the entries counted against `key`, in file order.
    pub fn get_entries_by_key(&self, key: &SandboxCounterKey) -> (v: Vec<BackendRegistryEntry>)
        requires
            self.wf(),
        ensures
            views_of(v@) == select_by_key(self.ordered(), key.sandbox_type@, key.key_identifier@),
    {
        let entries = self.entries.entries();
        let n = entries.len();
        let mut out: Vec<BackendRegistryEntry> = Vec::new();
        let mut i: usize = 0;
        while i < n
            invariant
                self.wf(),
                n == entries@.len(),
                entries@ == self.entries.spec_entries(),
                i <= n,
                views_of(out@) == select_by_key(entry_views(entries@).take(i as int), key.sandbox_type@, key.key_identifier@),
            decreases n - i,
        {
            proof {
                self.lemma_entry_wf(i as int);
                assert(entry_views(entries@).take(i + 1).drop_last() =~= entry_views(entries@).take(i as int));
            }
            if entries[i].1.sandbox_key.same_as(key) {
                let copy = entries[i].1.duplicate();
                let ghost before = out@;
                out.push(copy);
                assert(views_of(out@) =~= views_of(before).push(copy@));
            }
            i = i + 1;
        }
        assert(entry_views(entries@).take(n as int) =~= entry_views(entries@));
        out
    }

    /// Copies of the entries owned by `process_id`, in file order.
    pub fn get_entries_for_process(&self, process_id: &str) -> (v: Vec<BackendRegistryEntry>)
        requires
            self.wf(),
        ensures
            views_of(v@) == select_owned(self.ordered(), process_id@),
    {
        let entries = self.entries.entries();
        let n = entries.len();
        let mut out: Vec<BackendRegistryEntry> = Vec::new();
        let mut i: usize = 0;
        while i < n
            invariant
                self.wf(),
                n == entries@.len(),
                entries@ == self.entries.spec_entries(),
                i <= n,
                views_of(out@) == select_owned(entry_views(entries@).take(i as int), process_id@),
            decreases n - i,
        {
            proof {
                self.lemma_entry_wf(i as int);
                assert(entry_views(entries@).take(i + 1).drop_last() =~= entry_views(entries@).take(i as int));
            }
            if str_equal(entries[i].1.owner_process_id.as_str(), process_id) {
                let copy = entries[i].1.duplicate();
                let ghost before = out@;
                out.push(copy);
                assert(views_of(out@) =~= views_of(before).push(copy@));
            }
            i = i + 1;
        }
        assert(entry_views(entries@).take(n as int) =~= entry_views(entries@));
        out
    }

    proof fn lemma_entry_wf(&self, i: int)
        requires
            self.wf(),
            0 <= i < self.entries.spec_entries().len(),
        ensures
            self.entries.spec_entries()[i].1.wf(),
    {
        crate::strmap::lemma_map_of_index(self.entries.spec_entries(), i);
        assert(self.entries@.contains_key(self.entries.spec_entries()[i].0@));
    }

    /// Mark or unmark the entry of `backend_id` for eviction; `false` (and
    /// no change) when there is no such entry.
    pub fn set_pending_eviction(&mut self, backend_id: &str, pending: bool) -> (changed: bool)
        requires
            old(self).wf(),
        ensures
            final(self).wf(),
            changed == old(self)@.contains_key(backend_id@),
            changed ==> final(self)@ == old(self)@.insert(backend_id@,
                RegistryEntryView { pending_eviction: pending, ..old(self)@[backend_id@] }),
            !changed ==> final(self)@ == old(self)@,
    {
        match self.entries.remove(backend_id) {
            Some(mut entry) => {
                let ghost ev = entry@;
                entry.pending_eviction = pending;
                let ghost nv = entry@;
                self.entries.insert(String::from_str(backend_id), entry);
                proof {
                    assert(nv == (RegistryEntryView { pending_eviction: pending, ..ev }));
                    assert(registry_view(self.entries@) =~= registry_view(old(self).entries@).insert(backend_id@, nv));
                }
                true
            },
            None => false,
        }
    }

    /// Stamp the entry of `backend_id` as active at `now`.
    pub fn update_activity_at(&mut self, backend_id: &str, now_ms: u64) -> (changed: bool)
        requires
            old(self).wf(),
        ensures
            final(self).wf(),
            changed == old(self)@.contains_key(backend_id@),
            changed ==> final(self)@ == old(self)@.insert(backend_id@,
                RegistryEntryView { last_activity_ms: now_ms, ..old(self)@[backend_id@] }),
            !changed ==> final(self)@ == old(self)@,
    {
        match self.entries.remove(backend_id) {
            Some(mut entry) => {
                let ghost ev = entry@;
                entry.last_activity_ms = now_ms;
                let ghost nv = entry@;
                self.entries.insert(String::from_str(backend_id), entry);
                proof {
                    assert(nv == (RegistryEntryView { last_activity_ms: now_ms, ..ev }));
                    assert(registry_view(self.entries@) =~= registry_view(old(self).entries@).insert(backend_id@, nv));
                }
                true
            },
            None => false,
        }
    }

    /// Record a session's status on the entry of `backend_id` at `now`, and
    /// stamp the entry as active.
    pub fn update_session_status_at(&mut self, backend_id: &str, session_id: &str, status: &str, queue_depth: usize, now_ms: u64) -> (changed: bool)
        requires
            old(self).wf(),
        ensures
            final(self).wf(),
            changed == old(self)@.contains_key(backend_id@),
            changed ==> final(self)@ == old(self)@.insert(backend_id@, RegistryEntryView {
                session_statuses: old(self)@[backend_id@].session_statuses.insert(session_id@, (status@, queue_depth, now_ms)),
                last_activity_ms: now_ms,
                ..old(self)@[backend_id@]
            }),
            !changed ==> final(self)@ == old(self)@,
    {
        match self.entries.remove(backend_id) {
            Some(mut entry) => {
                let ghost ev = entry@;
                entry.update_session_status_at(session_id, status, queue_depth, now_ms);
                entry.last_activity_ms = now_ms;
                let ghost nv = entry@;
                self.entries.insert(String::from_str(backend_id), entry);
                proof {
                    assert(registry_view(self.entries@) =~= registry_view(old(self).entries@).insert(backend_id@, nv));
                }
                true
            },
            None => false,
        }
    }

    /// Stamp the heartbeat of every entry owned by `process_id` with `now`;
    /// `true` when some entry is owned by it.
    pub fn refresh_heartbeats_for_process_at(&mut self, process_id: &str, now_ms: u64) -> (changed: bool)
        requires
            old(self).wf(),
        ensures
            final(self).wf(),
            final(self)@ == old(self)@.map_values(|e: RegistryEntryView| beat(e, process_id@, now_ms)),
            changed == exists|k: Seq<char>| #[trigger] old(self)@.contains_key(k) && old(self)@[k].owner_process_id == process_id@,
    {
        let mut old_map: StrMap<BackendRegistryEntry> = StrMap::new();
        std::mem::swap(&mut old_map, &mut self.entries);
        let ghost orig = old_map.spec_entries();
        let ghost orig_map = old_map@;
        let mut rest = old_map.into_entries();
        let n = rest.len();
        let mut fresh: StrMap<BackendRegistryEntry> = StrMap::new();
        let mut changed = false;
        let mut i: usize = 0;
        assert(orig.take(0) =~= Seq::<(String, BackendRegistryEntry)>::empty());
        assert(rest@ =~= orig.skip(0));
        assert(registry_view(map_of(orig.take(0))).map_values(|e: RegistryEntryView| beat(e, process_id@, now_ms))
            =~= Map::<Seq<char>, RegistryEntryView>::empty());
        assert(registry_view(fresh@) =~= Map::<Seq<char>, RegistryEntryView>::empty());
        while i < n
            invariant
                n == orig.len(),
                i <= n,
                keys_unique(orig),
                orig_map == map_of(orig),
                forall|k: Seq<char>| #[trigger] orig_map.contains_key(k) ==> orig_map[k].wf(),
                rest@ == orig.skip(i as int),
                fresh.wf(),
                forall|k: Seq<char>| #[trigger] fresh@.contains_key(k) ==> fresh@[k].wf(),
                registry_view(fresh@) == registry_view(map_of(orig.take(i as int))).map_values(|e: RegistryEntryView| beat(e, process_id@, now_ms)),
                changed == exists|j: int| 0 <= j < i && #[trigger] orig[j].1.owner_process_id@ == process_id@,
            decreases n - i,
        {
            let (key, mut entry) = rest.remove(0);
            proof {
                assert(orig.skip(i as int)[0] == orig[i as int]);
                assert(rest@ =~= orig.skip(i + 1));
                crate::strmap::lemma_map_of_take_push(orig, i as int);
                crate::strmap::lemma_map_of_index(orig, i as int);
            }
            let ghost ev = entry@;
            let owned = str_equal(entry.owner_process_id.as_str(), process_id);
            if owned {
                entry.owner_heartbeat_ms = now_ms;
                changed = true;
            }
            let ghost nv = entry@;
            assert(nv == beat(ev, process_id@, now_ms));
            let ghost before = registry_view(fresh@);
            fresh.insert(key, entry);
            proof {
                assert(registry_view(fresh@) =~= before.insert(orig[i as int].0@, nv));
                assert(registry_view(map_of(orig.take(i + 1))).map_values(|e: RegistryEntryView| beat(e, process_id@, now_ms))
                    =~= registry_view(map_of(orig.take(i as int))).map_values(|e: RegistryEntryView| beat(e, process_id@, now_ms))
                        .insert(orig[i as int].0@, nv));
                if owned {
                    assert(orig[i as int].1.owner_process_id@ == process_id@);
                }
            }
            i = i + 1;
        }
        assert(orig.take(n as int) =~= orig);
        self.entries = fresh;
        proof {
            assert(registry_view(self.entries@) =~= registry_view(orig_map).map_values(|e: RegistryEntryView| beat(e, process_id@, now_ms)));
            if changed {
                let j = choose|j: int| 0 <= j < n && #[trigger] orig[j].1.owner_process_id@ == process_id@;
                crate::strmap::lemma_map_of_index(orig, j);
                assert(old(self)@.contains_key(orig[j].0@));
            } else {
                assert forall|k: Seq<char>| #[trigger] old(self)@.contains_key(k) implies old(self)@[k].owner_process_id != process_id@ by {
                    let j = crate::strmap::key_index(orig, k);
                    crate::strmap::lemma_map_of_index(orig, j);
                }
            }
        }
        changed
    }
}

/// A backend marked for eviction is never picked again, and every backend
/// that may be picked is safe to evict.
pub proof fn law_marked_backends_are_not_picked(e: RegistryEntryView, threshold_ms: u64, now: u64)
    ensures
        e.pending_eviction ==> !evictable(e, threshold_ms, now),
        evictable(e, threshold_ms, now) ==> eviction_safe(e, threshold_ms, now),
{
}

/// Right after its owner's heartbeat, a backend's owner is not presumed dead
/// (for a clock past the epoch).
pub proof fn law_fresh_heartbeat_is_not_stale(e: RegistryEntryView, pid: Seq<char>, now: u64, threshold_ms: u64)
    requires
        e.owner_process_id == pid,
        now > 0,
    ensures
        !owner_stale(beat(e, pid, now).owner_heartbeat_ms, threshold_ms, now),
{
}

/// Registering an entry makes it the one read back under its backend id,
/// and unregistering an id removes that id only.
pub proof fn law_register_then_read(m: Map<Seq<char>, RegistryEntryView>, e: RegistryEntryView, other: Seq<char>)
    ensures
        m.insert(e.backend_id, e)[e.backend_id] == e,
        !m.insert(e.backend_id, e).remove(e.backend_id).contains_key(e.backend_id),
        other != e.backend_id ==> m.remove(e.backend_id).contains_key(other) == m.contains_key(other),
{
}

} // verus!
