//! Interaction requests waiting for a user's answer, by session: the next
//! inbound message of a session that has one resolves it instead of
//! starting a turn. `P` is the pending interaction (the request and the
//! channel its answer goes to).

use vstd::prelude::*;
use crate::strmap::StrMap;

verus! {

pub struct PendingInteractionStore<P> {
    pending: StrMap<P>,
}

impl<P> View for PendingInteractionStore<P> {
    type V = Map<Seq<char>, P>;

    closed spec fn view(&self) -> Map<Seq<char>, P> {
        self.pending@
    }
}

impl<P> PendingInteractionStore<P> {
    pub closed spec fn wf(&self) -> bool {
        self.pending.wf()
    }

    pub fn new() -> (s: Self)
        ensures
            s.wf(),
            s@ == Map::<Seq<char>, P>::empty(),
    {
        PendingInteractionStore { pending: StrMap::new() }
    }

    /// Registers the pending interaction of `session_id`, replacing any
    /// earlier one.
    pub fn register(&mut self, session_id: &str, interaction: P)
        requires
            old(self).wf(),
        ensures
            final(self).wf(),
            final(self)@ == old(self)@.insert(session_id@, interaction),
    {
        self.pending.insert(String::from_str(session_id), interaction);
    }

    /// Takes the pending interaction of `session_id` out of the store.
    pub fn take(&mut self, session_id: &str) -> (r: Option<P>)
        requires
            old(self).wf(),
        ensures
            final(self).wf(),
            final(self)@ == old(self)@.remove(session_id@),
            r == (if old(self)@.contains_key(session_id@) { Some(old(self)@[session_id@]) } else { None }),
    {
        self.pending.remove(session_id)
    }

    /// Whether `session_id` has a pending interaction.
    pub fn has_pending(&self, session_id: &str) -> (r: bool)
        requires
            self.wf(),
        ensures
            r == self@.contains_key(session_id@),
    {
        self.pending.contains_key(session_id)
    }
}

} // verus!
