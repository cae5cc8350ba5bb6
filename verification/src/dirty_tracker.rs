//! Whether a backend changed since its last checkpoint: writes and commands
//! mark it dirty, a checkpoint marks it clean, and a clean backend reuses its
//! checkpoint instead of taking a new one.

use vstd::prelude::*;
use crate::strmap::str_equal;

verus! {

/// A backend's dirty flag and its last checkpoint, kept with its id.
pub struct BackendDirtyTracker<C> {
    pub dirty: bool,
    pub checkpoint: Option<(String, C)>,
}

/// The id of the recorded checkpoint, if any.
pub open spec fn checkpoint_id_of<C>(t: BackendDirtyTracker<C>) -> Option<Seq<char>> {
    match t.checkpoint {
        Some((id, _)) => Some(id@),
        None => None,
    }
}

impl<C> BackendDirtyTracker<C> {
    /// A fresh backend: clean, with no checkpoint.
    pub fn new() -> (t: Self)
        ensures
            !t.dirty && t.checkpoint is None,
    {
        BackendDirtyTracker { dirty: false, checkpoint: None }
    }

    /// A write or command ran.
    pub fn mark_dirty(&mut self)
        ensures
            final(self).dirty && final(self).checkpoint == old(self).checkpoint,
    {
        self.dirty = true;
    }

    pub fn is_dirty(&self) -> (r: bool)
        ensures
            r == self.dirty,
    {
        self.dirty
    }

    pub fn checkpoint(&self) -> (c: Option<&C>)
        ensures
            c == (match self.checkpoint { Some((_, c)) => Some(&c), None => None }),
    {
        match &self.checkpoint {
            Some((_, c)) => Some(c),
            None => None,
        }
    }

    /// Record a checkpoint just taken: the backend is clean again.
    pub fn set_checkpoint(&mut self, checkpoint_id: String, checkpoint: C)
        ensures
            !final(self).dirty,
            final(self).checkpoint == Some((checkpoint_id, checkpoint)),
    {
        self.checkpoint = Some((checkpoint_id, checkpoint));
        self.dirty = false;
    }

    /// Forget the checkpoint `checkpoint_id` (its snapshot was deleted): the
    /// backend must be checkpointed again. Another checkpoint stays.
    pub fn clear_checkpoint_if_matches(&mut self, checkpoint_id: &str)
        ensures
            checkpoint_id_of(*old(self)) == Some(checkpoint_id@) ==> final(self).checkpoint is None && final(self).dirty,
            checkpoint_id_of(*old(self)) != Some(checkpoint_id@) ==> final(self).checkpoint == old(self).checkpoint
                && final(self).dirty == old(self).dirty,
    {
        let matches = match &self.checkpoint {
            Some((id, _)) => str_equal(id.as_str(), checkpoint_id),
            None => false,
        };
        if matches {
            self.checkpoint = None;
            self.dirty = true;
        }
    }

    /// The checkpoint a new checkpoint request may reuse: the recorded one,
    /// while nothing changed since it was taken.
    pub fn reusable_checkpoint(&self) -> (c: Option<&C>)
        ensures
            c == (if self.dirty { None } else { match self.checkpoint { Some((_, c)) => Some(&c), None => None } }),
    {
        if self.dirty {
            None
        } else {
            self.checkpoint()
        }
    }
}

} // verus!
