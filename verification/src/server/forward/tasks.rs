//! The tasks that serve the connections of a listener.

use vstd::prelude::*;

verus! {

/// The tasks of a listener, by what the program knows them by. Once the listener is
/// shut down, none is kept.
#[derive(Debug)]
pub struct TrackedConnectionTasks<H> {
    shutting_down: bool,
    handles: Vec<H>,
}

impl<H> TrackedConnectionTasks<H> {
    /// The listener has been shut down.
    pub closed spec fn is_shut_down(&self) -> bool {
        self.shutting_down
    }

    /// The tasks that are kept.
    pub closed spec fn kept(&self) -> Seq<H> {
        self.handles@
    }

    /// No tasks.
    pub fn new() -> (r: Self)
        ensures
            !r.is_shut_down(),
            r.kept() == Seq::<H>::empty(),
    {
        TrackedConnectionTasks { shutting_down: false, handles: Vec::new() }
    }

    /// Keeps a new task, or gives it back to be aborted where the listener has been
    /// shut down.
    pub fn register_tracked_connection(&mut self, handle: H) -> (r: Option<H>)
        ensures
            final(self).is_shut_down() == old(self).is_shut_down(),
            if old(self).is_shut_down() {
                r == Some(handle) && final(self).kept() == old(self).kept()
            } else {
                r is None && final(self).kept() == old(self).kept().push(handle)
            },
    {
        if self.shutting_down {
            Some(handle)
        } else {
            self.handles.push(handle);
            None
        }
    }

    /// Shuts the listener down, and gives back every task to be aborted.
    pub fn abort_tracked_connections(&mut self) -> (r: Vec<H>)
        ensures
            final(self).is_shut_down(),
            final(self).kept() == Seq::<H>::empty(),
            r@ == old(self).kept(),
    {
        self.shutting_down = true;
        let mut handles: Vec<H> = Vec::new();
        std::mem::swap(&mut handles, &mut self.handles);
        handles
    }
}

} // verus!
