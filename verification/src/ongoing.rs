use vstd::prelude::*;

verus! {

/// The slot that guards long-running operations: at most one runs at a time,
/// and a running one can be asked to stop.
#[derive(Clone, Copy, Debug, PartialEq, Eq, Structural)]
pub struct OngoingState {
    pub running: bool,
    pub cancel_requested: bool,
}

impl OngoingState {
    /// A free slot.
    pub fn new() -> (r: Self)
        ensures
            !r.running,
            !r.cancel_requested,
    {
        OngoingState { running: false, cancel_requested: false }
    }

    /// Whether an operation holds the slot.
    pub fn has_ongoing(&self) -> (r: bool)
        ensures
            r == self.running,
    {
        self.running
    }

    /// Takes the slot if it is free. Returns whether it was taken; a taken
    /// slot starts without a pending stop request.
    pub fn alloc_ongoing(&mut self) -> (r: bool)
        ensures
            r == !old(self).running,
            r ==> final(self).running && !final(self).cancel_requested,
            !r ==> *final(self) == *old(self),
    {
        if self.running {
            false
        } else {
            self.running = true;
            self.cancel_requested = false;
            true
        }
    }

    /// Releases the slot and clears any stop request.
    pub fn free_ongoing(&mut self)
        ensures
            !final(self).running,
            !final(self).cancel_requested,
    {
        self.running = false;
        self.cancel_requested = false;
    }

    /// Asks the running operation to stop; without one there is nothing to stop.
    pub fn stop_ongoing(&mut self)
        ensures
            final(self).running == old(self).running,
            final(self).cancel_requested == (old(self).running || old(self).cancel_requested),
    {
        if self.running {
            self.cancel_requested = true;
        }
    }

    /// Whether the running operation has been asked to stop.
    pub fn shall_stop_ongoing(&self) -> (r: bool)
        ensures
            r == self.cancel_requested,
    {
        self.cancel_requested
    }
}

} // verus!
