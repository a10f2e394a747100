//! What one account keeps together: its database, the slot for its one
//! long-running operation, and its queue of jobs.

use vstd::prelude::*;
use crate::job::{count_of, without, Action, Job, JobQueue};
use crate::ongoing::OngoingState;
use crate::sql::Sql;

verus! {

pub struct Context {
    pub sql: Sql,
    pub ongoing: OngoingState,
    pub jobs: JobQueue,
}

impl Context {
    pub open spec fn wf(&self) -> bool {
        self.sql.wf() && self.jobs.wf()
    }

    /// An account with a closed database, a free slot and no jobs.
    pub fn new() -> (r: Context)
        ensures
            r.wf(),
            !r.sql.opened(),
            !r.ongoing.running,
            !r.ongoing.cancel_requested,
            r.jobs.jobs() == Seq::<Job>::empty(),
    {
        Context { sql: Sql::new(), ongoing: OngoingState::new(), jobs: JobQueue::new() }
    }

    /// Whether a long-running operation holds the slot.
    pub fn has_ongoing(&self) -> (r: bool)
        ensures
            r == self.ongoing.running,
    {
        self.ongoing.has_ongoing()
    }

    /// Takes the slot for a long-running operation, if it is free.
    pub fn alloc_ongoing(&mut self) -> (r: bool)
        ensures
            r == !old(self).ongoing.running,
            r ==> final(self).ongoing.running && !final(self).ongoing.cancel_requested,
            !r ==> final(self).ongoing == old(self).ongoing,
            final(self).sql == old(self).sql,
            final(self).jobs == old(self).jobs,
    {
        self.ongoing.alloc_ongoing()
    }

    /// Releases the slot.
    pub fn free_ongoing(&mut self)
        ensures
            !final(self).ongoing.running,
            !final(self).ongoing.cancel_requested,
            final(self).sql == old(self).sql,
            final(self).jobs == old(self).jobs,
    {
        self.ongoing.free_ongoing()
    }

    /// Asks the running operation to stop.
    pub fn stop_ongoing(&mut self)
        ensures
            final(self).ongoing.running == old(self).ongoing.running,
            final(self).ongoing.cancel_requested == (old(self).ongoing.running
                || old(self).ongoing.cancel_requested),
            final(self).sql == old(self).sql,
            final(self).jobs == old(self).jobs,
    {
        self.ongoing.stop_ongoing()
    }

    /// Whether the running operation has been asked to stop.
    pub fn shall_stop_ongoing(&self) -> (r: bool)
        ensures
            r == self.ongoing.cancel_requested,
    {
        self.ongoing.shall_stop_ongoing()
    }

    /// Starts a configuration: puts its job in the queue, in place of one
    /// that waits there already. While a long-running operation holds the
    /// slot nothing is queued. Either way at most one configuration waits.
    pub fn configure(&mut self)
        requires
            old(self).wf(),
        ensures
            final(self).wf(),
            final(self).sql == old(self).sql,
            final(self).ongoing == old(self).ongoing,
            old(self).ongoing.running ==> final(self).jobs.jobs() == old(self).jobs.jobs(),
            !old(self).ongoing.running ==> final(self).jobs.jobs() == without(
                old(self).jobs.jobs(),
                Action::ConfigureImap,
            ).push(Job { action: Action::ConfigureImap, foreign_id: 0 }),
            !old(self).ongoing.running ==> count_of(final(self).jobs.jobs(), Action::ConfigureImap)
                == 1,
            count_of(final(self).jobs.jobs(), Action::ConfigureImap) <= 1,
    {
        proof {
            self.jobs.lemma_one_configuration();
        }
        if self.has_ongoing() {
            return ;
        }
        self.jobs.replace_configure();
    }

    /// Whether the account has been configured with success.
    pub fn is_configured(&self) -> (r: bool)
        requires
            self.wf(),
        ensures
            r == self.sql.raw_bool("configured"@),
    {
        self.sql.get_raw_config_bool("configured")
    }
}

} // verus!
