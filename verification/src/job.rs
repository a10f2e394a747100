//! The queue of background jobs, as far as starting a configuration needs it.

use vstd::prelude::*;

verus! {

/// What a job does.
#[derive(Clone, Copy, Debug, PartialEq, Eq, Structural)]
pub enum Action {
    /// Work out and verify the settings of the account.
    ConfigureImap,
    /// Export or import a backup or keys.
    ImexImap,
    /// Delete files that nothing refers to.
    Housekeeping,
}

/// One job that waits to be run.
#[derive(Clone, Copy, Debug, PartialEq, Eq, Structural)]
pub struct Job {
    pub action: Action,
    pub foreign_id: u32,
}

/// How many of the jobs `s` do `action`.
pub open spec fn count_of(s: Seq<Job>, action: Action) -> nat
    decreases s.len(),
{
    if s.len() == 0 {
        0
    } else {
        count_of(s.drop_last(), action) + if s.last().action == action {
            1nat
        } else {
            0nat
        }
    }
}

/// The jobs `s` without those that do `action`, in their order.
pub open spec fn without(s: Seq<Job>, action: Action) -> Seq<Job>
    decreases s.len(),
{
    if s.len() == 0 {
        Seq::empty()
    } else if s.last().action == action {
        without(s.drop_last(), action)
    } else {
        without(s.drop_last(), action).push(s.last())
    }
}

/// Taking out the jobs of one kind leaves none of that kind and all of every
/// other kind.
pub proof fn lemma_without(s: Seq<Job>, action: Action, other: Action)
    ensures
        count_of(without(s, action), action) == 0,
        other != action ==> count_of(without(s, action), other) == count_of(s, other),
    decreases s.len(),
{
    if s.len() > 0 {
        lemma_without(s.drop_last(), action, other);
        if s.last().action != action {
            let w = without(s.drop_last(), action).push(s.last());
            assert(w.drop_last() =~= without(s.drop_last(), action));
        }
    }
}

/// The jobs that wait to be run, oldest first. At most one of them is a
/// configuration.
pub struct JobQueue {
    jobs: Vec<Job>,
}

impl JobQueue {
    pub closed spec fn wf(&self) -> bool {
        count_of(self.jobs@, Action::ConfigureImap) <= 1
    }

    /// The waiting jobs, oldest first.
    pub closed spec fn jobs(&self) -> Seq<Job> {
        self.jobs@
    }

    /// A configuration never waits twice.
    pub proof fn lemma_one_configuration(&self)
        requires
            self.wf(),
        ensures
            count_of(self.jobs(), Action::ConfigureImap) <= 1,
    {
    }

    /// An empty queue.
    pub fn new() -> (r: JobQueue)
        ensures
            r.wf(),
            r.jobs() == Seq::<Job>::empty(),
    {
        JobQueue { jobs: Vec::new() }
    }

    /// How many jobs wait.
    pub fn len(&self) -> (r: usize)
        ensures
            r == self.jobs().len(),
    {
        self.jobs.len()
    }

    /// How many of the waiting jobs do `action`.
    pub fn count(&self, action: Action) -> (r: usize)
        ensures
            r == count_of(self.jobs(), action),
    {
        let mut n: usize = 0;
        let mut i: usize = 0;
        assert(self.jobs@.subrange(0, 0) =~= Seq::empty());
        while i < self.jobs.len()
            invariant
                i <= self.jobs@.len(),
                n <= i,
                n == count_of(self.jobs@.subrange(0, i as int), action),
            decreases self.jobs@.len() - i,
        {
            proof {
                let next = self.jobs@.subrange(0, i + 1);
                assert(next.drop_last() =~= self.jobs@.subrange(0, i as int));
                assert(next.last() == self.jobs@[i as int]);
            }
            if self.jobs[i].action == action {
                n += 1;
            }
            i += 1;
        }
        assert(self.jobs@.subrange(0, i as int) =~= self.jobs@);
        n
    }

    /// Takes every job that does `action` out of the queue.
    pub fn kill_action(&mut self, action: Action)
        requires
            old(self).wf(),
        ensures
            final(self).wf(),
            final(self).jobs() == without(old(self).jobs(), action),
    {
        let mut kept: Vec<Job> = Vec::new();
        let mut i: usize = 0;
        assert(self.jobs@.subrange(0, 0) =~= Seq::empty());
        while i < self.jobs.len()
            invariant
                i <= self.jobs@.len(),
                self.jobs@ == old(self).jobs@,
                kept@ == without(self.jobs@.subrange(0, i as int), action),
            decreases self.jobs@.len() - i,
        {
            proof {
                let next = self.jobs@.subrange(0, i + 1);
                assert(next.drop_last() =~= self.jobs@.subrange(0, i as int));
                assert(next.last() == self.jobs@[i as int]);
            }
            if self.jobs[i].action != action {
                kept.push(self.jobs[i]);
            }
            i += 1;
        }
        proof {
            assert(self.jobs@.subrange(0, i as int) =~= self.jobs@);
            lemma_without(self.jobs@, action, Action::ConfigureImap);
        }
        self.jobs = kept;
    }

    /// Puts a configuration at the end of the queue, in place of any that
    /// waits there already.
    pub fn replace_configure(&mut self)
        requires
            old(self).wf(),
        ensures
            final(self).wf(),
            final(self).jobs() == without(old(self).jobs(), Action::ConfigureImap).push(
                Job { action: Action::ConfigureImap, foreign_id: 0 },
            ),
            count_of(final(self).jobs(), Action::ConfigureImap) == 1,
    {
        self.add(Action::ConfigureImap, 0);
        proof {
            lemma_without(old(self).jobs@, Action::ConfigureImap, Action::ConfigureImap);
            assert(self.jobs@.drop_last() =~= without(old(self).jobs@, Action::ConfigureImap));
        }
    }

    /// Puts a job at the end of the queue. A configuration takes the place of
    /// any that waits there already.
    pub fn add(&mut self, action: Action, foreign_id: u32)
        requires
            old(self).wf(),
        ensures
            final(self).wf(),
            final(self).jobs() == if action == Action::ConfigureImap {
                without(old(self).jobs(), Action::ConfigureImap).push(Job { action, foreign_id })
            } else {
                old(self).jobs().push(Job { action, foreign_id })
            },
    {
        if action == Action::ConfigureImap {
            self.kill_action(Action::ConfigureImap);
            proof {
                lemma_without(old(self).jobs@, Action::ConfigureImap, Action::ConfigureImap);
            }
        }
        let ghost before = self.jobs@;
        self.jobs.push(Job { action, foreign_id });
        assert(self.jobs@.drop_last() =~= before);
    }

    /// Takes the oldest job out of the queue.
    pub fn take_next(&mut self) -> (r: Option<Job>)
        requires
            old(self).wf(),
        ensures
            final(self).wf(),
            old(self).jobs().len() == 0 ==> r is None && final(self).jobs() == old(self).jobs(),
            old(self).jobs().len() > 0 ==> r == Some(old(self).jobs()[0]) && final(self).jobs()
                == old(self).jobs().drop_first(),
    {
        if self.jobs.len() == 0 {
            None
        } else {
            let job = self.jobs.remove(0);
            proof {
                assert(self.jobs@ =~= old(self).jobs@.drop_first());
                lemma_count_drop_first(old(self).jobs@, Action::ConfigureImap);
            }
            Some(job)
        }
    }
}

/// Without its first job a queue holds no more jobs of any kind than before.
pub proof fn lemma_count_drop_first(s: Seq<Job>, action: Action)
    requires
        s.len() > 0,
    ensures
        count_of(s.drop_first(), action) <= count_of(s, action),
    decreases s.len(),
{
    if s.len() == 1 {
        assert(s.drop_first() =~= Seq::empty());
    } else {
        lemma_count_drop_first(s.drop_last(), action);
        assert(s.drop_first().drop_last() =~= s.drop_last().drop_first());
        assert(s.drop_first().last() == s.last());
    }
}

} // verus!
