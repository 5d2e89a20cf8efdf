//! Launch scheduling: a sliding window that launches producer workers
//! for tasks in submission order and never lets more than the configured
//! limit be in flight (launched but not yet joined) at once.

use vstd::prelude::*;

verus! {

/// The launch window over an ordered run of tasks. Workers are launched
/// in order `0, 1, 2, ...` and joined in the same order; the window
/// keeps `launched - joined` at or under `limit`.
pub struct Scheduler {
    /// How many tasks the run has in all.
    pub total: usize,
    /// Largest number of workers allowed in flight at once.
    pub limit: usize,
    /// Tasks whose worker has been launched: exactly `0 .. launched`.
    pub launched: usize,
    /// Tasks whose worker has been joined: exactly `0 .. joined`.
    pub joined: usize,
}

impl Scheduler {
    /// Workers launched and not yet joined.
    pub open spec fn in_flight(self) -> int {
        self.launched - self.joined
    }

    /// Launches happen in order, joins happen in order, and the window
    /// never exceeds the limit.
    pub open spec fn wf(self) -> bool {
        &&& self.limit >= 1
        &&& self.joined <= self.launched <= self.total
        &&& self.in_flight() <= self.limit
    }

    pub fn new(total: usize, limit: usize) -> (r: Scheduler)
        requires
            limit >= 1,
        ensures
            r.wf(),
            r.total == total,
            r.limit == limit,
            r.launched == 0,
            r.joined == 0,
    {
        Scheduler { total, limit, launched: 0, joined: 0 }
    }

    /// Whether one more task may be launched now: tasks remain and a
    /// window slot is free.
    pub fn can_launch(&self) -> (r: bool)
        requires
            self.wf(),
        ensures
            r == (self.launched < self.total && self.in_flight() < self.limit),
    {
        self.launched < self.total && self.launched - self.joined < self.limit
    }

    /// Launches the next task in submission order.
    pub fn launch(&mut self)
        requires
            old(self).wf(),
            old(self).launched < old(self).total,
            old(self).in_flight() < old(self).limit,
        ensures
            final(self).wf(),
            final(self).launched == old(self).launched + 1,
            final(self).joined == old(self).joined,
            final(self).total == old(self).total,
            final(self).limit == old(self).limit,
    {
        self.launched = self.launched + 1;
    }

    /// Joins the oldest in-flight worker, freeing a window slot.
    pub fn join(&mut self)
        requires
            old(self).wf(),
            old(self).joined < old(self).launched,
        ensures
            final(self).wf(),
            final(self).joined == old(self).joined + 1,
            final(self).launched == old(self).launched,
            final(self).total == old(self).total,
            final(self).limit == old(self).limit,
    {
        self.joined = self.joined + 1;
    }

    /// Law: the concurrency bound. However the scheduler is driven, a
    /// well-formed state never has more than `limit` workers in flight,
    /// and every operation above preserves well-formedness.
    pub proof fn lemma_concurrency_bound(self)
        requires
            self.wf(),
        ensures
            self.in_flight() <= self.limit,
    {
    }
}

} // verus!
