//! Bookkeeping of a bounded-concurrency batch run: how many pipelines
//! may be in flight, how many targets have completed, and when a
//! progress line is due.

use vstd::prelude::*;

verus! {

/// A progress line is emitted after every this many completions.
pub const PROGRESS_INTERVAL: usize = 1000;

/// A progress line: how many targets are done out of how many, and the
/// whole percentage completed.
#[derive(Debug, Clone, Copy, PartialEq, Eq, Structural)]
pub struct Progress {
    pub done: usize,
    pub total: usize,
    pub percent: usize,
}

/// Counters of a batch run under a fixed concurrency limit.
///
/// Pipelines are launched only while fewer than `limit` are in flight;
/// each launched pipeline completes exactly once, in any order.
pub struct ConcurrencyEngine {
    limit: usize,
    total: usize,
    launched: usize,
    completed: usize,
}

impl ConcurrencyEngine {
    /// The configured ceiling on simultaneously in-flight pipelines.
    pub closed spec fn limit(&self) -> int {
        self.limit as int
    }

    /// How many targets the batch holds.
    pub closed spec fn total(&self) -> int {
        self.total as int
    }

    /// How many pipelines have been launched so far.
    pub closed spec fn launched(&self) -> int {
        self.launched as int
    }

    /// How many pipelines have completed so far.
    pub closed spec fn completed(&self) -> int {
        self.completed as int
    }

    /// How many pipelines are in flight right now.
    pub open spec fn in_flight(&self) -> int {
        self.launched() - self.completed()
    }

    /// Every reachable state of the engine satisfies this.
    pub open spec fn wf(&self) -> bool {
        &&& 1 <= self.limit()
        &&& 0 <= self.completed() <= self.launched() <= self.total()
        &&& self.in_flight() <= self.limit()
    }

    /// A fresh engine for a batch of `total` targets, none launched yet.
    pub fn new(limit: usize, total: usize) -> (r: ConcurrencyEngine)
        requires
            limit >= 1,
        ensures
            r.wf(),
            r.limit() == limit as int,
            r.total() == total as int,
            r.launched() == 0,
            r.completed() == 0,
    {
        ConcurrencyEngine { limit, total, launched: 0, completed: 0 }
    }

    /// Launch one more pipeline if a target remains and the in-flight
    /// ceiling allows it; report whether one was launched.
    pub fn try_launch(&mut self) -> (launched: bool)
        requires
            old(self).wf(),
        ensures
            final(self).wf(),
            launched == (old(self).in_flight() < old(self).limit() && old(self).launched() < old(
                self,
            ).total()),
            launched ==> final(self).launched() == old(self).launched() + 1,
            !launched ==> final(self).launched() == old(self).launched(),
            final(self).completed() == old(self).completed(),
            final(self).limit() == old(self).limit(),
            final(self).total() == old(self).total(),
            final(self).in_flight() <= final(self).limit(),
    {
        if self.launched - self.completed < self.limit && self.launched < self.total {
            self.launched = self.launched + 1;
            true
        } else {
            false
        }
    }

    /// Record one completed pipeline; every `PROGRESS_INTERVAL`th
    /// completion is due a progress line with the whole percentage done.
    pub fn complete_one(&mut self) -> (progress: Option<Progress>)
        requires
            old(self).wf(),
            old(self).in_flight() > 0,
        ensures
            final(self).wf(),
            final(self).completed() == old(self).completed() + 1,
            final(self).launched() == old(self).launched(),
            final(self).limit() == old(self).limit(),
            final(self).total() == old(self).total(),
            (progress is Some) == ((old(self).completed() + 1) % (PROGRESS_INTERVAL as int) == 0),
            progress matches Some(p) ==> p.done == old(self).completed() + 1 && p.total == old(
                self,
            ).total() && p.percent == (old(self).completed() + 1) * 100 / old(self).total(),
    {
        self.completed = self.completed + 1;
        if self.completed % PROGRESS_INTERVAL == 0 {
            let done_wide = self.completed as u128;
            let total_wide = self.total as u128;
            let percent_wide = done_wide * 100 / total_wide;
            proof {
                let d = done_wide as int;
                let t = total_wide as int;
                assert(d * 100 <= t * 100) by (nonlinear_arith)
                    requires
                        0 <= d <= t,
                ;
                assert(d * 100 / t <= 100) by (nonlinear_arith)
                    requires
                        0 < t,
                        d * 100 <= t * 100,
                ;
            }
            let percent = percent_wide as usize;
            Some(Progress { done: self.completed, total: self.total, percent })
        } else {
            None
        }
    }

    /// How many pipelines are in flight right now.
    pub fn in_flight_count(&self) -> (r: usize)
        requires
            self.wf(),
        ensures
            r as int == self.in_flight(),
    {
        self.launched - self.completed
    }

    /// Whether every target of the batch has completed; the engine
    /// terminates exactly then, however many targets failed.
    pub fn all_done(&self) -> (r: bool)
        ensures
            r == (self.completed() == self.total()),
    {
        self.completed == self.total
    }
}

/// In-flight pipelines never exceed the configured limit, in any
/// well-formed engine state.
pub proof fn lemma_in_flight_bounded(e: ConcurrencyEngine)
    requires
        e.wf(),
    ensures
        e.in_flight() <= e.limit(),
{
}

} // verus!
