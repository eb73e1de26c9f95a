//! The process-wide scheduler: aggregators ordered by wake time.
//!
//! Aggregators are identified by their index in the caller's list. The caller
//! asks `next_action` what to do, runs the aggregators it is told to start,
//! and reports each run through `complete`; an aggregator that yields with
//! `PendingUntil(t)` waits in the queue until `t`.
use vstd::prelude::*;

use crate::{AggregateStatus, AggregatorError};

verus! {

/// An aggregator waiting in the queue.
#[derive(Debug, Clone, Copy, PartialEq, Eq, Structural)]
pub struct ScheduledAggregator {
    pub aggregator: usize,
    pub wake_time: i64,
}

/// What the scheduler's loop does next.
#[derive(Debug, Clone, Copy, PartialEq, Eq, Structural)]
pub enum SchedulerAction {
    /// Run this aggregator now.
    Start(usize),
    /// Wait until this instant, or until a running aggregator completes.
    SleepUntil(i64),
    /// Nothing is queued: wait until a running aggregator completes.
    AwaitCompletion,
    /// Nothing is queued or running: the scheduler is done.
    Exit,
}

pub struct SchedulerState {
    pub queue: Seq<ScheduledAggregator>,
    pub active: Seq<usize>,
    /// Whether some run ended in an error.
    pub failed: bool,
}

/// Whether `m` is the first entry with the earliest wake time.
pub open spec fn is_head(q: Seq<ScheduledAggregator>, m: int) -> bool {
    &&& 0 <= m < q.len()
    &&& forall|j: int| 0 <= j < q.len() ==> q[m].wake_time <= #[trigger] q[j].wake_time
    &&& forall|j: int| 0 <= j < m ==> q[m].wake_time < #[trigger] q[j].wake_time
}

pub struct Scheduler {
    queue: Vec<ScheduledAggregator>,
    active: Vec<usize>,
    failed: bool,
}

impl View for Scheduler {
    type V = SchedulerState;

    closed spec fn view(&self) -> SchedulerState {
        SchedulerState { queue: self.queue@, active: self.active@, failed: self.failed }
    }
}

impl Scheduler {
    pub fn new() -> (r: Scheduler)
        ensures
            r@.queue.len() == 0,
            r@.active.len() == 0,
            !r@.failed,
    {
        Scheduler { queue: Vec::new(), active: Vec::new(), failed: false }
    }

    /// Queues `aggregator` to wake at `wake_time`.
    pub fn push(&mut self, aggregator: usize, wake_time: i64)
        ensures
            final(self)@ == (SchedulerState {
                queue: old(self)@.queue.push(ScheduledAggregator { aggregator, wake_time }),
                ..old(self)@
            }),
    {
        self.queue.push(ScheduledAggregator { aggregator, wake_time });
    }

    /// The index of the first queued entry with the earliest wake time.
    fn head(&self) -> (m: usize)
        requires
            self@.queue.len() > 0,
        ensures
            is_head(self@.queue, m as int),
    {
        let mut m: usize = 0;
        let mut i: usize = 1;
        while i < self.queue.len()
            invariant
                1 <= i <= self.queue@.len(),
                0 <= m < i,
                forall|j: int| 0 <= j < i ==> self.queue@[m as int].wake_time <= #[trigger] self.queue@[j].wake_time,
                forall|j: int| 0 <= j < m ==> self.queue@[m as int].wake_time < #[trigger] self.queue@[j].wake_time,
            decreases self.queue@.len() - i,
        {
            if self.queue[i].wake_time < self.queue[m].wake_time {
                m = i;
            }
            i = i + 1;
        }
        m
    }

    /// Decides the next step at instant `now`: start the head of the queue if
    /// it is due, else sleep until it is, else wait for running aggregators,
    /// else exit.
    pub fn next_action(&mut self, now: i64) -> (r: SchedulerAction)
        ensures
            old(self)@.queue.len() == 0 ==> final(self)@ == old(self)@ && r == if old(
                self,
            )@.active.len() == 0 {
                SchedulerAction::Exit
            } else {
                SchedulerAction::AwaitCompletion
            },
            old(self)@.queue.len() > 0 ==> exists|m: int|
                is_head(old(self)@.queue, m) && if old(self)@.queue[m].wake_time > now {
                    r == SchedulerAction::SleepUntil(old(self)@.queue[m].wake_time) && final(self)@ == old(
                        self,
                    )@
                } else {
                    &&& r == SchedulerAction::Start(old(self)@.queue[m].aggregator)
                    &&& final(self)@ == (SchedulerState {
                        queue: old(self)@.queue.remove(m),
                        active: old(self)@.active.push(old(self)@.queue[m].aggregator),
                        ..old(self)@
                    })
                },
    {
        if self.queue.len() == 0 {
            if self.active.len() == 0 {
                return SchedulerAction::Exit;
            } else {
                return SchedulerAction::AwaitCompletion;
            }
        }
        let m = self.head();
        let ghost before = self@;
        let task = self.queue[m];
        if task.wake_time > now {
            assert(is_head(before.queue, m as int));
            SchedulerAction::SleepUntil(task.wake_time)
        } else {
            self.queue.remove(m);
            self.active.push(task.aggregator);
            assert(is_head(before.queue, m as int));
            SchedulerAction::Start(task.aggregator)
        }
    }

    /// Records the end of a run of `aggregator`: a yield queues it again at
    /// the instant it named, a finished run drops it, an error is remembered.
    pub fn complete(&mut self, aggregator: usize, result: &Result<AggregateStatus, AggregatorError>)
        ensures
            (forall|i: int| 0 <= i < old(self)@.active.len() ==> old(self)@.active[i] != aggregator)
                ==> final(self)@.active == old(self)@.active,
            (exists|i: int| 0 <= i < old(self)@.active.len() && old(self)@.active[i] == aggregator)
                ==> exists|i: int|
                0 <= i < old(self)@.active.len() && old(self)@.active[i] == aggregator
                    && final(self)@.active == old(self)@.active.remove(i),
            final(self)@.queue == match result {
                Ok(AggregateStatus::PendingUntil(t)) => old(self)@.queue.push(
                    ScheduledAggregator { aggregator, wake_time: *t },
                ),
                _ => old(self)@.queue,
            },
            final(self)@.failed == (old(self)@.failed || result is Err),
    {
        let mut i: usize = 0;
        while i < self.active.len()
            invariant
                i <= self.active@.len(),
                forall|j: int| 0 <= j < i ==> self.active@[j] != aggregator,
            ensures
                i <= self.active@.len(),
                forall|j: int| 0 <= j < i ==> self.active@[j] != aggregator,
                i < self.active@.len() ==> self.active@[i as int] == aggregator,
            decreases self.active@.len() - i,
        {
            if self.active[i] == aggregator {
                break;
            }
            i = i + 1;
        }
        if i < self.active.len() {
            self.active.remove(i);
        }
        match result {
            Ok(AggregateStatus::PendingUntil(t)) => {
                self.queue.push(ScheduledAggregator { aggregator, wake_time: *t });
            },
            Ok(AggregateStatus::Finished) => {},
            Err(_) => {
                self.failed = true;
            },
        }
    }

    /// Whether every run so far ended without error, so that the sweep's
    /// watermark may be recorded once the scheduler exits.
    pub fn all_succeeded(&self) -> (r: bool)
        ensures
            r == !self@.failed,
    {
        !self.failed
    }
}

} // verus!
