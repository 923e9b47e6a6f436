//! The bounded channel from the subscriber to the notifier.
//!
//! Delivered sub-DAGs wait here, in commit order, until the notifier
//! consumes them. The channel never holds more than its capacity: a push
//! into a full channel hands the sub-DAG back untouched — backpressure
//! blocks the producer, it never drops committed data.

use vstd::prelude::*;

use crate::types::Batch;

verus! {

/// One fully resolved sub-DAG as handed to the notifier: its commit round
/// and its batches, grouped per certificate in certificate order.
#[derive(Debug)]
pub struct DeliveredSubDag {
    pub round: u64,
    pub groups: Vec<Vec<Batch>>,
}

/// Bounded FIFO of delivered sub-DAGs awaiting execution.
#[derive(Debug)]
pub struct NotifierChannel {
    pub capacity: usize,
    pub items: Vec<DeliveredSubDag>,
}

impl NotifierChannel {
    /// Backpressure safety: never more than `capacity` delivered-but-
    /// unconsumed sub-DAGs.
    pub open spec fn wf(self) -> bool {
        &&& self.capacity >= 1
        &&& self.items@.len() <= self.capacity
    }

    /// An empty channel of the configured capacity.
    pub fn new(capacity: usize) -> (r: Self)
        requires
            capacity >= 1,
        ensures
            r.wf(),
            r.capacity == capacity,
            r.items@.len() == 0,
    {
        NotifierChannel { capacity, items: Vec::new() }
    }

    /// Current occupancy (the notifier-channel gauge).
    pub fn occupancy(&self) -> (r: usize)
        ensures
            r == self.items@.len(),
    {
        self.items.len()
    }

    /// Whether a push would block.
    pub fn is_full(&self) -> (r: bool)
        ensures
            r == (self.items@.len() >= self.capacity),
    {
        self.items.len() >= self.capacity
    }

    /// Appends `d` when room remains; a full channel returns `d` unchanged
    /// and keeps its contents — the caller must retry, nothing is dropped.
    pub fn try_push(&mut self, d: DeliveredSubDag) -> (r: Option<DeliveredSubDag>)
        requires
            old(self).wf(),
        ensures
            final(self).wf(),
            final(self).capacity == old(self).capacity,
            old(self).items@.len() < old(self).capacity ==> r is None && final(self).items@
                == old(self).items@.push(d),
            old(self).items@.len() >= old(self).capacity ==> (r matches Some(back) && back == d)
                && final(self).items@ == old(self).items@,
    {
        if self.items.len() < self.capacity {
            self.items.push(d);
            None
        } else {
            Some(d)
        }
    }

    /// Takes the oldest delivered sub-DAG, in FIFO order.
    pub fn pop_front(&mut self) -> (r: Option<DeliveredSubDag>)
        requires
            old(self).wf(),
        ensures
            final(self).wf(),
            final(self).capacity == old(self).capacity,
            old(self).items@.len() == 0 ==> r is None && final(self).items@ == old(self).items@,
            old(self).items@.len() > 0 ==> (r matches Some(front) && front
                == old(self).items@[0]) && final(self).items@ == old(self).items@.drop_first(),
    {
        if self.items.len() == 0 {
            None
        } else {
            let front = self.items.remove(0);
            proof {
                assert(self.items@ =~= old(self).items@.drop_first());
            }
            Some(front)
        }
    }
}

/// Backpressure safety: a well-formed channel holds at most `capacity`
/// delivered-but-unconsumed sub-DAGs, and a push into a full channel leaves
/// the channel as it was, handing the sub-DAG back rather than dropping it
/// (that is `try_push`'s contract on a full channel).
pub proof fn lemma_backpressure(ch: NotifierChannel)
    requires
        ch.wf(),
    ensures
        ch.items@.len() <= ch.capacity,
{
}

} // verus!
