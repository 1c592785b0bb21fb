use vstd::prelude::*;

use std::collections::VecDeque;

verus! {

/// Requests waiting in two lanes: every high-priority request leaves before any
/// normal one, and each lane keeps the order of arrival.
#[derive(Debug)]
pub struct PriorityRequestQueue<T> {
    high_priority: VecDeque<T>,
    normal_priority: VecDeque<T>,
    max_concurrent: usize,
}

impl<T> PriorityRequestQueue<T> {
    /// The waiting high-priority requests, oldest first.
    pub closed spec fn high(&self) -> Seq<T> {
        self.high_priority@
    }

    /// The waiting normal requests, oldest first.
    pub closed spec fn normal(&self) -> Seq<T> {
        self.normal_priority@
    }

    /// How many requests may run at once.
    pub closed spec fn concurrency(&self) -> nat {
        self.max_concurrent as nat
    }

    pub fn new(max_concurrent: usize) -> (r: PriorityRequestQueue<T>)
        ensures
            r.high().len() == 0,
            r.normal().len() == 0,
            r.concurrency() == max_concurrent,
    {
        PriorityRequestQueue {
            high_priority: VecDeque::new(),
            normal_priority: VecDeque::new(),
            max_concurrent,
        }
    }

    /// How many requests may run at once.
    pub fn max_concurrent(&self) -> (r: usize)
        ensures
            r == self.concurrency(),
    {
        self.max_concurrent
    }

    /// Adds a request at the back of its lane.
    pub fn enqueue(&mut self, request: T, high_priority: bool)
        ensures
            final(self).concurrency() == old(self).concurrency(),
            high_priority ==> final(self).high() == old(self).high().push(request) && final(self).normal() == old(self).normal(),
            !high_priority ==> final(self).normal() == old(self).normal().push(request) && final(self).high() == old(self).high(),
    {
        if high_priority {
            self.high_priority.push_back(request);
        } else {
            self.normal_priority.push_back(request);
        }
    }

    /// Takes the oldest high-priority request, else the oldest normal one.
    pub fn dequeue(&mut self) -> (r: Option<T>)
        ensures
            final(self).concurrency() == old(self).concurrency(),
            old(self).high().len() > 0 ==> r == Some(old(self).high()[0]) && final(self).high()
                == old(self).high().drop_first() && final(self).normal() == old(self).normal(),
            old(self).high().len() == 0 && old(self).normal().len() > 0 ==> r == Some(
                old(self).normal()[0],
            ) && final(self).normal() == old(self).normal().drop_first() && final(self).high()
                == old(self).high(),
            old(self).high().len() == 0 && old(self).normal().len() == 0 ==> r is None && final(self).high() == old(self).high() && final(self).normal() == old(self).normal(),
    {
        if self.high_priority.len() > 0 {
            return self.high_priority.pop_front();
        }
        self.normal_priority.pop_front()
    }

    /// The number of waiting requests in each lane, high first.
    pub fn queue_sizes(&self) -> (r: (usize, usize))
        ensures
            r.0 == self.high().len(),
            r.1 == self.normal().len(),
    {
        (self.high_priority.len(), self.normal_priority.len())
    }
}

} // verus!
