//! The hand-off queue between submitters and workers.

use std::collections::VecDeque;
use vstd::prelude::*;

use crate::error::{SendError, TryReceiveError};

verus! {

/// What a hand-off queue holds, as a mathematical value.
pub struct QueueState<J> {
    /// Jobs admitted and not yet claimed, oldest first.
    pub jobs: Seq<J>,
    /// Whether the producer handle is still alive.
    pub producer_open: bool,
    /// Whether the consumer endpoint is still alive.
    pub consumer_open: bool,
}

impl<J> QueueState<J> {
    /// A fresh queue: nothing queued, both ends alive.
    pub open spec fn init() -> Self {
        QueueState { jobs: Seq::empty(), producer_open: true, consumer_open: true }
    }

    /// A queue whose consumer is gone holds nothing: undelivered jobs leave
    /// with the consumer endpoint.
    pub open spec fn wf(self) -> bool {
        !self.consumer_open ==> self.jobs.len() == 0
    }

    /// Whether a job sent now would be admitted.
    pub open spec fn accepts(self) -> bool {
        self.producer_open && self.consumer_open
    }

    /// No job is queued and none can arrive any more.
    pub open spec fn disconnected(self) -> bool {
        self.jobs.len() == 0 && !self.accepts()
    }

    /// The queue after `job` was offered to it.
    pub open spec fn send(self, job: J) -> Self {
        if self.accepts() {
            QueueState { jobs: self.jobs.push(job), ..self }
        } else {
            self
        }
    }

    /// The queue after one receive attempt.
    pub open spec fn receive(self) -> Self {
        if self.jobs.len() > 0 {
            QueueState { jobs: self.jobs.skip(1), ..self }
        } else {
            self
        }
    }

    /// The queue after the producer handle was dropped.
    pub open spec fn close_producer(self) -> Self {
        QueueState { producer_open: false, ..self }
    }

    /// The queue after the consumer endpoint was dropped.
    pub open spec fn close_consumer(self) -> Self {
        QueueState { jobs: Seq::empty(), consumer_open: false, ..self }
    }
}

/// An unbounded first-in first-out queue of jobs with one producer handle
/// and one consumer endpoint.
pub struct HandoffQueue<J> {
    jobs: VecDeque<J>,
    producer_open: bool,
    consumer_open: bool,
}

impl<J> View for HandoffQueue<J> {
    type V = QueueState<J>;

    closed spec fn view(&self) -> QueueState<J> {
        QueueState {
            jobs: self.jobs@,
            producer_open: self.producer_open,
            consumer_open: self.consumer_open,
        }
    }
}

impl<J> HandoffQueue<J> {
    /// Creates an empty queue with both ends alive.
    pub fn new() -> (queue: Self)
        ensures
            queue@ == QueueState::<J>::init(),
            queue@.wf(),
    {
        HandoffQueue { jobs: VecDeque::new(), producer_open: true, consumer_open: true }
    }

    /// Offers `job` to the queue without waiting. The job is appended behind
    /// every job already queued, unless an end of the queue is gone: then
    /// the queue is left as it was and the job comes back in the error.
    pub fn send(&mut self, job: J) -> (result: Result<(), SendError<J>>)
        ensures
            final(self)@ == old(self)@.send(job),
            old(self)@.wf() ==> final(self)@.wf(),
            old(self)@.accepts() ==> result == Ok::<(), SendError<J>>(()),
            !old(self)@.accepts() ==> result == Err::<(), SendError<J>>(SendError(job)),
    {
        if self.producer_open && self.consumer_open {
            self.jobs.push_back(job);
            Ok(())
        } else {
            Err(SendError(job))
        }
    }

    /// Takes the oldest queued job, if there is one, without waiting. An
    /// empty queue reports whether a job may still arrive.
    pub fn try_receive(&mut self) -> (result: Result<J, TryReceiveError>)
        ensures
            final(self)@ == old(self)@.receive(),
            old(self)@.wf() ==> final(self)@.wf(),
            old(self)@.jobs.len() > 0 ==> result == Ok::<J, TryReceiveError>(old(self)@.jobs[0]),
            old(self)@.jobs.len() == 0 && old(self)@.accepts() ==> result == Err::<
                J,
                TryReceiveError,
            >(TryReceiveError::Empty),
            old(self)@.disconnected() ==> result == Err::<J, TryReceiveError>(
                TryReceiveError::Disconnected,
            ),
    {
        match self.jobs.pop_front() {
            Some(job) => Ok(job),
            None => {
                if self.producer_open && self.consumer_open {
                    Err(TryReceiveError::Empty)
                } else {
                    Err(TryReceiveError::Disconnected)
                }
            },
        }
    }

    /// Drops the producer handle. Jobs already queued stay for the consumer;
    /// no further job is admitted.
    pub fn close_producer(&mut self)
        ensures
            final(self)@ == old(self)@.close_producer(),
            old(self)@.wf() ==> final(self)@.wf(),
    {
        self.producer_open = false;
    }

    /// Drops the consumer endpoint and hands back the jobs that were queued
    /// and never claimed, oldest first. No further job is admitted.
    pub fn close_consumer(&mut self) -> (unclaimed: VecDeque<J>)
        ensures
            final(self)@ == old(self)@.close_consumer(),
            old(self)@.wf() ==> final(self)@.wf(),
            unclaimed@ == old(self)@.jobs,
    {
        self.consumer_open = false;
        let mut unclaimed: VecDeque<J> = VecDeque::new();
        std::mem::swap(&mut self.jobs, &mut unclaimed);
        unclaimed
    }

    /// The number of queued jobs.
    pub fn len(&self) -> (len: usize)
        ensures
            len == self@.jobs.len(),
    {
        self.jobs.len()
    }

    /// Whether no job is queued.
    pub fn is_empty(&self) -> (empty: bool)
        ensures
            empty == (self@.jobs.len() == 0),
    {
        self.jobs.len() == 0
    }

    /// Whether a job sent now would be admitted.
    pub fn accepts(&self) -> (accepts: bool)
        ensures
            accepts == self@.accepts(),
    {
        self.producer_open && self.consumer_open
    }

    /// Whether the queue is drained and closed for good.
    pub fn is_disconnected(&self) -> (disconnected: bool)
        ensures
            disconnected == self@.disconnected(),
    {
        self.jobs.len() == 0 && !(self.producer_open && self.consumer_open)
    }
}

} // verus!
