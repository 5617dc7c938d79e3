//! A worker: an ordinal identity and the state of its fetch-execute loop.

use vstd::prelude::*;

use crate::error::{ExecutionError, ProtocolError, TryReceiveError};
use crate::queue::{HandoffQueue, QueueState};

verus! {

/// Where a worker stands in its loop.
#[derive(Clone, Copy, Debug, PartialEq, Eq, Structural)]
pub enum WorkerState {
    /// Waiting for a job.
    Idle,
    /// Running the one job it has claimed.
    Executing,
    /// Out of the loop for good.
    Stopped,
}

/// What a worker does after a fetch.
#[derive(Debug, PartialEq, Eq)]
pub enum Claim<J> {
    /// Run this job; the worker is now executing.
    Run(J),
    /// Nothing is queued yet; stay idle until a job arrives or the queue
    /// closes.
    Wait,
    /// The queue is disconnected; the worker has stopped.
    Stop,
}

/// How a job ended.
#[derive(Clone, Copy, Debug, PartialEq, Eq, Structural)]
pub enum JobOutcome {
    /// The job ran to its end.
    Completed,
    /// The job failed while it ran.
    Failed,
}

/// One worker of a pool.
#[derive(Clone, Copy, Debug, PartialEq, Eq, Structural)]
pub struct Worker {
    /// The worker's ordinal.
    pub id: usize,
    /// Where the worker stands in its loop.
    pub state: WorkerState,
}

impl Worker {
    /// The number of jobs the worker is running: one while it is executing,
    /// none otherwise.
    pub open spec fn running(self) -> nat {
        if self.state == WorkerState::Executing {
            1
        } else {
            0
        }
    }

    /// The worker once it has fetched from `queue`.
    pub open spec fn after_fetch<J>(self, queue: QueueState<J>) -> Worker {
        if self.state != WorkerState::Idle {
            self
        } else if queue.jobs.len() > 0 {
            Worker { state: WorkerState::Executing, ..self }
        } else if queue.accepts() {
            self
        } else {
            Worker { state: WorkerState::Stopped, ..self }
        }
    }

    /// What a fetch from `queue` tells the worker to do.
    pub open spec fn fetch_result<J>(self, queue: QueueState<J>) -> Result<Claim<J>, ProtocolError> {
        if self.state != WorkerState::Idle {
            Err(ProtocolError::NotIdle)
        } else if queue.jobs.len() > 0 {
            Ok(Claim::Run(queue.jobs[0]))
        } else if queue.accepts() {
            Ok(Claim::Wait)
        } else {
            Ok(Claim::Stop)
        }
    }

    /// The queue once the worker has fetched from it.
    pub open spec fn queue_after_fetch<J>(self, queue: QueueState<J>) -> QueueState<J> {
        if self.state == WorkerState::Idle {
            queue.receive()
        } else {
            queue
        }
    }

    /// The worker once the job it was running has ended.
    pub open spec fn after_finish(self) -> Worker {
        if self.state == WorkerState::Executing {
            Worker { state: WorkerState::Idle, ..self }
        } else {
            self
        }
    }

    /// What the end of a job with `outcome` yields for the worker.
    pub open spec fn finish_result(self, outcome: JobOutcome) -> Result<
        Option<ExecutionError>,
        ProtocolError,
    > {
        if self.state != WorkerState::Executing {
            Err(ProtocolError::NotExecuting)
        } else if outcome == JobOutcome::Failed {
            Ok(Some(ExecutionError { worker: self.id }))
        } else {
            Ok(None)
        }
    }

    /// Creates the idle worker with ordinal `id`.
    pub fn new(id: usize) -> (worker: Worker)
        ensures
            worker == (Worker { id, state: WorkerState::Idle }),
    {
        Worker { id, state: WorkerState::Idle }
    }

    /// The fetch step of the worker loop: an idle worker takes the oldest
    /// queued job and starts executing it, keeps waiting while the queue is
    /// empty and open, and stops once the queue is disconnected. A worker
    /// that is not idle is refused and touches nothing.
    pub fn fetch<J>(&mut self, queue: &mut HandoffQueue<J>) -> (result: Result<
        Claim<J>,
        ProtocolError,
    >)
        ensures
            *final(self) == old(self).after_fetch(old(queue)@),
            final(queue)@ == old(self).queue_after_fetch(old(queue)@),
            result == old(self).fetch_result(old(queue)@),
    {
        match self.state {
            WorkerState::Idle => {},
            _ => {
                return Err(ProtocolError::NotIdle);
            },
        }
        match queue.try_receive() {
            Ok(job) => {
                self.state = WorkerState::Executing;
                Ok(Claim::Run(job))
            },
            Err(TryReceiveError::Empty) => Ok(Claim::Wait),
            Err(TryReceiveError::Disconnected) => {
                self.state = WorkerState::Stopped;
                Ok(Claim::Stop)
            },
        }
    }

    /// The end of a job: the executing worker returns to idle whether the
    /// job completed or failed, and a failure is handed back as a report. A
    /// worker that is not executing is refused and stays as it is.
    pub fn finish(&mut self, outcome: JobOutcome) -> (result: Result<
        Option<ExecutionError>,
        ProtocolError,
    >)
        ensures
            *final(self) == old(self).after_finish(),
            result == old(self).finish_result(outcome),
    {
        match self.state {
            WorkerState::Executing => {},
            _ => {
                return Err(ProtocolError::NotExecuting);
            },
        }
        self.state = WorkerState::Idle;
        match outcome {
            JobOutcome::Failed => Ok(Some(ExecutionError { worker: self.id })),
            JobOutcome::Completed => Ok(None),
        }
    }
}

} // verus!
