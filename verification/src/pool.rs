//! The pool: a fixed set of workers around one hand-off queue.

use vstd::prelude::*;

use crate::error::{ConfigError, ExecutionError, ProtocolError, SendError};
use crate::queue::{HandoffQueue, QueueState};
use crate::worker::{Claim, JobOutcome, Worker, WorkerState};

verus! {

/// The number of executing workers among `workers`.
pub open spec fn count_executing(workers: Seq<Worker>) -> nat
    decreases workers.len(),
{
    if workers.len() == 0 {
        0
    } else {
        count_executing(workers.drop_last()) + workers.last().running()
    }
}

/// What a pool holds, as a mathematical value.
pub struct PoolState<J> {
    /// The workers, by ordinal.
    pub workers: Seq<Worker>,
    /// The hand-off queue they share.
    pub queue: QueueState<J>,
}

impl<J> PoolState<J> {
    /// The pool of `size` idle workers around an empty, open queue.
    pub open spec fn init(size: nat) -> Self {
        PoolState {
            workers: Seq::new(size, |i: int| Worker { id: i as usize, state: WorkerState::Idle }),
            queue: QueueState::init(),
        }
    }

    /// What every pool that was built and then used satisfies: it has at
    /// least one worker, each worker's ordinal is its place, the pool keeps
    /// the consumer endpoint alive, and a worker stops only on a queue that
    /// is closed and drained.
    pub open spec fn wf(self) -> bool {
        &&& self.workers.len() > 0
        &&& forall|i: int| 0 <= i < self.workers.len() ==> (#[trigger] self.workers[i]).id == i
        &&& self.queue.consumer_open
        &&& forall|i: int|
            0 <= i < self.workers.len() && (#[trigger] self.workers[i]).state
                == WorkerState::Stopped ==> self.queue.disconnected()
    }

    /// Whether `worker` is the ordinal of one of the pool's workers.
    pub open spec fn has_worker(self, worker: int) -> bool {
        0 <= worker < self.workers.len()
    }

    /// Whether the pool still admits jobs.
    pub open spec fn accepting(self) -> bool {
        self.queue.accepts()
    }

    /// The pool after `job` was submitted.
    pub open spec fn submit(self, job: J) -> Self {
        PoolState { queue: self.queue.send(job), ..self }
    }

    /// The pool after `worker` tried to claim a job.
    pub open spec fn claim(self, worker: int) -> Self {
        if self.has_worker(worker) {
            PoolState {
                workers: self.workers.update(worker, self.workers[worker].after_fetch(self.queue)),
                queue: self.workers[worker].queue_after_fetch(self.queue),
            }
        } else {
            self
        }
    }

    /// What `worker` is told when it tries to claim a job.
    pub open spec fn claim_result(self, worker: int) -> Result<Claim<J>, ProtocolError> {
        if self.has_worker(worker) {
            self.workers[worker].fetch_result(self.queue)
        } else {
            Err(ProtocolError::UnknownWorker)
        }
    }

    /// The pool after `worker` reported the end of its job.
    pub open spec fn complete(self, worker: int) -> Self {
        if self.has_worker(worker) {
            PoolState {
                workers: self.workers.update(worker, self.workers[worker].after_finish()),
                ..self
            }
        } else {
            self
        }
    }

    /// What `worker` is told when it reports the end of its job.
    pub open spec fn complete_result(self, worker: int, outcome: JobOutcome) -> Result<
        Option<ExecutionError>,
        ProtocolError,
    > {
        if self.has_worker(worker) {
            self.workers[worker].finish_result(outcome)
        } else {
            Err(ProtocolError::UnknownWorker)
        }
    }

    /// The number of workers that are executing a job.
    pub open spec fn executing(self) -> nat {
        count_executing(self.workers)
    }

    /// Whether every worker has stopped.
    pub open spec fn terminated(self) -> bool {
        forall|i: int|
            0 <= i < self.workers.len() ==> (#[trigger] self.workers[i]).state
                == WorkerState::Stopped
    }

    /// The pool after its producer handle was retired.
    pub open spec fn shutdown(self) -> Self {
        PoolState { queue: self.queue.close_producer(), ..self }
    }
}

/// A pool of a fixed, positive number of workers that take jobs of type `J`
/// from a shared first-in first-out queue.
pub struct ThreadPool<J> {
    workers: Vec<Worker>,
    queue: HandoffQueue<J>,
}

impl<J> View for ThreadPool<J> {
    type V = PoolState<J>;

    closed spec fn view(&self) -> PoolState<J> {
        PoolState { workers: self.workers@, queue: self.queue@ }
    }
}

impl<J> ThreadPool<J> {
    /// Creates a pool of `size` workers, all idle, around an empty queue.
    /// A pool without workers is refused.
    pub fn new(size: usize) -> (result: Result<ThreadPool<J>, ConfigError>)
        ensures
            match result {
                Ok(pool) => size > 0 && pool@ == PoolState::<J>::init(size as nat) && pool@.wf(),
                Err(_) => size == 0,
            },
    {
        if size == 0 {
            return Err(ConfigError);
        }
        let mut workers: Vec<Worker> = Vec::new();
        let mut id: usize = 0;
        while id < size
            invariant
                id <= size,
                workers@.len() == id,
                forall|i: int|
                    0 <= i < id ==> workers@[i] == (Worker {
                        id: i as usize,
                        state: WorkerState::Idle,
                    }),
            decreases size - id,
        {
            workers.push(Worker::new(id));
            id += 1;
        }
        let pool = ThreadPool { workers, queue: HandoffQueue::new() };
        assert(pool@.workers =~= PoolState::<J>::init(size as nat).workers);
        Ok(pool)
    }

    /// Submits `job` and returns at once. While the pool admits jobs the job
    /// joins the queue behind every job submitted before it; afterwards the
    /// pool stays as it was and the job comes back in the error.
    pub fn execute(&mut self, job: J) -> (result: Result<(), SendError<J>>)
        ensures
            final(self)@ == old(self)@.submit(job),
            old(self)@.wf() ==> final(self)@.wf(),
            old(self)@.accepting() ==> result == Ok::<(), SendError<J>>(()),
            !old(self)@.accepting() ==> result == Err::<(), SendError<J>>(SendError(job)),
    {
        self.queue.send(job)
    }

    /// The step a worker takes under the lock that guards the queue: claim
    /// the next job. An idle worker is handed the oldest queued job and is
    /// executing from then on; with nothing queued it is told to wait while
    /// the pool admits jobs, and to stop, and has stopped, once it does not.
    /// A worker that is not idle, or an ordinal the pool does not have, is
    /// refused and nothing changes. Nothing of the job runs here.
    pub fn claim(&mut self, worker: usize) -> (result: Result<Claim<J>, ProtocolError>)
        ensures
            final(self)@ == old(self)@.claim(worker as int),
            old(self)@.wf() ==> final(self)@.wf(),
            result == old(self)@.claim_result(worker as int),
    {
        if worker >= self.workers.len() {
            return Err(ProtocolError::UnknownWorker);
        }
        self.workers[worker].fetch(&mut self.queue)
    }

    /// Records that `worker` has come to the end of the job it was running.
    /// The worker is idle again whether the job completed or failed; a
    /// failure comes back as a report and reaches no other worker. A worker
    /// that is not executing, or an ordinal the pool does not have, is
    /// refused and nothing changes.
    pub fn complete(&mut self, worker: usize, outcome: JobOutcome) -> (result: Result<
        Option<ExecutionError>,
        ProtocolError,
    >)
        ensures
            final(self)@ == old(self)@.complete(worker as int),
            old(self)@.wf() ==> final(self)@.wf(),
            result == old(self)@.complete_result(worker as int, outcome),
    {
        if worker >= self.workers.len() {
            return Err(ProtocolError::UnknownWorker);
        }
        self.workers[worker].finish(outcome)
    }

    /// Retires the producer handle. Jobs already queued are still handed
    /// out; once they are, every worker that fetches is told to stop.
    pub fn shutdown(&mut self)
        ensures
            final(self)@ == old(self)@.shutdown(),
            old(self)@.wf() ==> final(self)@.wf(),
    {
        self.queue.close_producer();
    }

    /// The number of workers, fixed when the pool was built.
    pub fn size(&self) -> (size: usize)
        ensures
            size == self@.workers.len(),
    {
        self.workers.len()
    }

    /// The number of jobs queued and not yet claimed.
    pub fn pending(&self) -> (pending: usize)
        ensures
            pending == self@.queue.jobs.len(),
    {
        self.queue.len()
    }

    /// Whether the pool still admits jobs.
    pub fn is_accepting(&self) -> (accepting: bool)
        ensures
            accepting == self@.accepting(),
    {
        self.queue.accepts()
    }

    /// The worker with ordinal `worker`, if the pool has one.
    pub fn worker(&self, worker: usize) -> (found: Option<Worker>)
        ensures
            found == (if self@.has_worker(worker as int) {
                Some(self@.workers[worker as int])
            } else {
                None
            }),
    {
        if worker < self.workers.len() {
            Some(self.workers[worker])
        } else {
            None
        }
    }

    /// The number of workers that are executing a job.
    pub fn executing(&self) -> (count: usize)
        ensures
            count == self@.executing(),
    {
        let mut count: usize = 0;
        let mut place: usize = 0;
        while place < self.workers.len()
            invariant
                place <= self.workers.len(),
                count == count_executing(self.workers@.take(place as int)),
                count <= place,
            decreases self.workers.len() - place,
        {
            proof {
                assert(self.workers@.take(place + 1).drop_last() =~= self.workers@.take(
                    place as int,
                ));
            }
            match self.workers[place].state {
                WorkerState::Executing => {
                    count += 1;
                },
                _ => {},
            }
            place += 1;
        }
        proof {
            assert(self.workers@.take(place as int) =~= self.workers@);
        }
        count
    }

    /// Whether every worker has stopped.
    pub fn is_terminated(&self) -> (terminated: bool)
        ensures
            terminated == self@.terminated(),
    {
        let mut place: usize = 0;
        while place < self.workers.len()
            invariant
                place <= self.workers.len(),
                forall|i: int|
                    0 <= i < place ==> (#[trigger] self.workers@[i]).state == WorkerState::Stopped,
            decreases self.workers.len() - place,
        {
            match self.workers[place].state {
                WorkerState::Stopped => {},
                _ => {
                    return false;
                },
            }
            place += 1;
        }
        true
    }
}

} // verus!
