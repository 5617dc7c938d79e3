//! Histories of a pool: what holds of every interleaving of submissions,
//! claims, completions and shutdown.

use vstd::prelude::*;

use crate::error::ProtocolError;
use crate::pool::{PoolState, count_executing};
use crate::worker::{Claim, JobOutcome, Worker, WorkerState};

verus! {

/// One thing that happens to a pool.
pub enum Event<J> {
    /// A job is submitted.
    Submit(J),
    /// The worker with this ordinal tries to claim a job.
    Claim(int),
    /// The worker with this ordinal reports how its job ended.
    Complete(int, JobOutcome),
    /// The producer handle is retired.
    Shutdown,
}

impl<J> PoolState<J> {
    /// The pool after `event`.
    pub open spec fn step(self, event: Event<J>) -> Self {
        match event {
            Event::Submit(job) => self.submit(job),
            Event::Claim(worker) => self.claim(worker),
            Event::Complete(worker, _) => self.complete(worker),
            Event::Shutdown => self.shutdown(),
        }
    }

    /// The pool after `events`, in order.
    pub open spec fn run(self, events: Seq<Event<J>>) -> Self
        decreases events.len(),
    {
        if events.len() == 0 {
            self
        } else {
            self.run(events.drop_last()).step(events.last())
        }
    }

    /// The jobs that `event` admits to the queue: the submitted job while
    /// the pool accepts, none otherwise.
    pub open spec fn admits(self, event: Event<J>) -> Seq<J> {
        match event {
            Event::Submit(job) if self.accepting() => seq![job],
            _ => Seq::empty(),
        }
    }

    /// The jobs that `event` hands to a worker: the head of the queue when
    /// an idle worker claims it, none otherwise.
    pub open spec fn hands_out(self, event: Event<J>) -> Seq<J> {
        match event {
            Event::Claim(worker) => match self.claim_result(worker) {
                Ok(Claim::Run(job)) => seq![job],
                _ => Seq::empty(),
            },
            _ => Seq::empty(),
        }
    }

    /// The number of jobs that `event` brings to their end: one when an
    /// executing worker reports, none otherwise.
    pub open spec fn ends(self, event: Event<J>) -> nat {
        match event {
            Event::Complete(worker, outcome) if self.complete_result(worker, outcome) is Ok => 1,
            _ => 0,
        }
    }

    /// The jobs admitted in the course of `events`, in order of submission.
    pub open spec fn admitted(self, events: Seq<Event<J>>) -> Seq<J>
        decreases events.len(),
    {
        if events.len() == 0 {
            Seq::empty()
        } else {
            self.admitted(events.drop_last()) + self.run(events.drop_last()).admits(events.last())
        }
    }

    /// The jobs handed to workers in the course of `events`, in order of
    /// hand-over.
    pub open spec fn dispatched(self, events: Seq<Event<J>>) -> Seq<J>
        decreases events.len(),
    {
        if events.len() == 0 {
            Seq::empty()
        } else {
            self.dispatched(events.drop_last()) + self.run(events.drop_last()).hands_out(
                events.last(),
            )
        }
    }

    /// The number of jobs that `event` hands to `worker`.
    pub open spec fn hands_to(self, event: Event<J>, worker: int) -> nat {
        match event {
            Event::Claim(claimant) if claimant == worker => self.hands_out(event).len(),
            _ => 0,
        }
    }

    /// The number of jobs that `event` brings to their end on `worker`.
    pub open spec fn ends_on(self, event: Event<J>, worker: int) -> nat {
        match event {
            Event::Complete(reporter, _) if reporter == worker => self.ends(event),
            _ => 0,
        }
    }

    /// The number of jobs handed to `worker` in the course of `events`.
    pub open spec fn handed_to(self, events: Seq<Event<J>>, worker: int) -> nat
        decreases events.len(),
    {
        if events.len() == 0 {
            0
        } else {
            self.handed_to(events.drop_last(), worker) + self.run(events.drop_last()).hands_to(
                events.last(),
                worker,
            )
        }
    }

    /// The number of jobs that came to their end on `worker` in the course
    /// of `events`.
    pub open spec fn ended_on(self, events: Seq<Event<J>>, worker: int) -> nat
        decreases events.len(),
    {
        if events.len() == 0 {
            0
        } else {
            self.ended_on(events.drop_last(), worker) + self.run(events.drop_last()).ends_on(
                events.last(),
                worker,
            )
        }
    }

    /// The number of jobs that came to their end in the course of `events`.
    pub open spec fn finished(self, events: Seq<Event<J>>) -> nat
        decreases events.len(),
    {
        if events.len() == 0 {
            0
        } else {
            self.finished(events.drop_last()) + self.run(events.drop_last()).ends(events.last())
        }
    }
}

/// A fresh pool is well formed.
pub proof fn lemma_init_wf<J>(size: nat)
    requires
        0 < size <= usize::MAX,
    ensures
        PoolState::<J>::init(size).wf(),
        PoolState::<J>::init(size).workers.len() == size,
{
}

/// No event takes a well-formed pool out of well-formedness, adds a worker
/// or removes one.
pub proof fn lemma_step_keeps_wf<J>(state: PoolState<J>, event: Event<J>)
    requires
        state.wf(),
    ensures
        state.step(event).wf(),
        state.step(event).workers.len() == state.workers.len(),
{
}

/// The size of a pool is fixed at construction: whatever happens to a pool
/// of `size` workers, it stays well formed and keeps exactly `size` workers.
pub proof fn lemma_size_is_fixed<J>(size: nat, events: Seq<Event<J>>)
    requires
        0 < size <= usize::MAX,
    ensures
        PoolState::<J>::init(size).run(events).wf(),
        PoolState::<J>::init(size).run(events).workers.len() == size,
    decreases events.len(),
{
    lemma_init_wf::<J>(size);
    if events.len() > 0 {
        lemma_size_is_fixed::<J>(size, events.drop_last());
        lemma_step_keeps_wf(PoolState::<J>::init(size).run(events.drop_last()), events.last());
    }
}

/// No two jobs ever execute at the same time on one worker: a worker that
/// is executing is handed no further job, and its claim leaves the pool as
/// it was.
pub proof fn lemma_one_job_per_worker<J>(state: PoolState<J>, worker: int)
    requires
        state.has_worker(worker),
        state.workers[worker].state == WorkerState::Executing,
    ensures
        state.claim_result(worker) == Err::<Claim<J>, ProtocolError>(ProtocolError::NotIdle),
        state.hands_out(Event::Claim(worker)) == Seq::<J>::empty(),
        state.claim(worker) == state,
{
    assert(state.claim(worker).workers =~= state.workers);
}

/// A worker runs one job at a time, whatever the interleaving: the jobs
/// handed to it and not yet ended are one while it is executing and none
/// otherwise, so a worker is never handed a job before the one it has is at
/// its end.
pub proof fn lemma_worker_runs_one_job_at_a_time<J>(
    state: PoolState<J>,
    events: Seq<Event<J>>,
    worker: int,
)
    requires
        state.has_worker(worker),
    ensures
        state.run(events).has_worker(worker),
        state.workers[worker].running() + state.handed_to(events, worker) == state.ended_on(
            events,
            worker,
        ) + state.run(events).workers[worker].running(),
    decreases events.len(),
{
    if events.len() > 0 {
        lemma_worker_runs_one_job_at_a_time(state, events.drop_last(), worker);
    }
}

/// A pool whose workers are all executing has no capacity left, yet
/// submission does not wait for a worker: the job is admitted at once and
/// stays queued, whichever worker fetches, until a worker has ended its job;
/// that worker is then handed the oldest queued job.
pub proof fn lemma_exhausted_pool_queues_jobs<J>(state: PoolState<J>, job: J, worker: int)
    requires
        state.accepting(),
        forall|i: int|
            0 <= i < state.workers.len() ==> (#[trigger] state.workers[i]).state
                == WorkerState::Executing,
    ensures
        state.submit(job).queue.jobs == state.queue.jobs.push(job),
        state.submit(job).workers == state.workers,
        state.submit(job).hands_out(Event::Claim(worker)) == Seq::<J>::empty(),
        state.submit(job).claim(worker) == state.submit(job),
        state.has_worker(worker) ==> state.submit(job).complete(worker).claim_result(worker)
            == Ok::<Claim<J>, ProtocolError>(Claim::Run(state.queue.jobs.push(job)[0])),
{
    let queued = state.submit(job);
    assert(queued.claim(worker).workers =~= queued.workers);
}

/// Once the producer handle is retired no worker is left waiting: an idle
/// worker that fetches is handed the oldest queued job, or, when the queue
/// is drained, is told to stop and has stopped.
pub proof fn lemma_closed_pool_never_waits<J>(state: PoolState<J>, worker: int)
    requires
        !state.queue.producer_open,
        state.has_worker(worker),
        state.workers[worker].state == WorkerState::Idle,
    ensures
        state.queue.jobs.len() > 0 ==> state.claim_result(worker) == Ok::<
            Claim<J>,
            ProtocolError,
        >(Claim::Run(state.queue.jobs[0])),
        state.queue.jobs.len() == 0 ==> state.claim_result(worker) == Ok::<
            Claim<J>,
            ProtocolError,
        >(Claim::Stop),
        state.queue.jobs.len() == 0 ==> state.claim(worker).workers[worker].state
            == WorkerState::Stopped,
{
}

/// A worker that has stopped stays stopped, whatever happens afterwards.
pub proof fn lemma_stopped_is_final<J>(state: PoolState<J>, worker: int, events: Seq<Event<J>>)
    requires
        state.has_worker(worker),
        state.workers[worker].state == WorkerState::Stopped,
    ensures
        state.run(events).has_worker(worker),
        state.run(events).workers[worker] == state.workers[worker],
    decreases events.len(),
{
    if events.len() > 0 {
        lemma_stopped_is_final(state, worker, events.drop_last());
    }
}

/// Replacing one worker changes the number of executing workers by that
/// worker's part in it.
pub proof fn lemma_count_executing_update(workers: Seq<Worker>, place: int, worker: Worker)
    requires
        0 <= place < workers.len(),
    ensures
        count_executing(workers.update(place, worker)) + workers[place].running()
            == count_executing(workers) + worker.running(),
    decreases workers.len(),
{
    let updated = workers.update(place, worker);
    if place == workers.len() - 1 {
        assert(updated.drop_last() =~= workers.drop_last());
    } else {
        assert(updated.drop_last() =~= workers.drop_last().update(place, worker));
        lemma_count_executing_update(workers.drop_last(), place, worker);
    }
}

/// There are never more executing workers than workers, and none where no
/// worker executes.
pub proof fn lemma_count_executing_bounds(workers: Seq<Worker>)
    ensures
        count_executing(workers) <= workers.len(),
        (forall|i: int|
            0 <= i < workers.len() ==> (#[trigger] workers[i]).state != WorkerState::Executing)
            ==> count_executing(workers) == 0,
    decreases workers.len(),
{
    if workers.len() > 0 {
        lemma_count_executing_bounds(workers.drop_last());
    }
}

/// Jobs are neither lost nor duplicated, whatever the interleaving: the
/// jobs queued at the start followed by the jobs admitted since are the jobs
/// handed to workers since, in the same order, followed by the jobs still
/// queued. And every job handed to a worker either came to its end or
/// occupies exactly one executing worker.
pub proof fn lemma_jobs_are_conserved<J>(state: PoolState<J>, events: Seq<Event<J>>)
    ensures
        state.queue.jobs + state.admitted(events) == state.dispatched(events) + state.run(
            events,
        ).queue.jobs,
        state.executing() + state.dispatched(events).len() == state.finished(events) + state.run(
            events,
        ).executing(),
    decreases events.len(),
{
    if events.len() > 0 {
        let before = state.run(events.drop_last());
        let event = events.last();
        lemma_jobs_are_conserved(state, events.drop_last());
        match event {
            Event::Claim(worker) if before.has_worker(worker) => {
                lemma_count_executing_update(
                    before.workers,
                    worker,
                    before.workers[worker].after_fetch(before.queue),
                );
            },
            Event::Complete(worker, _) if before.has_worker(worker) => {
                lemma_count_executing_update(
                    before.workers,
                    worker,
                    before.workers[worker].after_finish(),
                );
            },
            _ => {},
        }
        let admitted = state.admitted(events.drop_last());
        let incoming = before.admits(event);
        assert(state.queue.jobs + (admitted + incoming) =~= (state.queue.jobs + admitted)
            + incoming);
    }
}

/// For the jobs submitted to a fresh pool, exactly as many executions
/// occur as jobs were admitted, regardless of interleaving and of the
/// number of workers: the jobs handed out are a prefix of the jobs admitted,
/// the rest is still queued, and once the queue is drained and no worker is
/// executing, every admitted job has been handed out once and has ended.
pub proof fn lemma_every_job_runs_once<J>(size: nat, events: Seq<Event<J>>)
    ensures
        ({
            let start = PoolState::<J>::init(size);
            let end = start.run(events);
            &&& start.admitted(events) == start.dispatched(events) + end.queue.jobs
            &&& start.dispatched(events).len() == start.finished(events) + end.executing()
            &&& end.executing() <= end.workers.len()
            &&& end.queue.jobs.len() == 0 && end.executing() == 0 ==> {
                &&& start.dispatched(events) == start.admitted(events)
                &&& start.finished(events) == start.admitted(events).len()
            }
        }),
{
    let start = PoolState::<J>::init(size);
    let end = start.run(events);
    lemma_jobs_are_conserved(start, events);
    lemma_count_executing_bounds(start.workers);
    lemma_count_executing_bounds(end.workers);
}

} // verus!
