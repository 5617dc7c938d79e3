//! Particular histories of a pool: what its workers achieve when they are
//! scheduled in a given order.

use vstd::prelude::*;

use crate::pool::PoolState;
use crate::queue::QueueState;
use crate::trace::{Event, lemma_count_executing_bounds, lemma_jobs_are_conserved};
use crate::worker::{JobOutcome, Worker, WorkerState};

verus! {

/// The history in which `jobs` are submitted in order.
pub open spec fn submit_all<J>(jobs: Seq<J>) -> Seq<Event<J>> {
    Seq::new(jobs.len(), |i: int| Event::Submit(jobs[i]))
}

/// The history in which the workers `0` to `count - 1` each try to claim a
/// job, in order of their ordinals.
pub open spec fn claim_each<J>(count: nat) -> Seq<Event<J>> {
    Seq::new(count, |i: int| Event::Claim(i))
}

/// The history in which the workers `0` to `count - 1` each report the end
/// of a job, in order of their ordinals.
pub open spec fn complete_each<J>(count: nat) -> Seq<Event<J>> {
    Seq::new(count, |i: int| Event::Complete(i, JobOutcome::Completed))
}

/// The history in which `worker` alone claims a job and brings it to its
/// end, once for each of `outcomes`.
pub open spec fn serve<J>(worker: int, outcomes: Seq<JobOutcome>) -> Seq<Event<J>>
    decreases outcomes.len(),
{
    if outcomes.len() == 0 {
        Seq::empty()
    } else {
        serve(worker, outcomes.drop_last()) + seq![
            Event::Claim(worker),
            Event::Complete(worker, outcomes.last()),
        ]
    }
}

/// The history of an orderly shutdown from `state`: the producer handle is
/// retired, the workers end the jobs they are running, the first worker
/// serves what is still queued, and every worker fetches once more.
pub open spec fn teardown<J>(state: PoolState<J>) -> Seq<Event<J>> {
    seq![Event::Shutdown] + complete_each(state.workers.len()) + serve(
        0,
        Seq::new(state.queue.jobs.len(), |i: int| JobOutcome::Completed),
    ) + claim_each(state.workers.len())
}

/// Running one history after another is running their concatenation, and
/// what the two admit, hand out and finish adds up.
pub proof fn lemma_run_concat<J>(state: PoolState<J>, first: Seq<Event<J>>, then: Seq<Event<J>>)
    ensures
        state.run(first + then) == state.run(first).run(then),
        state.admitted(first + then) == state.admitted(first) + state.run(first).admitted(then),
        state.dispatched(first + then) == state.dispatched(first) + state.run(first).dispatched(
            then,
        ),
        state.finished(first + then) == state.finished(first) + state.run(first).finished(then),
    decreases then.len(),
{
    if then.len() == 0 {
    } else {
        let all = first + then;
        assert(all.drop_last() =~= first + then.drop_last());
        lemma_run_concat(state, first, then.drop_last());
    }
}

/// Submitting to a pool that accepts appends the jobs to the queue in the
/// order of submission and touches nothing else.
pub proof fn lemma_submit_all<J>(state: PoolState<J>, jobs: Seq<J>)
    requires
        state.accepting(),
    ensures
        state.run(submit_all(jobs)) == (PoolState {
            queue: (QueueState { jobs: state.queue.jobs + jobs, ..state.queue }),
            ..state
        }),
        state.admitted(submit_all(jobs)) == jobs,
        state.dispatched(submit_all(jobs)) == Seq::<J>::empty(),
        state.finished(submit_all(jobs)) == 0,
    decreases jobs.len(),
{
    let events = submit_all(jobs);
    if jobs.len() == 0 {
    } else {
        assert(events.drop_last() =~= submit_all(jobs.drop_last()));
        lemma_submit_all(state, jobs.drop_last());
        assert(state.queue.jobs + jobs =~= (state.queue.jobs + jobs.drop_last()).push(jobs.last()));
    }
}

/// Idle workers that claim one after another each take one job, in the
/// order of the queue, and leave the other workers as they were.
pub proof fn lemma_claim_each<J>(state: PoolState<J>, count: nat)
    requires
        count <= state.workers.len(),
        count <= state.queue.jobs.len(),
        forall|i: int| 0 <= i < count ==> (#[trigger] state.workers[i]).state == WorkerState::Idle,
    ensures
        ({
            let end = state.run(claim_each(count));
            &&& end.workers.len() == state.workers.len()
            &&& forall|i: int|
                0 <= i < count ==> #[trigger] end.workers[i] == (Worker {
                    state: WorkerState::Executing,
                    ..state.workers[i]
                })
            &&& forall|i: int|
                count <= i < state.workers.len() ==> #[trigger] end.workers[i] == state.workers[i]
            &&& end.queue == (QueueState {
                jobs: state.queue.jobs.skip(count as int),
                ..state.queue
            })
        }),
        state.dispatched(claim_each(count)) == state.queue.jobs.take(count as int),
        state.admitted(claim_each::<J>(count)) == Seq::<J>::empty(),
        state.finished(claim_each::<J>(count)) == 0,
    decreases count,
{
    let events = claim_each::<J>(count);
    if count == 0 {
        assert(state.queue.jobs.skip(0) =~= state.queue.jobs);
    } else {
        let fewer = (count - 1) as nat;
        assert(events.drop_last() =~= claim_each::<J>(fewer));
        lemma_claim_each(state, fewer);
        assert(state.run(events).queue.jobs =~= state.queue.jobs.skip(count as int));
    }
}

/// Every worker of a fresh pool can take work at once, and jobs on
/// different workers run side by side: when no more jobs than workers are
/// submitted to a fresh pool and the workers claim in turn, each job is
/// handed to a worker of its own and all of them are executing at the same
/// time, none waiting for another to end.
pub proof fn lemma_fresh_pool_runs_jobs_side_by_side<J>(size: nat, jobs: Seq<J>)
    requires
        jobs.len() <= size,
    ensures
        ({
            let start = PoolState::<J>::init(size);
            let events = submit_all(jobs) + claim_each(jobs.len());
            let end = start.run(events);
            &&& start.admitted(events) == jobs
            &&& start.dispatched(events) == jobs
            &&& start.finished(events) == 0
            &&& end.queue.jobs.len() == 0
            &&& end.executing() == jobs.len()
            &&& forall|i: int|
                0 <= i < jobs.len() ==> (#[trigger] end.workers[i]).state
                    == WorkerState::Executing
            &&& forall|i: int|
                jobs.len() <= i < size ==> (#[trigger] end.workers[i]).state == WorkerState::Idle
        }),
{
    let start = PoolState::<J>::init(size);
    let events = submit_all(jobs) + claim_each(jobs.len());
    lemma_submit_all(start, jobs);
    lemma_claim_each(start.run(submit_all(jobs)), jobs.len());
    lemma_run_concat(start, submit_all(jobs), claim_each(jobs.len()));
    lemma_jobs_are_conserved(start, events);
    lemma_count_executing_bounds(start.workers);
}

/// A history of one event is one step.
proof fn lemma_run_single<J>(state: PoolState<J>, event: Event<J>)
    ensures
        state.run(seq![event]) == state.step(event),
        state.admitted(seq![event]) == state.admits(event),
        state.dispatched(seq![event]) == state.hands_out(event),
        state.finished(seq![event]) == state.ends(event),
{
    let single = seq![event];
    let none = single.drop_last();
    assert(state.admitted(none) =~= Seq::<J>::empty());
    assert(state.dispatched(none) =~= Seq::<J>::empty());
    assert(state.finished(none) == 0);
    assert(state.dispatched(single) =~= state.hands_out(event));
}

/// A history of two events is one step after the other.
proof fn lemma_run_pair<J>(state: PoolState<J>, first: Event<J>, second: Event<J>)
    ensures
        state.run(seq![first, second]) == state.step(first).step(second),
        state.admitted(seq![first, second]) == state.admits(first) + state.step(first).admits(
            second,
        ),
        state.dispatched(seq![first, second]) == state.hands_out(first) + state.step(
            first,
        ).hands_out(second),
        state.finished(seq![first, second]) == state.ends(first) + state.step(first).ends(second),
{
    assert(seq![first, second] =~= seq![first] + seq![second]);
    lemma_run_single(state, first);
    lemma_run_single(state.step(first), second);
    lemma_run_concat(state, seq![first], seq![second]);
}

/// A free worker serves the queue by itself, whatever the other workers
/// are doing and whether its jobs complete or fail: it is handed the queued
/// jobs one by one, oldest first, is idle again after each, and leaves every
/// other worker with the job that worker has.
pub proof fn lemma_free_worker_serves_queue<J>(
    state: PoolState<J>,
    worker: int,
    outcomes: Seq<JobOutcome>,
)
    requires
        state.has_worker(worker),
        state.workers[worker].state == WorkerState::Idle,
        outcomes.len() <= state.queue.jobs.len(),
    ensures
        state.run(serve(worker, outcomes)) == (PoolState {
            queue: (QueueState {
                jobs: state.queue.jobs.skip(outcomes.len() as int),
                ..state.queue
            }),
            ..state
        }),
        state.dispatched(serve(worker, outcomes)) == state.queue.jobs.take(outcomes.len() as int),
        state.finished(serve::<J>(worker, outcomes)) == outcomes.len(),
        state.admitted(serve::<J>(worker, outcomes)) == Seq::<J>::empty(),
    decreases outcomes.len(),
{
    if outcomes.len() == 0 {
        assert(state.queue.jobs.skip(0) =~= state.queue.jobs);
    } else {
        let claim = Event::<J>::Claim(worker);
        let complete = Event::<J>::Complete(worker, outcomes.last());
        lemma_free_worker_serves_queue(state, worker, outcomes.drop_last());
        let before = state.run(serve(worker, outcomes.drop_last()));
        lemma_run_concat(state, serve(worker, outcomes.drop_last()), seq![claim, complete]);
        lemma_run_pair(before, claim, complete);
        let end = before.step(claim).step(complete);
        assert(end.workers =~= state.workers);
        assert(end.queue.jobs =~= state.queue.jobs.skip(outcomes.len() as int));
    }
}

/// A job that blocks occupies exactly one worker. When a blocking job and
/// then further jobs are submitted to a fresh pool of at least two workers,
/// and the first worker takes the blocking job and never returns from it,
/// the second worker is handed every further job in order and brings each to
/// its end; the blocked worker is the only one executing.
pub proof fn lemma_blocked_worker_occupies_one_worker<J>(
    size: nat,
    blocking: J,
    jobs: Seq<J>,
    outcomes: Seq<JobOutcome>,
)
    requires
        size >= 2,
        outcomes.len() == jobs.len(),
    ensures
        ({
            let start = PoolState::<J>::init(size);
            let events = submit_all(seq![blocking] + jobs) + claim_each(1) + serve(1, outcomes);
            let end = start.run(events);
            &&& start.dispatched(events) == seq![blocking] + jobs
            &&& start.finished(events) == jobs.len()
            &&& end.queue.jobs.len() == 0
            &&& end.executing() == 1
            &&& end.workers[0].state == WorkerState::Executing
            &&& forall|i: int|
                1 <= i < size ==> (#[trigger] end.workers[i]).state == WorkerState::Idle
        }),
{
    let start = PoolState::<J>::init(size);
    let all = seq![blocking] + jobs;
    let events = submit_all(all) + claim_each(1) + serve(1, outcomes);
    lemma_submit_all(start, all);
    let loaded = start.run(submit_all(all));
    lemma_claim_each(loaded, 1);
    lemma_free_worker_serves_queue(loaded.run(claim_each(1)), 1, outcomes);
    lemma_run_concat(start, submit_all(all), claim_each(1));
    lemma_run_concat(start, submit_all(all) + claim_each(1), serve(1, outcomes));
    lemma_jobs_are_conserved(start, events);
    lemma_count_executing_bounds(start.workers);
}

/// Workers that report in turn each end the job they are running, if they
/// are running one; nothing else changes.
pub proof fn lemma_complete_each<J>(state: PoolState<J>, count: nat)
    requires
        count <= state.workers.len(),
    ensures
        ({
            let end = state.run(complete_each(count));
            &&& end.workers.len() == state.workers.len()
            &&& forall|i: int|
                0 <= i < count ==> #[trigger] end.workers[i] == state.workers[i].after_finish()
            &&& forall|i: int|
                count <= i < state.workers.len() ==> #[trigger] end.workers[i] == state.workers[i]
            &&& end.queue == state.queue
        }),
        state.dispatched(complete_each::<J>(count)) == Seq::<J>::empty(),
        state.admitted(complete_each::<J>(count)) == Seq::<J>::empty(),
    decreases count,
{
    let events = complete_each::<J>(count);
    if count > 0 {
        let fewer = (count - 1) as nat;
        assert(events.drop_last() =~= complete_each::<J>(fewer));
        lemma_complete_each(state, fewer);
    }
}

/// Once the producer handle is gone and the queue is drained, every worker
/// that fetches finds the queue disconnected and stops; none is left
/// waiting. Workers that claim in turn on such a queue all end up stopped,
/// unless they are still running a job.
pub proof fn lemma_disconnected_queue_stops_workers<J>(state: PoolState<J>, count: nat)
    requires
        count <= state.workers.len(),
        state.queue.disconnected(),
        forall|i: int|
            0 <= i < count ==> (#[trigger] state.workers[i]).state != WorkerState::Executing,
    ensures
        ({
            let end = state.run(claim_each(count));
            &&& end.workers.len() == state.workers.len()
            &&& forall|i: int|
                0 <= i < count ==> #[trigger] end.workers[i] == (Worker {
                    state: WorkerState::Stopped,
                    ..state.workers[i]
                })
            &&& forall|i: int|
                count <= i < state.workers.len() ==> #[trigger] end.workers[i] == state.workers[i]
            &&& end.queue == state.queue
        }),
        state.dispatched(claim_each::<J>(count)) == Seq::<J>::empty(),
        state.admitted(claim_each::<J>(count)) == Seq::<J>::empty(),
    decreases count,
{
    let events = claim_each::<J>(count);
    if count > 0 {
        let fewer = (count - 1) as nat;
        assert(events.drop_last() =~= claim_each::<J>(fewer));
        lemma_disconnected_queue_stops_workers(state, fewer);
    }
}

/// An orderly shutdown comes to an end and loses no job. Wherever a
/// well-formed pool stands, its shutdown history hands every job that is
/// still queued to a worker, in order, admits none, and leaves the queue
/// drained and every worker stopped.
pub proof fn lemma_shutdown_stops_every_worker<J>(state: PoolState<J>)
    requires
        state.wf(),
    ensures
        ({
            let end = state.run(teardown(state));
            &&& end.workers.len() == state.workers.len()
            &&& end.terminated()
            &&& end.queue.disconnected()
            &&& state.dispatched(teardown(state)) == state.queue.jobs
            &&& state.admitted(teardown(state)) == Seq::<J>::empty()
        }),
{
    let size = state.workers.len();
    let outcomes = Seq::new(state.queue.jobs.len(), |i: int| JobOutcome::Completed);
    let close = seq![Event::<J>::Shutdown];
    let closed = state.run(close);
    lemma_run_single(state, Event::<J>::Shutdown);

    lemma_complete_each(closed, size);
    let settled = closed.run(complete_each(size));
    if state.queue.jobs.len() > 0 {
        lemma_free_worker_serves_queue(settled, 0, outcomes);
    }
    let drained = settled.run(serve(0, outcomes));
    lemma_disconnected_queue_stops_workers(drained, size);
    lemma_run_concat(state, close, complete_each(size));
    lemma_run_concat(state, close + complete_each(size), serve(0, outcomes));
    lemma_run_concat(
        state,
        close + complete_each(size) + serve(0, outcomes),
        claim_each(size),
    );
}

} // verus!
