use servidor_http_threadpool::{
    Claim, ExecutionError, HandoffQueue, JobOutcome, ProtocolError, Worker, WorkerState,
};

#[test]
fn new_worker_is_idle_and_keeps_its_ordinal() {
    let worker = Worker::new(3);
    assert_eq!(worker.id, 3);
    assert_eq!(worker.state, WorkerState::Idle);
}

#[test]
fn idle_worker_takes_the_oldest_job() {
    let mut queue = HandoffQueue::new();
    assert_eq!(queue.send('a'), Ok(()));
    assert_eq!(queue.send('b'), Ok(()));
    let mut worker = Worker::new(0);
    assert_eq!(worker.fetch(&mut queue), Ok(Claim::Run('a')));
    assert_eq!(worker.state, WorkerState::Executing);
    assert_eq!(queue.len(), 1);
}

#[test]
fn idle_worker_waits_on_an_empty_open_queue() {
    let mut queue: HandoffQueue<char> = HandoffQueue::new();
    let mut worker = Worker::new(0);
    assert_eq!(worker.fetch(&mut queue), Ok(Claim::Wait));
    assert_eq!(worker.state, WorkerState::Idle);
}

#[test]
fn idle_worker_stops_on_a_disconnected_queue() {
    let mut queue: HandoffQueue<char> = HandoffQueue::new();
    queue.close_producer();
    let mut worker = Worker::new(5);
    assert_eq!(worker.fetch(&mut queue), Ok(Claim::Stop));
    assert_eq!(worker, Worker { id: 5, state: WorkerState::Stopped });
}

#[test]
fn executing_worker_may_not_fetch() {
    let mut queue = HandoffQueue::new();
    assert_eq!(queue.send(1u8), Ok(()));
    assert_eq!(queue.send(2u8), Ok(()));
    let mut worker = Worker::new(0);
    assert_eq!(worker.fetch(&mut queue), Ok(Claim::Run(1)));
    assert_eq!(worker.fetch(&mut queue), Err(ProtocolError::NotIdle));
    assert_eq!(worker.state, WorkerState::Executing);
    assert_eq!(queue.len(), 1);
}

#[test]
fn stopped_worker_may_not_fetch() {
    let mut queue: HandoffQueue<u8> = HandoffQueue::new();
    queue.close_producer();
    let mut worker = Worker::new(0);
    assert_eq!(worker.fetch(&mut queue), Ok(Claim::Stop));
    assert_eq!(worker.fetch(&mut queue), Err(ProtocolError::NotIdle));
    assert_eq!(worker.state, WorkerState::Stopped);
}

#[test]
fn finished_job_returns_the_worker_to_idle() {
    let mut queue = HandoffQueue::new();
    assert_eq!(queue.send(1u8), Ok(()));
    let mut worker = Worker::new(2);
    assert_eq!(worker.fetch(&mut queue), Ok(Claim::Run(1)));
    assert_eq!(worker.finish(JobOutcome::Completed), Ok(None));
    assert_eq!(worker.state, WorkerState::Idle);
}

#[test]
fn failed_job_is_reported_and_returns_the_worker_to_idle() {
    let mut queue = HandoffQueue::new();
    assert_eq!(queue.send(1u8), Ok(()));
    assert_eq!(queue.send(2u8), Ok(()));
    let mut worker = Worker::new(2);
    assert_eq!(worker.fetch(&mut queue), Ok(Claim::Run(1)));
    assert_eq!(worker.finish(JobOutcome::Failed), Ok(Some(ExecutionError { worker: 2 })));
    assert_eq!(worker.state, WorkerState::Idle);
    assert_eq!(worker.fetch(&mut queue), Ok(Claim::Run(2)));
}

#[test]
fn only_an_executing_worker_may_finish() {
    let mut idle = Worker::new(0);
    assert_eq!(idle.finish(JobOutcome::Completed), Err(ProtocolError::NotExecuting));
    assert_eq!(idle.state, WorkerState::Idle);
    let mut stopped = Worker { id: 1, state: WorkerState::Stopped };
    assert_eq!(stopped.finish(JobOutcome::Failed), Err(ProtocolError::NotExecuting));
    assert_eq!(stopped.state, WorkerState::Stopped);
}
