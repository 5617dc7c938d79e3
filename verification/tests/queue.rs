use servidor_http_threadpool::{HandoffQueue, SendError, TryReceiveError};

#[test]
fn fresh_queue_is_empty_and_open() {
    let queue: HandoffQueue<u32> = HandoffQueue::new();
    assert_eq!(queue.len(), 0);
    assert!(queue.is_empty());
    assert!(queue.accepts());
    assert!(!queue.is_disconnected());
}

#[test]
fn jobs_leave_the_queue_in_the_order_they_were_sent() {
    let mut queue = HandoffQueue::new();
    for job in [10u32, 20, 30, 40] {
        assert_eq!(queue.send(job), Ok(()));
    }
    assert_eq!(queue.len(), 4);
    assert_eq!(queue.try_receive(), Ok(10));
    assert_eq!(queue.try_receive(), Ok(20));
    assert_eq!(queue.send(50), Ok(()));
    assert_eq!(queue.try_receive(), Ok(30));
    assert_eq!(queue.try_receive(), Ok(40));
    assert_eq!(queue.try_receive(), Ok(50));
    assert_eq!(queue.len(), 0);
}

#[test]
fn each_job_is_delivered_once() {
    let mut queue = HandoffQueue::new();
    assert_eq!(queue.send("only"), Ok(()));
    assert_eq!(queue.try_receive(), Ok("only"));
    assert_eq!(queue.try_receive(), Err(TryReceiveError::Empty));
    assert_eq!(queue.try_receive(), Err(TryReceiveError::Empty));
}

#[test]
fn empty_open_queue_reports_empty() {
    let mut queue: HandoffQueue<u8> = HandoffQueue::new();
    assert_eq!(queue.try_receive(), Err(TryReceiveError::Empty));
    assert!(queue.accepts());
}

#[test]
fn closed_producer_lets_the_queue_drain_before_it_disconnects() {
    let mut queue = HandoffQueue::new();
    assert_eq!(queue.send(1u64), Ok(()));
    assert_eq!(queue.send(2u64), Ok(()));
    queue.close_producer();
    assert!(!queue.accepts());
    assert!(!queue.is_disconnected());
    assert_eq!(queue.try_receive(), Ok(1));
    assert_eq!(queue.try_receive(), Ok(2));
    assert!(queue.is_disconnected());
    assert_eq!(queue.try_receive(), Err(TryReceiveError::Disconnected));
}

#[test]
fn send_after_the_producer_closed_hands_the_job_back() {
    let mut queue = HandoffQueue::new();
    assert_eq!(queue.send(1u64), Ok(()));
    queue.close_producer();
    assert_eq!(queue.send(2u64), Err(SendError(2)));
    assert_eq!(queue.len(), 1);
    assert_eq!(queue.try_receive(), Ok(1));
}

#[test]
fn send_without_a_consumer_hands_the_job_back() {
    let mut queue = HandoffQueue::new();
    let unclaimed = queue.close_consumer();
    assert!(unclaimed.is_empty());
    assert_eq!(queue.send(7i32), Err(SendError(7)));
    assert_eq!(queue.len(), 0);
    assert!(queue.is_disconnected());
    assert_eq!(queue.try_receive(), Err(TryReceiveError::Disconnected));
}

#[test]
fn closing_the_consumer_returns_the_unclaimed_jobs_in_order() {
    let mut queue = HandoffQueue::new();
    for job in [3u8, 1, 2] {
        assert_eq!(queue.send(job), Ok(()));
    }
    assert_eq!(queue.try_receive(), Ok(3));
    let unclaimed: Vec<u8> = queue.close_consumer().into_iter().collect();
    assert_eq!(unclaimed, vec![1, 2]);
    assert!(queue.is_empty());
    assert!(!queue.accepts());
}

#[test]
fn queue_is_unbounded_for_many_jobs() {
    let mut queue = HandoffQueue::new();
    for job in 0..10_000u32 {
        assert_eq!(queue.send(job), Ok(()));
    }
    assert_eq!(queue.len(), 10_000);
    for job in 0..10_000u32 {
        assert_eq!(queue.try_receive(), Ok(job));
    }
    assert_eq!(queue.try_receive(), Err(TryReceiveError::Empty));
}
