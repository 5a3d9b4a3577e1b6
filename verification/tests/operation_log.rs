use delicate::operation_log::delay_after;
use delicate::operation_log::launch_operation_log_consumer;
use delicate::operation_log::OperationLogConsumer;
use delicate::operation_log::PersistOutcome;
use delicate::operation_log::QueueFullError;
use delicate::operation_log::RetryPolicy;
use delicate::operation_log::Verdict;

fn policy() -> RetryPolicy {
    RetryPolicy { max_attempts: 4, base_delay_ms: 100, max_delay_ms: 350 }
}

#[test]
fn full_queue_refuses_at_once() {
    let mut consumer: OperationLogConsumer<String> = launch_operation_log_consumer(2, policy());
    assert_eq!(consumer.enqueue(String::from("login")), Ok(()));
    assert_eq!(consumer.enqueue(String::from("create task")), Ok(()));
    assert_eq!(consumer.enqueue(String::from("delete task")), Err(QueueFullError));
    assert_eq!(consumer.len(), 2);
    assert_eq!(consumer.next(), Some(&String::from("login")));
    assert_eq!(consumer.settle(PersistOutcome::Stored), Verdict::Done(String::from("login")));
    assert_eq!(consumer.enqueue(String::from("delete task")), Ok(()));
    assert_eq!(consumer.len(), 2);
}

#[test]
fn queue_without_room_takes_nothing() {
    let mut consumer: OperationLogConsumer<u8> = launch_operation_log_consumer(0, policy());
    assert_eq!(consumer.enqueue(1), Err(QueueFullError));
    assert_eq!(consumer.len(), 0);
    assert_eq!(consumer.next(), None);
    assert_eq!(consumer.settle(PersistOutcome::Stored), Verdict::Idle);
}

#[test]
fn entries_are_stored_in_the_order_they_came() {
    let mut consumer: OperationLogConsumer<u32> = launch_operation_log_consumer(10, policy());
    for entry in [5, 3, 9, 1, 7] {
        assert_eq!(consumer.enqueue(entry), Ok(()));
    }
    let mut stored = Vec::new();
    while let Some(entry) = consumer.next() {
        stored.push(*entry);
        assert_eq!(consumer.settle(PersistOutcome::Stored), Verdict::Done(*stored.last().unwrap()));
    }
    assert_eq!(stored, vec![5, 3, 9, 1, 7]);
    assert_eq!(consumer.len(), 0);
}

#[test]
fn failure_that_may_pass_is_tried_again_with_growing_delay() {
    let mut consumer: OperationLogConsumer<u32> = launch_operation_log_consumer(4, policy());
    consumer.enqueue(11).expect("room");
    consumer.enqueue(12).expect("room");
    assert_eq!(consumer.settle(PersistOutcome::TransientFailure), Verdict::RetryAfter(100));
    assert_eq!(consumer.next(), Some(&11));
    assert_eq!(consumer.settle(PersistOutcome::TransientFailure), Verdict::RetryAfter(200));
    assert_eq!(consumer.settle(PersistOutcome::TransientFailure), Verdict::RetryAfter(350));
    assert_eq!(consumer.next(), Some(&11));
    assert_eq!(consumer.len(), 2);
    // The fourth try is the last.
    assert_eq!(consumer.settle(PersistOutcome::TransientFailure), Verdict::GaveUp(11));
    assert_eq!(consumer.next(), Some(&12));
    // The next entry starts afresh.
    assert_eq!(consumer.settle(PersistOutcome::TransientFailure), Verdict::RetryAfter(100));
    assert_eq!(consumer.settle(PersistOutcome::Stored), Verdict::Done(12));
    assert_eq!(consumer.settle(PersistOutcome::Stored), Verdict::Idle);
}

#[test]
fn failure_that_will_not_pass_gives_the_entry_up() {
    let mut consumer: OperationLogConsumer<u32> = launch_operation_log_consumer(4, policy());
    consumer.enqueue(1).expect("room");
    consumer.enqueue(2).expect("room");
    assert_eq!(consumer.settle(PersistOutcome::PermanentFailure), Verdict::GaveUp(1));
    assert_eq!(consumer.next(), Some(&2));
    assert_eq!(consumer.len(), 1);
}

#[test]
fn policies_that_allow_one_try_or_none_give_up_at_once() {
    for max_attempts in [0, 1] {
        let once = RetryPolicy { max_attempts, base_delay_ms: 1, max_delay_ms: 10 };
        let mut consumer: OperationLogConsumer<u32> = launch_operation_log_consumer(4, once);
        consumer.enqueue(1).expect("room");
        assert_eq!(consumer.settle(PersistOutcome::TransientFailure), Verdict::GaveUp(1));
    }
}

#[test]
fn delay_doubles_up_to_the_longest_wait() {
    let p = RetryPolicy { max_attempts: 10, base_delay_ms: 50, max_delay_ms: 1000 };
    assert_eq!(delay_after(&p, 0), 50);
    assert_eq!(delay_after(&p, 1), 100);
    assert_eq!(delay_after(&p, 2), 200);
    assert_eq!(delay_after(&p, 3), 400);
    assert_eq!(delay_after(&p, 4), 800);
    assert_eq!(delay_after(&p, 5), 1000);
    assert_eq!(delay_after(&p, 6), 1000);
    assert_eq!(delay_after(&p, u32::MAX), 1000);
}

#[test]
fn delay_at_the_edges() {
    let none = RetryPolicy { max_attempts: 3, base_delay_ms: 0, max_delay_ms: 1000 };
    assert_eq!(delay_after(&none, 0), 0);
    assert_eq!(delay_after(&none, u32::MAX), 0);
    let capped = RetryPolicy { max_attempts: 3, base_delay_ms: 500, max_delay_ms: 0 };
    assert_eq!(delay_after(&capped, 0), 0);
    assert_eq!(delay_after(&capped, 3), 0);
    let over = RetryPolicy { max_attempts: 3, base_delay_ms: 500, max_delay_ms: 100 };
    assert_eq!(delay_after(&over, 0), 100);
    let wide = RetryPolicy { max_attempts: 3, base_delay_ms: 1, max_delay_ms: u64::MAX };
    assert_eq!(delay_after(&wide, 10), 1024);
    assert_eq!(delay_after(&wide, 63), 1u64 << 63);
    assert_eq!(delay_after(&wide, 64), u64::MAX);
    let odd = RetryPolicy { max_attempts: 3, base_delay_ms: 3, max_delay_ms: 13 };
    assert_eq!(delay_after(&odd, 2), 12);
    assert_eq!(delay_after(&odd, 3), 13);
}
