//! The front end's dequeue state machine, driven through the same event
//! orders that timeouts, wake-ups, races and disconnections produce.

use dsqs::queue::QueueBehavior;
use dsqs::service::DequeueState;
use dsqs::service::QueueService;

fn unbounded() -> QueueService {
    QueueService::new(QueueBehavior::QueueMessages { max_size: None })
}

fn waiter_of(st: DequeueState) -> u64 {
    match st {
        DequeueState::Waiting { waiter } => waiter,
        other => panic!("expected a waiting call, found {:?}", other),
    }
}

#[test]
fn enqueue_then_dequeue_answers_at_once() {
    let mut s = unbounded();
    s.enqueue(b"m".to_vec());
    assert_eq!(s.dequeue_subscribe(), DequeueState::Delivered { message: b"m".to_vec() });
}

#[test]
fn a_wake_before_any_send_keeps_waiting() {
    let mut s = unbounded();
    let w = waiter_of(s.dequeue_subscribe());
    assert_eq!(s.dequeue_wake(w), DequeueState::Waiting { waiter: w });
}

#[test]
fn a_send_resolves_the_waiting_call_on_wake() {
    let mut s = unbounded();
    let w = waiter_of(s.dequeue_subscribe());
    s.enqueue(b"m".to_vec());
    assert_eq!(s.dequeue_wake(w), DequeueState::Delivered { message: b"m".to_vec() });
}

#[test]
fn a_wake_after_resolution_retries_with_a_fresh_subscription() {
    let mut s = unbounded();
    let w = waiter_of(s.dequeue_subscribe());
    s.enqueue(b"m".to_vec());
    assert_eq!(s.dequeue_wake(w), DequeueState::Delivered { message: b"m".to_vec() });
    assert_eq!(s.dequeue_wake(w), DequeueState::Subscribing);
}

#[test]
fn timeout_correctness_no_waiter_outlives_the_call() {
    let mut s = unbounded();
    let w = waiter_of(s.dequeue_subscribe());
    assert_eq!(s.dequeue_deadline(w), DequeueState::TimedOut);
    // the later enqueue is buffered, not handed to the stale waiter
    s.enqueue(b"late".to_vec());
    assert_eq!(s.dequeue_wake(w), DequeueState::Subscribing);
    assert_eq!(s.dequeue_subscribe(), DequeueState::Delivered { message: b"late".to_vec() });
}

#[test]
fn drop_policy_times_out_after_an_unconsumed_enqueue() {
    let mut s = QueueService::new(QueueBehavior::DropMessages);
    s.enqueue(b"x".to_vec());
    // the message was discarded, so the call has to wait ...
    let w = waiter_of(s.dequeue_subscribe());
    // ... and its deadline passes with nothing delivered
    assert_eq!(s.dequeue_deadline(w), DequeueState::TimedOut);
}

#[test]
fn a_deadline_racing_a_send_does_not_lose_the_message() {
    let mut s = unbounded();
    let w = waiter_of(s.dequeue_subscribe());
    s.enqueue(b"m".to_vec());
    // the send fired the slot first: the deadline step finds the message
    assert_eq!(s.dequeue_deadline(w), DequeueState::Delivered { message: b"m".to_vec() });
}

#[test]
fn a_disconnection_returns_a_fired_message_to_the_engine() {
    let mut s = unbounded();
    let w = waiter_of(s.dequeue_subscribe());
    s.enqueue(b"m".to_vec());
    s.dequeue_disconnect(w);
    assert_eq!(s.dequeue_subscribe(), DequeueState::Delivered { message: b"m".to_vec() });
}

#[test]
fn a_disconnection_before_any_send_just_unregisters() {
    let mut s = unbounded();
    let w = waiter_of(s.dequeue_subscribe());
    s.dequeue_disconnect(w);
    s.enqueue(b"m".to_vec());
    assert_eq!(s.dequeue_wake(w), DequeueState::Subscribing);
    assert_eq!(s.dequeue_subscribe(), DequeueState::Delivered { message: b"m".to_vec() });
}

#[test]
fn concurrent_dequeues_are_served_in_subscription_order() {
    let mut s = unbounded();
    let w1 = waiter_of(s.dequeue_subscribe());
    let w2 = waiter_of(s.dequeue_subscribe());
    s.enqueue(b"p1".to_vec());
    s.enqueue(b"p2".to_vec());
    assert_eq!(s.dequeue_wake(w2), DequeueState::Delivered { message: b"p2".to_vec() });
    assert_eq!(s.dequeue_wake(w1), DequeueState::Delivered { message: b"p1".to_vec() });
}

#[test]
fn a_fresh_service_admits_dequeues() {
    let s = unbounded();
    assert!(s.can_dequeue());
}
