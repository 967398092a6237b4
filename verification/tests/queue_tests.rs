//! The queue engine, exercised step by step: buffering, eviction,
//! discarding, handoff order, single-fire slots and abandonment.

use dsqs::queue::MessageQueue;
use dsqs::queue::QueueBehavior;
use dsqs::queue::Subscription;

fn unbounded() -> MessageQueue<Vec<u8>> {
    MessageQueue::new(QueueBehavior::QueueMessages { max_size: None })
}

fn waiter_of(s: Subscription<Vec<u8>>) -> u64 {
    match s {
        Subscription::Waiting { waiter } => waiter,
        Subscription::Ready { .. } => panic!("expected a registered waiter"),
    }
}

fn message_of(s: Subscription<Vec<u8>>) -> Vec<u8> {
    match s {
        Subscription::Ready { message } => message,
        Subscription::Waiting { .. } => panic!("expected a buffered message"),
    }
}

#[test]
fn buffer_then_drain() {
    let mut q = unbounded();
    q.send(b"a".to_vec());
    q.send(b"b".to_vec());
    assert_eq!(q.buffered_len(), 2);
    assert_eq!(message_of(q.subscribe()), b"a".to_vec());
    assert_eq!(message_of(q.subscribe()), b"b".to_vec());
    assert_eq!(q.buffered_len(), 0);
}

#[test]
fn bounded_eviction() {
    let mut q: MessageQueue<Vec<u8>> =
        MessageQueue::new(QueueBehavior::QueueMessages { max_size: Some(2) });
    q.send(b"a".to_vec());
    q.send(b"b".to_vec());
    q.send(b"c".to_vec());
    assert_eq!(q.buffered_len(), 2);
    assert_eq!(message_of(q.subscribe()), b"b".to_vec());
    assert_eq!(message_of(q.subscribe()), b"c".to_vec());
}

#[test]
fn bound_of_zero_keeps_only_the_newest() {
    let mut q: MessageQueue<Vec<u8>> =
        MessageQueue::new(QueueBehavior::QueueMessages { max_size: Some(0) });
    q.send(b"a".to_vec());
    assert_eq!(q.buffered_len(), 1);
    q.send(b"b".to_vec());
    assert_eq!(q.buffered_len(), 1);
    assert_eq!(message_of(q.subscribe()), b"b".to_vec());
}

#[test]
fn drop_policy_discards_when_idle() {
    let mut q: MessageQueue<Vec<u8>> = MessageQueue::new(QueueBehavior::DropMessages);
    q.send(b"x".to_vec());
    assert_eq!(q.buffered_len(), 0);
    let w = waiter_of(q.subscribe());
    assert_eq!(q.claim(w), None);
    assert_eq!(q.abandon(w), None);
}

#[test]
fn drop_policy_still_hands_off_to_a_waiter() {
    let mut q: MessageQueue<Vec<u8>> = MessageQueue::new(QueueBehavior::DropMessages);
    let w = waiter_of(q.subscribe());
    q.send(b"x".to_vec());
    assert_eq!(q.claim(w), Some(b"x".to_vec()));
}

#[test]
fn fifo_handoff_in_registration_order() {
    let mut q = unbounded();
    let w1 = waiter_of(q.subscribe());
    let w2 = waiter_of(q.subscribe());
    let w3 = waiter_of(q.subscribe());
    assert_eq!(q.waiting_len(), 3);
    q.send(b"p1".to_vec());
    q.send(b"p2".to_vec());
    q.send(b"p3".to_vec());
    assert_eq!(q.waiting_len(), 0);
    assert_eq!(q.claim(w1), Some(b"p1".to_vec()));
    assert_eq!(q.claim(w2), Some(b"p2".to_vec()));
    assert_eq!(q.claim(w3), Some(b"p3".to_vec()));
}

#[test]
fn a_slot_fires_at_most_once() {
    let mut q = unbounded();
    let w = waiter_of(q.subscribe());
    q.send(b"m".to_vec());
    assert_eq!(q.claim(w), Some(b"m".to_vec()));
    assert_eq!(q.claim(w), None);
    assert_eq!(q.abandon(w), None);
}

#[test]
fn send_first_then_abandon_recovers_the_message() {
    let mut q = unbounded();
    let w = waiter_of(q.subscribe());
    q.send(b"m".to_vec());
    assert_eq!(q.abandon(w), Some(b"m".to_vec()));
    assert_eq!(q.claim(w), None);
}

#[test]
fn abandon_first_then_send_buffers_the_message() {
    let mut q = unbounded();
    let w = waiter_of(q.subscribe());
    assert_eq!(q.abandon(w), None);
    assert_eq!(q.waiting_len(), 0);
    q.send(b"m".to_vec());
    assert_eq!(q.buffered_len(), 1);
    assert_eq!(message_of(q.subscribe()), b"m".to_vec());
}

#[test]
fn abandon_first_then_send_reaches_the_next_waiter() {
    let mut q = unbounded();
    let w1 = waiter_of(q.subscribe());
    let w2 = waiter_of(q.subscribe());
    assert_eq!(q.abandon(w1), None);
    q.send(b"m".to_vec());
    assert_eq!(q.claim(w2), Some(b"m".to_vec()));
}

#[test]
fn order_is_kept_when_a_middle_waiter_abandons() {
    let mut q = unbounded();
    let w1 = waiter_of(q.subscribe());
    let w2 = waiter_of(q.subscribe());
    let w3 = waiter_of(q.subscribe());
    assert_eq!(q.abandon(w2), None);
    q.send(b"a".to_vec());
    q.send(b"b".to_vec());
    assert_eq!(q.claim(w1), Some(b"a".to_vec()));
    assert_eq!(q.claim(w2), None);
    assert_eq!(q.claim(w3), Some(b"b".to_vec()));
}

#[test]
fn is_waiting_follows_registration_and_abandonment() {
    let mut q = unbounded();
    let w = waiter_of(q.subscribe());
    assert!(q.is_waiting(w));
    assert_eq!(q.abandon(w), None);
    assert!(!q.is_waiting(w));
}

#[test]
fn a_fresh_engine_is_empty_and_open() {
    let q: MessageQueue<Vec<u8>> = MessageQueue::new(QueueBehavior::QueueMessages {
        max_size: None,
    });
    assert_eq!(q.buffered_len(), 0);
    assert_eq!(q.waiting_len(), 0);
    assert!(q.can_subscribe());
}

#[test]
fn messages_of_any_payload_type() {
    let mut q: MessageQueue<u64> = MessageQueue::new(QueueBehavior::QueueMessages {
        max_size: None,
    });
    q.send(7);
    match q.subscribe() {
        Subscription::Ready { message } => assert_eq!(message, 7),
        Subscription::Waiting { .. } => panic!("a buffered message was expected"),
    }
}
