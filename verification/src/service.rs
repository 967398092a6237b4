//! The front end's decision logic: how the two remote operations map onto
//! the engine's primitives, one atomic step at a time.
//!
//! An enqueue is a single `send`. A dequeue is a small state machine,
//! `subscribing -> waiting -> { delivered, timed out, retry }`: the caller
//! subscribes, then waits on the handle; every wake-up, deadline expiry or
//! disconnection is handed to the matching step function here, which takes
//! the next atomic engine step and says what the call does next. The waiting
//! itself — suspension, timers, task plumbing — belongs to the runtime
//! around this crate; every decision is made here.

use vstd::prelude::*;

use crate::queue::MessageQueue;
use crate::queue::QueueBehavior;
use crate::queue::QueueModel;
use crate::queue::Subscription;
use crate::queue::abandon_model;
use crate::queue::claim_model;
use crate::queue::send_model;
use crate::queue::subscribe_model;

verus! {

/// Where one dequeue call stands.
#[derive(Debug, PartialEq, Eq)]
pub enum DequeueState {
    /// No live subscription; the next step is a fresh `subscribe`. Also the
    /// retry state after a wait that resolved without a message.
    Subscribing,
    /// A waiter with this identity is registered; the call is suspended on
    /// it.
    Waiting { waiter: u64 },
    /// Terminal: the call answers with this message.
    Delivered { message: Vec<u8> },
    /// Terminal: the call reports that its deadline passed first.
    TimedOut,
}

/// The queue service: one engine, mediating every enqueue and dequeue of
/// the process.
pub struct QueueService {
    queue: MessageQueue<Vec<u8>>,
}

impl View for QueueService {
    type V = QueueModel<Vec<u8>>;

    closed spec fn view(&self) -> QueueModel<Vec<u8>> {
        self.queue@
    }
}

impl QueueService {
    /// A service over a fresh engine with the given overflow policy.
    pub fn new(queue_behavior: QueueBehavior) -> (s: Self)
        ensures
            s@.inv(),
            s@.messages == Seq::<Vec<u8>>::empty(),
            s@.waiters == Seq::<u64>::empty(),
            s@.fired == Seq::<(u64, Vec<u8>)>::empty(),
            s@.behavior == queue_behavior,
            s@.next_id == 0,
    {
        QueueService { queue: MessageQueue::new(queue_behavior) }
    }

    /// The producer operation: hand the payload to the engine and
    /// acknowledge. It always succeeds; overflow or discarding is silent
    /// from the producer's side.
    pub fn enqueue(&mut self, message: Vec<u8>)
        requires
            old(self)@.inv(),
        ensures
            final(self)@.inv(),
            final(self)@ == send_model(old(self)@, message),
    {
        self.queue.send(message);
    }

    /// Whether another dequeue call can still be admitted (a fresh waiter
    /// identity is available).
    pub fn can_dequeue(&self) -> (b: bool)
        ensures
            b == (self@.next_id < u64::MAX),
    {
        self.queue.can_subscribe()
    }

    /// The first step of a dequeue call: subscribe. A buffered message is
    /// answered at once; otherwise the call moves to `Waiting` on a fresh
    /// waiter.
    pub fn dequeue_subscribe(&mut self) -> (st: DequeueState)
        requires
            old(self)@.inv(),
            old(self)@.next_id < u64::MAX,
        ensures
            final(self)@.inv(),
            final(self)@ == subscribe_model(old(self)@),
            old(self)@.messages.len() > 0 ==> (st matches DequeueState::Delivered { message }
                && message == old(self)@.messages[0]),
            old(self)@.messages.len() == 0 ==> st == (DequeueState::Waiting {
                waiter: old(self)@.next_id as u64,
            }),
    {
        match self.queue.subscribe() {
            Subscription::Ready { message } => DequeueState::Delivered { message },
            Subscription::Waiting { waiter } => DequeueState::Waiting { waiter },
        }
    }

    /// A waiting call woke up: try to claim the waiter's slot. A fired slot
    /// resolves the call; a waiter still pending keeps waiting; a waiter
    /// that is gone without a message resolves to a silent retry, back to
    /// `Subscribing`.
    pub fn dequeue_wake(&mut self, waiter: u64) -> (st: DequeueState)
        requires
            old(self)@.inv(),
        ensures
            final(self)@.inv(),
            final(self)@ == claim_model(old(self)@, waiter),
            old(self)@.has_fired(waiter) ==> st == (DequeueState::Delivered {
                message: old(self)@.fired_message(waiter),
            }),
            !old(self)@.has_fired(waiter) && old(self)@.has_waiter(waiter) ==> st
                == (DequeueState::Waiting { waiter }),
            !old(self)@.has_fired(waiter) && !old(self)@.has_waiter(waiter) ==> st
                == DequeueState::Subscribing,
    {
        match self.queue.claim(waiter) {
            Some(message) => DequeueState::Delivered { message },
            None => if self.queue.is_waiting(waiter) {
                DequeueState::Waiting { waiter }
            } else {
                DequeueState::Subscribing
            },
        }
    }

    /// A waiting call's deadline passed: abandon the subscription. The
    /// waiter, if still pending, is removed — no waiter outlives its call —
    /// and the call times out. If a send fired the slot first, that send
    /// won the race: the message is not lost but answers the call.
    pub fn dequeue_deadline(&mut self, waiter: u64) -> (st: DequeueState)
        requires
            old(self)@.inv(),
        ensures
            final(self)@.inv(),
            final(self)@ == abandon_model(old(self)@, waiter),
            !final(self)@.has_waiter(waiter),
            !final(self)@.has_fired(waiter),
            old(self)@.has_fired(waiter) ==> st == (DequeueState::Delivered {
                message: old(self)@.fired_message(waiter),
            }),
            !old(self)@.has_fired(waiter) ==> st == DequeueState::TimedOut,
    {
        match self.queue.abandon(waiter) {
            Some(message) => DequeueState::Delivered { message },
            None => DequeueState::TimedOut,
        }
    }

    /// A waiting call's consumer disconnected: abandon the subscription.
    /// The waiter, if still pending, is removed; a message that had already
    /// fired its slot has nobody to answer, so it goes back to the engine
    /// and is handed on or buffered per the overflow policy.
    pub fn dequeue_disconnect(&mut self, waiter: u64)
        requires
            old(self)@.inv(),
        ensures
            final(self)@.inv(),
            !final(self)@.has_waiter(waiter),
            !final(self)@.has_fired(waiter),
            old(self)@.has_fired(waiter) ==> final(self)@ == send_model(
                abandon_model(old(self)@, waiter),
                old(self)@.fired_message(waiter),
            ),
            !old(self)@.has_fired(waiter) ==> final(self)@ == abandon_model(old(self)@, waiter),
    {
        match self.queue.abandon(waiter) {
            Some(message) => {
                self.queue.send(message);
                proof {
                    let m = abandon_model(old(self)@, waiter);
                    let mz = send_model(m, old(self)@.fired_message(waiter));
                    if m.waiters.len() > 0 {
                        assert(mz.waiters == m.waiters.drop_first());
                        assert(!m.has_waiter(waiter));
                        assert(m.waiters[0] != waiter);
                        assert forall|i: int| 0 <= i < mz.waiters.len()
                            implies mz.waiters[i] != waiter by {
                            assert(mz.waiters[i] == m.waiters[i + 1]);
                        }
                        assert(!mz.has_waiter(waiter));
                        assert forall|i: int| 0 <= i < mz.fired.len()
                            implies mz.fired[i].0 != waiter by {
                            if i < mz.fired.len() - 1 {
                                assert(mz.fired[i] == m.fired[i]);
                            }
                        }
                        assert(!mz.has_fired(waiter));
                    }
                }
            }
            None => {}
        }
    }
}

} // verus!
