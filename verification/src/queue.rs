//! The queue engine: the rendezvous structure between producers and
//! consumers.
//!
//! The engine holds two first-in-first-out sequences — buffered messages and
//! pending waiters — plus the overflow policy. A waiter stands for one
//! consumer's outstanding request; its single-fire slot is modelled by the
//! `fired` sequence: a message handed to a waiter sits there, associated with
//! the waiter's identity, until the owning consumer claims it (or abandons
//! the wait and recovers it). Every operation is one atomic step; callers
//! that share the engine between threads or tasks serialise the steps with a
//! lock of their own.

use vstd::prelude::*;

verus! {

/// What `send` does with a message when no waiter is pending: buffer it
/// (optionally bounded, evicting the oldest on overflow) or discard it.
#[derive(Clone, Copy, Debug, PartialEq, Eq)]
pub enum QueueBehavior {
    QueueMessages { max_size: Option<usize> },
    DropMessages,
}

/// The mathematical model of the engine: the two FIFO sequences, the fired
/// (delivered but not yet claimed) slots, the policy, and the next fresh
/// waiter identity.
pub ghost struct QueueModel<T> {
    /// Buffered messages, oldest first.
    pub messages: Seq<T>,
    /// Identities of pending waiters, earliest-registered first.
    pub waiters: Seq<u64>,
    /// Fired single-fire slots: (waiter identity, message), in firing order.
    pub fired: Seq<(u64, T)>,
    /// The overflow policy, immutable for the engine's lifetime.
    pub behavior: QueueBehavior,
    /// Strict upper bound on every identity ever handed out.
    pub next_id: int,
}

impl<T> QueueModel<T> {
    /// Well-formedness: identities are distinct and below `next_id`, a
    /// pending waiter is never also fired, buffered messages and waiters are
    /// never both non-empty, and the buffer respects the policy.
    pub open spec fn inv(self) -> bool {
        &&& 0 <= self.next_id <= u64::MAX
        &&& self.waiters.no_duplicates()
        &&& (forall|i: int, j: int|
                0 <= i < self.fired.len() && 0 <= j < self.fired.len() && i != j
                    ==> self.fired[i].0 != self.fired[j].0)
        &&& (forall|i: int| 0 <= i < self.waiters.len() ==> self.waiters[i] < self.next_id)
        &&& (forall|i: int| 0 <= i < self.fired.len() ==> self.fired[i].0 < self.next_id)
        &&& (forall|i: int, j: int|
                0 <= i < self.waiters.len() && 0 <= j < self.fired.len()
                    ==> self.waiters[i] != self.fired[j].0)
        &&& (self.messages.len() == 0 || self.waiters.len() == 0)
        &&& self.buffer_in_bounds()
    }

    /// The buffer obeys the overflow policy: empty under `DropMessages`, and
    /// under a bound of `max` never longer than `max` (or one entry when the
    /// bound is zero, since a message is buffered after the eviction).
    pub open spec fn buffer_in_bounds(self) -> bool {
        match self.behavior {
            QueueBehavior::QueueMessages { max_size } => match max_size {
                Some(max) => self.messages.len() <= (if max == 0 { 1int } else { max as int }),
                None => true,
            },
            QueueBehavior::DropMessages => self.messages.len() == 0,
        }
    }

    /// Whether `w` is a pending waiter.
    pub open spec fn has_waiter(self, w: u64) -> bool {
        self.waiters.contains(w)
    }

    /// Whether `w`'s single-fire slot has been fired and not yet claimed.
    pub open spec fn has_fired(self, w: u64) -> bool {
        exists|i: int| 0 <= i < self.fired.len() && self.fired[i].0 == w
    }

    /// The index of `w`'s fired slot (meaningful only when `has_fired`).
    pub open spec fn fired_index(self, w: u64) -> int {
        choose|i: int| 0 <= i < self.fired.len() && self.fired[i].0 == w
    }

    /// The message sitting in `w`'s fired slot.
    pub open spec fn fired_message(self, w: u64) -> T {
        self.fired[self.fired_index(w)].1
    }

    /// The index of `w` in the waiter sequence (meaningful only when
    /// `has_waiter`).
    pub open spec fn waiter_index(self, w: u64) -> int {
        choose|i: int| 0 <= i < self.waiters.len() && self.waiters[i] == w
    }
}

/// What one `send` does to the model: hand the message to the earliest
/// pending waiter, or else apply the overflow policy.
pub open spec fn send_model<T>(m: QueueModel<T>, msg: T) -> QueueModel<T> {
    if m.waiters.len() > 0 {
        QueueModel {
            messages: m.messages,
            waiters: m.waiters.drop_first(),
            fired: m.fired.push((m.waiters[0], msg)),
            behavior: m.behavior,
            next_id: m.next_id,
        }
    } else {
        match m.behavior {
            QueueBehavior::QueueMessages { max_size } => QueueModel {
                messages: match max_size {
                    Some(max) => if m.messages.len() >= max && m.messages.len() > 0 {
                        m.messages.drop_first().push(msg)
                    } else {
                        m.messages.push(msg)
                    },
                    None => m.messages.push(msg),
                },
                waiters: m.waiters,
                fired: m.fired,
                behavior: m.behavior,
                next_id: m.next_id,
            },
            QueueBehavior::DropMessages => m,
        }
    }
}

/// What one `subscribe` does to the model: take the oldest buffered message,
/// or else register a fresh waiter. The engine hands out at most `u64::MAX`
/// identities; with the identity space exhausted no further waiter can be
/// registered, and the model is unchanged.
pub open spec fn subscribe_model<T>(m: QueueModel<T>) -> QueueModel<T> {
    if m.messages.len() > 0 {
        QueueModel {
            messages: m.messages.drop_first(),
            waiters: m.waiters,
            fired: m.fired,
            behavior: m.behavior,
            next_id: m.next_id,
        }
    } else if m.next_id >= u64::MAX {
        m
    } else {
        QueueModel {
            messages: m.messages,
            waiters: m.waiters.push(m.next_id as u64),
            fired: m.fired,
            behavior: m.behavior,
            next_id: m.next_id + 1,
        }
    }
}

/// What a consumer's claim of its fired slot does to the model: the slot, if
/// fired, is consumed; otherwise nothing changes.
pub open spec fn claim_model<T>(m: QueueModel<T>, w: u64) -> QueueModel<T> {
    if m.has_fired(w) {
        QueueModel {
            messages: m.messages,
            waiters: m.waiters,
            fired: m.fired.remove(m.fired_index(w)),
            behavior: m.behavior,
            next_id: m.next_id,
        }
    } else {
        m
    }
}

/// What the claim hands back: the slot's message exactly when it was fired.
pub open spec fn claim_result<T>(m: QueueModel<T>, w: u64) -> Option<T> {
    if m.has_fired(w) {
        Some(m.fired_message(w))
    } else {
        None
    }
}

/// What abandoning a subscription does to the model: a still-pending waiter
/// is removed from the registry; a fired slot is consumed (its message is
/// recovered by the caller); an already-retired identity is a no-op.
pub open spec fn abandon_model<T>(m: QueueModel<T>, w: u64) -> QueueModel<T> {
    if m.has_waiter(w) {
        QueueModel {
            messages: m.messages,
            waiters: m.waiters.remove(m.waiter_index(w)),
            fired: m.fired,
            behavior: m.behavior,
            next_id: m.next_id,
        }
    } else {
        claim_model(m, w)
    }
}

/// What abandonment hands back: the recovered message exactly when the slot
/// had already been fired.
pub open spec fn abandon_result<T>(m: QueueModel<T>, w: u64) -> Option<T> {
    if m.has_waiter(w) {
        None
    } else {
        claim_result(m, w)
    }
}

/// The engine. All fields are private; contracts speak of the view.
pub struct MessageQueue<T> {
    messages: Vec<T>,
    waiters: Vec<u64>,
    fired: Vec<(u64, T)>,
    behavior: QueueBehavior,
    next_id: u64,
}

impl<T> View for MessageQueue<T> {
    type V = QueueModel<T>;

    closed spec fn view(&self) -> QueueModel<T> {
        QueueModel {
            messages: self.messages@,
            waiters: self.waiters@,
            fired: self.fired@,
            behavior: self.behavior,
            next_id: self.next_id as int,
        }
    }
}

/// One consumer's handle: either a message handed over synchronously from
/// the buffer, or the identity of a registered waiter to be resolved later.
pub enum Subscription<T> {
    Ready { message: T },
    Waiting { waiter: u64 },
}

impl<T> MessageQueue<T> {
    /// A fresh engine with the given overflow policy and nothing pending.
    pub fn new(behavior: QueueBehavior) -> (q: Self)
        ensures
            q@.inv(),
            q@.messages == Seq::<T>::empty(),
            q@.waiters == Seq::<u64>::empty(),
            q@.fired == Seq::<(u64, T)>::empty(),
            q@.behavior == behavior,
            q@.next_id == 0,
    {
        MessageQueue {
            messages: Vec::new(),
            waiters: Vec::new(),
            fired: Vec::new(),
            behavior,
            next_id: 0,
        }
    }

    /// How many messages are buffered.
    pub fn buffered_len(&self) -> (n: usize)
        ensures
            n == self@.messages.len(),
    {
        self.messages.len()
    }

    /// How many waiters are pending.
    pub fn waiting_len(&self) -> (n: usize)
        ensures
            n == self@.waiters.len(),
    {
        self.waiters.len()
    }

    /// Whether another waiter identity can still be handed out.
    pub fn can_subscribe(&self) -> (b: bool)
        ensures
            b == (self@.next_id < u64::MAX),
    {
        self.next_id < u64::MAX
    }

    /// Atomically: dequeue the oldest buffered message into a ready handle,
    /// or register a fresh waiter and hand back its identity. Never blocks.
    pub fn subscribe(&mut self) -> (s: Subscription<T>)
        requires
            old(self)@.inv(),
            old(self)@.next_id < u64::MAX,
        ensures
            final(self)@.inv(),
            final(self)@ == subscribe_model(old(self)@),
            old(self)@.messages.len() > 0 ==> (s matches Subscription::Ready { message }
                && message == old(self)@.messages[0]),
            old(self)@.messages.len() == 0 ==> s == (Subscription::Waiting::<T> {
                waiter: old(self)@.next_id as u64,
            }),
    {
        if self.messages.len() > 0 {
            let message = self.messages.remove(0);
            Subscription::Ready { message }
        } else {
            let id = self.next_id;
            self.next_id = self.next_id + 1;
            self.waiters.push(id);
            proof {
                assert forall|i: int, j: int|
                    0 <= i < self@.waiters.len() && 0 <= j < self@.waiters.len() && i != j
                    implies self@.waiters[i] != self@.waiters[j] by {
                    if i < self@.waiters.len() - 1 && j < self@.waiters.len() - 1 {
                        assert(old(self)@.waiters[i] != old(self)@.waiters[j]);
                    }
                }
            }
            Subscription::Waiting { waiter: id }
        }
    }

    /// Atomically: hand the message to the earliest pending waiter (its
    /// single-fire slot fires), or else buffer or discard it per the overflow
    /// policy. Never blocks and never fails.
    pub fn send(&mut self, message: T)
        requires
            old(self)@.inv(),
        ensures
            final(self)@.inv(),
            final(self)@ == send_model(old(self)@, message),
    {
        if self.waiters.len() > 0 {
            let w = self.waiters.remove(0);
            self.fired.push((w, message));
        } else {
            // no waiter is pending: the overflow policy decides
            let behavior = self.behavior;
            match behavior {
                QueueBehavior::QueueMessages { max_size } => {
                    if let Some(max) = max_size {
                        if self.messages.len() >= max && self.messages.len() > 0 {
                            self.messages.remove(0);
                        }
                    }
                    self.messages.push(message);
                }
                QueueBehavior::DropMessages => {}
            }
        }
    }

    /// Whether the waiter with this identity is still registered.
    pub fn is_waiting(&self, waiter: u64) -> (b: bool)
        ensures
            b == self@.has_waiter(waiter),
    {
        let mut i: usize = 0;
        while i < self.waiters.len()
            invariant
                i <= self.waiters.len(),
                forall|j: int| 0 <= j < i ==> self@.waiters[j] != waiter,
            decreases self.waiters.len() - i,
        {
            if self.waiters[i] == waiter {
                return true;
            }
            i = i + 1;
        }
        false
    }

    /// Atomically: claim the message out of this waiter's fired slot, if the
    /// slot has fired. The slot is readable at most once: a successful claim
    /// consumes it. Returns `None` while the waiter is still pending, and
    /// also for an identity already retired.
    pub fn claim(&mut self, waiter: u64) -> (r: Option<T>)
        requires
            old(self)@.inv(),
        ensures
            final(self)@.inv(),
            final(self)@ == claim_model(old(self)@, waiter),
            r == claim_result(old(self)@, waiter),
    {
        let mut i: usize = 0;
        while i < self.fired.len()
            invariant
                old(self)@.inv(),
                self@ == old(self)@,
                i <= self.fired.len(),
                forall|j: int| 0 <= j < i ==> self@.fired[j].0 != waiter,
            decreases self.fired.len() - i,
        {
            if self.fired[i].0 == waiter {
                proof {
                    assert(old(self)@.has_fired(waiter));
                    let k = old(self)@.fired_index(waiter);
                    assert(0 <= k < old(self)@.fired.len() && old(self)@.fired[k].0 == waiter);
                    assert(k == i);
                }
                let entry = self.fired.remove(i);
                return Some(entry.1);
            }
            i = i + 1;
        }
        None
    }

    /// Atomically: end this subscription's claim on the engine. A waiter
    /// still registered is removed from the registry (its slot never fires);
    /// a slot that already fired is consumed and its message handed back to
    /// the caller; an identity already retired is a no-op. Exactly one of
    /// removal and firing ever wins: afterwards the identity is neither
    /// registered nor fired.
    pub fn abandon(&mut self, waiter: u64) -> (r: Option<T>)
        requires
            old(self)@.inv(),
        ensures
            final(self)@.inv(),
            final(self)@ == abandon_model(old(self)@, waiter),
            r == abandon_result(old(self)@, waiter),
            !final(self)@.has_waiter(waiter),
            !final(self)@.has_fired(waiter),
    {
        let mut i: usize = 0;
        while i < self.waiters.len()
            invariant
                old(self)@.inv(),
                self@ == old(self)@,
                i <= self.waiters.len(),
                forall|j: int| 0 <= j < i ==> self@.waiters[j] != waiter,
            decreases self.waiters.len() - i,
        {
            if self.waiters[i] == waiter {
                proof {
                    assert(old(self)@.waiters[i as int] == waiter);
                    assert(old(self)@.has_waiter(waiter));
                    let k = old(self)@.waiter_index(waiter);
                    assert(0 <= k < old(self)@.waiters.len() && old(self)@.waiters[k] == waiter);
                    assert(k == i);
                }
                self.waiters.remove(i);
                return None;
            }
            i = i + 1;
        }
        proof {
            assert(!old(self)@.has_waiter(waiter));
        }
        let claimed = self.claim(waiter);
        proof {
            if old(self)@.has_fired(waiter) {
                let k = old(self)@.fired_index(waiter);
                assert(forall|j: int|
                    0 <= j < old(self)@.fired.len() && j != k
                        ==> old(self)@.fired[j].0 != waiter);
                assert forall|j: int| 0 <= j < self@.fired.len()
                    implies self@.fired[j].0 != waiter by {
                    if j < k {
                        assert(self@.fired[j] == old(self)@.fired[j]);
                    } else {
                        assert(self@.fired[j] == old(self)@.fired[j + 1]);
                    }
                }
            }
        }
        claimed
    }
}

} // verus!
