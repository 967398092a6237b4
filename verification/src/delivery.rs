//! Delivery guarantees, proved over the engine's model: first-in-first-out
//! handoff, exactly-once delivery, and safety of cancellation racing a
//! send. Each guarantee is stated over the model transitions that the
//! engine's operations are specified by, so it holds of every run of the
//! engine, under every interleaving of the atomic steps.

use vstd::prelude::*;

use crate::queue::QueueBehavior;
use crate::queue::QueueModel;
use crate::queue::abandon_model;
use crate::queue::abandon_result;
use crate::queue::claim_model;
use crate::queue::claim_result;
use crate::queue::send_model;
use crate::queue::subscribe_model;

verus! {

/// One atomic engine step, as a value, so that whole runs can be spoken of.
pub enum QueueOp<T> {
    Subscribe,
    Send { message: T },
    Claim { waiter: u64 },
    Abandon { waiter: u64 },
}

/// The model after one step.
pub open spec fn apply_op<T>(m: QueueModel<T>, op: QueueOp<T>) -> QueueModel<T> {
    match op {
        QueueOp::Subscribe => subscribe_model(m),
        QueueOp::Send { message } => send_model(m, message),
        QueueOp::Claim { waiter } => claim_model(m, waiter),
        QueueOp::Abandon { waiter } => abandon_model(m, waiter),
    }
}

/// The model after a whole run of steps, first step first.
pub open spec fn apply_ops<T>(m: QueueModel<T>, ops: Seq<QueueOp<T>>) -> QueueModel<T>
    decreases ops.len(),
{
    if ops.len() == 0 {
        m
    } else {
        apply_ops(apply_op(m, ops[0]), ops.drop_first())
    }
}

/// Whether the engine still holds this payload somewhere a consumer can get
/// it: buffered, or sitting in a fired slot.
pub open spec fn holds_message<T>(m: QueueModel<T>, msg: T) -> bool {
    m.messages.contains(msg) || (exists|i: int| 0 <= i < m.fired.len() && m.fired[i].1 == msg)
}

/// Every atomic step preserves the engine invariant, and identities only
/// ever grow: no step hands an old identity out again.
pub proof fn lemma_op_preserves_inv<T>(m: QueueModel<T>, op: QueueOp<T>)
    requires
        m.inv(),
    ensures
        apply_op(m, op).inv(),
        m.next_id <= apply_op(m, op).next_id,
{
    let m1 = apply_op(m, op);
    match op {
        QueueOp::Subscribe => {
            if m.messages.len() == 0 && m.next_id < u64::MAX {
                assert forall|i: int, j: int|
                    0 <= i < m1.waiters.len() && 0 <= j < m1.waiters.len() && i != j
                    implies m1.waiters[i] != m1.waiters[j] by {
                    if i < m1.waiters.len() - 1 && j < m1.waiters.len() - 1 {
                        assert(m.waiters[i] != m.waiters[j]);
                    } else if i < m1.waiters.len() - 1 {
                        assert(m.waiters[i] < m.next_id);
                        assert(m1.waiters[j] == m.next_id as u64);
                    } else {
                        assert(m.waiters[j] < m.next_id);
                        assert(m1.waiters[i] == m.next_id as u64);
                    }
                }
            }
        }
        QueueOp::Send { message } => {}
        QueueOp::Claim { waiter } => {
            if m.has_fired(waiter) {
                let k = m.fired_index(waiter);
                assert forall|i: int, j: int|
                    0 <= i < m1.fired.len() && 0 <= j < m1.fired.len() && i != j
                    implies m1.fired[i].0 != m1.fired[j].0 by {
                    let i0 = if i < k { i } else { i + 1 };
                    let j0 = if j < k { j } else { j + 1 };
                    assert(m1.fired[i] == m.fired[i0]);
                    assert(m1.fired[j] == m.fired[j0]);
                }
            }
        }
        QueueOp::Abandon { waiter } => {
            if m.has_waiter(waiter) {
                let k = m.waiter_index(waiter);
                assert(0 <= k < m.waiters.len() && m.waiters[k] == waiter);
                assert forall|i: int, j: int|
                    0 <= i < m1.waiters.len() && 0 <= j < m1.waiters.len() && i != j
                    implies m1.waiters[i] != m1.waiters[j] by {
                    let i0 = if i < k { i } else { i + 1 };
                    let j0 = if j < k { j } else { j + 1 };
                    assert(m1.waiters[i] == m.waiters[i0]);
                    assert(m1.waiters[j] == m.waiters[j0]);
                }
            } else if m.has_fired(waiter) {
                let k = m.fired_index(waiter);
                assert forall|i: int, j: int|
                    0 <= i < m1.fired.len() && 0 <= j < m1.fired.len() && i != j
                    implies m1.fired[i].0 != m1.fired[j].0 by {
                    let i0 = if i < k { i } else { i + 1 };
                    let j0 = if j < k { j } else { j + 1 };
                    assert(m1.fired[i] == m.fired[i0]);
                    assert(m1.fired[j] == m.fired[j0]);
                }
            }
        }
    }
}

/// A whole run preserves the invariant.
pub proof fn lemma_ops_preserve_inv<T>(m: QueueModel<T>, ops: Seq<QueueOp<T>>)
    requires
        m.inv(),
    ensures
        apply_ops(m, ops).inv(),
        m.next_id <= apply_ops(m, ops).next_id,
    decreases ops.len(),
{
    if ops.len() > 0 {
        lemma_op_preserves_inv(m, ops[0]);
        lemma_ops_preserve_inv(apply_op(m, ops[0]), ops.drop_first());
    }
}

/// An identity that is retired — neither registered nor fired, and below
/// `next_id` — stays retired through any single step.
proof fn lemma_op_keeps_retired<T>(m: QueueModel<T>, op: QueueOp<T>, w: u64)
    requires
        m.inv(),
        w < m.next_id,
        !m.has_waiter(w),
        !m.has_fired(w),
    ensures
        !apply_op(m, op).has_waiter(w),
        !apply_op(m, op).has_fired(w),
{
    let m1 = apply_op(m, op);
    match op {
        QueueOp::Subscribe => {
            if m.messages.len() == 0 && m.next_id < u64::MAX {
                assert forall|i: int| 0 <= i < m1.waiters.len() implies m1.waiters[i] != w by {
                    if i < m1.waiters.len() - 1 {
                        assert(m.waiters[i] == m1.waiters[i]);
                        assert(!m.waiters.contains(w));
                    } else {
                        assert(m1.waiters[i] == m.next_id as u64);
                    }
                }
                assert(!m1.has_waiter(w));
            }
        }
        QueueOp::Send { message } => {
            if m.waiters.len() > 0 {
                assert(!m.waiters.contains(w));
                assert(m.waiters[0] != w);
                assert forall|i: int| 0 <= i < m1.waiters.len() implies m1.waiters[i] != w by {
                    assert(m1.waiters[i] == m.waiters[i + 1]);
                    assert(m.waiters[i + 1] != w);
                }
                assert(!m1.has_waiter(w));
                assert forall|i: int| 0 <= i < m1.fired.len() implies m1.fired[i].0 != w by {
                    if i < m1.fired.len() - 1 {
                        assert(m1.fired[i] == m.fired[i]);
                    }
                }
                assert(!m1.has_fired(w));
            }
        }
        QueueOp::Claim { waiter } => {
            if m.has_fired(waiter) {
                let k = m.fired_index(waiter);
                assert forall|i: int| 0 <= i < m1.fired.len() implies m1.fired[i].0 != w by {
                    let i0 = if i < k { i } else { i + 1 };
                    assert(m1.fired[i] == m.fired[i0]);
                }
                assert(!m1.has_fired(w));
            }
        }
        QueueOp::Abandon { waiter } => {
            if m.has_waiter(waiter) {
                let k = m.waiter_index(waiter);
                assert forall|i: int| 0 <= i < m1.waiters.len() implies m1.waiters[i] != w by {
                    let i0 = if i < k { i } else { i + 1 };
                    assert(m1.waiters[i] == m.waiters[i0]);
                }
                assert(!m1.has_waiter(w));
            } else if m.has_fired(waiter) {
                let k = m.fired_index(waiter);
                assert forall|i: int| 0 <= i < m1.fired.len() implies m1.fired[i].0 != w by {
                    let i0 = if i < k { i } else { i + 1 };
                    assert(m1.fired[i] == m.fired[i0]);
                }
                assert(!m1.has_fired(w));
            }
        }
    }
}

/// A retired identity stays retired through any whole run.
proof fn lemma_ops_keep_retired<T>(m: QueueModel<T>, ops: Seq<QueueOp<T>>, w: u64)
    requires
        m.inv(),
        w < m.next_id,
        !m.has_waiter(w),
        !m.has_fired(w),
    ensures
        !apply_ops(m, ops).has_waiter(w),
        !apply_ops(m, ops).has_fired(w),
    decreases ops.len(),
{
    if ops.len() > 0 {
        lemma_op_preserves_inv(m, ops[0]);
        lemma_op_keeps_retired(m, ops[0], w);
        lemma_ops_keep_retired(apply_op(m, ops[0]), ops.drop_first(), w);
    }
}

/// No double delivery. A claim consumes the fired slot: right after it, and
/// after any further run of engine steps whatsoever, another claim — or an
/// abandonment — of the same subscription yields no message. Each
/// subscription therefore resolves to at most one message, and each fired
/// slot is read at most once.
pub proof fn lemma_no_double_delivery<T>(m: QueueModel<T>, w: u64, ops: Seq<QueueOp<T>>)
    requires
        m.inv(),
        m.has_fired(w),
    ensures
        claim_result(apply_ops(claim_model(m, w), ops), w) == None::<T>,
        abandon_result(apply_ops(claim_model(m, w), ops), w) == None::<T>,
{
    let m1 = claim_model(m, w);
    let k = m.fired_index(w);
    lemma_op_preserves_inv(m, QueueOp::Claim { waiter: w });
    assert forall|i: int| 0 <= i < m1.fired.len() implies m1.fired[i].0 != w by {
        let i0 = if i < k { i } else { i + 1 };
        assert(m1.fired[i] == m.fired[i0]);
    }
    assert(!m1.has_fired(w));
    assert(!m1.has_waiter(w));
    lemma_ops_keep_retired(m1, ops, w);
}

/// The model after a run of subscriptions.
pub open spec fn subscribe_all<T>(m: QueueModel<T>, n: nat) -> QueueModel<T>
    decreases n,
{
    if n == 0 {
        m
    } else {
        subscribe_all(subscribe_model(m), (n - 1) as nat)
    }
}

/// Subscription order is registration order: with nothing buffered, a run
/// of subscriptions appends one fresh waiter each, in the order the
/// subscriptions came.
pub proof fn lemma_subscriptions_register_in_order<T>(m: QueueModel<T>, n: nat)
    requires
        m.inv(),
        m.messages.len() == 0,
        m.next_id + n <= u64::MAX,
    ensures
        subscribe_all(m, n).inv(),
        subscribe_all(m, n).waiters == m.waiters + Seq::new(n, |i: int| (m.next_id + i) as u64),
        subscribe_all(m, n).messages == m.messages,
        subscribe_all(m, n).fired == m.fired,
        subscribe_all(m, n).next_id == m.next_id + n,
    decreases n,
{
    if n == 0 {
        assert(m.waiters + Seq::new(0, |i: int| (m.next_id + i) as u64) =~= m.waiters);
    } else {
        let m1 = subscribe_model(m);
        lemma_op_preserves_inv(m, QueueOp::Subscribe);
        lemma_subscriptions_register_in_order(m1, (n - 1) as nat);
        assert(m1.waiters + Seq::new((n - 1) as nat, |i: int| (m1.next_id + i) as u64)
            =~= m.waiters + Seq::new(n, |i: int| (m.next_id + i) as u64));
    }
}

/// The model after a run of plain sends, first message first.
pub open spec fn send_all<T>(m: QueueModel<T>, msgs: Seq<T>) -> QueueModel<T>
    decreases msgs.len(),
{
    if msgs.len() == 0 {
        m
    } else {
        send_all(send_model(m, msgs[0]), msgs.drop_first())
    }
}

/// First-in-first-out handoff. With enough waiters pending, a run of sends
/// fires the slots of the earliest-registered waiters, in registration
/// order: the i-th send's message lands in the slot of the i-th waiter. The
/// buffer is untouched and the later waiters keep their places.
pub proof fn lemma_fifo_handoff<T>(m: QueueModel<T>, msgs: Seq<T>)
    requires
        m.inv(),
        msgs.len() <= m.waiters.len(),
    ensures
        send_all(m, msgs).inv(),
        send_all(m, msgs).waiters == m.waiters.skip(msgs.len() as int),
        send_all(m, msgs).messages == m.messages,
        send_all(m, msgs).next_id == m.next_id,
        send_all(m, msgs).fired == m.fired + Seq::new(
            msgs.len(),
            |i: int| (m.waiters[i], msgs[i]),
        ),
    decreases msgs.len(),
{
    if msgs.len() == 0 {
        assert(m.waiters.skip(0) =~= m.waiters);
        assert(m.fired + Seq::new(0, |i: int| (m.waiters[i], msgs[i])) =~= m.fired);
    } else {
        let m1 = send_model(m, msgs[0]);
        lemma_op_preserves_inv(m, QueueOp::Send { message: msgs[0] });
        lemma_fifo_handoff(m1, msgs.drop_first());
        assert(m1.waiters.skip(msgs.len() - 1) =~= m.waiters.skip(msgs.len() as int));
        assert(m1.fired + Seq::new(
            (msgs.len() - 1) as nat,
            |i: int| (m1.waiters[i], msgs.drop_first()[i]),
        ) =~= m.fired + Seq::new(msgs.len(), |i: int| (m.waiters[i], msgs[i])));
    }
}

/// The claims after a first-in-first-out handoff: starting from an engine
/// with no fired slot, after the run of sends each of the first waiters can
/// claim exactly the message that matches its place in line.
pub proof fn lemma_fifo_claims<T>(m: QueueModel<T>, msgs: Seq<T>, i: int)
    requires
        m.inv(),
        m.fired.len() == 0,
        msgs.len() <= m.waiters.len(),
        0 <= i < msgs.len(),
    ensures
        claim_result(send_all(m, msgs), m.waiters[i]) == Some(msgs[i]),
{
    let mz = send_all(m, msgs);
    lemma_fifo_handoff(m, msgs);
    assert(mz.fired[i] == (m.waiters[i], msgs[i]));
    assert(mz.has_fired(m.waiters[i]));
    let k = mz.fired_index(m.waiters[i]);
    assert(0 <= k < mz.fired.len() && mz.fired[k].0 == m.waiters[i]);
    assert(k == i);
}

/// Cancellation safety. A consumer's abandonment (deadline or
/// disconnection) racing a send resolves with exactly one winner, and the
/// message is never lost to the race itself. If the abandonment comes
/// first, the send finds the waiter gone and hands the message to a later
/// waiter or to the buffer — it disappears only where the discard policy
/// says so and nobody waits. If the send comes first, the abandonment
/// recovers the message from the fired slot and hands it back to the
/// caller.
pub proof fn lemma_cancellation_safety<T>(m: QueueModel<T>, w: u64, msg: T)
    requires
        m.inv(),
        m.has_waiter(w),
    ensures
        abandon_result(m, w) == None::<T>,
        (match m.behavior {
            QueueBehavior::QueueMessages { .. } => true,
            QueueBehavior::DropMessages => m.waiters.len() > 1,
        }) ==> holds_message(send_model(abandon_model(m, w), msg), msg),
        holds_message(send_model(m, msg), msg),
        m.waiters[0] == w ==> abandon_result(send_model(m, msg), w) == Some(msg),
        m.waiters[0] != w ==> holds_message(abandon_model(send_model(m, msg), w), msg),
{
    let k = m.waiter_index(w);
    assert(0 <= k < m.waiters.len() && m.waiters[k] == w);
    // the abandonment-first order
    let ma = abandon_model(m, w);
    lemma_op_preserves_inv(m, QueueOp::Abandon { waiter: w });
    let mas = send_model(ma, msg);
    if ma.waiters.len() > 0 {
        assert(mas.fired.last() == (ma.waiters[0], msg));
    } else {
        match m.behavior {
            QueueBehavior::QueueMessages { max_size } => {
                assert(mas.messages.last() == msg);
                assert(mas.messages.contains(msg));
            }
            QueueBehavior::DropMessages => {}
        }
    }
    // the send-first order
    let ms = send_model(m, msg);
    lemma_op_preserves_inv(m, QueueOp::Send { message: msg });
    assert(ms.fired.last() == (m.waiters[0], msg));
    if m.waiters[0] == w {
        assert forall|i: int| 0 <= i < ms.waiters.len() implies ms.waiters[i] != w by {
            assert(ms.waiters[i] == m.waiters[i + 1]);
        }
        assert(!ms.has_waiter(w));
        assert(ms.has_fired(w));
        let j = ms.fired_index(w);
        assert(0 <= j < ms.fired.len() && ms.fired[j].0 == w);
        assert(forall|i: int| 0 <= i < m.fired.len() ==> m.fired[i].0 != w);
        assert(j == ms.fired.len() - 1);
    } else {
        let msa = abandon_model(ms, w);
        if ms.has_waiter(w) {
            assert(msa.fired == ms.fired);
        } else {
            assert(forall|i: int| 0 <= i < m.fired.len() ==> m.fired[i].0 != w);
            assert(!ms.has_fired(w));
        }
        assert(msa.fired.last() == (m.waiters[0], msg));
    }
}

} // verus!
