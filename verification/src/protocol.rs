//! The transition model of the channel.
//!
//! A channel configuration is described by [`ChannelModel`]: the shared
//! queue and live-producer count, the consumer's private buffer, and the
//! values already handed to the caller.  Each operation a handle can
//! perform is a [`ChannelOp`], and [`apply_op`] is the transition the
//! verified methods of the `channel` module implement — their contracts
//! are stated over the same spec functions used here.
//!
//! The proof functions at the end state the laws of the channel: no value
//! is ever lost or invented and delivery order is the order in which the
//! `send` operations took the lock ([`lemma_drained_receiver_got_all_sends`]);
//! the closed signal is given exactly when no producer remains and no
//! value is left ([`lemma_closed_signal_is_exact`]); and once closed, a
//! channel stays closed and every further receive attempt reports closure
//! ([`lemma_closed_stays_closed`]).

use vstd::prelude::*;

verus! {

/// The state guarded by the lock: queued values, oldest first, and the
/// number of live producer handles.
#[verifier::ext_equal]
pub struct SharedModel<T> {
    pub queue: Seq<T>,
    pub senders: nat,
}

impl<T> SharedModel<T> {
    /// A `send` appends to the tail of the queue.
    pub open spec fn after_send(self, value: T) -> SharedModel<T> {
        SharedModel { queue: self.queue.push(value), senders: self.senders }
    }

    /// Cloning a producer handle registers one more producer.
    pub open spec fn after_clone(self) -> SharedModel<T> {
        SharedModel { queue: self.queue, senders: self.senders + 1 }
    }

    /// Dropping a producer handle removes one producer.
    pub open spec fn after_drop(self) -> SharedModel<T> {
        SharedModel { queue: self.queue, senders: (self.senders - 1) as nat }
    }
}

/// What one receive attempt observes.
pub enum RecvOutcome<T> {
    /// A value is available and is handed out.
    Delivered(T),
    /// No producer remains and no value is left: the terminal signal.
    ClosedSignal,
    /// Nothing is queued but producers remain: the consumer must wait.
    MustWait,
}

/// One locked pass of the consumer over the shared state, entered with
/// private buffer `buffer`: take the head of the queue and move the whole
/// remainder into the buffer in one swap, or report closure or emptiness.
/// Returns the shared state and buffer after the pass, and the outcome.
pub open spec fn drain_step<T>(shared: SharedModel<T>, buffer: Seq<T>) -> (SharedModel<T>, Seq<
    T,
>, RecvOutcome<T>) {
    if buffer.len() > 0 {
        (shared, buffer.drop_first(), RecvOutcome::Delivered(buffer[0]))
    } else if shared.queue.len() > 0 {
        (
            SharedModel { queue: Seq::empty(), senders: shared.senders },
            shared.queue.drop_first(),
            RecvOutcome::Delivered(shared.queue[0]),
        )
    } else if shared.senders == 0 {
        (shared, buffer, RecvOutcome::ClosedSignal)
    } else {
        (shared, buffer, RecvOutcome::MustWait)
    }
}

/// A full channel configuration, together with the values already
/// delivered to the consumer's caller, oldest first.
#[verifier::ext_equal]
pub struct ChannelModel<T> {
    pub shared: SharedModel<T>,
    pub buffer: Seq<T>,
    pub received: Seq<T>,
}

/// The configuration `_channel` constructs: everything empty, one producer.
pub open spec fn init<T>() -> ChannelModel<T> {
    ChannelModel {
        shared: SharedModel { queue: Seq::empty(), senders: 1 },
        buffer: Seq::empty(),
        received: Seq::empty(),
    }
}

/// The channel is closed once no producer remains and every value has been
/// delivered: the terminal state in which `recv` reports closure.
pub open spec fn closed<T>(m: ChannelModel<T>) -> bool {
    m.shared.senders == 0 && m.shared.queue.len() == 0 && m.buffer.len() == 0
}

/// Every value the channel still holds on behalf of its caller, or has
/// already delivered, in delivery order.
pub open spec fn contents<T>(m: ChannelModel<T>) -> Seq<T> {
    m.received + m.buffer + m.shared.queue
}

/// One operation of some handle, in the order the operations took the lock.
pub enum ChannelOp<T> {
    /// A producer sends a value.
    Send(T),
    /// A producer handle is cloned.
    CloneSender,
    /// A producer handle is dropped.
    DropSender,
    /// The consumer attempts to receive.  A blocked attempt (and a
    /// spurious wakeup, which only repeats the attempt) changes nothing.
    Recv,
}

/// Whether the operation can occur in this configuration: sending,
/// cloning and dropping each require a live producer handle to perform
/// them; a receive attempt is always possible.
pub open spec fn op_enabled<T>(m: ChannelModel<T>, op: ChannelOp<T>) -> bool {
    match op {
        ChannelOp::Send(_) => m.shared.senders > 0,
        ChannelOp::CloneSender => m.shared.senders > 0,
        ChannelOp::DropSender => m.shared.senders > 0,
        ChannelOp::Recv => true,
    }
}

/// What one receive attempt observes in this configuration.
pub open spec fn recv_outcome<T>(m: ChannelModel<T>) -> RecvOutcome<T> {
    drain_step(m.shared, m.buffer).2
}

/// The transition relation of the channel.
pub open spec fn apply_op<T>(m: ChannelModel<T>, op: ChannelOp<T>) -> ChannelModel<T> {
    match op {
        ChannelOp::Send(value) => ChannelModel { shared: m.shared.after_send(value), ..m },
        ChannelOp::CloneSender => ChannelModel { shared: m.shared.after_clone(), ..m },
        ChannelOp::DropSender => ChannelModel { shared: m.shared.after_drop(), ..m },
        ChannelOp::Recv => ({
            let (shared, buffer, outcome) = drain_step(m.shared, m.buffer);
            match outcome {
                RecvOutcome::Delivered(value) => ChannelModel {
                    shared,
                    buffer,
                    received: m.received.push(value),
                },
                RecvOutcome::ClosedSignal => m,
                RecvOutcome::MustWait => m,
            }
        }),
    }
}

/// The configuration after a whole sequence of operations.
pub open spec fn run<T>(m: ChannelModel<T>, ops: Seq<ChannelOp<T>>) -> ChannelModel<T>
    decreases ops.len(),
{
    if ops.len() == 0 {
        m
    } else {
        run(apply_op(m, ops[0]), ops.drop_first())
    }
}

/// Whether every operation of the sequence is possible in its turn.
pub open spec fn ops_enabled<T>(m: ChannelModel<T>, ops: Seq<ChannelOp<T>>) -> bool
    decreases ops.len(),
{
    ops.len() == 0 || (op_enabled(m, ops[0]) && ops_enabled(apply_op(m, ops[0]), ops.drop_first()))
}

/// The values sent by the sequence, in operation order.
pub open spec fn sends_of<T>(ops: Seq<ChannelOp<T>>) -> Seq<T>
    decreases ops.len(),
{
    if ops.len() == 0 {
        Seq::empty()
    } else {
        match ops[0] {
            ChannelOp::Send(value) => seq![value] + sends_of(ops.drop_first()),
            _ => sends_of(ops.drop_first()),
        }
    }
}

/// No single operation loses or invents a value: the delivered, buffered
/// and queued values together grow exactly by what the operation sent.
pub proof fn lemma_op_conserves_contents<T>(m: ChannelModel<T>, op: ChannelOp<T>)
    ensures
        contents(apply_op(m, op)) == match op {
            ChannelOp::Send(value) => contents(m).push(value),
            _ => contents(m),
        },
{
    match op {
        ChannelOp::Send(value) => {
            assert(contents(apply_op(m, op)) =~= contents(m).push(value));
        }
        ChannelOp::Recv => {
            assert(contents(apply_op(m, op)) =~= contents(m));
        }
        _ => {
            assert(contents(apply_op(m, op)) =~= contents(m));
        }
    }
}

/// No run of operations loses or invents a value: afterwards, the
/// delivered, buffered and queued values are exactly the starting ones
/// followed by every sent value, in sending order.
pub proof fn lemma_run_conserves_contents<T>(m: ChannelModel<T>, ops: Seq<ChannelOp<T>>)
    ensures
        contents(run(m, ops)) == contents(m) + sends_of(ops),
    decreases ops.len(),
{
    if ops.len() == 0 {
        assert(contents(run(m, ops)) =~= contents(m) + sends_of(ops));
    } else {
        let m2 = apply_op(m, ops[0]);
        lemma_op_conserves_contents(m, ops[0]);
        lemma_run_conserves_contents(m2, ops.drop_first());
        assert(contents(m2) + sends_of(ops.drop_first()) =~= contents(m) + sends_of(ops));
    }
}

/// Conservation and order, as the consumer observes them: when, after any
/// run from a fresh channel, no value remains queued or buffered, the
/// delivered values are exactly the sent values, in the order the sends
/// took the lock.  In particular nothing is delivered twice, nothing is
/// dropped on the way, and the values of any one producer arrive in the
/// relative order that producer sent them.
pub proof fn lemma_drained_receiver_got_all_sends<T>(ops: Seq<ChannelOp<T>>)
    requires
        run(init::<T>(), ops).shared.queue.len() == 0,
        run(init::<T>(), ops).buffer.len() == 0,
    ensures
        run(init::<T>(), ops).received == sends_of(ops),
{
    lemma_run_conserves_contents(init::<T>(), ops);
    assert(contents(init::<T>()) + sends_of(ops) =~= sends_of(ops));
    assert(contents(run(init::<T>(), ops)) =~= run(init::<T>(), ops).received);
}

/// Order preservation for each producer: any chosen subset of the sent
/// values — in particular, the values of one producer handle — is
/// delivered in the relative order it was sent, whatever other sends are
/// interleaved with it.
pub proof fn lemma_each_senders_order_is_kept<T>(ops: Seq<ChannelOp<T>>, mine: spec_fn(T) -> bool)
    requires
        run(init::<T>(), ops).shared.queue.len() == 0,
        run(init::<T>(), ops).buffer.len() == 0,
    ensures
        run(init::<T>(), ops).received.filter(mine) == sends_of(ops).filter(mine),
{
    lemma_drained_receiver_got_all_sends(ops);
}

/// The closed signal is exact: a receive attempt reports closure when no
/// producer remains and no value is left, and never otherwise — a `recv`
/// that returns the terminal signal has not discarded data, and a `recv`
/// that delivers hands out precisely the next undelivered value.
pub proof fn lemma_closed_signal_is_exact<T>(m: ChannelModel<T>)
    ensures
        (recv_outcome(m) is ClosedSignal) <==> closed(m),
        (recv_outcome(m) is Delivered) ==> recv_outcome(m) == RecvOutcome::Delivered(
            contents(m)[m.received.len() as int],
        ),
{
    if m.buffer.len() > 0 {
        assert(contents(m)[m.received.len() as int] == m.buffer[0]);
    } else if m.shared.queue.len() > 0 {
        assert(contents(m)[m.received.len() as int] == m.shared.queue[0]);
    }
}

/// A closed channel admits no further change: no producer is left to
/// send, clone or drop, and a receive attempt reports closure and leaves
/// the configuration as it is.
pub proof fn lemma_closed_is_terminal<T>(m: ChannelModel<T>, op: ChannelOp<T>)
    requires
        closed(m),
        op_enabled(m, op),
    ensures
        apply_op(m, op) == m,
        recv_outcome(m) is ClosedSignal,
{
}

/// Once a receive attempt has reported closure, every later attempt does
/// too, whatever else happens in between: the closed state is idempotent.
pub proof fn lemma_closed_stays_closed<T>(m: ChannelModel<T>, ops: Seq<ChannelOp<T>>)
    requires
        closed(m),
        ops_enabled(m, ops),
    ensures
        run(m, ops) == m,
        recv_outcome(run(m, ops)) is ClosedSignal,
    decreases ops.len(),
{
    if ops.len() > 0 {
        lemma_closed_is_terminal(m, ops[0]);
        lemma_closed_stays_closed(apply_op(m, ops[0]), ops.drop_first());
    }
}

} // verus!

