//! An unbounded multi-producer, single-consumer channel.
//!
//! The shared state — a FIFO queue of values plus the number of live
//! producer handles — is a plain, fully verified structure ([`Inner`]).
//! Every mutation of it goes through one of the verified methods below,
//! so the queue discipline (strict FIFO, nothing lost, nothing invented)
//! and the producer count arithmetic are proved.
//!
//! Concurrency is delegated to `std::sync`: a `Mutex` guards the shared
//! state and a `Condvar` parks the single consumer while the queue is
//! empty and producers remain.  Verus has no specification for those two
//! types, so each call stands in a small trusted wrapper whose only job
//! is to take the lock (or signal the condition variable) and run one
//! verified method on the guarded state.  What a wrapper cannot honestly
//! promise — the content of state that other threads mutate concurrently —
//! its contract leaves unsaid; the sequential behaviour of the core is
//! stated and proved on [`Inner`] itself and on the transition model in
//! the `protocol` module.

use vstd::prelude::*;

verus! {

use std::collections::VecDeque;
use std::sync::Arc;

use crate::protocol::{RecvOutcome, SharedModel, drain_step};

#[verifier::external_type_specification]
#[verifier::external_body]
#[verifier::reject_recursive_types(T)]
pub struct ExMutex<T: ?Sized>(std::sync::Mutex<T>);

#[verifier::external_type_specification]
#[verifier::external_body]
pub struct ExCondvar(std::sync::Condvar);

/// The state jointly owned by all handles of one channel: the queued
/// values, in the order their `send` calls took the lock, and the number
/// of `Sender` handles not yet dropped.  Mutated only under the lock.
struct Inner<T> {
    queue: VecDeque<T>,
    senders: usize,
}

/// What one locked attempt by the consumer found.
enum Step<T> {
    /// A value was taken from the head of the shared queue.
    Got(T),
    /// No value, and no producer is left: the channel is closed.
    Closed,
    /// No value, but producers remain: the consumer must wait.
    Empty,
}

impl<T> Inner<T> {
    spec fn model(&self) -> SharedModel<T> {
        SharedModel { queue: self.queue@, senders: self.senders as nat }
    }

    fn new() -> (r: Self)
        ensures
            r.model() == (SharedModel::<T> { queue: Seq::empty(), senders: 1 }),
    {
        let r = Inner { queue: VecDeque::new(), senders: 1 };
        proof {
            assert(r.model() =~= SharedModel::<T> { queue: Seq::empty(), senders: 1 });
        }
        r
    }

    fn enqueue(&mut self, value: T)
        ensures
            final(self).model() == old(self).model().after_send(value),
    {
        self.queue.push_back(value);
        proof {
            assert(self.model() =~= old(self).model().after_send(value));
        }
    }

    fn sender_added(&mut self)
        requires
            old(self).senders < usize::MAX,
        ensures
            final(self).model() == old(self).model().after_clone(),
    {
        self.senders = self.senders + 1;
        proof {
            assert(self.model() =~= old(self).model().after_clone());
        }
    }

    fn sender_removed(&mut self) -> (last: bool)
        requires
            old(self).senders >= 1,
        ensures
            final(self).model() == old(self).model().after_drop(),
            last == (final(self).model().senders == 0),
    {
        self.senders = self.senders - 1;
        proof {
            assert(self.model() =~= old(self).model().after_drop());
        }
        self.senders == 0
    }

    /// One pass of the consumer's slow path, to be run under the lock with
    /// the consumer's private buffer already drained: take the head of the
    /// queue and move the whole remainder into the buffer in one swap, or
    /// report the channel closed or momentarily empty.
    fn take_step(&mut self, buffer: &mut VecDeque<T>) -> (r: Step<T>)
        requires
            old(buffer)@.len() == 0,
        ensures
            ({
                let (shared2, buffer2, outcome) = drain_step(old(self).model(), old(buffer)@);
                &&& final(self).model() == shared2
                &&& final(buffer)@ == buffer2
                &&& match (r, outcome) {
                    (Step::Got(v), RecvOutcome::Delivered(w)) => v == w,
                    (Step::Closed, RecvOutcome::ClosedSignal) => true,
                    (Step::Empty, RecvOutcome::MustWait) => true,
                    _ => false,
                }
            }),
    {
        match self.queue.pop_front() {
            Some(value) => {
                if self.queue.len() > 0 {
                    core::mem::swap(buffer, &mut self.queue);
                }
                proof {
                    let (shared2, buffer2, _) = drain_step(old(self).model(), old(buffer)@);
                    assert(self.model().queue =~= shared2.queue);
                    assert(buffer@ =~= buffer2);
                }
                Step::Got(value)
            }
            None => {
                if self.senders == 0 {
                    Step::Closed
                } else {
                    Step::Empty
                }
            }
        }
    }
}

/// What every handle points at: the verified state behind a lock, and the
/// condition variable on which the consumer parks.
#[verifier::reject_recursive_types(T)]
struct Shared<T> {
    inner: std::sync::Mutex<Inner<T>>,
    available: std::sync::Condvar,
}

/// Relies on std::sync::Mutex::new: stores the given state behind a fresh
/// lock.  The state is observable afterwards only through the locked
/// wrappers below.
#[verifier::external_body]
fn new_lock<T>(value: Inner<T>) -> std::sync::Mutex<Inner<T>> {
    std::sync::Mutex::new(value)
}

/// Relies on std::sync::Condvar::new: makes a fresh condition variable.
#[verifier::external_body]
fn new_condvar() -> std::sync::Condvar {
    std::sync::Condvar::new()
}

/// Relies on std::sync::Arc::clone: the returned handle refers to the very
/// same value as the argument.
#[verifier::external_body]
fn share<T>(a: &Arc<T>) -> (r: Arc<T>)
    ensures
        r == *a,
{
    Arc::clone(a)
}

/// Relies on std::sync::Mutex::lock.  The queue mutation itself is the
/// verified `Inner::enqueue`, run on the guarded state; other threads may
/// run between this call and any later one, so nothing about the shared
/// state can be promised here.  Panics if the lock is poisoned: some
/// thread panicked while holding it — which no verified code of this
/// crate can do — the shared state may then be inconsistent, and the
/// design treats that fault as fatal.
#[verifier::external_body]
fn locked_enqueue<T>(shared: &Shared<T>, value: T) {
    shared.inner.lock().map(|mut guard| guard.enqueue(value)).unwrap();
}

/// Relies on std::sync::Mutex::lock, as `locked_enqueue`.  The count
/// mutation is the verified `Inner::sender_added`; its precondition holds
/// because a count of usize::MAX live handles cannot exist in memory.
#[verifier::external_body]
fn locked_sender_added<T>(shared: &Shared<T>) {
    shared.inner.lock().map(|mut guard| guard.sender_added()).unwrap();
}

/// Relies on std::sync::Mutex::lock, as `locked_enqueue`.  The count
/// mutation is the verified `Inner::sender_removed`; its precondition
/// holds because the caller is itself a live `Sender` handle counted in
/// `senders`.  Reports whether it removed the last producer.  The
/// `no_unwind` claim rests on the poisoned-lock panic being unreachable:
/// no verified code of this crate panics while holding the lock.
#[verifier::external_body]
fn locked_sender_removed<T>(shared: &Shared<T>) -> bool
    opens_invariants none
    no_unwind
{
    shared.inner.lock().map(|mut guard| guard.sender_removed()).unwrap()
}

/// Relies on std::sync::Mutex::lock and std::sync::Condvar::wait.  Each
/// pass over the shared state is the verified `Inner::take_step`; when a
/// pass finds the queue empty with producers remaining, the consumer is
/// parked on the condition variable (which atomically releases the lock
/// and reacquires it on wakeup) and the pass is repeated, so a spurious
/// wakeup costs one redundant pass and nothing else.  The loop must stand
/// here, outside verified code: it legitimately never terminates while no
/// producer sends and none is dropped.  Nothing can be promised about a
/// delivered value — which value arrives depends on every concurrent
/// producer — and `None` leaves the buffer untouched, because
/// no other thread ever reaches this consumer's private buffer.
#[verifier::external_body]
fn locked_take<T>(shared: &Shared<T>, buffer: &mut VecDeque<T>) -> (r: Option<T>)
    requires
        old(buffer)@.len() == 0,
    ensures
        r is None ==> final(buffer)@ == old(buffer)@,
{
    let mut guard = shared.inner.lock().unwrap();
    loop {
        match guard.take_step(buffer) {
            Step::Got(value) => return Some(value),
            Step::Closed => return None,
            Step::Empty => {
                guard = shared.available.wait(guard).unwrap();
            }
        }
    }
}

/// Relies on std::sync::Condvar::notify_one: wakes the consumer if it is
/// parked.  Called without holding the lock, so the woken consumer can
/// take it at once.
#[verifier::external_body]
fn notify_receiver<T>(shared: &Shared<T>)
    opens_invariants none
    no_unwind
{
    shared.available.notify_one();
}

/// A cloneable producer handle.  `send` never blocks and never fails;
/// dropping the last `Sender` closes the channel and wakes a parked
/// consumer.
#[verifier::reject_recursive_types(T)]
pub struct Sender<T> {
    shared: Arc<Shared<T>>,
}

/// The two handles reach one and the same shared channel state: what the
/// producer enqueues, this consumer — and no other — can dequeue.
/// Established by `_channel` for the pair it returns, kept by `send` and
/// `recv` (each leaves its handle's identity unchanged) and by `Clone`
/// (the new producer equals the old one).
pub closed spec fn same_channel<T>(tx: &Sender<T>, rx: &Receiver<T>) -> bool {
    tx.shared == rx.shared
}

impl<T> Sender<T> {
    /// Appends `value` to the tail of the shared queue and signals the
    /// consumer.  Infallible: there is no precondition, so dropping the
    /// `Receiver` first cannot make this call panic or block — the value
    /// is simply queued until the shared state itself is freed.  The
    /// handle itself is unchanged, so facts about it — such as which
    /// channel it belongs to — survive the call.  What the shared queue
    /// holds afterwards depends on every concurrent producer, so no more
    /// can be stated here; the queue discipline is proved on
    /// `Inner::enqueue`, which this call runs under the lock.
    pub fn send(&mut self, value: T)
        ensures
            *final(self) == *old(self),
    {
        locked_enqueue(&self.shared, value);
        notify_receiver(&self.shared);
    }
}

impl<T> Clone for Sender<T> {
    /// Registers one more producer under the lock, then returns a handle
    /// to the same shared state.
    fn clone(&self) -> (r: Self)
        ensures
            r == *self,
    {
        locked_sender_added(&self.shared);
        Sender { shared: share(&self.shared) }
    }
}

impl<T> Drop for Sender<T> {
    /// Removes this producer from the live count under the lock; when it
    /// was the last one, signals the consumer — after releasing the lock,
    /// so the woken consumer finds it free — which lets a parked `recv`
    /// observe closure instead of waiting forever.
    fn drop(&mut self)
        ensures
            *final(self) == *old(self),
        opens_invariants none
        no_unwind
    {
        let was_last = locked_sender_removed(&self.shared);
        if was_last {
            notify_receiver(&self.shared);
        }
    }
}

/// The single consumer handle, holding a private buffer of values already
/// taken from the shared queue in one bulk swap, so that a burst of sends
/// is drained with a single lock acquisition.
#[verifier::reject_recursive_types(T)]
pub struct Receiver<T> {
    shared: Arc<Shared<T>>,
    buffer: VecDeque<T>,
}

impl<T> Receiver<T> {
    /// The values this handle has already taken from the shared queue but
    /// not yet handed to the caller, oldest first.
    pub closed spec fn buffered(&self) -> Seq<T> {
        self.buffer@
    }

    /// Takes the next value, oldest first.  While the private buffer holds
    /// values, they are returned one by one without locking — exactly head
    /// first, as the contract states.  Once the buffer is empty the shared
    /// queue decides: its head is returned (and the rest is swapped into
    /// the buffer), `None` is returned only with no producer left and the
    /// queue empty, and otherwise the call parks until a producer signals.
    pub fn recv(&mut self) -> (r: Option<T>)
        ensures
            old(self).buffered().len() > 0 ==> r == Some(old(self).buffered()[0])
                && final(self).buffered() == old(self).buffered().drop_first(),
            r is None ==> old(self).buffered().len() == 0 && final(self).buffered() == old(
                self,
            ).buffered(),
            forall|tx: Sender<T>|
                same_channel(&tx, old(self)) == #[trigger] same_channel(&tx, final(self)),
    {
        if let Some(value) = self.buffer.pop_front() {
            return Some(value);
        }
        locked_take(&self.shared, &mut self.buffer)
    }
}

/// Makes one channel: a producer handle and the single consumer handle,
/// sharing fresh state with an empty queue and a producer count of one.
pub fn _channel<T>() -> (r: (Sender<T>, Receiver<T>))
    ensures
        r.1.buffered().len() == 0,
        same_channel(&r.0, &r.1),
{
    let shared = Arc::new(Shared { inner: new_lock(Inner::new()), available: new_condvar() });
    let sender = Sender { shared: share(&shared) };
    let receiver = Receiver { shared, buffer: VecDeque::new() };
    (sender, receiver)
}

} // verus!
