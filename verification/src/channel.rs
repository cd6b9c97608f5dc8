//! The handles of a channel.
//!
//! A channel has any number of senders and one receiver. They share the state
//! of the channel under a lock, and the two wake-up primitives beside it.
//! Every operation of a handle takes the state out of the lock, makes one
//! step on it, puts it back, and then wakes whom the step named.
//!
//! Between two operations of one handle the other handles may have made any
//! number of steps. So a handle's operation does not say in which state it
//! found the channel; it says that its result is the result of the step in
//! some state in which a channel of this capacity can be. What the step does
//! to a given state is the contract of the step, in `state`, and what holds
//! of every sequence of steps are the laws in `model`.

use crate::error::RecvError;
use crate::error::SendError;
use crate::error::TryRecvError;
use crate::error::TrySendError;
use crate::model::Model;
use crate::queue::pop_result;
use crate::queue::push_result;
use crate::state::attempt_result;
use crate::state::poll_result;
use crate::state::recv_outcome_result;
use crate::state::recv_result;
use crate::state::send_result;
use crate::state::outcome_result;
use crate::state::recv_outcome;
use crate::state::send_outcome;
use crate::state::Poll;
use crate::state::State;
use crate::state::Wake;
use async_event::Event;
use diatomic_waker::WakeSink;
use diatomic_waker::WakeSource;
use std::sync::Arc;
use std::task::Waker;
use vstd::prelude::*;
use vstd::rwlock::RwLock;

verus! {

/// What the handles of one channel share.
#[verifier::reject_recursive_types(T)]
struct Inner<T> {
    /// The queue and the count of senders.
    state: RwLock<State<T>, spec_fn(State<T>) -> bool>,
    /// Wakes the receiver.
    receiver_signal: WakeSource,
    /// Wakes blocked senders.
    sender_signal: Event,
    /// The capacity that the channel was made with.
    capacity: Ghost<nat>,
}

impl<T> Inner<T> {
    /// The lock holds the well-formed states of this capacity, and nothing
    /// else.
    #[verifier::type_invariant]
    spec fn wf(&self) -> bool {
        forall|state: State<T>| #[trigger]
            self.state.inv(state) <==> state.wf() && state.capacity() == self.capacity@
    }

    /// The number of messages that the channel can hold.
    closed spec fn capacity(&self) -> nat {
        self.capacity@
    }

    /// Shared data of an open channel without messages, for `capacity`
    /// messages and with `sender_count` senders, whose receiver is woken
    /// through `receiver_signal`.
    fn new(capacity: usize, sender_count: usize, receiver_signal: WakeSource) -> (inner: Inner<T>)
        requires
            1 <= capacity <= usize::MAX / 2 + 1,
        ensures
            inner.capacity() == capacity,
    {
        let state = State::new(capacity, sender_count);
        let ghost bound = capacity as nat;
        Inner {
            state: RwLock::new(
                state,
                Ghost(|state: State<T>| state.wf() && state.capacity() == bound),
            ),
            receiver_signal,
            sender_signal: Event::new(),
            capacity: Ghost(bound),
        }
    }

    /// Wakes whom `wake` names: first the receiver, then the senders.
    fn wake(&self, wake: Wake) {
        if wake.receiver {
            self.receiver_signal.notify();
        }
        if wake.senders > 0 {
            self.sender_signal.notify(wake.senders);
        }
    }
}

/// `Arc::clone`: one more owner of the same shared data. What the new owner
/// points to is what the old one points to.
#[verifier::external_body]
fn share<T>(inner: &Arc<Inner<T>>) -> (shared: Arc<Inner<T>>)
    ensures
        *shared == **inner,
{
    Arc::clone(inner)
}

/// `model` is a state in which a channel for `capacity` messages can be: it
/// has that capacity, and holds no more messages than that.
pub open spec fn is_state_of<T>(model: Model<T>, capacity: nat) -> bool {
    model.capacity == capacity && model.items.len() <= capacity
}

/// The sending side of a channel. There may be many senders.
///
/// A sender is counted from `channel` or `clone` until `disconnect`. A sender
/// that is dropped without `disconnect` stays counted, and the channel does
/// not close on its account.
#[verifier::reject_recursive_types(T)]
pub struct Sender<T> {
    inner: Arc<Inner<T>>,
}

impl<T> Sender<T> {
    /// The number of messages that the channel can hold.
    pub closed spec fn capacity(&self) -> nat {
        self.inner.capacity()
    }

    /// The event of the channel: the one that is notified when a message is
    /// received and when the channel is closed. The handles of one channel
    /// have the same event.
    pub closed spec fn signal(&self) -> Event {
        self.inner.sender_signal
    }

    /// Attempts to send a message at once. A message that was not sent comes
    /// back in the error.
    pub fn try_send(&self, message: T) -> (result: Result<(), TrySendError<T>>)
        ensures
            result matches Err(error) ==> error == TrySendError::Full(message) || error
                == TrySendError::Closed(message),
            exists|found: Model<T>| #[trigger]
                is_state_of(found, self.capacity()) && result == send_result(
                    push_result(found.items, found.capacity, found.closed, message),
                ),
    {
        proof {
            use_type_invariant(&*self.inner);
        }
        let (mut state, handle) = self.inner.state.acquire_write();
        proof {
            state.lemma_bound();
            assert(is_state_of(state.model(), self.capacity()));
        }
        let (result, wake) = state.try_send(message);
        handle.release_write(state);
        self.inner.wake(wake);
        result
    }

    /// One attempt of a waiting send, to be made again after a wake-up as
    /// long as it answers `None`. The message is taken out of `message`, and
    /// is back there unless it was sent.
    pub fn send_attempt(&self, message: &mut Option<T>) -> (done: Option<()>)
        requires
            *old(message) is Some,
        ensures
            *final(message) is None || *final(message) == *old(message),
            done is None ==> *final(message) is Some,
            exists|found: Model<T>| #[trigger]
                is_state_of(found, self.capacity()) && (done, *final(message)) == attempt_result(
                    push_result(found.items, found.capacity, found.closed, old(message)->0),
                    old(message)->0,
                ),
    {
        proof {
            use_type_invariant(&*self.inner);
        }
        let (mut state, handle) = self.inner.state.acquire_write();
        proof {
            state.lemma_bound();
            assert(is_state_of(state.model(), self.capacity()));
        }
        let done = state.send_attempt(message);
        handle.release_write(state);
        done
    }

    /// The end of a waiting send whose attempts are over: an error with the
    /// message if it is still there, else success, of which the receiver is
    /// told.
    pub fn send_outcome(&self, message: Option<T>) -> (result: Result<(), SendError<T>>)
        ensures
            result == outcome_result(message),
    {
        let (result, wake) = send_outcome(message);
        self.inner.wake(wake);
        result
    }

    /// The event on which a waiting send waits between two attempts: the
    /// event of the channel.
    pub fn sender_signal(&self) -> (event: &Event)
        ensures
            *event == self.signal(),
    {
        &self.inner.sender_signal
    }

    /// Closes the channel. No message can be sent from now on; the messages
    /// that were sent can still be received.
    pub fn close(&self) {
        proof {
            use_type_invariant(&*self.inner);
        }
        let (mut state, handle) = self.inner.state.acquire_write();
        let wake = state.close_by_sender();
        handle.release_write(state);
        self.inner.wake(wake);
    }

    /// Whether the channel was closed when the call looked.
    pub fn is_closed(&self) -> bool {
        let handle = self.inner.state.acquire_read();
        let closed = handle.borrow().is_closed();
        handle.release_read();
        closed
    }

    /// Gives up the handle. The channel is closed when its last sender is
    /// given up.
    pub fn disconnect(self) {
        proof {
            use_type_invariant(&*self.inner);
        }
        let (mut state, handle) = self.inner.state.acquire_write();
        let wake = state.drop_sender();
        handle.release_write(state);
        self.inner.wake(wake);
    }
}

impl<T> Clone for Sender<T> {
    /// One more sender of the same channel.
    fn clone(&self) -> (sender: Sender<T>)
        ensures
            sender.capacity() == self.capacity(),
            sender.signal() == self.signal(),
    {
        proof {
            use_type_invariant(&*self.inner);
        }
        let (mut state, handle) = self.inner.state.acquire_write();
        state.add_sender();
        handle.release_write(state);
        Sender { inner: share(&self.inner) }
    }
}

/// The receiving side of a channel. There is one receiver.
///
/// A receiver that is dropped without `disconnect` leaves the channel open.
#[verifier::reject_recursive_types(T)]
pub struct Receiver<T> {
    inner: Arc<Inner<T>>,
    /// Where the receiver parks its task.
    sink: WakeSink,
}

impl<T> Receiver<T> {
    /// The number of messages that the channel can hold.
    pub closed spec fn capacity(&self) -> nat {
        self.inner.capacity()
    }

    /// The event of the channel: the one that the receiver notifies when it
    /// has received a message and when it closes the channel. The handles of
    /// one channel have the same event.
    pub closed spec fn signal(&self) -> Event {
        self.inner.sender_signal
    }

    /// Attempts to receive a message at once.
    pub fn try_recv(&mut self) -> (result: Result<T, TryRecvError>)
        ensures
            final(self).capacity() == old(self).capacity(),
            final(self).signal() == old(self).signal(),
            exists|found: Model<T>| #[trigger]
                is_state_of(found, old(self).capacity()) && result == recv_result(
                    pop_result(found.items, found.closed),
                ),
    {
        proof {
            use_type_invariant(&*self.inner);
        }
        let (mut state, handle) = self.inner.state.acquire_write();
        proof {
            state.lemma_bound();
            assert(is_state_of(state.model(), self.capacity()));
        }
        let (result, wake) = state.try_recv();
        handle.release_write(state);
        self.inner.wake(wake);
        result
    }

    /// Polls for the next message: `Ready(Some(..))` with a message,
    /// `Ready(None)` when the channel is closed and empty, else `Pending`,
    /// and then `waker` is woken when a message is sent or the channel is
    /// closed.
    pub fn poll_next(&mut self, waker: &Waker) -> (polled: Poll<Option<T>>)
        ensures
            final(self).capacity() == old(self).capacity(),
            final(self).signal() == old(self).signal(),
            exists|found: Model<T>| #[trigger]
                is_state_of(found, old(self).capacity()) && polled == poll_result(
                    pop_result(found.items, found.closed),
                ),
    {
        proof {
            use_type_invariant(&*self.inner);
        }
        // Without a registered waker first.
        let (mut state, handle) = self.inner.state.acquire_write();
        proof {
            state.lemma_bound();
            assert(is_state_of(state.model(), self.capacity()));
        }
        let (polled, wake) = state.poll_pop();
        handle.release_write(state);
        match polled {
            Poll::Ready(item) => {
                self.inner.wake(wake);
                return Poll::Ready(item);
            },
            Poll::Pending => {},
        }
        // A sender may have pushed and notified before the waker is
        // registered, so the queue is looked at once more after that.
        self.sink.register(waker);
        let (mut state, handle) = self.inner.state.acquire_write();
        proof {
            state.lemma_bound();
            assert(is_state_of(state.model(), self.capacity()));
        }
        let (polled, wake) = state.poll_pop();
        handle.release_write(state);
        match polled {
            Poll::Ready(item) => {
                self.sink.unregister();
                self.inner.wake(wake);
                Poll::Ready(item)
            },
            Poll::Pending => Poll::Pending,
        }
    }

    /// Polls for the next message as `poll_next` does, with the end of the
    /// stream as an error.
    pub fn poll_recv(&mut self, waker: &Waker) -> (polled: Poll<Result<T, RecvError>>)
        ensures
            final(self).capacity() == old(self).capacity(),
            final(self).signal() == old(self).signal(),
            exists|found: Model<T>| #[trigger]
                is_state_of(found, old(self).capacity()) && polled == recv_outcome_result(
                    poll_result(pop_result(found.items, found.closed)),
                ),
    {
        recv_outcome(self.poll_next(waker))
    }

    /// Forgets the waker of a poll that answered `Pending` and will not be
    /// made again.
    pub fn cancel(&mut self)
        ensures
            final(self).capacity() == old(self).capacity(),
            final(self).signal() == old(self).signal(),
    {
        self.sink.unregister();
    }

    /// Closes the channel. No message can be sent from now on; the messages
    /// that were sent can still be received.
    pub fn close(&self) {
        proof {
            use_type_invariant(&*self.inner);
        }
        let (mut state, handle) = self.inner.state.acquire_write();
        let wake = state.close_by_receiver();
        handle.release_write(state);
        self.inner.wake(wake);
    }

    /// Gives up the handle, which closes the channel.
    pub fn disconnect(self) {
        proof {
            use_type_invariant(&*self.inner);
        }
        let (mut state, handle) = self.inner.state.acquire_write();
        let wake = state.drop_receiver();
        handle.release_write(state);
        self.inner.wake(wake);
    }
}

/// Creates a channel for `capacity` messages, and returns its sender and its
/// receiver.
pub fn channel<T>(capacity: usize) -> (handles: (Sender<T>, Receiver<T>))
    requires
        1 <= capacity <= usize::MAX / 2 + 1,
    ensures
        handles.0.capacity() == capacity,
        handles.1.capacity() == capacity,
        handles.0.signal() == handles.1.signal(),
{
    let sink = WakeSink::new();
    let inner = Arc::new(Inner::new(capacity, 1, sink.source()));
    let sender = Sender { inner: share(&inner) };
    let receiver = Receiver { inner, sink };
    (sender, receiver)
}

} // verus!
