//! What a channel is between two operations, and what each operation makes
//! of it.
//!
//! The state is the queue and the number of live senders. Each operation of a
//! handle is one step on the state: it says what the operation returns, what
//! the state becomes, and whom the handle has to wake.

use crate::error::RecvError;
use crate::error::SendError;
use crate::error::TryRecvError;
use crate::error::TrySendError;
use crate::model::Model;
use crate::model::Op;
use crate::queue::pop_result;
use crate::queue::push_result;
use crate::queue::PopError;
use crate::queue::PushError;
use crate::queue::Queue;
use vstd::prelude::*;
use vstd::wrapping::usize_specs::wrapping_add;
use vstd::wrapping::usize_specs::wrapping_sub;

verus! {

/// Whom to wake after a step.
#[derive(Clone, Copy, Debug, PartialEq, Eq, Structural)]
pub struct Wake {
    /// Whether the receiver is notified.
    pub receiver: bool,
    /// How many blocked senders are notified; `usize::MAX` notifies all.
    pub senders: usize,
}

/// The outcome of a poll: a result, or the answer that there is none yet.
#[derive(Clone, Copy, Debug, PartialEq, Eq)]
pub enum Poll<T> {
    /// The operation is over, with this result.
    Ready(T),
    /// The operation has to be polled again after a wake-up.
    Pending,
}

/// Nobody is woken.
pub open spec fn wake_none() -> Wake {
    Wake { receiver: false, senders: 0 }
}

/// The receiver is woken.
pub open spec fn wake_receiver() -> Wake {
    Wake { receiver: true, senders: 0 }
}

/// One blocked sender is woken.
pub open spec fn wake_one_sender() -> Wake {
    Wake { receiver: false, senders: 1 }
}

/// All blocked senders are woken.
pub open spec fn wake_all_senders() -> Wake {
    Wake { receiver: false, senders: usize::MAX }
}

/// The receiver and all blocked senders are woken.
pub open spec fn wake_all() -> Wake {
    Wake { receiver: true, senders: usize::MAX }
}

/// The result of a send for the result of its push.
pub open spec fn send_result<T>(pushed: Result<(), PushError<T>>) -> Result<(), TrySendError<T>> {
    match pushed {
        Ok(()) => Ok(()),
        Err(error) => Err(TrySendError::of(error)),
    }
}

/// The result of a receive for the result of its pop.
pub open spec fn recv_result<T>(popped: Result<T, PopError>) -> Result<T, TryRecvError> {
    match popped {
        Ok(message) => Ok(message),
        Err(error) => Err(TryRecvError::of(error)),
    }
}

/// The outcome of a poll for the result of its pop: a message, the end of the
/// stream, or nothing yet.
pub open spec fn poll_result<T>(popped: Result<T, PopError>) -> Poll<Option<T>> {
    match popped {
        Ok(message) => Poll::Ready(Some(message)),
        Err(PopError::Closed) => Poll::Ready(None),
        Err(PopError::Empty) => Poll::Pending,
    }
}

/// What one attempt of a waiting send answers for the result of its push, and
/// what it leaves of the message: the attempt is over unless the queue is
/// full, and the message is gone only if it was pushed.
pub open spec fn attempt_result<T>(pushed: Result<(), PushError<T>>, message: T) -> (
    Option<()>,
    Option<T>,
) {
    match pushed {
        Ok(()) => (Some(()), None),
        Err(PushError::Full(_)) => (None, Some(message)),
        Err(PushError::Closed(_)) => (Some(()), Some(message)),
    }
}

/// The end of a waiting send for what its attempts left of the message.
pub open spec fn outcome_result<T>(message: Option<T>) -> Result<(), SendError<T>> {
    match message {
        Some(kept) => Err(SendError(kept)),
        None => Ok(()),
    }
}

/// The outcome of a receive for the outcome of its poll.
pub open spec fn recv_outcome_result<T>(polled: Poll<Option<T>>) -> Poll<Result<T, RecvError>> {
    match polled {
        Poll::Ready(Some(message)) => Poll::Ready(Ok(message)),
        Poll::Ready(None) => Poll::Ready(Err(RecvError)),
        Poll::Pending => Poll::Pending,
    }
}

/// The queue of a channel and the number of its live senders.
pub struct State<T> {
    queue: Queue<T>,
    sender_count: usize,
}

impl<T> State<T> {
    /// The invariant of the state: that of its queue.
    pub closed spec fn wf(&self) -> bool {
        self.queue.wf()
    }

    /// The queue of the channel as the operations read it.
    pub open spec fn model(&self) -> Model<T> {
        Model { items: self.messages(), capacity: self.capacity(), closed: self.closed() }
    }

    /// The messages that were sent and not yet received, oldest first.
    pub closed spec fn messages(&self) -> Seq<T> {
        self.queue@
    }

    /// The number of messages that the channel can hold.
    pub closed spec fn capacity(&self) -> nat {
        self.queue.capacity()
    }

    /// Whether the channel is closed.
    pub closed spec fn closed(&self) -> bool {
        self.queue.closed()
    }

    /// The number of live senders, modulo the word.
    pub closed spec fn senders(&self) -> usize {
        self.sender_count
    }

    /// An open channel without messages, for `capacity` messages and with
    /// `sender_count` senders.
    pub fn new(capacity: usize, sender_count: usize) -> (state: State<T>)
        requires
            1 <= capacity <= usize::MAX / 2 + 1,
        ensures
            state.wf(),
            state.messages() == Seq::<T>::empty(),
            state.capacity() == capacity,
            !state.closed(),
            state.senders() == sender_count,
    {
        State { queue: Queue::new(capacity), sender_count }
    }

    /// A channel never holds more messages than its capacity.
    pub proof fn lemma_bound(&self)
        requires
            self.wf(),
        ensures
            self.messages().len() <= self.capacity(),
            1 <= self.capacity() <= usize::MAX / 2 + 1,
    {
        self.queue.lemma_len_bound();
    }

    /// Sends `message` if the channel is open and not full, and wakes the
    /// receiver if it was sent.
    pub fn try_send(&mut self, message: T) -> (out: (Result<(), TrySendError<T>>, Wake))
        requires
            old(self).wf(),
        ensures
            final(self).wf(),
            final(self).capacity() == old(self).capacity(),
            final(self).closed() == old(self).closed(),
            final(self).senders() == old(self).senders(),
            out.0 == send_result(
                push_result(old(self).messages(), old(self).capacity(), old(self).closed(), message),
            ),
            final(self).model() == old(self).model().step(Op::Push(message)),
            out.1 == if out.0 is Ok {
                wake_receiver()
            } else {
                wake_none()
            },
    {
        match self.queue.push(message) {
            Ok(()) => (Ok(()), Wake { receiver: true, senders: 0 }),
            Err(error) => (Err(TrySendError::from_push(error)), Wake { receiver: false, senders: 0 }),
        }
    }

    /// One attempt of a waiting send: takes the message out of `message` and
    /// pushes it. The attempt is over (`Some`) when the message was pushed or
    /// the channel is closed; it has to be made again (`None`) when the queue
    /// is full. A message that was not pushed is back in `message`.
    pub fn send_attempt(&mut self, message: &mut Option<T>) -> (done: Option<()>)
        requires
            old(self).wf(),
            *old(message) is Some,
        ensures
            final(self).wf(),
            final(self).capacity() == old(self).capacity(),
            final(self).closed() == old(self).closed(),
            final(self).senders() == old(self).senders(),
            final(self).model() == old(self).model().step(Op::Push(old(message)->0)),
            (done, *final(message)) == attempt_result(
                push_result(
                    old(self).messages(),
                    old(self).capacity(),
                    old(self).closed(),
                    old(message)->0,
                ),
                old(message)->0,
            ),
    {
        let taken = message.take().unwrap();
        match self.queue.push(taken) {
            Ok(()) => Some(()),
            Err(PushError::Full(back)) => {
                *message = Some(back);
                None
            },
            Err(PushError::Closed(back)) => {
                *message = Some(back);
                Some(())
            },
        }
    }

    /// Closes the channel on behalf of a sender, and wakes the receiver and
    /// all blocked senders.
    pub fn close_by_sender(&mut self) -> (wake: Wake)
        requires
            old(self).wf(),
        ensures
            final(self).wf(),
            final(self).model() == old(self).model().step(Op::Close),
            final(self).senders() == old(self).senders(),
            wake == wake_all(),
    {
        self.queue.close();
        Wake { receiver: true, senders: usize::MAX }
    }

    /// Whether the channel is closed.
    pub fn is_closed(&self) -> (closed: bool)
        ensures
            closed == self.closed(),
    {
        self.queue.is_closed()
    }

    /// Counts one more sender.
    pub fn add_sender(&mut self)
        ensures
            final(self).senders() == wrapping_add(old(self).senders(), 1),
            final(self).wf() == old(self).wf(),
            final(self).messages() == old(self).messages(),
            final(self).capacity() == old(self).capacity(),
            final(self).closed() == old(self).closed(),
    {
        self.sender_count = self.sender_count.wrapping_add(1);
    }

    /// Counts one sender less. When the last sender leaves an open channel,
    /// the channel is closed and the receiver is woken.
    pub fn drop_sender(&mut self) -> (wake: Wake)
        requires
            old(self).wf(),
        ensures
            final(self).wf(),
            final(self).senders() == wrapping_sub(old(self).senders(), 1),
            final(self).model() == if old(self).senders() == 1 {
                old(self).model().step(Op::Close)
            } else {
                old(self).model()
            },
            wake == if old(self).senders() == 1 && !old(self).closed() {
                wake_receiver()
            } else {
                wake_none()
            },
    {
        let previous = self.sender_count;
        self.sender_count = previous.wrapping_sub(1);
        if previous == 1 && !self.queue.is_closed() {
            self.queue.close();
            Wake { receiver: true, senders: 0 }
        } else {
            Wake { receiver: false, senders: 0 }
        }
    }

    /// Receives the oldest message if there is one, and wakes one blocked
    /// sender if a message was received.
    pub fn try_recv(&mut self) -> (out: (Result<T, TryRecvError>, Wake))
        requires
            old(self).wf(),
        ensures
            final(self).wf(),
            final(self).capacity() == old(self).capacity(),
            final(self).closed() == old(self).closed(),
            final(self).senders() == old(self).senders(),
            out.0 == recv_result(pop_result(old(self).messages(), old(self).closed())),
            final(self).model() == old(self).model().step(Op::Pop),
            out.1 == if out.0 is Ok {
                wake_one_sender()
            } else {
                wake_none()
            },
    {
        match self.queue.pop() {
            Ok(message) => (Ok(message), Wake { receiver: false, senders: 1 }),
            Err(error) => (Err(TryRecvError::from_pop(error)), Wake { receiver: false, senders: 0 }),
        }
    }

    /// One pop of a poll: the oldest message if there is one, the end of the
    /// stream if the channel is closed and empty, else nothing yet. One
    /// blocked sender is woken if a message was received.
    pub fn poll_pop(&mut self) -> (out: (Poll<Option<T>>, Wake))
        requires
            old(self).wf(),
        ensures
            final(self).wf(),
            final(self).capacity() == old(self).capacity(),
            final(self).closed() == old(self).closed(),
            final(self).senders() == old(self).senders(),
            out.0 == poll_result(pop_result(old(self).messages(), old(self).closed())),
            final(self).model() == old(self).model().step(Op::Pop),
            out.1 == if out.0 is Ready && out.0->Ready_0 is Some {
                wake_one_sender()
            } else {
                wake_none()
            },
    {
        match self.queue.pop() {
            Ok(message) => (Poll::Ready(Some(message)), Wake { receiver: false, senders: 1 }),
            Err(PopError::Closed) => (Poll::Ready(None), Wake { receiver: false, senders: 0 }),
            Err(PopError::Empty) => (Poll::Pending, Wake { receiver: false, senders: 0 }),
        }
    }

    /// Closes the channel on behalf of the receiver, and wakes all blocked
    /// senders, unless it is closed already.
    pub fn close_by_receiver(&mut self) -> (wake: Wake)
        requires
            old(self).wf(),
        ensures
            final(self).wf(),
            final(self).model() == old(self).model().step(Op::Close),
            final(self).senders() == old(self).senders(),
            wake == if old(self).closed() {
                wake_none()
            } else {
                wake_all_senders()
            },
    {
        if !self.queue.is_closed() {
            self.queue.close();
            Wake { receiver: false, senders: usize::MAX }
        } else {
            Wake { receiver: false, senders: 0 }
        }
    }

    /// Closes the channel when the receiver leaves, and wakes all blocked
    /// senders.
    pub fn drop_receiver(&mut self) -> (wake: Wake)
        requires
            old(self).wf(),
        ensures
            final(self).wf(),
            final(self).model() == old(self).model().step(Op::Close),
            final(self).senders() == old(self).senders(),
            wake == wake_all_senders(),
    {
        self.queue.close();
        Wake { receiver: false, senders: usize::MAX }
    }
}

/// The end of a waiting send: an error with the message if it is still
/// there, else success, for which the receiver is woken.
pub fn send_outcome<T>(message: Option<T>) -> (out: (Result<(), SendError<T>>, Wake))
    ensures
        out.0 == outcome_result(message),
        out.1 == if message is None {
            wake_receiver()
        } else {
            wake_none()
        },
{
    match message {
        Some(kept) => (Err(SendError(kept)), Wake { receiver: false, senders: 0 }),
        None => (Ok(()), Wake { receiver: true, senders: 0 }),
    }
}

/// The outcome of a receive for the outcome of the poll that it made: the
/// end of the stream is an error.
pub fn recv_outcome<T>(polled: Poll<Option<T>>) -> (out: Poll<Result<T, RecvError>>)
    ensures
        out == recv_outcome_result(polled),
{
    match polled {
        Poll::Ready(Some(message)) => Poll::Ready(Ok(message)),
        Poll::Ready(None) => Poll::Ready(Err(RecvError)),
        Poll::Pending => Poll::Pending,
    }
}

} // verus!
