//! The channel as a sequence of steps, and what holds of every such sequence.
//!
//! The handles make their steps under one lock, so whatever the senders and
//! the receiver do at the same time, the queue sees some sequence of pushes,
//! pops and closings. The laws of this module hold of every such sequence:
//! nothing is lost, nothing is made up, nothing overtakes, and a closed
//! channel stays closed.

use crate::queue::pop_items;
use crate::queue::pop_result;
use crate::queue::push_items;
use crate::queue::push_result;
use crate::queue::PopError;
use crate::queue::PushError;
use crate::error::RecvError;
use crate::error::SendError;
use crate::state::attempt_result;
use crate::state::outcome_result;
use crate::state::poll_result;
use crate::state::recv_outcome_result;
use crate::state::Poll;
use vstd::prelude::*;

verus! {

/// What the operations read of a queue.
pub struct Model<T> {
    /// The values that were pushed and not yet popped, oldest first.
    pub items: Seq<T>,
    /// The number of slots.
    pub capacity: nat,
    /// Whether the queue is closed.
    pub closed: bool,
}

/// One step on a queue.
pub enum Op<T> {
    /// A push of this value.
    Push(T),
    /// A pop.
    Pop,
    /// A closing.
    Close,
}

impl<T> Model<T> {
    /// The queue after `op`.
    pub open spec fn step(self, op: Op<T>) -> Model<T> {
        match op {
            Op::Push(value) => Model {
                items: push_items(self.items, self.capacity, self.closed, value),
                ..self
            },
            Op::Pop => Model { items: pop_items(self.items), ..self },
            Op::Close => Model { closed: true, ..self },
        }
    }

    /// The queue after `ops`, made in this order.
    pub open spec fn run(self, ops: Seq<Op<T>>) -> Model<T>
        decreases ops.len(),
    {
        if ops.len() == 0 {
            self
        } else {
            self.run(ops.drop_last()).step(ops.last())
        }
    }

    /// The values whose push succeeded in the course of `ops`, in the order
    /// of the pushes.
    pub open spec fn accepted(self, ops: Seq<Op<T>>) -> Seq<T>
        decreases ops.len(),
    {
        if ops.len() == 0 {
            Seq::empty()
        } else {
            let before = self.run(ops.drop_last());
            let earlier = self.accepted(ops.drop_last());
            match ops.last() {
                Op::Push(value) => if push_result(before.items, before.capacity, before.closed, value)
                    is Ok {
                    earlier.push(value)
                } else {
                    earlier
                },
                _ => earlier,
            }
        }
    }

    /// The values that the pops of `ops` returned, in the order of the pops.
    pub open spec fn received(self, ops: Seq<Op<T>>) -> Seq<T>
        decreases ops.len(),
    {
        if ops.len() == 0 {
            Seq::empty()
        } else {
            let before = self.run(ops.drop_last());
            let earlier = self.received(ops.drop_last());
            match ops.last() {
                Op::Pop => match pop_result(before.items, before.closed) {
                    Ok(value) => earlier.push(value),
                    Err(_) => earlier,
                },
                _ => earlier,
            }
        }
    }

    /// Nothing is lost, made up or reordered: what was in the queue, followed
    /// by what was pushed with success, is what was popped, followed by what
    /// is in the queue now.
    pub proof fn law_conservation(self, ops: Seq<Op<T>>)
        ensures
            self.items + self.accepted(ops) == self.received(ops) + self.run(ops).items,
        decreases ops.len(),
    {
        if ops.len() == 0 {
            assert(self.items + self.accepted(ops) =~= self.received(ops) + self.run(ops).items);
        } else {
            self.law_conservation(ops.drop_last());
            let before = self.run(ops.drop_last());
            let accepted = self.accepted(ops.drop_last());
            let received = self.received(ops.drop_last());
            assert(self.items + accepted == received + before.items);
            match ops.last() {
                Op::Push(value) => {
                    if push_result(before.items, before.capacity, before.closed, value) is Ok {
                        assert(self.items + accepted.push(value) =~= (self.items + accepted).push(
                            value,
                        ));
                        assert(received + before.items.push(value) =~= (received
                            + before.items).push(value));
                    }
                },
                Op::Pop => {
                    if before.items.len() > 0 {
                        assert(received.push(before.items[0]) + before.items.drop_first()
                            =~= received + before.items);
                    }
                },
                Op::Close => {},
            }
        }
    }

    /// On a queue that starts empty and ends empty, the values popped are
    /// the values pushed with success, each as often as it was pushed.
    pub proof fn law_same_values(self, ops: Seq<Op<T>>)
        requires
            self.items.len() == 0,
            self.run(ops).items.len() == 0,
        ensures
            self.received(ops) == self.accepted(ops),
            self.received(ops).to_multiset() == self.accepted(ops).to_multiset(),
    {
        self.law_conservation(ops);
        assert(self.items + self.accepted(ops) =~= self.accepted(ops));
        assert(self.received(ops) + self.run(ops).items =~= self.received(ops));
    }

    /// The values popped are the first of the values that were there or were
    /// pushed with success: a value is popped only after all that were
    /// pushed before it.
    pub proof fn law_fifo(self, ops: Seq<Op<T>>)
        ensures
            self.received(ops).is_prefix_of(self.items + self.accepted(ops)),
    {
        self.law_conservation(ops);
        let all = self.items + self.accepted(ops);
        let received = self.received(ops);
        assert(all.subrange(0, received.len() as int) =~= received);
    }

    /// The law of order, producer by producer: among the values popped, those
    /// of the producers that `from` picks are the first of those pushed with
    /// success by these producers, in the order of their pushes.
    pub proof fn law_fifo_per_producer(self, ops: Seq<Op<T>>, from: spec_fn(T) -> bool)
        requires
            self.items.len() == 0,
        ensures
            self.received(ops).filter(from).is_prefix_of(self.accepted(ops).filter(from)),
    {
        self.law_conservation(ops);
        let received = self.received(ops);
        let rest = self.run(ops).items;
        assert(self.items + self.accepted(ops) =~= self.accepted(ops));
        Seq::filter_distributes_over_add(received, rest, from);
        let picked = received.filter(from);
        assert((picked + rest.filter(from)).subrange(0, picked.len() as int) =~= picked);
    }

    /// The queue never holds more values than it has slots.
    pub proof fn law_bounded(self, ops: Seq<Op<T>>)
        requires
            self.items.len() <= self.capacity,
        ensures
            self.run(ops).items.len() <= self.capacity,
            self.run(ops).capacity == self.capacity,
        decreases ops.len(),
    {
        if ops.len() > 0 {
            self.law_bounded(ops.drop_last());
        }
    }

    /// A closed queue stays closed, whatever follows.
    pub proof fn law_closed_is_final(self, ops: Seq<Op<T>>)
        requires
            self.closed,
        ensures
            self.run(ops).closed,
        decreases ops.len(),
    {
        if ops.len() > 0 {
            self.law_closed_is_final(ops.drop_last());
        }
    }

    /// After a closing, every push gives its value back as `Closed`, and
    /// leaves the queue as it is.
    pub proof fn law_push_after_close(self, ops: Seq<Op<T>>, value: T)
        requires
            self.closed,
        ensures
            push_result(self.run(ops).items, self.capacity, self.run(ops).closed, value) == Err::<
                (),
                PushError<T>,
            >(PushError::Closed(value)),
            self.run(ops).step(Op::Push(value)) == self.run(ops),
    {
        self.law_closed_is_final(ops);
    }

    /// Once the queue is closed and empty it stays so, and every pop answers
    /// `Closed`.
    pub proof fn law_pop_after_close(self, ops: Seq<Op<T>>)
        requires
            self.closed,
            self.items.len() == 0,
        ensures
            self.run(ops).closed,
            self.run(ops).items.len() == 0,
            pop_result(self.run(ops).items, self.run(ops).closed) == Err::<T, PopError>(
                PopError::Closed,
            ),
        decreases ops.len(),
    {
        if ops.len() > 0 {
            self.law_pop_after_close(ops.drop_last());
        }
    }

    /// Once the channel is closed, whatever closed it and whatever follows,
    /// a waiting send is over at its next attempt, and ends with its message
    /// in the error.
    pub proof fn law_send_after_close(self, ops: Seq<Op<T>>, message: T)
        requires
            self.closed,
        ensures
            ({
                let now = self.run(ops);
                let attempt = attempt_result(
                    push_result(now.items, now.capacity, now.closed, message),
                    message,
                );
                &&& attempt.0 is Some
                &&& outcome_result(attempt.1) == Err::<(), SendError<T>>(SendError(message))
            }),
    {
        self.law_closed_is_final(ops);
    }

    /// Once the channel is closed and empty, whatever closed it and whatever
    /// follows, a poll is ready with the end of the stream, and a receive
    /// ends with the error.
    pub proof fn law_recv_after_close(self, ops: Seq<Op<T>>)
        requires
            self.closed,
            self.items.len() == 0,
        ensures
            ({
                let now = self.run(ops);
                &&& poll_result(pop_result(now.items, now.closed)) == Poll::Ready(None::<T>)
                &&& recv_outcome_result(poll_result(pop_result(now.items, now.closed)))
                    == Poll::Ready(Err::<T, RecvError>(RecvError))
            }),
    {
        self.law_pop_after_close(ops);
    }

    /// No value leaks: on a queue that starts empty, every value that was
    /// pushed with success has been popped or is still in the queue, where a
    /// clearing of the queue finds it.
    pub proof fn law_nothing_leaks(self, ops: Seq<Op<T>>)
        requires
            self.items.len() == 0,
        ensures
            self.accepted(ops).to_multiset() == self.received(ops).to_multiset().add(
                self.run(ops).items.to_multiset(),
            ),
    {
        self.law_conservation(ops);
        assert(self.items + self.accepted(ops) =~= self.accepted(ops));
        vstd::seq_lib::lemma_multiset_commutative(self.received(ops), self.run(ops).items);
    }

    /// A send that is given up while it waits takes nothing with it: its
    /// attempts found the queue full or closed, and without them every later
    /// step finds the same queue, accepts the same values and pops the same
    /// values.
    pub proof fn law_cancelled_send(self, before: Seq<Op<T>>, message: T, after: Seq<Op<T>>)
        requires
            push_result(
                self.run(before).items,
                self.run(before).capacity,
                self.run(before).closed,
                message,
            ) is Err,
        ensures
            self.run(before.push(Op::Push(message)) + after) == self.run(before + after),
            self.accepted(before.push(Op::Push(message)) + after) == self.accepted(before + after),
            self.received(before.push(Op::Push(message)) + after) == self.received(before + after),
        decreases after.len(),
    {
        let with = before.push(Op::Push(message)) + after;
        let without = before + after;
        if after.len() == 0 {
            assert(with =~= before.push(Op::Push(message)));
            assert(without =~= before);
            assert(with.drop_last() =~= before);
        } else {
            self.law_cancelled_send(before, message, after.drop_last());
            assert(with.drop_last() =~= before.push(Op::Push(message)) + after.drop_last());
            assert(without.drop_last() =~= before + after.drop_last());
            assert(with.last() == after.last());
            assert(without.last() == after.last());
        }
    }

    /// A push that fails changes nothing: the value comes back, and the queue
    /// holds what it held.
    pub proof fn law_failed_push(self, value: T)
        ensures
            match push_result(self.items, self.capacity, self.closed, value) {
                Ok(()) => self.items.len() < self.capacity && !self.closed,
                Err(PushError::Full(back)) => back == value && self.items.len() >= self.capacity
                    && self.step(Op::Push(value)) == self,
                Err(PushError::Closed(back)) => back == value && self.closed && self.step(
                    Op::Push(value),
                ) == self,
            },
    {
    }
}

} // verus!
