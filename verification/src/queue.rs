//! A bounded queue on a ring of stamped slots.
//!
//! Each slot carries a stamp in the layout of a position word. A slot whose
//! stamp equals the enqueue position is free for the value of that position;
//! a slot whose stamp is one above the dequeue position holds the value of
//! that position. Taking a value out moves the stamp one lap ahead, which
//! frees the slot for the same index of the next lap.

use crate::cell::UnsafeCell;
use crate::layout::flagged;
use crate::layout::is_lap;
use crate::layout::is_power_of_two;
use crate::layout::lap_of;
use crate::layout::lemma_all_ones;
use crate::layout::lemma_compose;
use crate::layout::lemma_flag;
use crate::layout::lemma_mask;
use crate::layout::lemma_mask_gap;
use crate::layout::lemma_next_lap;
use crate::layout::lemma_set_flag;
use crate::layout::lemma_shifted_mask;
use crate::layout::lemma_split;
use crate::layout::lemma_zero;
use crate::layout::low_of;
use crate::layout::next_lap;
use crate::layout::next_pos;
use crate::layout::next_power_of_two;
use crate::layout::right_mask_of;
use crate::layout::stamp_delta;
use crate::model::Model;
use crate::model::Op;
use crate::padded::padded_get;
use crate::padded::padded_new;
use crate::padded::padded_set;
use crate::padded::padded_word;
use cache_padded::CachePadded;
use vstd::prelude::*;
use vstd::wrapping::usize_specs::wrapping_add;

verus! {

/// A queue slot: a value and the stamp that says whether it is there.
struct Slot<T> {
    stamp: usize,
    value: UnsafeCell<Option<T>>,
}

/// A bounded first-in, first-out queue.
///
/// The queue is viewed as the sequence of the values that were pushed and not
/// yet popped, oldest first.
pub struct Queue<T> {
    /// Position of the slot to which the next value will be written; its flag
    /// bit says that the queue is closed.
    enqueue_pos: CachePadded<usize>,
    /// Position of the slot from which the next value will be read.
    dequeue_pos: CachePadded<usize>,
    /// The slots.
    buffer: Vec<Slot<T>>,
    /// Mask over the buffer index and the flag.
    right_mask: usize,
    /// Mask of the flag.
    closed_channel_mask: usize,
}

/// Why a value could not be pushed. The value comes back with the error.
#[derive(Debug, PartialEq, Eq)]
pub enum PushError<T> {
    /// The queue is full.
    Full(T),
    /// The queue is closed.
    Closed(T),
}

/// Why no value could be popped.
#[derive(Debug, PartialEq, Eq, Structural)]
pub enum PopError {
    /// The queue is empty.
    Empty,
    /// The queue is empty and closed.
    Closed,
}

/// What a push of `value` gives on a queue that holds `items`: the error for a
/// closed queue, then the error for a full one, else success.
pub open spec fn push_result<T>(items: Seq<T>, capacity: nat, closed: bool, value: T) -> Result<
    (),
    PushError<T>,
> {
    if closed {
        Err(PushError::Closed(value))
    } else if items.len() >= capacity {
        Err(PushError::Full(value))
    } else {
        Ok(())
    }
}

/// What a queue holds after a push of `value`: `value` behind `items` if the
/// push succeeds, else `items`.
pub open spec fn push_items<T>(items: Seq<T>, capacity: nat, closed: bool, value: T) -> Seq<T> {
    if push_result(items, capacity, closed, value) is Ok {
        items.push(value)
    } else {
        items
    }
}

/// What a pop gives on a queue that holds `items`: the oldest of them, or the
/// error that says whether the empty queue is closed.
pub open spec fn pop_result<T>(items: Seq<T>, closed: bool) -> Result<T, PopError> {
    if items.len() > 0 {
        Ok(items[0])
    } else if closed {
        Err(PopError::Closed)
    } else {
        Err(PopError::Empty)
    }
}

/// What a queue holds after a pop: `items` without the oldest.
pub open spec fn pop_items<T>(items: Seq<T>) -> Seq<T> {
    if items.len() > 0 {
        items.drop_first()
    } else {
        items
    }
}

impl<T> View for Queue<T> {
    type V = Seq<T>;

    closed spec fn view(&self) -> Seq<T> {
        Seq::new(self.count() as nat, |k: int| self.buffer@[self.wrap(self.head() + k)].value@.unwrap())
    }
}

impl<T> Queue<T> {
    /// The queue as the operations read it.
    pub open spec fn model(&self) -> Model<T> {
        Model { items: self@, capacity: self.capacity(), closed: self.closed() }
    }

    /// The number of slots.
    pub closed spec fn capacity(&self) -> nat {
        self.buffer@.len()
    }

    /// The flag bit of the position words.
    pub closed spec fn closed_mask(&self) -> usize {
        self.closed_channel_mask
    }

    /// The mask over the flag and the index of the position words.
    pub closed spec fn right_mask(&self) -> usize {
        self.right_mask
    }

    /// The buffer index of a position: the index of the slot that it names.
    pub open spec fn index_of(&self, pos: usize) -> int {
        low_of(pos, self.right_mask()) as int
    }

    /// Whether the queue is closed.
    pub closed spec fn closed(&self) -> bool {
        flagged(padded_word(self.enqueue_pos), self.closed_channel_mask)
    }

    /// The position from which the next value is read.
    pub closed spec fn dequeue_position(&self) -> usize {
        padded_word(self.dequeue_pos)
    }

    /// The position to which the next value is written, with the flag if the
    /// queue is closed.
    pub closed spec fn enqueue_position(&self) -> usize {
        padded_word(self.enqueue_pos)
    }

    /// The stamp of slot `i`.
    pub closed spec fn stamp(&self, i: int) -> usize {
        self.buffer@[i].stamp
    }

    spec fn head(&self) -> int {
        low_of(padded_word(self.dequeue_pos), self.right_mask) as int
    }

    spec fn base(&self) -> usize {
        lap_of(padded_word(self.dequeue_pos), self.right_mask)
    }

    spec fn tail(&self) -> int {
        let low = low_of(padded_word(self.enqueue_pos), self.right_mask);
        if low >= self.closed_channel_mask {
            low - self.closed_channel_mask
        } else {
            low as int
        }
    }

    spec fn count(&self) -> int {
        if self.buffer@[self.head()].stamp == padded_word(self.dequeue_pos) {
            0
        } else if self.tail() > self.head() {
            self.tail() - self.head()
        } else {
            self.buffer@.len() - self.head() + self.tail()
        }
    }

    spec fn wrap(&self, x: int) -> int {
        if x < self.buffer@.len() {
            x
        } else {
            x - self.buffer@.len()
        }
    }

    spec fn offset_of(&self, i: int) -> int {
        if i >= self.head() {
            i - self.head()
        } else {
            self.buffer@.len() - self.head() + i
        }
    }

    spec fn slot_lap(&self, i: int) -> usize {
        if i >= self.head() {
            self.base()
        } else {
            next_lap(self.base(), self.right_mask)
        }
    }

    spec fn slot_ok(&self, i: int) -> bool {
        let filled = self.offset_of(i) < self.count();
        &&& self.buffer@[i].stamp == self.slot_lap(i) + i + (if filled { 1int } else { 0int })
        &&& self.buffer@[i].value@.is_some() == filled
    }

    /// The invariant of the queue: the positions and the stamps agree on which
    /// slots hold a value.
    pub closed spec fn wf(&self) -> bool {
        &&& 1 <= self.buffer@.len() <= self.closed_channel_mask
        &&& is_power_of_two(self.closed_channel_mask)
        &&& self.right_mask == right_mask_of(self.closed_channel_mask)
        &&& self.head() < self.buffer@.len()
        &&& self.tail() < self.buffer@.len()
        &&& self.tail() == self.wrap(self.head() + self.count())
        &&& lap_of(padded_word(self.enqueue_pos), self.right_mask) == (if self.head() + self.count()
            < self.buffer@.len() {
            self.base()
        } else {
            next_lap(self.base(), self.right_mask)
        })
        &&& forall|i: int| 0 <= i < self.buffer@.len() ==> #[trigger] self.slot_ok(i)
    }

    proof fn lemma_words(&self)
        requires
            self.wf(),
        ensures
            self.right_mask == self.closed_channel_mask + self.closed_channel_mask - 1,
            padded_word(self.dequeue_pos) == self.base() + self.head(),
            is_lap(self.base(), self.right_mask),
            is_lap(next_lap(self.base(), self.right_mask), self.right_mask),
            is_lap(lap_of(padded_word(self.enqueue_pos), self.right_mask), self.right_mask),
            padded_word(self.enqueue_pos) == lap_of(padded_word(self.enqueue_pos), self.right_mask)
                + low_of(padded_word(self.enqueue_pos), self.right_mask),
            low_of(padded_word(self.enqueue_pos), self.right_mask) <= self.right_mask,
            self.closed() <==> low_of(padded_word(self.enqueue_pos), self.right_mask)
                >= self.closed_channel_mask,
            !flagged(padded_word(self.dequeue_pos), self.closed_channel_mask),
            0 <= self.count() <= self.buffer@.len(),
            self@.len() == self.count(),
    {
        let m = self.closed_channel_mask;
        lemma_mask(m);
        lemma_split(padded_word(self.dequeue_pos), m);
        lemma_split(padded_word(self.enqueue_pos), m);
        lemma_flag(padded_word(self.enqueue_pos), m);
        lemma_flag(padded_word(self.dequeue_pos), m);
        lemma_next_lap(self.base(), m);
    }

    /// Creates an empty, open queue of `capacity` slots.
    pub fn new(capacity: usize) -> (queue: Queue<T>)
        requires
            1 <= capacity <= usize::MAX / 2 + 1,
        ensures
            queue.wf(),
            queue@ == Seq::<T>::empty(),
            queue.capacity() == capacity,
            !queue.closed(),
            queue.enqueue_position() == 0,
            queue.dequeue_position() == 0,
            forall|i: int| 0 <= i < capacity ==> queue.stamp(i) == i,
            is_power_of_two(queue.closed_mask()),
            capacity <= queue.closed_mask() < capacity + capacity,
    {
        let mut buffer: Vec<Slot<T>> = Vec::with_capacity(capacity);
        for i in 0..capacity
            invariant
                buffer@.len() == i,
                forall|j: int| 0 <= j < i ==> buffer@[j].stamp == j && buffer@[j].value@ == None::<T>,
        {
            buffer.push(Slot { stamp: i, value: UnsafeCell::new(None) });
        }
        let closed_channel_mask = next_power_of_two(capacity);
        let right_mask = (closed_channel_mask << 1).wrapping_sub(1);
        let queue = Queue {
            enqueue_pos: padded_new(0),
            dequeue_pos: padded_new(0),
            buffer,
            right_mask,
            closed_channel_mask,
        };
        proof {
            lemma_shifted_mask(closed_channel_mask);
            lemma_zero(closed_channel_mask);
            assert forall|i: int| 0 <= i < queue.buffer@.len() implies #[trigger] queue.slot_ok(
                i,
            ) by {}
            assert(queue@ =~= Seq::<T>::empty());
        }
        queue
    }

    /// Attempts to push a value.
    ///
    /// A closed queue gives the value back as `Closed`, a full one as `Full`;
    /// otherwise the value becomes the newest of the queue: the enqueue
    /// position moves on, the value goes into the slot of the old position,
    /// and only then does the slot's stamp, one higher than before, say that
    /// the value is there.
    ///
    /// The queue is held exclusively for the length of the call, so the
    /// position read at the start is still the position when the slot is
    /// taken: taking it cannot fail, and nothing has to be tried again.
    pub fn push(&mut self, value: T) -> (result: Result<(), PushError<T>>)
        requires
            old(self).wf(),
        ensures
            final(self).wf(),
            final(self).capacity() == old(self).capacity(),
            final(self).closed_mask() == old(self).closed_mask(),
            final(self).right_mask() == old(self).right_mask(),
            final(self).closed() == old(self).closed(),
            result == push_result(old(self)@, old(self).capacity(), old(self).closed(), value),
            final(self)@ == push_items(old(self)@, old(self).capacity(), old(self).closed(), value),
            final(self).model() == old(self).model().step(Op::Push(value)),
            final(self).dequeue_position() == old(self).dequeue_position(),
            final(self).enqueue_position() == if result is Ok {
                next_pos(old(self).enqueue_position(), old(self).capacity() as int, old(self).closed_mask())
            } else {
                old(self).enqueue_position()
            },
            forall|i: int|
                0 <= i < old(self).capacity() ==> #[trigger] final(self).stamp(i) == if result is Ok
                    && i == old(self).index_of(old(self).enqueue_position()) {
                    old(self).stamp(i) + 1
                } else {
                    old(self).stamp(i) as int
                },
    {
        proof {
            self.lemma_words();
        }
        let enqueue_pos = padded_get(&self.enqueue_pos);
        if enqueue_pos & self.closed_channel_mask != 0 {
            return Err(PushError::Closed(value));
        }
        let idx = enqueue_pos & self.right_mask;
        proof {
            assert(self.slot_ok(idx as int));
            assert(self.slot_ok(self.head()));
            let m = self.closed_channel_mask;
            lemma_compose(self.base(), (self.head() + 1) as usize, m);
            lemma_compose(next_lap(self.base(), self.right_mask), self.head() as usize, m);
            lemma_compose(lap_of(enqueue_pos, self.right_mask), (idx + 1) as usize, m);
            lemma_next_lap(lap_of(enqueue_pos, self.right_mask), m);
            lemma_compose(next_lap(lap_of(enqueue_pos, self.right_mask), self.right_mask), 0, m);
        }
        let stamp = self.buffer[idx].stamp;
        let delta = stamp_delta(stamp, enqueue_pos);
        if delta == 0 {
            let next = self.next_queue_pos(enqueue_pos);
            padded_set(&mut self.enqueue_pos, next);
            let ghost pushed = value;
            let fill = |v: &mut Option<T>|
                ensures
                    *final(v) == Some(pushed),
                { *v = Some(value); };
            self.buffer[idx].value.with_mut(fill);
            self.buffer[idx].stamp = stamp.wrapping_add(1);
            proof {
                lemma_flag(next, self.closed_channel_mask);
                assert forall|i: int| 0 <= i < self.buffer@.len() implies #[trigger] self.slot_ok(
                    i,
                ) by {
                    assert(old(self).slot_ok(i));
                }
                assert(self@ =~= old(self)@.push(pushed));
            }
            Ok(())
        } else if delta < 0 {
            // The stamp is behind the position: the slot still holds the
            // value of the lap before.
            Err(PushError::Full(value))
        } else {
            // The stamp is ahead of the position. Nobody else can be writing
            // to a queue that is held exclusively, so the words have no
            // sequence bits and the slot holds the value of the same index.
            proof {
                lemma_all_ones();
                lemma_mask_gap(self.closed_channel_mask);
                assert(self.right_mask == usize::MAX);
            }
            Err(PushError::Full(value))
        }
    }

    /// Attempts to pop the oldest value.
    ///
    /// An empty queue answers `Closed` if it is closed and `Empty` if it is
    /// not. Otherwise the dequeue position moves on, the value leaves the slot
    /// of the old position, and the slot's stamp moves one lap ahead, less
    /// one: to the position at which the slot is used next.
    pub fn pop(&mut self) -> (result: Result<T, PopError>)
        requires
            old(self).wf(),
        ensures
            final(self).wf(),
            final(self).capacity() == old(self).capacity(),
            final(self).closed_mask() == old(self).closed_mask(),
            final(self).right_mask() == old(self).right_mask(),
            final(self).closed() == old(self).closed(),
            result == pop_result(old(self)@, old(self).closed()),
            final(self)@ == pop_items(old(self)@),
            final(self).model() == old(self).model().step(Op::Pop),
            final(self).enqueue_position() == old(self).enqueue_position(),
            final(self).dequeue_position() == if result is Ok {
                next_pos(old(self).dequeue_position(), old(self).capacity() as int, old(self).closed_mask())
            } else {
                old(self).dequeue_position()
            },
            forall|i: int|
                0 <= i < old(self).capacity() ==> #[trigger] final(self).stamp(i) == if result is Ok
                    && i == old(self).index_of(old(self).dequeue_position()) {
                    wrapping_add(old(self).stamp(i), old(self).right_mask())
                } else {
                    old(self).stamp(i)
                },
    {
        proof {
            self.lemma_words();
        }
        let dequeue_pos = padded_get(&self.dequeue_pos);
        let idx = dequeue_pos & self.right_mask;
        proof {
            let m = self.closed_channel_mask;
            assert(self.slot_ok(idx as int));
            lemma_set_flag(dequeue_pos, m);
            lemma_compose(self.base(), (idx + 1) as usize, m);
            lemma_compose(next_lap(self.base(), self.right_mask), idx, m);
            lemma_compose(next_lap(self.base(), self.right_mask), 0, m);
            lemma_next_lap(next_lap(self.base(), self.right_mask), m);
        }
        let stamp = self.buffer[idx].stamp;
        if dequeue_pos != stamp {
            let next = self.next_queue_pos(dequeue_pos);
            padded_set(&mut self.dequeue_pos, next);
            let empty = |v: &mut Option<T>| -> (taken: Option<T>)
                ensures
                    taken == *old(v),
                    *final(v) == None::<T>,
                { v.take() };
            let value = self.buffer[idx].value.with_mut(empty);
            self.buffer[idx].stamp = stamp.wrapping_add(self.right_mask);
            proof {
                let d = old(self).head();
                let cap = old(self).buffer@.len() as int;
                let b = old(self).base();
                let b2 = next_lap(b, self.right_mask);
                assert(self.head() == if d + 1 < cap { d + 1 } else { 0 });
                assert(self.base() == if d + 1 < cap { b } else { b2 });
                assert(self.buffer@[d].stamp == b2 + d);
                assert(old(self).slot_ok(self.head()));
                assert(self.tail() == old(self).tail());
                assert(self.count() == old(self).count() - 1);
                assert forall|i: int| 0 <= i < self.buffer@.len() implies #[trigger] self.slot_ok(
                    i,
                ) by {
                    assert(old(self).slot_ok(i));
                }
                assert(self@ =~= old(self)@.drop_first());
            }
            Ok(value.unwrap())
        } else {
            if padded_get(&self.enqueue_pos) == (dequeue_pos | self.closed_channel_mask) {
                Err(PopError::Closed)
            } else {
                Err(PopError::Empty)
            }
        }
    }

    /// How positions and stamps tell what the queue holds.
    ///
    /// The flag of the dequeue position is never set, and that of the enqueue
    /// position is set exactly when the queue is closed. The slot of the
    /// dequeue position has the stamp of that position when the queue is
    /// empty, and the stamp one above it when the oldest value is there. The
    /// slot of the enqueue position of an open queue has the stamp of that
    /// position exactly when there is room.
    pub proof fn law_stamps(&self)
        requires
            self.wf(),
        ensures
            is_power_of_two(self.closed_mask()),
            self.capacity() <= self.closed_mask(),
            self.right_mask() == right_mask_of(self.closed_mask()),
            !flagged(self.dequeue_position(), self.closed_mask()),
            self.closed() == flagged(self.enqueue_position(), self.closed_mask()),
            0 <= self.index_of(self.dequeue_position()) < self.capacity(),
            self.stamp(self.index_of(self.dequeue_position())) == if self@.len() == 0 {
                self.dequeue_position() as int
            } else {
                self.dequeue_position() + 1
            },
            !self.closed() ==> 0 <= self.index_of(self.enqueue_position()) < self.capacity(),
            !self.closed() ==> (self.stamp(self.index_of(self.enqueue_position()))
                == self.enqueue_position() <==> self@.len() < self.capacity()),
            self@.len() == 0 ==> self.enqueue_position() == if self.closed() {
                self.dequeue_position() | self.closed_mask()
            } else {
                self.dequeue_position()
            },
    {
        self.lemma_words();
        let m = self.closed_channel_mask;
        let enqueue_pos = padded_word(self.enqueue_pos);
        let idx = low_of(enqueue_pos, self.right_mask) as int;
        assert(self.slot_ok(self.head()));
        lemma_set_flag(padded_word(self.dequeue_pos), m);
        lemma_compose(self.base(), (self.head() + 1) as usize, m);
        lemma_compose(self.base(), (self.head() + m) as usize, m);
        lemma_compose(next_lap(self.base(), self.right_mask), self.head() as usize, m);
        if !self.closed() {
            assert(self.slot_ok(idx));
        }
    }

    /// A queue never holds more values than it has slots.
    pub proof fn lemma_len_bound(&self)
        requires
            self.wf(),
        ensures
            self@.len() <= self.capacity(),
            1 <= self.capacity() <= usize::MAX / 2 + 1,
    {
        self.lemma_words();
        lemma_mask(self.closed_channel_mask);
    }

    /// Pops until the queue is empty and hands each value that was left to its
    /// destructor.
    pub fn clear(&mut self)
        requires
            old(self).wf(),
        ensures
            final(self).wf(),
            final(self)@ == Seq::<T>::empty(),
            final(self).capacity() == old(self).capacity(),
            final(self).closed_mask() == old(self).closed_mask(),
            final(self).right_mask() == old(self).right_mask(),
            final(self).closed() == old(self).closed(),
    {
        loop
            invariant
                self.wf(),
                self.capacity() == old(self).capacity(),
                self.closed_mask() == old(self).closed_mask(),
                self.right_mask() == old(self).right_mask(),
                self.closed() == old(self).closed(),
            ensures
                self@.len() == 0,
            decreases self@.len(),
        {
            let popped = self.pop();
            if popped.is_err() {
                break ;
            }
        }
        assert(self@ =~= Seq::<T>::empty());
    }

    /// Whether the queue has been closed.
    pub fn is_closed(&self) -> (closed: bool)
        ensures
            closed == self.closed(),
    {
        padded_get(&self.enqueue_pos) & self.closed_channel_mask != 0
    }

    /// Closes the queue: no push succeeds from now on. The values in the queue
    /// stay, and can still be popped.
    pub fn close(&mut self)
        requires
            old(self).wf(),
        ensures
            final(self).wf(),
            final(self).closed(),
            final(self)@ == old(self)@,
            final(self).capacity() == old(self).capacity(),
            final(self).closed_mask() == old(self).closed_mask(),
            final(self).right_mask() == old(self).right_mask(),
            final(self).model() == old(self).model().step(Op::Close),
            final(self).enqueue_position() == old(self).enqueue_position() | old(self).closed_mask(),
            final(self).dequeue_position() == old(self).dequeue_position(),
            forall|i: int| 0 <= i < old(self).capacity() ==> final(self).stamp(i) == old(self).stamp(i),
    {
        proof {
            self.lemma_words();
        }
        let enqueue_pos = padded_get(&self.enqueue_pos);
        proof {
            let m = self.closed_channel_mask;
            lemma_set_flag(enqueue_pos, m);
            if !flagged(enqueue_pos, m) {
                lemma_compose(
                    lap_of(enqueue_pos, self.right_mask),
                    (low_of(enqueue_pos, self.right_mask) + m) as usize,
                    m,
                );
                lemma_flag((enqueue_pos + m) as usize, m);
            }
        }
        padded_set(&mut self.enqueue_pos, enqueue_pos | self.closed_channel_mask);
        proof {
            assert forall|i: int| 0 <= i < self.buffer@.len() implies #[trigger] self.slot_ok(i) by {
                assert(old(self).slot_ok(i));
            }
            assert(self@ =~= old(self)@);
        }
    }

    /// The position that follows `queue_pos`, whose flag must be clear: the
    /// next index, or index 0 of the next lap when the index would reach the
    /// capacity.
    pub fn next_queue_pos(&self, queue_pos: usize) -> (next: usize)
        requires
            self.wf(),
            !flagged(queue_pos, self.closed_mask()),
        ensures
            next == next_pos(queue_pos, self.capacity() as int, self.closed_mask()),
    {
        proof {
            let m = self.closed_channel_mask;
            lemma_mask(m);
            lemma_split(queue_pos, m);
            lemma_flag(queue_pos, m);
            lemma_compose(lap_of(queue_pos, self.right_mask), (low_of(queue_pos, self.right_mask) + 1) as usize, m);
        }
        let new_queue_pos = queue_pos + 1;
        let new_index = new_queue_pos & self.right_mask;
        if new_index < self.buffer.len() {
            new_queue_pos
        } else {
            let sequence_increment = self.right_mask.wrapping_add(1);
            let sequence_count = queue_pos & !self.right_mask;
            sequence_count.wrapping_add(sequence_increment)
        }
    }
}

} // verus!
