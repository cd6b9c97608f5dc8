//! The wake-up primitives of a channel.
//!
//! The receiver parks its task in a `WakeSink` and is woken through the
//! matching `WakeSource`; blocked senders wait on an `Event`. Nothing is
//! assumed of what these calls do: they move no message and change no queue.
//!
//! The channel asks of the senders' event that any number of tasks can wait
//! on it, that `notify(n)` wakes up to `n` of them, and that a wait which is
//! given up hands a wake-up it was owed on to another waiter. The crate
//! `async_event` provides such an event, so the channel brings none of its
//! own.

use async_event::Event;
use diatomic_waker::WakeSink;
use diatomic_waker::WakeSource;
use std::task::Waker;
use vstd::prelude::*;

verus! {

/// `diatomic_waker::WakeSink`: the place where the one receiver parks its
/// waker.
#[verifier::external_type_specification]
#[verifier::external_body]
pub struct ExWakeSink(WakeSink);

/// `diatomic_waker::WakeSource`: the means to wake what is parked in a sink.
#[verifier::external_type_specification]
#[verifier::external_body]
pub struct ExWakeSource(WakeSource);

/// `async_event::Event`: the set of the tasks that wait for room in the
/// queue.
#[verifier::external_type_specification]
#[verifier::external_body]
pub struct ExEvent(Event);

/// `std::task::Waker`: the handle by which a task is woken.
#[verifier::external_type_specification]
#[verifier::external_body]
pub struct ExWaker(Waker);

/// `WakeSink::new` makes a sink with no waker registered. Nothing is claimed
/// of the sink.
pub assume_specification[ WakeSink::new ]() -> WakeSink;

/// `WakeSink::source` makes a source that notifies this sink. Nothing is
/// claimed of the source.
pub assume_specification[ WakeSink::source ](sink: &WakeSink) -> WakeSource;

/// `WakeSink::register` stores the waker that the next notification wakes.
/// Nothing is claimed of the sink after the call.
pub assume_specification[ WakeSink::register ](sink: &mut WakeSink, waker: &Waker);

/// `WakeSink::unregister` forgets the stored waker. Nothing is claimed of
/// the sink after the call.
pub assume_specification[ WakeSink::unregister ](sink: &mut WakeSink);

/// `WakeSource::notify` wakes the waker registered in the sink, if there is
/// one. Nothing is claimed of its effect.
pub assume_specification[ WakeSource::notify ](source: &WakeSource);

/// `Event::new` makes an event with no waiter. Nothing is claimed of the
/// event.
pub assume_specification[ Event::new ]() -> Event;

/// `Event::notify` wakes up to `n` waiters of the event. Nothing is claimed
/// of its effect.
pub assume_specification[ Event::notify ](event: &Event, n: usize);

} // verus!
