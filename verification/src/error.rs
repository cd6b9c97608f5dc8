//! The errors of the channel's operations.

use crate::queue::PopError;
use crate::queue::PushError;
use vstd::prelude::*;

verus! {

/// Why a message could not be sent at once. The message comes back with the
/// error.
#[derive(Clone, Copy, Debug, PartialEq, Eq)]
pub enum TrySendError<T> {
    /// The queue is full.
    Full(T),
    /// The channel is closed.
    Closed(T),
}

/// Why no message could be received at once.
#[derive(Clone, Copy, Debug, PartialEq, Eq, Structural)]
pub enum TryRecvError {
    /// The queue is empty.
    Empty,
    /// The queue is empty and the channel is closed.
    Closed,
}

/// A message could not be sent because the channel is closed. The message
/// comes back with the error.
#[derive(Clone, Copy, Debug, PartialEq, Eq)]
pub struct SendError<T>(pub T);

/// No message will be received any more: the queue is empty and the channel is
/// closed.
#[derive(Clone, Copy, Debug, PartialEq, Eq, Structural)]
pub struct RecvError;

impl<T> TrySendError<T> {
    /// The error of a send for the error of the push that it made.
    pub open spec fn of(error: PushError<T>) -> TrySendError<T> {
        match error {
            PushError::Full(message) => TrySendError::Full(message),
            PushError::Closed(message) => TrySendError::Closed(message),
        }
    }

    /// Turns the error of a push into the error of the send that made it.
    pub fn from_push(error: PushError<T>) -> (mapped: TrySendError<T>)
        ensures
            mapped == TrySendError::of(error),
    {
        match error {
            PushError::Full(message) => TrySendError::Full(message),
            PushError::Closed(message) => TrySendError::Closed(message),
        }
    }

    /// The error in words.
    pub fn to_string(&self) -> (text: String)
        ensures
            text@ == match *self {
                TrySendError::Full(_) => "Full(..)"@,
                TrySendError::Closed(_) => "Closed(..)"@,
            },
    {
        match self {
            TrySendError::Full(_) => "Full(..)".to_owned(),
            TrySendError::Closed(_) => "Closed(..)".to_owned(),
        }
    }
}

impl TryRecvError {
    /// The error of a receive for the error of the pop that it made.
    pub open spec fn of(error: PopError) -> TryRecvError {
        match error {
            PopError::Empty => TryRecvError::Empty,
            PopError::Closed => TryRecvError::Closed,
        }
    }

    /// Turns the error of a pop into the error of the receive that made it.
    pub fn from_pop(error: PopError) -> (mapped: TryRecvError)
        ensures
            mapped == TryRecvError::of(error),
    {
        match error {
            PopError::Empty => TryRecvError::Empty,
            PopError::Closed => TryRecvError::Closed,
        }
    }

    /// The error in words.
    pub fn to_string(&self) -> (text: String)
        ensures
            text@ == match *self {
                TryRecvError::Empty => "receiving from an empty channel"@,
                TryRecvError::Closed => "receiving from a closed channel"@,
            },
    {
        match self {
            TryRecvError::Empty => "receiving from an empty channel".to_owned(),
            TryRecvError::Closed => "receiving from a closed channel".to_owned(),
        }
    }
}

impl<T> SendError<T> {
    /// The error in words.
    pub fn to_string(&self) -> (text: String)
        ensures
            text@ == "sending into a closed channel"@,
    {
        "sending into a closed channel".to_owned()
    }
}

impl RecvError {
    /// The error in words.
    pub fn to_string(&self) -> (text: String)
        ensures
            text@ == "receiving from a closed channel"@,
    {
        "receiving from a closed channel".to_owned()
    }
}

} // verus!
