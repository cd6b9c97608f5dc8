//! A bounded multi-producer, single-consumer channel.
//!
//! - `layout`: the layout that position words and stamps share, and the
//!   arithmetic of the masks.
//! - `cell`, `padded`: how a slot holds its value and the queue its positions.
//! - `queue`: the ring of stamped slots.
//! - `model`: the queue as a sequence of steps, and the laws of every such
//!   sequence.
//! - `state`: the steps that the operations of a channel make on the queue
//!   and on the count of senders, and whom each step wakes.
//! - `signal`: the wake-up primitives.
//! - `channel`: the handles that share the state and wake each other.
//! - `error`: the errors of the operations.
//!
//! The channel is closed by any handle, when the receiver is given up, and
//! when the last sender is given up. A closed channel takes no message; the
//! messages in it can still be received, and only then does the receiver
//! learn that the channel is closed.

pub mod cell;
pub mod channel;
pub mod error;
pub mod layout;
pub mod model;
pub mod padded;
pub mod queue;
pub mod signal;
pub mod state;

pub use channel::channel;
pub use channel::Receiver;
pub use channel::Sender;
pub use error::RecvError;
pub use error::SendError;
pub use error::TryRecvError;
pub use error::TrySendError;
pub use state::Poll;
