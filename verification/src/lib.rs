//! Single-threaded async primitives, verified.
//!
//! # Primitives and handles
//!
//! A primitive ([`SpscChannel`](channel::SpscChannel),
//! [`SpmcBroadcast`](broadcast::SpmcBroadcast),
//! [`MpscLatchedSignal`](signal::MpscLatchedSignal) and so on) is a plain value
//! that both sides change through a mutable borrow. Who owns it decides how it
//! is shared.
//!
//! A handle (a producer, a consumer, a source) is the right to one side of a
//! primitive. Some primitives count their handles in a `Shared` value and close
//! when the last one on a side is released.
//!
//! # Waiting
//!
//! A waiting operation is a value of its own, with a `poll` that is given the
//! primitive and the waker of the polling task, and a `release` that ends the
//! wait. A primitive never wakes a task by itself. It keeps a list of the
//! wakers that are due, in the order in which they became due, and hands that
//! list out with `take_wakes`.
//!
//! # What is proved
//!
//! Every primitive has a state, and every operation states its result and the
//! next state as functions of the state before it. The proof functions whose
//! names begin with `law_` state what follows for runs of operations: what is
//! sent is received once and in order, who waits has to and is woken in time, no
//! waker is lost, the last handle that is given up closes, what is closed stays
//! closed and can be drained.

pub mod broadcast;
pub mod channel;
pub mod error;
pub mod handles;
pub mod queue;
pub mod signal;
mod slots;
pub mod wake;
pub mod watch;

// `broadcast` is a word of Verus. Verified code names the modules under it by
// these paths.
pub use broadcast::{delivery, spmc, waking};
