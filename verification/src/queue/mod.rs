//! The queues that the channels are built on.

use std::collections::VecDeque;

use vstd::prelude::*;

pub mod bounded_queue;
pub mod broadcast_queue;

verus! {

/// What a receive did to a producer that waits for room.
#[derive(Debug, Clone, Copy, PartialEq, Eq, Structural)]
pub enum RecvEffect {
    /// The queue was full and now has room.
    Unblocked,
    /// The queue had room before, or is still full.
    NoChange,
}

/// `VecDeque::shrink_to_fit`: gives unused memory back and keeps the items in
/// their order.
#[verifier::external_body]
pub(crate) fn shrink_deque<T>(deque: &mut VecDeque<T>)
    ensures
        final(deque)@ == old(deque)@,
{
    deque.shrink_to_fit()
}

} // verus!
