//! Errors that the primitives return.

use vstd::prelude::*;

verus! {

/// The primitive is closed.
#[derive(Debug, Clone, Copy, PartialEq, Eq, Structural)]
pub struct Closed;

/// Why an item was not accepted. The item is handed back.
#[derive(Debug, Clone, Copy, PartialEq, Eq)]
pub enum TrySendError<T> {
    /// There is no room at the moment.
    Full(T),
    /// The primitive is closed and will never accept an item again.
    Closed(T),
}

/// Why a visitor was not run.
#[derive(Debug)]
pub enum TryRecvRefError<F> {
    /// There is no item at the moment. The visitor is handed back.
    Empty(F),
    /// The primitive is closed and every item has been received.
    Closed,
}

impl Closed {
    /// What the error says to a human reader.
    pub fn message(&self) -> (text: &'static str)
        ensures
            text@ == "closed"@,
    {
        "closed"
    }
}

impl<T> TrySendError<T> {
    /// The item that was not accepted.
    pub open spec fn item(self) -> T {
        match self {
            TrySendError::Full(item) => item,
            TrySendError::Closed(item) => item,
        }
    }

    /// Takes the rejected item back.
    pub fn into_inner(self) -> (item: T)
        ensures
            item == self.item(),
    {
        match self {
            TrySendError::Full(item) => item,
            TrySendError::Closed(item) => item,
        }
    }

    /// What the error says to a human reader.
    pub fn message(&self) -> (text: &'static str)
        ensures
            self is Full ==> text@ == "full"@,
            self is Closed ==> text@ == "closed"@,
    {
        match self {
            TrySendError::Full(_) => "full",
            TrySendError::Closed(_) => "closed",
        }
    }
}

/// What an error hands back is the item that was refused, whichever the reason.
pub proof fn law_refused_item_comes_back<T>(item: T)
    ensures
        TrySendError::Full(item).item() == item,
        TrySendError::Closed(item).item() == item,
{
}

} // verus!
