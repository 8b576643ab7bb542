//! A first-in, first-out queue with a fixed capacity.

use std::collections::VecDeque;

use vstd::prelude::*;

use super::RecvEffect;

verus! {

/// A first-in, first-out queue with a fixed capacity.
pub struct BoundedQueue<T> {
    buffer: VecDeque<T>,
    capacity: usize,
}

impl<T> BoundedQueue<T> {
    /// The queued items, oldest first.
    pub closed spec fn items(&self) -> Seq<T> {
        self.buffer@
    }

    /// How many items fit.
    pub closed spec fn capacity(&self) -> nat {
        self.capacity as nat
    }

    /// No more items are queued than fit, and at least one fits.
    pub open spec fn wf(&self) -> bool {
        &&& self.capacity() > 0
        &&& self.items().len() <= self.capacity()
    }

    /// An empty queue for `capacity` items.
    pub fn new(capacity: usize) -> (queue: Self)
        requires
            capacity > 0,
        ensures
            queue.wf(),
            queue.capacity() == capacity,
            queue.items() == Seq::<T>::empty(),
    {
        BoundedQueue { buffer: VecDeque::with_capacity(capacity), capacity }
    }

    /// Whether there is no room for another item.
    pub fn is_full(&self) -> (full: bool)
        ensures
            full == (self.items().len() >= self.capacity()),
    {
        self.buffer.len() >= self.capacity
    }

    /// Whether nothing is queued.
    pub fn is_empty(&self) -> (empty: bool)
        ensures
            empty == (self.items().len() == 0),
    {
        self.buffer.len() == 0
    }

    /// How many items are queued.
    pub fn len(&self) -> (len: usize)
        ensures
            len == self.items().len(),
    {
        self.buffer.len()
    }

    /// Queues the item, or hands it back when there is no room.
    pub fn try_send(&mut self, item: T) -> (result: Result<(), T>)
        requires
            old(self).wf(),
        ensures
            final(self).wf(),
            final(self).capacity() == old(self).capacity(),
            old(self).items().len() < old(self).capacity() ==> {
                &&& result == Ok::<(), T>(())
                &&& final(self).items() == old(self).items().push(item)
            },
            old(self).items().len() >= old(self).capacity() ==> {
                &&& result == Err::<(), T>(item)
                &&& final(self).items() == old(self).items()
            },
    {
        if self.is_full() {
            return Err(item);
        }
        self.buffer.push_back(item);
        Ok(())
    }

    /// Takes the oldest item, and says whether that made room in a full queue.
    pub fn try_recv(&mut self) -> (result: Option<(T, RecvEffect)>)
        requires
            old(self).wf(),
        ensures
            final(self).wf(),
            final(self).capacity() == old(self).capacity(),
            old(self).items().len() == 0 ==> {
                &&& result is None
                &&& final(self).items() == old(self).items()
            },
            old(self).items().len() > 0 ==> {
                &&& result == Some(
                    (
                        old(self).items().first(),
                        if old(self).items().len() == old(self).capacity() {
                            RecvEffect::Unblocked
                        } else {
                            RecvEffect::NoChange
                        },
                    ),
                )
                &&& final(self).items() == old(self).items().drop_first()
            },
    {
        let was_full = self.is_full();
        match self.buffer.pop_front() {
            Some(item) => {
                assert(self.items() =~= old(self).items().drop_first());
                let effect = if was_full {
                    RecvEffect::Unblocked
                } else {
                    RecvEffect::NoChange
                };
                Some((item, effect))
            },
            None => None,
        }
    }

    /// Gives unused memory back. What is queued stays.
    pub fn shrink_to_fit(&mut self)
        requires
            old(self).wf(),
        ensures
            final(self).wf(),
            final(self).capacity() == old(self).capacity(),
            final(self).items() == old(self).items(),
    {
        super::shrink_deque(&mut self.buffer);
    }
}

} // verus!
