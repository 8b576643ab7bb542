//! The part of a channel's state that senders and receivers observe.

use vstd::prelude::*;

use crate::error::{Closed, TrySendError};

verus! {

/// What is queued in a channel, how much fits, and whether it is closed.
#[verifier::ext_equal]
pub struct Pipe<T> {
    /// The queued items, oldest first.
    pub items: Seq<T>,
    /// How many items fit.
    pub capacity: nat,
    /// Whether the channel is closed.
    pub closed: bool,
}

impl<T> Pipe<T> {
    /// An open channel with nothing in it.
    pub open spec fn fresh(capacity: nat) -> Self {
        Pipe { items: Seq::empty(), capacity, closed: false }
    }

    /// Something fits, and no more is queued than fits.
    pub open spec fn valid(self) -> bool {
        0 < self.capacity && self.items.len() <= self.capacity
    }

    /// Nothing more fits.
    pub open spec fn is_full(self) -> bool {
        self.items.len() >= self.capacity
    }

    /// An item can be sent now.
    pub open spec fn accepts(self) -> bool {
        !self.closed && !self.is_full()
    }

    /// A receiver has to wait.
    pub open spec fn is_idle(self) -> bool {
        !self.closed && self.items.len() == 0
    }

    /// What an attempt to send `item` returns.
    pub open spec fn send_result(self, item: T) -> Result<(), TrySendError<T>> {
        if self.closed {
            Err(TrySendError::Closed(item))
        } else if self.is_full() {
            Err(TrySendError::Full(item))
        } else {
            Ok(())
        }
    }

    /// After an attempt to send `item`.
    pub open spec fn after_send(self, item: T) -> Self {
        if self.accepts() {
            Pipe { items: self.items.push(item), ..self }
        } else {
            self
        }
    }

    /// What an attempt to receive returns.
    pub open spec fn recv_result(self) -> Result<Option<T>, Closed> {
        if self.items.len() > 0 {
            Ok(Some(self.items.first()))
        } else if self.closed {
            Err(Closed)
        } else {
            Ok(None)
        }
    }

    /// After an attempt to receive.
    pub open spec fn after_recv(self) -> Self {
        if self.items.len() > 0 {
            Pipe { items: self.items.drop_first(), ..self }
        } else {
            self
        }
    }

    /// After closing. What is queued can still be received.
    pub open spec fn after_close(self) -> Self {
        Pipe { closed: true, ..self }
    }
}

/// Something that happens to a channel.
pub enum Step<T> {
    /// An attempt to send an item.
    Send(T),
    /// An attempt to receive an item.
    Recv,
    /// The channel is closed.
    Close,
}

impl<T> Pipe<T> {
    /// After one step.
    pub open spec fn after(self, step: Step<T>) -> Self {
        match step {
            Step::Send(item) => self.after_send(item),
            Step::Recv => self.after_recv(),
            Step::Close => self.after_close(),
        }
    }

    /// After a run of steps.
    pub open spec fn after_all(self, steps: Seq<Step<T>>) -> Self
        decreases steps.len(),
    {
        if steps.len() == 0 {
            self
        } else {
            self.after_all(steps.drop_last()).after(steps.last())
        }
    }

    /// The items that a run of steps sent, in the order of sending.
    pub open spec fn accepted(self, steps: Seq<Step<T>>) -> Seq<T>
        decreases steps.len(),
    {
        if steps.len() == 0 {
            Seq::empty()
        } else {
            let before = self.after_all(steps.drop_last());
            match steps.last() {
                Step::Send(item) if before.send_result(item) is Ok => self.accepted(
                    steps.drop_last(),
                ).push(item),
                _ => self.accepted(steps.drop_last()),
            }
        }
    }

    /// The items that a run of steps received, in the order of receiving.
    pub open spec fn received(self, steps: Seq<Step<T>>) -> Seq<T>
        decreases steps.len(),
    {
        if steps.len() == 0 {
            Seq::empty()
        } else {
            let before = self.after_all(steps.drop_last());
            match (steps.last(), before.recv_result()) {
                (Step::Recv, Ok(Some(item))) => self.received(steps.drop_last()).push(item),
                _ => self.received(steps.drop_last()),
            }
        }
    }
}

/// Items come out in the order in which they went in, each exactly once: at any
/// time, what was queued at first and what was sent since are together what was
/// received since and what is queued now.
pub proof fn law_first_in_first_out<T>(start: Pipe<T>, steps: Seq<Step<T>>)
    ensures
        start.items + start.accepted(steps) == start.received(steps) + start.after_all(steps).items,
    decreases steps.len(),
{
    if steps.len() == 0 {
        assert(start.items + start.accepted(steps) =~= start.received(steps) + start.after_all(
            steps,
        ).items);
    } else {
        let earlier = steps.drop_last();
        law_first_in_first_out(start, earlier);
        let before = start.after_all(earlier);
        assert(start.after_all(steps) == before.after(steps.last()));
        if steps.last() is Send {
            let item = steps.last()->Send_0;
            if before.accepts() {
                assert(start.items + start.accepted(steps) =~= (start.items + start.accepted(
                    earlier,
                )).push(item));
                assert(start.received(steps) + start.after_all(steps).items =~= (start.received(
                    earlier,
                ) + before.items).push(item));
            }
        } else if steps.last() is Recv {
            if before.items.len() > 0 {
                assert(start.received(steps) + start.after_all(steps).items =~= start.received(
                    earlier,
                ) + before.items);
            }
        }
    }
}

/// A channel never holds more than its capacity, and its capacity stays.
pub proof fn law_capacity_is_kept<T>(start: Pipe<T>, steps: Seq<Step<T>>)
    requires
        start.valid(),
    ensures
        start.after_all(steps).valid(),
        start.after_all(steps).capacity == start.capacity,
    decreases steps.len(),
{
    if steps.len() > 0 {
        law_capacity_is_kept(start, steps.drop_last());
    }
}

/// A closed channel stays closed and accepts nothing.
pub proof fn law_closed_for_good<T>(start: Pipe<T>, steps: Seq<Step<T>>)
    requires
        start.closed,
    ensures
        start.after_all(steps).closed,
        start.accepted(steps) == Seq::<T>::empty(),
    decreases steps.len(),
{
    if steps.len() > 0 {
        law_closed_for_good(start, steps.drop_last());
    }
}

/// Closing twice is the same as closing once.
pub proof fn law_close_is_idempotent<T>(pipe: Pipe<T>)
    ensures
        pipe.after_close().after_close() == pipe.after_close(),
{
}

/// An item that is not accepted is handed back, and nothing changes.
pub proof fn law_rejected_item_is_returned<T>(pipe: Pipe<T>, item: T)
    ensures
        pipe.send_result(item) matches Err(error) ==> error.item() == item && pipe.after_send(item)
            == pipe,
{
}

/// As many attempts to receive as `count` says.
pub open spec fn recvs<T>(count: nat) -> Seq<Step<T>> {
    Seq::new(count, |i: int| Step::Recv)
}

/// After closing, everything that is queued can be received, in order, and then
/// every further attempt to receive is answered with `Closed`.
pub proof fn law_closed_channel_drains<T>(pipe: Pipe<T>, count: nat)
    ensures
        count <= pipe.items.len() ==> {
            &&& pipe.after_close().received(recvs(count)) == pipe.items.take(count as int)
            &&& pipe.after_close().after_all(recvs(count)) == (Pipe {
                items: pipe.items.skip(count as int),
                closed: true,
                ..pipe
            })
        },
        count >= pipe.items.len() ==> {
            &&& pipe.after_close().received(recvs(count)) == pipe.items
            &&& pipe.after_close().after_all(recvs(count)).recv_result() == Err::<
                Option<T>,
                Closed,
            >(Closed)
        },
    decreases count,
{
    let closed = pipe.after_close();
    if count == 0 {
        assert(pipe.items.take(0) =~= Seq::empty());
        assert(pipe.items.skip(0) =~= pipe.items);
        if pipe.items.len() == 0 {
            assert(pipe.items =~= Seq::empty());
        }
    } else {
        let fewer = (count - 1) as nat;
        law_closed_channel_drains(pipe, fewer);
        assert(recvs::<T>(count).drop_last() =~= recvs(fewer));
        let before = closed.after_all(recvs(fewer));
        assert(closed.after_all(recvs(count)) == before.after_recv());
        if count <= pipe.items.len() {
            assert(before.items == pipe.items.skip(fewer as int));
            assert(pipe.items.take(fewer as int).push(before.items.first()) =~= pipe.items.take(
                count as int,
            ));
            assert(before.items.drop_first() =~= pipe.items.skip(count as int));
        }
        if count == pipe.items.len() {
            assert(pipe.items.take(count as int) =~= pipe.items);
            assert(pipe.items.skip(count as int).len() == 0);
        }
        if count > pipe.items.len() {
            assert(before.items.len() == 0);
        }
    }
}

/// An attempt to send is answered by what the channel is: `Closed` exactly while
/// it is closed, however much is queued; `Full` exactly while it is open and
/// holds as many items as fit; success exactly while it is open and one more
/// fits. A refusal hands the item back.
pub proof fn law_send_is_answered_exactly<T>(pipe: Pipe<T>, item: T)
    ensures
        pipe.send_result(item) == Err::<(), TrySendError<T>>(TrySendError::Closed(item))
            <==> pipe.closed,
        pipe.send_result(item) == Err::<(), TrySendError<T>>(TrySendError::Full(item))
            <==> !pipe.closed && pipe.items.len() >= pipe.capacity,
        pipe.send_result(item) == Ok::<(), TrySendError<T>>(()) <==> !pipe.closed
            && pipe.items.len() < pipe.capacity,
{
}

/// An item that was accepted is the last one in the queue, behind all that were
/// there, and a refused one is not there; nothing else changes.
pub proof fn law_accepted_item_is_queued_last<T>(pipe: Pipe<T>, item: T)
    ensures
        pipe.send_result(item) is Ok ==> {
            &&& pipe.after_send(item).items.len() == pipe.items.len() + 1
            &&& pipe.after_send(item).items.last() == item
            &&& pipe.after_send(item).items.drop_last() == pipe.items
        },
        pipe.send_result(item) is Err ==> pipe.after_send(item).items == pipe.items,
        pipe.after_send(item).capacity == pipe.capacity,
        pipe.after_send(item).closed == pipe.closed,
{
    assert(pipe.items.push(item).drop_last() =~= pipe.items);
}

/// A receive takes the oldest item, closed or not, while there is one. Without
/// one it says that the channel is closed exactly if it is. Nothing else
/// changes.
pub proof fn law_receive_is_answered_exactly<T>(pipe: Pipe<T>)
    ensures
        pipe.recv_result() matches Ok(Some(item)) ==> pipe.items == seq![item]
            + pipe.after_recv().items,
        pipe.recv_result() == Ok::<Option<T>, Closed>(None) <==> pipe.items.len() == 0
            && !pipe.closed,
        pipe.recv_result() == Err::<Option<T>, Closed>(Closed) <==> pipe.items.len() == 0
            && pipe.closed,
        pipe.items.len() == 0 ==> pipe.after_recv().items == pipe.items,
        pipe.after_recv().capacity == pipe.capacity,
        pipe.after_recv().closed == pipe.closed,
{
    if pipe.items.len() > 0 {
        assert(pipe.items =~= seq![pipe.items.first()] + pipe.items.drop_first());
    }
}

/// Closing closes, and what is queued stays as it is.
pub proof fn law_closing_keeps_what_is_queued<T>(pipe: Pipe<T>)
    ensures
        pipe.after_close().closed,
        pipe.after_close().items == pipe.items,
        pipe.after_close().capacity == pipe.capacity,
{
}

/// A new channel is open and empty. A channel is full when it holds as many
/// items as fit, accepts an item when it is open and not full, and makes a
/// receiver wait when it is open and empty.
pub proof fn law_room_is_counted<T>(pipe: Pipe<T>, capacity: nat)
    ensures
        Pipe::<T>::fresh(capacity).items.len() == 0,
        Pipe::<T>::fresh(capacity).capacity == capacity,
        !Pipe::<T>::fresh(capacity).closed,
        pipe.is_full() <==> pipe.items.len() >= pipe.capacity,
        pipe.accepts() <==> !pipe.closed && pipe.items.len() < pipe.capacity,
        pipe.is_idle() <==> !pipe.closed && pipe.items.len() == 0,
        pipe.valid() <==> 0 < pipe.capacity && pipe.items.len() <= pipe.capacity,
{
}

} // verus!
