//! What a broadcast channel promises to those who wait.

use std::task::{Poll, Waker};

use vstd::prelude::*;

use super::delivery::{law_no_consumer_lags_beyond_capacity, Step};
use super::spmc::{lemma_same_fullness, slots_of, SpmcState};
use crate::error::{Closed, TrySendError};
use crate::queue::broadcast_queue::{law_slowest_consumer_takes_the_room, Ticket};
use crate::wake::{
    holders, in_slot, lemma_by_key_counts, lemma_by_key_holds, lemma_due, lemma_times, times,
    wakers_by_key,
};

verus! {

/// Where one can wait: in the slot of the producer or in that of a consumer.
pub enum Place {
    Producer,
    Consumer(Ticket),
}

impl<T> SpmcState<T> {
    /// The waker in a slot. A consumer that was removed has none.
    pub open spec fn waiting_at(self, place: Place) -> Option<Waker> {
        match place {
            Place::Producer => self.producer_waker,
            Place::Consumer(key) => if self.has(key) {
                self.slot(key)
            } else {
                None
            },
        }
    }

    /// The step takes the waker out of the slot that it waits in without making
    /// it due: the wait ends there, another waker takes the slot, or the
    /// consumer is removed.
    pub open spec fn gives_up(self, step: Step<T>, place: Place, waker: Waker) -> bool {
        self.waiting_at(place) == Some(waker) && match (place, step) {
            (Place::Producer, Step::EndSend) => true,
            (Place::Producer, Step::PollSend(_, other)) => other != waker,
            (Place::Producer, Step::PollReady(other)) => other != waker,
            (Place::Consumer(key), Step::EndRecv(k)) => k == key,
            (Place::Consumer(key), Step::PollRecv(k, other)) => k == key && other != waker,
            (Place::Consumer(key), Step::Unsubscribe(k)) => k == key,
            _ => false,
        }
    }

    /// No step of the run takes the waker out of its slot without making it due.
    pub open spec fn keeps_waiting(
        self,
        steps: Seq<Step<T>>,
        place: Place,
        waker: Waker,
    ) -> bool
        decreases steps.len(),
    {
        steps.len() > 0 ==> {
            &&& self.keeps_waiting(steps.drop_last(), place, waker)
            &&& !self.after_all(steps.drop_last()).gives_up(steps.last(), place, waker)
        }
    }
}

/// Who waits has to: a waiting consumer would receive nothing, and a waiting
/// producer would be refused.
pub proof fn law_only_the_blocked_wait<T>(state: SpmcState<T>, key: Ticket, item: T)
    requires
        state.valid(),
        state.has(key),
    ensures
        state.slot(key) is Some ==> state.recv_result(key) == Ok::<Option<T>, Closed>(None),
        state.producer_waker is Some ==> state.send_result(item) == Err::<(), TrySendError<T>>(
            TrySendError::Full(item),
        ),
{
}

/// An item that is accepted wakes every consumer that waits, and each of them
/// then receives that item.
pub proof fn law_item_wakes_every_waiting_consumer<T>(
    state: SpmcState<T>,
    key: Ticket,
    waker: Waker,
    item: T,
)
    requires
        state.valid(),
        state.has(key),
        state.slot(key) == Some(waker),
        state.send_result(item) is Ok,
    ensures
        state.after_send(item).wakes.contains(waker),
        state.after_send(item).recv_result(key) == Ok::<Option<T>, Closed>(Some(item)),
{
    let queue = state.queue.sent(item);
    let slots = slots_of(queue);
    assert(slots.dom() =~= state.queue.consumers.dom());
    lemma_by_key_holds(slots, key.slot, waker);
    lemma_due(state.wakes, wakers_by_key(slots), waker);
}

/// Closing wakes everybody who waits: consumers are told that the channel is
/// closed, and the producer gets its item back.
pub proof fn law_closing_wakes_everybody<T>(
    state: SpmcState<T>,
    key: Ticket,
    waker: Waker,
    item: T,
)
    requires
        state.valid(),
    ensures
        state.has(key) && state.slot(key) == Some(waker) ==> {
            &&& state.after_close().wakes.contains(waker)
            &&& state.after_close().recv_result(key) == Err::<Option<T>, Closed>(Closed)
        },
        state.producer_waker == Some(waker) ==> {
            &&& state.after_close().wakes.contains(waker)
            &&& state.after_close().poll_send_result(item) == Poll::Ready(Err::<(), T>(item))
        },
{
    let slots = slots_of(state.queue);
    assert(slots.dom() =~= state.queue.consumers.dom());
    lemma_due(state.wakes, wakers_by_key(slots), waker);
    lemma_due(state.wakes + wakers_by_key(slots), in_slot(state.producer_waker), waker);
    if state.has(key) && state.slot(key) == Some(waker) {
        lemma_by_key_holds(slots, key.slot, waker);
    }
}

/// A waiting producer is woken as soon as there is room: by the consumer that
/// receives the item which was in the way, or by removing the consumer which
/// was. It can then send.
pub proof fn law_room_wakes_the_producer<T>(
    state: SpmcState<T>,
    key: Ticket,
    waker: Waker,
    item: T,
)
    requires
        state.valid(),
        state.producer_waker == Some(waker),
        state.has(key),
    ensures
        !state.after_recv(key).queue.is_full() ==> {
            &&& state.after_recv(key).wakes == state.wakes.push(waker)
            &&& state.after_recv(key).poll_send_result(item) == Poll::Ready(Ok::<(), T>(()))
        },
        !state.after_unsubscribe(key).queue.is_full() ==> {
            &&& state.after_unsubscribe(key).wakes == state.wakes.push(waker)
            &&& state.after_unsubscribe(key).poll_send_result(item) == Poll::Ready(Ok::<(), T>(()))
        },
{
    assert(state.wakes + in_slot(Some(waker)) =~= state.wakes.push(waker));
}

/// Where only one consumer is behind by the whole capacity, the item that it
/// receives, or its removal, makes room.
pub proof fn law_last_laggard_makes_room<T>(state: SpmcState<T>, key: Ticket)
    requires
        state.valid(),
        state.has(key),
        forall|i: usize| state.queue.lags(i) ==> i == key.slot,
    ensures
        !state.after_recv(key).queue.is_full(),
        !state.after_unsubscribe(key).queue.is_full(),
{
    let received = state.after_recv(key).queue;
    let removed = state.after_unsubscribe(key).queue;
    assert forall|i: usize| !received.lags(i) by {
        assert(i != key.slot ==> !state.queue.lags(i));
    }
    assert forall|i: usize| !removed.lags(i) by {
        assert(i != key.slot ==> !state.queue.lags(i));
    }
}

/// Making all waiting consumers due makes the waker of each due.
proof fn lemma_wakes_all<T>(before: SpmcState<T>, place: Place, waker: Waker)
    requires
        before.queue.consumers.dom().finite(),
    ensures
        place is Consumer && before.waiting_at(place) == Some(waker)
            ==> before.after_wake_all().wakes.contains(waker),
        before.wakes.contains(waker) ==> before.after_wake_all().wakes.contains(waker),
{
    let slots = slots_of(before.queue);
    assert(slots.dom() =~= before.queue.consumers.dom());
    lemma_due(before.wakes, wakers_by_key(slots), waker);
    if let Place::Consumer(key) = place {
        if before.waiting_at(place) == Some(waker) {
            lemma_by_key_holds(slots, key.slot, waker);
        }
    }
}

proof fn lemma_step_loses_no_waker<T>(
    before: SpmcState<T>,
    step: Step<T>,
    place: Place,
    waker: Waker,
)
    requires
        before.queue.valid(),
        before.admits(step),
        !before.gives_up(step, place, waker),
        before.waiting_at(place) == Some(waker) || before.wakes.contains(waker),
    ensures
        before.after(step).waiting_at(place) == Some(waker) || before.after(step).wakes.contains(
            waker,
        ),
{
    lemma_due(before.wakes, in_slot(before.producer_waker), waker);
    if before.sent_by(step).len() > 0 {
        let item = before.sent_by(step)[0];
        let sent = SpmcState { queue: before.queue.sent(item), ..before };
        assert(sent.queue.consumers.dom() =~= before.queue.consumers.dom());
        lemma_wakes_all(sent, place, waker);
    }
    if step is Close {
        let closed = SpmcState { closed: true, ..before };
        lemma_wakes_all(closed, place, waker);
        lemma_due(closed.after_wake_all().wakes, in_slot(before.producer_waker), waker);
    }
}

/// A waker that waits in a slot stays there until it is due, and what is due
/// stays due until it is taken, whatever else happens to the channel. Left out
/// are only the steps that give the waker's own place up: the end of its wait,
/// another wait in its slot, and the removal of its consumer.
pub proof fn law_no_waker_is_lost<T>(
    start: SpmcState<T>,
    steps: Seq<Step<T>>,
    place: Place,
    waker: Waker,
)
    requires
        start.queue.valid(),
        start.admits_all(steps),
        start.keeps_waiting(steps, place, waker),
        start.waiting_at(place) == Some(waker) || start.wakes.contains(waker),
    ensures
        start.after_all(steps).waiting_at(place) == Some(waker) || start.after_all(
            steps,
        ).wakes.contains(waker),
    decreases steps.len(),
{
    if steps.len() > 0 {
        let earlier = steps.drop_last();
        law_no_waker_is_lost(start, earlier, place, waker);
        law_no_consumer_lags_beyond_capacity(start, earlier);
        lemma_step_loses_no_waker(start.after_all(earlier), steps.last(), place, waker);
    }
}

/// A receive that waits goes on waiting, with nothing to receive, until an item
/// is sent or the channel is closed.
pub proof fn law_receive_waits_for_item_or_close<T>(
    start: SpmcState<T>,
    steps: Seq<Step<T>>,
    key: Ticket,
    waker: Waker,
)
    requires
        start.valid(),
        start.has(key),
        start.slot(key) == Some(waker),
        start.admits_all(steps),
        start.keeps_waiting(steps, Place::Consumer(key), waker),
        start.accepted(steps) == Seq::<T>::empty(),
        !start.after_all(steps).closed,
    ensures
        start.after_all(steps).has(key),
        start.after_all(steps).slot(key) == Some(waker),
        start.after_all(steps).recv_result(key) == Ok::<Option<T>, Closed>(None),
    decreases steps.len(),
{
    if steps.len() > 0 {
        law_receive_waits_for_item_or_close(start, steps.drop_last(), key, waker);
    }
}

/// A receive that has nothing to receive yet is woken exactly once, by the next
/// item that is sent or by closing, whichever comes first, and can then go on:
/// its slot is empty afterwards, and the waker became due once for each
/// consumer that waited with it, so once where no other did. Closing makes it
/// due once more where the producer waits with it too.
pub proof fn law_waiting_receive_is_woken_once<T>(
    state: SpmcState<T>,
    key: Ticket,
    waker: Waker,
    item: T,
)
    requires
        state.valid(),
        state.has(key),
        state.recv_result(key) == Ok::<Option<T>, Closed>(None),
    ensures
        ({
            let waiting = state.after_poll_recv(key, waker);
            let with_it = holders(slots_of(waiting.queue), waker);
            let sent = waiting.after_send(item);
            let closed = waiting.after_close();
            &&& waiting.valid()
            &&& waiting.slot(key) == Some(waker)
            &&& waiting.wakes == state.wakes
            &&& with_it.contains(key.slot)
            &&& (forall|i: usize| #[trigger]
                with_it.contains(i) ==> i == key.slot) ==> with_it.len() == 1
            &&& waiting.send_result(item) is Ok ==> {
                &&& times(sent.wakes, waker) == times(state.wakes, waker) + with_it.len()
                &&& sent.slot(key) is None
                &&& sent.recv_result(key) == Ok::<Option<T>, Closed>(Some(item))
            }
            &&& times(closed.wakes, waker) == times(state.wakes, waker) + with_it.len() + (
            if state.producer_waker == Some(waker) {
                1nat
            } else {
                0
            })
            &&& closed.slot(key) is None
            &&& closed.recv_result(key) == Err::<Option<T>, Closed>(Closed)
        }),
{
    let waiting = state.after_poll_recv(key, waker);
    let slots = slots_of(waiting.queue);
    let with_it = holders(slots, waker);
    lemma_same_fullness(state, key, Some(waker));
    assert(slots.dom() =~= state.queue.consumers.dom());
    if forall|i: usize| #[trigger] with_it.contains(i) ==> i == key.slot {
        assert(with_it =~= Set::empty().insert(key.slot));
    }
    lemma_by_key_counts(slots, waker);
    lemma_times(waiting.wakes, wakers_by_key(slots), waker);
    lemma_times(waiting.wakes + wakers_by_key(slots), in_slot(state.producer_waker), waker);
    assert(slots_of(waiting.queue.sent(item)) =~= slots);
}

/// The producer and every consumer have one waker slot each: who polls later
/// takes the place of who waited there, as if that one had never waited.
pub proof fn law_later_waiter_replaces_the_earlier<T>(
    state: SpmcState<T>,
    key: Ticket,
    earlier: Waker,
    later: Waker,
    earlier_item: T,
    later_item: T,
)
    requires
        state.has(key),
    ensures
        state.recv_result(key) == Ok::<Option<T>, Closed>(None) ==> state.after_poll_recv(
            key,
            earlier,
        ).after_poll_recv(key, later) == state.after_poll_recv(key, later),
        state.queue.is_full() && !state.closed ==> state.after_poll_send(
            earlier_item,
            earlier,
        ).after_poll_send(later_item, later) == state.after_poll_send(later_item, later),
{
    let twice = state.after_poll_recv(key, earlier).after_poll_recv(key, later);
    if state.recv_result(key) == Ok::<Option<T>, Closed>(None) {
        assert(twice.queue.consumers =~= state.after_poll_recv(key, later).queue.consumers);
    }
}

/// A poll of a receive that has to wait puts its own waker into the slot of its
/// consumer, whether one was there or not, and touches nothing else. A ready one
/// does what an attempt to receive does.
pub proof fn law_pending_receive_is_registered<T>(
    state: SpmcState<T>,
    key: Ticket,
    waker: Waker,
    other: usize,
)
    requires
        state.has(key),
    ensures
        state.queue.consumers[key.slot].pending.len() == 0 && !state.closed ==> {
            let after = state.after_poll_recv(key, waker);
            &&& after.queue.consumers.contains_key(key.slot)
            &&& after.queue.consumers[key.slot].context == Some(waker)
            &&& after.queue.consumers[key.slot].pending == state.queue.consumers[key.slot].pending
            &&& after.queue.consumers[key.slot].number == state.queue.consumers[key.slot].number
            &&& other != key.slot ==> {
                &&& after.queue.consumers.contains_key(other) == state.queue.consumers.contains_key(
                    other,
                )
                &&& state.queue.consumers.contains_key(other) ==> after.queue.consumers[other]
                    == state.queue.consumers[other]
            }
            &&& after.queue.capacity == state.queue.capacity
            &&& after.queue.free == state.queue.free
            &&& after.queue.next_number == state.queue.next_number
            &&& after.queue.label == state.queue.label
            &&& after.sequence == state.sequence
            &&& after.producer_waker == state.producer_waker
            &&& after.closed == state.closed
            &&& after.wakes == state.wakes
        },
        state.queue.consumers[key.slot].pending.len() > 0 || state.closed
            ==> state.after_poll_recv(key, waker) == state.after_recv(key),
{
}

/// A receive that ends empties the slot of its consumer and touches nothing
/// else, and one whose consumer is gone touches nothing at all.
pub proof fn law_ended_receive_leaves_its_slot<T>(state: SpmcState<T>, key: Ticket, other: usize)
    ensures
        !state.has(key) ==> state.after_release(key) == state,
        state.has(key) ==> {
            let after = state.after_release(key);
            &&& after.queue.consumers.contains_key(key.slot)
            &&& after.queue.consumers[key.slot].context is None
            &&& after.queue.consumers[key.slot].pending == state.queue.consumers[key.slot].pending
            &&& after.queue.consumers[key.slot].number == state.queue.consumers[key.slot].number
            &&& other != key.slot ==> {
                &&& after.queue.consumers.contains_key(other) == state.queue.consumers.contains_key(
                    other,
                )
                &&& state.queue.consumers.contains_key(other) ==> after.queue.consumers[other]
                    == state.queue.consumers[other]
            }
            &&& after.sequence == state.sequence
            &&& after.producer_waker == state.producer_waker
            &&& after.closed == state.closed
            &&& after.wakes == state.wakes
        },
{
}

/// A poll of a send, or for room, waits exactly while the channel is open and
/// some consumer is behind by the whole capacity. It hands the item back, or
/// says so, exactly when the channel is closed. One that has to wait puts its
/// own waker into the slot of the producer and changes nothing else.
pub proof fn law_pending_send_is_registered<T>(state: SpmcState<T>, item: T, waker: Waker)
    ensures
        state.poll_send_result(item) is Pending <==> {
            &&& !state.closed
            &&& exists|slot: usize|
                state.queue.consumers.contains_key(slot) && (
                #[trigger] state.queue.consumers[slot]).pending.len() >= state.queue.capacity
        },
        state.poll_send_result(item) == Poll::Ready(Err::<(), T>(item)) <==> state.closed,
        state.poll_send_result(item) is Pending || state.closed || state.poll_send_result(item)
            == Poll::Ready(Ok::<(), T>(())),
        state.poll_ready_result() is Pending <==> state.poll_send_result(item) is Pending,
        state.poll_ready_result() == Poll::Ready(Err::<(), Closed>(Closed)) <==> state.closed,
        state.poll_ready_result() is Pending || state.closed || state.poll_ready_result()
            == Poll::Ready(Ok::<(), Closed>(())),
        state.poll_send_result(item) is Pending ==> {
            &&& state.after_poll_send(item, waker) == (SpmcState {
                producer_waker: Some(waker),
                ..state
            })
            &&& state.after_poll_ready(waker) == (SpmcState {
                producer_waker: Some(waker),
                ..state
            })
        },
        state.poll_send_result(item) is Ready ==> {
            &&& state.after_poll_send(item, waker) == state.after_send(item)
            &&& state.after_poll_ready(waker) == state
        },
{
    law_slowest_consumer_takes_the_room(state.queue, state.queue, 0, 0);
}

/// An accepted item makes the waiting consumers due, in the order of their slots
/// and behind those who are due already. So does closing, which makes the
/// producer due after them, empties all slots, and leaves what is to be received
/// as it is.
pub proof fn law_waiting_consumers_are_due_in_order<T>(
    state: SpmcState<T>,
    item: T,
    slot: usize,
)
    ensures
        slots_of(state.queue).dom() == state.queue.consumers.dom(),
        state.queue.consumers.contains_key(slot) ==> slots_of(state.queue)[slot]
            == state.queue.consumers[slot].context,
        state.send_result(item) is Ok ==> state.after_send(item).wakes == state.wakes
            + wakers_by_key(slots_of(state.queue)),
        state.after_close().closed,
        state.after_close().producer_waker is None,
        state.after_close().wakes == (match state.producer_waker {
            Some(waker) => (state.wakes + wakers_by_key(slots_of(state.queue))).push(waker),
            None => state.wakes + wakers_by_key(slots_of(state.queue)),
        }),
        state.after_close().queue.consumers.contains_key(slot)
            == state.queue.consumers.contains_key(slot),
        state.queue.consumers.contains_key(slot) ==> {
            &&& state.after_close().queue.consumers[slot].pending
                == state.queue.consumers[slot].pending
            &&& state.after_close().queue.consumers[slot].number
                == state.queue.consumers[slot].number
            &&& state.after_close().queue.consumers[slot].context is None
        },
        state.after_close().sequence == state.sequence,
        state.after_close().queue.capacity == state.queue.capacity,
        state.after_close().queue.free == state.queue.free,
        state.after_close().queue.next_number == state.queue.next_number,
        state.after_close().queue.label == state.queue.label,
{
    law_slowest_consumer_takes_the_room(state.queue, state.queue, 0, 0);
    assert(slots_of(state.queue).dom() =~= state.queue.consumers.dom());
    assert(slots_of(state.queue.sent(item)) =~= slots_of(state.queue));
}

/// A receive, or the removal of a consumer, makes a waiting producer due exactly
/// when there was no room before it and is some after it, and wakes nobody else.
pub proof fn law_producer_is_due_exactly_for_room<T>(state: SpmcState<T>, key: Ticket)
    requires
        state.has(key),
    ensures
        ({
            let received = state.after_recv(key);
            let removed = state.after_unsubscribe(key);
            &&& state.queue.is_full() && !received.queue.is_full() ==> {
                &&& received.producer_waker is None
                &&& received.wakes == (match state.producer_waker {
                    Some(waker) => state.wakes.push(waker),
                    None => state.wakes,
                })
            }
            &&& !(state.queue.is_full() && !received.queue.is_full()) ==> {
                &&& received.producer_waker == state.producer_waker
                &&& received.wakes == state.wakes
            }
            &&& state.queue.is_full() && !removed.queue.is_full() ==> {
                &&& removed.producer_waker is None
                &&& removed.wakes == (match state.producer_waker {
                    Some(waker) => state.wakes.push(waker),
                    None => state.wakes,
                })
            }
            &&& !(state.queue.is_full() && !removed.queue.is_full()) ==> {
                &&& removed.producer_waker == state.producer_waker
                &&& removed.wakes == state.wakes
            }
        }),
{
}

} // verus!
