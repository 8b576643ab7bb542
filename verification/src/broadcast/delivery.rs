//! What a broadcast channel promises over a run of operations: who receives
//! what, and which keys are live.

use std::task::{Poll, Waker};

use vstd::prelude::*;

use super::spmc::{slots_of, SpmcState};
use crate::error::{Closed, TrySendError};
use crate::handles::lemma_contains_last;
use crate::queue::broadcast_queue::{
    law_slowest_consumer_takes_the_room, BroadcastView, Subscription, Ticket,
};
use crate::slots::{ascending, lemma_ascending_lists};
use crate::wake::{wakers_along, wakers_by_key};

verus! {

/// Something that happens to a broadcast channel.
pub enum Step<T> {
    /// An attempt to send an item.
    Send(T),
    /// A poll of a send.
    PollSend(T, Waker),
    /// A poll for room.
    PollReady(Waker),
    /// A send ends, whether it was waiting or not.
    EndSend,
    /// An attempt of a consumer to receive an item.
    Recv(Ticket),
    /// A poll of a receive.
    PollRecv(Ticket, Waker),
    /// A receive ends, whether it was waiting or not.
    EndRecv(Ticket),
    /// A consumer is added.
    Subscribe(Ticket),
    /// A consumer is removed.
    Unsubscribe(Ticket),
    /// Unused memory is given back.
    Shrink,
    /// The channel is closed.
    Close,
}

impl<T> SpmcState<T> {
    /// The step can be taken: its key is live, or, where a consumer is added,
    /// is a new one for a vacant slot.
    pub open spec fn admits(self, step: Step<T>) -> bool {
        match step {
            Step::Recv(key) => self.has(key),
            Step::PollRecv(key, _) => self.has(key),
            Step::Subscribe(key) => {
                &&& key.label == self.queue.label
                &&& key.number == self.queue.next_number
                &&& !self.queue.consumers.contains_key(key.slot)
            },
            Step::Unsubscribe(key) => self.has(key),
            _ => true,
        }
    }

    /// After one step.
    pub open spec fn after(self, step: Step<T>) -> Self {
        match step {
            Step::Send(item) => self.after_send(item),
            Step::PollSend(item, waker) => self.after_poll_send(item, waker),
            Step::PollReady(waker) => self.after_poll_ready(waker),
            Step::EndSend => SpmcState { producer_waker: None, ..self },
            Step::Recv(key) => self.after_recv(key),
            Step::PollRecv(key, waker) => self.after_poll_recv(key, waker),
            Step::EndRecv(key) => self.after_release(key),
            Step::Subscribe(key) => self.after_subscribe(key),
            Step::Unsubscribe(key) => self.after_unsubscribe(key),
            Step::Shrink => self.after_shrink(),
            Step::Close => self.after_close(),
        }
    }

    /// After a run of steps.
    pub open spec fn after_all(self, steps: Seq<Step<T>>) -> Self
        decreases steps.len(),
    {
        if steps.len() == 0 {
            self
        } else {
            self.after_all(steps.drop_last()).after(steps.last())
        }
    }

    /// Every step of the run can be taken when its turn comes.
    pub open spec fn admits_all(self, steps: Seq<Step<T>>) -> bool
        decreases steps.len(),
    {
        steps.len() > 0 ==> {
            &&& self.admits_all(steps.drop_last())
            &&& self.after_all(steps.drop_last()).admits(steps.last())
        }
    }

    /// The item that a step sends, if it sends one.
    pub open spec fn sent_by(self, step: Step<T>) -> Seq<T> {
        match step {
            Step::Send(item) if self.send_result(item) is Ok => seq![item],
            Step::PollSend(item, _) if self.poll_send_result(item) == Poll::Ready(
                Ok::<(), T>(()),
            ) => seq![item],
            _ => Seq::empty(),
        }
    }

    /// The item that a consumer receives in a step, if it receives one.
    pub open spec fn received_by(self, step: Step<T>, key: Ticket) -> Seq<T> {
        match (step, self.recv_result(key)) {
            (Step::Recv(k), Ok(Some(item))) if k == key => seq![item],
            (Step::PollRecv(k, _), Ok(Some(item))) if k == key => seq![item],
            _ => Seq::empty(),
        }
    }

    /// The items that a run of steps sent, in the order of sending.
    pub open spec fn accepted(self, steps: Seq<Step<T>>) -> Seq<T>
        decreases steps.len(),
    {
        if steps.len() == 0 {
            Seq::empty()
        } else {
            self.accepted(steps.drop_last()) + self.after_all(steps.drop_last()).sent_by(
                steps.last(),
            )
        }
    }

    /// The items that a consumer received in a run of steps, in the order of
    /// receiving.
    pub open spec fn received(self, steps: Seq<Step<T>>, key: Ticket) -> Seq<T>
        decreases steps.len(),
    {
        if steps.len() == 0 {
            Seq::empty()
        } else {
            self.received(steps.drop_last(), key) + self.after_all(steps.drop_last()).received_by(
                steps.last(),
                key,
            )
        }
    }
}

/// The consumer is not removed in the run of steps.
pub open spec fn stays<T>(steps: Seq<Step<T>>, key: Ticket) -> bool {
    forall|i: int| 0 <= i < steps.len() ==> #[trigger] steps[i] != Step::<T>::Unsubscribe(key)
}

/// What a consumer has to receive and what a step sends are together what it
/// receives in the step and what it then has to receive.
proof fn lemma_step_delivers<T>(before: SpmcState<T>, step: Step<T>, key: Ticket)
    requires
        before.has(key),
        before.admits(step),
        step != Step::<T>::Unsubscribe(key),
    ensures
        before.after(step).has(key),
        before.pending(key) + before.sent_by(step) == before.received_by(step, key) + before.after(
            step,
        ).pending(key),
{
    if before.sent_by(step).len() > 0 {
        assert(before.after(step).pending(key) == before.pending(key).push(
            before.sent_by(step)[0],
        ));
    }
}

/// Every consumer receives every item that is sent while it is subscribed, each
/// exactly once and in the order of sending, whatever the other consumers do:
/// at any time, what it had to receive at first and what was sent since are
/// together what it received since and what it has still to receive.
pub proof fn law_every_consumer_receives_every_item<T>(
    start: SpmcState<T>,
    steps: Seq<Step<T>>,
    key: Ticket,
)
    requires
        start.has(key),
        start.admits_all(steps),
        stays(steps, key),
    ensures
        start.after_all(steps).has(key),
        start.pending(key) + start.accepted(steps) == start.received(steps, key) + start.after_all(
            steps,
        ).pending(key),
    decreases steps.len(),
{
    if steps.len() > 0 {
        let earlier = steps.drop_last();
        let before = start.after_all(earlier);
        let step = steps.last();
        law_every_consumer_receives_every_item(start, earlier, key);
        lemma_step_delivers(before, step, key);
        assert(start.pending(key) + start.accepted(steps) =~= (start.pending(key) + start.accepted(
            earlier,
        )) + before.sent_by(step));
    }
}

/// A new consumer receives nothing that was sent before it was added, and then
/// everything: what it has received and has still to receive is what was sent
/// since.
pub proof fn law_new_consumer_receives_new_items_only<T>(
    before: SpmcState<T>,
    steps: Seq<Step<T>>,
    key: Ticket,
)
    requires
        before.admits(Step::Subscribe(key)),
        before.after_subscribe(key).admits_all(steps),
        stays(steps, key),
    ensures
        before.after_subscribe(key).accepted(steps) == before.after_subscribe(key).received(
            steps,
            key,
        ) + before.after_subscribe(key).after_all(steps).pending(key),
{
    let start = before.after_subscribe(key);
    law_every_consumer_receives_every_item(start, steps, key);
    assert(start.pending(key) + start.accepted(steps) =~= start.accepted(steps));
}

/// What one consumer receives changes nothing for the others.
pub proof fn law_consumers_are_independent<T>(state: SpmcState<T>, key: Ticket, other: Ticket)
    requires
        state.has(key),
        state.has(other),
        key != other,
    ensures
        state.after_recv(key).has(other),
        state.after_recv(key).pending(other) == state.pending(other),
        state.after_recv(key).slot(other) == state.slot(other),
        state.after_unsubscribe(key).has(other),
        state.after_unsubscribe(key).pending(other) == state.pending(other),
{
}

proof fn lemma_step_keeps_bound<T>(before: SpmcState<T>, step: Step<T>)
    requires
        before.queue.valid(),
        before.admits(step),
    ensures
        before.after(step).queue.valid(),
        before.after(step).queue.capacity == before.queue.capacity,
{
    let after = before.after(step);
    match step {
        Step::Subscribe(_) => {},
        Step::Unsubscribe(_) => {},
        _ => {
            assert(after.queue.consumers.dom() =~= before.queue.consumers.dom());
            assert forall|i: usize| after.queue.consumers.contains_key(i) implies (
            #[trigger] after.queue.consumers[i]).pending.len() <= after.queue.capacity by {
                assert(!before.queue.is_full() ==> !before.queue.lags(i));
            }
        },
    }
}

/// No consumer is ever behind by more than the capacity.
pub proof fn law_no_consumer_lags_beyond_capacity<T>(start: SpmcState<T>, steps: Seq<Step<T>>)
    requires
        start.queue.valid(),
        start.admits_all(steps),
    ensures
        start.after_all(steps).queue.valid(),
        start.after_all(steps).queue.capacity == start.queue.capacity,
    decreases steps.len(),
{
    if steps.len() > 0 {
        law_no_consumer_lags_beyond_capacity(start, steps.drop_last());
        lemma_step_keeps_bound(start.after_all(steps.drop_last()), steps.last());
    }
}

/// The slowest consumer decides: the producer is refused exactly while some
/// consumer is behind by the whole capacity, however little the others are.
pub proof fn law_slowest_consumer_blocks<T>(state: SpmcState<T>, item: T)
    requires
        !state.closed,
    ensures
        state.send_result(item) == Err::<(), TrySendError<T>>(TrySendError::Full(item)) <==> exists|
            key: Ticket,
        | #[trigger] state.has(key) && state.pending(key).len() >= state.queue.capacity,
{
    if state.queue.is_full() {
        let slot = choose|i: usize| state.queue.lags(i);
        let number = state.queue.consumers[slot].number;
        assert(state.has(Ticket { label: state.queue.label, slot, number }));
    }
    if exists|key: Ticket| #[trigger]
        state.has(key) && state.pending(key).len() >= state.queue.capacity {
        let key = choose|key: Ticket| #[trigger]
            state.has(key) && state.pending(key).len() >= state.queue.capacity;
        assert(state.queue.lags(key.slot));
    }
}

/// Without consumers every item is accepted and nothing is kept.
pub proof fn law_nothing_is_kept_for_nobody<T>(state: SpmcState<T>, item: T)
    requires
        state.queue.is_deserted(),
        !state.closed,
    ensures
        state.send_result(item) == Ok::<(), TrySendError<T>>(()),
        state.after_send(item).queue == state.queue,
        state.after_send(item).sequence == state.sequence,
{
    assert(state.after_send(item).queue.consumers =~= state.queue.consumers);
}

/// A closed channel stays closed and accepts nothing.
pub proof fn law_closed_for_good<T>(start: SpmcState<T>, steps: Seq<Step<T>>)
    requires
        start.closed,
    ensures
        start.after_all(steps).closed,
        start.accepted(steps) == Seq::<T>::empty(),
    decreases steps.len(),
{
    if steps.len() > 0 {
        law_closed_for_good(start, steps.drop_last());
    }
}

/// Closing a second time changes nothing.
pub proof fn law_close_is_idempotent<T>(state: SpmcState<T>)
    requires
        state.queue.valid(),
    ensures
        state.after_close().after_close() == state.after_close(),
{
    let once = state.after_close();
    let twice = once.after_close();
    assert(twice.queue.consumers =~= once.queue.consumers);
    assert(slots_of(once.queue).dom() =~= state.queue.consumers.dom());
    lemma_no_wakers(slots_of(once.queue));
    assert(twice.wakes =~= once.wakes);
}

proof fn lemma_no_wakers(slots: Map<usize, Option<Waker>>)
    requires
        forall|key: usize| slots.contains_key(key) ==> #[trigger] slots[key] is None,
        slots.dom().finite(),
    ensures
        wakers_by_key(slots) == Seq::<Waker>::empty(),
{
    lemma_ascending_lists(slots.dom());
    let keys = ascending(slots.dom());
    assert forall|i: int| 0 <= i < keys.len() implies #[trigger] slots[keys[i]] is None by {
        assert(keys.contains(keys[i]));
        assert(slots.dom().contains(keys[i]));
    }
    lemma_none_along(slots, keys);
}

proof fn lemma_none_along(slots: Map<usize, Option<Waker>>, keys: Seq<usize>)
    requires
        forall|i: int| 0 <= i < keys.len() ==> #[trigger] slots[keys[i]] is None,
    ensures
        wakers_along(slots, keys) == Seq::<Waker>::empty(),
    decreases keys.len(),
{
    if keys.len() > 0 {
        let fewer = keys.drop_last();
        assert forall|i: int| 0 <= i < fewer.len() implies #[trigger] slots[fewer[i]] is None by {
            assert(fewer[i] == keys[i]);
        }
        lemma_none_along(slots, fewer);
        assert(slots[keys[keys.len() - 1]] is None);
        assert(wakers_along(slots, keys) =~= Seq::empty());
    }
}

/// As many attempts of one consumer to receive as `count` says.
pub open spec fn recvs<T>(key: Ticket, count: nat) -> Seq<Step<T>> {
    Seq::new(count, |i: int| Step::Recv(key))
}

/// After closing, every consumer can receive what it has still to receive, in
/// order, and is then answered with `Closed`.
pub proof fn law_closed_channel_drains<T>(state: SpmcState<T>, key: Ticket, count: nat)
    requires
        state.has(key),
    ensures
        state.after_close().admits_all(recvs(key, count)),
        count <= state.pending(key).len() ==> {
            &&& state.after_close().received(recvs(key, count), key) == state.pending(key).take(
                count as int,
            )
            &&& state.after_close().after_all(recvs(key, count)).pending(key) == state.pending(
                key,
            ).skip(count as int)
        },
        count >= state.pending(key).len() ==> {
            &&& state.after_close().received(recvs(key, count), key) == state.pending(key)
            &&& state.after_close().after_all(recvs(key, count)).recv_result(key) == Err::<
                Option<T>,
                Closed,
            >(Closed)
        },
    decreases count,
{
    let closed = state.after_close();
    let all = state.pending(key);
    law_closed_for_good(closed, recvs(key, count));
    if count > 0 {
        let fewer = (count - 1) as nat;
        law_closed_channel_drains(state, key, fewer);
        assert(recvs::<T>(key, count).drop_last() =~= recvs(key, fewer));
        let before = closed.after_all(recvs(key, fewer));
        if count <= all.len() {
            assert(all.take(fewer as int) + seq![before.pending(key).first()] =~= all.take(
                count as int,
            ));
            assert(before.pending(key).drop_first() =~= all.skip(count as int));
        }
    }
}

/// How many consumers a run of steps adds.
pub open spec fn subscriptions<T>(steps: Seq<Step<T>>) -> nat
    decreases steps.len(),
{
    if steps.len() == 0 {
        0
    } else if steps.last() is Subscribe {
        subscriptions(steps.drop_last()) + 1
    } else {
        subscriptions(steps.drop_last())
    }
}

/// How many numbers are given out, from `next` on, before the turn of `number`.
pub open spec fn numbers_until(next: u64, number: u64) -> nat {
    if next <= number {
        (number - next) as nat
    } else {
        (u64::MAX - next + 1 + number) as nat
    }
}

/// A key whose consumer was removed is never live again, also when another
/// consumer has its slot, until all subscription numbers have been given out
/// anew. Nothing that is done to a receive with such a key reaches a consumer.
pub proof fn law_removed_key_stays_dead<T>(state: SpmcState<T>, steps: Seq<Step<T>>, key: Ticket)
    requires
        state.has(key),
        state.after_unsubscribe(key).admits_all(steps),
        subscriptions(steps) <= numbers_until(state.queue.next_number, key.number),
    ensures
        !state.after_unsubscribe(key).after_all(steps).has(key),
        ({
            let later = state.after_unsubscribe(key).after_all(steps);
            later.after_release(key) == later
        }),
{
    lemma_number_is_not_reused(state.after_unsubscribe(key), steps, key);
}

proof fn lemma_number_is_not_reused<T>(start: SpmcState<T>, steps: Seq<Step<T>>, key: Ticket)
    requires
        !start.has(key),
        start.admits_all(steps),
        subscriptions(steps) <= numbers_until(start.queue.next_number, key.number),
    ensures
        !start.after_all(steps).has(key),
        subscriptions(steps) + numbers_until(
            start.after_all(steps).queue.next_number,
            key.number,
        ) == numbers_until(start.queue.next_number, key.number),
    decreases steps.len(),
{
    if steps.len() > 0 {
        lemma_number_is_not_reused(start, steps.drop_last(), key);
    }
}

/// The key of a channel with another label is never live.
pub proof fn law_foreign_key_is_never_live<T>(
    start: SpmcState<T>,
    steps: Seq<Step<T>>,
    key: Ticket,
)
    requires
        key.label != start.queue.label,
    ensures
        start.after_all(steps).queue.label == start.queue.label,
        !start.after_all(steps).has(key),
    decreases steps.len(),
{
    if steps.len() > 0 {
        law_foreign_key_is_never_live(start, steps.drop_last(), key);
    }
}

/// Something that happens to a channel whose receivers, sources and consumers,
/// are counted.
pub enum Turn<T> {
    /// A source is cloned.
    CloneSource,
    /// A consumer is added.
    AddConsumer(Ticket),
    /// A source is given up.
    ReleaseSource,
    /// A consumer is given up.
    ReleaseConsumer(Ticket),
    /// Something else happens to the channel.
    Other(Step<T>),
}

/// How many receivers there are after a run, where there were `count` before it.
pub open spec fn receivers_after<T>(count: nat, turns: Seq<Turn<T>>) -> nat
    decreases turns.len(),
{
    if turns.len() == 0 {
        count
    } else {
        let before = receivers_after(count, turns.drop_last());
        match turns.last() {
            Turn::CloneSource => before + 1,
            Turn::AddConsumer(_) => before + 1,
            Turn::ReleaseSource => (before - 1) as nat,
            Turn::ReleaseConsumer(_) => (before - 1) as nat,
            Turn::Other(_) => before,
        }
    }
}

/// Receivers are added and given up only while there are any.
pub open spec fn are_held<T>(count: nat, turns: Seq<Turn<T>>) -> bool
    decreases turns.len(),
{
    turns.len() > 0 ==> {
        &&& are_held(count, turns.drop_last())
        &&& turns.last() is Other || receivers_after(count, turns.drop_last()) > 0
    }
}

impl<T> SpmcState<T> {
    /// After a run of turns, with `count` receivers before it.
    pub open spec fn after_turns(self, count: nat, turns: Seq<Turn<T>>) -> Self
        decreases turns.len(),
    {
        if turns.len() == 0 {
            self
        } else {
            let before = self.after_turns(count, turns.drop_last());
            let receivers = receivers_after(count, turns.drop_last());
            match turns.last() {
                Turn::CloneSource => before,
                Turn::AddConsumer(key) => before.after_subscribe(key),
                Turn::ReleaseSource => before.after_receiver_release(receivers),
                Turn::ReleaseConsumer(key) => before.after_unsubscribe(key).after_receiver_release(
                    receivers,
                ),
                Turn::Other(step) => before.after(step),
            }
        }
    }
}

/// Over any run in which receivers are added and given up, and anything else
/// happens, the channel is closed exactly if it was closed before, or by hand,
/// or no receiver is left. Giving the producer up closes it by hand.
pub proof fn law_last_receiver_closes<T>(start: SpmcState<T>, count: nat, turns: Seq<Turn<T>>)
    requires
        0 < count,
        are_held(count, turns),
    ensures
        start.after_turns(count, turns).closed <==> start.closed || turns.contains(
            Turn::Other(Step::Close),
        ) || receivers_after(count, turns) == 0,
    decreases turns.len(),
{
    if turns.len() > 0 {
        law_last_receiver_closes(start, count, turns.drop_last());
        lemma_contains_last(turns, Turn::Other(Step::Close));
    }
}

/// An attempt to send is answered by what the channel is: `Closed` exactly while
/// it is closed, however far behind its consumers are; `Full` exactly while it
/// is open and some consumer is behind by the whole capacity; success in every
/// other case. A refusal hands the item back and changes nothing.
pub proof fn law_send_is_answered_exactly<T>(state: SpmcState<T>, item: T)
    ensures
        state.send_result(item) == Err::<(), TrySendError<T>>(TrySendError::Closed(item))
            <==> state.closed,
        state.send_result(item) == Err::<(), TrySendError<T>>(TrySendError::Full(item)) <==> {
            &&& !state.closed
            &&& exists|slot: usize|
                state.queue.consumers.contains_key(slot) && (
                #[trigger] state.queue.consumers[slot]).pending.len() >= state.queue.capacity
        },
        state.send_result(item) == Ok::<(), TrySendError<T>>(()) <==> {
            &&& !state.closed
            &&& forall|slot: usize|
                state.queue.consumers.contains_key(slot) ==> (
                #[trigger] state.queue.consumers[slot]).pending.len() < state.queue.capacity
        },
        state.send_result(item) is Err ==> state.after_send(item) == state,
        state.accepts() <==> state.send_result(item) is Ok,
{
    law_slowest_consumer_takes_the_room(state.queue, state.queue, 0, 0);
}

/// An item that is accepted reaches every consumer and empties the slot of each.
/// It is counted if there is anybody to receive it. The channel stays open, and
/// a producer that waits is left alone.
pub proof fn law_accepted_item_is_everywhere<T>(state: SpmcState<T>, item: T, slot: usize)
    requires
        state.send_result(item) is Ok,
        state.sequence < u64::MAX,
    ensures
        ({
            let after = state.after_send(item);
            &&& after.queue.consumers.contains_key(slot) == state.queue.consumers.contains_key(slot)
            &&& state.queue.consumers.contains_key(slot) ==> {
                &&& after.queue.consumers[slot].pending == state.queue.consumers[slot].pending.push(
                    item,
                )
                &&& after.queue.consumers[slot].number == state.queue.consumers[slot].number
                &&& after.queue.consumers[slot].context is None
                &&& after.sequence == state.sequence + 1
            }
            &&& state.queue.consumers == Map::<usize, Subscription<T, Option<Waker>>>::empty()
                ==> after.sequence == state.sequence
            &&& after.queue.capacity == state.queue.capacity
            &&& after.queue.free == state.queue.free
            &&& after.queue.next_number == state.queue.next_number
            &&& after.queue.label == state.queue.label
            &&& after.producer_waker == state.producer_waker
            &&& after.closed == state.closed
        }),
{
    law_slowest_consumer_takes_the_room(state.queue, state.queue, 0, 0);
}

/// A receive is answered by what the consumer has still to receive: its oldest
/// item, closed or not, while there is one. Without one it is told of the end
/// exactly when the channel is closed.
pub proof fn law_receive_is_answered_exactly<T>(state: SpmcState<T>, key: Ticket)
    ensures
        state.pending(key) == state.queue.consumers[key.slot].pending,
        state.slot(key) == state.queue.consumers[key.slot].context,
        state.has(key) == state.queue.is_live(key),
        state.pending(key).len() > 0 ==> state.recv_result(key) == Ok::<Option<T>, Closed>(
            Some(state.queue.consumers[key.slot].pending[0]),
        ),
        state.recv_result(key) == Ok::<Option<T>, Closed>(None)
            <==> state.queue.consumers[key.slot].pending.len() == 0 && !state.closed,
        state.recv_result(key) == Err::<Option<T>, Closed>(Closed)
            <==> state.queue.consumers[key.slot].pending.len() == 0 && state.closed,
{
}

/// A receive that gets an item takes it from the one consumer, and a receive
/// that gets none changes nothing.
pub proof fn law_receive_touches_one_consumer<T>(state: SpmcState<T>, key: Ticket, other: usize)
    requires
        state.has(key),
    ensures
        state.recv_result(key) matches Ok(Some(item)) ==> {
            &&& state.pending(key) == seq![item] + state.after_recv(key).pending(key)
            &&& state.after_recv(key).slot(key) == state.slot(key)
            &&& state.after_recv(key).has(key)
        },
        state.queue.consumers[key.slot].pending.len() == 0 ==> state.after_recv(key) == state,
        other != key.slot ==> {
            &&& state.after_recv(key).queue.consumers.contains_key(other)
                == state.queue.consumers.contains_key(other)
            &&& state.queue.consumers.contains_key(other) ==> state.after_recv(
                key,
            ).queue.consumers[other] == state.queue.consumers[other]
        },
        state.after_recv(key).closed == state.closed,
        state.after_recv(key).sequence == state.sequence,
        state.after_recv(key).queue.capacity == state.queue.capacity,
        state.after_recv(key).queue.free == state.queue.free,
        state.after_recv(key).queue.next_number == state.queue.next_number,
        state.after_recv(key).queue.label == state.queue.label,
{
    if state.pending(key).len() > 0 {
        assert(state.pending(key) =~= seq![state.pending(key)[0]]
            + state.pending(key).drop_first());
    }
}

/// Adding and removing a consumer is done to the queue, a new consumer has no
/// waker, and the channel stays as open as it was. Shrinking is done to the queue
/// alone.
pub proof fn law_subscriptions_are_separate<T>(state: SpmcState<T>, key: Ticket)
    ensures
        state.after_subscribe(key).queue == state.queue.subscribed(key.slot, None),
        state.after_subscribe(key).sequence == state.sequence,
        state.after_subscribe(key).producer_waker == state.producer_waker,
        state.after_subscribe(key).closed == state.closed,
        state.after_subscribe(key).wakes == state.wakes,
        state.after_unsubscribe(key).queue == state.queue.unsubscribed(key.slot),
        !state.after_unsubscribe(key).has(key),
        state.after_unsubscribe(key).sequence == state.sequence,
        state.after_unsubscribe(key).closed == state.closed,
        state.after_shrink() == (SpmcState { queue: state.queue.shrunk(), ..state }),
{
}

/// There is a number for the next item unless one would be needed and all are
/// used up. Giving a receiver up changes nothing unless it is the last one,
/// which closes. A new channel is open, with nobody subscribed or waiting.
pub proof fn law_counting_is_exact<T>(
    state: SpmcState<T>,
    receivers: nat,
    capacity: nat,
    label: u64,
)
    ensures
        state.can_count() <==> {
            ||| state.closed
            ||| state.queue.is_full()
            ||| state.queue.is_deserted()
            ||| state.sequence < u64::MAX
        },
        receivers != 1 ==> state.after_receiver_release(receivers) == state,
        state.after_receiver_release(1) == state.after_close(),
        SpmcState::<T>::fresh(capacity, label).queue == BroadcastView::<T, Option<Waker>>::fresh(
            capacity,
            label,
        ),
        SpmcState::<T>::fresh(capacity, label).sequence == 0,
        SpmcState::<T>::fresh(capacity, label).producer_waker is None,
        !SpmcState::<T>::fresh(capacity, label).closed,
        SpmcState::<T>::fresh(capacity, label).wakes.len() == 0,
{
}

} // verus!
