//! A bounded channel with one producer that hands every item to every consumer.
//!
//! The producer has one waker slot, and so has every consumer: polling a second
//! `send`, or a second `recv` of one consumer, while a first one waits replaces
//! its waker, and the first one is then never woken.
//!
//! A consumer is named by a key, which is live until the consumer is removed. A
//! key is never live for a channel with another label; see
//! [`SpmcBroadcast::labelled`].

use std::marker::PhantomData;
use std::task::{Poll, Waker};

use vstd::prelude::*;

use crate::error::{Closed, TryRecvRefError, TrySendError};
use crate::queue::broadcast_queue::{
    effect_between, BroadcastQueue, BroadcastView, ConsumerKey, Subscription, Ticket,
};
use crate::queue::RecvEffect;
use crate::slots::{lemma_ascending_is, lists_ascending};
use crate::wake::{in_slot, lemma_along_next, wakers_along, wakers_by_key, WakeList};

verus! {

/// Names one subscription to one channel for as long as it lasts.
#[derive(Debug, Clone, Copy, PartialEq, Eq, Hash, Structural)]
pub struct SpmcBroadcastConsumerKey(ConsumerKey);

impl View for SpmcBroadcastConsumerKey {
    type V = Ticket;

    closed spec fn view(&self) -> Ticket {
        self.0@
    }
}

/// A bounded channel with one producer that hands every item to every consumer.
pub struct SpmcBroadcast<T> {
    queue: BroadcastQueue<T, Option<Waker>>,
    producer_waker: Option<Waker>,
    closed: bool,
    wakes: WakeList,
}

/// The state of a broadcast channel.
#[verifier::ext_equal]
#[verifier::reject_recursive_types(T)]
pub struct SpmcState<T> {
    /// What each consumer has still to receive, and the waker of each consumer
    /// that waits for an item.
    pub queue: BroadcastView<T, Option<Waker>>,
    /// How many items were ever queued.
    pub sequence: u64,
    /// The waker of a producer that waits for room.
    pub producer_waker: Option<Waker>,
    /// Whether the channel is closed.
    pub closed: bool,
    /// The wakers that are due, first due first.
    pub wakes: Seq<Waker>,
}

/// The waker slots of the consumers.
pub open spec fn slots_of<T>(queue: BroadcastView<T, Option<Waker>>) -> Map<usize, Option<Waker>> {
    queue.consumers.map_values(|s: Subscription<T, Option<Waker>>| s.context)
}

/// With all waker slots of the consumers empty.
pub open spec fn without_wakers<T>(
    queue: BroadcastView<T, Option<Waker>>,
) -> BroadcastView<T, Option<Waker>> {
    BroadcastView {
        consumers: queue.consumers.map_values(
            |s: Subscription<T, Option<Waker>>| Subscription { context: None, ..s },
        ),
        ..queue
    }
}

impl<T> SpmcState<T> {
    /// An open channel with no consumers, and nobody waiting.
    pub open spec fn fresh(capacity: nat, label: u64) -> Self {
        SpmcState {
            queue: BroadcastView::fresh(capacity, label),
            sequence: 0,
            producer_waker: None,
            closed: false,
            wakes: Seq::empty(),
        }
    }

    /// The key is that of a subscription to this channel that has not ended.
    pub open spec fn has(self, key: Ticket) -> bool {
        self.queue.is_live(key)
    }

    /// What the consumer has still to receive, oldest first.
    pub open spec fn pending(self, key: Ticket) -> Seq<T> {
        self.queue.consumers[key.slot].pending
    }

    /// The consumer's waker slot.
    pub open spec fn slot(self, key: Ticket) -> Option<Waker> {
        self.queue.consumers[key.slot].context
    }

    /// A consumer waits only while there is nothing for it to receive, and
    /// nobody waits for a closed channel.
    pub open spec fn only_idle_consumers_wait(self) -> bool {
        forall|i: usize|
            self.queue.consumers.contains_key(i) && (
            #[trigger] self.queue.consumers[i]).context is Some
                ==> self.queue.consumers[i].pending.len() == 0 && !self.closed
    }

    /// Consumers wait only while there is nothing for them, and the producer
    /// only while there is no room; nobody waits for a closed channel.
    pub open spec fn valid(self) -> bool {
        &&& self.queue.valid()
        &&& self.only_idle_consumers_wait()
        &&& self.producer_waker is Some ==> self.queue.is_full() && !self.closed
    }

    /// An item can be sent now.
    pub open spec fn accepts(self) -> bool {
        !self.closed && !self.queue.is_full()
    }

    /// There is a number left for the next item that is queued.
    pub open spec fn can_count(self) -> bool {
        self.accepts() && !self.queue.is_deserted() ==> self.sequence < u64::MAX
    }

    /// All consumers who wait are made due, in the order of their keys.
    pub open spec fn after_wake_all(self) -> Self {
        SpmcState {
            queue: without_wakers(self.queue),
            wakes: self.wakes + wakers_by_key(slots_of(self.queue)),
            ..self
        }
    }

    /// The producer, if it waits, is made due.
    pub open spec fn after_wake_producer(self) -> Self {
        SpmcState {
            producer_waker: None,
            wakes: self.wakes + in_slot(self.producer_waker),
            ..self
        }
    }

    /// After closing: all who wait are due, the producer last.
    pub open spec fn after_close(self) -> Self {
        SpmcState { closed: true, ..self }.after_wake_all().after_wake_producer()
    }

    /// What an attempt to send `item` returns.
    pub open spec fn send_result(self, item: T) -> Result<(), TrySendError<T>> {
        if self.closed {
            Err(TrySendError::Closed(item))
        } else if self.queue.is_full() {
            Err(TrySendError::Full(item))
        } else {
            Ok(())
        }
    }

    /// After an attempt to send: an item makes all waiting consumers due.
    pub open spec fn after_send(self, item: T) -> Self {
        if self.accepts() {
            SpmcState {
                queue: self.queue.sent(item),
                sequence: if self.queue.is_deserted() {
                    self.sequence
                } else {
                    (self.sequence + 1) as u64
                },
                ..self
            }.after_wake_all()
        } else {
            self
        }
    }

    /// The same with another queue. Room in a full one makes a waiting producer
    /// due.
    pub open spec fn with_queue(self, queue: BroadcastView<T, Option<Waker>>) -> Self {
        let after = SpmcState { queue, ..self };
        if effect_between(self.queue, queue) == RecvEffect::Unblocked {
            after.after_wake_producer()
        } else {
            after
        }
    }

    /// What an attempt of a consumer to receive returns.
    pub open spec fn recv_result(self, key: Ticket) -> Result<Option<T>, Closed> {
        if self.pending(key).len() > 0 {
            Ok(Some(self.pending(key).first()))
        } else if self.closed {
            Err(Closed)
        } else {
            Ok(None)
        }
    }

    /// After an attempt of a consumer to receive.
    pub open spec fn after_recv(self, key: Ticket) -> Self {
        if self.pending(key).len() > 0 {
            self.with_queue(self.queue.received(key.slot))
        } else {
            self
        }
    }

    /// With another waker in a consumer's slot.
    pub open spec fn with_slot(self, key: Ticket, slot: Option<Waker>) -> Self {
        SpmcState { queue: self.queue.with_context(key.slot, slot), ..self }
    }

    /// After a poll of a receive, which waits where there is nothing yet.
    pub open spec fn after_poll_recv(self, key: Ticket, waker: Waker) -> Self {
        if self.recv_result(key) == Ok::<Option<T>, Closed>(None) {
            self.with_slot(key, Some(waker))
        } else {
            self.after_recv(key)
        }
    }

    /// After a receive that no longer waits. A receive of a consumer that was
    /// removed changes nothing, whoever has its slot now.
    pub open spec fn after_release(self, key: Ticket) -> Self {
        if self.has(key) {
            self.with_slot(key, None)
        } else {
            self
        }
    }

    /// After a poll of a send, which waits where there is no room yet.
    pub open spec fn after_poll_send(self, item: T, waker: Waker) -> Self {
        if self.queue.is_full() && !self.closed {
            SpmcState { producer_waker: Some(waker), ..self }
        } else {
            self.after_send(item)
        }
    }

    /// What a poll of a send returns.
    pub open spec fn poll_send_result(self, item: T) -> Poll<Result<(), T>> {
        match self.send_result(item) {
            Ok(_) => Poll::Ready(Ok(())),
            Err(TrySendError::Closed(item)) => Poll::Ready(Err(item)),
            Err(TrySendError::Full(_)) => Poll::Pending,
        }
    }

    /// After a poll for room, which waits where there is none yet.
    pub open spec fn after_poll_ready(self, waker: Waker) -> Self {
        if self.queue.is_full() && !self.closed {
            SpmcState { producer_waker: Some(waker), ..self }
        } else {
            self
        }
    }

    /// What a poll for room returns.
    pub open spec fn poll_ready_result(self) -> Poll<Result<(), Closed>> {
        if self.closed {
            Poll::Ready(Err(Closed))
        } else if self.queue.is_full() {
            Poll::Pending
        } else {
            Poll::Ready(Ok(()))
        }
    }

    /// With the vacant slots above the greatest one in use forgotten.
    pub open spec fn after_shrink(self) -> Self {
        SpmcState { queue: self.queue.shrunk(), ..self }
    }

    /// With one more consumer, who has nothing to receive yet.
    pub open spec fn after_subscribe(self, key: Ticket) -> Self {
        SpmcState { queue: self.queue.subscribed(key.slot, None), ..self }
    }

    /// After one of `receivers` handles that receive, or can add consumers, was
    /// given up: the last one closes the channel.
    pub open spec fn after_receiver_release(self, receivers: nat) -> Self {
        if receivers == 1 {
            self.after_close()
        } else {
            self
        }
    }

    /// Without a consumer.
    pub open spec fn after_unsubscribe(self, key: Ticket) -> Self {
        self.with_queue(self.queue.unsubscribed(key.slot))
    }
}

impl<T> View for SpmcBroadcast<T> {
    type V = SpmcState<T>;

    closed spec fn view(&self) -> SpmcState<T> {
        SpmcState {
            queue: self.queue@,
            sequence: self.queue.sequence(),
            producer_waker: self.producer_waker,
            closed: self.closed,
            wakes: self.wakes@,
        }
    }
}

impl<T> SpmcBroadcast<T> {
    /// The queue is well-formed and the state is valid.
    pub closed spec fn wf(&self) -> bool {
        self.queue.wf() && self@.valid()
    }

    /// The state of a well-formed channel is valid.
    pub proof fn lemma_valid(&self)
        requires
            self.wf(),
        ensures
            self@.valid(),
    {
    }

    /// An open channel for `capacity` items. Which label it has is not promised.
    /// All channels made in this way have the same one, so a key of one of them
    /// can be live for another: where keys of several channels can meet, use
    /// [`Self::labelled`].
    pub fn new(capacity: usize) -> (channel: Self)
        requires
            capacity > 0,
        ensures
            channel.wf(),
            channel@ == SpmcState::<T>::fresh(capacity as nat, channel@.queue.label),
    {
        Self::labelled(capacity, 0)
    }

    /// An open channel for `capacity` items, with a label. A key of a channel
    /// with another label is never live for it.
    pub fn labelled(capacity: usize, label: u64) -> (channel: Self)
        requires
            capacity > 0,
        ensures
            channel.wf(),
            channel@ == SpmcState::<T>::fresh(capacity as nat, label),
    {
        let channel = SpmcBroadcast {
            queue: BroadcastQueue::labelled(capacity, label),
            producer_waker: None,
            closed: false,
            wakes: WakeList::new(),
        };
        proof {
            channel.queue.lemma_valid();
        }
        channel
    }

    /// Whether the channel is closed.
    pub fn is_closed(&self) -> (closed: bool)
        ensures
            closed == self@.closed,
    {
        self.closed
    }

    fn wake_all_consumers(&mut self)
        requires
            old(self).queue.wf(),
        ensures
            final(self).queue.wf(),
            final(self)@ == old(self)@.after_wake_all(),
    {
        let keys = self.queue.consumer_keys();
        let ghost slots = slots_of(old(self)@.queue);
        let mut i: usize = 0;
        proof {
            assert(slots.dom() =~= old(self)@.queue.consumers.dom());
            assert(keys@.take(0) =~= Seq::empty());
            assert(self@.wakes =~= old(self)@.wakes + wakers_along(slots, keys@.take(0)));
        }
        while i < keys.len()
            invariant
                i <= keys.len(),
                lists_ascending(keys@, slots.dom()),
                slots == slots_of(old(self)@.queue),
                self.queue.wf(),
                self@.queue.capacity == old(self)@.queue.capacity,
                self@.queue.free == old(self)@.queue.free,
                self@.queue.next_number == old(self)@.queue.next_number,
                self@.queue.label == old(self)@.queue.label,
                self@.queue.consumers.dom() == slots.dom(),
                self@.sequence == old(self)@.sequence,
                self@.producer_waker == old(self)@.producer_waker,
                self@.closed == old(self)@.closed,
                self@.wakes == old(self)@.wakes + wakers_along(slots, keys@.take(i as int)),
                forall|key: usize|
                    slots.contains_key(key) ==> (#[trigger] self@.queue.consumers[key]).pending
                        == old(self)@.queue.consumers[key].pending
                        && self@.queue.consumers[key].number == old(
                        self,
                    )@.queue.consumers[key].number,
                forall|j: int|
                    0 <= j < i ==> (#[trigger] self@.queue.consumers[keys@[j]]).context is None,
                forall|j: int|
                    i <= j < keys.len() ==> (
                    #[trigger] self@.queue.consumers[keys@[j]]).context == slots[keys@[j]],
            decreases keys.len() - i,
        {
            let key: usize = keys[i];
            assert(keys@.contains(key));
            assert(self@.queue.consumers.contains_key(key));
            let ghost before = self@;
            let context = self.queue.context_at(key);
            let waker = context.take();
            self.wakes.push_slot(waker);
            proof {
                lemma_along_next(slots, keys@, i as int);
                assert(self@.wakes =~= old(self)@.wakes + wakers_along(slots, keys@.take(i + 1)));
                assert(self@.queue.consumers.dom() =~= before.queue.consumers.dom());
            }
            i += 1;
        }
        proof {
            assert(keys@.take(i as int) =~= keys@);
            lemma_ascending_is(keys@, slots.dom());
            assert forall|key: usize| slots.contains_key(key) implies (
            #[trigger] self@.queue.consumers[key]).context is None by {
                assert(keys@.contains(key));
                let j = choose|j: int| 0 <= j < keys.len() && keys@[j] == key;
                assert(self@.queue.consumers[keys@[j]].context is None);
            }
            assert(self@.queue.consumers =~= without_wakers(old(self)@.queue).consumers);
        }
    }

    /// Closes the channel. What is queued can still be received.
    pub fn close(&mut self)
        requires
            old(self).wf(),
        ensures
            final(self).wf(),
            final(self)@ == old(self)@.after_close(),
    {
        self.closed = true;
        self.wake_all_consumers();
        let producer = self.producer_waker.take();
        self.wakes.push_slot(producer);
        proof {
            self.queue.lemma_valid();
        }
    }

    /// Gives unused memory of the queue back. Nothing else changes.
    pub fn shrink_buffer_to_fit(&mut self)
        requires
            old(self).wf(),
        ensures
            final(self).wf(),
            final(self)@ == old(self)@,
    {
        self.queue.shrink_buffer_to_fit();
    }

    /// Gives unused memory of the list of consumers back. Vacant slots above the
    /// greatest one in use are forgotten, and nothing else changes.
    pub fn shrink_consumers_to_fit(&mut self)
        requires
            old(self).wf(),
        ensures
            final(self).wf(),
            final(self)@ == old(self)@.after_shrink(),
    {
        self.queue.shrink_consumers_to_fit();
        proof {
            if old(self)@.queue.is_full() {
                let lagger = choose|key: usize| old(self)@.queue.lags(key);
                assert(self@.queue.lags(lagger));
            }
        }
    }

    /// Gives all unused memory back. Vacant slots above the greatest one in use
    /// are forgotten, and nothing else changes.
    pub fn shrink_to_fit(&mut self)
        requires
            old(self).wf(),
        ensures
            final(self).wf(),
            final(self)@ == old(self)@.after_shrink(),
    {
        self.shrink_buffer_to_fit();
        self.shrink_consumers_to_fit();
    }

    /// Hands the item to every consumer, or says why not and hands it back.
    /// Without consumers the item is dropped.
    pub fn try_send(&mut self, item: T) -> (result: Result<(), TrySendError<T>>)
        requires
            old(self).wf(),
            old(self)@.can_count(),
        ensures
            final(self).wf(),
            old(self)@.closed ==> result == Err::<(), TrySendError<T>>(TrySendError::Closed(item)),
            result == old(self)@.send_result(item),
            final(self)@ == old(self)@.after_send(item),
    {
        if self.closed {
            return Err(TrySendError::Closed(item));
        }
        match self.queue.try_send(item) {
            Ok(()) => {
                self.wake_all_consumers();
                proof {
                    self.queue.lemma_valid();
                }
                Ok(())
            },
            Err(item) => Err(TrySendError::Full(item)),
        }
    }

    /// Whether there is a number left for the next item, where one would be
    /// queued.
    pub fn can_count(&self) -> (possible: bool)
        requires
            self.wf(),
        ensures
            possible == self@.can_count(),
    {
        self.closed || self.queue.is_full() || self.queue.is_deserted() || self.queue.items_sent()
            < u64::MAX
    }

    /// A send that waits for room. Drive it with [`Send::poll`] and end it with
    /// [`Send::release`]. At most one may be waiting.
    pub fn send(&self, item: T) -> (send: Send<T>)
        ensures
            send@ == Some(item),
    {
        Send { item: Some(item) }
    }

    /// Waits until there is room. At most one send may be waiting.
    pub fn poll_ready_send(&mut self, waker: &Waker) -> (result: Poll<Result<(), Closed>>)
        requires
            old(self).wf(),
        ensures
            final(self).wf(),
            result == old(self)@.poll_ready_result(),
            final(self)@ == old(self)@.after_poll_ready(*waker),
    {
        if self.closed {
            return Poll::Ready(Err(Closed));
        }
        if self.queue.is_full() {
            self.producer_waker = Some(waker.clone());
            return Poll::Pending;
        }
        Poll::Ready(Ok(()))
    }

    fn register_consumer_waker(&mut self, id: SpmcBroadcastConsumerKey, waker: &Waker)
        requires
            old(self).wf(),
            old(self)@.has(id@),
            old(self)@.pending(id@).len() == 0,
            !old(self)@.closed,
        ensures
            final(self).wf(),
            final(self)@ == old(self)@.with_slot(id@, Some(*waker)),
    {
        let context = self.queue.consumer_context_mut(id.0);
        *context = Some(waker.clone());
        proof {
            self.queue.lemma_valid();
            lemma_same_fullness(old(self)@, id@, Some(*waker));
        }
    }

    /// Makes a waiting producer due if room was made in a full queue.
    fn notice(&mut self, effect: RecvEffect)
        requires
            old(self).queue.wf(),
        ensures
            final(self).queue.wf(),
            final(self)@ == (if effect == RecvEffect::Unblocked {
                old(self)@.after_wake_producer()
            } else {
                old(self)@
            }),
    {
        if effect == RecvEffect::Unblocked {
            let producer = self.producer_waker.take();
            self.wakes.push_slot(producer);
        }
    }

    /// Adds a consumer. It receives the items that are sent from now on.
    pub fn subscribe_raw(&mut self) -> (id: SpmcBroadcastConsumerKey)
        requires
            old(self).wf(),
        ensures
            final(self).wf(),
            id@ == old(self)@.queue.next_ticket(),
            !old(self)@.queue.consumers.contains_key(id@.slot),
            final(self)@ == old(self)@.after_subscribe(id@),
    {
        let id = self.queue.subscribe_with_context(None);
        proof {
            self.queue.lemma_valid();
            lemma_waiters_stay_idle(old(self)@, self@);
            if old(self)@.queue.is_full() {
                let lagger = choose|key: usize| old(self)@.queue.lags(key);
                assert(self@.queue.lags(lagger));
            }
        }
        SpmcBroadcastConsumerKey(id)
    }

    /// Removes a consumer. Its key is not to be used again.
    pub fn unsubscribe_raw(&mut self, id: SpmcBroadcastConsumerKey)
        requires
            old(self).wf(),
            old(self)@.has(id@),
        ensures
            final(self).wf(),
            final(self)@ == old(self)@.after_unsubscribe(id@),
    {
        let effect = self.queue.unsubscribe(id.0);
        self.notice(effect);
        proof {
            self.queue.lemma_valid();
            lemma_waiters_stay_idle(old(self)@, self@);
        }
    }

    /// Whether the key is that of a subscription to this channel that has not
    /// ended.
    pub fn is_subscribed(&self, id: SpmcBroadcastConsumerKey) -> (subscribed: bool)
        ensures
            subscribed == self@.has(id@),
    {
        self.queue.is_subscribed(id.0)
    }

    /// Adds a consumer, as a handle for this channel. It receives the items
    /// that are sent from now on.
    pub fn subscribe_ref(&mut self) -> (consumer: SpmcBroadcastConsumerRef<T>)
        requires
            old(self).wf(),
        ensures
            final(self).wf(),
            consumer.key() == old(self)@.queue.next_ticket(),
            !old(self)@.queue.consumers.contains_key(consumer.key().slot),
            final(self)@ == old(self)@.after_subscribe(consumer.key()),
    {
        let id = self.subscribe_raw();
        SpmcBroadcastConsumerRef { channel: PhantomData, id }
    }

    /// Shows the consumer's oldest item to the visitor and counts it as
    /// received, or says why not.
    pub fn try_recv_ref_raw<F, R>(
        &mut self,
        id: SpmcBroadcastConsumerKey,
        visitor: F,
    ) -> (result: Result<R, TryRecvRefError<F>>) where F: FnOnce(&T) -> R
        requires
            old(self).wf(),
            old(self)@.has(id@),
            old(self)@.pending(id@).len() > 0 ==> call_requires(
                visitor,
                (&old(self)@.pending(id@).first(),),
            ),
        ensures
            final(self).wf(),
            final(self)@ == old(self)@.after_recv(id@),
            match old(self)@.recv_result(id@) {
                Ok(Some(item)) => result matches Ok(seen) && call_ensures(visitor, (&item,), seen),
                Ok(None) => result == Err::<R, TryRecvRefError<F>>(TryRecvRefError::Empty(visitor)),
                Err(_) => result == Err::<R, TryRecvRefError<F>>(TryRecvRefError::Closed),
            },
    {
        match self.queue.try_recv_ref(id.0, visitor) {
            Ok((seen, effect)) => {
                self.notice(effect);
                proof {
                    self.queue.lemma_valid();
                    lemma_waiters_stay_idle(old(self)@, self@);
                }
                Ok(seen)
            },
            Err(visitor) => {
                if self.closed {
                    Err(TryRecvRefError::Closed)
                } else {
                    Err(TryRecvRefError::Empty(visitor))
                }
            },
        }
    }

    /// A receive of a consumer that waits for an item and shows it to the
    /// visitor. Drive it with [`RecvRef::poll`] and end it with
    /// [`RecvRef::release`]. At most one receive per consumer may be waiting.
    pub fn recv_ref_raw<F>(&self, id: SpmcBroadcastConsumerKey, visitor: F) -> (recv: RecvRef<F>)
        ensures
            recv.key() == id@,
            recv@ == Some(visitor),
    {
        RecvRef { id, visitor: Some(visitor) }
    }

    /// A receive of a consumer that waits for an item. Drive it with
    /// [`Recv::poll`] and end it with [`Recv::release`]. At most one receive
    /// per consumer may be waiting.
    pub fn recv_raw(&self, id: SpmcBroadcastConsumerKey) -> (recv: Recv)
        ensures
            recv.key() == id@,
    {
        Recv { id }
    }

    /// A receive of the consumer, if there is one, no longer waits.
    fn clear_consumer_waker(&mut self, id: SpmcBroadcastConsumerKey)
        requires
            old(self).wf(),
        ensures
            final(self).wf(),
            final(self)@ == old(self)@.after_release(id@),
    {
        if self.queue.is_subscribed(id.0) {
            let context = self.queue.consumer_context_mut(id.0);
            *context = None;
            proof {
                self.queue.lemma_valid();
                lemma_same_fullness(old(self)@, id@, None);
                lemma_waiters_stay_idle(old(self)@, self@);
            }
        }
    }

    /// Hands out the wakers that are due, first due first.
    pub fn take_wakes(&mut self) -> (wakers: Vec<Waker>)
        requires
            old(self).wf(),
        ensures
            final(self).wf(),
            wakers@ == old(self)@.wakes,
            final(self)@ == (SpmcState { wakes: Seq::empty(), ..old(self)@ }),
    {
        self.wakes.take()
    }
}

/// Nobody begins to wait, and nobody who waits gets anything to receive.
proof fn lemma_waiters_stay_idle<T>(before: SpmcState<T>, after: SpmcState<T>)
    requires
        before.only_idle_consumers_wait(),
        after.closed == before.closed,
        forall|i: usize|
            after.queue.consumers.contains_key(i) && (
            #[trigger] after.queue.consumers[i]).context is Some ==> {
                &&& before.queue.consumers.contains_key(i)
                &&& before.queue.consumers[i].context is Some
                &&& after.queue.consumers[i].pending.len()
                    <= before.queue.consumers[i].pending.len()
            },
    ensures
        after.only_idle_consumers_wait(),
{
}

/// A waker slot has no influence on whether there is room.
pub(super) proof fn lemma_same_fullness<T>(state: SpmcState<T>, key: Ticket, slot: Option<Waker>)
    requires
        state.has(key),
    ensures
        state.with_slot(key, slot).queue.is_full() == state.queue.is_full(),
{
    let after = state.with_slot(key, slot).queue;
    if state.queue.is_full() {
        let lagger = choose|k: usize| state.queue.lags(k);
        assert(after.lags(lagger));
    }
    if after.is_full() {
        let lagger = choose|k: usize| after.lags(k);
        assert(state.queue.lags(lagger));
    }
}

impl<T: Clone> SpmcBroadcast<T> {
    /// Takes a clone of the consumer's oldest item. `Ok(None)` says that there
    /// is none yet.
    pub fn try_recv_raw(&mut self, id: SpmcBroadcastConsumerKey) -> (result: Result<
        Option<T>,
        Closed,
    >)
        requires
            old(self).wf(),
            old(self)@.has(id@),
        ensures
            final(self).wf(),
            final(self)@ == old(self)@.after_recv(id@),
            match old(self)@.recv_result(id@) {
                Ok(Some(item)) => result matches Ok(Some(copy)) && cloned(item, copy),
                Ok(None) => result == Ok::<Option<T>, Closed>(None),
                Err(closed) => result == Err::<Option<T>, Closed>(closed),
            },
    {
        match self.queue.try_recv(id.0) {
            Some((item, effect)) => {
                self.notice(effect);
                proof {
                    self.queue.lemma_valid();
                    lemma_waiters_stay_idle(old(self)@, self@);
                }
                Ok(Some(item))
            },
            None => {
                if self.closed {
                    Err(Closed)
                } else {
                    Ok(None)
                }
            },
        }
    }
}

/// A send that waits for room: the item, until it is sent or handed back.
pub struct Send<T> {
    item: Option<T>,
}

impl<T> View for Send<T> {
    type V = Option<T>;

    closed spec fn view(&self) -> Option<T> {
        self.item
    }
}

impl<T> Send<T> {
    /// Sends the item, hands it back when the channel is closed, or waits. Not
    /// to be polled after it was ready.
    pub fn poll(&mut self, channel: &mut SpmcBroadcast<T>, waker: &Waker) -> (result: Poll<
        Result<(), T>,
    >)
        requires
            old(channel).wf(),
            old(channel)@.can_count(),
            old(self)@ is Some,
        ensures
            final(channel).wf(),
            result == old(channel)@.poll_send_result(old(self)@->0),
            final(channel)@ == old(channel)@.after_poll_send(old(self)@->0, *waker),
            final(self)@ == (if result is Pending {
                old(self)@
            } else {
                None
            }),
    {
        let item = self.item.take().unwrap();
        match channel.try_send(item) {
            Ok(()) => {
                channel.producer_waker = None;
                Poll::Ready(Ok(()))
            },
            Err(TrySendError::Closed(item)) => {
                channel.producer_waker = None;
                Poll::Ready(Err(item))
            },
            Err(TrySendError::Full(item)) => {
                self.item = Some(item);
                channel.producer_waker = Some(waker.clone());
                Poll::Pending
            },
        }
    }

    /// Ends the send. It no longer waits.
    pub fn release(self, channel: &mut SpmcBroadcast<T>)
        requires
            old(channel).wf(),
        ensures
            final(channel).wf(),
            final(channel)@ == (SpmcState { producer_waker: None, ..old(channel)@ }),
    {
        channel.producer_waker = None;
    }
}

/// A receive that waits for an item and shows it to a visitor: the visitor,
/// until it was called.
pub struct RecvRef<F> {
    id: SpmcBroadcastConsumerKey,
    visitor: Option<F>,
}

impl<F> View for RecvRef<F> {
    type V = Option<F>;

    closed spec fn view(&self) -> Option<F> {
        self.visitor
    }
}

impl<F> RecvRef<F> {
    /// The key of the consumer.
    pub closed spec fn key(&self) -> Ticket {
        self.id@
    }

    /// Shows the oldest item to the visitor, or waits for one. Not to be polled
    /// after it was ready.
    pub fn poll<T, R>(&mut self, channel: &mut SpmcBroadcast<T>, waker: &Waker) -> (result: Poll<
        Result<R, Closed>,
    >) where F: FnOnce(&T) -> R
        requires
            old(channel).wf(),
            old(channel)@.has(old(self).key()),
            old(self)@ is Some,
            old(channel)@.pending(old(self).key()).len() > 0 ==> call_requires(
                old(self)@->0,
                (&old(channel)@.pending(old(self).key()).first(),),
            ),
        ensures
            final(channel).wf(),
            final(channel)@ == old(channel)@.after_poll_recv(old(self).key(), *waker),
            final(self).key() == old(self).key(),
            final(self)@ == (if result is Pending {
                old(self)@
            } else {
                None
            }),
            match old(channel)@.recv_result(old(self).key()) {
                Ok(Some(item)) => result matches Poll::Ready(Ok(seen)) && call_ensures(
                    old(self)@->0,
                    (&item,),
                    seen,
                ),
                Ok(None) => result is Pending,
                Err(closed) => result == Poll::Ready(Err::<R, Closed>(closed)),
            },
    {
        let visitor = self.visitor.take().unwrap();
        match channel.try_recv_ref_raw(self.id, visitor) {
            Ok(seen) => Poll::Ready(Ok(seen)),
            Err(TryRecvRefError::Closed) => Poll::Ready(Err(Closed)),
            Err(TryRecvRefError::Empty(visitor)) => {
                self.visitor = Some(visitor);
                channel.register_consumer_waker(self.id, waker);
                Poll::Pending
            },
        }
    }

    /// Ends the receive. It no longer waits.
    pub fn release<T>(self, channel: &mut SpmcBroadcast<T>)
        requires
            old(channel).wf(),
        ensures
            final(channel).wf(),
            final(channel)@ == old(channel)@.after_release(self.key()),
    {
        channel.clear_consumer_waker(self.id);
    }
}

/// A receive that waits for an item.
pub struct Recv {
    id: SpmcBroadcastConsumerKey,
}

impl Recv {
    /// The key of the consumer.
    pub closed spec fn key(&self) -> Ticket {
        self.id@
    }

    /// Takes a clone of the oldest item, or waits for one.
    pub fn poll<T: Clone>(&mut self, channel: &mut SpmcBroadcast<T>, waker: &Waker) -> (result:
        Poll<Result<T, Closed>>)
        requires
            old(channel).wf(),
            old(channel)@.has(old(self).key()),
        ensures
            final(channel).wf(),
            final(channel)@ == old(channel)@.after_poll_recv(old(self).key(), *waker),
            final(self).key() == old(self).key(),
            match old(channel)@.recv_result(old(self).key()) {
                Ok(Some(item)) => result matches Poll::Ready(Ok(copy)) && cloned(item, copy),
                Ok(None) => result is Pending,
                Err(closed) => result == Poll::Ready(Err::<T, Closed>(closed)),
            },
    {
        match channel.try_recv_raw(self.id) {
            Ok(Some(item)) => Poll::Ready(Ok(item)),
            Err(closed) => Poll::Ready(Err(closed)),
            Ok(None) => {
                channel.register_consumer_waker(self.id, waker);
                Poll::Pending
            },
        }
    }

    /// Ends the receive. It no longer waits.
    pub fn release<T>(self, channel: &mut SpmcBroadcast<T>)
        requires
            old(channel).wf(),
        ensures
            final(channel).wf(),
            final(channel)@ == old(channel)@.after_release(self.key()),
    {
        channel.clear_consumer_waker(self.id);
    }
}

/// A consumer of a channel that others hold.
pub struct SpmcBroadcastConsumerRef<T> {
    channel: PhantomData<T>,
    id: SpmcBroadcastConsumerKey,
}

impl<T> SpmcBroadcastConsumerRef<T> {
    /// The key of the consumer.
    pub closed spec fn key(&self) -> Ticket {
        self.id@
    }

    /// Shows the oldest item to the visitor and counts it as received, or says
    /// why not.
    pub fn try_recv_ref<F, R>(
        &self,
        channel: &mut SpmcBroadcast<T>,
        visitor: F,
    ) -> (result: Result<R, TryRecvRefError<F>>) where F: FnOnce(&T) -> R
        requires
            old(channel).wf(),
            old(channel)@.has(self.key()),
            old(channel)@.pending(self.key()).len() > 0 ==> call_requires(
                visitor,
                (&old(channel)@.pending(self.key()).first(),),
            ),
        ensures
            final(channel).wf(),
            final(channel)@ == old(channel)@.after_recv(self.key()),
            match old(channel)@.recv_result(self.key()) {
                Ok(Some(item)) => result matches Ok(seen) && call_ensures(visitor, (&item,), seen),
                Ok(None) => result == Err::<R, TryRecvRefError<F>>(TryRecvRefError::Empty(visitor)),
                Err(_) => result == Err::<R, TryRecvRefError<F>>(TryRecvRefError::Closed),
            },
    {
        channel.try_recv_ref_raw(self.id, visitor)
    }

    /// A receive that waits for an item and shows it to the visitor.
    pub fn recv_ref<F>(&mut self, channel: &SpmcBroadcast<T>, visitor: F) -> (recv: RecvRef<F>)
        ensures
            recv.key() == old(self).key(),
            recv@ == Some(visitor),
            final(self).key() == old(self).key(),
    {
        channel.recv_ref_raw(self.id, visitor)
    }

    /// Gives the handle up, which removes the consumer.
    pub fn release(self, channel: &mut SpmcBroadcast<T>)
        requires
            old(channel).wf(),
            old(channel)@.has(self.key()),
        ensures
            final(channel).wf(),
            final(channel)@ == old(channel)@.after_unsubscribe(self.key()),
    {
        channel.unsubscribe_raw(self.id);
    }
}

impl<T: Clone> SpmcBroadcastConsumerRef<T> {
    /// Takes a clone of the oldest item. `Ok(None)` says that there is none
    /// yet.
    pub fn try_recv(&self, channel: &mut SpmcBroadcast<T>) -> (result: Result<Option<T>, Closed>)
        requires
            old(channel).wf(),
            old(channel)@.has(self.key()),
        ensures
            final(channel).wf(),
            final(channel)@ == old(channel)@.after_recv(self.key()),
            match old(channel)@.recv_result(self.key()) {
                Ok(Some(item)) => result matches Ok(Some(copy)) && cloned(item, copy),
                Ok(None) => result == Ok::<Option<T>, Closed>(None),
                Err(closed) => result == Err::<Option<T>, Closed>(closed),
            },
    {
        channel.try_recv_raw(self.id)
    }

    /// A receive that waits for an item.
    pub fn recv(&mut self, channel: &SpmcBroadcast<T>) -> (recv: Recv)
        ensures
            recv.key() == old(self).key(),
            final(self).key() == old(self).key(),
    {
        channel.recv_raw(self.id)
    }
}

/// A channel together with the number of handles that receive from it or can
/// add consumers to it: sources and consumers.
#[verifier::reject_recursive_types(T)]
pub struct Shared<T> {
    pub channel: SpmcBroadcast<T>,
    pub receiver_count: usize,
}

impl<T> Shared<T> {
    /// The channel is well-formed, and it is closed once nobody can receive.
    pub open spec fn wf(&self) -> bool {
        &&& self.channel.wf()
        &&& self.receiver_count == 0 ==> self.channel@.closed
    }

    /// One receiver less. The last one closes the channel.
    fn drop_receiver(&mut self)
        requires
            old(self).wf(),
            old(self).receiver_count > 0,
        ensures
            final(self).wf(),
            final(self).receiver_count == old(self).receiver_count - 1,
            final(self).channel@ == old(self).channel@.after_receiver_release(
                old(self).receiver_count as nat,
            ),
    {
        self.receiver_count = self.receiver_count - 1;
        if self.receiver_count == 0 {
            self.channel.close();
        }
    }
}

/// The right to send through a channel. There is one, and it cannot be copied.
pub struct SpmcBroadcastProducer<T> {
    channel: PhantomData<T>,
}

/// The right to add consumers to a channel. There may be many.
pub struct SpmcBroadcastSource<T> {
    channel: PhantomData<T>,
}

/// A consumer that counts as a receiver.
pub struct SpmcBroadcastConsumer<T> {
    channel: PhantomData<T>,
    id: SpmcBroadcastConsumerKey,
}

/// An open channel for `capacity` items, with its producer and a source. It has
/// the label of the channels that [`SpmcBroadcast::new`] makes.
pub fn broadcast<T>(capacity: usize) -> (parts: (
    Shared<T>,
    SpmcBroadcastProducer<T>,
    SpmcBroadcastSource<T>,
))
    requires
        capacity > 0,
    ensures
        parts.0.wf(),
        parts.0.receiver_count == 1,
        parts.0.channel@ == SpmcState::<T>::fresh(
            capacity as nat,
            parts.0.channel@.queue.label,
        ),
{
    (
        Shared { channel: SpmcBroadcast::new(capacity), receiver_count: 1 },
        SpmcBroadcastProducer { channel: PhantomData },
        SpmcBroadcastSource { channel: PhantomData },
    )
}

impl<T> SpmcBroadcastProducer<T> {
    /// Hands the item to every consumer, or says why not and hands it back.
    pub fn try_send(&self, shared: &mut Shared<T>, item: T) -> (result: Result<
        (),
        TrySendError<T>,
    >)
        requires
            old(shared).wf(),
            old(shared).channel@.can_count(),
        ensures
            final(shared).wf(),
            final(shared).receiver_count == old(shared).receiver_count,
            result == old(shared).channel@.send_result(item),
            final(shared).channel@ == old(shared).channel@.after_send(item),
    {
        shared.channel.try_send(item)
    }

    /// A send that waits for room.
    pub fn send(&mut self, shared: &Shared<T>, item: T) -> (send: Send<T>)
        ensures
            send@ == Some(item),
    {
        shared.channel.send(item)
    }

    /// Waits until there is room.
    pub fn poll_ready(&mut self, shared: &mut Shared<T>, waker: &Waker) -> (result: Poll<
        Result<(), Closed>,
    >)
        requires
            old(shared).wf(),
        ensures
            final(shared).wf(),
            final(shared).receiver_count == old(shared).receiver_count,
            result == old(shared).channel@.poll_ready_result(),
            final(shared).channel@ == old(shared).channel@.after_poll_ready(*waker),
    {
        shared.channel.poll_ready_send(waker)
    }

    /// Hands the item to every consumer after [`Self::poll_ready`] has found
    /// room. A closed channel drops it.
    pub fn start_send(&mut self, shared: &mut Shared<T>, item: T) -> (result: Result<(), Closed>)
        requires
            old(shared).wf(),
            old(shared).channel@.can_count(),
            old(shared).channel@.closed || !old(shared).channel@.queue.is_full(),
        ensures
            final(shared).wf(),
            final(shared).receiver_count == old(shared).receiver_count,
            result == (if old(shared).channel@.closed {
                Err(Closed)
            } else {
                Ok(())
            }),
            final(shared).channel@ == old(shared).channel@.after_send(item),
    {
        match shared.channel.try_send(item) {
            Ok(()) => Ok(()),
            Err(_) => Err(Closed),
        }
    }

    /// Gives unused memory of the queue back. Nothing else changes.
    pub fn shrink_buffer_to_fit(&self, shared: &mut Shared<T>)
        requires
            old(shared).wf(),
        ensures
            final(shared).wf(),
            final(shared).receiver_count == old(shared).receiver_count,
            final(shared).channel@ == old(shared).channel@,
    {
        shared.channel.shrink_buffer_to_fit();
    }

    /// Gives unused memory of the list of consumers back. Vacant slots above the
    /// greatest one in use are forgotten, and nothing else changes.
    pub fn shrink_consumers_to_fit(&self, shared: &mut Shared<T>)
        requires
            old(shared).wf(),
        ensures
            final(shared).wf(),
            final(shared).receiver_count == old(shared).receiver_count,
            final(shared).channel@ == old(shared).channel@.after_shrink(),
    {
        shared.channel.shrink_consumers_to_fit();
    }

    /// Gives all unused memory back. Vacant slots above the greatest one in use
    /// are forgotten, and nothing else changes.
    pub fn shrink_to_fit(&self, shared: &mut Shared<T>)
        requires
            old(shared).wf(),
        ensures
            final(shared).wf(),
            final(shared).receiver_count == old(shared).receiver_count,
            final(shared).channel@ == old(shared).channel@.after_shrink(),
    {
        shared.channel.shrink_to_fit();
    }

    /// Gives the handle up, which closes the channel.
    pub fn release(self, shared: &mut Shared<T>)
        requires
            old(shared).wf(),
        ensures
            final(shared).wf(),
            final(shared).receiver_count == old(shared).receiver_count,
            final(shared).channel@ == old(shared).channel@.after_close(),
    {
        shared.channel.close();
    }
}

impl<T> SpmcBroadcastSource<T> {
    /// Another source of the same channel.
    pub fn clone(&self, shared: &mut Shared<T>) -> (source: Self)
        requires
            old(shared).wf(),
            old(shared).receiver_count < usize::MAX,
        ensures
            final(shared).wf(),
            final(shared).receiver_count == old(shared).receiver_count + 1,
            final(shared).channel == old(shared).channel,
    {
        shared.receiver_count = shared.receiver_count + 1;
        SpmcBroadcastSource { channel: PhantomData }
    }

    /// Adds a consumer. It receives the items that are sent from now on.
    pub fn subscribe(&self, shared: &mut Shared<T>) -> (consumer: SpmcBroadcastConsumer<T>)
        requires
            old(shared).wf(),
            old(shared).receiver_count < usize::MAX,
        ensures
            final(shared).wf(),
            final(shared).receiver_count == old(shared).receiver_count + 1,
            consumer.key() == old(shared).channel@.queue.next_ticket(),
            !old(shared).channel@.queue.consumers.contains_key(consumer.key().slot),
            final(shared).channel@ == old(shared).channel@.after_subscribe(consumer.key()),
    {
        shared.receiver_count = shared.receiver_count + 1;
        let id = shared.channel.subscribe_raw();
        SpmcBroadcastConsumer { channel: PhantomData, id }
    }

    /// Gives the handle up. The last receiver closes the channel.
    pub fn release(self, shared: &mut Shared<T>)
        requires
            old(shared).wf(),
            old(shared).receiver_count > 0,
        ensures
            final(shared).wf(),
            final(shared).receiver_count == old(shared).receiver_count - 1,
            final(shared).channel@ == old(shared).channel@.after_receiver_release(
                old(shared).receiver_count as nat,
            ),
    {
        shared.drop_receiver();
    }
}

impl<T> SpmcBroadcastConsumer<T> {
    /// The key of the consumer.
    pub closed spec fn key(&self) -> Ticket {
        self.id@
    }

    /// Shows the oldest item to the visitor and counts it as received, or says
    /// why not.
    pub fn try_recv_ref<F, R>(&self, shared: &mut Shared<T>, visitor: F) -> (result: Result<
        R,
        TryRecvRefError<F>,
    >) where F: FnOnce(&T) -> R
        requires
            old(shared).wf(),
            old(shared).channel@.has(self.key()),
            old(shared).channel@.pending(self.key()).len() > 0 ==> call_requires(
                visitor,
                (&old(shared).channel@.pending(self.key()).first(),),
            ),
        ensures
            final(shared).wf(),
            final(shared).receiver_count == old(shared).receiver_count,
            final(shared).channel@ == old(shared).channel@.after_recv(self.key()),
            match old(shared).channel@.recv_result(self.key()) {
                Ok(Some(item)) => result matches Ok(seen) && call_ensures(visitor, (&item,), seen),
                Ok(None) => result == Err::<R, TryRecvRefError<F>>(TryRecvRefError::Empty(visitor)),
                Err(_) => result == Err::<R, TryRecvRefError<F>>(TryRecvRefError::Closed),
            },
    {
        shared.channel.try_recv_ref_raw(self.id, visitor)
    }

    /// A receive that waits for an item and shows it to the visitor.
    pub fn recv_ref<F>(&mut self, shared: &Shared<T>, visitor: F) -> (recv: RecvRef<F>)
        ensures
            recv.key() == old(self).key(),
            recv@ == Some(visitor),
            final(self).key() == old(self).key(),
    {
        shared.channel.recv_ref_raw(self.id, visitor)
    }

    /// Gives the handle up, which removes the consumer. The last receiver
    /// closes the channel.
    pub fn release(self, shared: &mut Shared<T>)
        requires
            old(shared).wf(),
            old(shared).receiver_count > 0,
            old(shared).channel@.has(self.key()),
        ensures
            final(shared).wf(),
            final(shared).receiver_count == old(shared).receiver_count - 1,
            final(shared).channel@ == old(shared).channel@.after_unsubscribe(
                self.key(),
            ).after_receiver_release(old(shared).receiver_count as nat),
    {
        shared.channel.unsubscribe_raw(self.id);
        shared.drop_receiver();
    }
}

impl<T: Clone> SpmcBroadcastConsumer<T> {
    /// Takes a clone of the oldest item. `Ok(None)` says that there is none
    /// yet.
    pub fn try_recv(&self, shared: &mut Shared<T>) -> (result: Result<Option<T>, Closed>)
        requires
            old(shared).wf(),
            old(shared).channel@.has(self.key()),
        ensures
            final(shared).wf(),
            final(shared).receiver_count == old(shared).receiver_count,
            final(shared).channel@ == old(shared).channel@.after_recv(self.key()),
            match old(shared).channel@.recv_result(self.key()) {
                Ok(Some(item)) => result matches Ok(Some(copy)) && cloned(item, copy),
                Ok(None) => result == Ok::<Option<T>, Closed>(None),
                Err(closed) => result == Err::<Option<T>, Closed>(closed),
            },
    {
        shared.channel.try_recv_raw(self.id)
    }

    /// A receive that waits for an item.
    pub fn recv(&mut self, shared: &Shared<T>) -> (recv: Recv)
        ensures
            recv.key() == old(self).key(),
            final(self).key() == old(self).key(),
    {
        shared.channel.recv_raw(self.id)
    }

    /// Takes a clone of the oldest item, or waits for one. `None` says that the
    /// channel is closed and every item was received.
    pub fn poll_next(&mut self, shared: &mut Shared<T>, waker: &Waker) -> (result: Poll<Option<T>>)
        requires
            old(shared).wf(),
            old(shared).channel@.has(old(self).key()),
        ensures
            final(self).key() == old(self).key(),
            final(shared).wf(),
            final(shared).receiver_count == old(shared).receiver_count,
            final(shared).channel@ == old(shared).channel@.after_poll_recv(old(self).key(), *waker),
            match old(shared).channel@.recv_result(old(self).key()) {
                Ok(Some(item)) => result matches Poll::Ready(Some(copy)) && cloned(item, copy),
                Ok(None) => result is Pending,
                Err(_) => result == Poll::Ready(None::<T>),
            },
    {
        let mut recv = shared.channel.recv_raw(self.id);
        match recv.poll(&mut shared.channel, waker) {
            Poll::Ready(Ok(item)) => Poll::Ready(Some(item)),
            Poll::Ready(Err(_)) => Poll::Ready(None),
            Poll::Pending => Poll::Pending,
        }
    }
}

} // verus!
