//! A bounded channel with many producers and one consumer.
//!
//! The consumer has one waker slot: polling a second `recv` while a first one
//! waits replaces its waker, and the first one is then never woken. Every
//! waiting `send` and every sink has a slot of its own.

use std::marker::PhantomData;
use std::task::{Poll, Waker};

use vstd::prelude::*;

use super::mpsc_channel_sink::MpscChannelSink;
use super::pipe::{Pipe, Step};
pub use crate::error::{Closed, TrySendError};
use crate::handles::{are_held, count_after, lemma_contains_last, Turn};
use crate::queue::bounded_queue::BoundedQueue;
use crate::queue::RecvEffect;
use crate::slots::{
    after_shrink, are_numbered, lemma_ascending_is, lemma_numbered_remove, lemma_numbered_shrink,
    lemma_numbered_use, lists_ascending, Slots,
};
use crate::wake::{
    free_after, in_slot, lemma_along_next, lemma_by_key_holds, lemma_due, slot_for, wakers_along,
    wakers_by_key, WakeList,
};

verus! {

/// A bounded channel with many producers and one consumer.
pub struct MpscChannel<T> {
    queue: BoundedQueue<T>,
    consumer_waker: Option<Waker>,
    producer_wakers: Slots<Option<Waker>>,
    closed: bool,
    wakes: WakeList,
}

/// The state of a channel with many producers and one consumer.
#[verifier::ext_equal]
pub struct MpscState<T> {
    /// What senders and receivers observe.
    pub pipe: Pipe<T>,
    /// The waker of a consumer that waits for an item.
    pub consumer_waker: Option<Waker>,
    /// The slots of the producers that have waited for room. A slot without a
    /// waker belongs to a producer that was made due.
    pub producers: Map<usize, Option<Waker>>,
    /// The slots that were given up, the one that is used next last.
    pub free: Seq<usize>,
    /// The wakers that are due, first due first.
    pub wakes: Seq<Waker>,
}

/// A producer with the slot `key` waits for room.
pub open spec fn waits(producers: Map<usize, Option<Waker>>, key: usize) -> bool {
    producers.contains_key(key) && producers[key] is Some
}

/// A producer with the slot `key` was made due and has not come back.
pub open spec fn was_woken(producers: Map<usize, Option<Waker>>, key: usize) -> bool {
    producers.contains_key(key) && producers[key] is None
}

/// Of those who wait, `key` is the least.
pub open spec fn waits_first(producers: Map<usize, Option<Waker>>, key: usize) -> bool {
    waits(producers, key) && forall|other: usize| waits(producers, other) ==> key <= other
}

impl<T> MpscState<T> {
    /// An open channel with nothing in it, and nobody waiting.
    pub open spec fn fresh(capacity: nat) -> Self {
        MpscState {
            pipe: Pipe::fresh(capacity),
            consumer_waker: None,
            producers: Map::empty(),
            free: Seq::empty(),
            wakes: Seq::empty(),
        }
    }

    /// A consumer waits only while there is nothing to receive. While there is
    /// room, producers wait only where another one was made due, who makes the
    /// next one due when it is done. Nobody waits for a closed channel.
    pub open spec fn valid(self) -> bool {
        &&& self.pipe.valid()
        &&& self.consumer_waker is Some ==> self.pipe.is_idle()
        &&& are_numbered(self.producers.dom(), self.free)
        &&& self.pipe.closed ==> self.producers == Map::<usize, Option<Waker>>::empty()
        &&& self.pipe.accepts() && (exists|key: usize| waits(self.producers, key)) ==> exists|
            key: usize,
        | was_woken(self.producers, key)
    }

    /// After closing: the consumer and all producers who wait are due.
    pub open spec fn after_close(self) -> Self {
        MpscState {
            pipe: self.pipe.after_close(),
            consumer_waker: None,
            producers: Map::empty(),
            free: Seq::empty(),
            wakes: self.wakes + in_slot(self.consumer_waker) + wakers_by_key(self.producers),
        }
    }

    /// After an attempt to send: an item makes a waiting consumer due.
    pub open spec fn after_send(self, item: T) -> Self {
        if self.pipe.accepts() {
            MpscState {
                pipe: self.pipe.after_send(item),
                consumer_waker: None,
                wakes: self.wakes + in_slot(self.consumer_waker),
                ..self
            }
        } else {
            self
        }
    }

    /// The first of the producers who wait, if any, is made due.
    pub open spec fn after_wake_one(self) -> Self {
        if exists|key: usize| waits_first(self.producers, key) {
            let first = choose|key: usize| waits_first(self.producers, key);
            MpscState {
                producers: self.producers.insert(first, None),
                wakes: self.wakes + in_slot(self.producers[first]),
                ..self
            }
        } else {
            self
        }
    }

    /// After an attempt to receive: room in a full queue makes the first of the
    /// waiting producers due.
    pub open spec fn after_recv(self) -> Self {
        let after = MpscState { pipe: self.pipe.after_recv(), ..self };
        if self.pipe.is_full() && !after.pipe.is_full() {
            after.after_wake_one()
        } else {
            after
        }
    }

    /// After a poll of a receive, which waits where there is nothing yet.
    pub open spec fn after_poll_recv(self, waker: Waker) -> Self {
        if self.pipe.is_idle() {
            MpscState { consumer_waker: Some(waker), ..self }
        } else {
            self.after_recv()
        }
    }

    /// What a poll of a receive returns.
    pub open spec fn poll_recv_result(self) -> Poll<Result<T, Closed>> {
        match self.pipe.recv_result() {
            Ok(Some(item)) => Poll::Ready(Ok(item)),
            Err(closed) => Poll::Ready(Err(closed)),
            Ok(None) => Poll::Pending,
        }
    }

    /// The slot that a producer waits in: the one that it has, or else the next
    /// one.
    pub open spec fn slot_for(self, key: Option<usize>) -> usize {
        slot_for(key, self.producers.dom(), self.free)
    }

    /// A producer waits in the slot that it has, or else in the next one.
    pub open spec fn after_wait(self, key: Option<usize>, waker: Waker) -> Self {
        MpscState {
            producers: self.producers.insert(self.slot_for(key), Some(waker)),
            free: free_after(key, self.free),
            ..self
        }
    }

    /// What a poll of a send returns.
    pub open spec fn poll_send_result(self, item: T) -> Poll<Result<(), T>> {
        match self.pipe.send_result(item) {
            Ok(_) => Poll::Ready(Ok(())),
            Err(TrySendError::Closed(item)) => Poll::Ready(Err(item)),
            Err(TrySendError::Full(_)) => Poll::Pending,
        }
    }

    /// A producer gives its slot up. While there is room it makes the first of
    /// those who still wait due.
    pub open spec fn after_unregister(self, key: usize) -> Self {
        let after = MpscState {
            producers: self.producers.remove(key),
            free: self.free.push(key),
            ..self
        };
        if self.pipe.closed {
            self
        } else if self.pipe.is_full() {
            after
        } else {
            after.after_wake_one()
        }
    }

    /// With the vacant slots above the greatest one in use forgotten.
    pub open spec fn after_shrink(self) -> Self {
        MpscState { free: after_shrink(self.producers.dom(), self.free), ..self }
    }

    /// After one of `producers` handles that can send was given up: the last one
    /// closes the channel.
    pub open spec fn after_release(self, producers: nat) -> Self {
        if producers == 1 {
            self.after_close()
        } else {
            self
        }
    }

    /// The slot of a producer that has one is in use, unless closing has
    /// emptied all slots.
    pub open spec fn has_slot(self, key: Option<usize>) -> bool {
        key is Some && !self.pipe.closed ==> self.producers.contains_key(key->0)
    }
}

impl<T> View for MpscChannel<T> {
    type V = MpscState<T>;

    closed spec fn view(&self) -> MpscState<T> {
        MpscState {
            pipe: Pipe {
                items: self.queue.items(),
                capacity: self.queue.capacity(),
                closed: self.closed,
            },
            consumer_waker: self.consumer_waker,
            producers: self.producer_wakers@,
            free: self.producer_wakers.free(),
            wakes: self.wakes@,
        }
    }
}

/// Where somebody waits, somebody waits first.
proof fn lemma_someone_waits_first(producers: Map<usize, Option<Waker>>, key: usize)
    requires
        waits(producers, key),
    ensures
        exists|first: usize| waits_first(producers, first),
    decreases key,
{
    if exists|other: usize| waits(producers, other) && other < key {
        let other = choose|other: usize| waits(producers, other) && other < key;
        lemma_someone_waits_first(producers, other);
    } else {
        assert(waits_first(producers, key));
    }
}

impl<T> MpscChannel<T> {
    /// The state is valid.
    pub open spec fn wf(&self) -> bool {
        self@.valid()
    }

    /// An open channel for `capacity` items.
    pub fn new(capacity: usize) -> (channel: Self)
        requires
            capacity > 0,
        ensures
            channel.wf(),
            channel@ == MpscState::<T>::fresh(capacity as nat),
    {
        MpscChannel {
            queue: BoundedQueue::new(capacity),
            consumer_waker: None,
            producer_wakers: Slots::new(),
            closed: false,
            wakes: WakeList::new(),
        }
    }

    /// Closes the channel. What is queued can still be received.
    pub fn close(&mut self)
        requires
            old(self).wf(),
        ensures
            final(self).wf(),
            final(self)@ == old(self)@.after_close(),
    {
        self.closed = true;
        let consumer = self.consumer_waker.take();
        self.wakes.push_slot(consumer);

        let mut producers = Slots::new();
        core::mem::swap(&mut self.producer_wakers, &mut producers);
        let keys = producers.keys();
        let ghost slots = producers@;
        let ghost before = self@;
        let mut i: usize = 0;
        assert(keys@.take(0) =~= Seq::empty());
        assert(before.wakes + wakers_along(slots, keys@.take(0)) =~= before.wakes);
        while i < keys.len()
            invariant
                i <= keys.len(),
                lists_ascending(keys@, slots.dom()),
                forall|j: int|
                    i <= j < keys.len() ==> producers@.contains_key(#[trigger] keys@[j])
                        && producers@[keys@[j]] == slots[keys@[j]],
                self@ == (MpscState {
                    wakes: before.wakes + wakers_along(slots, keys@.take(i as int)),
                    ..before
                }),
            decreases keys.len() - i,
        {
            let slot = producers.remove(keys[i]);
            self.wakes.push_slot(slot);
            proof {
                lemma_along_next(slots, keys@, i as int);
                assert(before.wakes + wakers_along(slots, keys@.take(i as int)) + in_slot(
                    slots[keys@[i as int]],
                ) =~= before.wakes + wakers_along(slots, keys@.take(i + 1)));
            }
            i += 1;
        }
        proof {
            assert(keys@.take(i as int) =~= keys@);
            lemma_ascending_is(keys@, slots.dom());
        }
    }

    /// Whether the channel is closed.
    pub fn is_closed(&self) -> (closed: bool)
        ensures
            closed == self@.pipe.closed,
    {
        self.closed
    }

    /// Queues the item, or says why not and hands it back.
    pub fn try_send(&mut self, item: T) -> (result: Result<(), TrySendError<T>>)
        requires
            old(self).wf(),
        ensures
            final(self).wf(),
            old(self)@.pipe.closed ==> result == Err::<(), TrySendError<T>>(
                TrySendError::Closed(item),
            ),
            !old(self)@.pipe.closed && old(self)@.pipe.items.len() >= old(self)@.pipe.capacity
                ==> result == Err::<(), TrySendError<T>>(TrySendError::Full(item)),
            result == old(self)@.pipe.send_result(item),
            final(self)@ == old(self)@.after_send(item),
    {
        if self.closed {
            return Err(TrySendError::Closed(item));
        }
        match self.queue.try_send(item) {
            Ok(()) => {
                let consumer = self.consumer_waker.take();
                self.wakes.push_slot(consumer);
                Ok(())
            },
            Err(item) => Err(TrySendError::Full(item)),
        }
    }

    /// A send that waits for room. Drive it with [`Send::poll`] and end it with
    /// [`Send::release`].
    pub fn send(&self, item: T) -> (send: Send<T>)
        ensures
            send@.item == Some(item),
            send@.key is None,
    {
        Send { item: Some(item), waker_key: None }
    }

    fn wake_one_producer(&mut self)
        requires
            old(self)@.producers.dom().finite(),
        ensures
            final(self)@ == old(self)@.after_wake_one(),
            final(self)@.producers.dom() == old(self)@.producers.dom(),
            (exists|key: usize| waits(old(self)@.producers, key)) ==> exists|key: usize|
                was_woken(final(self)@.producers, key),
    {
        let keys = self.producer_wakers.keys();
        let mut i: usize = 0;
        while i < keys.len()
            invariant
                i <= keys.len(),
                self@ == old(self)@,
                lists_ascending(keys@, self@.producers.dom()),
                forall|j: int| 0 <= j < i ==> !waits(self@.producers, #[trigger] keys@[j]),
            decreases keys.len() - i,
        {
            let key: usize = keys[i];
            assert(keys@.contains(key));
            let slot = self.producer_wakers.get_mut(key);
            let waker = slot.take();
            if waker.is_some() {
                self.wakes.push_slot(waker);
                proof {
                    assert(waits(old(self)@.producers, key));
                    assert forall|other: usize| waits(old(self)@.producers, other) implies key
                        <= other by {
                        assert(keys@.contains(other));
                        let j = choose|j: int| 0 <= j < keys.len() && keys@[j] == other;
                    }
                    assert(waits_first(old(self)@.producers, key));
                    let first = choose|k: usize| waits_first(old(self)@.producers, k);
                    assert(first == key);
                    assert(was_woken(self@.producers, key));
                    assert(self@.producers.dom() =~= old(self)@.producers.dom());
                }
                return ;
            }
            assert(self@.producers =~= old(self)@.producers);
            i += 1;
        }
        proof {
            assert forall|key: usize| !waits(self@.producers, key) by {
                if self@.producers.contains_key(key) {
                    assert(keys@.contains(key));
                    let j = choose|j: int| 0 <= j < keys.len() && keys@[j] == key;
                }
            }
        }
    }

    fn register_producer(&mut self, waker: Waker) -> (key: usize)
        ensures
            key == old(self)@.slot_for(None),
            !old(self)@.producers.contains_key(key),
            final(self)@ == old(self)@.after_wait(None, waker),
    {
        self.producer_wakers.insert(Some(waker))
    }

    fn update_producer(&mut self, key: usize, waker: Waker)
        requires
            old(self)@.producers.contains_key(key),
        ensures
            final(self)@ == old(self)@.after_wait(Some(key), waker),
    {
        let slot = self.producer_wakers.get_mut(key);
        *slot = Some(waker);
    }

    /// Waits in the slot `key`, or in a new one.
    pub(crate) fn wait_for_room(&mut self, key: Option<usize>, waker: &Waker) -> (slot: Option<usize>)
        requires
            old(self).wf(),
            old(self)@.pipe.is_full(),
            !old(self)@.pipe.closed,
            old(self)@.has_slot(key),
        ensures
            final(self).wf(),
            slot == Some(old(self)@.slot_for(key)),
            key is None ==> !old(self)@.producers.contains_key(slot->0),
            final(self)@ == old(self)@.after_wait(key, *waker),
            final(self)@.producers.contains_key(slot->0),
            final(self)@.producers[slot->0] == Some(*waker),
    {
        let waker = waker.clone();
        match key {
            Some(key) => {
                self.update_producer(key, waker);
                assert(self@.producers.dom() =~= old(self)@.producers.dom());
                Some(key)
            },
            None => {
                let key: usize = self.register_producer(waker);
                proof {
                    lemma_numbered_use(old(self)@.producers.dom(), old(self)@.free);
                    assert(self@.producers.dom() =~= old(self)@.producers.dom().insert(key));
                }
                Some(key)
            },
        }
    }

    pub(crate) fn unregister_producer(&mut self, key: usize)
        requires
            old(self).wf(),
            old(self)@.has_slot(Some(key)),
        ensures
            final(self).wf(),
            final(self)@ == old(self)@.after_unregister(key),
    {
        if self.closed {
            return ;
        }
        let _ = self.producer_wakers.remove(key);
        proof {
            lemma_numbered_remove(old(self)@.producers.dom(), old(self)@.free, key);
            assert(self@.producers.dom() =~= old(self)@.producers.dom().remove(key));
        }
        if !self.queue.is_full() {
            self.wake_one_producer();
            proof {
                let removed = old(self)@.producers.remove(key);
                if exists|k: usize| waits(self@.producers, k) {
                    let k = choose|k: usize| waits(self@.producers, k);
                    assert(waits(removed, k));
                }
            }
        }
    }

    /// Takes the oldest item. `Ok(None)` says that there is none yet.
    pub fn try_recv(&mut self) -> (result: Result<Option<T>, Closed>)
        requires
            old(self).wf(),
        ensures
            final(self).wf(),
            result == old(self)@.pipe.recv_result(),
            final(self)@ == old(self)@.after_recv(),
    {
        match self.queue.try_recv() {
            Some((item, effect)) => {
                if effect == RecvEffect::Unblocked {
                    self.wake_one_producer();
                    proof {
                        if exists|k: usize| waits(self@.producers, k) {
                            let k = choose|k: usize| waits(self@.producers, k);
                            assert(waits(old(self)@.producers, k));
                        }
                    }
                }
                Ok(Some(item))
            },
            None => {
                if self.closed {
                    Err(Closed)
                } else {
                    Ok(None)
                }
            },
        }
    }

    fn poll_recv_result(&mut self, waker: &Waker) -> (result: Poll<Result<T, Closed>>)
        requires
            old(self).wf(),
        ensures
            final(self).wf(),
            result == old(self)@.poll_recv_result(),
            final(self)@ == old(self)@.after_poll_recv(*waker),
    {
        match self.try_recv() {
            Ok(Some(item)) => Poll::Ready(Ok(item)),
            Err(closed) => Poll::Ready(Err(closed)),
            Ok(None) => {
                self.consumer_waker = Some(waker.clone());
                Poll::Pending
            },
        }
    }

    /// A receive that waits for an item. Drive it with [`Recv::poll`] and end
    /// it with [`Recv::release`]. At most one may be waiting.
    pub fn recv(&self) -> (recv: Recv<T>) {
        Recv { channel: PhantomData }
    }

    /// Takes the oldest item, or waits for one. `None` says that the channel is
    /// closed and drained. At most one receive may be waiting.
    pub fn poll_recv(&mut self, waker: &Waker) -> (result: Poll<Option<T>>)
        requires
            old(self).wf(),
        ensures
            final(self).wf(),
            result == (match old(self)@.poll_recv_result() {
                Poll::Ready(Ok(item)) => Poll::Ready(Some(item)),
                Poll::Ready(Err(_)) => Poll::Ready(None),
                Poll::Pending => Poll::Pending,
            }),
            final(self)@ == old(self)@.after_poll_recv(*waker),
    {
        match self.poll_recv_result(waker) {
            Poll::Ready(Ok(item)) => Poll::Ready(Some(item)),
            Poll::Ready(Err(_)) => Poll::Ready(None),
            Poll::Pending => Poll::Pending,
        }
    }

    /// Gives unused memory of the queue back. Nothing else changes.
    pub fn shrink_buffer_to_fit(&mut self)
        requires
            old(self).wf(),
        ensures
            final(self).wf(),
            final(self)@ == old(self)@,
    {
        self.queue.shrink_to_fit();
    }

    /// Gives unused memory of the producers' slots back. Vacant slots above the
    /// greatest one in use are forgotten, and nothing else changes.
    pub fn shrink_producers_to_fit(&mut self)
        requires
            old(self).wf(),
        ensures
            final(self).wf(),
            final(self)@ == old(self)@.after_shrink(),
    {
        proof {
            lemma_numbered_shrink(self@.producers.dom(), self@.free);
        }
        self.producer_wakers.shrink_to_fit();
    }

    /// Gives all unused memory back. Vacant slots above the greatest one in use
    /// are forgotten, and nothing else changes.
    pub fn shrink_to_fit(&mut self)
        requires
            old(self).wf(),
        ensures
            final(self).wf(),
            final(self)@ == old(self)@.after_shrink(),
    {
        self.shrink_buffer_to_fit();
        self.shrink_producers_to_fit();
    }

    /// Hands out the wakers that are due, first due first.
    pub fn take_wakes(&mut self) -> (wakers: Vec<Waker>)
        requires
            old(self).wf(),
        ensures
            final(self).wf(),
            wakers@ == old(self)@.wakes,
            final(self)@ == (MpscState { wakes: Seq::empty(), ..old(self)@ }),
    {
        self.wakes.take()
    }
}

/// A send that waits for room: the item, until it is sent or handed back, and
/// the slot that it waits in.
pub struct Send<T> {
    item: Option<T>,
    waker_key: Option<usize>,
}

/// What a waiting producer holds.
#[verifier::ext_equal]
pub struct Held<T> {
    /// The item that is not sent yet.
    pub item: Option<T>,
    /// The slot that the producer has waited in.
    pub key: Option<usize>,
}

impl<T> View for Send<T> {
    type V = Held<T>;

    closed spec fn view(&self) -> Held<T> {
        Held { item: self.item, key: self.waker_key }
    }
}

impl<T> Send<T> {
    /// Sends the item, hands it back when the channel is closed, or waits. Not
    /// to be polled after it was ready.
    pub fn poll(&mut self, channel: &mut MpscChannel<T>, waker: &Waker) -> (result: Poll<
        Result<(), T>,
    >)
        requires
            old(channel).wf(),
            old(channel)@.has_slot(old(self)@.key),
            old(self)@.item is Some,
        ensures
            final(channel).wf(),
            final(channel)@.has_slot(final(self)@.key),
            result == old(channel)@.poll_send_result(old(self)@.item->0),
            result is Ready ==> {
                &&& final(self)@ == (Held { item: None, ..old(self)@ })
                &&& final(channel)@ == old(channel)@.after_send(old(self)@.item->0)
            },
            result is Pending ==> {
                &&& final(self)@.item == old(self)@.item
                &&& final(self)@.key == Some(old(channel)@.slot_for(old(self)@.key))
                &&& final(channel)@ == old(channel)@.after_wait(old(self)@.key, *waker)
                &&& final(channel)@.producers.contains_key(final(self)@.key->0)
                &&& final(channel)@.producers[final(self)@.key->0] == Some(*waker)
                &&& old(self)@.key is None ==> !old(channel)@.producers.contains_key(
                    final(self)@.key->0,
                )
            },
    {
        let item = self.item.take().unwrap();
        match channel.try_send(item) {
            Ok(()) => Poll::Ready(Ok(())),
            Err(TrySendError::Closed(item)) => Poll::Ready(Err(item)),
            Err(TrySendError::Full(item)) => {
                self.item = Some(item);
                self.waker_key = channel.wait_for_room(self.waker_key, waker);
                Poll::Pending
            },
        }
    }

    /// Ends the send. It no longer waits.
    pub fn release(self, channel: &mut MpscChannel<T>)
        requires
            old(channel).wf(),
            old(channel)@.has_slot(self@.key),
        ensures
            final(channel).wf(),
            final(channel)@ == (match self@.key {
                Some(key) => old(channel)@.after_unregister(key),
                None => old(channel)@,
            }),
    {
        if let Some(key) = self.waker_key {
            channel.unregister_producer(key);
        }
    }
}

/// A receive that waits for an item.
pub struct Recv<T> {
    channel: PhantomData<T>,
}

impl<T> Recv<T> {
    /// Takes the oldest item, or waits for one.
    pub fn poll(&mut self, channel: &mut MpscChannel<T>, waker: &Waker) -> (result: Poll<
        Result<T, Closed>,
    >)
        requires
            old(channel).wf(),
        ensures
            final(channel).wf(),
            result == old(channel)@.poll_recv_result(),
            final(channel)@ == old(channel)@.after_poll_recv(*waker),
    {
        channel.poll_recv_result(waker)
    }

    /// Ends the receive. It no longer waits.
    pub fn release(self, channel: &mut MpscChannel<T>)
        requires
            old(channel).wf(),
        ensures
            final(channel).wf(),
            final(channel)@ == (MpscState { consumer_waker: None, ..old(channel)@ }),
    {
        channel.consumer_waker = None;
    }
}

/// A channel together with the number of handles that can still send through
/// it: producers and sinks.
pub struct Shared<T> {
    pub channel: MpscChannel<T>,
    pub producers: usize,
}

impl<T> Shared<T> {
    /// The channel is well-formed, and it is closed once nobody can send.
    pub open spec fn wf(&self) -> bool {
        &&& self.channel.wf()
        &&& self.producers == 0 ==> self.channel@.pipe.closed
    }

    /// Closes the channel if only one handle can still send through it.
    pub(crate) fn close_if_last(&mut self)
        requires
            old(self).wf(),
            old(self).producers > 0,
        ensures
            final(self).wf(),
            final(self).producers == old(self).producers,
            final(self).channel@ == old(self).channel@.after_release(old(self).producers as nat),
    {
        if self.producers == 1 {
            self.channel.close();
        }
    }
}

/// The right to send through a channel. There may be many.
pub struct MpscChannelProducer<T> {
    channel: PhantomData<T>,
}

/// The right to receive from a channel. There is one, and it cannot be copied.
pub struct MpscChannelConsumer<T> {
    channel: PhantomData<T>,
}

/// An open channel for `capacity` items, with a producer and the consumer.
pub fn channel<T>(capacity: usize) -> (parts: (
    Shared<T>,
    MpscChannelProducer<T>,
    MpscChannelConsumer<T>,
))
    requires
        capacity > 0,
    ensures
        parts.0.wf(),
        parts.0.producers == 1,
        parts.0.channel@ == MpscState::<T>::fresh(capacity as nat),
{
    (
        Shared { channel: MpscChannel::new(capacity), producers: 1 },
        MpscChannelProducer { channel: PhantomData },
        MpscChannelConsumer { channel: PhantomData },
    )
}

impl<T> MpscChannelProducer<T> {
    /// Another producer of the same channel.
    pub fn clone(&self, shared: &mut Shared<T>) -> (producer: Self)
        requires
            old(shared).wf(),
            0 < old(shared).producers < usize::MAX,
        ensures
            final(shared).wf(),
            final(shared).producers == old(shared).producers + 1,
            final(shared).channel == old(shared).channel,
    {
        shared.producers = shared.producers + 1;
        MpscChannelProducer { channel: PhantomData }
    }

    /// Queues the item, or says why not and hands it back.
    pub fn try_send(&self, shared: &mut Shared<T>, item: T) -> (result: Result<
        (),
        TrySendError<T>,
    >)
        requires
            old(shared).wf(),
        ensures
            final(shared).wf(),
            final(shared).producers == old(shared).producers,
            result == old(shared).channel@.pipe.send_result(item),
            final(shared).channel@ == old(shared).channel@.after_send(item),
    {
        shared.channel.try_send(item)
    }

    /// A send that waits for room.
    pub fn send(&self, shared: &Shared<T>, item: T) -> (send: Send<T>)
        ensures
            send@.item == Some(item),
            send@.key is None,
    {
        shared.channel.send(item)
    }

    /// Gives unused memory of the queue back. Nothing else changes.
    pub fn shrink_buffer_to_fit(&self, shared: &mut Shared<T>)
        requires
            old(shared).wf(),
        ensures
            final(shared).wf(),
            final(shared).producers == old(shared).producers,
            final(shared).channel@ == old(shared).channel@,
    {
        shared.channel.shrink_buffer_to_fit();
    }

    /// Gives unused memory of the producers' slots back. Vacant slots above the
    /// greatest one in use are forgotten, and nothing else changes.
    pub fn shrink_producers_to_fit(&self, shared: &mut Shared<T>)
        requires
            old(shared).wf(),
        ensures
            final(shared).wf(),
            final(shared).producers == old(shared).producers,
            final(shared).channel@ == old(shared).channel@.after_shrink(),
    {
        shared.channel.shrink_producers_to_fit();
    }

    /// Gives all unused memory back. Vacant slots above the greatest one in use
    /// are forgotten, and nothing else changes.
    pub fn shrink_to_fit(&self, shared: &mut Shared<T>)
        requires
            old(shared).wf(),
        ensures
            final(shared).wf(),
            final(shared).producers == old(shared).producers,
            final(shared).channel@ == old(shared).channel@.after_shrink(),
    {
        shared.channel.shrink_to_fit();
    }

    /// Turns the producer into a sink, which counts in its place.
    pub fn into_sink(self) -> (sink: MpscChannelSink<T>)
        ensures
            sink@ == (Held::<T> { item: None, key: None }),
    {
        MpscChannelSink::new()
    }

    /// Gives the handle up. The last one closes the channel.
    pub fn release(self, shared: &mut Shared<T>)
        requires
            old(shared).wf(),
            old(shared).producers > 0,
        ensures
            final(shared).wf(),
            final(shared).producers == old(shared).producers - 1,
            final(shared).channel@ == old(shared).channel@.after_release(
                old(shared).producers as nat,
            ),
    {
        shared.close_if_last();
        shared.producers = shared.producers - 1;
    }
}

impl<T> MpscChannelConsumer<T> {
    /// Takes the oldest item. `Ok(None)` says that there is none yet.
    pub fn try_recv(&self, shared: &mut Shared<T>) -> (result: Result<Option<T>, Closed>)
        requires
            old(shared).wf(),
        ensures
            final(shared).wf(),
            final(shared).producers == old(shared).producers,
            result == old(shared).channel@.pipe.recv_result(),
            final(shared).channel@ == old(shared).channel@.after_recv(),
    {
        shared.channel.try_recv()
    }

    /// A receive that waits for an item.
    pub fn recv(&mut self, shared: &Shared<T>) -> (recv: Recv<T>) {
        shared.channel.recv()
    }

    /// Takes the oldest item, or waits for one. `None` says that the channel is
    /// closed and drained.
    pub fn poll_next(&mut self, shared: &mut Shared<T>, waker: &Waker) -> (result: Poll<Option<T>>)
        requires
            old(shared).wf(),
        ensures
            final(shared).wf(),
            final(shared).producers == old(shared).producers,
            result == (match old(shared).channel@.poll_recv_result() {
                Poll::Ready(Ok(item)) => Poll::Ready(Some(item)),
                Poll::Ready(Err(_)) => Poll::Ready(None),
                Poll::Pending => Poll::Pending,
            }),
            final(shared).channel@ == old(shared).channel@.after_poll_recv(*waker),
    {
        shared.channel.poll_recv(waker)
    }

    /// Gives the handle up, which closes the channel.
    pub fn release(self, shared: &mut Shared<T>)
        requires
            old(shared).wf(),
        ensures
            final(shared).wf(),
            final(shared).producers == old(shared).producers,
            final(shared).channel@ == old(shared).channel@.after_close(),
    {
        shared.channel.close();
    }
}

/// Something that happens to a channel with many producers and one consumer.
///
/// A poll of a send, or of a sink, is an attempt to send or a wait for room.
pub enum Event<T> {
    /// An attempt to send an item.
    Send(T),
    /// A producer waits for room in the slot that it has, or in a new one.
    Wait(Option<usize>, Waker),
    /// A producer gives its slot up, whether it was waiting or not.
    Unregister(usize),
    /// An attempt to receive an item.
    Recv,
    /// A poll of a receive.
    PollRecv(Waker),
    /// A receive ends, whether it was waiting or not.
    EndRecv,
    /// Unused memory is given back.
    Shrink,
    /// The channel is closed.
    Close,
}

/// What an event does to the queue, if anything.
pub open spec fn step_of<T>(event: Event<T>) -> Seq<Step<T>> {
    match event {
        Event::Send(item) => seq![Step::Send(item)],
        Event::Recv => seq![Step::Recv],
        Event::PollRecv(_) => seq![Step::Recv],
        Event::Close => seq![Step::Close],
        _ => Seq::empty(),
    }
}

/// What a run of events does to the queue.
pub open spec fn steps_of<T>(events: Seq<Event<T>>) -> Seq<Step<T>>
    decreases events.len(),
{
    if events.len() == 0 {
        Seq::empty()
    } else {
        steps_of(events.drop_last()) + step_of(events.last())
    }
}

/// Where one can wait: in the slot of the consumer or in that of a producer.
pub enum Place {
    Consumer,
    Producer(usize),
}

impl<T> MpscState<T> {
    /// The event can happen: a producer has the slot that it waits in or gives
    /// up, and a new slot is a vacant one.
    pub open spec fn admits(self, event: Event<T>) -> bool {
        match event {
            Event::Wait(Some(key), _) => self.producers.contains_key(key),
            Event::Wait(None, _) => !self.producers.contains_key(self.slot_for(None)),
            Event::Unregister(key) => self.has_slot(Some(key)),
            _ => true,
        }
    }

    /// After one event.
    pub open spec fn after(self, event: Event<T>) -> Self {
        match event {
            Event::Send(item) => self.after_send(item),
            Event::Wait(key, waker) => self.after_wait(key, waker),
            Event::Unregister(key) => self.after_unregister(key),
            Event::Recv => self.after_recv(),
            Event::PollRecv(waker) => self.after_poll_recv(waker),
            Event::EndRecv => MpscState { consumer_waker: None, ..self },
            Event::Shrink => self.after_shrink(),
            Event::Close => self.after_close(),
        }
    }

    /// After a run of events.
    pub open spec fn after_all(self, events: Seq<Event<T>>) -> Self
        decreases events.len(),
    {
        if events.len() == 0 {
            self
        } else {
            self.after_all(events.drop_last()).after(events.last())
        }
    }

    /// After a run of turns, with `count` handles that can send before it.
    pub open spec fn after_turns(self, count: nat, turns: Seq<Turn<Event<T>>>) -> Self
        decreases turns.len(),
    {
        if turns.len() == 0 {
            self
        } else {
            let before = self.after_turns(count, turns.drop_last());
            match turns.last() {
                Turn::Clone => before,
                Turn::Release => before.after_release(count_after(count, turns.drop_last())),
                Turn::Other(event) => before.after(event),
            }
        }
    }

    /// Every event of the run can happen when its turn comes.
    pub open spec fn admits_all(self, events: Seq<Event<T>>) -> bool
        decreases events.len(),
    {
        events.len() > 0 ==> {
            &&& self.admits_all(events.drop_last())
            &&& self.after_all(events.drop_last()).admits(events.last())
        }
    }

    /// The waker in a slot. A slot that was given up has none.
    pub open spec fn waiting_at(self, place: Place) -> Option<Waker> {
        match place {
            Place::Consumer => self.consumer_waker,
            Place::Producer(key) => if self.producers.contains_key(key) {
                self.producers[key]
            } else {
                None
            },
        }
    }

    /// The event takes the waker out of the slot that it waits in without
    /// making it due: the wait ends there, or another waker takes the slot.
    pub open spec fn gives_up(self, event: Event<T>, place: Place, waker: Waker) -> bool {
        self.waiting_at(place) == Some(waker) && match (place, event) {
            (Place::Consumer, Event::EndRecv) => true,
            (Place::Consumer, Event::PollRecv(other)) => other != waker,
            (Place::Producer(key), Event::Wait(Some(k), other)) => k == key && other != waker,
            (Place::Producer(key), Event::Unregister(k)) => k == key,
            _ => false,
        }
    }

    /// No event of the run takes the waker out of its slot without making it
    /// due.
    pub open spec fn keeps_waiting(
        self,
        events: Seq<Event<T>>,
        place: Place,
        waker: Waker,
    ) -> bool
        decreases events.len(),
    {
        events.len() > 0 ==> {
            &&& self.keeps_waiting(events.drop_last(), place, waker)
            &&& !self.after_all(events.drop_last()).gives_up(events.last(), place, waker)
        }
    }
}

/// What senders and receivers observe of a run of events is what happens to the
/// queue; who waits has no influence on it.
pub proof fn law_waiting_does_not_interfere<T>(start: MpscState<T>, events: Seq<Event<T>>)
    ensures
        start.after_all(events).pipe == start.pipe.after_all(steps_of(events)),
    decreases events.len(),
{
    if events.len() > 0 {
        let earlier = steps_of(events.drop_last());
        let step = step_of(events.last());
        law_waiting_does_not_interfere(start, events.drop_last());
        if step.len() > 0 {
            assert((earlier + step).drop_last() =~= earlier);
        }
    }
}

/// A waiting consumer is woken by the next item, which it then receives, and by
/// closing, which it is then told of.
pub proof fn law_waiting_consumer_is_woken<T>(state: MpscState<T>, waker: Waker, item: T)
    requires
        state.valid(),
        state.consumer_waker == Some(waker),
    ensures
        state.pipe.recv_result() == Ok::<Option<T>, Closed>(None),
        state.pipe.send_result(item) is Ok,
        state.after_send(item).wakes == state.wakes.push(waker),
        state.after_send(item).poll_recv_result() == Poll::Ready(Ok::<T, Closed>(item)),
        state.after_close().wakes.contains(waker),
        state.after_close().poll_recv_result() == Poll::Ready(Err::<T, Closed>(Closed)),
{
    assert(state.after_send(item).wakes =~= state.wakes.push(waker));
    lemma_due(state.wakes, in_slot(Some(waker)), waker);
    lemma_due(state.wakes + in_slot(Some(waker)), wakers_by_key(state.producers), waker);
}

/// When a receive makes room in a full queue for which somebody waits, exactly
/// one of the producers who wait is woken, the first of them, and it can then
/// send.
pub proof fn law_first_waiting_producer_is_woken<T>(state: MpscState<T>, key: usize, item: T)
    requires
        state.valid(),
        state.pipe.is_full(),
        waits(state.producers, key),
    ensures
        exists|first: usize| #[trigger]
            waits_first(state.producers, first) && state.after_recv().wakes == state.wakes.push(
                state.producers[first]->0,
            ) && state.after_recv().producers == state.producers.insert(first, None),
        state.after_recv().poll_send_result(item) == Poll::Ready(Ok::<(), T>(())),
{
    lemma_someone_waits_first(state.producers, key);
}

/// As long as no slot was given up, producers are woken in the order in which
/// they began to wait: who comes later gets a later slot than all who wait, so
/// the first of them stays the first.
pub proof fn law_producers_wait_in_order<T>(
    state: MpscState<T>,
    key: usize,
    first: usize,
    waker: Waker,
)
    requires
        state.valid(),
        state.free.len() == 0,
        state.producers.contains_key(key),
        waits_first(state.producers, first),
        !state.producers.contains_key(state.slot_for(None)),
    ensures
        key < state.slot_for(None),
        state.after_wait(None, waker).free.len() == 0,
        waits_first(state.after_wait(None, waker).producers, first),
{
    let slot = state.slot_for(None);
    assert(state.producers.dom().contains(key));
    assert(state.producers.dom().contains(first));
    let after = state.after_wait(None, waker).producers;
    assert forall|other: usize| waits(after, other) implies first <= other by {
        if other != slot {
            assert(waits(state.producers, other));
        }
    }
    assert(waits(after, first));
}

/// A producer that is done hands the remaining room on: when it gives its slot
/// up while there is room for which somebody else waits, exactly one of those
/// who still wait is woken, the first of them.
pub proof fn law_room_is_handed_on<T>(state: MpscState<T>, key: usize, other: usize)
    requires
        state.valid(),
        state.pipe.accepts(),
        state.producers.contains_key(key),
        waits(state.producers.remove(key), other),
    ensures
        exists|first: usize| #[trigger]
            waits_first(state.producers.remove(key), first) && state.after_unregister(key).wakes
                == state.wakes.push(state.producers[first]->0) && state.after_unregister(
                key,
            ).producers == state.producers.remove(key).insert(first, None),
{
    lemma_someone_waits_first(state.producers.remove(key), other);
}

/// While there is room and somebody waits for it, somebody else was woken and
/// still holds its slot.
pub proof fn law_no_producer_is_stranded<T>(state: MpscState<T>, key: usize)
    requires
        state.valid(),
        state.pipe.accepts(),
        waits(state.producers, key),
    ensures
        exists|other: usize| other != key && was_woken(state.producers, other),
{
    let other = choose|other: usize| was_woken(state.producers, other);
    assert(other != key);
}

/// Closing wakes every producer who waits, and hands its item back.
pub proof fn law_closing_wakes_every_producer<T>(
    state: MpscState<T>,
    key: usize,
    waker: Waker,
    item: T,
)
    requires
        state.valid(),
        state.producers.contains_key(key),
        state.producers[key] == Some(waker),
    ensures
        state.after_close().wakes.contains(waker),
        state.after_close().poll_send_result(item) == Poll::Ready(Err::<(), T>(item)),
{
    lemma_by_key_holds(state.producers, key, waker);
    lemma_due(
        state.wakes + in_slot(state.consumer_waker),
        wakers_by_key(state.producers),
        waker,
    );
}

proof fn lemma_wake_one_loses_no_waker<T>(before: MpscState<T>, place: Place, waker: Waker)
    requires
        before.waiting_at(place) == Some(waker) || before.wakes.contains(waker),
    ensures
        before.after_wake_one().waiting_at(place) == Some(waker)
            || before.after_wake_one().wakes.contains(waker),
        before.after_wake_one().producers.dom() == before.producers.dom(),
{
    if exists|key: usize| waits_first(before.producers, key) {
        let first = choose|key: usize| waits_first(before.producers, key);
        lemma_due(before.wakes, in_slot(before.producers[first]), waker);
    }
}

proof fn lemma_event_loses_no_waker<T>(
    before: MpscState<T>,
    event: Event<T>,
    place: Place,
    waker: Waker,
)
    requires
        before.producers.dom().finite(),
        before.admits(event),
        !before.gives_up(event, place, waker),
        before.waiting_at(place) == Some(waker) || before.wakes.contains(waker),
    ensures
        before.after(event).producers.dom().finite(),
        before.after(event).waiting_at(place) == Some(waker) || before.after(event).wakes.contains(
            waker,
        ),
{
    let consumer = in_slot(before.consumer_waker);
    lemma_due(before.wakes, consumer, waker);
    match event {
        Event::Unregister(key) => {
            let removed = MpscState {
                producers: before.producers.remove(key),
                free: before.free.push(key),
                ..before
            };
            if !before.pipe.closed {
                lemma_wake_one_loses_no_waker(removed, place, waker);
            }
        },
        Event::Close => {
            lemma_due(before.wakes + consumer, wakers_by_key(before.producers), waker);
            if let Place::Producer(key) = place {
                if before.waiting_at(place) == Some(waker) {
                    lemma_by_key_holds(before.producers, key, waker);
                }
            }
        },
        _ => {
            let received = MpscState { pipe: before.pipe.after_recv(), ..before };
            lemma_wake_one_loses_no_waker(received, place, waker);
        },
    }
}

/// A waker that waits in a slot stays there until it is due, and what is due
/// stays due until it is taken, whatever else happens to the channel. Left out
/// are only the events that give the waker's own place up: the end of its wait,
/// and another wait in its slot.
pub proof fn law_no_waker_is_lost<T>(
    start: MpscState<T>,
    events: Seq<Event<T>>,
    place: Place,
    waker: Waker,
)
    requires
        start.producers.dom().finite(),
        start.admits_all(events),
        start.keeps_waiting(events, place, waker),
        start.waiting_at(place) == Some(waker) || start.wakes.contains(waker),
    ensures
        start.after_all(events).producers.dom().finite(),
        start.after_all(events).waiting_at(place) == Some(waker) || start.after_all(
            events,
        ).wakes.contains(waker),
    decreases events.len(),
{
    if events.len() > 0 {
        let earlier = events.drop_last();
        law_no_waker_is_lost(start, earlier, place, waker);
        lemma_event_loses_no_waker(start.after_all(earlier), events.last(), place, waker);
    }
}

/// The consumer has one waker slot: who polls later takes the place of who
/// waited, as if that one had never waited. A producer that polls again in its
/// own slot replaces only its own waker.
pub proof fn law_later_waiter_replaces_the_earlier<T>(
    state: MpscState<T>,
    earlier: Waker,
    later: Waker,
    key: usize,
    other: usize,
)
    ensures
        state.pipe.is_idle() ==> state.after_poll_recv(earlier).after_poll_recv(later)
            == state.after_poll_recv(later),
        state.after_wait(Some(key), earlier).after_wait(Some(key), later) == state.after_wait(
            Some(key),
            later,
        ),
        other != key && state.producers.contains_key(other) ==> state.after_wait(
            Some(key),
            later,
        ).producers[other] == state.producers[other],
{
    assert(state.after_wait(Some(key), earlier).after_wait(Some(key), later).producers
        =~= state.after_wait(Some(key), later).producers);
}

/// Over any run in which handles that can send are cloned and given up, and
/// anything else happens, the channel is closed exactly if it was closed before,
/// or by hand, or no such handle is left. What is queued then can still be
/// received. Giving the consumer up closes it by hand, and so does closing the
/// only sink.
pub proof fn law_last_producer_closes<T>(
    start: MpscState<T>,
    count: nat,
    turns: Seq<Turn<Event<T>>>,
)
    requires
        0 < count,
        are_held(count, turns),
    ensures
        start.after_turns(count, turns).pipe.closed <==> start.pipe.closed || turns.contains(
            Turn::Other(Event::Close),
        ) || count_after(count, turns) == 0,
        start.after_turns(count, turns.push(Turn::Release)).pipe.items == start.after_turns(
            count,
            turns,
        ).pipe.items,
    decreases turns.len(),
{
    assert(turns.push(Turn::Release).drop_last() =~= turns);
    if turns.len() > 0 {
        law_last_producer_closes(start, count, turns.drop_last());
        lemma_contains_last(turns, Turn::Other(Event::Close));
    }
}

/// A poll of a receive waits exactly while the channel is open and empty. It is
/// ready with the oldest item, closed or not, and with `Closed` exactly when the
/// channel is closed and empty.
pub proof fn law_poll_of_receive_is_answered_exactly<T>(state: MpscState<T>)
    ensures
        state.poll_recv_result() is Pending <==> !state.pipe.closed && state.pipe.items.len() == 0,
        state.poll_recv_result() == Poll::Ready(Err::<T, Closed>(Closed)) <==> state.pipe.closed
            && state.pipe.items.len() == 0,
        state.pipe.items.len() > 0 ==> state.poll_recv_result() == Poll::Ready(
            Ok::<T, Closed>(state.pipe.items[0]),
        ),
{
}

/// A poll of a receive that has to wait puts its own waker into the slot of the
/// consumer and changes nothing else. A ready one does what an attempt to
/// receive does.
pub proof fn law_pending_receive_is_registered<T>(state: MpscState<T>, waker: Waker)
    ensures
        state.poll_recv_result() is Pending ==> {
            &&& state.after_poll_recv(waker).consumer_waker == Some(waker)
            &&& state.after_poll_recv(waker) == (MpscState {
                consumer_waker: Some(waker),
                ..state
            })
        },
        state.poll_recv_result() is Ready ==> state.after_poll_recv(waker) == state.after_recv(),
{
}

/// A poll of a send waits exactly while the channel is open and full. It hands
/// the item back exactly when the channel is closed, and has sent it exactly
/// when the channel was open and had room.
pub proof fn law_poll_of_send_is_answered_exactly<T>(state: MpscState<T>, item: T)
    ensures
        state.poll_send_result(item) is Pending <==> !state.pipe.closed && state.pipe.items.len()
            >= state.pipe.capacity,
        state.poll_send_result(item) == Poll::Ready(Err::<(), T>(item)) <==> state.pipe.closed,
        state.poll_send_result(item) == Poll::Ready(Ok::<(), T>(())) <==> !state.pipe.closed
            && state.pipe.items.len() < state.pipe.capacity,
{
}

/// An item that is accepted makes a waiting consumer due, behind those who are
/// due already, and leaves waiting producers alone. A refused one changes
/// nothing.
pub proof fn law_accepted_item_wakes_the_consumer<T>(state: MpscState<T>, item: T)
    ensures
        !state.pipe.closed && state.pipe.items.len() < state.pipe.capacity ==> {
            &&& state.after_send(item).pipe.items == state.pipe.items.push(item)
            &&& state.after_send(item).pipe.closed == state.pipe.closed
            &&& state.after_send(item).pipe.capacity == state.pipe.capacity
            &&& state.after_send(item).consumer_waker is None
            &&& state.after_send(item).wakes == (match state.consumer_waker {
                Some(waker) => state.wakes.push(waker),
                None => state.wakes,
            })
            &&& state.after_send(item).producers == state.producers && state.after_send(
                item,
            ).free == state.free
        },
        state.pipe.closed || state.pipe.items.len() >= state.pipe.capacity
            ==> state.after_send(item) == state,
{
}

/// Whenever a producer comes to wait, the waker of that very poll is in its
/// slot, whether it has waited before or not. A producer that has a slot keeps
/// it, and the slots of all others stay as they are.
pub proof fn law_pending_producer_is_registered<T>(
    state: MpscState<T>,
    key: Option<usize>,
    waker: Waker,
    other: usize,
)
    ensures
        state.after_wait(key, waker).producers.contains_key(state.slot_for(key)),
        state.after_wait(key, waker).producers[state.slot_for(key)] == Some(waker),
        state.after_wait(key, waker).waiting_at(Place::Producer(state.slot_for(key))) == Some(
            waker,
        ),
        key is Some ==> state.slot_for(key) == key->0,
        other != state.slot_for(key) ==> {
            &&& state.after_wait(key, waker).producers.contains_key(other)
                == state.producers.contains_key(other)
            &&& state.producers.contains_key(other) ==> state.after_wait(
                key,
                waker,
            ).producers[other] == state.producers[other]
        },
        state.after_wait(key, waker).pipe == state.pipe,
        state.after_wait(key, waker).consumer_waker == state.consumer_waker,
        state.after_wait(key, waker).wakes == state.wakes,
        key is Some ==> state.after_wait(key, waker).free == state.free,
        key is None && state.free.len() == 0 ==> {
            &&& state.slot_for(key) == state.producers.dom().len() as usize
            &&& state.after_wait(key, waker).free == state.free
        },
        key is None && state.free.len() > 0 ==> {
            &&& state.slot_for(key) == state.free.last()
            &&& state.after_wait(key, waker).free == state.free.drop_last()
        },
{
}

/// A producer that waits a second time, after it was woken and found no room, is
/// woken again by the next receive that makes room, where nobody waits before
/// it.
pub proof fn law_woken_producer_can_wait_again<T>(
    state: MpscState<T>,
    key: Option<usize>,
    waker: Waker,
)
    requires
        0 < state.pipe.capacity == state.pipe.items.len(),
        forall|other: usize|
            state.producers.contains_key(other) && other < state.slot_for(key) ==> (
            #[trigger] state.producers[other]) is None,
    ensures
        state.after_wait(key, waker).after_recv().wakes == state.wakes.push(waker),
{
    let waiting = state.after_wait(key, waker);
    let slot = state.slot_for(key);
    assert(waits(waiting.producers, slot));
    assert forall|other: usize| waits(waiting.producers, other) implies slot <= other by {
        if other != slot {
            assert(state.producers.contains_key(other) && state.producers[other] is Some);
        }
    }
    assert(waits_first(waiting.producers, slot));
    assert(waiting.wakes + in_slot(Some(waker)) =~= state.wakes.push(waker));
}

/// A turn to go on is given to the least slot in which somebody waits: `first`.
/// That slot is emptied and its waker made due, and nothing else changes. Where
/// nobody waits, nothing changes at all.
pub proof fn law_one_producer_is_woken<T>(state: MpscState<T>, key: usize) -> (first: usize)
    ensures
        state.producers.contains_key(key) && state.producers[key] is Some ==> {
            &&& first <= key
            &&& state.producers.contains_key(first)
            &&& state.producers[first] is Some
            &&& forall|other: usize|
                state.producers.contains_key(other) && (
                #[trigger] state.producers[other]) is Some ==> first <= other
            &&& state.after_wake_one() == (MpscState {
                producers: state.producers.insert(first, None),
                wakes: state.wakes.push(state.producers[first]->0),
                ..state
            })
        },
        (forall|other: usize|
            state.producers.contains_key(other) ==> (#[trigger] state.producers[other]) is None)
            ==> state.after_wake_one() == state,
{
    let first = choose|k: usize| waits_first(state.producers, k);
    if state.producers.contains_key(key) && state.producers[key] is Some {
        assert(waits(state.producers, key));
        lemma_someone_waits_first(state.producers, key);
        assert forall|other: usize|
            state.producers.contains_key(other) && (
            #[trigger] state.producers[other]) is Some implies first <= other by {
            assert(waits(state.producers, other));
        }
        assert(state.wakes + in_slot(state.producers[first]) =~= state.wakes.push(
            state.producers[first]->0,
        ));
    }
    if forall|other: usize|
        state.producers.contains_key(other) ==> (#[trigger] state.producers[other]) is None {
        if exists|k: usize| waits_first(state.producers, k) {
            let k = choose|k: usize| waits_first(state.producers, k);
            assert(waits(state.producers, k));
        }
    }
    first
}

/// A receive takes the oldest item, and gives one waiting producer a turn
/// exactly when the queue was full. It leaves a waiting consumer alone.
pub proof fn law_room_in_a_full_queue_is_given_on<T>(state: MpscState<T>)
    requires
        0 < state.pipe.capacity,
        state.pipe.items.len() <= state.pipe.capacity,
    ensures
        state.after_recv().pipe == state.pipe.after_recv(),
        state.after_recv().consumer_waker == state.consumer_waker,
        state.after_recv().free == state.free,
        state.pipe.items.len() == state.pipe.capacity ==> {
            &&& state.after_recv().producers == state.after_wake_one().producers
            &&& state.after_recv().wakes == state.after_wake_one().wakes
        },
        state.pipe.items.len() < state.pipe.capacity ==> {
            &&& state.after_recv().producers == state.producers
            &&& state.after_recv().wakes == state.wakes
        },
{
}

/// A producer that gives its slot up is out of it, and its slot is the next one
/// to be used. While the channel is full nobody is woken for it, and while there
/// is room one of those who still wait is given a turn. A closed channel has no
/// slots to give up.
pub proof fn law_slot_is_given_up<T>(state: MpscState<T>, key: usize)
    ensures
        state.pipe.closed ==> state.after_unregister(key) == state,
        !state.pipe.closed ==> {
            let without = MpscState {
                producers: state.producers.remove(key),
                free: state.free.push(key),
                ..state
            };
            &&& !state.after_unregister(key).producers.contains_key(key)
            &&& state.pipe.items.len() >= state.pipe.capacity ==> state.after_unregister(key)
                == without
            &&& state.pipe.items.len() < state.pipe.capacity ==> state.after_unregister(key)
                == without.after_wake_one()
        },
{
    let without = MpscState {
        producers: state.producers.remove(key),
        free: state.free.push(key),
        ..state
    };
    if exists|k: usize| waits_first(without.producers, k) {
        let first = choose|k: usize| waits_first(without.producers, k);
        assert(waits(without.producers, first));
    }
}

/// Closing empties all slots and makes who waited due, the consumer first and
/// then the producers in the order of their slots. What is queued stays.
pub proof fn law_closing_wakes_all_in_order<T>(state: MpscState<T>)
    ensures
        state.after_close().pipe.closed,
        state.after_close().pipe.items == state.pipe.items,
        state.after_close().pipe.capacity == state.pipe.capacity,
        state.after_close().consumer_waker is None,
        state.after_close().producers == Map::<usize, Option<Waker>>::empty(),
        state.after_close().free == Seq::<usize>::empty(),
        state.after_close().wakes == (match state.consumer_waker {
            Some(waker) => state.wakes.push(waker),
            None => state.wakes,
        }) + wakers_by_key(state.producers),
{
}

/// Shrinking changes nothing but which vacant slots are remembered, and giving a
/// handle up changes nothing unless it is the last one, which closes.
pub proof fn law_shrinking_and_releasing_disturb_nobody<T>(
    state: MpscState<T>,
    producers: nat,
    capacity: nat,
)
    ensures
        state.after_shrink().pipe == state.pipe,
        state.after_shrink().consumer_waker == state.consumer_waker,
        state.after_shrink().producers == state.producers,
        state.after_shrink().wakes == state.wakes,
        state.after_shrink().free == after_shrink(state.producers.dom(), state.free),
        producers != 1 ==> state.after_release(producers) == state,
        state.after_release(1) == state.after_close(),
        MpscState::<T>::fresh(capacity).pipe == Pipe::<T>::fresh(capacity),
        MpscState::<T>::fresh(capacity).consumer_waker is None,
        MpscState::<T>::fresh(capacity).producers == Map::<usize, Option<Waker>>::empty(),
        MpscState::<T>::fresh(capacity).free.len() == 0,
        MpscState::<T>::fresh(capacity).wakes.len() == 0,
{
}

/// A slot that a producer believes to have is in use as long as the channel is
/// open; one without a slot, and any one of a closed channel, asks for nothing.
pub proof fn law_slot_is_had_while_open<T>(state: MpscState<T>, key: usize)
    ensures
        state.has_slot(None),
        state.pipe.closed ==> state.has_slot(Some(key)),
        !state.pipe.closed ==> state.has_slot(Some(key)) == state.producers.contains_key(key),
{
}

} // verus!
