//! A bounded channel with one producer and one consumer.
//!
//! The consumer and the producer have one waker slot each. Polling a second
//! `recv`, or a second `send`, while a first one waits replaces its waker, and
//! the first one is then never woken: at most one of each may be waiting.

use std::marker::PhantomData;
use std::task::{Poll, Waker};

use vstd::prelude::*;

use super::pipe::{Pipe, Step};
pub use crate::error::{Closed, TrySendError};
use crate::queue::bounded_queue::BoundedQueue;
use crate::queue::RecvEffect;
use crate::wake::{in_slot, lemma_due, WakeList};

verus! {

/// A bounded channel with one producer and one consumer.
pub struct SpscChannel<T> {
    queue: BoundedQueue<T>,
    consumer_waker: Option<Waker>,
    producer_waker: Option<Waker>,
    closed: bool,
    wakes: WakeList,
}

/// The state of a channel with one producer and one consumer.
#[verifier::ext_equal]
pub struct SpscState<T> {
    /// What senders and receivers observe.
    pub pipe: Pipe<T>,
    /// The waker of a consumer that waits for an item.
    pub consumer_waker: Option<Waker>,
    /// The waker of a producer that waits for room.
    pub producer_waker: Option<Waker>,
    /// The wakers that are due, first due first.
    pub wakes: Seq<Waker>,
}

impl<T> SpscState<T> {
    /// An open channel with nothing in it, and nobody waiting.
    pub open spec fn fresh(capacity: nat) -> Self {
        SpscState {
            pipe: Pipe::fresh(capacity),
            consumer_waker: None,
            producer_waker: None,
            wakes: Seq::empty(),
        }
    }

    /// A consumer waits only while there is nothing to receive, and a producer
    /// only while there is no room; nobody waits for a closed channel.
    pub open spec fn valid(self) -> bool {
        &&& self.pipe.valid()
        &&& self.consumer_waker is Some ==> self.pipe.is_idle()
        &&& self.producer_waker is Some ==> self.pipe.is_full() && !self.pipe.closed
    }

    /// After closing: both who wait are due.
    pub open spec fn after_close(self) -> Self {
        SpscState {
            pipe: self.pipe.after_close(),
            consumer_waker: None,
            producer_waker: None,
            wakes: self.wakes + in_slot(self.consumer_waker) + in_slot(self.producer_waker),
        }
    }

    /// After an attempt to send: an item makes a waiting consumer due.
    pub open spec fn after_send(self, item: T) -> Self {
        if self.pipe.accepts() {
            SpscState {
                pipe: self.pipe.after_send(item),
                consumer_waker: None,
                wakes: self.wakes + in_slot(self.consumer_waker),
                ..self
            }
        } else {
            self
        }
    }

    /// After an attempt to receive: room in a full queue makes a waiting
    /// producer due.
    pub open spec fn after_recv(self) -> Self {
        let pipe = self.pipe.after_recv();
        if self.pipe.is_full() && !pipe.is_full() {
            SpscState {
                pipe,
                producer_waker: None,
                wakes: self.wakes + in_slot(self.producer_waker),
                ..self
            }
        } else {
            SpscState { pipe, ..self }
        }
    }

    /// After a poll of a receive, which waits where there is nothing yet.
    pub open spec fn after_poll_recv(self, waker: Waker) -> Self {
        if self.pipe.is_idle() {
            SpscState { consumer_waker: Some(waker), ..self }
        } else {
            self.after_recv()
        }
    }

    /// What a poll of a receive returns.
    pub open spec fn poll_recv_result(self) -> Poll<Result<T, Closed>> {
        match self.pipe.recv_result() {
            Ok(Some(item)) => Poll::Ready(Ok(item)),
            Err(closed) => Poll::Ready(Err(closed)),
            Ok(None) => Poll::Pending,
        }
    }

    /// After a poll of a send, which waits where there is no room yet.
    pub open spec fn after_poll_send(self, item: T, waker: Waker) -> Self {
        if self.pipe.send_result(item) is Err && !self.pipe.closed {
            SpscState { producer_waker: Some(waker), ..self }
        } else {
            self.after_send(item)
        }
    }

    /// What a poll of a send returns.
    pub open spec fn poll_send_result(self, item: T) -> Poll<Result<(), T>> {
        match self.pipe.send_result(item) {
            Ok(_) => Poll::Ready(Ok(())),
            Err(TrySendError::Closed(item)) => Poll::Ready(Err(item)),
            Err(TrySendError::Full(_)) => Poll::Pending,
        }
    }

    /// After a poll for room, which waits where there is none yet.
    pub open spec fn after_poll_ready(self, waker: Waker) -> Self {
        if self.pipe.is_full() && !self.pipe.closed {
            SpscState { producer_waker: Some(waker), ..self }
        } else {
            self
        }
    }

    /// What a poll for room returns.
    pub open spec fn poll_ready_result(self) -> Poll<Result<(), Closed>> {
        if self.pipe.closed {
            Poll::Ready(Err(Closed))
        } else if self.pipe.is_full() {
            Poll::Pending
        } else {
            Poll::Ready(Ok(()))
        }
    }
}

impl<T> View for SpscChannel<T> {
    type V = SpscState<T>;

    closed spec fn view(&self) -> SpscState<T> {
        SpscState {
            pipe: Pipe {
                items: self.queue.items(),
                capacity: self.queue.capacity(),
                closed: self.closed,
            },
            consumer_waker: self.consumer_waker,
            producer_waker: self.producer_waker,
            wakes: self.wakes@,
        }
    }
}

impl<T> SpscChannel<T> {
    /// The state is valid.
    pub open spec fn wf(&self) -> bool {
        self@.valid()
    }

    /// An open channel for `capacity` items.
    pub fn new(capacity: usize) -> (channel: Self)
        requires
            capacity > 0,
        ensures
            channel.wf(),
            channel@ == SpscState::<T>::fresh(capacity as nat),
    {
        SpscChannel {
            queue: BoundedQueue::new(capacity),
            consumer_waker: None,
            producer_waker: None,
            closed: false,
            wakes: WakeList::new(),
        }
    }

    /// Closes the channel. What is queued can still be received.
    pub fn close(&mut self)
        requires
            old(self).wf(),
        ensures
            final(self).wf(),
            final(self)@ == old(self)@.after_close(),
    {
        self.closed = true;
        let consumer = self.consumer_waker.take();
        self.wakes.push_slot(consumer);
        let producer = self.producer_waker.take();
        self.wakes.push_slot(producer);
    }

    /// Whether the channel is closed.
    pub fn is_closed(&self) -> (closed: bool)
        ensures
            closed == self@.pipe.closed,
    {
        self.closed
    }

    /// Queues the item, or says why not and hands it back.
    pub fn try_send(&mut self, item: T) -> (result: Result<(), TrySendError<T>>)
        requires
            old(self).wf(),
        ensures
            final(self).wf(),
            old(self)@.pipe.closed ==> result == Err::<(), TrySendError<T>>(
                TrySendError::Closed(item),
            ),
            !old(self)@.pipe.closed && old(self)@.pipe.items.len() >= old(self)@.pipe.capacity
                ==> result == Err::<(), TrySendError<T>>(TrySendError::Full(item)),
            result == old(self)@.pipe.send_result(item),
            final(self)@ == old(self)@.after_send(item),
    {
        if self.closed {
            return Err(TrySendError::Closed(item));
        }
        match self.queue.try_send(item) {
            Ok(()) => {
                let consumer = self.consumer_waker.take();
                self.wakes.push_slot(consumer);
                Ok(())
            },
            Err(item) => Err(TrySendError::Full(item)),
        }
    }

    /// A send that waits for room. Drive it with [`Send::poll`] and end it with
    /// [`Send::release`]. At most one may be waiting.
    pub fn send(&self, item: T) -> (send: Send<T>)
        ensures
            send@ == Some(item),
    {
        Send { item: Some(item) }
    }

    /// Takes the oldest item. `Ok(None)` says that there is none yet.
    pub fn try_recv(&mut self) -> (result: Result<Option<T>, Closed>)
        requires
            old(self).wf(),
        ensures
            final(self).wf(),
            result == old(self)@.pipe.recv_result(),
            final(self)@ == old(self)@.after_recv(),
    {
        match self.queue.try_recv() {
            Some((item, effect)) => {
                if effect == RecvEffect::Unblocked {
                    let producer = self.producer_waker.take();
                    self.wakes.push_slot(producer);
                }
                Ok(Some(item))
            },
            None => {
                if self.closed {
                    Err(Closed)
                } else {
                    Ok(None)
                }
            },
        }
    }

    fn poll_recv_result(&mut self, waker: &Waker) -> (result: Poll<Result<T, Closed>>)
        requires
            old(self).wf(),
        ensures
            final(self).wf(),
            result == old(self)@.poll_recv_result(),
            final(self)@ == old(self)@.after_poll_recv(*waker),
    {
        match self.try_recv() {
            Ok(Some(item)) => Poll::Ready(Ok(item)),
            Err(closed) => Poll::Ready(Err(closed)),
            Ok(None) => {
                self.consumer_waker = Some(waker.clone());
                Poll::Pending
            },
        }
    }

    /// A receive that waits for an item. Drive it with [`Recv::poll`] and end
    /// it with [`Recv::release`]. At most one may be waiting.
    pub fn recv(&self) -> (recv: Recv<T>) {
        Recv { channel: PhantomData }
    }

    /// Takes the oldest item, or waits for one. `None` says that the channel is
    /// closed and drained. At most one receive may be waiting.
    pub fn poll_recv(&mut self, waker: &Waker) -> (result: Poll<Option<T>>)
        requires
            old(self).wf(),
        ensures
            final(self).wf(),
            result == (match old(self)@.poll_recv_result() {
                Poll::Ready(Ok(item)) => Poll::Ready(Some(item)),
                Poll::Ready(Err(_)) => Poll::Ready(None),
                Poll::Pending => Poll::Pending,
            }),
            final(self)@ == old(self)@.after_poll_recv(*waker),
    {
        match self.poll_recv_result(waker) {
            Poll::Ready(Ok(item)) => Poll::Ready(Some(item)),
            Poll::Ready(Err(_)) => Poll::Ready(None),
            Poll::Pending => Poll::Pending,
        }
    }

    /// Waits until there is room. At most one send may be waiting.
    pub fn poll_ready_send(&mut self, waker: &Waker) -> (result: Poll<Result<(), Closed>>)
        requires
            old(self).wf(),
        ensures
            final(self).wf(),
            result == old(self)@.poll_ready_result(),
            final(self)@ == old(self)@.after_poll_ready(*waker),
    {
        if self.closed {
            return Poll::Ready(Err(Closed));
        }
        if self.queue.is_full() {
            self.producer_waker = Some(waker.clone());
            return Poll::Pending;
        }
        Poll::Ready(Ok(()))
    }

    /// Gives unused memory back. Nothing else changes.
    pub fn shrink_to_fit(&mut self)
        requires
            old(self).wf(),
        ensures
            final(self).wf(),
            final(self)@ == old(self)@,
    {
        self.queue.shrink_to_fit();
    }

    /// Hands out the wakers that are due, first due first.
    pub fn take_wakes(&mut self) -> (wakers: Vec<Waker>)
        requires
            old(self).wf(),
        ensures
            final(self).wf(),
            wakers@ == old(self)@.wakes,
            final(self)@ == (SpscState { wakes: Seq::empty(), ..old(self)@ }),
    {
        self.wakes.take()
    }
}

/// A send that waits for room: the item, until it is sent or handed back.
pub struct Send<T> {
    item: Option<T>,
}

impl<T> View for Send<T> {
    type V = Option<T>;

    closed spec fn view(&self) -> Option<T> {
        self.item
    }
}

impl<T> Send<T> {
    /// Sends the item, hands it back when the channel is closed, or waits. Not
    /// to be polled after it was ready.
    pub fn poll(&mut self, channel: &mut SpscChannel<T>, waker: &Waker) -> (result: Poll<
        Result<(), T>,
    >)
        requires
            old(channel).wf(),
            old(self)@ is Some,
        ensures
            final(channel).wf(),
            result == old(channel)@.poll_send_result(old(self)@->0),
            final(channel)@ == old(channel)@.after_poll_send(old(self)@->0, *waker),
            final(self)@ == (if result is Pending {
                old(self)@
            } else {
                None
            }),
    {
        let item = self.item.take().unwrap();
        match channel.try_send(item) {
            Ok(()) => {
                channel.producer_waker = None;
                Poll::Ready(Ok(()))
            },
            Err(TrySendError::Closed(item)) => {
                channel.producer_waker = None;
                Poll::Ready(Err(item))
            },
            Err(TrySendError::Full(item)) => {
                self.item = Some(item);
                channel.producer_waker = Some(waker.clone());
                Poll::Pending
            },
        }
    }

    /// Ends the send. It no longer waits.
    pub fn release(self, channel: &mut SpscChannel<T>)
        requires
            old(channel).wf(),
        ensures
            final(channel).wf(),
            final(channel)@ == (SpscState { producer_waker: None, ..old(channel)@ }),
    {
        channel.producer_waker = None;
    }
}

/// A receive that waits for an item.
pub struct Recv<T> {
    channel: PhantomData<T>,
}

impl<T> Recv<T> {
    /// Takes the oldest item, or waits for one.
    pub fn poll(&mut self, channel: &mut SpscChannel<T>, waker: &Waker) -> (result: Poll<
        Result<T, Closed>,
    >)
        requires
            old(channel).wf(),
        ensures
            final(channel).wf(),
            result == old(channel)@.poll_recv_result(),
            final(channel)@ == old(channel)@.after_poll_recv(*waker),
    {
        channel.poll_recv_result(waker)
    }

    /// Ends the receive. It no longer waits.
    pub fn release(self, channel: &mut SpscChannel<T>)
        requires
            old(channel).wf(),
        ensures
            final(channel).wf(),
            final(channel)@ == (SpscState { consumer_waker: None, ..old(channel)@ }),
    {
        channel.consumer_waker = None;
    }
}

/// The right to send through a channel. There is one, and it cannot be copied.
pub struct SpscChannelProducer<T> {
    channel: PhantomData<T>,
}

/// The right to receive from a channel. There is one, and it cannot be copied.
pub struct SpscChannelConsumer<T> {
    channel: PhantomData<T>,
}

/// An open channel for `capacity` items, with its two handles.
pub fn channel<T>(capacity: usize) -> (parts: (
    SpscChannel<T>,
    SpscChannelProducer<T>,
    SpscChannelConsumer<T>,
))
    requires
        capacity > 0,
    ensures
        parts.0.wf(),
        parts.0@ == SpscState::<T>::fresh(capacity as nat),
{
    (
        SpscChannel::new(capacity),
        SpscChannelProducer { channel: PhantomData },
        SpscChannelConsumer { channel: PhantomData },
    )
}

impl<T> SpscChannelProducer<T> {
    /// Queues the item, or says why not and hands it back.
    pub fn try_send(&self, channel: &mut SpscChannel<T>, item: T) -> (result: Result<
        (),
        TrySendError<T>,
    >)
        requires
            old(channel).wf(),
        ensures
            final(channel).wf(),
            result == old(channel)@.pipe.send_result(item),
            final(channel)@ == old(channel)@.after_send(item),
    {
        channel.try_send(item)
    }

    /// A send that waits for room.
    pub fn send(&mut self, channel: &SpscChannel<T>, item: T) -> (send: Send<T>)
        ensures
            send@ == Some(item),
    {
        channel.send(item)
    }

    /// Waits until there is room.
    pub fn poll_ready(&mut self, channel: &mut SpscChannel<T>, waker: &Waker) -> (result: Poll<
        Result<(), Closed>,
    >)
        requires
            old(channel).wf(),
        ensures
            final(channel).wf(),
            result == old(channel)@.poll_ready_result(),
            final(channel)@ == old(channel)@.after_poll_ready(*waker),
    {
        channel.poll_ready_send(waker)
    }

    /// Queues the item after [`Self::poll_ready`] has found room. A closed
    /// channel drops it.
    pub fn start_send(&mut self, channel: &mut SpscChannel<T>, item: T) -> (result: Result<
        (),
        Closed,
    >)
        requires
            old(channel).wf(),
            old(channel)@.pipe.closed || !old(channel)@.pipe.is_full(),
        ensures
            final(channel).wf(),
            result == (if old(channel)@.pipe.closed {
                Err(Closed)
            } else {
                Ok(())
            }),
            final(channel)@ == old(channel)@.after_send(item),
    {
        match channel.try_send(item) {
            Ok(()) => Ok(()),
            Err(_) => Err(Closed),
        }
    }

    /// Gives unused memory back. Nothing else changes.
    pub fn shrink_to_fit(&self, channel: &mut SpscChannel<T>)
        requires
            old(channel).wf(),
        ensures
            final(channel).wf(),
            final(channel)@ == old(channel)@,
    {
        channel.shrink_to_fit();
    }

    /// Gives the handle up, which closes the channel.
    pub fn release(self, channel: &mut SpscChannel<T>)
        requires
            old(channel).wf(),
        ensures
            final(channel).wf(),
            final(channel)@ == old(channel)@.after_close(),
    {
        channel.close();
    }
}

impl<T> SpscChannelConsumer<T> {
    /// Takes the oldest item. `Ok(None)` says that there is none yet.
    pub fn try_recv(&self, channel: &mut SpscChannel<T>) -> (result: Result<Option<T>, Closed>)
        requires
            old(channel).wf(),
        ensures
            final(channel).wf(),
            result == old(channel)@.pipe.recv_result(),
            final(channel)@ == old(channel)@.after_recv(),
    {
        channel.try_recv()
    }

    /// A receive that waits for an item.
    pub fn recv(&mut self, channel: &SpscChannel<T>) -> (recv: Recv<T>) {
        channel.recv()
    }

    /// Takes the oldest item, or waits for one. `None` says that the channel is
    /// closed and drained.
    pub fn poll_next(&mut self, channel: &mut SpscChannel<T>, waker: &Waker) -> (result: Poll<
        Option<T>,
    >)
        requires
            old(channel).wf(),
        ensures
            final(channel).wf(),
            result == (match old(channel)@.poll_recv_result() {
                Poll::Ready(Ok(item)) => Poll::Ready(Some(item)),
                Poll::Ready(Err(_)) => Poll::Ready(None),
                Poll::Pending => Poll::Pending,
            }),
            final(channel)@ == old(channel)@.after_poll_recv(*waker),
    {
        channel.poll_recv(waker)
    }

    /// Gives the handle up, which closes the channel.
    pub fn release(self, channel: &mut SpscChannel<T>)
        requires
            old(channel).wf(),
        ensures
            final(channel).wf(),
            final(channel)@ == old(channel)@.after_close(),
    {
        channel.close();
    }
}

/// Something that happens to a channel with one producer and one consumer.
pub enum Event<T> {
    /// An attempt to send an item.
    Send(T),
    /// A poll of a send.
    PollSend(T, Waker),
    /// A poll for room.
    PollReady(Waker),
    /// A send ends, whether it was waiting or not.
    EndSend,
    /// An attempt to receive an item.
    Recv,
    /// A poll of a receive.
    PollRecv(Waker),
    /// A receive ends, whether it was waiting or not.
    EndRecv,
    /// Unused memory is given back.
    Shrink,
    /// The channel is closed.
    Close,
}

/// What an event does to the queue, if anything.
pub open spec fn step_of<T>(event: Event<T>) -> Seq<Step<T>> {
    match event {
        Event::Send(item) => seq![Step::Send(item)],
        Event::PollSend(item, _) => seq![Step::Send(item)],
        Event::Recv => seq![Step::Recv],
        Event::PollRecv(_) => seq![Step::Recv],
        Event::Close => seq![Step::Close],
        _ => Seq::empty(),
    }
}

/// What a run of events does to the queue.
pub open spec fn steps_of<T>(events: Seq<Event<T>>) -> Seq<Step<T>>
    decreases events.len(),
{
    if events.len() == 0 {
        Seq::empty()
    } else {
        steps_of(events.drop_last()) + step_of(events.last())
    }
}

/// Where one can wait.
pub enum Place {
    Consumer,
    Producer,
}

impl<T> SpscState<T> {
    /// After one event.
    pub open spec fn after(self, event: Event<T>) -> Self {
        match event {
            Event::Send(item) => self.after_send(item),
            Event::PollSend(item, waker) => self.after_poll_send(item, waker),
            Event::PollReady(waker) => self.after_poll_ready(waker),
            Event::EndSend => SpscState { producer_waker: None, ..self },
            Event::Recv => self.after_recv(),
            Event::PollRecv(waker) => self.after_poll_recv(waker),
            Event::EndRecv => SpscState { consumer_waker: None, ..self },
            Event::Shrink => self,
            Event::Close => self.after_close(),
        }
    }

    /// After a run of events.
    pub open spec fn after_all(self, events: Seq<Event<T>>) -> Self
        decreases events.len(),
    {
        if events.len() == 0 {
            self
        } else {
            self.after_all(events.drop_last()).after(events.last())
        }
    }

    /// The waker in a slot.
    pub open spec fn waiting_at(self, place: Place) -> Option<Waker> {
        match place {
            Place::Consumer => self.consumer_waker,
            Place::Producer => self.producer_waker,
        }
    }

    /// The event takes the waker out of the slot that it waits in without
    /// making it due: the wait ends there, or another waker takes the slot.
    pub open spec fn gives_up(self, event: Event<T>, place: Place, waker: Waker) -> bool {
        self.waiting_at(place) == Some(waker) && match (place, event) {
            (Place::Consumer, Event::EndRecv) => true,
            (Place::Consumer, Event::PollRecv(other)) => other != waker,
            (Place::Producer, Event::EndSend) => true,
            (Place::Producer, Event::PollSend(_, other)) => other != waker,
            (Place::Producer, Event::PollReady(other)) => other != waker,
            _ => false,
        }
    }

    /// No event of the run takes the waker out of its slot without making it
    /// due.
    pub open spec fn keeps_waiting(
        self,
        events: Seq<Event<T>>,
        place: Place,
        waker: Waker,
    ) -> bool
        decreases events.len(),
    {
        events.len() > 0 ==> {
            &&& self.keeps_waiting(events.drop_last(), place, waker)
            &&& !self.after_all(events.drop_last()).gives_up(events.last(), place, waker)
        }
    }
}

/// What senders and receivers observe of a run of events is what happens to the
/// queue; who waits has no influence on it.
pub proof fn law_waiting_does_not_interfere<T>(start: SpscState<T>, events: Seq<Event<T>>)
    ensures
        start.after_all(events).pipe == start.pipe.after_all(steps_of(events)),
    decreases events.len(),
{
    if events.len() > 0 {
        let earlier = steps_of(events.drop_last());
        let step = step_of(events.last());
        law_waiting_does_not_interfere(start, events.drop_last());
        if step.len() > 0 {
            assert((earlier + step).drop_last() =~= earlier);
        }
    }
}

/// Who waits has to: a waiting consumer would receive nothing, and a waiting
/// producer would be refused.
pub proof fn law_only_the_blocked_wait<T>(state: SpscState<T>, item: T)
    requires
        state.valid(),
    ensures
        state.consumer_waker is Some ==> state.pipe.recv_result() == Ok::<Option<T>, Closed>(None),
        state.producer_waker is Some ==> state.pipe.send_result(item) == Err::<
            (),
            TrySendError<T>,
        >(TrySendError::Full(item)),
{
}

/// A waiting consumer is woken by the next item, which it then receives, and by
/// closing, which it is then told of.
pub proof fn law_waiting_consumer_is_woken<T>(state: SpscState<T>, waker: Waker, item: T)
    requires
        state.valid(),
        state.consumer_waker == Some(waker),
    ensures
        state.pipe.send_result(item) is Ok,
        state.after_send(item).wakes == state.wakes.push(waker),
        state.after_send(item).poll_recv_result() == Poll::Ready(Ok::<T, Closed>(item)),
        state.after_close().wakes == state.wakes.push(waker),
        state.after_close().poll_recv_result() == Poll::Ready(Err::<T, Closed>(Closed)),
{
    assert(state.after_send(item).wakes =~= state.wakes.push(waker));
    assert(state.after_close().wakes =~= state.wakes.push(waker));
}

/// A waiting producer is woken by the next receive, after which it can send,
/// and by closing, which hands its item back.
pub proof fn law_waiting_producer_is_woken<T>(state: SpscState<T>, waker: Waker, item: T)
    requires
        state.valid(),
        state.producer_waker == Some(waker),
    ensures
        state.after_recv().wakes == state.wakes.push(waker),
        state.after_recv().poll_send_result(item) == Poll::Ready(Ok::<(), T>(())),
        state.after_close().wakes == state.wakes.push(waker),
        state.after_close().poll_send_result(item) == Poll::Ready(Err::<(), T>(item)),
{
    assert(state.after_recv().wakes =~= state.wakes.push(waker));
    assert(state.after_close().wakes =~= state.wakes.push(waker));
}

/// A waker that waits in a slot stays there until it is due, and what is due
/// stays due until it is taken, whatever else happens to the channel. Left out
/// are only the events that give the waker's own place up: the end of its wait,
/// and another wait in its slot.
pub proof fn law_no_waker_is_lost<T>(
    start: SpscState<T>,
    events: Seq<Event<T>>,
    place: Place,
    waker: Waker,
)
    requires
        start.keeps_waiting(events, place, waker),
        start.waiting_at(place) == Some(waker) || start.wakes.contains(waker),
    ensures
        start.after_all(events).waiting_at(place) == Some(waker) || start.after_all(
            events,
        ).wakes.contains(waker),
    decreases events.len(),
{
    if events.len() > 0 {
        let before = start.after_all(events.drop_last());
        law_no_waker_is_lost(start, events.drop_last(), place, waker);
        let consumer = in_slot(before.consumer_waker);
        let producer = in_slot(before.producer_waker);
        lemma_due(before.wakes, consumer, waker);
        lemma_due(before.wakes, producer, waker);
        lemma_due(before.wakes + consumer, producer, waker);
    }
}

/// There is one waker slot per side: who polls later takes the place of who
/// waited, as if that one had never waited.
pub proof fn law_later_waiter_replaces_the_earlier<T>(
    state: SpscState<T>,
    earlier: Waker,
    later: Waker,
    earlier_item: T,
    later_item: T,
)
    ensures
        state.pipe.is_idle() ==> state.after_poll_recv(earlier).after_poll_recv(later)
            == state.after_poll_recv(later),
        state.pipe.is_full() && !state.pipe.closed ==> {
            &&& state.after_poll_send(earlier_item, earlier).after_poll_send(later_item, later)
                == state.after_poll_send(later_item, later)
            &&& state.after_poll_ready(earlier).after_poll_ready(later) == state.after_poll_ready(
                later,
            )
        },
{
}

/// A poll of a receive waits exactly while the channel is open and empty. It is
/// ready with the oldest item, closed or not, and with `Closed` exactly when the
/// channel is closed and empty.
pub proof fn law_poll_of_receive_is_answered_exactly<T>(state: SpscState<T>)
    ensures
        state.poll_recv_result() is Pending <==> !state.pipe.closed && state.pipe.items.len() == 0,
        state.poll_recv_result() == Poll::Ready(Err::<T, Closed>(Closed)) <==> state.pipe.closed
            && state.pipe.items.len() == 0,
        state.pipe.items.len() > 0 ==> state.poll_recv_result() == Poll::Ready(
            Ok::<T, Closed>(state.pipe.items[0]),
        ),
{
}

/// A poll of a receive that has to wait puts its own waker into the slot of the
/// consumer and changes nothing else. A ready one does what an attempt to
/// receive does.
pub proof fn law_pending_receive_is_registered<T>(state: SpscState<T>, waker: Waker)
    ensures
        state.poll_recv_result() is Pending ==> {
            &&& state.after_poll_recv(waker).consumer_waker == Some(waker)
            &&& state.after_poll_recv(waker) == (SpscState {
                consumer_waker: Some(waker),
                ..state
            })
        },
        state.poll_recv_result() is Ready ==> state.after_poll_recv(waker) == state.after_recv(),
{
}

/// A poll of a send waits exactly while the channel is open and full. It hands
/// the item back exactly when the channel is closed, and has sent it exactly
/// when the channel was open and had room.
pub proof fn law_poll_of_send_is_answered_exactly<T>(state: SpscState<T>, item: T)
    ensures
        state.poll_send_result(item) is Pending <==> !state.pipe.closed && state.pipe.items.len()
            >= state.pipe.capacity,
        state.poll_send_result(item) == Poll::Ready(Err::<(), T>(item)) <==> state.pipe.closed,
        state.poll_send_result(item) == Poll::Ready(Ok::<(), T>(())) <==> !state.pipe.closed
            && state.pipe.items.len() < state.pipe.capacity,
{
}

/// An item that is accepted makes a waiting consumer due, behind those who are
/// due already, and leaves waiting producers alone. A refused one changes
/// nothing.
pub proof fn law_accepted_item_wakes_the_consumer<T>(state: SpscState<T>, item: T)
    ensures
        !state.pipe.closed && state.pipe.items.len() < state.pipe.capacity ==> {
            &&& state.after_send(item).pipe.items == state.pipe.items.push(item)
            &&& state.after_send(item).pipe.closed == state.pipe.closed
            &&& state.after_send(item).pipe.capacity == state.pipe.capacity
            &&& state.after_send(item).consumer_waker is None
            &&& state.after_send(item).wakes == (match state.consumer_waker {
                Some(waker) => state.wakes.push(waker),
                None => state.wakes,
            })
            &&& state.after_send(item).producer_waker == state.producer_waker
        },
        state.pipe.closed || state.pipe.items.len() >= state.pipe.capacity
            ==> state.after_send(item) == state,
{
}

/// A poll of a send that has to wait puts its own waker into the slot of the
/// producer and changes nothing else. A ready one does what an attempt to send
/// does.
pub proof fn law_pending_send_is_registered<T>(state: SpscState<T>, item: T, waker: Waker)
    ensures
        state.poll_send_result(item) is Pending ==> {
            &&& state.after_poll_send(item, waker).producer_waker == Some(waker)
            &&& state.after_poll_send(item, waker) == (SpscState {
                producer_waker: Some(waker),
                ..state
            })
        },
        state.poll_send_result(item) is Ready ==> state.after_poll_send(item, waker)
            == state.after_send(item),
{
}

/// A poll for room is ready exactly when a send would not have to wait. One that
/// has to wait puts its own waker into the slot of the producer, and a ready one
/// changes nothing.
pub proof fn law_poll_for_room_is_answered_exactly<T>(state: SpscState<T>, waker: Waker)
    ensures
        state.poll_ready_result() is Pending <==> !state.pipe.closed && state.pipe.items.len()
            >= state.pipe.capacity,
        state.poll_ready_result() == Poll::Ready(Err::<(), Closed>(Closed)) <==> state.pipe.closed,
        state.poll_ready_result() == Poll::Ready(Ok::<(), Closed>(())) <==> !state.pipe.closed
            && state.pipe.items.len() < state.pipe.capacity,
        state.poll_ready_result() is Pending ==> state.after_poll_ready(waker) == (SpscState {
            producer_waker: Some(waker),
            ..state
        }),
        state.poll_ready_result() is Ready ==> state.after_poll_ready(waker) == state,
{
}

/// A receive takes the oldest item, and a waiting producer is made due by it
/// exactly when the queue was full. A waiting consumer is left alone.
pub proof fn law_room_in_a_full_queue_wakes_the_producer<T>(state: SpscState<T>)
    requires
        0 < state.pipe.capacity,
        state.pipe.items.len() <= state.pipe.capacity,
    ensures
        state.after_recv().pipe == state.pipe.after_recv(),
        state.after_recv().consumer_waker == state.consumer_waker,
        state.pipe.items.len() == state.pipe.capacity ==> {
            &&& state.after_recv().producer_waker is None
            &&& state.after_recv().wakes == (match state.producer_waker {
                Some(waker) => state.wakes.push(waker),
                None => state.wakes,
            })
        },
        state.pipe.items.len() < state.pipe.capacity ==> {
            &&& state.after_recv().producer_waker == state.producer_waker
            &&& state.after_recv().wakes == state.wakes
        },
{
}

/// Closing empties both slots and makes who waited due, the consumer before the
/// producer. What is queued stays. A new channel has nobody waiting.
pub proof fn law_closing_wakes_both_sides<T>(state: SpscState<T>, capacity: nat)
    ensures
        state.after_close().pipe.closed,
        state.after_close().pipe.items == state.pipe.items,
        state.after_close().pipe.capacity == state.pipe.capacity,
        state.after_close().consumer_waker is None,
        state.after_close().producer_waker is None,
        state.after_close().wakes == (match (state.consumer_waker, state.producer_waker) {
            (Some(consumer), Some(producer)) => state.wakes.push(consumer).push(producer),
            (Some(consumer), None) => state.wakes.push(consumer),
            (None, Some(producer)) => state.wakes.push(producer),
            (None, None) => state.wakes,
        }),
        SpscState::<T>::fresh(capacity).pipe == Pipe::<T>::fresh(capacity),
        SpscState::<T>::fresh(capacity).consumer_waker is None,
        SpscState::<T>::fresh(capacity).producer_waker is None,
        SpscState::<T>::fresh(capacity).wakes.len() == 0,
{
}

} // verus!
