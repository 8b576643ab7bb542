//! A signal with many producers and many consumers that can be closed.
//!
//! Every notification begins a new generation. A consumer keeps the generation
//! that it has seen last in a key of its own, and a waiting observation has a
//! waker slot of its own.

use std::task::{Poll, Waker};

use vstd::prelude::*;

use crate::error::Closed;
use crate::handles::lemma_contains_last;
use crate::slots::{after_shrink, Slots};
use crate::wake::{
    free_after, law_everybody_comes_in_the_order_of_keys, lemma_due, lemma_waiting_holds, slot_for,
    waiting_by_key, WakeList,
};

verus! {

const CLOSED_BIT: u64 = 1;

const STEP_SIZE: u64 = 2;

/// What a consumer has seen of a signal.
pub struct MpmcFiniteLatchedSignalConsumerKey {
    last_generation: u64,
}

impl MpmcFiniteLatchedSignalConsumerKey {
    /// The generation that the consumer has seen last.
    pub closed spec fn last_generation(&self) -> u64 {
        self.last_generation
    }
}

/// A signal with many producers and many consumers that can be closed.
///
/// The lowest bit of `state` says whether it is closed, and the other bits are
/// the generation.
pub struct MpmcFiniteLatchedSignal {
    state: u64,
    wakers: Slots<Waker>,
    wakes: WakeList,
}

/// The state of a signal with many consumers that can be closed.
#[verifier::ext_equal]
pub struct FiniteGenerationState {
    /// Which generation this is. Generations are even.
    pub generation: u64,
    /// Whether the signal is closed.
    pub closed: bool,
    /// The wakers of the observations that have waited, each in its slot.
    pub wakers: Map<usize, Waker>,
    /// The slots that were given up, the one that is used next last.
    pub free: Seq<usize>,
    /// The wakers that are due, first due first.
    pub wakes: Seq<Waker>,
}

impl FiniteGenerationState {
    /// The first generation, open, with nobody waiting.
    pub open spec fn fresh() -> Self {
        FiniteGenerationState {
            generation: 0,
            closed: false,
            wakers: Map::empty(),
            free: Seq::empty(),
            wakes: Seq::empty(),
        }
    }

    /// Generations are even, and finitely many observations have waited.
    pub open spec fn valid(self) -> bool {
        self.generation % 2 == 0 && self.wakers.dom().finite()
    }

    /// There is a generation left for the next notification.
    pub open spec fn can_count(self) -> bool {
        !self.closed ==> self.generation + 2 <= u64::MAX
    }

    /// All who wait are made due, in the order of their slots.
    pub open spec fn after_wake_all(self) -> Self {
        FiniteGenerationState { wakes: self.wakes + waiting_by_key(self.wakers), ..self }
    }

    /// What a notification returns.
    pub open spec fn notify_result(self) -> Result<(), Closed> {
        if self.closed {
            Err(Closed)
        } else {
            Ok(())
        }
    }

    /// After a notification: all who wait are due. A closed signal takes none.
    pub open spec fn after_notify(self) -> Self {
        if self.closed {
            self
        } else {
            FiniteGenerationState {
                generation: (self.generation + 2) as u64,
                ..self
            }.after_wake_all()
        }
    }

    /// After closing: all who wait are due.
    pub open spec fn after_close(self) -> Self {
        FiniteGenerationState { closed: true, ..self }.after_wake_all()
    }

    /// After one of `handles` producers, or of `handles` receivers, was given up:
    /// the last one closes the signal.
    pub open spec fn after_handle_release(self, handles: nat) -> Self {
        if handles == 1 {
            self.after_close()
        } else {
            self
        }
    }

    /// The slot that an observation waits in: the one that it has, or else the
    /// next one.
    pub open spec fn slot_for(self, slot: Option<usize>) -> usize {
        slot_for(slot, self.wakers.dom(), self.free)
    }

    /// An observation waits in the slot that it has, or else in the next one.
    pub open spec fn after_wait(self, slot: Option<usize>, waker: Waker) -> Self {
        FiniteGenerationState {
            wakers: self.wakers.insert(self.slot_for(slot), waker),
            free: free_after(slot, self.free),
            ..self
        }
    }

    /// A slot was given up, where there is one.
    pub open spec fn after_release(self, slot: Option<usize>) -> Self {
        match slot {
            Some(slot) => FiniteGenerationState {
                wakers: self.wakers.remove(slot),
                free: self.free.push(slot),
                ..self
            },
            None => self,
        }
    }

    /// With the vacant slots above the greatest one in use forgotten.
    pub open spec fn after_shrink(self) -> Self {
        FiniteGenerationState { free: after_shrink(self.wakers.dom(), self.free), ..self }
    }

    /// The slot, where there is one, is in use.
    pub open spec fn has_slot(self, slot: Option<usize>) -> bool {
        slot is Some ==> self.wakers.contains_key(slot->0)
    }

    /// What a poll returns to a consumer that has seen a generation last. A
    /// notification comes before the news that the signal is closed.
    pub open spec fn poll_result(self, last_generation: u64) -> Poll<Result<(), Closed>> {
        if self.generation != last_generation {
            Poll::Ready(Ok(()))
        } else if self.closed {
            Poll::Ready(Err(Closed))
        } else {
            Poll::Pending
        }
    }
}

impl View for MpmcFiniteLatchedSignal {
    type V = FiniteGenerationState;

    closed spec fn view(&self) -> FiniteGenerationState {
        FiniteGenerationState {
            generation: (self.state - self.state % 2) as u64,
            closed: self.state % 2 == 1,
            wakers: self.wakers@,
            free: self.wakers.free(),
            wakes: self.wakes@,
        }
    }
}

/// What the two parts of a state are as bits.
proof fn lemma_bits(state: u64)
    ensures
        (state & CLOSED_BIT) == state % 2,
        (state & !CLOSED_BIT) == state - state % 2,
        (state | CLOSED_BIT) == state - state % 2 + 1,
{
    assert((state & 1) == state % 2) by (bit_vector);
    assert((state & !1) == state - state % 2) by (bit_vector);
    assert((state | 1) == state - state % 2 + 1) by (bit_vector);
}

impl Default for MpmcFiniteLatchedSignal {
    fn default() -> (signal: Self)
        ensures
            signal.wf(),
            signal@ == FiniteGenerationState::fresh(),
    {
        Self::new()
    }
}

impl MpmcFiniteLatchedSignal {
    /// The state is valid.
    pub open spec fn wf(&self) -> bool {
        self@.valid()
    }

    /// An open signal that was not notified.
    pub fn new() -> (signal: Self)
        ensures
            signal.wf(),
            signal@ == FiniteGenerationState::fresh(),
    {
        MpmcFiniteLatchedSignal { state: 0, wakers: Slots::new(), wakes: WakeList::new() }
    }

    /// Which generation this is.
    pub fn generation(&self) -> (generation: u64)
        ensures
            generation == self@.generation,
    {
        proof {
            lemma_bits(self.state);
        }
        self.state & !CLOSED_BIT
    }

    /// Whether the signal is closed.
    pub fn is_closed(&self) -> (closed: bool)
        ensures
            closed == self@.closed,
    {
        proof {
            lemma_bits(self.state);
        }
        (self.state & CLOSED_BIT) != 0
    }

    /// Notifies every consumer. A closed signal takes no notification.
    pub fn notify(&mut self) -> (result: Result<(), Closed>)
        requires
            old(self).wf(),
            old(self)@.can_count(),
        ensures
            final(self).wf(),
            result == old(self)@.notify_result(),
            final(self)@ == old(self)@.after_notify(),
    {
        if self.is_closed() {
            return Err(Closed);
        }
        self.state = self.state + STEP_SIZE;
        self.wake_all();
        Ok(())
    }

    /// Closes the signal. Notifications can still be observed.
    pub fn close(&mut self)
        requires
            old(self).wf(),
        ensures
            final(self).wf(),
            final(self)@ == old(self)@.after_close(),
    {
        proof {
            lemma_bits(self.state);
        }
        self.state = self.state | CLOSED_BIT;
        self.wake_all();
    }

    /// A key for a consumer that sees earlier notifications too.
    pub fn subscribe(&self) -> (key: MpmcFiniteLatchedSignalConsumerKey)
        ensures
            key.last_generation() == 0,
    {
        MpmcFiniteLatchedSignalConsumerKey { last_generation: 0 }
    }

    /// A key for a consumer that sees notifications from now on.
    pub fn subscribe_forward(&self) -> (key: MpmcFiniteLatchedSignalConsumerKey)
        ensures
            key.last_generation() == self@.generation,
    {
        MpmcFiniteLatchedSignalConsumerKey { last_generation: self.generation() }
    }

    /// An observation that is ready when the signal is closed, or was notified
    /// after what the key has seen. Drive it with [`Wait::poll`] and end it
    /// with [`Wait::release`].
    pub fn observe<'b>(&self, key: &'b mut MpmcFiniteLatchedSignalConsumerKey) -> (wait: Wait<'b>)
        ensures
            *wait.key == *old(key),
            *final(wait.key) == *final(key),
            wait.waker_key is None,
    {
        Wait { key, waker_key: None }
    }

    /// Gives unused memory back. Vacant slots above the greatest one in use are
    /// forgotten, and nothing else changes.
    pub fn shrink_to_fit(&mut self)
        requires
            old(self).wf(),
        ensures
            final(self).wf(),
            final(self)@ == old(self)@.after_shrink(),
    {
        self.wakers.shrink_to_fit();
    }

    fn wake_all(&mut self)
        ensures
            final(self)@ == old(self)@.after_wake_all(),
    {
        self.wakers.push_all(&mut self.wakes);
    }

    /// Hands out the wakers that are due, first due first.
    pub fn take_wakes(&mut self) -> (wakers: Vec<Waker>)
        requires
            old(self).wf(),
        ensures
            final(self).wf(),
            wakers@ == old(self)@.wakes,
            final(self)@ == (FiniteGenerationState { wakes: Seq::empty(), ..old(self)@ }),
    {
        self.wakes.take()
    }
}

/// An observation that waits for a notification or for the end: the consumer's
/// key, and the slot that the observation waits in.
#[non_exhaustive]
pub struct Wait<'b> {
    pub key: &'b mut MpmcFiniteLatchedSignalConsumerKey,
    pub waker_key: Option<usize>,
}

impl<'b> Wait<'b> {
    /// Observes all notifications since the last observation, or the end, or
    /// waits.
    pub fn poll(&mut self, signal: &mut MpmcFiniteLatchedSignal, waker: &Waker) -> (result: Poll<
        Result<(), Closed>,
    >)
        requires
            old(signal).wf(),
            old(signal)@.has_slot(old(self).waker_key),
        ensures
            final(signal).wf(),
            final(signal)@.has_slot(final(self).waker_key),
            old(self).key.last_generation() != old(signal)@.generation ==> result == Poll::Ready(Ok::<(), Closed>(())),
            result == old(signal)@.poll_result(old(self).key.last_generation()),
            final(self).key.last_generation() == old(signal)@.generation,
            *final(final(self).key) == *final(old(self).key),
            result is Ready ==> {
                &&& final(signal)@ == old(signal)@
                &&& final(self).waker_key == old(self).waker_key
            },
            result is Pending ==> {
                &&& final(self).waker_key == Some(old(signal)@.slot_for(old(self).waker_key))
                &&& final(signal)@ == old(signal)@.after_wait(old(self).waker_key, *waker)
                &&& final(signal)@.waits_in(final(self).waker_key->0, *waker)
                &&& old(self).waker_key is None ==> !old(signal)@.wakers.contains_key(
                    final(self).waker_key->0,
                )
            },
    {
        let generation: u64 = signal.generation();
        if generation != self.key.last_generation {
            self.key.last_generation = generation;
            Poll::Ready(Ok(()))
        } else if signal.is_closed() {
            Poll::Ready(Err(Closed))
        } else {
            self.waker_key = signal.wakers.wait(self.waker_key, waker);
            Poll::Pending
        }
    }

    /// Ends the observation. It no longer waits.
    pub fn release(self, signal: &mut MpmcFiniteLatchedSignal)
        requires
            old(signal).wf(),
            old(signal)@.has_slot(self.waker_key),
        ensures
            final(signal).wf(),
            final(signal)@ == old(signal)@.after_release(self.waker_key),
            *final(self.key) == *old(self.key),
    {
        if let Some(key) = self.waker_key {
            let _ = signal.wakers.remove(key);
        }
    }
}

/// A signal together with the number of its producers, and of the handles that
/// observe it or can add consumers to it: sources and consumers.
pub struct Shared {
    pub signal: MpmcFiniteLatchedSignal,
    pub producer_count: usize,
    pub receiver_count: usize,
}

impl Shared {
    /// The signal is well-formed, and it is closed once nobody can notify or
    /// nobody can observe.
    pub open spec fn wf(&self) -> bool {
        &&& self.signal.wf()
        &&& self.producer_count == 0 || self.receiver_count == 0 ==> self.signal@.closed
    }

    /// One receiver less. The last one closes the signal.
    fn drop_receiver(&mut self)
        requires
            old(self).wf(),
            old(self).receiver_count > 0,
        ensures
            final(self).wf(),
            final(self).producer_count == old(self).producer_count,
            final(self).receiver_count == old(self).receiver_count - 1,
            final(self).signal@ == old(self).signal@.after_handle_release(
                old(self).receiver_count as nat,
            ),
    {
        self.receiver_count = self.receiver_count - 1;
        if self.receiver_count == 0 {
            self.signal.close();
        }
    }
}

/// The right to notify. There may be many.
#[non_exhaustive]
pub struct MpmcFiniteLatchedSignalProducer {}

/// The right to add consumers. There may be many.
#[non_exhaustive]
pub struct MpmcFiniteLatchedSignalSource {}

/// A consumer with its key.
pub struct MpmcFiniteLatchedSignalConsumer {
    key: MpmcFiniteLatchedSignalConsumerKey,
}

/// An open signal that was not notified, with a producer and a source.
pub fn signal() -> (parts: (
    Shared,
    MpmcFiniteLatchedSignalProducer,
    MpmcFiniteLatchedSignalSource,
))
    ensures
        parts.0.wf(),
        parts.0.producer_count == 1,
        parts.0.receiver_count == 1,
        parts.0.signal@ == FiniteGenerationState::fresh(),
{
    (
        Shared { signal: MpmcFiniteLatchedSignal::new(), producer_count: 1, receiver_count: 1 },
        MpmcFiniteLatchedSignalProducer {  },
        MpmcFiniteLatchedSignalSource {  },
    )
}

impl MpmcFiniteLatchedSignalSource {
    /// Another source of the same signal.
    pub fn clone(&self, shared: &mut Shared) -> (source: Self)
        requires
            old(shared).wf(),
            old(shared).receiver_count < usize::MAX,
        ensures
            final(shared).wf(),
            final(shared).producer_count == old(shared).producer_count,
            final(shared).receiver_count == old(shared).receiver_count + 1,
            final(shared).signal == old(shared).signal,
    {
        shared.receiver_count = shared.receiver_count + 1;
        MpmcFiniteLatchedSignalSource {  }
    }

    /// A consumer that sees earlier notifications too.
    pub fn subscribe(&self, shared: &mut Shared) -> (consumer: MpmcFiniteLatchedSignalConsumer)
        requires
            old(shared).wf(),
            old(shared).receiver_count < usize::MAX,
        ensures
            final(shared).wf(),
            final(shared).producer_count == old(shared).producer_count,
            final(shared).receiver_count == old(shared).receiver_count + 1,
            final(shared).signal == old(shared).signal,
            consumer.last_generation() == 0,
    {
        shared.receiver_count = shared.receiver_count + 1;
        MpmcFiniteLatchedSignalConsumer { key: shared.signal.subscribe() }
    }

    /// A consumer that sees notifications from now on.
    pub fn subscribe_forward(&self, shared: &mut Shared) -> (consumer:
        MpmcFiniteLatchedSignalConsumer)
        requires
            old(shared).wf(),
            old(shared).receiver_count < usize::MAX,
        ensures
            final(shared).wf(),
            final(shared).producer_count == old(shared).producer_count,
            final(shared).receiver_count == old(shared).receiver_count + 1,
            final(shared).signal == old(shared).signal,
            consumer.last_generation() == old(shared).signal@.generation,
    {
        shared.receiver_count = shared.receiver_count + 1;
        MpmcFiniteLatchedSignalConsumer { key: shared.signal.subscribe_forward() }
    }

    /// Gives the handle up. The last receiver closes the signal.
    pub fn release(self, shared: &mut Shared)
        requires
            old(shared).wf(),
            old(shared).receiver_count > 0,
        ensures
            final(shared).wf(),
            final(shared).producer_count == old(shared).producer_count,
            final(shared).receiver_count == old(shared).receiver_count - 1,
            final(shared).signal@ == old(shared).signal@.after_handle_release(
                old(shared).receiver_count as nat,
            ),
    {
        shared.drop_receiver();
    }
}

impl MpmcFiniteLatchedSignalProducer {
    /// Another producer of the same signal.
    pub fn clone(&self, shared: &mut Shared) -> (producer: Self)
        requires
            old(shared).wf(),
            old(shared).producer_count < usize::MAX,
        ensures
            final(shared).wf(),
            final(shared).producer_count == old(shared).producer_count + 1,
            final(shared).receiver_count == old(shared).receiver_count,
            final(shared).signal == old(shared).signal,
    {
        shared.producer_count = shared.producer_count + 1;
        MpmcFiniteLatchedSignalProducer {  }
    }

    /// Notifies every consumer. A closed signal takes no notification.
    pub fn notify(&self, shared: &mut Shared) -> (result: Result<(), Closed>)
        requires
            old(shared).wf(),
            old(shared).signal@.can_count(),
        ensures
            final(shared).wf(),
            final(shared).producer_count == old(shared).producer_count,
            final(shared).receiver_count == old(shared).receiver_count,
            result == old(shared).signal@.notify_result(),
            final(shared).signal@ == old(shared).signal@.after_notify(),
    {
        shared.signal.notify()
    }

    /// Closes the signal.
    pub fn close(&self, shared: &mut Shared)
        requires
            old(shared).wf(),
        ensures
            final(shared).wf(),
            final(shared).producer_count == old(shared).producer_count,
            final(shared).receiver_count == old(shared).receiver_count,
            final(shared).signal@ == old(shared).signal@.after_close(),
    {
        shared.signal.close();
    }

    /// Gives the handle up. The last one closes the signal.
    pub fn release(self, shared: &mut Shared)
        requires
            old(shared).wf(),
            old(shared).producer_count > 0,
        ensures
            final(shared).wf(),
            final(shared).producer_count == old(shared).producer_count - 1,
            final(shared).receiver_count == old(shared).receiver_count,
            final(shared).signal@ == old(shared).signal@.after_handle_release(
                old(shared).producer_count as nat,
            ),
    {
        shared.producer_count = shared.producer_count - 1;
        if shared.producer_count == 0 {
            shared.signal.close();
        }
    }
}

impl MpmcFiniteLatchedSignalConsumer {
    /// The generation that the consumer has seen last.
    pub closed spec fn last_generation(&self) -> u64 {
        self.key.last_generation()
    }

    /// An observation that is ready when the signal is closed, or was notified
    /// after what the consumer has seen.
    pub fn observe<'b>(&'b mut self, shared: &Shared) -> (wait: Wait<'b>)
        ensures
            wait.key.last_generation() == old(self).last_generation(),
            final(wait.key).last_generation() == final(self).last_generation(),
            wait.waker_key is None,
    {
        shared.signal.observe(&mut self.key)
    }

    /// Like [`Self::observe`], with earlier notifications put aside.
    pub fn observe_forward<'b>(&'b mut self, shared: &Shared) -> (wait: Wait<'b>)
        ensures
            wait.key.last_generation() == shared.signal@.generation,
            final(wait.key).last_generation() == final(self).last_generation(),
            wait.waker_key is None,
    {
        self.key.last_generation = shared.signal.generation();
        shared.signal.observe(&mut self.key)
    }

    /// Gives the handle up. The last receiver closes the signal.
    pub fn release(self, shared: &mut Shared)
        requires
            old(shared).wf(),
            old(shared).receiver_count > 0,
        ensures
            final(shared).wf(),
            final(shared).producer_count == old(shared).producer_count,
            final(shared).receiver_count == old(shared).receiver_count - 1,
            final(shared).signal@ == old(shared).signal@.after_handle_release(
                old(shared).receiver_count as nat,
            ),
    {
        shared.drop_receiver();
    }
}

impl FiniteGenerationState {
    /// After as many notifications as `count` says.
    pub open spec fn after_notifies(self, count: nat) -> Self
        decreases count,
    {
        if count == 0 {
            self
        } else {
            self.after_notifies((count - 1) as nat).after_notify()
        }
    }
}

proof fn lemma_generations(state: FiniteGenerationState, count: nat)
    requires
        !state.closed,
        state.generation + 2 * count <= u64::MAX,
    ensures
        !state.after_notifies(count).closed,
        state.after_notifies(count).generation == state.generation + 2 * count,
    decreases count,
{
    if count > 0 {
        lemma_generations(state, (count - 1) as nat);
    }
}

/// Any number of notifications since the last observation is observed as one:
/// the next poll is ready, and the one after it waits.
pub proof fn law_notifications_coalesce(state: FiniteGenerationState, count: nat)
    requires
        !state.closed,
        count > 0,
        state.generation + 2 * count <= u64::MAX,
    ensures
        state.after_notifies(count).poll_result(state.generation) == Poll::Ready(
            Ok::<(), Closed>(()),
        ),
        state.after_notifies(count).poll_result(state.after_notifies(count).generation) is Pending,
{
    lemma_generations(state, count);
}

/// A consumer that subscribes late sees that there were notifications; one that
/// looks forward does not.
pub proof fn law_late_consumers(count: nat)
    requires
        2 * count <= u64::MAX,
    ensures
        FiniteGenerationState::fresh().after_notifies(count).poll_result(0) == (if count == 0 {
            Poll::Pending
        } else {
            Poll::Ready(Ok::<(), Closed>(()))
        }),
        FiniteGenerationState::fresh().after_notifies(count).poll_result(
            FiniteGenerationState::fresh().after_notifies(count).generation,
        ) is Pending,
{
    lemma_generations(FiniteGenerationState::fresh(), count);
}

/// A notification that came before the end is observed before it, by every
/// consumer that has not seen it.
pub proof fn law_notification_comes_before_the_end(state: FiniteGenerationState)
    requires
        !state.closed,
        state.can_count(),
    ensures
        state.after_notify().after_close().poll_result(state.generation) == Poll::Ready(
            Ok::<(), Closed>(()),
        ),
        state.after_notify().after_close().poll_result(state.after_notify().generation)
            == Poll::Ready(Err::<(), Closed>(Closed)),
{
}

/// A closed signal stays closed, and takes no notification.
pub proof fn law_closed_for_good(state: FiniteGenerationState, count: nat)
    requires
        state.closed,
    ensures
        state.notify_result() == Err::<(), Closed>(Closed),
        state.after_notifies(count) == state,
        state.after_close().closed,
        state.after_close().generation == state.generation,
    decreases count,
{
    if count > 0 {
        law_closed_for_good(state, (count - 1) as nat);
    }
}

/// A notification, and closing, wake everybody who waits, and each of them is
/// then told which it was.
pub proof fn law_everybody_is_woken(
    state: FiniteGenerationState,
    slot: usize,
    last_generation: u64,
)
    requires
        state.valid(),
        state.wakers.contains_key(slot),
        state.poll_result(last_generation) is Pending,
        state.can_count(),
    ensures
        state.after_notify().wakes.contains(state.wakers[slot]),
        state.after_notify().poll_result(last_generation) == Poll::Ready(Ok::<(), Closed>(())),
        state.after_close().wakes.contains(state.wakers[slot]),
        state.after_close().poll_result(last_generation) == Poll::Ready(
            Err::<(), Closed>(Closed),
        ),
{
    lemma_waiting_holds(state.wakers, slot);
    lemma_due(state.wakes, waiting_by_key(state.wakers), state.wakers[slot]);
}

/// Something that happens to a signal.
///
/// A poll that is ready changes nothing, and one that is not waits.
pub enum Event {
    /// A notification.
    Notify,
    /// The signal is closed.
    Close,
    /// An observation waits in the slot that it has, or in a new one.
    Wait(Option<usize>, Waker),
    /// An observation ends and gives up the slot that it has, if any.
    End(Option<usize>),
    /// Unused memory is given back.
    Shrink,
}

impl FiniteGenerationState {
    /// The event can happen: an observation has the slot that it waits in or
    /// gives up, and a new slot is a vacant one.
    pub open spec fn admits(self, event: Event) -> bool {
        match event {
            Event::Wait(Some(slot), _) => self.wakers.contains_key(slot),
            Event::Wait(None, _) => !self.wakers.contains_key(self.slot_for(None)),
            Event::End(slot) => self.has_slot(slot),
            _ => true,
        }
    }

    /// After one event.
    pub open spec fn after(self, event: Event) -> Self {
        match event {
            Event::Notify => self.after_notify(),
            Event::Close => self.after_close(),
            Event::Wait(slot, waker) => self.after_wait(slot, waker),
            Event::End(slot) => self.after_release(slot),
            Event::Shrink => self.after_shrink(),
        }
    }

    /// After a run of events.
    pub open spec fn after_all(self, events: Seq<Event>) -> Self
        decreases events.len(),
    {
        if events.len() == 0 {
            self
        } else {
            self.after_all(events.drop_last()).after(events.last())
        }
    }

    /// Every event of the run can happen when its turn comes.
    pub open spec fn admits_all(self, events: Seq<Event>) -> bool
        decreases events.len(),
    {
        events.len() > 0 ==> {
            &&& self.admits_all(events.drop_last())
            &&& self.after_all(events.drop_last()).admits(events.last())
        }
    }

    /// The waker is in the slot.
    pub open spec fn waits_in(self, slot: usize, waker: Waker) -> bool {
        self.wakers.contains_key(slot) && self.wakers[slot] == waker
    }

    /// The event makes everybody due who waits.
    pub open spec fn wakes_all(self, event: Event) -> bool {
        event is Close || event is Notify && !self.closed
    }

    /// Some event of the run makes everybody due who then waits.
    pub open spec fn wakes_all_in(self, events: Seq<Event>) -> bool
        decreases events.len(),
    {
        events.len() > 0 && (self.wakes_all_in(events.drop_last()) || self.after_all(
            events.drop_last(),
        ).wakes_all(events.last()))
    }
}

/// The event takes the waker out of its slot: the wait ends, or another waker
/// takes the slot.
pub open spec fn gives_up(event: Event, slot: usize, waker: Waker) -> bool {
    match event {
        Event::Wait(Some(other), new) => other == slot && new != waker,
        Event::End(Some(other)) => other == slot,
        _ => false,
    }
}

/// No event of the run takes the waker out of its slot.
pub open spec fn keeps_waiting(events: Seq<Event>, slot: usize, waker: Waker) -> bool {
    forall|i: int| 0 <= i < events.len() ==> !gives_up(#[trigger] events[i], slot, waker)
}

/// One event leaves the wakers that are due so, and a waker in its slot, unless
/// it gives it up; where it makes everybody due who waits, that waker is.
pub(crate) proof fn lemma_event_loses_no_waker(
    before: FiniteGenerationState,
    event: Event,
    slot: usize,
    waker: Waker,
)
    requires
        before.wakers.dom().finite(),
        before.admits(event),
    ensures
        before.after(event).wakers.dom().finite(),
        before.wakes.contains(waker) ==> before.after(event).wakes.contains(waker),
        before.waits_in(slot, waker) && !gives_up(event, slot, waker) ==> {
            &&& before.after(event).waits_in(slot, waker)
            &&& before.wakes_all(event) ==> before.after(event).wakes.contains(waker)
        },
{
    lemma_due(before.wakes, waiting_by_key(before.wakers), waker);
    if before.waits_in(slot, waker) {
        lemma_waiting_holds(before.wakers, slot);
    }
}

/// A waker that waits in a slot stays there until its observation ends or waits
/// with another one, and it is due once anything came that wakes those who
/// wait, whatever else happens to the signal. What is due stays due until it is
/// taken.
pub proof fn law_no_waker_is_lost(
    start: FiniteGenerationState,
    events: Seq<Event>,
    slot: usize,
    waker: Waker,
)
    requires
        start.wakers.dom().finite(),
        start.admits_all(events),
    ensures
        start.after_all(events).wakers.dom().finite(),
        start.wakes.contains(waker) ==> start.after_all(events).wakes.contains(waker),
        start.waits_in(slot, waker) && keeps_waiting(events, slot, waker) ==> {
            &&& start.after_all(events).waits_in(slot, waker)
            &&& start.wakes_all_in(events) ==> start.after_all(events).wakes.contains(waker)
        },
    decreases events.len(),
{
    if events.len() > 0 {
        let earlier = events.drop_last();
        law_no_waker_is_lost(start, earlier, slot, waker);
        lemma_event_loses_no_waker(start.after_all(earlier), events.last(), slot, waker);
    }
}

/// Something that happens to a signal whose producers and receivers are counted.
pub enum Turn {
    /// A producer is cloned.
    CloneProducer,
    /// A producer is given up.
    ReleaseProducer,
    /// A source is cloned, or a consumer is added.
    AddReceiver,
    /// A source or a consumer is given up.
    ReleaseReceiver,
    /// Something else happens to the signal.
    Other(Event),
}

/// How many producers there are after a run, where there were `count` before it.
pub open spec fn producers_after(count: nat, turns: Seq<Turn>) -> nat
    decreases turns.len(),
{
    if turns.len() == 0 {
        count
    } else {
        let before = producers_after(count, turns.drop_last());
        match turns.last() {
            Turn::CloneProducer => before + 1,
            Turn::ReleaseProducer => (before - 1) as nat,
            _ => before,
        }
    }
}

/// How many receivers there are after a run, where there were `count` before it.
pub open spec fn receivers_after(count: nat, turns: Seq<Turn>) -> nat
    decreases turns.len(),
{
    if turns.len() == 0 {
        count
    } else {
        let before = receivers_after(count, turns.drop_last());
        match turns.last() {
            Turn::AddReceiver => before + 1,
            Turn::ReleaseReceiver => (before - 1) as nat,
            _ => before,
        }
    }
}

/// Handles of a kind are cloned and given up only while there are any.
pub open spec fn are_held(producers: nat, receivers: nat, turns: Seq<Turn>) -> bool
    decreases turns.len(),
{
    turns.len() > 0 ==> {
        let earlier = turns.drop_last();
        &&& are_held(producers, receivers, earlier)
        &&& match turns.last() {
            Turn::CloneProducer => producers_after(producers, earlier) > 0,
            Turn::ReleaseProducer => producers_after(producers, earlier) > 0,
            Turn::AddReceiver => receivers_after(receivers, earlier) > 0,
            Turn::ReleaseReceiver => receivers_after(receivers, earlier) > 0,
            Turn::Other(_) => true,
        }
    }
}

impl FiniteGenerationState {
    /// After a run of turns, with so many producers and receivers before it.
    pub open spec fn after_turns(self, producers: nat, receivers: nat, turns: Seq<Turn>) -> Self
        decreases turns.len(),
    {
        if turns.len() == 0 {
            self
        } else {
            let earlier = turns.drop_last();
            let before = self.after_turns(producers, receivers, earlier);
            match turns.last() {
                Turn::ReleaseProducer => before.after_handle_release(
                    producers_after(producers, earlier),
                ),
                Turn::ReleaseReceiver => before.after_handle_release(
                    receivers_after(receivers, earlier),
                ),
                Turn::Other(event) => before.after(event),
                _ => before,
            }
        }
    }
}

/// Over any run in which handles are added and given up, and anything else
/// happens, the signal is closed exactly if it was closed before, or by hand, or
/// no producer is left, or no receiver is.
pub proof fn law_last_handle_closes(
    start: FiniteGenerationState,
    producers: nat,
    receivers: nat,
    turns: Seq<Turn>,
)
    requires
        0 < producers,
        0 < receivers,
        are_held(producers, receivers, turns),
    ensures
        start.after_turns(producers, receivers, turns).closed <==> start.closed || turns.contains(
            Turn::Other(Event::Close),
        ) || producers_after(producers, turns) == 0 || receivers_after(receivers, turns) == 0,
    decreases turns.len(),
{
    if turns.len() > 0 {
        law_last_handle_closes(start, producers, receivers, turns.drop_last());
        lemma_contains_last(turns, Turn::Other(Event::Close));
    }
}

/// Whenever an observation comes to wait, the waker of that very poll is in its
/// slot, whether it has waited before or not. An observation that has a slot
/// keeps it, and the slots of all others stay as they are.
pub proof fn law_pending_observation_is_registered(
    state: FiniteGenerationState,
    slot: Option<usize>,
    waker: Waker,
    other: usize,
)
    ensures
        state.after_wait(slot, waker).wakers.contains_key(state.slot_for(slot)),
        state.after_wait(slot, waker).wakers[state.slot_for(slot)] == waker,
        slot is Some ==> state.slot_for(slot) == slot->0,
        other != state.slot_for(slot) ==> {
            &&& state.after_wait(slot, waker).wakers.contains_key(other)
                == state.wakers.contains_key(other)
            &&& state.wakers.contains_key(other) ==> state.after_wait(slot, waker).wakers[other]
                == state.wakers[other]
        },
        state.after_wait(slot, waker).generation == state.generation,
        state.after_wait(slot, waker).closed == state.closed,
        state.after_wait(slot, waker).wakes == state.wakes,
        slot is Some ==> state.after_wait(slot, waker).free == state.free,
        slot is None && state.free.len() == 0 ==> {
            &&& state.slot_for(slot) == state.wakers.dom().len() as usize
            &&& state.after_wait(slot, waker).free == state.free
        },
        slot is None && state.free.len() > 0 ==> {
            &&& state.slot_for(slot) == state.free.last()
            &&& state.after_wait(slot, waker).free == state.free.drop_last()
        },
{
}

/// The next notification, or the end, wakes an observation by the waker of its
/// latest poll, and by no earlier one.
pub proof fn law_latest_waker_is_woken(
    state: FiniteGenerationState,
    slot: Option<usize>,
    earlier: Waker,
    later: Waker,
)
    requires
        state.wakers.dom().finite(),
        !state.closed,
        earlier != later,
        forall|other: usize|
            state.wakers.contains_key(other) && other != state.slot_for(slot) ==> (
            #[trigger] state.wakers[other]) != earlier,
    ensures
        ({
            let first = state.after_wait(slot, earlier);
            let second = first.after_wait(Some(state.slot_for(slot)), later);
            &&& second.after_notify().wakes.contains(later)
            &&& !state.wakes.contains(earlier) ==> !second.after_notify().wakes.contains(earlier)
            &&& second.after_close().wakes.contains(later)
            &&& !state.wakes.contains(earlier) ==> !second.after_close().wakes.contains(earlier)
        }),
{
    let first = state.after_wait(slot, earlier);
    let second = first.after_wait(Some(state.slot_for(slot)), later);
    let due = waiting_by_key(second.wakers);
    lemma_waiting_holds(second.wakers, state.slot_for(slot));
    lemma_due(state.wakes, due, later);
    lemma_due(state.wakes, due, earlier);
    let keys = law_everybody_comes_in_the_order_of_keys(second.wakers);
    if due.contains(earlier) {
        let i = choose|i: int| 0 <= i < due.len() && due[i] == earlier;
        assert(keys.contains(keys[i]));
        assert(second.wakers[keys[i]] == earlier);
    }
}

/// An observation that ends is out of its slot, which is the next one to be
/// used; one without a slot leaves everything as it is. Shrinking changes
/// nothing but which vacant slots are remembered.
pub proof fn law_ended_observation_leaves_its_slot(state: FiniteGenerationState, slot: usize, other: usize)
    ensures
        !state.after_release(Some(slot)).wakers.contains_key(slot),
        other != slot ==> {
            &&& state.after_release(Some(slot)).wakers.contains_key(other)
                == state.wakers.contains_key(other)
            &&& state.wakers.contains_key(other) ==> state.after_release(
                Some(slot),
            ).wakers[other] == state.wakers[other]
        },
        state.after_release(Some(slot)).free == state.free.push(slot),
        state.after_release(Some(slot)).generation == state.generation,
        state.after_release(Some(slot)).closed == state.closed,
        state.after_release(Some(slot)).wakes == state.wakes,
        state.after_release(None) == state,
        state.after_shrink() == (FiniteGenerationState {
            free: after_shrink(state.wakers.dom(), state.free),
            ..state
        }),
        state.has_slot(None),
        state.has_slot(Some(slot)) == state.wakers.contains_key(slot),
{
}

/// An observation is ready with a notification exactly when the generation is
/// another one than the one that its consumer has seen last, closed or not and
/// however many notifications came. Only a consumer that has seen them all is
/// told of the end, exactly when the signal is closed.
pub proof fn law_observation_is_answered_exactly(
    state: FiniteGenerationState,
    last_generation: u64,
)
    ensures
        state.poll_result(last_generation) == Poll::Ready(Ok::<(), Closed>(()))
            <==> state.generation != last_generation,
        state.poll_result(last_generation) == Poll::Ready(Err::<(), Closed>(Closed))
            <==> state.generation == last_generation && state.closed,
        state.poll_result(last_generation) is Pending <==> state.generation == last_generation
            && !state.closed,
{
}

/// However many notifications came before the end, a consumer that has not seen
/// them observes them first, and only the next poll tells of the end.
pub proof fn law_all_notifications_come_before_the_end(state: FiniteGenerationState, count: nat)
    requires
        !state.closed,
        count > 0,
        state.generation + 2 * count <= u64::MAX,
    ensures
        state.after_notifies(count).after_close().poll_result(state.generation) == Poll::Ready(
            Ok::<(), Closed>(()),
        ),
        state.after_notifies(count).after_close().poll_result(
            state.after_notifies(count).generation,
        ) == Poll::Ready(Err::<(), Closed>(Closed)),
        state.after_notifies(count).after_close().generation == state.after_notifies(
            count,
        ).generation,
{
    lemma_generations(state, count);
}

/// A notification is taken exactly while the signal is open. It begins a new
/// generation and makes everybody due who waits, in the order of their slots and
/// behind those who are due already; they keep their slots. A closed signal
/// takes none and stays as it is.
pub proof fn law_notification_is_answered_exactly(state: FiniteGenerationState)
    requires
        !state.closed ==> state.generation + 2 <= u64::MAX,
    ensures
        state.notify_result() == Ok::<(), Closed>(()) <==> !state.closed,
        state.notify_result() == Err::<(), Closed>(Closed) <==> state.closed,
        state.closed ==> state.after_notify() == state,
        !state.closed ==> {
            &&& state.after_notify().generation == state.generation + 2
            &&& !state.after_notify().closed
            &&& state.after_notify().wakers == state.wakers
            &&& state.after_notify().free == state.free
            &&& state.after_notify().wakes == state.wakes + waiting_by_key(state.wakers)
        },
{
}

/// Closing makes everybody due who waits and neither adds nor takes a
/// notification. Giving a handle up changes nothing unless it is the last one of
/// its kind, which closes. There is a generation left unless the count is used
/// up. A new signal is open, at generation zero, with nobody waiting.
pub proof fn law_closing_keeps_the_generation(state: FiniteGenerationState, handles: nat)
    ensures
        state.after_close().closed,
        state.after_close().generation == state.generation,
        state.after_close().wakers == state.wakers,
        state.after_close().free == state.free,
        state.after_close().wakes == state.wakes + waiting_by_key(state.wakers),
        handles != 1 ==> state.after_handle_release(handles) == state,
        state.after_handle_release(1) == state.after_close(),
        state.can_count() <==> state.closed || state.generation <= u64::MAX - 2,
        FiniteGenerationState::fresh().generation == 0,
        !FiniteGenerationState::fresh().closed,
        FiniteGenerationState::fresh().wakers == Map::<usize, Waker>::empty(),
        FiniteGenerationState::fresh().free.len() == 0,
        FiniteGenerationState::fresh().wakes.len() == 0,
{
}

} // verus!
