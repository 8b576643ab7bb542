//! A signal with many producers and many consumers.
//!
//! Every notification begins a new generation. A consumer keeps the generation
//! that it has seen last in a key of its own, and a waiting observation has a
//! waker slot of its own.

use std::task::{Poll, Waker};

use vstd::prelude::*;

use crate::slots::{after_shrink, Slots};
use crate::wake::{
    free_after, law_everybody_comes_in_the_order_of_keys, lemma_due, lemma_waiting_holds, slot_for,
    waiting_by_key, WakeList,
};

verus! {

/// What a consumer has seen of a signal.
pub struct MpmcLatchedSignalConsumerKey {
    last_generation: usize,
}

impl MpmcLatchedSignalConsumerKey {
    /// The generation that the consumer has seen last.
    pub closed spec fn last_generation(&self) -> usize {
        self.last_generation
    }
}

/// A signal with many producers and many consumers.
pub struct MpmcLatchedSignal {
    generation: usize,
    wakers: Slots<Waker>,
    wakes: WakeList,
}

/// The state of a signal with many consumers.
#[verifier::ext_equal]
pub struct GenerationState {
    /// Which generation this is.
    pub generation: usize,
    /// The wakers of the observations that have waited, each in its slot.
    pub wakers: Map<usize, Waker>,
    /// The slots that were given up, the one that is used next last.
    pub free: Seq<usize>,
    /// The wakers that are due, first due first.
    pub wakes: Seq<Waker>,
}

/// The generation after `generation`. After the greatest one comes zero.
pub open spec fn next_generation(generation: usize) -> usize {
    if generation == usize::MAX {
        0
    } else {
        (generation + 1) as usize
    }
}

impl GenerationState {
    /// The first generation, with nobody waiting.
    pub open spec fn fresh() -> Self {
        GenerationState {
            generation: 0,
            wakers: Map::empty(),
            free: Seq::empty(),
            wakes: Seq::empty(),
        }
    }

    /// Finitely many observations have waited.
    pub open spec fn valid(self) -> bool {
        self.wakers.dom().finite()
    }

    /// After a notification: all who wait are due, in the order of their slots.
    pub open spec fn after_notify(self) -> Self {
        GenerationState {
            generation: next_generation(self.generation),
            wakes: self.wakes + waiting_by_key(self.wakers),
            ..self
        }
    }

    /// The slot that an observation waits in: the one that it has, or else the
    /// next one.
    pub open spec fn slot_for(self, slot: Option<usize>) -> usize {
        slot_for(slot, self.wakers.dom(), self.free)
    }

    /// An observation waits in the slot that it has, or else in the next one.
    pub open spec fn after_wait(self, slot: Option<usize>, waker: Waker) -> Self {
        GenerationState {
            wakers: self.wakers.insert(self.slot_for(slot), waker),
            free: free_after(slot, self.free),
            ..self
        }
    }

    /// A slot was given up, where there is one.
    pub open spec fn after_release(self, slot: Option<usize>) -> Self {
        match slot {
            Some(slot) => GenerationState {
                wakers: self.wakers.remove(slot),
                free: self.free.push(slot),
                ..self
            },
            None => self,
        }
    }

    /// With the vacant slots above the greatest one in use forgotten.
    pub open spec fn after_shrink(self) -> Self {
        GenerationState { free: after_shrink(self.wakers.dom(), self.free), ..self }
    }

    /// The slot, where there is one, is in use.
    pub open spec fn has_slot(self, slot: Option<usize>) -> bool {
        slot is Some ==> self.wakers.contains_key(slot->0)
    }

    /// What a poll returns to a consumer that has seen a generation last.
    pub open spec fn poll_result(self, last_generation: usize) -> Poll<()> {
        if self.generation != last_generation {
            Poll::Ready(())
        } else {
            Poll::Pending
        }
    }
}

impl View for MpmcLatchedSignal {
    type V = GenerationState;

    closed spec fn view(&self) -> GenerationState {
        GenerationState {
            generation: self.generation,
            wakers: self.wakers@,
            free: self.wakers.free(),
            wakes: self.wakes@,
        }
    }
}

impl Default for MpmcLatchedSignal {
    fn default() -> (signal: Self)
        ensures
            signal.wf(),
            signal@ == GenerationState::fresh(),
    {
        Self::new()
    }
}

impl MpmcLatchedSignal {
    /// The state is valid.
    pub open spec fn wf(&self) -> bool {
        self@.valid()
    }

    /// A signal that was not notified.
    pub fn new() -> (signal: Self)
        ensures
            signal.wf(),
            signal@ == GenerationState::fresh(),
    {
        MpmcLatchedSignal { generation: 0, wakers: Slots::new(), wakes: WakeList::new() }
    }

    /// Which generation this is.
    pub fn generation(&self) -> (generation: usize)
        ensures
            generation == self@.generation,
    {
        self.generation
    }

    /// Notifies every consumer.
    pub fn notify(&mut self)
        requires
            old(self).wf(),
        ensures
            final(self).wf(),
            final(self)@ == old(self)@.after_notify(),
    {
        self.generation = self.generation.wrapping_add(1);
        self.wakers.push_all(&mut self.wakes);
    }

    /// A key for a consumer that sees earlier notifications too.
    pub fn subscribe(&self) -> (key: MpmcLatchedSignalConsumerKey)
        ensures
            key.last_generation() == 0,
    {
        MpmcLatchedSignalConsumerKey { last_generation: 0 }
    }

    /// A key for a consumer that sees notifications from now on.
    pub fn subscribe_forward(&self) -> (key: MpmcLatchedSignalConsumerKey)
        ensures
            key.last_generation() == self@.generation,
    {
        MpmcLatchedSignalConsumerKey { last_generation: self.generation }
    }

    /// An observation that is ready when the signal is, or was, notified after
    /// what the key has seen. Drive it with [`Wait::poll`] and end it with
    /// [`Wait::release`].
    pub fn observe<'b>(&self, key: &'b mut MpmcLatchedSignalConsumerKey) -> (wait: Wait<'b>)
        ensures
            *wait.key == *old(key),
            *final(wait.key) == *final(key),
            wait.waker_key is None,
    {
        Wait { key, waker_key: None }
    }

    /// Gives unused memory back. Vacant slots above the greatest one in use are
    /// forgotten, and nothing else changes.
    pub fn shrink_to_fit(&mut self)
        requires
            old(self).wf(),
        ensures
            final(self).wf(),
            final(self)@ == old(self)@.after_shrink(),
    {
        self.wakers.shrink_to_fit();
    }

    /// Hands out the wakers that are due, first due first.
    pub fn take_wakes(&mut self) -> (wakers: Vec<Waker>)
        requires
            old(self).wf(),
        ensures
            final(self).wf(),
            wakers@ == old(self)@.wakes,
            final(self)@ == (GenerationState { wakes: Seq::empty(), ..old(self)@ }),
    {
        self.wakes.take()
    }
}

/// An observation that waits for a notification: the consumer's key, and the
/// slot that the observation waits in.
#[non_exhaustive]
pub struct Wait<'b> {
    pub key: &'b mut MpmcLatchedSignalConsumerKey,
    pub waker_key: Option<usize>,
}

impl<'b> Wait<'b> {
    /// Observes all notifications since the last observation, or waits for one.
    pub fn poll(&mut self, signal: &mut MpmcLatchedSignal, waker: &Waker) -> (result: Poll<()>)
        requires
            old(signal).wf(),
            old(signal)@.has_slot(old(self).waker_key),
        ensures
            final(signal).wf(),
            final(signal)@.has_slot(final(self).waker_key),
            old(self).key.last_generation() != old(signal)@.generation ==> result == Poll::Ready(()),
            result == old(signal)@.poll_result(old(self).key.last_generation()),
            final(self).key.last_generation() == old(signal)@.generation,
            *final(final(self).key) == *final(old(self).key),
            result is Ready ==> {
                &&& final(signal)@ == old(signal)@
                &&& final(self).waker_key == old(self).waker_key
            },
            result is Pending ==> {
                &&& final(self).waker_key == Some(old(signal)@.slot_for(old(self).waker_key))
                &&& final(signal)@ == old(signal)@.after_wait(old(self).waker_key, *waker)
                &&& final(signal)@.waits_in(final(self).waker_key->0, *waker)
                &&& old(self).waker_key is None ==> !old(signal)@.wakers.contains_key(
                    final(self).waker_key->0,
                )
            },
    {
        let current: usize = signal.generation;
        if current != self.key.last_generation {
            self.key.last_generation = current;
            Poll::Ready(())
        } else {
            self.waker_key = signal.wakers.wait(self.waker_key, waker);
            Poll::Pending
        }
    }

    /// Ends the observation. It no longer waits.
    pub fn release(self, signal: &mut MpmcLatchedSignal)
        requires
            old(signal).wf(),
            old(signal)@.has_slot(self.waker_key),
        ensures
            final(signal).wf(),
            final(signal)@ == old(signal)@.after_release(self.waker_key),
            *final(self.key) == *old(self.key),
    {
        if let Some(key) = self.waker_key {
            let _ = signal.wakers.remove(key);
        }
    }
}

/// The right to notify. There may be many.
#[derive(Clone)]
#[non_exhaustive]
pub struct MpmcLatchedSignalProducer {}

/// The right to add consumers. There may be many.
#[derive(Clone)]
#[non_exhaustive]
pub struct MpmcLatchedSignalSource {}

/// A consumer with its key.
pub struct MpmcLatchedSignalConsumer {
    key: MpmcLatchedSignalConsumerKey,
}

/// A signal that was not notified, with a producer and a source.
pub fn signal() -> (parts: (
    MpmcLatchedSignal,
    MpmcLatchedSignalProducer,
    MpmcLatchedSignalSource,
))
    ensures
        parts.0.wf(),
        parts.0@ == GenerationState::fresh(),
{
    (MpmcLatchedSignal::new(), MpmcLatchedSignalProducer {  }, MpmcLatchedSignalSource {  })
}

impl MpmcLatchedSignalSource {
    /// A consumer that sees earlier notifications too.
    pub fn subscribe(&self, signal: &MpmcLatchedSignal) -> (consumer: MpmcLatchedSignalConsumer)
        ensures
            consumer.last_generation() == 0,
    {
        MpmcLatchedSignalConsumer { key: signal.subscribe() }
    }

    /// A consumer that sees notifications from now on.
    pub fn subscribe_forward(&self, signal: &MpmcLatchedSignal) -> (consumer:
        MpmcLatchedSignalConsumer)
        ensures
            consumer.last_generation() == signal@.generation,
    {
        MpmcLatchedSignalConsumer { key: signal.subscribe_forward() }
    }
}

impl MpmcLatchedSignalProducer {
    /// Notifies every consumer.
    pub fn notify(&self, signal: &mut MpmcLatchedSignal)
        requires
            old(signal).wf(),
        ensures
            final(signal).wf(),
            final(signal)@ == old(signal)@.after_notify(),
    {
        signal.notify();
    }
}

impl MpmcLatchedSignalConsumer {
    /// The generation that the consumer has seen last.
    pub closed spec fn last_generation(&self) -> usize {
        self.key.last_generation()
    }

    /// An observation that is ready when the signal is, or was, notified after
    /// what the consumer has seen.
    pub fn observe<'b>(&'b mut self, signal: &MpmcLatchedSignal) -> (wait: Wait<'b>)
        ensures
            wait.key.last_generation() == old(self).last_generation(),
            final(wait.key).last_generation() == final(self).last_generation(),
            wait.waker_key is None,
    {
        signal.observe(&mut self.key)
    }

    /// Like [`Self::observe`], with earlier notifications put aside.
    pub fn observe_forward<'b>(&'b mut self, signal: &MpmcLatchedSignal) -> (wait: Wait<'b>)
        ensures
            wait.key.last_generation() == signal@.generation,
            final(wait.key).last_generation() == final(self).last_generation(),
            wait.waker_key is None,
    {
        self.key.last_generation = signal.generation();
        signal.observe(&mut self.key)
    }
}

impl GenerationState {
    /// After as many notifications as `count` says.
    pub open spec fn after_notifies(self, count: nat) -> Self
        decreases count,
    {
        if count == 0 {
            self
        } else {
            self.after_notifies((count - 1) as nat).after_notify()
        }
    }
}

proof fn lemma_generations(state: GenerationState, count: nat)
    requires
        count <= usize::MAX,
    ensures
        state.generation + count <= usize::MAX ==> state.after_notifies(count).generation
            == state.generation + count,
        state.generation + count > usize::MAX ==> state.after_notifies(count).generation
            == state.generation + count - usize::MAX - 1,
    decreases count,
{
    if count > 0 {
        lemma_generations(state, (count - 1) as nat);
    }
}

/// Any number of notifications since the last observation is observed as one:
/// the next poll is ready, and the one after it waits. The number of
/// notifications in between is at most that of the generations less one.
pub proof fn law_notifications_coalesce(state: GenerationState, count: nat)
    requires
        0 < count <= usize::MAX,
    ensures
        state.after_notifies(count).poll_result(state.generation) == Poll::Ready(()),
        state.after_notifies(count).poll_result(state.after_notifies(count).generation) is Pending,
{
    lemma_generations(state, count);
}

/// A consumer that subscribes late sees that there were notifications, where
/// fewer came than there are generations; one that looks forward does not.
pub proof fn law_late_consumers(count: nat)
    requires
        count <= usize::MAX,
    ensures
        GenerationState::fresh().after_notifies(count).poll_result(0) == (if count == 0 {
            Poll::Pending
        } else {
            Poll::Ready(())
        }),
        GenerationState::fresh().after_notifies(count).poll_result(
            GenerationState::fresh().after_notifies(count).generation,
        ) is Pending,
{
    lemma_generations(GenerationState::fresh(), count);
}

/// A notification wakes everybody who waits, and each of them then observes it.
pub proof fn law_everybody_is_woken(state: GenerationState, slot: usize, last_generation: usize)
    requires
        state.valid(),
        state.wakers.contains_key(slot),
        state.poll_result(last_generation) is Pending,
    ensures
        state.after_notify().wakes.contains(state.wakers[slot]),
        state.after_notify().poll_result(last_generation) == Poll::Ready(()),
{
    lemma_waiting_holds(state.wakers, slot);
    lemma_due(state.wakes, waiting_by_key(state.wakers), state.wakers[slot]);
}

/// Something that happens to a signal.
///
/// A poll that is ready changes nothing, and one that is not waits.
pub enum Event {
    /// A notification.
    Notify,
    /// An observation waits in the slot that it has, or in a new one.
    Wait(Option<usize>, Waker),
    /// An observation ends and gives up the slot that it has, if any.
    End(Option<usize>),
    /// Unused memory is given back.
    Shrink,
}

impl GenerationState {
    /// The event can happen: an observation has the slot that it waits in or
    /// gives up, and a new slot is a vacant one.
    pub open spec fn admits(self, event: Event) -> bool {
        match event {
            Event::Wait(Some(slot), _) => self.wakers.contains_key(slot),
            Event::Wait(None, _) => !self.wakers.contains_key(self.slot_for(None)),
            Event::End(slot) => self.has_slot(slot),
            _ => true,
        }
    }

    /// After one event.
    pub open spec fn after(self, event: Event) -> Self {
        match event {
            Event::Notify => self.after_notify(),
            Event::Wait(slot, waker) => self.after_wait(slot, waker),
            Event::End(slot) => self.after_release(slot),
            Event::Shrink => self.after_shrink(),
        }
    }

    /// After a run of events.
    pub open spec fn after_all(self, events: Seq<Event>) -> Self
        decreases events.len(),
    {
        if events.len() == 0 {
            self
        } else {
            self.after_all(events.drop_last()).after(events.last())
        }
    }

    /// Every event of the run can happen when its turn comes.
    pub open spec fn admits_all(self, events: Seq<Event>) -> bool
        decreases events.len(),
    {
        events.len() > 0 ==> {
            &&& self.admits_all(events.drop_last())
            &&& self.after_all(events.drop_last()).admits(events.last())
        }
    }

    /// The waker is in the slot.
    pub open spec fn waits_in(self, slot: usize, waker: Waker) -> bool {
        self.wakers.contains_key(slot) && self.wakers[slot] == waker
    }

    /// The event makes everybody due who waits.
    pub open spec fn wakes_all(self, event: Event) -> bool {
        event is Notify
    }

    /// Some event of the run makes everybody due who then waits.
    pub open spec fn wakes_all_in(self, events: Seq<Event>) -> bool
        decreases events.len(),
    {
        events.len() > 0 && (self.wakes_all_in(events.drop_last()) || self.after_all(
            events.drop_last(),
        ).wakes_all(events.last()))
    }
}

/// The event takes the waker out of its slot: the wait ends, or another waker
/// takes the slot.
pub open spec fn gives_up(event: Event, slot: usize, waker: Waker) -> bool {
    match event {
        Event::Wait(Some(other), new) => other == slot && new != waker,
        Event::End(Some(other)) => other == slot,
        _ => false,
    }
}

/// No event of the run takes the waker out of its slot.
pub open spec fn keeps_waiting(events: Seq<Event>, slot: usize, waker: Waker) -> bool {
    forall|i: int| 0 <= i < events.len() ==> !gives_up(#[trigger] events[i], slot, waker)
}

/// One event leaves the wakers that are due so, and a waker in its slot, unless
/// it gives it up; where it makes everybody due who waits, that waker is.
proof fn lemma_event_loses_no_waker(
    before: GenerationState,
    event: Event,
    slot: usize,
    waker: Waker,
)
    requires
        before.wakers.dom().finite(),
        before.admits(event),
    ensures
        before.after(event).wakers.dom().finite(),
        before.wakes.contains(waker) ==> before.after(event).wakes.contains(waker),
        before.waits_in(slot, waker) && !gives_up(event, slot, waker) ==> {
            &&& before.after(event).waits_in(slot, waker)
            &&& before.wakes_all(event) ==> before.after(event).wakes.contains(waker)
        },
{
    lemma_due(before.wakes, waiting_by_key(before.wakers), waker);
    if before.waits_in(slot, waker) {
        lemma_waiting_holds(before.wakers, slot);
    }
}

/// A waker that waits in a slot stays there until its observation ends or waits
/// with another one, and it is due once anything came that wakes those who
/// wait, whatever else happens to the signal. What is due stays due until it is
/// taken.
pub proof fn law_no_waker_is_lost(
    start: GenerationState,
    events: Seq<Event>,
    slot: usize,
    waker: Waker,
)
    requires
        start.wakers.dom().finite(),
        start.admits_all(events),
    ensures
        start.after_all(events).wakers.dom().finite(),
        start.wakes.contains(waker) ==> start.after_all(events).wakes.contains(waker),
        start.waits_in(slot, waker) && keeps_waiting(events, slot, waker) ==> {
            &&& start.after_all(events).waits_in(slot, waker)
            &&& start.wakes_all_in(events) ==> start.after_all(events).wakes.contains(waker)
        },
    decreases events.len(),
{
    if events.len() > 0 {
        let earlier = events.drop_last();
        law_no_waker_is_lost(start, earlier, slot, waker);
        lemma_event_loses_no_waker(start.after_all(earlier), events.last(), slot, waker);
    }
}

/// Whenever an observation comes to wait, the waker of that very poll is in its
/// slot, whether it has waited before or not. An observation that has a slot
/// keeps it, and the slots of all others stay as they are.
pub proof fn law_pending_observation_is_registered(
    state: GenerationState,
    slot: Option<usize>,
    waker: Waker,
    other: usize,
)
    ensures
        state.after_wait(slot, waker).wakers.contains_key(state.slot_for(slot)),
        state.after_wait(slot, waker).wakers[state.slot_for(slot)] == waker,
        slot is Some ==> state.slot_for(slot) == slot->0,
        other != state.slot_for(slot) ==> {
            &&& state.after_wait(slot, waker).wakers.contains_key(other)
                == state.wakers.contains_key(other)
            &&& state.wakers.contains_key(other) ==> state.after_wait(slot, waker).wakers[other]
                == state.wakers[other]
        },
        state.after_wait(slot, waker).generation == state.generation,
        state.after_wait(slot, waker).wakes == state.wakes,
        slot is Some ==> state.after_wait(slot, waker).free == state.free,
        slot is None && state.free.len() == 0 ==> {
            &&& state.slot_for(slot) == state.wakers.dom().len() as usize
            &&& state.after_wait(slot, waker).free == state.free
        },
        slot is None && state.free.len() > 0 ==> {
            &&& state.slot_for(slot) == state.free.last()
            &&& state.after_wait(slot, waker).free == state.free.drop_last()
        },
{
}

/// The next notification wakes an observation by the waker of its latest poll,
/// and by no earlier one.
pub proof fn law_latest_waker_is_woken(
    state: GenerationState,
    slot: Option<usize>,
    earlier: Waker,
    later: Waker,
)
    requires
        state.wakers.dom().finite(),
        earlier != later,
        forall|other: usize|
            state.wakers.contains_key(other) && other != state.slot_for(slot) ==> (
            #[trigger] state.wakers[other]) != earlier,
    ensures
        ({
            let first = state.after_wait(slot, earlier);
            let second = first.after_wait(Some(state.slot_for(slot)), later);
            &&& second.after_notify().wakes.contains(later)
            &&& !state.wakes.contains(earlier) ==> !second.after_notify().wakes.contains(earlier)
        }),
{
    let first = state.after_wait(slot, earlier);
    let second = first.after_wait(Some(state.slot_for(slot)), later);
    let due = waiting_by_key(second.wakers);
    lemma_waiting_holds(second.wakers, state.slot_for(slot));
    lemma_due(state.wakes, due, later);
    lemma_due(state.wakes, due, earlier);
    let keys = law_everybody_comes_in_the_order_of_keys(second.wakers);
    if due.contains(earlier) {
        let i = choose|i: int| 0 <= i < due.len() && due[i] == earlier;
        assert(keys.contains(keys[i]));
        assert(second.wakers[keys[i]] == earlier);
    }
}

/// An observation that ends is out of its slot, which is the next one to be
/// used; one without a slot leaves everything as it is. Shrinking changes
/// nothing but which vacant slots are remembered.
pub proof fn law_ended_observation_leaves_its_slot(state: GenerationState, slot: usize, other: usize)
    ensures
        !state.after_release(Some(slot)).wakers.contains_key(slot),
        other != slot ==> {
            &&& state.after_release(Some(slot)).wakers.contains_key(other)
                == state.wakers.contains_key(other)
            &&& state.wakers.contains_key(other) ==> state.after_release(
                Some(slot),
            ).wakers[other] == state.wakers[other]
        },
        state.after_release(Some(slot)).free == state.free.push(slot),
        state.after_release(Some(slot)).generation == state.generation,
        state.after_release(Some(slot)).wakes == state.wakes,
        state.after_release(None) == state,
        state.after_shrink() == (GenerationState {
            free: after_shrink(state.wakers.dom(), state.free),
            ..state
        }),
        state.has_slot(None),
        state.has_slot(Some(slot)) == state.wakers.contains_key(slot),
{
}

/// An observation is ready exactly when the generation is another one than the
/// one that its consumer has seen last.
pub proof fn law_observation_is_answered_exactly(state: GenerationState, last_generation: usize)
    ensures
        state.poll_result(last_generation) == Poll::Ready(()) <==> state.generation
            != last_generation,
        state.poll_result(last_generation) is Pending <==> state.generation == last_generation,
{
}

/// A notification begins the next generation and makes everybody due who waits,
/// in the order of their slots and behind those who are due already. They keep
/// their slots. A new signal is at generation zero, with nobody waiting.
pub proof fn law_notification_begins_a_generation(state: GenerationState)
    ensures
        state.after_notify().generation != state.generation,
        state.generation < usize::MAX ==> state.after_notify().generation == state.generation + 1,
        state.generation == usize::MAX ==> state.after_notify().generation == 0,
        state.after_notify().wakers == state.wakers,
        state.after_notify().free == state.free,
        state.after_notify().wakes == state.wakes + waiting_by_key(state.wakers),
        GenerationState::fresh().generation == 0,
        GenerationState::fresh().wakers == Map::<usize, Waker>::empty(),
        GenerationState::fresh().free.len() == 0,
        GenerationState::fresh().wakes.len() == 0,
{
}

} // verus!
