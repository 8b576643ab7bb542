//! A value with many producers and many consumers.
//!
//! A consumer keeps what it has seen of the changes in a key of its own, and a
//! waiting observation has a waker slot of its own.

use std::marker::PhantomData;
use std::task::{Poll, Waker};

use vstd::prelude::*;

use super::mpsc::can_change;
use crate::error::Closed;
use crate::handles::{are_held, count_after, lemma_contains_last, Turn};
use crate::signal::mpmc_finite_latched::{
    gives_up, lemma_event_loses_no_waker, Event as SignalEvent, FiniteGenerationState,
    MpmcFiniteLatchedSignal, MpmcFiniteLatchedSignalConsumerKey, Wait,
};

verus! {

/// What a consumer has seen of the changes of a value.
pub struct MpmcWatchRefConsumerKey(MpmcFiniteLatchedSignalConsumerKey);

impl MpmcWatchRefConsumerKey {
    /// The generation that the consumer has seen last.
    pub closed spec fn last_generation(&self) -> u64 {
        self.0.last_generation()
    }
}

/// A value with many producers and many consumers.
pub struct MpmcWatchRef<T> {
    data: T,
    signal: MpmcFiniteLatchedSignal,
}

/// The state of a watched value.
#[verifier::ext_equal]
pub struct WatchState<T> {
    /// The value.
    pub data: T,
    /// The signal of its changes.
    pub signal: FiniteGenerationState,
}

impl<T> WatchState<T> {
    /// The value, not changed yet.
    pub open spec fn fresh(initial: T) -> Self {
        WatchState { data: initial, signal: FiniteGenerationState::fresh() }
    }

    /// With the vacant waker slots above the greatest one in use forgotten.
    pub open spec fn after_shrink(self) -> Self {
        WatchState { signal: self.signal.after_shrink(), ..self }
    }

    /// After the value was changed to `data`. Once it is closed, nobody is
    /// notified.
    pub open spec fn after_change(self, data: T) -> Self {
        WatchState { data, signal: self.signal.after_notify() }
    }

    /// After one of `handles` producers was given up: the last one closes the
    /// value.
    pub open spec fn after_handle_release(self, handles: nat) -> Self {
        WatchState { signal: self.signal.after_handle_release(handles), ..self }
    }
}

impl<T> MpmcWatchRef<T> {
    /// The value and its signal.
    pub closed spec fn state(&self) -> WatchState<T> {
        WatchState { data: self.data, signal: self.signal@ }
    }

    /// The signal is well-formed.
    pub open spec fn wf(&self) -> bool {
        self.state().signal.valid()
    }

    /// A watched value.
    pub fn new(initial: T) -> (watch: Self)
        ensures
            watch.wf(),
            watch.state() == WatchState::fresh(initial),
    {
        MpmcWatchRef { data: initial, signal: MpmcFiniteLatchedSignal::new() }
    }

    /// Changes the value in place and notifies every consumer.
    pub fn update<F: FnOnce(&mut T)>(&mut self, f: F)
        requires
            old(self).wf(),
            old(self).state().signal.can_count(),
            can_change(f, old(self).state().data),
        ensures
            final(self).wf(),
            final(self).state() == old(self).state().after_change(final(self).state().data),
            exists|place: &mut T|
                *place == old(self).state().data && call_ensures(f, (place,), ()) && *final(place)
                    == final(self).state().data,
    {
        f(&mut self.data);
        let _ = self.signal.notify();
    }

    /// Which generation of changes this is.
    pub fn generation(&self) -> (generation: u64)
        ensures
            generation == self.state().signal.generation,
    {
        self.signal.generation()
    }

    /// What `f` returns for the value.
    pub fn view<R, F: FnOnce(&T) -> R>(&self, f: F) -> (seen: R)
        requires
            call_requires(f, (&self.state().data,)),
        ensures
            call_ensures(f, (&self.state().data,), seen),
    {
        f(&self.data)
    }

    /// A clone of the value.
    pub fn get(&self) -> (copy: T) where T: Clone
        ensures
            cloned(self.state().data, copy),
    {
        self.data.clone()
    }

    /// Closes it. The value stays, and changes can still be observed.
    pub fn close(&mut self)
        requires
            old(self).wf(),
        ensures
            final(self).wf(),
            final(self).state() == (WatchState {
                signal: old(self).state().signal.after_close(),
                ..old(self).state()
            }),
    {
        self.signal.close();
    }

    /// Whether it is closed.
    pub fn is_closed(&self) -> (closed: bool)
        ensures
            closed == self.state().signal.closed,
    {
        self.signal.is_closed()
    }

    /// A key for a consumer that sees earlier changes too.
    pub fn subscribe(&self) -> (key: MpmcWatchRefConsumerKey)
        ensures
            key.last_generation() == 0,
    {
        MpmcWatchRefConsumerKey(self.signal.subscribe())
    }

    /// A key for a consumer that sees changes from now on.
    pub fn subscribe_forward(&self) -> (key: MpmcWatchRefConsumerKey)
        ensures
            key.last_generation() == self.state().signal.generation,
    {
        MpmcWatchRefConsumerKey(self.signal.subscribe_forward())
    }

    /// An observation that is ready after the end, or after a change that the
    /// key has not seen. Drive it with [`Wait::poll`] and end it with
    /// [`Wait::release`], on [`Self::signal_mut`].
    pub fn observe<'b>(&self, key: &'b mut MpmcWatchRefConsumerKey) -> (wait: Wait<'b>)
        ensures
            wait.key.last_generation() == old(key).last_generation(),
            final(wait.key).last_generation() == final(key).last_generation(),
            wait.waker_key is None,
    {
        self.signal.observe(&mut key.0)
    }

    /// The signal of the changes, for observations.
    pub fn signal_mut(&mut self) -> (signal: &mut MpmcFiniteLatchedSignal)
        ensures
            signal@ == old(self).state().signal,
            final(self).state() == (WatchState { signal: final(signal)@, ..old(self).state() }),
    {
        &mut self.signal
    }

    /// Gives unused memory back. Vacant waker slots above the greatest one in
    /// use are forgotten, and nothing else changes.
    pub fn shrink_to_fit(&mut self)
        requires
            old(self).wf(),
        ensures
            final(self).wf(),
            final(self).state() == old(self).state().after_shrink(),
    {
        self.signal.shrink_to_fit();
    }

    /// Hands out the wakers that are due, first due first.
    pub fn take_wakes(&mut self) -> (wakers: Vec<Waker>)
        requires
            old(self).wf(),
        ensures
            final(self).wf(),
            wakers@ == old(self).state().signal.wakes,
            final(self).state() == (WatchState {
                signal: (FiniteGenerationState {
                    wakes: Seq::empty(),
                    ..old(self).state().signal
                }),
                ..old(self).state()
            }),
    {
        self.signal.take_wakes()
    }
}

/// A watched value together with the number of its producers.
pub struct Shared<T> {
    pub watch: MpmcWatchRef<T>,
    pub producer_count: usize,
}

impl<T> Shared<T> {
    /// The value is well-formed, and it is closed once nobody can change it.
    pub open spec fn wf(&self) -> bool {
        &&& self.watch.wf()
        &&& self.producer_count == 0 ==> self.watch.state().signal.closed
    }
}

/// The right to change a value. There may be many.
pub struct MpmcWatchRefProducer<T> {
    watch: PhantomData<T>,
}

/// The right to add consumers. There may be many.
pub struct MpmcWatchRefSource<T> {
    watch: PhantomData<T>,
}

/// A consumer with its key.
pub struct MpmcWatchRefConsumer<T> {
    watch: PhantomData<T>,
    key: MpmcWatchRefConsumerKey,
}

/// A watched value, with a producer and a source.
pub fn watch<T>(initial: T) -> (parts: (
    Shared<T>,
    MpmcWatchRefProducer<T>,
    MpmcWatchRefSource<T>,
))
    ensures
        parts.0.wf(),
        parts.0.producer_count == 1,
        parts.0.watch.state() == WatchState::fresh(initial),
{
    (
        Shared { watch: MpmcWatchRef::new(initial), producer_count: 1 },
        MpmcWatchRefProducer { watch: PhantomData },
        MpmcWatchRefSource { watch: PhantomData },
    )
}

impl<T> MpmcWatchRefProducer<T> {
    /// Another producer of the same value.
    pub fn clone(&self, shared: &mut Shared<T>) -> (producer: Self)
        requires
            old(shared).wf(),
            old(shared).producer_count < usize::MAX,
        ensures
            final(shared).wf(),
            final(shared).producer_count == old(shared).producer_count + 1,
            final(shared).watch == old(shared).watch,
    {
        shared.producer_count = shared.producer_count + 1;
        MpmcWatchRefProducer { watch: PhantomData }
    }

    /// Changes the value in place and notifies every consumer.
    pub fn update<F: FnOnce(&mut T)>(&self, shared: &mut Shared<T>, f: F)
        requires
            old(shared).wf(),
            old(shared).watch.state().signal.can_count(),
            can_change(f, old(shared).watch.state().data),
        ensures
            final(shared).wf(),
            final(shared).producer_count == old(shared).producer_count,
            final(shared).watch.state() == old(shared).watch.state().after_change(
                final(shared).watch.state().data,
            ),
            exists|place: &mut T|
                *place == old(shared).watch.state().data && call_ensures(f, (place,), ())
                    && *final(place) == final(shared).watch.state().data,
    {
        shared.watch.update(f);
    }

    /// What `f` returns for the value.
    pub fn view<R, F: FnOnce(&T) -> R>(&self, shared: &Shared<T>, f: F) -> (seen: R)
        requires
            call_requires(f, (&shared.watch.state().data,)),
        ensures
            call_ensures(f, (&shared.watch.state().data,), seen),
    {
        shared.watch.view(f)
    }

    /// A clone of the value.
    pub fn get(&self, shared: &Shared<T>) -> (copy: T) where T: Clone
        ensures
            cloned(shared.watch.state().data, copy),
    {
        shared.watch.get()
    }

    /// Gives unused memory back. Vacant waker slots above the greatest one in
    /// use are forgotten, and nothing else changes.
    pub fn shrink_to_fit(&self, shared: &mut Shared<T>)
        requires
            old(shared).wf(),
        ensures
            final(shared).wf(),
            final(shared).producer_count == old(shared).producer_count,
            final(shared).watch.state() == old(shared).watch.state().after_shrink(),
    {
        shared.watch.shrink_to_fit();
    }

    /// Gives the handle up. The last one closes the value.
    pub fn release(self, shared: &mut Shared<T>)
        requires
            old(shared).wf(),
            old(shared).producer_count > 0,
        ensures
            final(shared).wf(),
            final(shared).producer_count == old(shared).producer_count - 1,
            final(shared).watch.state() == old(shared).watch.state().after_handle_release(
                old(shared).producer_count as nat,
            ),
    {
        shared.producer_count = shared.producer_count - 1;
        if shared.producer_count == 0 {
            shared.watch.close();
        }
    }
}

impl<T> MpmcWatchRefSource<T> {
    /// Another source of the same value.
    pub fn clone(&self) -> (source: Self) {
        MpmcWatchRefSource { watch: PhantomData }
    }

    /// A consumer that sees earlier changes too.
    pub fn subscribe(&self, shared: &Shared<T>) -> (consumer: MpmcWatchRefConsumer<T>)
        ensures
            consumer.last_generation() == 0,
    {
        MpmcWatchRefConsumer { watch: PhantomData, key: shared.watch.subscribe() }
    }

    /// A consumer that sees changes from now on.
    pub fn subscribe_forward(&self, shared: &Shared<T>) -> (consumer: MpmcWatchRefConsumer<T>)
        ensures
            consumer.last_generation() == shared.watch.state().signal.generation,
    {
        MpmcWatchRefConsumer { watch: PhantomData, key: shared.watch.subscribe_forward() }
    }
}

impl<T> MpmcWatchRefConsumer<T> {
    /// The generation that the consumer has seen last.
    pub closed spec fn last_generation(&self) -> u64 {
        self.key.last_generation()
    }

    /// An observation that is ready after the end, or after a change that the
    /// consumer has not seen.
    pub fn changed<'b>(&'b mut self, shared: &Shared<T>) -> (wait: Wait<'b>)
        ensures
            wait.key.last_generation() == old(self).last_generation(),
            final(wait.key).last_generation() == final(self).last_generation(),
            wait.waker_key is None,
    {
        shared.watch.observe(&mut self.key)
    }

    /// Whether it is closed.
    pub fn is_closed(&self, shared: &Shared<T>) -> (closed: bool)
        ensures
            closed == shared.watch.state().signal.closed,
    {
        shared.watch.is_closed()
    }

    /// What `f` returns for the value.
    pub fn view<R, F: FnOnce(&T) -> R>(&self, shared: &Shared<T>, f: F) -> (seen: R)
        requires
            call_requires(f, (&shared.watch.state().data,)),
        ensures
            call_ensures(f, (&shared.watch.state().data,), seen),
    {
        shared.watch.view(f)
    }

    /// A clone of the value.
    pub fn get(&self, shared: &Shared<T>) -> (copy: T) where T: Clone
        ensures
            cloned(shared.watch.state().data, copy),
    {
        shared.watch.get()
    }
}

/// What was changed last is what is there, and while it is open, every consumer
/// that has seen the changes so far is told of it.
pub proof fn law_last_change_wins<T>(state: WatchState<T>, first: T, second: T)
    requires
        state.signal.can_count(),
    ensures
        state.after_change(first).data == first,
        state.after_change(first).after_change(second).data == second,
        !state.signal.closed ==> state.after_change(first).signal.poll_result(
            state.signal.generation,
        ) is Ready,
        state.signal.closed ==> state.after_change(first).signal == state.signal,
{
}

/// Something that happens to a watched value.
pub enum Event<T> {
    /// An attempt to change the value.
    Change(T),
    /// Something that happens to the signal of its changes: it is observed or
    /// closed.
    Signal(SignalEvent),
}

impl<T> WatchState<T> {
    /// After one event.
    pub open spec fn after(self, event: Event<T>) -> Self {
        match event {
            Event::Change(data) => self.after_change(data),
            Event::Signal(event) => WatchState { signal: self.signal.after(event), ..self },
        }
    }

    /// After a run of events.
    pub open spec fn after_all(self, events: Seq<Event<T>>) -> Self
        decreases events.len(),
    {
        if events.len() == 0 {
            self
        } else {
            self.after_all(events.drop_last()).after(events.last())
        }
    }

    /// Every event of the run can happen when its turn comes.
    pub open spec fn admits_all(self, events: Seq<Event<T>>) -> bool
        decreases events.len(),
    {
        events.len() > 0 ==> {
            &&& self.admits_all(events.drop_last())
            &&& self.after_all(events.drop_last()).signal.admits(on_signal(events.last()))
        }
    }

    /// Some event of the run makes everybody due who then waits.
    pub open spec fn wakes_all_in(self, events: Seq<Event<T>>) -> bool
        decreases events.len(),
    {
        events.len() > 0 && (self.wakes_all_in(events.drop_last()) || self.after_all(
            events.drop_last(),
        ).signal.wakes_all(on_signal(events.last())))
    }

    /// After a run of turns, with `count` producers before it.
    pub open spec fn after_turns(self, count: nat, turns: Seq<Turn<Event<T>>>) -> Self
        decreases turns.len(),
    {
        if turns.len() == 0 {
            self
        } else {
            let before = self.after_turns(count, turns.drop_last());
            match turns.last() {
                Turn::Clone => before,
                Turn::Release => before.after_handle_release(
                    count_after(count, turns.drop_last()),
                ),
                Turn::Other(event) => before.after(event),
            }
        }
    }
}

/// What an event is to the signal: a change notifies.
pub open spec fn on_signal<T>(event: Event<T>) -> SignalEvent {
    match event {
        Event::Change(_) => SignalEvent::Notify,
        Event::Signal(event) => event,
    }
}

/// No event of the run takes the waker out of its slot.
pub open spec fn keeps_waiting<T>(events: Seq<Event<T>>, slot: usize, waker: Waker) -> bool {
    forall|i: int| 0 <= i < events.len() ==> !gives_up(on_signal(#[trigger] events[i]), slot, waker)
}

/// A waker that waits in a slot stays there until its observation ends or waits
/// with another one, and it is due once a change or the end came, whatever else
/// happens to the value. What is due stays due until it is taken.
pub proof fn law_no_waker_is_lost<T>(
    start: WatchState<T>,
    events: Seq<Event<T>>,
    slot: usize,
    waker: Waker,
)
    requires
        start.signal.wakers.dom().finite(),
        start.admits_all(events),
    ensures
        start.after_all(events).signal.wakers.dom().finite(),
        start.signal.wakes.contains(waker) ==> start.after_all(events).signal.wakes.contains(waker),
        start.signal.waits_in(slot, waker) && keeps_waiting(events, slot, waker) ==> {
            &&& start.after_all(events).signal.waits_in(slot, waker)
            &&& start.wakes_all_in(events) ==> start.after_all(events).signal.wakes.contains(waker)
        },
    decreases events.len(),
{
    if events.len() > 0 {
        let earlier = events.drop_last();
        law_no_waker_is_lost(start, earlier, slot, waker);
        lemma_event_loses_no_waker(
            start.after_all(earlier).signal,
            on_signal(events.last()),
            slot,
            waker,
        );
    }
}

/// Over any run in which producers are cloned and given up, and anything else
/// happens, the value is closed exactly if it was closed before, or by hand, or
/// no producer is left.
pub proof fn law_last_producer_closes<T>(
    start: WatchState<T>,
    count: nat,
    turns: Seq<Turn<Event<T>>>,
)
    requires
        0 < count,
        are_held(count, turns),
    ensures
        start.after_turns(count, turns).signal.closed <==> start.signal.closed || turns.contains(
            Turn::Other(Event::Signal(SignalEvent::Close)),
        ) || count_after(count, turns) == 0,
    decreases turns.len(),
{
    if turns.len() > 0 {
        law_last_producer_closes(start, count, turns.drop_last());
        lemma_contains_last(turns, Turn::Other(Event::Signal(SignalEvent::Close)));
    }
}

/// A change is there at once, closed or not. While the value is open, every
/// consumer that has seen all changes so far then observes it, also when the
/// value is closed in between; once it is closed nobody is notified.
pub proof fn law_change_is_observed<T>(state: WatchState<T>, data: T, later: T)
    requires
        !state.signal.closed ==> state.signal.generation + 4 <= u64::MAX,
    ensures
        state.after_change(data).data == data,
        state.after_change(data).signal == state.signal.after_notify(),
        !state.signal.closed ==> {
            &&& state.after_change(data).signal.after_close().poll_result(state.signal.generation)
                == Poll::Ready(Ok::<(), Closed>(()))
            &&& state.after_change(data).after_change(later).signal.after_close().poll_result(
                state.signal.generation,
            ) == Poll::Ready(Ok::<(), Closed>(()))
        },
        state.signal.closed ==> state.after_change(data).signal == state.signal,
{
}

/// Giving a producer up leaves the value as it is, and closes it exactly if it
/// was the last one. Shrinking changes nothing but which vacant slots are
/// remembered. A new value is the one given, open and not changed yet.
pub proof fn law_release_keeps_the_value<T>(state: WatchState<T>, handles: nat, initial: T)
    ensures
        state.after_handle_release(handles).data == state.data,
        handles != 1 ==> state.after_handle_release(handles).signal == state.signal,
        state.after_handle_release(1).signal == state.signal.after_close(),
        state.after_shrink().data == state.data,
        state.after_shrink().signal == state.signal.after_shrink(),
        WatchState::fresh(initial).data == initial,
        WatchState::fresh(initial).signal == FiniteGenerationState::fresh(),
{
}

} // verus!
