//! A value with many producers and one consumer.
//!
//! The consumer has one waker slot: polling a second `observe` while a first
//! one waits replaces its waker, and the first one is then never woken.

use std::marker::PhantomData;
use std::task::{Poll, Waker};

use vstd::prelude::*;

use crate::error::Closed;
use crate::handles::{are_held, count_after, lemma_contains_last, Turn};
use crate::signal::mpsc_finite_latched::{
    lemma_event_loses_no_waker, Event as SignalEvent, FiniteState, MpscFiniteLatchedSignal, Wait,
};

verus! {

/// A value with many producers and one consumer.
pub struct MpscWatchRef<T> {
    data: T,
    signal: MpscFiniteLatchedSignal,
}

/// The state of a watched value.
#[verifier::ext_equal]
pub struct WatchState<T> {
    /// The value.
    pub data: T,
    /// The signal of its changes.
    pub signal: FiniteState,
}

impl<T> WatchState<T> {
    /// The value, not changed yet.
    pub open spec fn fresh(initial: T) -> Self {
        WatchState { data: initial, signal: FiniteState::fresh() }
    }

    /// What an attempt to change the value returns.
    pub open spec fn change_result(self) -> Result<(), Closed> {
        if self.signal.closed {
            Err(Closed)
        } else {
            Ok(())
        }
    }

    /// After an attempt to change the value to `data`.
    pub open spec fn after_change(self, data: T) -> Self {
        if self.signal.closed {
            self
        } else {
            WatchState { data, signal: self.signal.after_notify() }
        }
    }

    /// After one of `handles` producers was given up: the last one closes the
    /// value.
    pub open spec fn after_handle_release(self, handles: nat) -> Self {
        WatchState { signal: self.signal.after_handle_release(handles), ..self }
    }
}

/// `f` can be called to change `data`.
pub open spec fn can_change<T, F: FnOnce(&mut T)>(f: F, data: T) -> bool {
    forall|place: &mut T| *place == data ==> call_requires(f, (place,))
}

impl<T> MpscWatchRef<T> {
    /// The value and its signal.
    pub closed spec fn state(&self) -> WatchState<T> {
        WatchState { data: self.data, signal: self.signal@ }
    }

    /// The signal is well-formed.
    pub open spec fn wf(&self) -> bool {
        self.state().signal.valid()
    }

    /// A watched value.
    pub fn new(initial: T) -> (watch: Self)
        ensures
            watch.wf(),
            watch.state() == WatchState::fresh(initial),
    {
        MpscWatchRef { data: initial, signal: MpscFiniteLatchedSignal::new() }
    }

    /// Changes the value in place and notifies the consumer, unless it is
    /// closed.
    pub fn update<F: FnOnce(&mut T)>(&mut self, f: F) -> (result: Result<(), Closed>)
        requires
            old(self).wf(),
            !old(self).state().signal.closed ==> can_change(f, old(self).state().data),
        ensures
            final(self).wf(),
            result == old(self).state().change_result(),
            final(self).state() == old(self).state().after_change(final(self).state().data),
            !old(self).state().signal.closed ==> exists|place: &mut T|
                *place == old(self).state().data && call_ensures(f, (place,), ()) && *final(place)
                    == final(self).state().data,
    {
        if self.signal.is_closed() {
            return Err(Closed);
        }
        f(&mut self.data);
        self.signal.notify();
        Ok(())
    }

    /// What `f` returns for the value.
    pub fn view<R, F: FnOnce(&T) -> R>(&self, f: F) -> (seen: R)
        requires
            call_requires(f, (&self.state().data,)),
        ensures
            call_ensures(f, (&self.state().data,), seen),
    {
        f(&self.data)
    }

    /// A clone of the value.
    pub fn get(&self) -> (copy: T) where T: Clone
        ensures
            cloned(self.state().data, copy),
    {
        self.data.clone()
    }

    /// Replaces the value and notifies the consumer, unless it is closed.
    pub fn set(&mut self, value: T) -> (result: Result<(), Closed>)
        requires
            old(self).wf(),
        ensures
            final(self).wf(),
            result == old(self).state().change_result(),
            final(self).state() == old(self).state().after_change(value),
    {
        if self.signal.is_closed() {
            return Err(Closed);
        }
        self.data = value;
        self.signal.notify();
        Ok(())
    }

    /// Closes it. The value stays, and a change can still be observed.
    pub fn close(&mut self)
        requires
            old(self).wf(),
        ensures
            final(self).wf(),
            final(self).state() == (WatchState {
                signal: old(self).state().signal.after_close(),
                ..old(self).state()
            }),
    {
        self.signal.close();
    }

    /// Whether it is closed.
    pub fn is_closed(&self) -> (closed: bool)
        ensures
            closed == self.state().signal.closed,
    {
        self.signal.is_closed()
    }

    /// An observation that is ready after a change or the end. Drive it with
    /// [`Wait::poll`] and end it with [`Wait::release`], on
    /// [`Self::signal_mut`]. At most one may be waiting.
    pub fn observe(&self) -> (wait: Wait) {
        self.signal.observe()
    }

    /// Like [`Self::observe`], with earlier changes put aside. What is closed
    /// stays closed.
    pub fn observe_forward(&mut self) -> (wait: Wait)
        requires
            old(self).wf(),
        ensures
            final(self).wf(),
            final(self).state() == (WatchState {
                signal: old(self).state().signal.after_forward(),
                ..old(self).state()
            }),
    {
        self.signal.observe_forward()
    }

    /// The signal of the changes, for observations.
    pub fn signal_mut(&mut self) -> (signal: &mut MpscFiniteLatchedSignal)
        ensures
            signal@ == old(self).state().signal,
            final(self).state() == (WatchState { signal: final(signal)@, ..old(self).state() }),
    {
        &mut self.signal
    }

    /// Hands out the wakers that are due, first due first.
    pub fn take_wakes(&mut self) -> (wakers: Vec<Waker>)
        requires
            old(self).wf(),
        ensures
            final(self).wf(),
            wakers@ == old(self).state().signal.wakes,
            final(self).state() == (WatchState {
                signal: (FiniteState { wakes: Seq::empty(), ..old(self).state().signal }),
                ..old(self).state()
            }),
    {
        self.signal.take_wakes()
    }
}

/// A watched value together with the number of its producers.
pub struct Shared<T> {
    pub watch: MpscWatchRef<T>,
    pub producers: usize,
}

impl<T> Shared<T> {
    /// The value is well-formed, and it is closed once nobody can change it.
    pub open spec fn wf(&self) -> bool {
        &&& self.watch.wf()
        &&& self.producers == 0 ==> self.watch.state().signal.closed
    }
}

/// The right to change a value. There may be many.
pub struct MpscWatchRefProducer<T> {
    watch: PhantomData<T>,
}

/// The right to observe a value. There is one, and it cannot be copied.
pub struct MpscWatchRefConsumer<T> {
    watch: PhantomData<T>,
}

/// A watched value, with a producer and the consumer.
pub fn watch<T>(initial: T) -> (parts: (
    Shared<T>,
    MpscWatchRefProducer<T>,
    MpscWatchRefConsumer<T>,
))
    ensures
        parts.0.wf(),
        parts.0.producers == 1,
        parts.0.watch.state() == WatchState::fresh(initial),
{
    (
        Shared { watch: MpscWatchRef::new(initial), producers: 1 },
        MpscWatchRefProducer { watch: PhantomData },
        MpscWatchRefConsumer { watch: PhantomData },
    )
}

impl<T> MpscWatchRefProducer<T> {
    /// Another producer of the same value.
    pub fn clone(&self, shared: &mut Shared<T>) -> (producer: Self)
        requires
            old(shared).wf(),
            0 < old(shared).producers < usize::MAX,
        ensures
            final(shared).wf(),
            final(shared).producers == old(shared).producers + 1,
            final(shared).watch == old(shared).watch,
    {
        shared.producers = shared.producers + 1;
        MpscWatchRefProducer { watch: PhantomData }
    }

    /// Changes the value in place and notifies the consumer, unless it is
    /// closed.
    pub fn update<F: FnOnce(&mut T)>(&self, shared: &mut Shared<T>, f: F) -> (result: Result<
        (),
        Closed,
    >)
        requires
            old(shared).wf(),
            !old(shared).watch.state().signal.closed ==> can_change(
                f,
                old(shared).watch.state().data,
            ),
        ensures
            final(shared).wf(),
            final(shared).producers == old(shared).producers,
            result == old(shared).watch.state().change_result(),
            final(shared).watch.state() == old(shared).watch.state().after_change(
                final(shared).watch.state().data,
            ),
            !old(shared).watch.state().signal.closed ==> exists|place: &mut T|
                *place == old(shared).watch.state().data && call_ensures(f, (place,), ())
                    && *final(place) == final(shared).watch.state().data,
    {
        shared.watch.update(f)
    }

    /// What `f` returns for the value.
    pub fn view<R, F: FnOnce(&T) -> R>(&self, shared: &Shared<T>, f: F) -> (seen: R)
        requires
            call_requires(f, (&shared.watch.state().data,)),
        ensures
            call_ensures(f, (&shared.watch.state().data,), seen),
    {
        shared.watch.view(f)
    }

    /// A clone of the value.
    pub fn get(&self, shared: &Shared<T>) -> (copy: T) where T: Clone
        ensures
            cloned(shared.watch.state().data, copy),
    {
        shared.watch.get()
    }

    /// Replaces the value and notifies the consumer, unless it is closed.
    pub fn set(&self, shared: &mut Shared<T>, value: T) -> (result: Result<(), Closed>)
        requires
            old(shared).wf(),
        ensures
            final(shared).wf(),
            final(shared).producers == old(shared).producers,
            result == old(shared).watch.state().change_result(),
            final(shared).watch.state() == old(shared).watch.state().after_change(value),
    {
        shared.watch.set(value)
    }

    /// Gives the handle up. The last one closes the value.
    pub fn release(self, shared: &mut Shared<T>)
        requires
            old(shared).wf(),
            old(shared).producers > 0,
        ensures
            final(shared).wf(),
            final(shared).producers == old(shared).producers - 1,
            final(shared).watch.state() == old(shared).watch.state().after_handle_release(
                old(shared).producers as nat,
            ),
    {
        shared.producers = shared.producers - 1;
        if shared.producers == 0 {
            shared.watch.close();
        }
    }
}

impl<T> MpscWatchRefConsumer<T> {
    /// An observation that is ready after a change or the end.
    pub fn changed(&mut self, shared: &Shared<T>) -> (wait: Wait) {
        shared.watch.observe()
    }

    /// Like [`Self::changed`], with earlier changes put aside.
    pub fn changed_forward(&mut self, shared: &mut Shared<T>) -> (wait: Wait)
        requires
            old(shared).wf(),
        ensures
            final(shared).wf(),
            final(shared).producers == old(shared).producers,
            final(shared).watch.state() == (WatchState {
                signal: old(shared).watch.state().signal.after_forward(),
                ..old(shared).watch.state()
            }),
    {
        shared.watch.observe_forward()
    }

    /// Whether it is closed.
    pub fn is_closed(&self, shared: &Shared<T>) -> (closed: bool)
        ensures
            closed == shared.watch.state().signal.closed,
    {
        shared.watch.is_closed()
    }

    /// What `f` returns for the value.
    pub fn view<R, F: FnOnce(&T) -> R>(&self, shared: &Shared<T>, f: F) -> (seen: R)
        requires
            call_requires(f, (&shared.watch.state().data,)),
        ensures
            call_ensures(f, (&shared.watch.state().data,), seen),
    {
        shared.watch.view(f)
    }

    /// A clone of the value.
    pub fn get(&self, shared: &Shared<T>) -> (copy: T) where T: Clone
        ensures
            cloned(shared.watch.state().data, copy),
    {
        shared.watch.get()
    }

    /// Gives the handle up, which closes the value.
    pub fn release(self, shared: &mut Shared<T>)
        requires
            old(shared).wf(),
        ensures
            final(shared).wf(),
            final(shared).producers == old(shared).producers,
            final(shared).watch.state() == (WatchState {
                signal: old(shared).watch.state().signal.after_close(),
                ..old(shared).watch.state()
            }),
    {
        shared.watch.close();
    }
}

/// What was changed last is what is there, and who observes is told so; a
/// closed value is not changed any more.
pub proof fn law_last_change_wins<T>(state: WatchState<T>, first: T, second: T)
    ensures
        !state.signal.closed ==> {
            &&& state.after_change(first).after_change(second).data == second
            &&& state.after_change(first).after_change(second) == state.after_change(second)
            &&& state.after_change(first).signal.poll_result() is Ready
        },
        state.signal.closed ==> {
            &&& state.change_result() == Err::<(), Closed>(Closed)
            &&& state.after_change(first) == state
        },
{
    assert(state.after_change(first).after_change(second).signal.wakes =~= state.after_change(
        second,
    ).signal.wakes);
}

/// Something that happens to a watched value.
pub enum Event<T> {
    /// An attempt to change the value.
    Change(T),
    /// Something that happens to the signal of its changes: it is observed or
    /// closed.
    Signal(SignalEvent),
}

impl<T> WatchState<T> {
    /// After one event.
    pub open spec fn after(self, event: Event<T>) -> Self {
        match event {
            Event::Change(data) => self.after_change(data),
            Event::Signal(event) => WatchState { signal: self.signal.after(event), ..self },
        }
    }

    /// After a run of events.
    pub open spec fn after_all(self, events: Seq<Event<T>>) -> Self
        decreases events.len(),
    {
        if events.len() == 0 {
            self
        } else {
            self.after_all(events.drop_last()).after(events.last())
        }
    }

    /// The event takes the waker out of the slot that it waits in without
    /// making it due: the wait ends, or another waker takes the slot.
    pub open spec fn gives_up(self, event: Event<T>, waker: Waker) -> bool {
        event matches Event::Signal(event) && self.signal.gives_up(event, waker)
    }

    /// No event of the run takes the waker out of its slot without making it
    /// due.
    pub open spec fn keeps_waiting(self, events: Seq<Event<T>>, waker: Waker) -> bool
        decreases events.len(),
    {
        events.len() > 0 ==> {
            &&& self.keeps_waiting(events.drop_last(), waker)
            &&& !self.after_all(events.drop_last()).gives_up(events.last(), waker)
        }
    }

    /// After a run of turns, with `count` producers before it.
    pub open spec fn after_turns(self, count: nat, turns: Seq<Turn<Event<T>>>) -> Self
        decreases turns.len(),
    {
        if turns.len() == 0 {
            self
        } else {
            let before = self.after_turns(count, turns.drop_last());
            match turns.last() {
                Turn::Clone => before,
                Turn::Release => before.after_handle_release(
                    count_after(count, turns.drop_last()),
                ),
                Turn::Other(event) => before.after(event),
            }
        }
    }
}

/// A waker that waits stays in the slot until it is due, and what is due stays
/// due until it is taken, whatever else happens to the value. Left out are only
/// the end of its wait and another wait in its slot.
pub proof fn law_no_waker_is_lost<T>(start: WatchState<T>, events: Seq<Event<T>>, waker: Waker)
    requires
        start.keeps_waiting(events, waker),
        start.signal.waker == Some(waker) || start.signal.wakes.contains(waker),
    ensures
        start.after_all(events).signal.waker == Some(waker) || start.after_all(
            events,
        ).signal.wakes.contains(waker),
    decreases events.len(),
{
    if events.len() > 0 {
        let before = start.after_all(events.drop_last());
        law_no_waker_is_lost(start, events.drop_last(), waker);
        match events.last() {
            Event::Change(_) => lemma_event_loses_no_waker(
                before.signal,
                SignalEvent::Notify,
                waker,
            ),
            Event::Signal(event) => lemma_event_loses_no_waker(before.signal, event, waker),
        }
    }
}

/// Over any run in which producers are cloned and given up, and anything else
/// happens, the value is closed exactly if it was closed before, or by hand, or
/// no producer is left. Giving the consumer up closes it by hand.
pub proof fn law_last_producer_closes<T>(
    start: WatchState<T>,
    count: nat,
    turns: Seq<Turn<Event<T>>>,
)
    requires
        0 < count,
        are_held(count, turns),
    ensures
        start.after_turns(count, turns).signal.closed <==> start.signal.closed || turns.contains(
            Turn::Other(Event::Signal(SignalEvent::Close)),
        ) || count_after(count, turns) == 0,
    decreases turns.len(),
{
    if turns.len() > 0 {
        law_last_producer_closes(start, count, turns.drop_last());
        lemma_contains_last(turns, Turn::Other(Event::Signal(SignalEvent::Close)));
    }
}

/// A change is taken exactly while the value is open: the new value is there and
/// the consumer is notified. A closed value refuses it and stays as it is.
pub proof fn law_change_is_answered_exactly<T>(state: WatchState<T>, data: T)
    ensures
        state.change_result() == Ok::<(), Closed>(()) <==> !state.signal.closed,
        state.change_result() == Err::<(), Closed>(Closed) <==> state.signal.closed,
        state.change_result() is Err ==> state.after_change(data) == state,
        state.change_result() is Ok ==> {
            &&& state.after_change(data).data == data
            &&& state.after_change(data).signal == state.signal.after_notify()
            &&& state.after_change(data).signal.poll_result() == Poll::Ready(
                Ok::<(), Closed>(()),
            )
        },
{
}

/// Giving a producer up leaves the value as it is, and closes it exactly if it
/// was the last one. A new value is the one given, open and not changed yet.
pub proof fn law_release_keeps_the_value<T>(state: WatchState<T>, handles: nat, initial: T)
    ensures
        state.after_handle_release(handles).data == state.data,
        handles != 1 ==> state.after_handle_release(handles).signal == state.signal,
        state.after_handle_release(1).signal == state.signal.after_close(),
        WatchState::fresh(initial).data == initial,
        WatchState::fresh(initial).signal == FiniteState::fresh(),
{
}

} // verus!
