//! A signal with many producers and one consumer that can be closed.
//!
//! The consumer has one waker slot: polling a second `observe` while a first
//! one waits replaces its waker, and the first one is then never woken.

use std::task::{Poll, Waker};

use vstd::prelude::*;

use crate::error::Closed;
use crate::handles::{are_held, count_after, lemma_contains_last, Turn};
use crate::wake::{in_slot, lemma_due, WakeList};

verus! {

/// What a signal remembers.
#[derive(Clone, Copy, Debug, PartialEq, Eq, Structural)]
struct Flags {
    changed: bool,
    closed: bool,
}

/// A signal with many producers and one consumer that can be closed.
pub struct MpscFiniteLatchedSignal {
    state: Flags,
    waker: Option<Waker>,
    wakes: WakeList,
}

/// The state of a signal with one consumer that can be closed.
#[verifier::ext_equal]
pub struct FiniteState {
    /// Notified since it was last observed.
    pub changed: bool,
    /// Whether the signal is closed.
    pub closed: bool,
    /// The waker of a consumer that waits.
    pub waker: Option<Waker>,
    /// The wakers that are due, first due first.
    pub wakes: Seq<Waker>,
}

impl FiniteState {
    /// Open and not notified, and nobody waiting.
    pub open spec fn fresh() -> Self {
        FiniteState { changed: false, closed: false, waker: None, wakes: Seq::empty() }
    }

    /// A consumer waits only while there is nothing to observe; nobody waits
    /// for a closed signal.
    pub open spec fn valid(self) -> bool {
        self.waker is Some ==> !self.changed && !self.closed
    }

    /// A waiting consumer is made due.
    pub open spec fn after_wake(self) -> Self {
        FiniteState { waker: None, wakes: self.wakes + in_slot(self.waker), ..self }
    }

    /// After a notification: a waiting consumer is due.
    pub open spec fn after_notify(self) -> Self {
        FiniteState { changed: true, ..self }.after_wake()
    }

    /// After closing: a waiting consumer is due.
    pub open spec fn after_close(self) -> Self {
        FiniteState { closed: true, ..self }.after_wake()
    }

    /// After one of `handles` producers was given up: the last one closes the
    /// signal.
    pub open spec fn after_handle_release(self, handles: nat) -> Self {
        if handles == 1 {
            self.after_close()
        } else {
            self
        }
    }

    /// After earlier notifications were put aside.
    pub open spec fn after_forward(self) -> Self {
        FiniteState { changed: false, ..self }
    }

    /// What a poll of an observation returns. A notification comes before the
    /// news that the signal is closed.
    pub open spec fn poll_result(self) -> Poll<Result<(), Closed>> {
        if self.changed {
            Poll::Ready(Ok(()))
        } else if self.closed {
            Poll::Ready(Err(Closed))
        } else {
            Poll::Pending
        }
    }

    /// After a poll of an observation, which waits where there is nothing yet.
    pub open spec fn after_poll(self, waker: Waker) -> Self {
        if self.changed {
            FiniteState { changed: false, ..self }
        } else if self.closed {
            self
        } else {
            FiniteState { waker: Some(waker), ..self }
        }
    }
}

impl View for MpscFiniteLatchedSignal {
    type V = FiniteState;

    closed spec fn view(&self) -> FiniteState {
        FiniteState {
            changed: self.state.changed,
            closed: self.state.closed,
            waker: self.waker,
            wakes: self.wakes@,
        }
    }
}

impl Default for MpscFiniteLatchedSignal {
    fn default() -> (signal: Self)
        ensures
            signal.wf(),
            signal@ == FiniteState::fresh(),
    {
        Self::new()
    }
}

impl MpscFiniteLatchedSignal {
    /// The state is valid.
    pub open spec fn wf(&self) -> bool {
        self@.valid()
    }

    /// An open signal that was not notified.
    pub fn new() -> (signal: Self)
        ensures
            signal.wf(),
            signal@ == FiniteState::fresh(),
    {
        MpscFiniteLatchedSignal {
            state: Flags { changed: false, closed: false },
            waker: None,
            wakes: WakeList::new(),
        }
    }

    /// Notifies the consumer. Notifications that were not observed yet are one.
    pub fn notify(&mut self)
        requires
            old(self).wf(),
        ensures
            final(self).wf(),
            final(self)@ == old(self)@.after_notify(),
    {
        self.state.changed = true;
        let waker = self.waker.take();
        self.wakes.push_slot(waker);
    }

    /// Closes the signal. A notification can still be observed.
    pub fn close(&mut self)
        requires
            old(self).wf(),
        ensures
            final(self).wf(),
            final(self)@ == old(self)@.after_close(),
    {
        self.state.closed = true;
        let waker = self.waker.take();
        self.wakes.push_slot(waker);
    }

    /// Whether the signal is closed.
    pub fn is_closed(&self) -> (closed: bool)
        ensures
            closed == self@.closed,
    {
        self.state.closed
    }

    /// An observation that is ready when the signal is, or was, notified or
    /// closed. Drive it with [`Wait::poll`] and end it with [`Wait::release`].
    /// At most one may be waiting.
    pub fn observe(&self) -> (wait: Wait) {
        Wait {  }
    }

    /// Like [`Self::observe`], with earlier notifications put aside. A closed
    /// signal stays closed.
    pub fn observe_forward(&mut self) -> (wait: Wait)
        requires
            old(self).wf(),
        ensures
            final(self).wf(),
            final(self)@ == old(self)@.after_forward(),
    {
        self.state.changed = false;
        self.observe()
    }

    /// Hands out the wakers that are due, first due first.
    pub fn take_wakes(&mut self) -> (wakers: Vec<Waker>)
        requires
            old(self).wf(),
        ensures
            final(self).wf(),
            wakers@ == old(self)@.wakes,
            final(self)@ == (FiniteState { wakes: Seq::empty(), ..old(self)@ }),
    {
        self.wakes.take()
    }
}

/// An observation that waits for a notification or for the end.
#[non_exhaustive]
pub struct Wait {}

impl Wait {
    /// Observes a notification or the end, or waits.
    pub fn poll(&mut self, signal: &mut MpscFiniteLatchedSignal, waker: &Waker) -> (result: Poll<
        Result<(), Closed>,
    >)
        requires
            old(signal).wf(),
        ensures
            final(signal).wf(),
            result == old(signal)@.poll_result(),
            final(signal)@ == old(signal)@.after_poll(*waker),
    {
        if signal.state.changed {
            signal.state.changed = false;
            Poll::Ready(Ok(()))
        } else if signal.state.closed {
            Poll::Ready(Err(Closed))
        } else {
            signal.waker = Some(waker.clone());
            Poll::Pending
        }
    }

    /// Ends the observation. It no longer waits.
    pub fn release(self, signal: &mut MpscFiniteLatchedSignal)
        requires
            old(signal).wf(),
        ensures
            final(signal).wf(),
            final(signal)@ == (FiniteState { waker: None, ..old(signal)@ }),
    {
        signal.waker = None;
    }
}

/// A signal together with the number of its producers.
pub struct Shared {
    pub signal: MpscFiniteLatchedSignal,
    pub producers: usize,
}

impl Shared {
    /// The signal is well-formed, and it is closed once nobody can notify.
    pub open spec fn wf(&self) -> bool {
        &&& self.signal.wf()
        &&& self.producers == 0 ==> self.signal@.closed
    }
}

/// The right to notify. There may be many.
#[non_exhaustive]
pub struct MpscFiniteLatchedSignalProducer {}

/// The right to observe. There is one, and it cannot be copied.
#[non_exhaustive]
pub struct MpscFiniteLatchedSignalConsumer {}

/// An open signal that was not notified, with a producer and the consumer.
pub fn signal() -> (parts: (
    Shared,
    MpscFiniteLatchedSignalProducer,
    MpscFiniteLatchedSignalConsumer,
))
    ensures
        parts.0.wf(),
        parts.0.producers == 1,
        parts.0.signal@ == FiniteState::fresh(),
{
    (
        Shared { signal: MpscFiniteLatchedSignal::new(), producers: 1 },
        MpscFiniteLatchedSignalProducer {  },
        MpscFiniteLatchedSignalConsumer {  },
    )
}

impl MpscFiniteLatchedSignalProducer {
    /// Another producer of the same signal.
    pub fn clone(&self, shared: &mut Shared) -> (producer: Self)
        requires
            old(shared).wf(),
            0 < old(shared).producers < usize::MAX,
        ensures
            final(shared).wf(),
            final(shared).producers == old(shared).producers + 1,
            final(shared).signal == old(shared).signal,
    {
        shared.producers = shared.producers + 1;
        MpscFiniteLatchedSignalProducer {  }
    }

    /// Notifies the consumer.
    pub fn notify(&self, shared: &mut Shared)
        requires
            old(shared).wf(),
        ensures
            final(shared).wf(),
            final(shared).producers == old(shared).producers,
            final(shared).signal@ == old(shared).signal@.after_notify(),
    {
        shared.signal.notify();
    }

    /// Closes the signal.
    pub fn close(&self, shared: &mut Shared)
        requires
            old(shared).wf(),
        ensures
            final(shared).wf(),
            final(shared).producers == old(shared).producers,
            final(shared).signal@ == old(shared).signal@.after_close(),
    {
        shared.signal.close();
    }

    /// Gives the handle up. The last one closes the signal.
    pub fn release(self, shared: &mut Shared)
        requires
            old(shared).wf(),
            old(shared).producers > 0,
        ensures
            final(shared).wf(),
            final(shared).producers == old(shared).producers - 1,
            final(shared).signal@ == old(shared).signal@.after_handle_release(
                old(shared).producers as nat,
            ),
    {
        shared.producers = shared.producers - 1;
        if shared.producers == 0 {
            shared.signal.close();
        }
    }
}

impl MpscFiniteLatchedSignalConsumer {
    /// An observation that is ready when the signal is, or was, notified or
    /// closed.
    pub fn observe(&mut self, shared: &Shared) -> (wait: Wait) {
        shared.signal.observe()
    }
}

/// Notifications that were not observed yet are one.
pub proof fn law_notifications_coalesce(state: FiniteState)
    ensures
        state.after_notify().after_notify() == state.after_notify(),
{
    assert(state.after_notify().after_notify().wakes =~= state.after_notify().wakes);
}

/// A notification is observed before the end, once, and then the end is, by
/// every further poll; the order in which the two came does not matter.
pub proof fn law_notification_comes_before_the_end(
    state: FiniteState,
    first: Waker,
    second: Waker,
)
    ensures
        state.after_notify().after_close().poll_result() == Poll::Ready(Ok::<(), Closed>(())),
        state.after_notify().after_close().after_poll(first).poll_result() == Poll::Ready(
            Err::<(), Closed>(Closed),
        ),
        state.after_notify().after_close().after_poll(first).after_poll(second).poll_result()
            == Poll::Ready(Err::<(), Closed>(Closed)),
        state.after_close().after_notify() == state.after_notify().after_close(),
{
    assert(state.after_close().after_notify().wakes =~= state.after_notify().after_close().wakes);
}

/// A closed signal stays closed, and closing it again changes nothing.
pub proof fn law_closed_for_good(state: FiniteState, waker: Waker)
    ensures
        state.after_close().after_close() == state.after_close(),
        state.closed ==> state.after_notify().closed && state.after_forward().closed
            && state.after_poll(waker).closed,
{
    assert(state.after_close().after_close().wakes =~= state.after_close().wakes);
}

/// A waiting consumer is woken by the next notification and by closing, and is
/// then told which it was.
pub proof fn law_waiting_consumer_is_woken(state: FiniteState, waker: Waker)
    requires
        state.valid(),
        state.waker == Some(waker),
    ensures
        state.poll_result() is Pending,
        state.after_notify().wakes == state.wakes.push(waker),
        state.after_notify().poll_result() == Poll::Ready(Ok::<(), Closed>(())),
        state.after_close().wakes == state.wakes.push(waker),
        state.after_close().poll_result() == Poll::Ready(Err::<(), Closed>(Closed)),
{
    assert(state.after_notify().wakes =~= state.wakes.push(waker));
    assert(state.after_close().wakes =~= state.wakes.push(waker));
}

/// An observation that looks forward ignores earlier notifications, but not
/// that the signal is closed.
pub proof fn law_forward_ignores_the_past(state: FiniteState)
    ensures
        state.after_notify().after_forward().poll_result() == (if state.closed {
            Poll::Ready(Err::<(), Closed>(Closed))
        } else {
            Poll::Pending
        }),
        state.after_forward().after_notify().poll_result() == Poll::Ready(Ok::<(), Closed>(())),
{
}

/// Something that happens to a signal.
pub enum Event {
    /// A notification.
    Notify,
    /// The signal is closed.
    Close,
    /// Earlier notifications are put aside.
    Forward,
    /// A poll of an observation.
    Poll(Waker),
    /// An observation ends, whether it was waiting or not.
    End,
}

impl FiniteState {
    /// After one event.
    pub open spec fn after(self, event: Event) -> Self {
        match event {
            Event::Notify => self.after_notify(),
            Event::Close => self.after_close(),
            Event::Forward => self.after_forward(),
            Event::Poll(waker) => self.after_poll(waker),
            Event::End => FiniteState { waker: None, ..self },
        }
    }

    /// After a run of events.
    pub open spec fn after_all(self, events: Seq<Event>) -> Self
        decreases events.len(),
    {
        if events.len() == 0 {
            self
        } else {
            self.after_all(events.drop_last()).after(events.last())
        }
    }

    /// The event takes the waker out of the slot that it waits in without
    /// making it due: the wait ends, or another waker takes the slot.
    pub open spec fn gives_up(self, event: Event, waker: Waker) -> bool {
        self.waker == Some(waker) && match event {
            Event::End => true,
            Event::Poll(other) => other != waker,
            _ => false,
        }
    }

    /// No event of the run takes the waker out of its slot without making it
    /// due.
    pub open spec fn keeps_waiting(self, events: Seq<Event>, waker: Waker) -> bool
        decreases events.len(),
    {
        events.len() > 0 ==> {
            &&& self.keeps_waiting(events.drop_last(), waker)
            &&& !self.after_all(events.drop_last()).gives_up(events.last(), waker)
        }
    }

    /// After a run of turns, with `count` producers before it.
    pub open spec fn after_turns(self, count: nat, turns: Seq<Turn<Event>>) -> Self
        decreases turns.len(),
    {
        if turns.len() == 0 {
            self
        } else {
            let before = self.after_turns(count, turns.drop_last());
            match turns.last() {
                Turn::Clone => before,
                Turn::Release => before.after_handle_release(
                    count_after(count, turns.drop_last()),
                ),
                Turn::Other(event) => before.after(event),
            }
        }
    }
}

/// One event loses no waker, unless it gives it up.
pub(crate) proof fn lemma_event_loses_no_waker(before: FiniteState, event: Event, waker: Waker)
    requires
        !before.gives_up(event, waker),
        before.waker == Some(waker) || before.wakes.contains(waker),
    ensures
        before.after(event).waker == Some(waker) || before.after(event).wakes.contains(waker),
{
    lemma_due(before.wakes, in_slot(before.waker), waker);
}

/// A waker that waits stays in the slot until it is due, and what is due stays
/// due until it is taken, whatever else happens to the signal. Left out are
/// only the end of its wait and another wait in its slot.
pub proof fn law_no_waker_is_lost(start: FiniteState, events: Seq<Event>, waker: Waker)
    requires
        start.keeps_waiting(events, waker),
        start.waker == Some(waker) || start.wakes.contains(waker),
    ensures
        start.after_all(events).waker == Some(waker) || start.after_all(events).wakes.contains(
            waker,
        ),
    decreases events.len(),
{
    if events.len() > 0 {
        law_no_waker_is_lost(start, events.drop_last(), waker);
        lemma_event_loses_no_waker(start.after_all(events.drop_last()), events.last(), waker);
    }
}

/// Over any run in which producers are cloned and given up, and anything else
/// happens, the signal is closed exactly if it was closed before, or by hand, or
/// no producer is left.
pub proof fn law_last_producer_closes(start: FiniteState, count: nat, turns: Seq<Turn<Event>>)
    requires
        0 < count,
        are_held(count, turns),
    ensures
        start.after_turns(count, turns).closed <==> start.closed || turns.contains(
            Turn::Other(Event::Close),
        ) || count_after(count, turns) == 0,
    decreases turns.len(),
{
    if turns.len() > 0 {
        law_last_producer_closes(start, count, turns.drop_last());
        lemma_contains_last(turns, Turn::Other(Event::Close));
    }
}

/// There is one waker slot: who polls later takes the place of who waited, as
/// if that one had never waited.
pub proof fn law_later_waiter_replaces_the_earlier(
    state: FiniteState,
    earlier: Waker,
    later: Waker,
)
    requires
        state.poll_result() is Pending,
    ensures
        state.after_poll(earlier).after_poll(later) == state.after_poll(later),
{
}

/// An observation is ready with a notification exactly when there was one that
/// nobody observed, closed or not, and it observes it. Only without one is it
/// told of the end, exactly when the signal is closed. One that has to wait puts
/// its own waker into the slot.
pub proof fn law_observation_is_answered_exactly(state: FiniteState, waker: Waker)
    ensures
        state.poll_result() == Poll::Ready(Ok::<(), Closed>(())) <==> state.changed,
        state.poll_result() == Poll::Ready(Err::<(), Closed>(Closed)) <==> !state.changed
            && state.closed,
        state.poll_result() is Pending <==> !state.changed && !state.closed,
        !state.after_poll(waker).changed,
        state.after_poll(waker).closed == state.closed,
        state.after_poll(waker).wakes == state.wakes,
        state.after_poll(waker).waker == (if state.poll_result() is Pending {
            Some(waker)
        } else {
            state.waker
        }),
{
}

/// A notification is kept until it is observed or put aside, and closing neither
/// makes nor takes one. Both make who waits due, behind those who are due
/// already, and empty the slot.
pub proof fn law_notification_and_end_wake(state: FiniteState)
    ensures
        state.after_notify().changed,
        state.after_notify().closed == state.closed,
        state.after_close().closed,
        state.after_close().changed == state.changed,
        state.after_notify().waker is None,
        state.after_close().waker is None,
        state.after_notify().wakes == (match state.waker {
            Some(waker) => state.wakes.push(waker),
            None => state.wakes,
        }),
        state.after_close().wakes == state.after_notify().wakes,
{
}

/// Putting notifications aside touches neither the end nor who waits. Giving a
/// producer up changes nothing unless it is the last one, which closes. A new
/// signal is open, without a notification and with nobody waiting.
pub proof fn law_forward_and_release_disturb_nobody(state: FiniteState, handles: nat)
    ensures
        !state.after_forward().changed,
        state.after_forward().closed == state.closed,
        state.after_forward().waker == state.waker,
        state.after_forward().wakes == state.wakes,
        handles != 1 ==> state.after_handle_release(handles) == state,
        state.after_handle_release(1) == state.after_close(),
        !FiniteState::fresh().changed,
        !FiniteState::fresh().closed,
        FiniteState::fresh().waker is None,
        FiniteState::fresh().wakes.len() == 0,
{
}

} // verus!
