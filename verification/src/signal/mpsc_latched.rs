//! A signal with many producers and one consumer.
//!
//! The consumer has one waker slot: polling a second `observe` while a first
//! one waits replaces its waker, and the first one is then never woken.

use std::task::{Poll, Waker};

use vstd::prelude::*;

use crate::wake::{in_slot, lemma_due, WakeList};

verus! {

/// A signal with many producers and one consumer.
pub struct MpscLatchedSignal {
    waker: Option<Waker>,
    signaled: bool,
    wakes: WakeList,
}

/// The state of a signal with one consumer.
#[verifier::ext_equal]
pub struct LatchedState {
    /// Notified since it was last observed.
    pub signaled: bool,
    /// The waker of a consumer that waits.
    pub waker: Option<Waker>,
    /// The wakers that are due, first due first.
    pub wakes: Seq<Waker>,
}

impl LatchedState {
    /// Not notified, and nobody waiting.
    pub open spec fn fresh() -> Self {
        LatchedState { signaled: false, waker: None, wakes: Seq::empty() }
    }

    /// A consumer waits only while there is nothing to observe.
    pub open spec fn valid(self) -> bool {
        self.waker is Some ==> !self.signaled
    }

    /// After a notification: a waiting consumer is due.
    pub open spec fn after_notify(self) -> Self {
        LatchedState { signaled: true, waker: None, wakes: self.wakes + in_slot(self.waker) }
    }

    /// After earlier notifications were put aside.
    pub open spec fn after_forward(self) -> Self {
        LatchedState { signaled: false, ..self }
    }

    /// What a poll of an observation returns.
    pub open spec fn poll_result(self) -> Poll<()> {
        if self.signaled {
            Poll::Ready(())
        } else {
            Poll::Pending
        }
    }

    /// After a poll of an observation, which waits where there is nothing yet.
    pub open spec fn after_poll(self, waker: Waker) -> Self {
        if self.signaled {
            LatchedState { signaled: false, ..self }
        } else {
            LatchedState { waker: Some(waker), ..self }
        }
    }
}

impl View for MpscLatchedSignal {
    type V = LatchedState;

    closed spec fn view(&self) -> LatchedState {
        LatchedState { signaled: self.signaled, waker: self.waker, wakes: self.wakes@ }
    }
}

impl Default for MpscLatchedSignal {
    fn default() -> (signal: Self)
        ensures
            signal.wf(),
            signal@ == LatchedState::fresh(),
    {
        Self::new()
    }
}

impl MpscLatchedSignal {
    /// The state is valid.
    pub open spec fn wf(&self) -> bool {
        self@.valid()
    }

    /// A signal that was not notified.
    pub fn new() -> (signal: Self)
        ensures
            signal.wf(),
            signal@ == LatchedState::fresh(),
    {
        MpscLatchedSignal { waker: None, signaled: false, wakes: WakeList::new() }
    }

    /// Notifies the consumer. Notifications that were not observed yet are one.
    pub fn notify(&mut self)
        requires
            old(self).wf(),
        ensures
            final(self).wf(),
            final(self)@ == old(self)@.after_notify(),
    {
        self.signaled = true;
        let waker = self.waker.take();
        self.wakes.push_slot(waker);
    }

    /// An observation that is ready when the signal is, or was, notified. Drive
    /// it with [`Wait::poll`] and end it with [`Wait::release`]. At most one
    /// may be waiting.
    pub fn observe(&self) -> (wait: Wait) {
        Wait {  }
    }

    /// Like [`Self::observe`], with earlier notifications put aside.
    pub fn observe_forward(&mut self) -> (wait: Wait)
        requires
            old(self).wf(),
        ensures
            final(self).wf(),
            final(self)@ == old(self)@.after_forward(),
    {
        self.signaled = false;
        self.observe()
    }

    /// Hands out the wakers that are due, first due first.
    pub fn take_wakes(&mut self) -> (wakers: Vec<Waker>)
        requires
            old(self).wf(),
        ensures
            final(self).wf(),
            wakers@ == old(self)@.wakes,
            final(self)@ == (LatchedState { wakes: Seq::empty(), ..old(self)@ }),
    {
        self.wakes.take()
    }
}

/// An observation that waits for a notification.
#[non_exhaustive]
pub struct Wait {}

impl Wait {
    /// Observes a notification, or waits for one.
    pub fn poll(&mut self, signal: &mut MpscLatchedSignal, waker: &Waker) -> (result: Poll<()>)
        requires
            old(signal).wf(),
        ensures
            final(signal).wf(),
            result == old(signal)@.poll_result(),
            final(signal)@ == old(signal)@.after_poll(*waker),
    {
        if signal.signaled {
            signal.signaled = false;
            Poll::Ready(())
        } else {
            signal.waker = Some(waker.clone());
            Poll::Pending
        }
    }

    /// Ends the observation. It no longer waits.
    pub fn release(self, signal: &mut MpscLatchedSignal)
        requires
            old(signal).wf(),
        ensures
            final(signal).wf(),
            final(signal)@ == (LatchedState { waker: None, ..old(signal)@ }),
    {
        signal.waker = None;
    }
}

/// The right to notify. There may be many.
#[derive(Clone)]
#[non_exhaustive]
pub struct MpscLatchedSignalProducer {}

/// The right to observe. There is one, and it cannot be copied.
#[non_exhaustive]
pub struct MpscLatchedSignalConsumer {}

/// A signal that was not notified, with its two handles.
pub fn signal() -> (parts: (
    MpscLatchedSignal,
    MpscLatchedSignalProducer,
    MpscLatchedSignalConsumer,
))
    ensures
        parts.0.wf(),
        parts.0@ == LatchedState::fresh(),
{
    (MpscLatchedSignal::new(), MpscLatchedSignalProducer {  }, MpscLatchedSignalConsumer {  })
}

impl MpscLatchedSignalProducer {
    /// Notifies the consumer.
    pub fn notify(&self, signal: &mut MpscLatchedSignal)
        requires
            old(signal).wf(),
        ensures
            final(signal).wf(),
            final(signal)@ == old(signal)@.after_notify(),
    {
        signal.notify();
    }
}

impl MpscLatchedSignalConsumer {
    /// An observation that is ready when the signal is, or was, notified.
    pub fn observe(&mut self, signal: &MpscLatchedSignal) -> (wait: Wait) {
        signal.observe()
    }

    /// Like [`Self::observe`], with earlier notifications put aside.
    pub fn observe_forward(&mut self, signal: &mut MpscLatchedSignal) -> (wait: Wait)
        requires
            old(signal).wf(),
        ensures
            final(signal).wf(),
            final(signal)@ == old(signal)@.after_forward(),
    {
        signal.observe_forward()
    }
}

/// Notifications that were not observed yet are one.
pub proof fn law_notifications_coalesce(state: LatchedState)
    requires
        state.valid(),
    ensures
        state.after_notify().after_notify() == state.after_notify(),
{
    assert(state.after_notify().after_notify().wakes =~= state.after_notify().wakes);
}

/// A notification is observed once, also where nobody waited for it: the first
/// poll after it is ready, and the next one waits.
pub proof fn law_notification_is_latched(state: LatchedState, first: Waker, second: Waker)
    ensures
        state.after_notify().poll_result() == Poll::Ready(()),
        state.after_notify().after_poll(first).poll_result() is Pending,
        state.after_notify().after_poll(first).after_poll(second).waker == Some(second),
{
}

/// A waiting consumer is woken by the next notification, which it then
/// observes.
pub proof fn law_waiting_consumer_is_woken(state: LatchedState, waker: Waker)
    requires
        state.valid(),
        state.waker == Some(waker),
    ensures
        state.poll_result() is Pending,
        state.after_notify().wakes == state.wakes.push(waker),
        state.after_notify().poll_result() == Poll::Ready(()),
{
    assert(state.after_notify().wakes =~= state.wakes.push(waker));
}

/// An observation that looks forward ignores earlier notifications, leaves who
/// waits alone, and is ready after the next notification.
pub proof fn law_forward_ignores_the_past(state: LatchedState)
    ensures
        state.after_notify().after_forward().poll_result() is Pending,
        state.after_forward().waker == state.waker,
        state.after_forward().after_notify().poll_result() == Poll::Ready(()),
{
}

/// Something that happens to a signal.
pub enum Event {
    /// A notification.
    Notify,
    /// Earlier notifications are put aside.
    Forward,
    /// A poll of an observation.
    Poll(Waker),
    /// An observation ends, whether it was waiting or not.
    End,
}

impl LatchedState {
    /// After one event.
    pub open spec fn after(self, event: Event) -> Self {
        match event {
            Event::Notify => self.after_notify(),
            Event::Forward => self.after_forward(),
            Event::Poll(waker) => self.after_poll(waker),
            Event::End => LatchedState { waker: None, ..self },
        }
    }

    /// After a run of events.
    pub open spec fn after_all(self, events: Seq<Event>) -> Self
        decreases events.len(),
    {
        if events.len() == 0 {
            self
        } else {
            self.after_all(events.drop_last()).after(events.last())
        }
    }

    /// The event takes the waker out of the slot that it waits in without
    /// making it due: the wait ends, or another waker takes the slot.
    pub open spec fn gives_up(self, event: Event, waker: Waker) -> bool {
        self.waker == Some(waker) && match event {
            Event::End => true,
            Event::Poll(other) => other != waker,
            _ => false,
        }
    }

    /// No event of the run takes the waker out of its slot without making it
    /// due.
    pub open spec fn keeps_waiting(self, events: Seq<Event>, waker: Waker) -> bool
        decreases events.len(),
    {
        events.len() > 0 ==> {
            &&& self.keeps_waiting(events.drop_last(), waker)
            &&& !self.after_all(events.drop_last()).gives_up(events.last(), waker)
        }
    }
}

/// A waker that waits stays in the slot until it is due, and what is due stays
/// due until it is taken, whatever else happens to the signal. Left out are
/// only the end of its wait and another wait in its slot.
pub proof fn law_no_waker_is_lost(start: LatchedState, events: Seq<Event>, waker: Waker)
    requires
        start.keeps_waiting(events, waker),
        start.waker == Some(waker) || start.wakes.contains(waker),
    ensures
        start.after_all(events).waker == Some(waker) || start.after_all(events).wakes.contains(
            waker,
        ),
    decreases events.len(),
{
    if events.len() > 0 {
        let before = start.after_all(events.drop_last());
        law_no_waker_is_lost(start, events.drop_last(), waker);
        lemma_due(before.wakes, in_slot(before.waker), waker);
    }
}

/// There is one waker slot: who polls later takes the place of who waited, as
/// if that one had never waited.
pub proof fn law_later_waiter_replaces_the_earlier(
    state: LatchedState,
    earlier: Waker,
    later: Waker,
)
    requires
        !state.signaled,
    ensures
        state.after_poll(earlier).after_poll(later) == state.after_poll(later),
{
}

/// An observation is ready exactly when there was a notification that nobody
/// observed, and it observes it. One that has to wait puts its own waker into
/// the slot. Neither wakes anybody.
pub proof fn law_observation_is_answered_exactly(state: LatchedState, waker: Waker)
    ensures
        state.poll_result() == Poll::Ready(()) <==> state.signaled,
        state.poll_result() is Pending <==> !state.signaled,
        state.poll_result() is Ready ==> {
            &&& !state.after_poll(waker).signaled
            &&& state.after_poll(waker).waker == state.waker
        },
        state.poll_result() is Pending ==> {
            &&& !state.after_poll(waker).signaled
            &&& state.after_poll(waker).waker == Some(waker)
        },
        state.after_poll(waker).wakes == state.wakes,
{
}

/// A notification is kept until it is observed or put aside. It makes who waits
/// due, behind those who are due already, and empties the slot. Putting it aside
/// touches nothing else. A new signal has no notification and nobody waiting.
pub proof fn law_notification_is_kept_and_wakes(state: LatchedState)
    ensures
        state.after_notify().signaled,
        state.after_notify().waker is None,
        state.after_notify().wakes == (match state.waker {
            Some(waker) => state.wakes.push(waker),
            None => state.wakes,
        }),
        !state.after_forward().signaled,
        state.after_forward().waker == state.waker,
        state.after_forward().wakes == state.wakes,
        !LatchedState::fresh().signaled,
        LatchedState::fresh().waker is None,
        LatchedState::fresh().wakes.len() == 0,
{
}

} // verus!
