//! A sink that sends through a channel with many producers.

use std::task::{Poll, Waker};

use vstd::prelude::*;

use super::mpsc::{law_slot_is_given_up, Held, MpscChannel, MpscState, Shared};
use crate::error::{Closed, TrySendError};

verus! {

/// A producer that takes an item first and sends it when there is room. It
/// owns the slot that it waits in, and it holds up to one item.
pub struct MpscChannelSink<T> {
    waker_key: Option<usize>,
    pending: Option<T>,
}

impl<T> View for MpscChannelSink<T> {
    type V = Held<T>;

    closed spec fn view(&self) -> Held<T> {
        Held { item: self.pending, key: self.waker_key }
    }
}

impl<T> Held<T> {
    /// The item that is held cannot be sent yet.
    pub open spec fn is_stuck(self, channel: MpscState<T>) -> bool {
        self.item is Some && channel.pipe.is_full() && !channel.pipe.closed
    }

    /// The item that is held is lost to a closed channel.
    pub open spec fn is_refused(self, channel: MpscState<T>) -> bool {
        self.item is Some && channel.pipe.closed
    }

    /// The channel after the item that is held was sent, where it could be.
    pub open spec fn after_flush(self, channel: MpscState<T>) -> MpscState<T> {
        match self.item {
            Some(item) => channel.after_send(item),
            None => channel,
        }
    }

    /// The channel after the slot was given up, where there is one.
    pub open spec fn after_unregister(self, channel: MpscState<T>) -> MpscState<T> {
        match self.key {
            Some(key) => channel.after_unregister(key),
            None => channel,
        }
    }

    /// From `self` and `before`, the sink has come to wait: `held` and `after`.
    pub open spec fn waits(
        self,
        before: MpscState<T>,
        held: Held<T>,
        after: MpscState<T>,
        waker: Waker,
    ) -> bool {
        &&& held.item == self.item
        &&& held.key == Some(before.slot_for(self.key))
        &&& after == before.after_wait(self.key, waker)
        &&& self.key is None ==> !before.producers.contains_key(held.key->0)
    }

    /// The channel after the sink has given its slot up and, as the last one
    /// that can send, has closed the channel.
    pub open spec fn after_teardown(self, channel: MpscState<T>, producers: usize) -> MpscState<T> {
        self.after_unregister(channel).after_release(producers as nat)
    }
}

impl<T> MpscChannelSink<T> {
    pub(crate) fn new() -> (sink: Self)
        ensures
            sink@ == (Held::<T> { item: None, key: None }),
    {
        MpscChannelSink { waker_key: None, pending: None }
    }

    /// Sends the item that is held. Says whether none is held any more.
    fn flush_pending(&mut self, channel: &mut MpscChannel<T>) -> (result: Result<bool, Closed>)
        requires
            old(channel).wf(),
        ensures
            final(channel).wf(),
            result == (if old(self)@.is_refused(old(channel)@) {
                Err(Closed)
            } else {
                Ok(!old(self)@.is_stuck(old(channel)@))
            }),
            final(self)@ == (if old(self)@.is_stuck(old(channel)@) {
                old(self)@
            } else {
                Held { item: None, ..old(self)@ }
            }),
            final(channel)@ == old(self)@.after_flush(old(channel)@),
    {
        let item = match self.pending.take() {
            Some(item) => item,
            None => return Ok(true),
        };
        match channel.try_send(item) {
            Ok(()) => Ok(true),
            Err(TrySendError::Closed(_)) => Err(Closed),
            Err(TrySendError::Full(item)) => {
                self.pending = Some(item);
                Ok(false)
            },
        }
    }

    fn register_waker(&mut self, channel: &mut MpscChannel<T>, waker: &Waker)
        requires
            old(channel).wf(),
            old(channel)@.has_slot(old(self)@.key),
            old(self)@.is_stuck(old(channel)@),
        ensures
            final(channel).wf(),
            old(self)@.waits(old(channel)@, final(self)@, final(channel)@, *waker),
    {
        self.waker_key = channel.wait_for_room(self.waker_key, waker);
    }

    fn teardown(&mut self, shared: &mut Shared<T>)
        requires
            old(shared).wf(),
            old(shared).producers > 0,
            old(shared).channel@.has_slot(old(self)@.key),
        ensures
            final(shared).wf(),
            final(shared).producers == old(shared).producers,
            final(self)@ == (Held { key: None, ..old(self)@ }),
            final(shared).channel@ == old(self)@.after_teardown(
                old(shared).channel@,
                old(shared).producers,
            ),
    {
        if let Some(key) = self.waker_key.take() {
            shared.channel.unregister_producer(key);
        }
        shared.close_if_last();
    }

    /// Waits until the sink can take an item: until it holds none.
    pub fn poll_ready(&mut self, shared: &mut Shared<T>, waker: &Waker) -> (result: Poll<
        Result<(), Closed>,
    >)
        requires
            old(shared).wf(),
            old(shared).channel@.has_slot(old(self)@.key),
        ensures
            final(shared).wf(),
            final(shared).producers == old(shared).producers,
            final(shared).channel@.has_slot(final(self)@.key),
            result is Pending ==> {
                &&& final(self)@.item == old(self)@.item
                &&& final(self)@.key is Some
                &&& final(shared).channel@.producers.contains_key(final(self)@.key->0)
                &&& final(shared).channel@.producers[final(self)@.key->0] == Some(*waker)
            },
            old(self)@.item is Some && old(shared).channel@.pipe.closed ==> result == Poll::Ready(
                Err::<(), Closed>(Closed),
            ),
            result == Poll::Ready(Ok::<(), Closed>(())) && old(self)@.item is Some
                ==> final(shared).channel@.pipe.items == old(shared).channel@.pipe.items.push(
                old(self)@.item->0,
            ),
            old(self)@.is_stuck(old(shared).channel@) ==> {
                &&& result is Pending
                &&& old(self)@.waits(
                    old(shared).channel@,
                    final(self)@,
                    final(shared).channel@,
                    *waker,
                )
            },
            !old(self)@.is_stuck(old(shared).channel@) ==> {
                &&& result == Poll::Ready(
                    if old(shared).channel@.pipe.closed {
                        Err(Closed)
                    } else {
                        Ok(())
                    },
                )
                &&& final(self)@ == (Held { item: None, ..old(self)@ })
                &&& final(shared).channel@ == old(self)@.after_flush(old(shared).channel@)
            },
    {
        match self.flush_pending(&mut shared.channel) {
            Err(closed) => Poll::Ready(Err(closed)),
            Ok(true) => {
                if shared.channel.is_closed() {
                    return Poll::Ready(Err(Closed));
                }
                Poll::Ready(Ok(()))
            },
            Ok(false) => {
                self.register_waker(&mut shared.channel, waker);
                Poll::Pending
            },
        }
    }

    /// Takes an item, after [`Self::poll_ready`] has said that the sink can. A
    /// closed channel drops it.
    pub fn start_send(&mut self, shared: &Shared<T>, item: T) -> (result: Result<(), Closed>)
        requires
            old(self)@.item is None,
        ensures
            result == (if shared.channel@.pipe.closed {
                Err(Closed)
            } else {
                Ok(())
            }),
            final(self)@ == (if shared.channel@.pipe.closed {
                old(self)@
            } else {
                Held { item: Some(item), ..old(self)@ }
            }),
    {
        if shared.channel.is_closed() {
            return Err(Closed);
        }
        self.pending = Some(item);
        Ok(())
    }

    /// Waits until the item that is held, if any, is sent.
    pub fn poll_flush(&mut self, shared: &mut Shared<T>, waker: &Waker) -> (result: Poll<
        Result<(), Closed>,
    >)
        requires
            old(shared).wf(),
            old(shared).channel@.has_slot(old(self)@.key),
        ensures
            final(shared).wf(),
            final(shared).producers == old(shared).producers,
            final(shared).channel@.has_slot(final(self)@.key),
            result is Pending ==> {
                &&& final(self)@.item == old(self)@.item
                &&& final(self)@.key is Some
                &&& final(shared).channel@.producers.contains_key(final(self)@.key->0)
                &&& final(shared).channel@.producers[final(self)@.key->0] == Some(*waker)
            },
            old(self)@.item is Some && old(shared).channel@.pipe.closed ==> result == Poll::Ready(
                Err::<(), Closed>(Closed),
            ),
            result == Poll::Ready(Ok::<(), Closed>(())) && old(self)@.item is Some
                ==> final(shared).channel@.pipe.items == old(shared).channel@.pipe.items.push(
                old(self)@.item->0,
            ),
            old(self)@.is_stuck(old(shared).channel@) ==> {
                &&& result is Pending
                &&& old(self)@.waits(
                    old(shared).channel@,
                    final(self)@,
                    final(shared).channel@,
                    *waker,
                )
            },
            !old(self)@.is_stuck(old(shared).channel@) ==> {
                &&& result == Poll::Ready(
                    if old(self)@.is_refused(old(shared).channel@) {
                        Err(Closed)
                    } else {
                        Ok(())
                    },
                )
                &&& final(self)@ == (Held { item: None, ..old(self)@ })
                &&& final(shared).channel@ == old(self)@.after_flush(old(shared).channel@)
            },
    {
        match self.flush_pending(&mut shared.channel) {
            Err(closed) => Poll::Ready(Err(closed)),
            Ok(true) => Poll::Ready(Ok(())),
            Ok(false) => {
                self.register_waker(&mut shared.channel, waker);
                Poll::Pending
            },
        }
    }

    /// Waits until the item that is held, if any, is sent. Then gives the slot
    /// up and, as the last one that can send, closes the channel.
    pub fn poll_close(&mut self, shared: &mut Shared<T>, waker: &Waker) -> (result: Poll<
        Result<(), Closed>,
    >)
        requires
            old(shared).wf(),
            old(shared).producers > 0,
            old(shared).channel@.has_slot(old(self)@.key),
        ensures
            final(shared).wf(),
            final(shared).producers == old(shared).producers,
            final(shared).channel@.has_slot(final(self)@.key),
            result is Pending ==> {
                &&& final(self)@.item == old(self)@.item
                &&& final(self)@.key is Some
                &&& final(shared).channel@.producers.contains_key(final(self)@.key->0)
                &&& final(shared).channel@.producers[final(self)@.key->0] == Some(*waker)
            },
            old(self)@.item is Some && old(shared).channel@.pipe.closed ==> result == Poll::Ready(
                Err::<(), Closed>(Closed),
            ),
            result == Poll::Ready(Ok::<(), Closed>(())) && old(self)@.item is Some
                ==> final(shared).channel@.pipe.items == old(shared).channel@.pipe.items.push(
                old(self)@.item->0,
            ),
            old(self)@.is_stuck(old(shared).channel@) ==> {
                &&& result is Pending
                &&& old(self)@.waits(
                    old(shared).channel@,
                    final(self)@,
                    final(shared).channel@,
                    *waker,
                )
            },
            !old(self)@.is_stuck(old(shared).channel@) ==> {
                &&& result == Poll::Ready(
                    if old(self)@.is_refused(old(shared).channel@) {
                        Err(Closed)
                    } else {
                        Ok(())
                    },
                )
                &&& final(self)@ == (Held::<T> { item: None, key: None })
                &&& final(shared).channel@ == old(self)@.after_teardown(
                    old(self)@.after_flush(old(shared).channel@),
                    old(shared).producers,
                )
            },
    {
        match self.flush_pending(&mut shared.channel) {
            Err(closed) => {
                self.teardown(shared);
                Poll::Ready(Err(closed))
            },
            Ok(true) => {
                self.teardown(shared);
                Poll::Ready(Ok(()))
            },
            Ok(false) => {
                self.register_waker(&mut shared.channel, waker);
                Poll::Pending
            },
        }
    }

    /// Gives the sink up, with the item that it holds. The last one that can
    /// send closes the channel.
    pub fn release(self, shared: &mut Shared<T>)
        requires
            old(shared).wf(),
            old(shared).producers > 0,
            old(shared).channel@.has_slot(self@.key),
        ensures
            final(shared).wf(),
            final(shared).producers == old(shared).producers - 1,
            final(shared).channel@ == self@.after_teardown(
                old(shared).channel@,
                old(shared).producers,
            ),
    {
        let mut sink = self;
        sink.teardown(shared);
        shared.producers = shared.producers - 1;
    }
}

/// What a sink holds is not lost: while the channel is open, the item is either
/// sent, as the last one in the queue, or still held.
pub proof fn law_sink_keeps_its_item<T>(held: Held<T>, channel: MpscState<T>)
    requires
        held.item is Some,
        !channel.pipe.closed,
    ensures
        if held.is_stuck(channel) {
            held.after_flush(channel) == channel
        } else {
            held.after_flush(channel).pipe.items == channel.pipe.items.push(held.item->0)
        },
{
}

/// The last one that can send closes the channel, and nobody else does.
pub proof fn law_last_sink_closes<T>(held: Held<T>, channel: MpscState<T>, producers: usize)
    requires
        !channel.pipe.closed,
        channel.has_slot(held.key),
    ensures
        held.after_teardown(channel, producers).pipe.closed == (producers == 1),
        held.after_teardown(channel, producers).pipe.items == channel.pipe.items,
{
}

/// A sink that holds an item is told the truth about it, whether it has waited
/// before or not: it has to wait exactly while the channel is open and full, it
/// is refused exactly when the channel is closed, and in every other case the
/// item is now the last one in the queue. A sink that holds nothing is never
/// refused and never waits.
pub proof fn law_flush_is_answered_exactly<T>(held: Held<T>, channel: MpscState<T>)
    ensures
        held.item is None ==> {
            &&& !held.is_stuck(channel)
            &&& !held.is_refused(channel)
            &&& held.after_flush(channel) == channel
        },
        held.item matches Some(item) ==> {
            &&& held.is_refused(channel) <==> channel.pipe.closed
            &&& held.is_stuck(channel) <==> !channel.pipe.closed && channel.pipe.items.len()
                >= channel.pipe.capacity
            &&& held.is_refused(channel) || held.is_stuck(channel) ==> held.after_flush(channel)
                == channel
            &&& !held.is_refused(channel) && !held.is_stuck(channel) ==> {
                &&& held.after_flush(channel).pipe.items.last() == item
                &&& held.after_flush(channel).pipe.items.drop_last() == channel.pipe.items
                &&& held.after_flush(channel).pipe.closed == channel.pipe.closed
                &&& held.after_flush(channel).producers == channel.producers
                &&& held.after_flush(channel).wakes == (match channel.consumer_waker {
                    Some(waker) => channel.wakes.push(waker),
                    None => channel.wakes,
                })
            }
        },
{
    if held.item is Some {
        assert(channel.pipe.items.push(held.item->0).drop_last() =~= channel.pipe.items);
    }
}

/// A sink that has come to wait still holds its item, and the waker of that very
/// poll is in its slot, which it keeps if it had one. Nothing is sent, nobody is
/// woken, and the slots of others stay as they are.
pub proof fn law_waiting_sink_is_registered<T>(
    before: Held<T>,
    channel: MpscState<T>,
    held: Held<T>,
    after: MpscState<T>,
    waker: Waker,
    other: usize,
)
    requires
        before.waits(channel, held, after, waker),
    ensures
        held.item == before.item,
        held.key is Some,
        before.key is Some ==> held.key == before.key,
        before.key is None ==> !channel.producers.contains_key(held.key->0),
        after.producers.contains_key(held.key->0),
        after.producers[held.key->0] == Some(waker),
        other != held.key->0 && channel.producers.contains_key(other) ==> {
            &&& after.producers.contains_key(other)
            &&& after.producers[other] == channel.producers[other]
        },
        after.pipe == channel.pipe,
        after.consumer_waker == channel.consumer_waker,
        after.wakes == channel.wakes,
{
}

/// A sink that is given up has no slot any more, and closes the channel exactly
/// if it is the last one that can send. What is queued stays. One without a slot
/// disturbs nobody unless it closes.
pub proof fn law_given_up_sink_leaves_no_trace<T>(
    held: Held<T>,
    channel: MpscState<T>,
    producers: usize,
)
    ensures
        held.key is Some && !channel.pipe.closed ==> !held.after_teardown(
            channel,
            producers,
        ).producers.contains_key(held.key->0),
        held.key is Some && producers != 1 ==> held.after_teardown(channel, producers)
            == channel.after_unregister(held.key->0),
        held.key is Some && producers == 1 ==> held.after_teardown(channel, producers)
            == channel.after_unregister(held.key->0).after_close(),
        held.key is None && producers != 1 ==> held.after_teardown(channel, producers) == channel,
        held.key is None && producers == 1 ==> held.after_teardown(channel, producers)
            == channel.after_close(),
        held.after_unregister(channel).pipe == channel.pipe,
{
    if let Some(key) = held.key {
        law_slot_is_given_up(channel, key);
    }
}

} // verus!
