//! A queue with a fixed capacity that hands every item to every consumer.

use std::collections::VecDeque;

use vstd::prelude::*;

use super::RecvEffect;
use crate::slots::{after_shrink, after_use, lists_ascending, next_key, Slots};

verus! {

/// Names one subscription to one queue.
///
/// The slot of a subscription is used again after it has ended, so the key also
/// holds the number of the subscription and the label of the queue.
#[derive(Debug, Clone, Copy, PartialEq, Eq, Hash, Structural)]
pub struct ConsumerKey {
    label: u64,
    index: usize,
    number: u64,
}

/// What a key stands for.
pub struct Ticket {
    /// The label of the queue.
    pub label: u64,
    /// The slot of the subscription.
    pub slot: usize,
    /// The number of the subscription.
    pub number: u64,
}

impl View for ConsumerKey {
    type V = Ticket;

    closed spec fn view(&self) -> Ticket {
        Ticket { label: self.label, slot: self.index, number: self.number }
    }
}

impl ConsumerKey {
    /// The slot of the subscription.
    pub fn index(self) -> (index: usize)
        ensures
            index == self@.slot,
    {
        self.index
    }
}

/// A queue with a fixed capacity that hands every item to every consumer.
///
/// The items that some consumer has still to receive are kept once, in
/// `buffer`. `tail` counts the items that were ever buffered, so the buffered
/// ones have the numbers from `tail - buffer.len()` up to `tail`. A consumer's
/// cursor is the number of the item that it receives next.
///
/// Subscriptions are numbered by `next_number`, which begins anew after the
/// greatest number. `label` tells the keys of one queue from those of another.
#[verifier::reject_recursive_types(C)]
pub struct BroadcastQueue<T, C = ()> {
    buffer: VecDeque<T>,
    capacity: usize,
    tail: u64,
    cached_min_cursor: u64,
    consumers: Slots<ConsumerSlot<C>>,
    next_number: u64,
    label: u64,
}

struct ConsumerSlot<C> {
    cursor: u64,
    number: u64,
    context: C,
}

/// What one consumer has still to receive, oldest first, its number and its
/// context.
pub struct Subscription<T, C> {
    pub pending: Seq<T>,
    pub number: u64,
    pub context: C,
}

/// The subscription number after `number`. After the greatest one comes zero.
pub open spec fn next_number(number: u64) -> u64 {
    if number == u64::MAX {
        0
    } else {
        (number + 1) as u64
    }
}

/// A broadcast queue as its users see it: what each consumer has still to
/// receive, under the consumer's slot.
#[verifier::ext_equal]
#[verifier::reject_recursive_types(T)]
#[verifier::reject_recursive_types(C)]
pub struct BroadcastView<T, C> {
    pub capacity: nat,
    pub consumers: Map<usize, Subscription<T, C>>,
    /// The slots that were given up, the one that is used next last.
    pub free: Seq<usize>,
    /// The number of the next subscription.
    pub next_number: u64,
    /// What tells the keys of this queue from those of another.
    pub label: u64,
}

impl<T, C> BroadcastView<T, C> {
    /// No consumers, and no slot was given up.
    pub open spec fn fresh(capacity: nat, label: u64) -> Self {
        BroadcastView {
            capacity,
            consumers: Map::empty(),
            free: Seq::empty(),
            next_number: 0,
            label,
        }
    }

    /// What the key of the next consumer stands for.
    pub open spec fn next_ticket(self) -> Ticket {
        Ticket {
            label: self.label,
            slot: next_key(self.consumers.dom(), self.free),
            number: self.next_number,
        }
    }

    /// The key is that of a subscription to this queue that has not ended.
    pub open spec fn is_live(self, key: Ticket) -> bool {
        &&& key.label == self.label
        &&& self.consumers.contains_key(key.slot)
        &&& self.consumers[key.slot].number == key.number
    }

    /// The consumer under `key` is as far behind as the capacity allows.
    pub open spec fn lags(self, key: usize) -> bool {
        self.consumers.contains_key(key) && self.consumers[key].pending.len() >= self.capacity
    }

    /// Some consumer is as far behind as the capacity allows.
    pub open spec fn is_full(self) -> bool {
        exists|key: usize| self.lags(key)
    }

    /// Nobody is subscribed.
    pub open spec fn is_deserted(self) -> bool {
        forall|key: usize| !self.consumers.contains_key(key)
    }

    /// No consumer is further behind than the capacity allows.
    pub open spec fn valid(self) -> bool {
        &&& self.capacity > 0
        &&& self.consumers.dom().finite()
        &&& forall|key: usize|
            self.consumers.contains_key(key) ==> (
            #[trigger] self.consumers[key]).pending.len() <= self.capacity
    }

    /// With one more consumer, who has nothing to receive yet.
    pub open spec fn subscribed(self, key: usize, context: C) -> Self {
        BroadcastView {
            consumers: self.consumers.insert(
                key,
                Subscription { pending: Seq::empty(), number: self.next_number, context },
            ),
            free: after_use(self.free),
            next_number: next_number(self.next_number),
            ..self
        }
    }

    /// Without the consumer under `key`, whose slot is the next one to be used.
    pub open spec fn unsubscribed(self, key: usize) -> Self {
        BroadcastView {
            consumers: self.consumers.remove(key),
            free: self.free.push(key),
            ..self
        }
    }

    /// With the vacant slots above the greatest one in use forgotten.
    pub open spec fn shrunk(self) -> Self {
        BroadcastView { free: after_shrink(self.consumers.dom(), self.free), ..self }
    }

    /// With one more item for every consumer.
    pub open spec fn sent(self, item: T) -> Self {
        BroadcastView {
            consumers: self.consumers.map_values(
                |s: Subscription<T, C>|
                    Subscription { pending: s.pending.push(item), ..s },
            ),
            ..self
        }
    }

    /// After the consumer under `key` has received its oldest item.
    pub open spec fn received(self, key: usize) -> Self {
        BroadcastView {
            consumers: self.consumers.insert(
                key,
                Subscription {
                    pending: self.consumers[key].pending.drop_first(),
                    ..self.consumers[key]
                },
            ),
            ..self
        }
    }

    /// With another context for the consumer under `key`.
    pub open spec fn with_context(self, key: usize, context: C) -> Self {
        BroadcastView {
            consumers: self.consumers.insert(
                key,
                Subscription { context, ..self.consumers[key] },
            ),
            ..self
        }
    }
}

/// Whether the step between two states made room in a full queue.
pub open spec fn effect_between<T, C>(
    before: BroadcastView<T, C>,
    after: BroadcastView<T, C>,
) -> RecvEffect {
    if before.is_full() && !after.is_full() {
        RecvEffect::Unblocked
    } else {
        RecvEffect::NoChange
    }
}

impl<T, C> View for BroadcastQueue<T, C> {
    type V = BroadcastView<T, C>;

    closed spec fn view(&self) -> BroadcastView<T, C> {
        BroadcastView {
            capacity: self.capacity as nat,
            consumers: self.consumers@.map_values(
                |slot: ConsumerSlot<C>|
                    Subscription {
                        pending: self.buffer@.skip(slot.cursor - self.spec_head()),
                        number: slot.number,
                        context: slot.context,
                    },
            ),
            free: self.consumers.free(),
            next_number: self.next_number,
            label: self.label,
        }
    }
}

impl<T, C> BroadcastQueue<T, C> {
    /// How many items were ever buffered.
    pub closed spec fn sequence(&self) -> u64 {
        self.tail
    }

    spec fn spec_head(&self) -> int {
        self.tail - self.buffer@.len()
    }

    /// The buffer reaches back to the cursors but need not start at one.
    spec fn covers_cursors(&self) -> bool {
        &&& self.capacity > 0
        &&& self.buffer@.len() <= self.capacity
        &&& self.buffer@.len() <= self.tail
        &&& self.consumers@.dom().finite()
        &&& forall|key: usize|
            self.consumers@.contains_key(key) ==> self.spec_head() <= (
            #[trigger] self.consumers@[key]).cursor <= self.tail
    }

    /// `cursor` is the least cursor, or the tail where nobody is subscribed.
    spec fn is_min_cursor(&self, cursor: u64) -> bool {
        &&& self.consumers@ == Map::<usize, ConsumerSlot<C>>::empty() ==> cursor == self.tail
        &&& self.consumers@ != Map::<usize, ConsumerSlot<C>>::empty() ==> exists|key: usize|
            self.consumers@.contains_key(key) && (#[trigger] self.consumers@[key]).cursor == cursor
        &&& forall|key: usize|
            self.consumers@.contains_key(key) ==> cursor <= (
            #[trigger] self.consumers@[key]).cursor
    }

    /// The queue holds exactly what some consumer has still to receive, no
    /// consumer is further behind than the capacity allows, and the cursor that
    /// is remembered is the least one.
    pub closed spec fn wf(&self) -> bool {
        &&& self.covers_cursors()
        &&& self.is_min_cursor(self.cached_min_cursor)
        &&& self.cached_min_cursor == self.spec_head()
    }

    /// What a well-formed queue shows to its users is valid.
    pub proof fn lemma_valid(&self)
        requires
            self.wf(),
        ensures
            self@.valid(),
    {
        assert(self@.consumers.dom() =~= self.consumers@.dom());
    }

    /// A consumer is behind by the whole capacity exactly when the buffer is full.
    proof fn lemma_full(&self)
        requires
            self.wf(),
        ensures
            self@.is_full() == (self.buffer@.len() == self.capacity),
            self@.is_deserted() == (self.consumers@ == Map::<usize, ConsumerSlot<C>>::empty()),
    {
        if self.buffer@.len() == self.capacity {
            let key = choose|key: usize|
                self.consumers@.contains_key(key) && (#[trigger] self.consumers@[key]).cursor
                    == self.cached_min_cursor;
            assert(self@.lags(key));
        }
        if self@.is_full() {
            let key = choose|key: usize| self@.lags(key);
            assert(self.consumers@.contains_key(key));
        }
        if self@.is_deserted() {
            assert forall|key: usize| !self.consumers@.contains_key(key) by {
                assert(self@.consumers.contains_key(key) == self.consumers@.contains_key(key));
            }
            assert(self.consumers@ =~= Map::empty());
        }
    }

    /// An empty queue for `capacity` items, without consumers. Which label it has
    /// is not promised. All queues made in this way have the same one, so a key
    /// of one of them can be live for another: where keys of several queues can
    /// meet, use [`Self::labelled`].
    pub fn new(capacity: usize) -> (queue: Self)
        requires
            capacity > 0,
        ensures
            queue.wf(),
            queue@ == BroadcastView::<T, C>::fresh(capacity as nat, queue@.label),
            queue.sequence() == 0,
    {
        Self::labelled(capacity, 0)
    }

    /// An empty queue for `capacity` items, without consumers, with a label. A
    /// key of a queue with another label is never live for it.
    pub fn labelled(capacity: usize, label: u64) -> (queue: Self)
        requires
            capacity > 0,
        ensures
            queue.wf(),
            queue@ == BroadcastView::<T, C>::fresh(capacity as nat, label),
            queue.sequence() == 0,
    {
        let queue = BroadcastQueue {
            buffer: VecDeque::with_capacity(capacity),
            capacity,
            tail: 0,
            cached_min_cursor: 0,
            consumers: Slots::new(),
            next_number: 0,
            label,
        };
        assert(queue@.consumers =~= Map::empty());
        queue
    }

    /// The number of the oldest buffered item.
    fn head(&self) -> (head: u64)
        requires
            self.covers_cursors(),
        ensures
            head == self.spec_head(),
    {
        self.tail - self.buffer.len() as u64
    }

    /// The least cursor, or the tail where nobody is subscribed.
    fn compute_min_cursor(&self) -> (min: u64)
        requires
            self.covers_cursors(),
        ensures
            self.is_min_cursor(min),
    {
        let keys = self.consumers.keys();
        let mut min: u64 = self.tail;
        let mut i: usize = 0;
        while i < keys.len()
            invariant
                i <= keys.len(),
                lists_ascending(keys@, self.consumers@.dom()),
                self.covers_cursors(),
                min <= self.tail,
                forall|j: int| 0 <= j < i ==> min <= self.consumers@[#[trigger] keys@[j]].cursor,
                i > 0 ==> exists|j: int|
                    0 <= j < i && self.consumers@[#[trigger] keys@[j]].cursor == min,
                i == 0 ==> min == self.tail,
            decreases keys.len() - i,
        {
            let key: usize = keys[i];
            assert(keys@.contains(key));
            let cursor: u64 = self.consumers.get(key).cursor;
            if i == 0 || cursor < min {
                min = cursor;
                assert(self.consumers@[keys@[i as int]].cursor == min);
            }
            i += 1;
        }
        proof {
            assert forall|key: usize| self.consumers@.contains_key(key) implies min <= (
            #[trigger] self.consumers@[key]).cursor by {
                assert(keys@.contains(key));
                let j = choose|j: int| 0 <= j < keys.len() && keys@[j] == key;
            }
            if keys.len() > 0 {
                let j = choose|j: int|
                    0 <= j < keys.len() && self.consumers@[#[trigger] keys@[j]].cursor == min;
                assert(keys@.contains(keys@[j]));
            } else {
                assert forall|key: usize| !self.consumers@.contains_key(key) by {
                    assert(!keys@.contains(key));
                }
                assert(self.consumers@ =~= Map::empty());
            }
        }
        min
    }

    /// Drops the buffered items that every consumer has received.
    fn gc(&mut self)
        requires
            old(self).covers_cursors(),
            old(self).is_min_cursor(old(self).cached_min_cursor),
            old(self).spec_head() <= old(self).cached_min_cursor <= old(self).tail,
        ensures
            final(self).wf(),
            final(self)@ == old(self)@,
            final(self).sequence() == old(self).sequence(),
            final(self).consumers == old(self).consumers,
            final(self).cached_min_cursor == old(self).cached_min_cursor,
            final(self).capacity == old(self).capacity,
            final(self).buffer@ == old(self).buffer@.skip(
                old(self).cached_min_cursor - old(self).spec_head(),
            ),
    {
        let head: u64 = self.head();
        let mut left: u64 = self.cached_min_cursor.saturating_sub(head);
        let ghost dropped = left as int;
        while left > 0
            invariant
                0 <= left <= dropped <= old(self).buffer@.len(),
                self.buffer@ == old(self).buffer@.skip(dropped - left),
                self.capacity == old(self).capacity,
                self.tail == old(self).tail,
                self.cached_min_cursor == old(self).cached_min_cursor,
                self.consumers == old(self).consumers,
                self.next_number == old(self).next_number,
                self.label == old(self).label,
            decreases left,
        {
            let _ = self.buffer.pop_front();
            left -= 1;
            assert(self.buffer@ =~= old(self).buffer@.skip(dropped - left));
        }
        proof {
            assert forall|key: usize| self.consumers@.contains_key(key) implies self.buffer@.skip(
                (#[trigger] self.consumers@[key]).cursor - self.spec_head(),
            ) == old(self).buffer@.skip(
                self.consumers@[key].cursor - old(self).spec_head(),
            ) by {
                assert(self.buffer@.skip(self.consumers@[key].cursor - self.spec_head())
                    =~= old(self).buffer@.skip(
                    self.consumers@[key].cursor - old(self).spec_head(),
                ));
            }
            assert(self@.consumers =~= old(self)@.consumers);
        }
    }

    /// Adds a consumer with its context. It receives the items that are sent
    /// from now on.
    pub fn subscribe_with_context(&mut self, context: C) -> (id: ConsumerKey)
        requires
            old(self).wf(),
        ensures
            final(self).wf(),
            id@ == old(self)@.next_ticket(),
            !old(self)@.consumers.contains_key(id@.slot),
            final(self)@ == old(self)@.subscribed(id@.slot, context),
            final(self).sequence() == old(self).sequence(),
    {
        assert(self@.consumers.dom() =~= self.consumers@.dom());
        let cursor: u64 = self.tail;
        let number: u64 = self.next_number;
        let key: usize = self.consumers.insert(ConsumerSlot { cursor, number, context });
        self.next_number = number.wrapping_add(1);
        proof {
            assert(self.consumers@[key].cursor == self.tail);
            if old(self).consumers@ != Map::<usize, ConsumerSlot<C>>::empty() {
                let least = choose|k: usize|
                    old(self).consumers@.contains_key(k) && (#[trigger] old(
                        self,
                    ).consumers@[k]).cursor == self.cached_min_cursor;
                assert(self.consumers@.contains_key(least) && self.consumers@[least].cursor
                    == self.cached_min_cursor);
            }
            assert(self.buffer@.skip(self.buffer@.len() as int) =~= Seq::empty());
            assert(self@.consumers =~= old(self)@.subscribed(key, context).consumers);
        }
        ConsumerKey { label: self.label, index: key, number }
    }

    /// Removes a consumer, and says whether that made room in a full queue.
    pub fn unsubscribe(&mut self, id: ConsumerKey) -> (effect: RecvEffect)
        requires
            old(self).wf(),
            old(self)@.is_live(id@),
        ensures
            final(self).wf(),
            final(self)@ == old(self)@.unsubscribed(id@.slot),
            effect == effect_between(old(self)@, final(self)@),
            final(self).sequence() == old(self).sequence(),
    {
        proof {
            self.lemma_full();
        }
        let slot = self.consumers.remove(id.index);
        let cursor: u64 = slot.cursor;

        let was_full = self.buffer.len() == self.capacity;

        assert(self@.consumers =~= old(self)@.unsubscribed(id@.slot).consumers);
        if cursor == self.cached_min_cursor {
            let min: u64 = self.compute_min_cursor();
            assert(self.is_min_cursor(min));
            self.cached_min_cursor = min;
            assert(self@ == old(self)@.unsubscribed(id@.slot));
            self.gc();
        } else {
            proof {
                let least = choose|k: usize|
                    old(self).consumers@.contains_key(k) && (#[trigger] old(
                        self,
                    ).consumers@[k]).cursor == self.cached_min_cursor;
                assert(self.consumers@.contains_key(least) && self.consumers@[least].cursor
                    == self.cached_min_cursor);
            }
        }
        proof {
            self.lemma_full();
        }

        if was_full && self.buffer.len() < self.capacity {
            RecvEffect::Unblocked
        } else {
            RecvEffect::NoChange
        }
    }

    /// The context of a consumer, to be changed in place.
    pub fn consumer_context_mut(&mut self, id: ConsumerKey) -> (context: &mut C)
        requires
            old(self).wf(),
            old(self)@.is_live(id@),
        ensures
            *context == old(self)@.consumers[id@.slot].context,
            final(self).wf(),
            final(self)@ == old(self)@.with_context(id@.slot, *final(context)),
            final(self).sequence() == old(self).sequence(),
    {
        self.context_at(id.index)
    }

    /// The context of the consumer in a slot, to be changed in place.
    pub(crate) fn context_at(&mut self, index: usize) -> (context: &mut C)
        requires
            old(self).wf(),
            old(self)@.consumers.contains_key(index),
        ensures
            *context == old(self)@.consumers[index].context,
            final(self).wf(),
            final(self)@ == old(self)@.with_context(index, *final(context)),
            final(self).sequence() == old(self).sequence(),
    {
        let context = &mut self.consumers.get_mut(index).context;
        proof {
            let least = choose|k: usize|
                old(self).consumers@.contains_key(k) && (#[trigger] old(self).consumers@[k]).cursor
                    == old(self).cached_min_cursor;
            let slot = ConsumerSlot { context: *final(context), ..old(self).consumers@[index] };
            let after = old(self).consumers@.insert(index, slot);
            assert(after.contains_key(least) && after[least].cursor == old(
                self,
            ).cached_min_cursor);
        }
        context
    }

    /// Hands the item to every consumer, or hands it back when the slowest
    /// consumer leaves no room. Without consumers the item is dropped.
    pub fn try_send(&mut self, item: T) -> (result: Result<(), T>)
        requires
            old(self).wf(),
            old(self)@.is_deserted() || old(self)@.is_full() || old(self).sequence() < u64::MAX,
        ensures
            final(self).wf(),
            old(self)@.is_full() ==> {
                &&& result == Err::<(), T>(item)
                &&& final(self)@ == old(self)@
                &&& final(self).sequence() == old(self).sequence()
            },
            !old(self)@.is_full() ==> {
                &&& result == Ok::<(), T>(())
                &&& final(self)@ == old(self)@.sent(item)
            },
            old(self)@.is_deserted() ==> final(self).sequence() == old(self).sequence(),
            !old(self)@.is_deserted() && !old(self)@.is_full() ==> final(self).sequence() == old(
                self,
            ).sequence() + 1,
    {
        proof {
            self.lemma_full();
        }
        if self.consumers.is_empty() {
            self.cached_min_cursor = self.tail;
            self.gc();
            assert(self@.consumers =~= old(self)@.sent(item).consumers);
            return Ok(());
        }
        self.gc();
        assert(self.buffer@ =~= old(self).buffer@);

        if self.buffer.len() >= self.capacity {
            return Err(item);
        }
        self.buffer.push_back(item);
        self.tail = self.tail + 1;
        proof {
            assert forall|key: usize| self.consumers@.contains_key(key) implies self.buffer@.skip(
                (#[trigger] self.consumers@[key]).cursor - self.spec_head(),
            ) == old(self).buffer@.skip(
                self.consumers@[key].cursor - old(self).spec_head(),
            ).push(item) by {
                assert(self.buffer@.skip(self.consumers@[key].cursor - self.spec_head())
                    =~= old(self).buffer@.skip(
                    self.consumers@[key].cursor - old(self).spec_head(),
                ).push(item));
            }
            assert(self@.consumers =~= old(self)@.sent(item).consumers);
        }
        Ok(())
    }

    /// Whether the key is that of a subscription to this queue that has not
    /// ended.
    pub(crate) fn is_subscribed(&self, id: ConsumerKey) -> (subscribed: bool)
        ensures
            subscribed == self@.is_live(id@),
    {
        id.label == self.label && self.consumers.contains(id.index) && self.consumers.get(
            id.index,
        ).number == id.number
    }

    /// How many items were ever buffered.
    pub(crate) fn items_sent(&self) -> (count: u64)
        ensures
            count == self.sequence(),
    {
        self.tail
    }

    /// Whether there is no room for another item.
    pub(crate) fn is_full(&self) -> (full: bool)
        requires
            self.wf(),
        ensures
            full == self@.is_full(),
    {
        proof {
            self.lemma_full();
        }
        self.buffer.len() >= self.capacity
    }

    /// Whether nobody is subscribed.
    pub(crate) fn is_deserted(&self) -> (deserted: bool)
        requires
            self.wf(),
        ensures
            deserted == self@.is_deserted(),
    {
        proof {
            self.lemma_full();
        }
        self.consumers.is_empty()
    }

    /// The slots of all consumers, least first.
    pub(crate) fn consumer_keys(&self) -> (keys: Vec<usize>)
        requires
            self.wf(),
        ensures
            lists_ascending(keys@, self@.consumers.dom()),
    {
        let keys = self.consumers.keys();
        assert(self@.consumers.dom() =~= self.consumers@.dom());
        keys
    }

    /// Gives unused memory of the buffer back. What is queued stays.
    pub fn shrink_buffer_to_fit(&mut self)
        requires
            old(self).wf(),
        ensures
            final(self).wf(),
            final(self)@ == old(self)@,
            final(self).sequence() == old(self).sequence(),
    {
        self.gc();
        super::shrink_deque(&mut self.buffer);
    }

    /// Gives unused memory of the list of consumers back. Every consumer keeps
    /// its key. Vacant slots above the greatest one in use are forgotten.
    pub fn shrink_consumers_to_fit(&mut self)
        requires
            old(self).wf(),
        ensures
            final(self).wf(),
            final(self)@ == old(self)@.shrunk(),
            final(self).sequence() == old(self).sequence(),
    {
        assert(self@.consumers.dom() =~= self.consumers@.dom());
        self.consumers.shrink_to_fit();
    }

    /// Shows the consumer's oldest item to the visitor and counts it as
    /// received, or hands the visitor back when there is none. Says whether
    /// that made room in a full queue.
    pub fn try_recv_ref<F, R>(
        &mut self,
        id: ConsumerKey,
        visitor: F,
    ) -> (result: Result<(R, RecvEffect), F>) where F: FnOnce(&T) -> R
        requires
            old(self).wf(),
            old(self)@.is_live(id@),
            old(self)@.consumers[id@.slot].pending.len() > 0 ==> call_requires(
                visitor,
                (&old(self)@.consumers[id@.slot].pending.first(),),
            ),
        ensures
            final(self).wf(),
            final(self).sequence() == old(self).sequence(),
            old(self)@.consumers[id@.slot].pending.len() == 0 ==> {
                &&& result == Err::<(R, RecvEffect), F>(visitor)
                &&& final(self)@ == old(self)@
            },
            old(self)@.consumers[id@.slot].pending.len() > 0 ==> {
                &&& result matches Ok((seen, effect))
                &&& call_ensures(visitor, (&old(self)@.consumers[id@.slot].pending.first(),), seen)
                &&& effect == effect_between(old(self)@, final(self)@)
                &&& final(self)@ == old(self)@.received(id@.slot)
            },
    {
        proof {
            self.lemma_full();
            assert(self.consumers@.contains_key(id@.slot));
        }
        let cursor: u64 = self.consumers.get(id.index).cursor;
        if cursor >= self.tail {
            return Err(visitor);
        }
        let head: u64 = self.head();
        let result = visitor(&self.buffer[(cursor - head) as usize]);

        let slot = self.consumers.get_mut(id.index);
        slot.cursor = cursor + 1;
        proof {
            assert(self.buffer@.skip(cursor + 1 - self.spec_head()) =~= self.buffer@.skip(
                cursor - self.spec_head(),
            ).drop_first());
            assert(self@.consumers =~= old(self)@.received(id@.slot).consumers);
        }

        let was_full = self.buffer.len() == self.capacity;
        if cursor == self.cached_min_cursor {
            let min: u64 = self.compute_min_cursor();
            self.cached_min_cursor = min;
            assert(self.consumers@.contains_key(id@.slot));
            assert(self@ == old(self)@.received(id@.slot));
            self.gc();
        } else {
            proof {
                let least = choose|k: usize|
                    old(self).consumers@.contains_key(k) && (#[trigger] old(
                        self,
                    ).consumers@[k]).cursor == self.cached_min_cursor;
                assert(self.consumers@.contains_key(least) && self.consumers@[least].cursor
                    == self.cached_min_cursor);
            }
        }
        proof {
            self.lemma_full();
        }

        let effect = if was_full && self.buffer.len() < self.capacity {
            RecvEffect::Unblocked
        } else {
            RecvEffect::NoChange
        };
        Ok((result, effect))
    }
}

impl<T: Clone, C> BroadcastQueue<T, C> {
    /// Takes a clone of the consumer's oldest item, and says whether that made
    /// room in a full queue.
    pub fn try_recv(&mut self, id: ConsumerKey) -> (result: Option<(T, RecvEffect)>)
        requires
            old(self).wf(),
            old(self)@.is_live(id@),
        ensures
            final(self).wf(),
            final(self).sequence() == old(self).sequence(),
            old(self)@.consumers[id@.slot].pending.len() == 0 ==> {
                &&& result is None
                &&& final(self)@ == old(self)@
            },
            old(self)@.consumers[id@.slot].pending.len() > 0 ==> {
                &&& result matches Some((item, effect))
                &&& cloned(old(self)@.consumers[id@.slot].pending.first(), item)
                &&& effect == effect_between(old(self)@, final(self)@)
                &&& final(self)@ == old(self)@.received(id@.slot)
            },
    {
        match self.try_recv_ref(id, T::clone) {
            Ok(received) => Some(received),
            Err(_) => None,
        }
    }
}

/// An item is handed to every consumer, behind what that one has still to
/// receive. Nobody is added or removed, and nothing else changes.
pub proof fn law_item_reaches_every_consumer<T, C>(
    queue: BroadcastView<T, C>,
    item: T,
    slot: usize,
)
    ensures
        queue.sent(item).consumers.contains_key(slot) == queue.consumers.contains_key(slot),
        queue.consumers.contains_key(slot) ==> {
            &&& queue.sent(item).consumers[slot].pending.len()
                == queue.consumers[slot].pending.len() + 1
            &&& queue.sent(item).consumers[slot].pending.last() == item
            &&& queue.sent(item).consumers[slot].pending.drop_last()
                == queue.consumers[slot].pending
            &&& queue.sent(item).consumers[slot].number == queue.consumers[slot].number
            &&& queue.sent(item).consumers[slot].context == queue.consumers[slot].context
        },
        queue.sent(item).capacity == queue.capacity,
        queue.sent(item).free == queue.free,
        queue.sent(item).next_number == queue.next_number,
        queue.sent(item).label == queue.label,
{
    if queue.consumers.contains_key(slot) {
        assert(queue.consumers[slot].pending.push(item).drop_last()
            =~= queue.consumers[slot].pending);
    }
}

/// A consumer that receives loses exactly its oldest item, and nobody else loses
/// anything.
pub proof fn law_receive_takes_the_oldest<T, C>(
    queue: BroadcastView<T, C>,
    slot: usize,
    other: usize,
)
    requires
        queue.consumers.contains_key(slot),
        queue.consumers[slot].pending.len() > 0,
    ensures
        queue.received(slot).consumers.contains_key(slot),
        queue.consumers[slot].pending == seq![queue.consumers[slot].pending[0]] + queue.received(
            slot,
        ).consumers[slot].pending,
        queue.received(slot).consumers[slot].number == queue.consumers[slot].number,
        queue.received(slot).consumers[slot].context == queue.consumers[slot].context,
        other != slot ==> {
            &&& queue.received(slot).consumers.contains_key(other)
                == queue.consumers.contains_key(other)
            &&& queue.consumers.contains_key(other) ==> queue.received(slot).consumers[other]
                == queue.consumers[other]
        },
        queue.received(slot).capacity == queue.capacity,
        queue.received(slot).free == queue.free,
        queue.received(slot).next_number == queue.next_number,
        queue.received(slot).label == queue.label,
{
    assert(queue.consumers[slot].pending =~= seq![queue.consumers[slot].pending[0]]
        + queue.consumers[slot].pending.drop_first());
}

/// A new consumer has nothing to receive and the next number, which is another
/// one for the consumer after it. Nobody else is touched.
pub proof fn law_new_consumer_starts_with_nothing<T, C>(
    queue: BroadcastView<T, C>,
    slot: usize,
    context: C,
    other: usize,
)
    ensures
        queue.subscribed(slot, context).consumers.contains_key(slot),
        queue.subscribed(slot, context).consumers[slot].pending.len() == 0,
        queue.subscribed(slot, context).consumers[slot].number == queue.next_number,
        queue.subscribed(slot, context).consumers[slot].context == context,
        other != slot ==> {
            &&& queue.subscribed(slot, context).consumers.contains_key(other)
                == queue.consumers.contains_key(other)
            &&& queue.consumers.contains_key(other) ==> queue.subscribed(
                slot,
                context,
            ).consumers[other] == queue.consumers[other]
        },
        queue.subscribed(slot, context).next_number != queue.next_number,
        queue.next_number < u64::MAX ==> queue.subscribed(slot, context).next_number
            == queue.next_number + 1,
        queue.next_number == u64::MAX ==> queue.subscribed(slot, context).next_number == 0,
        queue.subscribed(slot, context).capacity == queue.capacity,
        queue.subscribed(slot, context).label == queue.label,
        queue.free.len() > 0 ==> queue.subscribed(slot, context).free == queue.free.drop_last(),
        queue.free.len() == 0 ==> queue.subscribed(slot, context).free == queue.free,
{
}

/// A consumer that is removed is gone, its slot is the next one to be used, and
/// nobody else is touched. The context of one consumer is its own. Shrinking
/// changes nothing but which vacant slots are remembered.
pub proof fn law_one_consumer_at_a_time<T, C>(
    queue: BroadcastView<T, C>,
    slot: usize,
    context: C,
    other: usize,
)
    ensures
        !queue.unsubscribed(slot).consumers.contains_key(slot),
        other != slot ==> {
            &&& queue.unsubscribed(slot).consumers.contains_key(other)
                == queue.consumers.contains_key(other)
            &&& queue.consumers.contains_key(other) ==> queue.unsubscribed(slot).consumers[other]
                == queue.consumers[other]
            &&& queue.consumers.contains_key(other) ==> queue.with_context(
                slot,
                context,
            ).consumers[other] == queue.consumers[other]
            &&& queue.with_context(slot, context).consumers.contains_key(other)
                == queue.consumers.contains_key(other)
        },
        queue.unsubscribed(slot).free == queue.free.push(slot),
        queue.unsubscribed(slot).capacity == queue.capacity,
        queue.unsubscribed(slot).next_number == queue.next_number,
        queue.unsubscribed(slot).label == queue.label,
        queue.with_context(slot, context).consumers[slot].context == context,
        queue.with_context(slot, context).consumers[slot].pending == queue.consumers[slot].pending,
        queue.with_context(slot, context).consumers[slot].number == queue.consumers[slot].number,
        queue.with_context(slot, context).consumers.contains_key(slot),
        queue.with_context(slot, context).capacity == queue.capacity,
        queue.with_context(slot, context).free == queue.free,
        queue.with_context(slot, context).next_number == queue.next_number,
        queue.with_context(slot, context).label == queue.label,
        queue.shrunk() == (BroadcastView {
            free: after_shrink(queue.consumers.dom(), queue.free),
            ..queue
        }),
{
}

/// A key is live exactly while a consumer is subscribed in its slot under its
/// number and the queue has its label. The next key names the next number, in
/// the slot that was given up last or else in a new one.
pub proof fn law_key_names_one_subscription<T, C>(
    queue: BroadcastView<T, C>,
    key: Ticket,
    context: C,
)
    ensures
        queue.is_live(key) <==> {
            &&& key.label == queue.label
            &&& queue.consumers.contains_key(key.slot)
            &&& queue.consumers[key.slot].number == key.number
        },
        queue.next_ticket().label == queue.label,
        queue.next_ticket().number == queue.next_number,
        queue.free.len() > 0 ==> queue.next_ticket().slot == queue.free.last(),
        queue.free.len() == 0 ==> queue.next_ticket().slot == queue.consumers.dom().len() as usize,
        queue.subscribed(queue.next_ticket().slot, context).is_live(queue.next_ticket()),
        !queue.unsubscribed(key.slot).is_live(key),
{
}

/// There is no room exactly while some consumer has as many items to receive as
/// the capacity allows. A step has made room exactly if there was none before it
/// and is some after it. A new queue has nobody subscribed.
pub proof fn law_slowest_consumer_takes_the_room<T, C>(
    queue: BroadcastView<T, C>,
    after: BroadcastView<T, C>,
    capacity: nat,
    label: u64,
)
    ensures
        queue.is_full() <==> exists|slot: usize|
            queue.consumers.contains_key(slot) && (
            #[trigger] queue.consumers[slot]).pending.len() >= queue.capacity,
        queue.is_deserted() <==> queue.consumers == Map::<usize, Subscription<T, C>>::empty(),
        queue.valid() <==> {
            &&& queue.capacity > 0
            &&& queue.consumers.dom().finite()
            &&& forall|slot: usize|
                queue.consumers.contains_key(slot) ==> (
                #[trigger] queue.consumers[slot]).pending.len() <= queue.capacity
        },
        effect_between(queue, after) == RecvEffect::Unblocked <==> {
            &&& exists|slot: usize|
                queue.consumers.contains_key(slot) && (
                #[trigger] queue.consumers[slot]).pending.len() >= queue.capacity
            &&& forall|slot: usize|
                after.consumers.contains_key(slot) ==> (
                #[trigger] after.consumers[slot]).pending.len() < after.capacity
        },
        effect_between(queue, after) == RecvEffect::NoChange <==> effect_between(queue, after)
            != RecvEffect::Unblocked,
        BroadcastView::<T, C>::fresh(capacity, label).consumers == Map::<
            usize,
            Subscription<T, C>,
        >::empty(),
        BroadcastView::<T, C>::fresh(capacity, label).capacity == capacity,
        BroadcastView::<T, C>::fresh(capacity, label).label == label,
        BroadcastView::<T, C>::fresh(capacity, label).free.len() == 0,
        BroadcastView::<T, C>::fresh(capacity, label).next_number == 0,
{
    lemma_full_is_lagging(queue);
    lemma_full_is_lagging(after);
    if queue.is_deserted() {
        assert(queue.consumers =~= Map::empty());
    }
}

proof fn lemma_full_is_lagging<T, C>(queue: BroadcastView<T, C>)
    ensures
        queue.is_full() <==> exists|slot: usize|
            queue.consumers.contains_key(slot) && (
            #[trigger] queue.consumers[slot]).pending.len() >= queue.capacity,
{
    if queue.is_full() {
        let slot = choose|slot: usize| queue.lags(slot);
        assert(queue.consumers.contains_key(slot) && queue.consumers[slot].pending.len()
            >= queue.capacity);
    }
    if exists|slot: usize|
        queue.consumers.contains_key(slot) && (#[trigger] queue.consumers[slot]).pending.len()
            >= queue.capacity {
        let slot = choose|slot: usize|
            queue.consumers.contains_key(slot) && (#[trigger] queue.consumers[slot]).pending.len()
                >= queue.capacity;
        assert(queue.lags(slot));
    }
}

} // verus!
