//! Wakers, and the list of wakers that are due.
//!
//! A primitive never wakes a task by itself: it puts the wakers that are due
//! on its wake list, in the order in which they are to be woken. The owner of
//! the primitive takes that list when it no longer borrows the primitive, and
//! wakes each entry.

use smallvec::SmallVec;
use std::task::{Poll, Waker};
use vstd::prelude::*;
use vstd::seq_lib::lemma_multiset_commutative;

use crate::slots::{
    after_use, ascending, lemma_ascending_is, lemma_ascending_lists, lists_ascending, next_key, Slots,
};

verus! {

/// `std::task::Waker`, carried through as an opaque value.
#[verifier::external_type_specification]
#[verifier::external_body]
pub struct ExWaker(Waker);

/// `std::task::Poll`, with its two public variants.
#[verifier::external_type_specification]
pub struct ExPoll<T>(Poll<T>);

/// `<Waker as Clone>::clone`: waking the copy wakes the same task as waking the
/// one that was copied. Two wakers of one task are not told apart here.
pub assume_specification[ <Waker as Clone>::clone ](waker: &Waker) -> (copy: Waker)
    ensures
        copy == *waker,
;

/// The wakers in an optional slot: one or none.
pub open spec fn in_slot(slot: Option<Waker>) -> Seq<Waker> {
    match slot {
        Some(waker) => seq![waker],
        None => Seq::empty(),
    }
}

/// The wakers in the slots under `keys`, in that order.
pub open spec fn wakers_along(slots: Map<usize, Option<Waker>>, keys: Seq<usize>) -> Seq<Waker>
    decreases keys.len(),
{
    if keys.len() == 0 {
        Seq::empty()
    } else {
        wakers_along(slots, keys.drop_last()) + in_slot(slots[keys.last()])
    }
}

/// The wakers in all slots, in the order of their keys.
pub open spec fn wakers_by_key(slots: Map<usize, Option<Waker>>) -> Seq<Waker> {
    wakers_along(slots, ascending(slots.dom()))
}

/// The wakers under all keys, in the order of the keys.
pub open spec fn waiting_by_key(wakers: Map<usize, Waker>) -> Seq<Waker> {
    ascending(wakers.dom()).map_values(|key: usize| wakers[key])
}

/// The slot that one waits in: the one that it has, or else the next one.
pub open spec fn slot_for(slot: Option<usize>, used: Set<usize>, free: Seq<usize>) -> usize {
    match slot {
        Some(slot) => slot,
        None => next_key(used, free),
    }
}

/// The vacant slots after one waits in the slot that it has, or else in the
/// next one.
pub open spec fn free_after(slot: Option<usize>, free: Seq<usize>) -> Seq<usize> {
    match slot {
        Some(_) => free,
        None => after_use(free),
    }
}

/// Wakers that are due, first due first. Up to sixteen are held inline.
#[verifier::external_body]
pub struct WakeList {
    wakers: SmallVec<[Waker; 16]>,
}

/// What a wake list holds, in order.
pub uninterp spec fn wakers_on(list: WakeList) -> Seq<Waker>;

impl View for WakeList {
    type V = Seq<Waker>;

    open spec fn view(&self) -> Seq<Waker> {
        wakers_on(*self)
    }
}

impl WakeList {
    /// `SmallVec::new`: an empty list.
    #[verifier::external_body]
    pub(crate) fn new() -> (list: Self)
        ensures
            wakers_on(list) == Seq::<Waker>::empty(),
    {
        WakeList { wakers: SmallVec::new() }
    }

    /// `SmallVec::push`: the waker becomes the last entry.
    #[verifier::external_body]
    pub(crate) fn push(&mut self, waker: Waker)
        ensures
            wakers_on(*final(self)) == wakers_on(*old(self)).push(waker),
    {
        self.wakers.push(waker)
    }

    /// `SmallVec::into_vec`: the same entries, in the same order.
    #[verifier::external_body]
    fn into_vec(self) -> (wakers: Vec<Waker>)
        ensures
            wakers@ == wakers_on(self),
    {
        self.wakers.into_vec()
    }

    /// Adds the waker of an optional slot, if there is one.
    pub(crate) fn push_slot(&mut self, slot: Option<Waker>)
        ensures
            final(self)@ == old(self)@ + in_slot(slot),
    {
        match slot {
            Some(waker) => {
                self.push(waker);
                assert(self@ =~= old(self)@ + in_slot(slot));
            },
            None => {
                assert(self@ =~= old(self)@ + in_slot(slot));
            },
        }
    }

    /// Hands out every entry and leaves the list empty.
    pub(crate) fn take(&mut self) -> (wakers: Vec<Waker>)
        ensures
            wakers@ == old(self)@,
            final(self)@ == Seq::<Waker>::empty(),
    {
        let mut due = WakeList::new();
        core::mem::swap(self, &mut due);
        due.into_vec()
    }
}

/// A waker is due where it was due before or was added.
pub proof fn lemma_due(due: Seq<Waker>, added: Seq<Waker>, waker: Waker)
    ensures
        (due + added).contains(waker) == (due.contains(waker) || added.contains(waker)),
        in_slot(Some(waker)).contains(waker),
{
    let all = due + added;
    if due.contains(waker) {
        let i = choose|i: int| 0 <= i < due.len() && due[i] == waker;
        assert(all[i] == waker);
    }
    if added.contains(waker) {
        let i = choose|i: int| 0 <= i < added.len() && added[i] == waker;
        assert(all[due.len() + i] == waker);
    }
    if all.contains(waker) {
        let i = choose|i: int| 0 <= i < all.len() && all[i] == waker;
        if i < due.len() {
            assert(due[i] == waker);
        } else {
            assert(added[i - due.len()] == waker);
        }
    }
    assert(in_slot(Some(waker))[0] == waker);
}

/// One more key adds the waker in its slot.
pub proof fn lemma_along_next(slots: Map<usize, Option<Waker>>, keys: Seq<usize>, i: int)
    requires
        0 <= i < keys.len(),
    ensures
        wakers_along(slots, keys.take(i + 1)) == wakers_along(slots, keys.take(i)) + in_slot(
            slots[keys[i]],
        ),
{
    assert(keys.take(i + 1).drop_last() =~= keys.take(i));
}

proof fn lemma_along_holds(
    slots: Map<usize, Option<Waker>>,
    keys: Seq<usize>,
    key: usize,
    waker: Waker,
)
    requires
        keys.contains(key),
        slots[key] == Some(waker),
    ensures
        wakers_along(slots, keys).contains(waker),
    decreases keys.len(),
{
    let rest = wakers_along(slots, keys.drop_last());
    lemma_due(rest, in_slot(slots[keys.last()]), waker);
    if keys.last() != key {
        let i = choose|i: int| 0 <= i < keys.len() && keys[i] == key;
        assert(keys.drop_last()[i] == key);
        lemma_along_holds(slots, keys.drop_last(), key, waker);
    }
}

/// The waker of every slot is among the wakers of all slots.
pub proof fn lemma_by_key_holds(slots: Map<usize, Option<Waker>>, key: usize, waker: Waker)
    requires
        slots.dom().finite(),
        slots.contains_key(key),
        slots[key] == Some(waker),
    ensures
        wakers_by_key(slots).contains(waker),
{
    lemma_ascending_lists(slots.dom());
    assert(ascending(slots.dom()).contains(key));
    lemma_along_holds(slots, ascending(slots.dom()), key, waker);
}

/// How often a waker is on a list.
pub open spec fn times(list: Seq<Waker>, waker: Waker) -> nat {
    list.to_multiset().count(waker)
}

/// The keys of the slots that hold a waker.
pub open spec fn holders(slots: Map<usize, Option<Waker>>, waker: Waker) -> Set<usize> {
    slots.dom().filter(|key: usize| slots[key] == Some(waker))
}

/// A waker is on two lists together as often as on both.
pub proof fn lemma_times(due: Seq<Waker>, added: Seq<Waker>, waker: Waker)
    ensures
        times(due + added, waker) == times(due, waker) + times(added, waker),
        times(in_slot(Some(waker)), waker) == 1,
        forall|slot: Option<Waker>|
            slot != Some(waker) ==> #[trigger] times(in_slot(slot), waker) == 0,
{
    broadcast use vstd::multiset::group_multiset_axioms;

    lemma_multiset_commutative(due, added);
    assert forall|slot: Option<Waker>| true implies #[trigger] times(in_slot(slot), waker) == (
    if slot == Some(waker) {
        1nat
    } else {
        0
    }) by {
        in_slot(slot).to_multiset_ensures();
        if let Some(other) = slot {
            assert(in_slot(slot) =~= Seq::empty().push(other));
            Seq::<Waker>::empty().to_multiset_ensures();
        }
    }
}

proof fn lemma_along_counts(slots: Map<usize, Option<Waker>>, keys: Seq<usize>, waker: Waker)
    requires
        forall|i: int, j: int| 0 <= i < j < keys.len() ==> keys[i] < keys[j],
    ensures
        keys.to_set().filter(|key: usize| slots[key] == Some(waker)).finite(),
        times(wakers_along(slots, keys), waker) == keys.to_set().filter(
            |key: usize| slots[key] == Some(waker),
        ).len(),
    decreases keys.len(),
{
    let holds = |key: usize| slots[key] == Some(waker);
    if keys.len() == 0 {
        lemma_times(Seq::empty(), Seq::empty(), waker);
        assert(keys.to_set().filter(holds) =~= Set::empty());
    } else {
        let fewer = keys.drop_last();
        let last = keys.last();
        lemma_along_counts(slots, fewer, waker);
        lemma_times(wakers_along(slots, fewer), in_slot(slots[last]), waker);
        assert forall|key: usize| keys.contains(key) == (fewer.contains(key) || key == last) by {
            if keys.contains(key) {
                let i = choose|i: int| 0 <= i < keys.len() && keys[i] == key;
                assert(i < fewer.len() ==> fewer[i] == key);
            }
        }
        if holds(last) {
            assert(keys.to_set().filter(holds) =~= fewer.to_set().filter(holds).insert(last));
        } else {
            assert(keys.to_set().filter(holds) =~= fewer.to_set().filter(holds));
        }
    }
}

/// Among the wakers of all slots a waker is once for each slot that holds it.
pub proof fn lemma_by_key_counts(slots: Map<usize, Option<Waker>>, waker: Waker)
    requires
        slots.dom().finite(),
    ensures
        times(wakers_by_key(slots), waker) == holders(slots, waker).len(),
{
    lemma_ascending_lists(slots.dom());
    lemma_along_counts(slots, ascending(slots.dom()), waker);
    assert(ascending(slots.dom()).to_set() =~= slots.dom());
}

/// The waker under every key is among the wakers under all keys.
pub proof fn lemma_waiting_holds(wakers: Map<usize, Waker>, key: usize)
    requires
        wakers.dom().finite(),
        wakers.contains_key(key),
    ensures
        waiting_by_key(wakers).contains(wakers[key]),
{
    lemma_ascending_lists(wakers.dom());
    let keys = ascending(wakers.dom());
    assert(keys.contains(key));
    let i = choose|i: int| 0 <= i < keys.len() && keys[i] == key;
    assert(waiting_by_key(wakers)[i] == wakers[key]);
}

impl Slots<Waker> {
    /// Puts a clone of every waker on the list, in the order of the keys.
    pub(crate) fn push_all(&self, list: &mut WakeList)
        ensures
            final(list)@ == old(list)@ + waiting_by_key(self@),
    {
        let keys = self.keys();
        proof {
            lemma_ascending_is(keys@, self@.dom());
        }
        let ghost due = waiting_by_key(self@);
        let mut i: usize = 0;
        assert(list@ =~= old(list)@ + due.take(0));
        while i < keys.len()
            invariant
                i <= keys.len(),
                lists_ascending(keys@, self@.dom()),
                due == keys@.map_values(|key: usize| self@[key]),
                list@ == old(list)@ + due.take(i as int),
            decreases keys.len() - i,
        {
            assert(keys@.contains(keys@[i as int]));
            let waker = self.get(keys[i]).clone();
            list.push(waker);
            assert(list@ =~= old(list)@ + due.take(i + 1));
            i += 1;
        }
        assert(due.take(i as int) =~= due);
    }

    /// Puts the waker under the key, or under the next one.
    pub(crate) fn wait(&mut self, key: Option<usize>, waker: &Waker) -> (slot: Option<usize>)
        requires
            key is Some ==> old(self)@.contains_key(key->0),
        ensures
            slot == Some(slot_for(key, old(self)@.dom(), old(self).free())),
            key is None ==> !old(self)@.contains_key(slot->0),
            final(self)@ == old(self)@.insert(slot->0, *waker),
            final(self).free() == free_after(key, old(self).free()),
    {
        let waker = waker.clone();
        match key {
            Some(key) => {
                let place = self.get_mut(key);
                *place = waker;
                Some(key)
            },
            None => Some(self.insert(waker)),
        }
    }
}

/// A slot with a waker counts for that one, and an empty slot for none.
pub proof fn law_slot_counts_once(waker: Waker)
    ensures
        in_slot(Some(waker)) == seq![waker],
        in_slot(None) == Seq::<Waker>::empty(),
{
}

/// One waits in the slot that one has, and else in the next one, which alone
/// then counts as used.
pub proof fn law_own_slot_is_kept(slot: usize, used: Set<usize>, free: Seq<usize>)
    ensures
        slot_for(Some(slot), used, free) == slot,
        free_after(Some(slot), free) == free,
        slot_for(None, used, free.push(slot)) == slot,
        free_after(None, free.push(slot)) == free,
        slot_for(None, used, Seq::empty()) == used.len() as usize,
        free_after(None, Seq::empty()) == Seq::<usize>::empty(),
{
    assert(free.push(slot).drop_last() =~= free);
}

/// The keys of the slots along `keys` that hold a waker.
spec fn held_along(slots: Map<usize, Option<Waker>>, keys: Seq<usize>) -> Seq<usize>
    decreases keys.len(),
{
    if keys.len() == 0 {
        Seq::empty()
    } else if slots[keys.last()] is Some {
        held_along(slots, keys.drop_last()).push(keys.last())
    } else {
        held_along(slots, keys.drop_last())
    }
}

proof fn lemma_held_along(slots: Map<usize, Option<Waker>>, keys: Seq<usize>)
    requires
        forall|i: int, j: int| 0 <= i < j < keys.len() ==> keys[i] < keys[j],
    ensures
        forall|i: int, j: int|
            0 <= i < j < held_along(slots, keys).len() ==> held_along(slots, keys)[i] < held_along(
                slots,
                keys,
            )[j],
        forall|key: usize| #[trigger]
            held_along(slots, keys).contains(key) <==> keys.contains(key) && slots[key] is Some,
        wakers_along(slots, keys).len() == held_along(slots, keys).len(),
        forall|i: int|
            0 <= i < held_along(slots, keys).len() ==> Some(
                #[trigger] wakers_along(slots, keys)[i],
            ) == slots[held_along(slots, keys)[i]],
    decreases keys.len(),
{
    if keys.len() > 0 {
        let fewer = keys.drop_last();
        let last = keys.last();
        lemma_held_along(slots, fewer);
        let before = held_along(slots, fewer);
        let held = held_along(slots, keys);
        assert forall|i: int| 0 <= i < before.len() implies before[i] < last by {
            assert(before.contains(before[i]));
            let j = choose|j: int| 0 <= j < fewer.len() && fewer[j] == before[i];
            assert(keys[j] < keys[keys.len() - 1]);
        }
        assert forall|key: usize| #[trigger] held.contains(key) <==> keys.contains(key)
            && slots[key] is Some by {
            if keys.contains(key) && slots[key] is Some {
                let j = choose|j: int| 0 <= j < keys.len() && keys[j] == key;
                if j < fewer.len() {
                    assert(fewer[j] == key);
                    assert(before.contains(key));
                    let i = choose|i: int| 0 <= i < before.len() && before[i] == key;
                    assert(held[i] == key);
                } else {
                    assert(held[held.len() - 1] == key);
                }
            }
            if held.contains(key) {
                let i = choose|i: int| 0 <= i < held.len() && held[i] == key;
                if i < before.len() {
                    assert(before.contains(key));
                    let j = choose|j: int| 0 <= j < fewer.len() && fewer[j] == key;
                    assert(keys[j] == key);
                } else {
                    assert(keys[keys.len() - 1] == key);
                }
            }
        }
    }
}

/// The wakers of all slots are those of the slots that hold one, each of them
/// once, in the order of the keys: `keys` are the keys of those slots, from the
/// least to the greatest.
pub proof fn law_wakers_come_in_the_order_of_keys(slots: Map<usize, Option<Waker>>) -> (keys: Seq<
    usize,
>)
    requires
        slots.dom().finite(),
    ensures
        forall|i: int, j: int| 0 <= i < j < keys.len() ==> keys[i] < keys[j],
        forall|key: usize| #[trigger]
            keys.contains(key) <==> slots.contains_key(key) && slots[key] is Some,
        wakers_by_key(slots).len() == keys.len(),
        forall|i: int|
            0 <= i < keys.len() ==> Some(#[trigger] wakers_by_key(slots)[i]) == slots[keys[i]],
{
    lemma_ascending_lists(slots.dom());
    lemma_held_along(slots, ascending(slots.dom()));
    held_along(slots, ascending(slots.dom()))
}

/// The wakers under all keys are each there once, in the order of the keys:
/// `keys` are those keys, from the least to the greatest.
pub proof fn law_everybody_comes_in_the_order_of_keys(wakers: Map<usize, Waker>) -> (keys: Seq<
    usize,
>)
    requires
        wakers.dom().finite(),
    ensures
        forall|i: int, j: int| 0 <= i < j < keys.len() ==> keys[i] < keys[j],
        forall|key: usize| #[trigger] keys.contains(key) <==> wakers.contains_key(key),
        waiting_by_key(wakers).len() == keys.len(),
        forall|i: int|
            0 <= i < keys.len() ==> #[trigger] waiting_by_key(wakers)[i] == wakers[keys[i]],
{
    lemma_ascending_lists(wakers.dom());
    ascending(wakers.dom())
}

} // verus!
