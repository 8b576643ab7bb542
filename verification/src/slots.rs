//! Values kept under small integer keys.

use slab::Slab;
use vstd::prelude::*;

verus! {

/// `slab::Slab`, carried through as an opaque value.
#[verifier::external_type_specification]
#[verifier::external_body]
#[verifier::reject_recursive_types(T)]
pub struct ExSlab<T>(Slab<T>);

/// A slab together with what it holds.
///
/// What a slab holds cannot be read off its opaque value, so it is written down
/// beside it: `entries` are its values by their keys, and `free` are its vacant
/// keys, the one that is used next last. Both are erased when the library is
/// compiled. Only the wrappers below touch these fields, and the contract of
/// each says what the call on `slab` that it makes does to what is written
/// down.
#[verifier::reject_recursive_types(T)]
pub struct Slots<T> {
    slab: Slab<T>,
    entries: Ghost<Map<usize, T>>,
    free: Ghost<Seq<usize>>,
}

/// The key that the next value gets: the one that was given up last, or, where
/// none is vacant, the number of values.
pub open spec fn next_key(used: Set<usize>, free: Seq<usize>) -> usize {
    if free.len() > 0 {
        free.last()
    } else {
        used.len() as usize
    }
}

/// The vacant keys after the next one was used.
pub open spec fn after_use(free: Seq<usize>) -> Seq<usize> {
    if free.len() > 0 {
        free.drop_last()
    } else {
        free
    }
}

/// There is a key in use above `key`.
pub open spec fn is_below(used: Set<usize>, key: usize) -> bool {
    exists|other: usize| used.contains(other) && key < other
}

/// The vacant keys after shrinking. Those above the greatest key in use are
/// forgotten. If there were any, the others are used from the least on.
pub open spec fn after_shrink(used: Set<usize>, free: Seq<usize>) -> Seq<usize> {
    if forall|key: usize| free.contains(key) ==> is_below(used, key) {
        free
    } else {
        ascending(free.to_set().filter(|key: usize| is_below(used, key))).reverse()
    }
}

/// The keys in use and the vacant ones are together the numbers from zero on,
/// each once.
pub open spec fn are_numbered(used: Set<usize>, free: Seq<usize>) -> bool {
    &&& used.finite()
    &&& free.no_duplicates()
    &&& forall|key: usize| used.contains(key) ==> !free.contains(key)
    &&& forall|key: usize|
        #![trigger used.contains(key)]
        #![trigger free.contains(key)]
        used.contains(key) || free.contains(key) <==> key < used.len() + free.len()
}

impl<T> View for Slots<T> {
    type V = Map<usize, T>;

    closed spec fn view(&self) -> Map<usize, T> {
        self.entries@
    }
}

impl<T> Slots<T> {
    /// The vacant keys, the one that is used next last.
    pub closed spec fn free(&self) -> Seq<usize> {
        self.free@
    }

    /// `Slab::new`: holds nothing, and no key was given up.
    #[verifier::external_body]
    pub(crate) fn new() -> (slots: Self)
        ensures
            slots@ == (Map::<usize, T>::empty()),
            slots.free() == Seq::<usize>::empty(),
    {
        Slots { slab: Slab::new(), entries: Ghost(Map::empty()), free: Ghost(Seq::empty()) }
    }

    /// `Slab::insert`: stores the value under the key that was given up last,
    /// or else under a new one, which is the number of entries. Every other
    /// entry stays as it is.
    #[verifier::external_body]
    pub(crate) fn insert(&mut self, value: T) -> (key: usize)
        ensures
            key == next_key(old(self)@.dom(), old(self).free()),
            !old(self)@.contains_key(key),
            final(self)@ == old(self)@.insert(key, value),
            final(self).free() == after_use(old(self).free()),
    {
        self.slab.insert(value)
    }

    /// `Slab::remove`: takes the value out. Its key is the next one to be
    /// used. Panics on a vacant key, which `requires` leaves out.
    #[verifier::external_body]
    pub(crate) fn remove(&mut self, key: usize) -> (value: T)
        requires
            old(self)@.contains_key(key),
        ensures
            value == old(self)@[key],
            final(self)@ == old(self)@.remove(key),
            final(self).free() == old(self).free().push(key),
    {
        self.slab.remove(key)
    }

    /// `<Slab as Index>::index`: the value under the key. Panics on a vacant
    /// key, which `requires` leaves out.
    #[verifier::external_body]
    pub(crate) fn get(&self, key: usize) -> (value: &T)
        requires
            self@.contains_key(key),
        ensures
            *value == self@[key],
    {
        &self.slab[key]
    }

    /// `<Slab as IndexMut>::index_mut`: the value under the key, to be changed
    /// in place. Panics on a vacant key, which `requires` leaves out.
    #[verifier::external_body]
    pub(crate) fn get_mut(&mut self, key: usize) -> (value: &mut T)
        requires
            old(self)@.contains_key(key),
        ensures
            *value == old(self)@[key],
            final(self)@ == old(self)@.insert(key, *final(value)),
            final(self).free() == old(self).free(),
    {
        &mut self.slab[key]
    }

    /// `Slab::is_empty`: whether no key is in use.
    #[verifier::external_body]
    pub(crate) fn is_empty(&self) -> (empty: bool)
        ensures
            empty == (self@ == Map::<usize, T>::empty()),
    {
        self.slab.is_empty()
    }

    /// `Slab::contains`: whether the key is in use.
    #[verifier::external_body]
    pub(crate) fn contains(&self, key: usize) -> (used: bool)
        ensures
            used == self@.contains_key(key),
    {
        self.slab.contains(key)
    }

    /// `Slab::iter`: the keys in use, from the least to the greatest.
    #[verifier::external_body]
    pub(crate) fn keys(&self) -> (keys: Vec<usize>)
        ensures
            lists_ascending(keys@, self@.dom()),
    {
        self.slab.iter().map(|(key, _)| key).collect()
    }

    /// `Slab::shrink_to_fit`: gives memory back and keeps every entry under
    /// its key. The vacant keys above the greatest one in use are forgotten,
    /// and if there were any, the list of the others is made anew so that the
    /// least one is used next.
    #[verifier::external_body]
    pub(crate) fn shrink_to_fit(&mut self)
        ensures
            final(self)@ == old(self)@,
            final(self).free() == after_shrink(old(self)@.dom(), old(self).free()),
    {
        self.slab.shrink_to_fit()
    }
}

/// `keys` holds exactly the members of `set`, each once, in ascending order.
pub open spec fn lists_ascending(keys: Seq<usize>, set: Set<usize>) -> bool {
    &&& forall|i: int, j: int| 0 <= i < j < keys.len() ==> keys[i] < keys[j]
    &&& forall|key: usize| keys.contains(key) <==> set.contains(key)
}

/// The members of a finite set of keys in ascending order.
pub open spec fn ascending(set: Set<usize>) -> Seq<usize> {
    choose|keys: Seq<usize>| lists_ascending(keys, set)
}

/// There is only one way to list a set in ascending order.
pub proof fn lemma_one_listing(first: Seq<usize>, second: Seq<usize>, set: Set<usize>)
    requires
        lists_ascending(first, set),
        lists_ascending(second, set),
    ensures
        first == second,
    decreases first.len(),
{
    if first.len() == 0 {
        if second.len() > 0 {
            assert(second.contains(second[0]));
            assert(first.contains(second[0]));
        }
    } else {
        assert(first.contains(first.last()));
        assert(second.contains(first.last()));
        assert(second.contains(second.last()));
        assert(first.contains(second.last()));
        let i = choose|i: int| 0 <= i < second.len() && second[i] == first.last();
        let j = choose|j: int| 0 <= j < first.len() && first[j] == second.last();
        assert(first.last() <= second.last());
        assert(second.last() <= first.last());
        let rest = set.remove(first.last());
        lemma_without_last(first, set);
        lemma_without_last(second, set);
        lemma_one_listing(first.drop_last(), second.drop_last(), rest);
        assert(first =~= first.drop_last().push(first.last()));
        assert(second =~= second.drop_last().push(second.last()));
    }
}

proof fn lemma_without_last(keys: Seq<usize>, set: Set<usize>)
    requires
        lists_ascending(keys, set),
        keys.len() > 0,
    ensures
        lists_ascending(keys.drop_last(), set.remove(keys.last())),
{
    let shorter = keys.drop_last();
    let rest = set.remove(keys.last());
    assert forall|key: usize| shorter.contains(key) <==> rest.contains(key) by {
        if shorter.contains(key) {
            let i = choose|i: int| 0 <= i < shorter.len() && shorter[i] == key;
            assert(keys[i] == key);
            assert(keys.contains(key));
        }
        if rest.contains(key) {
            assert(keys.contains(key));
            let i = choose|i: int| 0 <= i < keys.len() && keys[i] == key;
            assert(shorter[i] == key);
        }
    }
}

/// A listing in ascending order is what `ascending` means.
pub proof fn lemma_ascending_is(keys: Seq<usize>, set: Set<usize>)
    requires
        lists_ascending(keys, set),
    ensures
        ascending(set) == keys,
{
    lemma_one_listing(ascending(set), keys, set);
}

/// Every finite set of keys can be listed in ascending order.
pub proof fn lemma_ascending_lists(set: Set<usize>)
    requires
        set.finite(),
    ensures
        lists_ascending(ascending(set), set),
    decreases set.len(),
{
    if set.len() == 0 {
        assert(set =~= Set::empty());
        assert(lists_ascending(Seq::empty(), set));
    } else {
        let greatest = lemma_greatest(set);
        let rest = set.remove(greatest);
        lemma_ascending_lists(rest);
        let keys = ascending(rest).push(greatest);
        assert forall|key: usize| keys.contains(key) <==> set.contains(key) by {
            if keys.contains(key) {
                let i = choose|i: int| 0 <= i < keys.len() && keys[i] == key;
                if i < ascending(rest).len() {
                    assert(ascending(rest).contains(key));
                }
            }
            if set.contains(key) {
                if key == greatest {
                    assert(keys.last() == greatest);
                } else {
                    assert(ascending(rest).contains(key));
                    let i = choose|i: int|
                        0 <= i < ascending(rest).len() && ascending(rest)[i] == key;
                    assert(keys[i] == key);
                }
            }
        }
        assert forall|i: int, j: int| 0 <= i < j < keys.len() implies keys[i] < keys[j] by {
            assert(ascending(rest).contains(keys[i]));
        }
        assert(lists_ascending(keys, set));
    }
}

proof fn lemma_greatest(set: Set<usize>) -> (greatest: usize)
    requires
        set.finite(),
        set.len() > 0,
    ensures
        set.contains(greatest),
        forall|key: usize| set.contains(key) ==> key <= greatest,
    decreases set.len(),
{
    let some = set.choose();
    let rest = set.remove(some);
    if rest.len() == 0 {
        assert(rest =~= Set::empty());
        assert forall|key: usize| set.contains(key) implies key <= some by {
            assert(key == some || rest.contains(key));
        }
        some
    } else {
        let other = lemma_greatest(rest);
        assert forall|key: usize| set.contains(key) implies key <= some || key <= other by {
            assert(key == some || rest.contains(key));
        }
        if some < other { other } else { some }
    }
}

/// Keys stay numbered when the next one is used.
pub proof fn lemma_numbered_use(used: Set<usize>, free: Seq<usize>)
    requires
        are_numbered(used, free),
        !used.contains(next_key(used, free)),
    ensures
        are_numbered(used.insert(next_key(used, free)), after_use(free)),
{
    let key = next_key(used, free);
    let more = used.insert(key);
    let rest = after_use(free);
    if free.len() > 0 {
        assert(free.contains(key)) by {
            assert(free[free.len() - 1] == key);
        }
        assert forall|k: usize| rest.contains(k) <==> free.contains(k) && k != key by {
            if free.contains(k) && k != key {
                let i = choose|i: int| 0 <= i < free.len() && free[i] == k;
                assert(rest[i] == k);
            }
            if rest.contains(k) {
                let i = choose|i: int| 0 <= i < rest.len() && rest[i] == k;
                assert(free[i] == k);
            }
        }
    } else {
        assert forall|k: usize| !free.contains(k) by {}
        assert(used.contains(key) || free.contains(key) <==> key < used.len() + free.len());
    }
    assert forall|k: usize|
        #![trigger more.contains(k)]
        #![trigger rest.contains(k)]
        more.contains(k) || rest.contains(k) <==> k < more.len() + rest.len() by {
        assert(used.contains(k) || free.contains(k) <==> k < used.len() + free.len());
    }
}

/// Keys stay numbered when one is given up.
pub proof fn lemma_numbered_remove(used: Set<usize>, free: Seq<usize>, key: usize)
    requires
        are_numbered(used, free),
        used.contains(key),
    ensures
        are_numbered(used.remove(key), free.push(key)),
{
    let fewer = used.remove(key);
    let more = free.push(key);
    assert forall|k: usize| more.contains(k) <==> free.contains(k) || k == key by {
        if free.contains(k) {
            let i = choose|i: int| 0 <= i < free.len() && free[i] == k;
            assert(more[i] == k);
        }
        if k == key {
            assert(more[free.len() as int] == k);
        }
        if more.contains(k) {
            let i = choose|i: int| 0 <= i < more.len() && more[i] == k;
            if i < free.len() {
                assert(free[i] == k);
            }
        }
    }
    assert(more.no_duplicates()) by {
        assert forall|i: int, j: int| 0 <= i < j < more.len() implies more[i] != more[j] by {
            if j == free.len() {
                assert(free.contains(free[i]));
            }
        }
    }
    assert forall|k: usize|
        #![trigger fewer.contains(k)]
        #![trigger more.contains(k)]
        fewer.contains(k) || more.contains(k) <==> k < fewer.len() + more.len() by {
        assert(used.contains(k) || free.contains(k) <==> k < used.len() + free.len());
    }
}

proof fn lemma_initial_len(set: Set<usize>, len: nat)
    requires
        set.finite(),
        len <= usize::MAX + 1,
        forall|key: usize| set.contains(key) <==> key < len,
    ensures
        set.len() == len,
    decreases len,
{
    if len == 0 {
        assert(set =~= Set::empty());
    } else {
        let last = (len - 1) as usize;
        assert(set.contains(last));
        lemma_initial_len(set.remove(last), (len - 1) as nat);
    }
}

/// Keys stay numbered when the vacant ones above are forgotten.
pub proof fn lemma_numbered_shrink(used: Set<usize>, free: Seq<usize>)
    requires
        are_numbered(used, free),
    ensures
        are_numbered(used, after_shrink(used, free)),
{
    if !(forall|key: usize| free.contains(key) ==> is_below(used, key)) {
        let below = |key: usize| is_below(used, key);
        let kept = free.to_set().filter(below);
        vstd::seq_lib::seq_to_set_is_finite(free);
        free.to_set().lemma_len_filter(below);
        lemma_ascending_lists(kept);
        let up = ascending(kept);
        let down = up.reverse();
        assert forall|key: usize| down.contains(key) <==> kept.contains(key) by {
            if down.contains(key) {
                let i = choose|i: int| 0 <= i < down.len() && down[i] == key;
                assert(up[up.len() - 1 - i] == key);
                assert(up.contains(key));
            }
            if kept.contains(key) {
                assert(up.contains(key));
                let i = choose|i: int| 0 <= i < up.len() && up[i] == key;
                assert(down[up.len() - 1 - i] == key);
            }
        }
        assert(down.no_duplicates());
        assert(down.to_set() =~= kept);
        down.unique_seq_to_set();

        let all = used + kept;
        vstd::set_lib::lemma_set_disjoint_lens(used, kept);
        assert forall|key: usize| used.contains(key) implies !kept.contains(key) by {
            assert(!free.contains(key));
        }
        assert(used.disjoint(kept));
        let len: nat = if used.len() == 0 {
            0
        } else {
            (lemma_greatest(used) + 1) as nat
        };
        assert forall|key: usize| all.contains(key) <==> key < len by {
            if used.len() == 0 {
                assert(used =~= Set::empty());
            } else if key < len {
                let greatest = (len - 1) as usize;
                assert(used.contains(greatest));
                assert(used.contains(key) || free.contains(key) <==> key < used.len()
                    + free.len());
            }
        }
        lemma_initial_len(all, len);
    }
}

/// A key that was given up is used again before a new one is made, the last one
/// first; a new one is the number of values.
pub proof fn law_last_vacant_key_is_used_first(used: Set<usize>, free: Seq<usize>, key: usize)
    ensures
        next_key(used, free.push(key)) == key,
        after_use(free.push(key)) == free,
        next_key(used, Seq::empty()) == used.len() as usize,
        after_use(Seq::<usize>::empty()) == Seq::<usize>::empty(),
{
    assert(free.push(key).drop_last() =~= free);
}

/// Shrinking forgets exactly the vacant keys above which none is in use. Where
/// it forgets none it keeps the order of the others, and else the least comes
/// first.
pub proof fn law_shrinking_forgets_the_end(used: Set<usize>, free: Seq<usize>, key: usize)
    ensures
        after_shrink(used, free).contains(key) <==> free.contains(key) && exists|other: usize|
            used.contains(other) && key < other,
        (forall|vacant: usize| #[trigger]
            free.contains(vacant) ==> exists|other: usize| used.contains(other) && vacant < other)
            ==> after_shrink(used, free) == free,
        free.contains(key) && !(exists|other: usize| used.contains(other) && key < other)
            ==> forall|i: int, j: int|
            0 <= i < j < after_shrink(used, free).len() ==> after_shrink(used, free)[i]
                > after_shrink(used, free)[j],
{
    let after = after_shrink(used, free);
    if forall|vacant: usize| free.contains(vacant) ==> is_below(used, vacant) {
        if free.contains(key) {
            assert(is_below(used, key));
        }
    } else {
        let kept = free.to_set().filter(|vacant: usize| is_below(used, vacant));
        lemma_ascending_lists(kept);
        let list = ascending(kept);
        assert(kept.contains(key) <==> free.contains(key) && is_below(used, key));
        if list.contains(key) {
            let i = choose|i: int| 0 <= i < list.len() && list[i] == key;
            assert(after[list.len() - 1 - i] == key);
        }
        if after.contains(key) {
            let i = choose|i: int| 0 <= i < after.len() && after[i] == key;
            assert(list[list.len() - 1 - i] == key);
        }
        if forall|vacant: usize| #[trigger]
            free.contains(vacant) ==> exists|other: usize|
                used.contains(other) && vacant < other {
            assert forall|vacant: usize| free.contains(vacant) implies is_below(used, vacant) by {
            }
        }
    }
}

} // verus!
