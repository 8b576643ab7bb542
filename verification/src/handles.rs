//! Handles that are counted: the last one to be given up closes the primitive.

use vstd::prelude::*;

verus! {

/// Something that happens to a primitive whose handles are counted.
pub enum Turn<E> {
    /// A handle is cloned.
    Clone,
    /// A handle is given up.
    Release,
    /// Something else happens to the primitive.
    Other(E),
}

/// How many handles there are after a run, where there were `count` before it.
pub open spec fn count_after<E>(count: nat, turns: Seq<Turn<E>>) -> nat
    decreases turns.len(),
{
    if turns.len() == 0 {
        count
    } else {
        let before = count_after(count, turns.drop_last());
        match turns.last() {
            Turn::Clone => before + 1,
            Turn::Release => (before - 1) as nat,
            Turn::Other(_) => before,
        }
    }
}

/// Handles are cloned and given up only while there are any.
pub open spec fn are_held<E>(count: nat, turns: Seq<Turn<E>>) -> bool
    decreases turns.len(),
{
    turns.len() > 0 ==> {
        &&& are_held(count, turns.drop_last())
        &&& turns.last() is Other || count_after(count, turns.drop_last()) > 0
    }
}

/// Something is in a run where it is in the part before the end or at the end.
pub(crate) proof fn lemma_contains_last<A>(run: Seq<A>, a: A)
    requires
        run.len() > 0,
    ensures
        run.contains(a) == (run.drop_last().contains(a) || run.last() == a),
{
    if run.contains(a) {
        let i = choose|i: int| 0 <= i < run.len() && run[i] == a;
        assert(i < run.len() - 1 ==> run.drop_last()[i] == a);
    }
    if run.drop_last().contains(a) {
        let i = choose|i: int| 0 <= i < run.len() - 1 && run.drop_last()[i] == a;
        assert(run[i] == a);
    }
    assert(run[run.len() - 1] == run.last());
}

} // verus!
