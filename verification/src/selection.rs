//! Selecting the positions of a sequence whose flag is set.

use vstd::prelude::*;

verus! {

/// The indices `k` with `flags[k]`, in increasing order.
pub open spec fn set_indices(flags: Seq<bool>) -> Seq<int>
    decreases flags.len(),
{
    if flags.len() == 0 {
        Seq::empty()
    } else if flags.last() {
        set_indices(flags.drop_last()).push(flags.len() - 1)
    } else {
        set_indices(flags.drop_last())
    }
}

/// The indices that `set_indices` lists are those below the length whose
/// flag is set, and it lists them in strictly increasing order, so each
/// once.
pub proof fn lemma_set_indices(flags: Seq<bool>)
    ensures
        forall|k: int| #[trigger]
            set_indices(flags).contains(k) <==> (0 <= k < flags.len() && flags[k]),
        forall|a: int, b: int|
            0 <= a < b < set_indices(flags).len() ==> #[trigger] set_indices(flags)[a]
                < #[trigger] set_indices(flags)[b],
        forall|a: int|
            0 <= a < set_indices(flags).len() ==> 0 <= #[trigger] set_indices(flags)[a]
                < flags.len(),
        set_indices(flags).len() <= flags.len(),
    decreases flags.len(),
{
    if flags.len() == 0 {
    } else {
        let prev = flags.drop_last();
        let pf = set_indices(flags);
        let pp = set_indices(prev);
        lemma_set_indices(prev);
        let n = flags.len() - 1;
        assert forall|k: int| #[trigger] pf.contains(k) <==> (0 <= k < flags.len() && flags[k]) by {
            if flags.last() {
                assert(pf == pp.push(n));
                if pf.contains(k) {
                    let j = choose|j: int| 0 <= j < pf.len() && pf[j] == k;
                    if j < pp.len() {
                        assert(pp[j] == k);
                        assert(pp.contains(k));
                        assert(prev[k] == flags[k]);
                    }
                }
                if 0 <= k < flags.len() && flags[k] {
                    if k == n {
                        assert(pf[pp.len() as int] == k);
                    } else {
                        assert(prev[k] == flags[k]);
                        assert(pp.contains(k));
                        let j = choose|j: int| 0 <= j < pp.len() && pp[j] == k;
                        assert(pf[j] == k);
                    }
                }
            } else {
                if 0 <= k < n {
                    assert(prev[k] == flags[k]);
                }
            }
        }
    }
}

/// Taking one more flag into account adds its index where the flag is set,
/// and changes nothing where it is not.
pub proof fn lemma_set_indices_take(flags: Seq<bool>, i: int)
    requires
        0 <= i < flags.len(),
    ensures
        flags[i] ==> set_indices(flags.take(i + 1)) == set_indices(flags.take(i)).push(i),
        !flags[i] ==> set_indices(flags.take(i + 1)) == set_indices(flags.take(i)),
{
    assert(flags.take(i + 1).drop_last() =~= flags.take(i));
}

/// Flags and their negations select every index between them: the counts
/// add up to the length.
pub proof fn lemma_set_indices_split(flags: Seq<bool>, others: Seq<bool>)
    requires
        flags.len() == others.len(),
        forall|i: int| 0 <= i < flags.len() ==> others[i] == !flags[i],
    ensures
        set_indices(flags).len() + set_indices(others).len() == flags.len(),
    decreases flags.len(),
{
    if flags.len() > 0 {
        lemma_set_indices_split(flags.drop_last(), others.drop_last());
    }
}

/// Flags that are all set select every index, in order.
pub proof fn lemma_set_indices_all(flags: Seq<bool>)
    requires
        forall|i: int| 0 <= i < flags.len() ==> flags[i],
    ensures
        set_indices(flags) == Seq::new(flags.len(), |i: int| i),
    decreases flags.len(),
{
    if flags.len() > 0 {
        lemma_set_indices_all(flags.drop_last());
        assert(set_indices(flags) =~= Seq::new(flags.len(), |i: int| i));
    } else {
        assert(set_indices(flags) =~= Seq::new(flags.len(), |i: int| i));
    }
}

/// Flags of which none is set select no index.
pub proof fn lemma_set_indices_none(flags: Seq<bool>)
    requires
        forall|i: int| 0 <= i < flags.len() ==> !flags[i],
    ensures
        set_indices(flags).len() == 0,
    decreases flags.len(),
{
    if flags.len() > 0 {
        lemma_set_indices_none(flags.drop_last());
    }
}

} // verus!
