//! Counting elements of a sequence that satisfy a predicate, with the
//! lemmas the validator and the generator need: how the count changes
//! under `push`, `update` and `remove`, and its basic bounds.

use vstd::prelude::*;

verus! {

/// Number of elements of `s` satisfying `p`.
pub open spec fn count_if<T>(s: Seq<T>, p: spec_fn(T) -> bool) -> nat
    decreases s.len(),
{
    if s.len() == 0 {
        0
    } else {
        count_if(s.drop_last(), p) + if p(s.last()) {
            1nat
        } else {
            0nat
        }
    }
}

/// A sequence none of whose elements satisfies `p` has count zero.
pub proof fn lemma_count_zero<T>(s: Seq<T>, p: spec_fn(T) -> bool)
    requires
        forall|k: int| 0 <= k < s.len() ==> !p(s[k]),
    ensures
        count_if(s, p) == 0,
    decreases s.len(),
{
    if s.len() > 0 {
        lemma_count_zero(s.drop_last(), p);
    }
}

/// Taking one more element adds its indicator to the count.
pub proof fn lemma_count_take_step<T>(s: Seq<T>, p: spec_fn(T) -> bool, i: int)
    requires
        0 <= i < s.len(),
    ensures
        count_if(s.take(i + 1), p) == count_if(s.take(i), p) + if p(s[i]) {
            1int
        } else {
            0int
        },
{
    assert(s.take(i + 1).drop_last() =~= s.take(i));
    assert(s.take(i + 1).last() == s[i]);
}

/// Overwriting index `j` exchanges the old indicator for the new one.
pub proof fn lemma_count_update<T>(s: Seq<T>, p: spec_fn(T) -> bool, j: int, v: T)
    requires
        0 <= j < s.len(),
    ensures
        count_if(s.update(j, v), p) == count_if(s, p) - (if p(s[j]) {
            1int
        } else {
            0int
        }) + (if p(v) {
            1int
        } else {
            0int
        }),
    decreases s.len(),
{
    let su = s.update(j, v);
    if j == s.len() - 1 {
        assert(su.drop_last() =~= s.drop_last());
        assert(su.last() == v);
    } else {
        assert(su.drop_last() =~= s.drop_last().update(j, v));
        assert(su.last() == s.last());
        lemma_count_update(s.drop_last(), p, j, v);
    }
}

/// Removing index `j` subtracts its indicator from the count.
pub proof fn lemma_count_remove<T>(s: Seq<T>, p: spec_fn(T) -> bool, j: int)
    requires
        0 <= j < s.len(),
    ensures
        count_if(s.remove(j), p) == count_if(s, p) - if p(s[j]) {
            1int
        } else {
            0int
        },
    decreases s.len(),
{
    let sr = s.remove(j);
    if j == s.len() - 1 {
        assert(sr =~= s.drop_last());
    } else {
        assert(sr.last() == s.last());
        assert(sr.drop_last() =~= s.drop_last().remove(j));
        lemma_count_remove(s.drop_last(), p, j);
    }
}

} // verus!
