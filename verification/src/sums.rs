//! Sums of a per-element measure over a sequence, and the lemmas the
//! supply classifier needs about them: prefix growth, pointwise bounds,
//! pointwise splitting, and invariance under permutation.

use vstd::prelude::*;
use vstd::seq_lib::group_to_multiset_ensures;

verus! {

/// The sum of `f` over every element of `s`.
pub open spec fn sum_by<A>(s: Seq<A>, f: spec_fn(A) -> nat) -> nat
    decreases s.len(),
{
    if s.len() == 0 {
        0
    } else {
        sum_by(s.drop_last(), f) + f(s.last())
    }
}

/// Extending a prefix by one element adds that element's measure.
pub proof fn lemma_sum_by_take_succ<A>(s: Seq<A>, f: spec_fn(A) -> nat, i: int)
    requires
        0 <= i < s.len(),
    ensures
        sum_by(s.take(i + 1), f) == sum_by(s.take(i), f) + f(s[i]),
{
    assert(s.take(i + 1).drop_last() =~= s.take(i));
    assert(s.take(i + 1).last() == s[i]);
}

/// A sequence whose measures are pointwise bounded has a bounded sum.
pub proof fn lemma_sum_by_le<A>(s: Seq<A>, f: spec_fn(A) -> nat, g: spec_fn(A) -> nat)
    requires
        forall|i: int| 0 <= i < s.len() ==> f(s[i]) <= g(s[i]),
    ensures
        sum_by(s, f) <= sum_by(s, g),
    decreases s.len(),
{
    if s.len() > 0 {
        assert(forall|i: int| 0 <= i < s.drop_last().len() ==> s.drop_last()[i] == s[i]);
        lemma_sum_by_le(s.drop_last(), f, g);
    }
}

/// A measure that splits pointwise into two parts splits the sum.
pub proof fn lemma_sum_by_split<A>(
    s: Seq<A>,
    f: spec_fn(A) -> nat,
    g: spec_fn(A) -> nat,
    h: spec_fn(A) -> nat,
)
    requires
        forall|i: int| 0 <= i < s.len() ==> f(s[i]) == g(s[i]) + h(s[i]),
    ensures
        sum_by(s, f) == sum_by(s, g) + sum_by(s, h),
    decreases s.len(),
{
    if s.len() > 0 {
        assert(forall|i: int| 0 <= i < s.drop_last().len() ==> s.drop_last()[i] == s[i]);
        lemma_sum_by_split(s.drop_last(), f, g, h);
    }
}

/// A prefix never sums to more than the whole sequence.
pub proof fn lemma_sum_by_take_le<A>(s: Seq<A>, f: spec_fn(A) -> nat, i: int)
    requires
        0 <= i <= s.len(),
    ensures
        sum_by(s.take(i), f) <= sum_by(s, f),
    decreases s.len() - i,
{
    if i == s.len() {
        assert(s.take(i) =~= s);
    } else {
        lemma_sum_by_take_succ(s, f, i);
        lemma_sum_by_take_le(s, f, i + 1);
    }
}

/// Removing one element removes exactly its measure from the sum.
pub proof fn lemma_sum_by_remove<A>(s: Seq<A>, f: spec_fn(A) -> nat, i: int)
    requires
        0 <= i < s.len(),
    ensures
        sum_by(s, f) == sum_by(s.remove(i), f) + f(s[i]),
    decreases s.len(),
{
    if i == s.len() - 1 {
        assert(s.remove(i) =~= s.drop_last());
    } else {
        lemma_sum_by_remove(s.drop_last(), f, i);
        assert(s.remove(i).drop_last() =~= s.drop_last().remove(i));
        assert(s.remove(i).last() == s.last());
    }
}

/// The sum depends only on which elements occur, and how often — not on
/// their order: two sequences with equal multisets have equal sums.
pub proof fn lemma_sum_by_permutation<A>(s1: Seq<A>, s2: Seq<A>, f: spec_fn(A) -> nat)
    requires
        s1.to_multiset() == s2.to_multiset(),
    ensures
        sum_by(s1, f) == sum_by(s2, f),
    decreases s1.len(),
{
    broadcast use group_to_multiset_ensures;

    assert(s1.to_multiset().len() == s1.len());
    assert(s2.to_multiset().len() == s2.len());
    if s1.len() == 0 {
        assert(s2.len() == 0);
    } else {
        let x = s1.last();
        assert(s1.contains(x));
        assert(s2.to_multiset().count(x) > 0);
        assert(s2.contains(x));
        let j = choose|j: int| 0 <= j < s2.len() && s2[j] == x;
        assert(s1.remove(s1.len() - 1).to_multiset() == s1.to_multiset().remove(x));
        assert(s2.remove(j).to_multiset() == s2.to_multiset().remove(x));
        assert(s1.remove(s1.len() - 1) =~= s1.drop_last());
        lemma_sum_by_permutation(s1.drop_last(), s2.remove(j), f);
        lemma_sum_by_remove(s2, f, j);
    }
}

} // verus!
