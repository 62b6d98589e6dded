//! The arithmetic of mixing. The contributions to one output slot are summed
//! exactly, and the sum is brought into the sample range by wrap-around, so
//! the result does not depend on the order of the contributions.

use vstd::prelude::*;
use vstd::seq_lib::*;
use crate::sample::{lemma_wrapped_add, lemma_wrapped_in_range, wrapped, Sample, SILENCE};

verus! {

/// The exact sum of some contributions.
pub open spec fn total(contributions: Seq<Sample>) -> int {
    contributions.fold_left(0int, |sum: int, x: Sample| sum + x)
}

/// The mixed sample of some contributions: their exact sum, wrapped.
pub open spec fn mixed(contributions: Seq<Sample>) -> Sample {
    wrapped(total(contributions))
}

/// Nothing sums to nothing, and mixes to silence.
pub proof fn lemma_mixed_empty()
    ensures
        total(Seq::<Sample>::empty()) == 0,
        mixed(Seq::<Sample>::empty()) == SILENCE,
{
}

/// One more contribution adds to the sum.
pub proof fn lemma_total_push(contributions: Seq<Sample>, x: Sample)
    ensures
        total(contributions.push(x)) == total(contributions) + x,
{
    assert(contributions.push(x).drop_last() =~= contributions);
}

/// One more contribution mixes in by one wrapping addition.
pub proof fn lemma_mixed_push(contributions: Seq<Sample>, x: Sample)
    ensures
        mixed(contributions.push(x)) == wrapped(mixed(contributions) + x),
{
    lemma_total_push(contributions, x);
    lemma_wrapped_add(total(contributions), x);
    lemma_wrapped_in_range(mixed(contributions) as int);
    lemma_wrapped_add(mixed(contributions) as int, x);
}

/// The sum does not depend on the order of the contributions.
pub proof fn lemma_total_permutation(a: Seq<Sample>, b: Seq<Sample>)
    requires
        a.to_multiset() == b.to_multiset(),
    ensures
        total(a) == total(b),
{
    let f = |sum: int, x: Sample| sum + x;
    assert(commutative_foldl(f));
    lemma_fold_left_permutation(a, b, f, 0int);
}

/// Taking one contribution out lowers the sum by it.
pub proof fn lemma_total_remove(contributions: Seq<Sample>, i: int)
    requires
        0 <= i < contributions.len(),
    ensures
        total(contributions) == total(contributions.remove(i)) + contributions[i],
{
    broadcast use group_to_multiset_ensures;

    let x = contributions[i];
    let moved = contributions.remove(i).push(x);
    assert(contributions.contains(x));
    assert(moved.to_multiset() =~= contributions.to_multiset());
    lemma_total_permutation(contributions, moved);
    lemma_total_push(contributions.remove(i), x);
}

/// Mixing is commutative: the same contributions in any order mix to the
/// same sample.
pub proof fn lemma_mixed_permutation(a: Seq<Sample>, b: Seq<Sample>)
    requires
        a.to_multiset() == b.to_multiset(),
    ensures
        mixed(a) == mixed(b),
{
    lemma_total_permutation(a, b);
}

/// Mixing two contributions gives the same sample whichever comes first.
pub proof fn lemma_mixed_swap(x: Sample, y: Sample)
    ensures
        mixed(seq![x, y]) == mixed(seq![y, x]),
        mixed(seq![x, y]) == wrapped(x + y),
{
    lemma_mixed_empty();
    lemma_total_push(Seq::<Sample>::empty(), x);
    lemma_total_push(Seq::<Sample>::empty().push(x), y);
    lemma_total_push(Seq::<Sample>::empty(), y);
    lemma_total_push(Seq::<Sample>::empty().push(y), x);
    assert(seq![x, y] =~= Seq::<Sample>::empty().push(x).push(y));
    assert(seq![y, x] =~= Seq::<Sample>::empty().push(y).push(x));
}

} // verus!
