//! Sums of sequences.

use vstd::prelude::*;

verus! {

/// The sum of a sequence of integers.
pub open spec fn sum(s: Seq<int>) -> int {
    s.fold_left(0, |total: int, x: int| total + x)
}

/// The sum of a sequence without its last element, and that element.
pub proof fn lemma_sum_last(s: Seq<int>)
    requires
        s.len() > 0,
    ensures
        sum(s) == sum(s.drop_last()) + s.last(),
{
}

} // verus!
