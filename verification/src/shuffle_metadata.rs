//! Summary statistics of shuffle output.

use vstd::prelude::*;

verus! {

/// Summary statistics for a single output partition produced by a shuffle
/// writer: its row count and its serialised size.
#[derive(Clone, Copy, Debug, PartialEq, Eq, Structural)]
pub struct ShufflePartitionMeta {
    pub num_rows: usize,
    pub size_bytes: usize,
}

impl ShufflePartitionMeta {
    /// The statistics of a partition.
    pub fn new(num_rows: usize, size_bytes: usize) -> (r: Self)
        ensures
            r == (ShufflePartitionMeta { num_rows, size_bytes }),
    {
        Self { num_rows, size_bytes }
    }
}

/// The statistics are those given.
pub proof fn law_statistics_are_those_given(
    num_rows: usize,
    size_bytes: usize,
    r: ShufflePartitionMeta,
)
    requires
        call_ensures(ShufflePartitionMeta::new, (num_rows, size_bytes), r),
    ensures
        r.num_rows == num_rows,
        r.size_bytes == size_bytes,
{
}

} // verus!
