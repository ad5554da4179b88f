//! References to partitions that a Flight server holds.

use vstd::prelude::*;

verus! {

/// A partition held by a Flight server.
#[derive(Debug)]
pub struct FlightPartitionRef {
    pub shuffle_id: u64,
    pub server_address: String,
    pub partition_ref_id: u64,
    pub num_rows: usize,
    pub size_bytes: usize,
}

/// A materialized partition. `H` is a handle to a partition of the engine.
#[derive(Debug)]
pub enum PartitionRef<H> {
    /// A partition that the engine holds in memory.
    Held { handle: H, size_bytes: usize },
    /// A partition that a Flight server holds.
    Flight(FlightPartitionRef),
}

/// The size of a materialized partition.
pub open spec fn ref_size<H>(r: PartitionRef<H>) -> usize {
    match r {
        PartitionRef::Held { size_bytes, .. } => size_bytes,
        PartitionRef::Flight(flight) => flight.size_bytes,
    }
}

/// The size of a sequence of materialized partitions, taken together.
pub open spec fn total_size<H>(refs: Seq<PartitionRef<H>>) -> nat
    decreases refs.len(),
{
    if refs.len() == 0 {
        0
    } else {
        total_size(refs.drop_last()) + ref_size(refs.last()) as nat
    }
}

impl<H> PartitionRef<H> {
    /// The size of the partition.
    pub fn size_bytes(&self) -> (r: usize)
        ensures
            r == ref_size(*self),
    {
        match self {
            PartitionRef::Held { size_bytes, .. } => *size_bytes,
            PartitionRef::Flight(flight) => flight.size_bytes,
        }
    }
}

proof fn lemma_total_size_grows<H>(refs: Seq<PartitionRef<H>>, n: int)
    requires
        0 <= n <= refs.len(),
    ensures
        total_size(refs.take(n)) <= total_size(refs),
    decreases refs.len(),
{
    if n == refs.len() {
        assert(refs.take(n) =~= refs);
    } else {
        assert(refs.drop_last().take(n) =~= refs.take(n));
        lemma_total_size_grows(refs.drop_last(), n);
    }
}

/// The size of the partitions, taken together.
pub fn total_size_bytes<H>(refs: &Vec<PartitionRef<H>>) -> (r: usize)
    requires
        total_size(refs@) <= usize::MAX,
    ensures
        r == total_size(refs@),
{
    let mut total: usize = 0;
    let mut i: usize = 0;
    while i < refs.len()
        invariant
            i <= refs@.len(),
            total == total_size(refs@.take(i as int)),
            total_size(refs@) <= usize::MAX,
        decreases refs@.len() - i,
    {
        proof {
            lemma_total_size_grows(refs@, i + 1);
            assert(refs@.take(i + 1).drop_last() =~= refs@.take(i as int));
        }
        total += refs[i].size_bytes();
        i += 1;
    }
    assert(refs@.take(i as int) =~= refs@);
    total
}

/// The references of a sequence of partitions that Flight servers hold.
pub open spec fn flight_refs<H>(refs: Seq<PartitionRef<H>>) -> Seq<FlightPartitionRef> {
    refs.map_values(|r: PartitionRef<H>| r->Flight_0)
}

/// Takes the references out of partitions that Flight servers hold.
pub fn into_flight_refs<H>(refs: Vec<PartitionRef<H>>) -> (r: Vec<FlightPartitionRef>)
    requires
        forall|i: int| 0 <= i < refs@.len() ==> (#[trigger] refs@[i]) is Flight,
    ensures
        r@ == flight_refs(refs@),
{
    let mut r: Vec<FlightPartitionRef> = Vec::new();
    let ghost all = refs@;
    for partition in it: refs.into_iter()
        invariant
            it.seq() == all,
            forall|i: int| 0 <= i < all.len() ==> (#[trigger] all[i]) is Flight,
            r@.len() == it.index(),
            forall|i: int| 0 <= i < it.index() ==> (#[trigger] r@[i]) == all[i]->Flight_0,
    {
        match partition {
            PartitionRef::Flight(flight) => {
                r.push(flight);
            },
            _ => {
                assert(all[it.index()] is Flight);
            },
        }
    }
    assert(r@ =~= flight_refs(all));
    r
}

/// A partition whose cache has been closed.
#[derive(Clone, Copy, Debug, PartialEq, Eq, Structural)]
pub struct FinalizedPartition {
    pub partition_ref_id: u64,
    pub num_rows: usize,
    pub size_bytes: usize,
}

/// The reference under which a server at `server_address` offers a closed partition.
pub open spec fn offered(
    shuffle_id: u64,
    server_address: String,
    partition: FinalizedPartition,
) -> FlightPartitionRef {
    FlightPartitionRef {
        shuffle_id,
        server_address,
        partition_ref_id: partition.partition_ref_id,
        num_rows: partition.num_rows,
        size_bytes: partition.size_bytes,
    }
}

/// The references under which a server at `server_address` offers its closed
/// partitions: one for each partition, in order.
pub fn flight_partition_refs(
    shuffle_id: u64,
    server_address: &String,
    finalized: &Vec<FinalizedPartition>,
) -> (r: Vec<FlightPartitionRef>)
    ensures
        r@.len() == finalized@.len(),
        forall|i: int|
            0 <= i < finalized@.len() ==> (#[trigger] r@[i]) == offered(
                shuffle_id,
                *server_address,
                finalized@[i],
            ),
{
    let mut r: Vec<FlightPartitionRef> = Vec::new();
    let mut i: usize = 0;
    while i < finalized.len()
        invariant
            i <= finalized@.len(),
            r@.len() == i,
            forall|j: int|
                0 <= j < i ==> (#[trigger] r@[j]) == offered(
                    shuffle_id,
                    *server_address,
                    finalized@[j],
                ),
        decreases finalized@.len() - i,
    {
        let partition = finalized[i];
        r.push(
            FlightPartitionRef {
                shuffle_id,
                server_address: server_address.clone(),
                partition_ref_id: partition.partition_ref_id,
                num_rows: partition.num_rows,
                size_bytes: partition.size_bytes,
            },
        );
        i += 1;
    }
    r
}

/// The sizes of the partitions.
pub open spec fn sizes<H>(refs: Seq<PartitionRef<H>>) -> Seq<int> {
    Seq::new(
        refs.len(),
        |i: int|
            match refs[i] {
                PartitionRef::Held { size_bytes, .. } => size_bytes as int,
                PartitionRef::Flight(flight) => flight.size_bytes as int,
            },
    )
}

/// The size of partitions taken together is the sum of their sizes.
pub proof fn law_total_size_is_the_sum<H>(refs: Seq<PartitionRef<H>>)
    ensures
        total_size(refs) == crate::sums::sum(sizes(refs)),
    decreases refs.len(),
{
    if refs.len() > 0 {
        law_total_size_is_the_sum(refs.drop_last());
        assert(sizes(refs).drop_last() =~= sizes(refs.drop_last()));
        crate::sums::lemma_sum_last(sizes(refs));
    }
}

/// The same of the computed size.
pub proof fn law_computed_size_is_the_sum<H>(refs: Vec<PartitionRef<H>>, total: usize)
    requires
        crate::sums::sum(sizes(refs@)) <= usize::MAX,
        call_ensures(total_size_bytes::<H>, (&refs,), total),
    ensures
        call_requires(total_size_bytes::<H>, (&refs,)),
        total == crate::sums::sum(sizes(refs@)),
{
    law_total_size_is_the_sum(refs@);
}

/// A partition has the size that it was made with.
pub proof fn law_size_is_that_of_the_partition<H>(r: PartitionRef<H>, size: usize)
    requires
        call_ensures(PartitionRef::<H>::size_bytes, (&r,), size),
    ensures
        match r {
            PartitionRef::Held { size_bytes, .. } => size == size_bytes,
            PartitionRef::Flight(flight) => size == flight.size_bytes,
        },
{
}

/// The references are those of the partitions, one for each, in order.
pub proof fn law_flight_refs_are_those_of_each<H>(
    refs: Vec<PartitionRef<H>>,
    r: Vec<FlightPartitionRef>,
)
    requires
        call_ensures(into_flight_refs::<H>, (refs,), r),
    ensures
        r@.len() == refs@.len(),
        forall|i: int|
            0 <= i < refs@.len() ==> (#[trigger] refs@[i] matches PartitionRef::Flight(flight)
                ==> r@[i] == flight),
{
}

/// A server offers each closed partition under the shuffle and the address given, with the
/// partition's own identifier, rows and size.
pub proof fn law_closed_partitions_are_offered(
    shuffle_id: u64,
    server_address: String,
    finalized: Vec<FinalizedPartition>,
    r: Vec<FlightPartitionRef>,
)
    requires
        call_ensures(flight_partition_refs, (shuffle_id, &server_address, &finalized), r),
    ensures
        r@.len() == finalized@.len(),
        forall|i: int|
            0 <= i < finalized@.len() ==> {
                let offer = #[trigger] r@[i];
                &&& offer.shuffle_id == shuffle_id
                &&& offer.server_address == server_address
                &&& offer.partition_ref_id == finalized@[i].partition_ref_id
                &&& offer.num_rows == finalized@[i].num_rows
                &&& offer.size_bytes == finalized@[i].size_bytes
            },
{
}

} // verus!
