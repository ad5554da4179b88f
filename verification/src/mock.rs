//! An in-memory stand-in for a Celeborn cluster.
//!
//! All pushed bytes are kept in process memory, per shuffle and partition, so that a
//! later read returns them in push order. It is meant for development and tests: data
//! is lost when the process exits, and there is no fault tolerance, replication or
//! coordination between processes.

use std::collections::{HashMap, HashSet};

use bytes::Bytes;
use vstd::prelude::*;

use crate::blocks::clone_blocks;
use crate::error::CelebornError;

verus! {

broadcast use vstd::std_specs::hash::group_hash_axioms;

/// What a [`MockShuffleCelebornClient`] holds.
#[verifier::ext_equal]
pub struct MockView {
    /// The blocks pushed to each partition of each shuffle, in arrival order.
    pub partitions: Map<(u64, u32), Seq<Seq<u8>>>,
    /// How often each map attempt was ended.
    pub mapper_ends: Map<(u64, u32, u32), u32>,
    /// The shuffles that have been unregistered.
    pub unregistered: Set<u64>,
    /// The number of mappers and of partitions of each registered shuffle.
    pub shuffle_meta: Map<u64, (u32, u32)>,
}

impl MockView {
    /// Nothing registered, nothing pushed.
    pub open spec fn empty() -> Self {
        MockView {
            partitions: Map::empty(),
            mapper_ends: Map::empty(),
            unregistered: Set::empty(),
            shuffle_meta: Map::empty(),
        }
    }

    /// The blocks of a partition, in arrival order: none where none was pushed.
    pub open spec fn blocks(self, shuffle_id: u64, partition_id: u32) -> Seq<Seq<u8>> {
        if self.partitions.contains_key((shuffle_id, partition_id)) {
            self.partitions[(shuffle_id, partition_id)]
        } else {
            Seq::empty()
        }
    }

    /// How often a map attempt was ended.
    pub open spec fn ends(self, shuffle_id: u64, map_id: u32, attempt_id: u32) -> u32 {
        if self.mapper_ends.contains_key((shuffle_id, map_id, attempt_id)) {
            self.mapper_ends[(shuffle_id, map_id, attempt_id)]
        } else {
            0
        }
    }

    /// With the sizes of a shuffle set.
    pub open spec fn register(self, shuffle_id: u64, num_mappers: u32, num_partitions: u32) -> Self {
        MockView {
            shuffle_meta: self.shuffle_meta.insert(shuffle_id, (num_mappers, num_partitions)),
            ..self
        }
    }

    /// With a block added at the end of a partition.
    pub open spec fn push(self, shuffle_id: u64, partition_id: u32, data: Seq<u8>) -> Self {
        MockView {
            partitions: self.partitions.insert(
                (shuffle_id, partition_id),
                self.blocks(shuffle_id, partition_id).push(data),
            ),
            ..self
        }
    }

    /// With a map attempt ended once more.
    pub open spec fn end(self, shuffle_id: u64, map_id: u32, attempt_id: u32) -> Self {
        MockView {
            mapper_ends: self.mapper_ends.insert(
                (shuffle_id, map_id, attempt_id),
                (self.ends(shuffle_id, map_id, attempt_id) + 1) as u32,
            ),
            ..self
        }
    }

    /// With the blocks and the sizes of a shuffle dropped, and the shuffle marked.
    pub open spec fn unregister(self, shuffle_id: u64) -> Self {
        MockView {
            partitions: self.partitions.restrict(
                Set::new(|k: (u64, u32)| self.partitions.contains_key(k) && k.0 != shuffle_id),
            ),
            unregistered: self.unregistered.insert(shuffle_id),
            shuffle_meta: self.shuffle_meta.remove(shuffle_id),
            ..self
        }
    }
}

/// A map attempt as a single number: its three parts take up separate bits.
pub open spec fn packed(shuffle_id: u64, map_id: u32, attempt_id: u32) -> u128 {
    (shuffle_id * 0x1_0000_0000_0000_0000 + map_id * 0x1_0000_0000 + attempt_id) as u128
}

fn pack(shuffle_id: u64, map_id: u32, attempt_id: u32) -> (r: u128)
    ensures
        r == packed(shuffle_id, map_id, attempt_id),
{
    shuffle_id as u128 * 0x1_0000_0000_0000_0000 + map_id as u128 * 0x1_0000_0000
        + attempt_id as u128
}

/// Process-local in-memory Celeborn client used for development and testing.
///
/// One value serves any number of shuffles, as a connected client does.
#[derive(Debug)]
pub struct MockShuffleCelebornClient {
    /// The blocks of each partition, by shuffle and then by partition.
    partitions: HashMap<u64, HashMap<u32, Vec<Bytes>>>,
    /// How often each map attempt was ended, by the packed attempt.
    mapper_ends: HashMap<u128, u32>,
    unregistered: HashSet<u64>,
    shuffle_meta: HashMap<u64, (u32, u32)>,
}

impl View for MockShuffleCelebornClient {
    type V = MockView;

    closed spec fn view(&self) -> MockView {
        MockView {
            partitions: Map::new(
                |k: (u64, u32)|
                    self.partitions@.contains_key(k.0) && self.partitions@[k.0]@.contains_key(k.1),
                |k: (u64, u32)| crate::blocks::contents(self.partitions@[k.0]@[k.1]@),
            ),
            mapper_ends: Map::new(
                |k: (u64, u32, u32)| self.mapper_ends@.contains_key(packed(k.0, k.1, k.2)),
                |k: (u64, u32, u32)| self.mapper_ends@[packed(k.0, k.1, k.2)],
            ),
            unregistered: self.unregistered@,
            shuffle_meta: self.shuffle_meta@,
        }
    }
}

impl Default for MockShuffleCelebornClient {
    fn default() -> (r: Self)
        ensures
            r@ == MockView::empty(),
    {
        Self::new()
    }
}

impl MockShuffleCelebornClient {
    /// A client that no shuffle has used yet.
    pub fn new() -> (r: Self)
        ensures
            r@ == MockView::empty(),
    {
        let r = MockShuffleCelebornClient {
            partitions: HashMap::new(),
            mapper_ends: HashMap::new(),
            unregistered: HashSet::new(),
            shuffle_meta: HashMap::new(),
        };
        assert(r@ =~= MockView::empty());
        r
    }

    /// How many times the given map attempt was ended.
    pub fn mapper_end_count(&self, shuffle_id: u64, map_id: u32, attempt_id: u32) -> (r: u32)
        ensures
            r == self@.ends(shuffle_id, map_id, attempt_id),
    {
        match self.mapper_ends.get(&pack(shuffle_id, map_id, attempt_id)) {
            Some(count) => *count,
            None => 0,
        }
    }

    /// How many blocks were pushed to the given partition.
    pub fn pushed_block_count(&self, shuffle_id: u64, partition_id: u32) -> (r: usize)
        ensures
            r == self@.blocks(shuffle_id, partition_id).len(),
    {
        match self.partitions.get(&shuffle_id) {
            Some(by_partition) => match by_partition.get(&partition_id) {
                Some(blocks) => blocks.len(),
                None => 0,
            },
            None => 0,
        }
    }

    /// Whether the given shuffle has been unregistered.
    pub fn is_unregistered(&self, shuffle_id: u64) -> (r: bool)
        ensures
            r == self@.unregistered.contains(shuffle_id),
    {
        self.unregistered.contains(&shuffle_id)
    }

    /// Sets the sizes of a shuffle. It never fails.
    pub fn register_shuffle(
        &mut self,
        shuffle_id: u64,
        num_mappers: u32,
        num_partitions: u32,
    ) -> (r: Result<(), CelebornError>)
        ensures
            r is Ok,
            final(self)@ == old(self)@.register(shuffle_id, num_mappers, num_partitions),
    {
        self.shuffle_meta.insert(shuffle_id, (num_mappers, num_partitions));
        assert(self@ =~= old(self)@.register(shuffle_id, num_mappers, num_partitions));
        Ok(())
    }

    /// Adds a block to a partition. It never fails. The map task and its attempt are
    /// not looked at: a cluster puts the data of all mappers for a partition into one
    /// stream, and so does this client.
    pub fn push_data(
        &mut self,
        shuffle_id: u64,
        _map_id: u32,
        _attempt_id: u32,
        partition_id: u32,
        data: &[u8],
    ) -> (r: Result<(), CelebornError>)
        ensures
            r is Ok,
            final(self)@ == old(self)@.push(shuffle_id, partition_id, data@),
    {
        let mut by_partition: HashMap<u32, Vec<Bytes>> = match self.partitions.remove(&shuffle_id) {
            Some(by_partition) => by_partition,
            None => HashMap::new(),
        };
        let ghost inner = by_partition@;
        let mut blocks: Vec<Bytes> = match by_partition.remove(&partition_id) {
            Some(blocks) => blocks,
            None => Vec::new(),
        };
        let ghost before = blocks@;
        blocks.push(Bytes::copy_from_slice(data));
        by_partition.insert(partition_id, blocks);
        self.partitions.insert(shuffle_id, by_partition);
        proof {
            let old_blocks = old(self)@.blocks(shuffle_id, partition_id);
            assert(crate::blocks::contents(before) =~= old_blocks);
            assert(crate::blocks::contents(blocks@) =~= old_blocks.push(data@));
            assert(self@.partitions =~= old(self)@.push(
                shuffle_id,
                partition_id,
                data@,
            ).partitions);
            assert(self@ =~= old(self)@.push(shuffle_id, partition_id, data@));
        }
        Ok(())
    }

    /// Counts an end of a map attempt. It never fails.
    pub fn mapper_end(&mut self, shuffle_id: u64, map_id: u32, attempt_id: u32) -> (r: Result<
        (),
        CelebornError,
    >)
        requires
            old(self)@.ends(shuffle_id, map_id, attempt_id) < u32::MAX,
        ensures
            r is Ok,
            final(self)@ == old(self)@.end(shuffle_id, map_id, attempt_id),
    {
        let count: u32 = self.mapper_end_count(shuffle_id, map_id, attempt_id);
        self.mapper_ends.insert(pack(shuffle_id, map_id, attempt_id), count + 1);
        assert(self@.mapper_ends =~= old(self)@.end(shuffle_id, map_id, attempt_id).mapper_ends);
        assert(self@ =~= old(self)@.end(shuffle_id, map_id, attempt_id));
        Ok(())
    }

    /// The blocks of a partition, in push order. It never fails.
    pub fn read_partition(&self, shuffle_id: u64, partition_id: u32) -> (r: Result<
        Vec<Bytes>,
        CelebornError,
    >)
        ensures
            r matches Ok(blocks) && crate::blocks::contents(blocks@) == self@.blocks(
                shuffle_id,
                partition_id,
            ),
    {
        match self.partitions.get(&shuffle_id) {
            Some(by_partition) => match by_partition.get(&partition_id) {
                Some(blocks) => Ok(clone_blocks(blocks)),
                None => {
                    let none: Vec<Bytes> = Vec::new();
                    assert(crate::blocks::contents(none@) =~= Seq::<Seq<u8>>::empty());
                    Ok(none)
                },
            },
            None => {
                let none: Vec<Bytes> = Vec::new();
                assert(crate::blocks::contents(none@) =~= Seq::<Seq<u8>>::empty());
                Ok(none)
            },
        }
    }

    /// Drops the blocks and the sizes of a shuffle, and marks the shuffle. It never
    /// fails, and the counts of its ended map attempts are kept.
    pub fn unregister_shuffle(&mut self, shuffle_id: u64) -> (r: Result<(), CelebornError>)
        ensures
            r is Ok,
            final(self)@ == old(self)@.unregister(shuffle_id),
    {
        self.unregistered.insert(shuffle_id);
        self.partitions.remove(&shuffle_id);
        self.shuffle_meta.remove(&shuffle_id);
        assert(self@ =~= old(self)@.unregister(shuffle_id));
        Ok(())
    }
}

/// The client after the given blocks were pushed to one partition, one after the other.
pub open spec fn push_all(
    before: MockView,
    shuffle_id: u64,
    partition_id: u32,
    blocks: Seq<Seq<u8>>,
) -> MockView
    decreases blocks.len(),
{
    if blocks.len() == 0 {
        before
    } else {
        push_all(before, shuffle_id, partition_id, blocks.drop_last()).push(
            shuffle_id,
            partition_id,
            blocks.last(),
        )
    }
}

/// What was pushed is read back, whole and in push order, behind what the partition
/// held before: whichever mappers pushed it.
pub proof fn law_reads_return_pushes_in_order(
    before: MockView,
    shuffle_id: u64,
    partition_id: u32,
    blocks: Seq<Seq<u8>>,
)
    ensures
        push_all(before, shuffle_id, partition_id, blocks).blocks(shuffle_id, partition_id)
            == before.blocks(shuffle_id, partition_id) + blocks,
    decreases blocks.len(),
{
    let old_blocks = before.blocks(shuffle_id, partition_id);
    if blocks.len() == 0 {
        assert(old_blocks + blocks =~= old_blocks);
    } else {
        law_reads_return_pushes_in_order(before, shuffle_id, partition_id, blocks.drop_last());
        assert((old_blocks + blocks.drop_last()).push(blocks.last()) =~= old_blocks + blocks);
    }
}

/// A push concerns no other partition and no other shuffle, and neither an ended
/// attempt nor a registration concerns the data.
pub proof fn law_partitions_are_isolated(
    before: MockView,
    shuffle_id: u64,
    partition_id: u32,
    data: Seq<u8>,
    other_shuffle: u64,
    other_partition: u32,
)
    requires
        (shuffle_id, partition_id) != (other_shuffle, other_partition),
    ensures
        before.push(shuffle_id, partition_id, data).blocks(other_shuffle, other_partition)
            == before.blocks(other_shuffle, other_partition),
        forall|map_id: u32, attempt_id: u32|
            #[trigger] before.end(shuffle_id, map_id, attempt_id).partitions == before.partitions,
        forall|num_mappers: u32, num_partitions: u32|
            #[trigger] before.register(shuffle_id, num_mappers, num_partitions).partitions
                == before.partitions,
{
}

/// Unregistering a shuffle drops all of its data and marks it.
pub proof fn law_unregister_drops_data(before: MockView, shuffle_id: u64, partition_id: u32)
    ensures
        before.unregister(shuffle_id).blocks(shuffle_id, partition_id) == Seq::<Seq<u8>>::empty(),
        before.unregister(shuffle_id).unregistered.contains(shuffle_id),
        !before.unregister(shuffle_id).shuffle_meta.contains_key(shuffle_id),
{
}

/// Unregistering a shuffle leaves every other shuffle as it was.
pub proof fn law_unregister_spares_other_shuffles(
    before: MockView,
    shuffle_id: u64,
    other: u64,
    partition_id: u32,
)
    requires
        other != shuffle_id,
    ensures
        ({
            let after = before.unregister(shuffle_id);
            &&& after.blocks(other, partition_id) == before.blocks(other, partition_id)
            &&& after.unregistered.contains(other) == before.unregistered.contains(other)
            &&& after.shuffle_meta.contains_key(other) == before.shuffle_meta.contains_key(other)
            &&& before.shuffle_meta.contains_key(other) ==> after.shuffle_meta[other]
                == before.shuffle_meta[other]
        }),
{
}

/// Unregistering a shuffle twice is unregistering it once.
pub proof fn law_unregister_is_idempotent(before: MockView, shuffle_id: u64)
    ensures
        before.unregister(shuffle_id).unregister(shuffle_id) == before.unregister(shuffle_id),
{
    assert(before.unregister(shuffle_id).unregister(shuffle_id) =~= before.unregister(shuffle_id));
}

/// Registering a shuffle twice with the same sizes is registering it once.
pub proof fn law_register_is_idempotent(
    before: MockView,
    shuffle_id: u64,
    num_mappers: u32,
    num_partitions: u32,
)
    ensures
        before.register(shuffle_id, num_mappers, num_partitions).register(
            shuffle_id,
            num_mappers,
            num_partitions,
        ) == before.register(shuffle_id, num_mappers, num_partitions),
{
    assert(before.register(shuffle_id, num_mappers, num_partitions).register(
        shuffle_id,
        num_mappers,
        num_partitions,
    ) =~= before.register(shuffle_id, num_mappers, num_partitions));
}

/// Ending a map attempt counts for that attempt, and for no other attempt, map task or
/// shuffle.
pub proof fn law_ends_are_counted_per_attempt(
    before: MockView,
    shuffle_id: u64,
    map_id: u32,
    attempt_id: u32,
    other: (u64, u32, u32),
)
    requires
        before.ends(shuffle_id, map_id, attempt_id) < u32::MAX,
    ensures
        before.end(shuffle_id, map_id, attempt_id).ends(other.0, other.1, other.2) == before.ends(
            other.0,
            other.1,
            other.2,
        ) + (if other == (shuffle_id, map_id, attempt_id) {
            1int
        } else {
            0
        }),
{
}

/// A new client holds nothing.
pub proof fn law_new_client_holds_nothing(
    client: MockShuffleCelebornClient,
    shuffle_id: u64,
    map_id: u32,
    attempt_id: u32,
    partition_id: u32,
)
    requires
        call_ensures(MockShuffleCelebornClient::new, (), client),
    ensures
        client@.blocks(shuffle_id, partition_id).len() == 0,
        client@.ends(shuffle_id, map_id, attempt_id) == 0,
        !client@.unregistered.contains(shuffle_id),
        !client@.shuffle_meta.contains_key(shuffle_id),
{
}

/// What a client shows is what it holds: the number of blocks and of ends, the blocks
/// themselves in order, and which shuffles were unregistered.
pub proof fn law_client_shows_what_it_holds(
    client: MockShuffleCelebornClient,
    shuffle_id: u64,
    map_id: u32,
    attempt_id: u32,
    partition_id: u32,
    ends: u32,
    count: usize,
    gone: bool,
    read: Result<Vec<Bytes>, CelebornError>,
)
    requires
        call_ensures(
            MockShuffleCelebornClient::mapper_end_count,
            (&client, shuffle_id, map_id, attempt_id),
            ends,
        ),
        call_ensures(
            MockShuffleCelebornClient::pushed_block_count,
            (&client, shuffle_id, partition_id),
            count,
        ),
        call_ensures(MockShuffleCelebornClient::is_unregistered, (&client, shuffle_id), gone),
        call_ensures(
            MockShuffleCelebornClient::read_partition,
            (&client, shuffle_id, partition_id),
            read,
        ),
    ensures
        ends == client@.ends(shuffle_id, map_id, attempt_id),
        count == client@.blocks(shuffle_id, partition_id).len(),
        gone == client@.unregistered.contains(shuffle_id),
        read matches Ok(blocks) && {
            &&& blocks@.len() == count
            &&& forall|i: int|
                0 <= i < count ==> crate::blocks::content(#[trigger] blocks@[i]) == client@.blocks(
                    shuffle_id,
                    partition_id,
                )[i]
        },
{
    let blocks = read->Ok_0;
    assert(crate::blocks::contents(blocks@).len() == count);
    assert forall|i: int| 0 <= i < count implies crate::blocks::content(#[trigger] blocks@[i])
        == client@.blocks(shuffle_id, partition_id)[i] by {
        assert(crate::blocks::contents(blocks@)[i] == client@.blocks(shuffle_id, partition_id)[i]);
    }
}

/// A push adds the data behind what its partition held, whichever mapper makes it, and
/// changes nothing else.
pub proof fn law_push_adds_one_block(
    client: &mut MockShuffleCelebornClient,
    shuffle_id: u64,
    map_id: u32,
    attempt_id: u32,
    partition_id: u32,
    data: &[u8],
    r: Result<(), CelebornError>,
    other: (u64, u32),
)
    requires
        call_ensures(
            MockShuffleCelebornClient::push_data,
            (client, shuffle_id, map_id, attempt_id, partition_id, data),
            r,
        ),
    ensures
        r is Ok,
        final(client)@.blocks(other.0, other.1) == (if other == (shuffle_id, partition_id) {
            old(client)@.blocks(other.0, other.1).push(data@)
        } else {
            old(client)@.blocks(other.0, other.1)
        }),
        final(client)@.mapper_ends == old(client)@.mapper_ends,
        final(client)@.unregistered == old(client)@.unregistered,
        final(client)@.shuffle_meta == old(client)@.shuffle_meta,
{
}

/// An end counts once for its attempt, and changes nothing else.
pub proof fn law_end_counts_once(
    client: &mut MockShuffleCelebornClient,
    shuffle_id: u64,
    map_id: u32,
    attempt_id: u32,
    r: Result<(), CelebornError>,
    other: (u64, u32, u32),
    partition_id: u32,
)
    requires
        old(client)@.ends(shuffle_id, map_id, attempt_id) < u32::MAX,
        call_ensures(
            MockShuffleCelebornClient::mapper_end,
            (client, shuffle_id, map_id, attempt_id),
            r,
        ),
    ensures
        r is Ok,
        final(client)@.ends(other.0, other.1, other.2) == old(client)@.ends(
            other.0,
            other.1,
            other.2,
        ) + (if other == (shuffle_id, map_id, attempt_id) {
            1int
        } else {
            0
        }),
        final(client)@.blocks(other.0, partition_id) == old(client)@.blocks(other.0, partition_id),
        final(client)@.unregistered == old(client)@.unregistered,
        final(client)@.shuffle_meta == old(client)@.shuffle_meta,
{
}

/// A registration sets the sizes of its shuffle, and changes nothing else.
pub proof fn law_registration_sets_the_sizes(
    client: &mut MockShuffleCelebornClient,
    shuffle_id: u64,
    num_mappers: u32,
    num_partitions: u32,
    r: Result<(), CelebornError>,
    other: u64,
    partition_id: u32,
)
    requires
        call_ensures(
            MockShuffleCelebornClient::register_shuffle,
            (client, shuffle_id, num_mappers, num_partitions),
            r,
        ),
    ensures
        r is Ok,
        final(client)@.shuffle_meta.contains_key(shuffle_id),
        final(client)@.shuffle_meta[shuffle_id] == (num_mappers, num_partitions),
        other != shuffle_id ==> final(client)@.shuffle_meta.contains_key(other) == old(
            client,
        )@.shuffle_meta.contains_key(other) && final(client)@.shuffle_meta[other] == old(
            client,
        )@.shuffle_meta[other],
        final(client)@.blocks(other, partition_id) == old(client)@.blocks(other, partition_id),
        final(client)@.mapper_ends == old(client)@.mapper_ends,
        final(client)@.unregistered == old(client)@.unregistered,
{
}

/// Unregistering drops the blocks and the sizes of its shuffle and marks it. It keeps the
/// counted ends, and all that other shuffles hold.
pub proof fn law_unregistration_drops_its_shuffle(
    client: &mut MockShuffleCelebornClient,
    shuffle_id: u64,
    r: Result<(), CelebornError>,
    other: u64,
    partition_id: u32,
)
    requires
        call_ensures(MockShuffleCelebornClient::unregister_shuffle, (client, shuffle_id), r),
    ensures
        r is Ok,
        final(client)@.blocks(other, partition_id) == (if other == shuffle_id {
            Seq::empty()
        } else {
            old(client)@.blocks(other, partition_id)
        }),
        final(client)@.unregistered.contains(other) <==> other == shuffle_id || old(
            client,
        )@.unregistered.contains(other),
        final(client)@.shuffle_meta.contains_key(other) <==> other != shuffle_id && old(
            client,
        )@.shuffle_meta.contains_key(other),
        final(client)@.shuffle_meta.contains_key(other) ==> final(client)@.shuffle_meta[other]
            == old(client)@.shuffle_meta[other],
        final(client)@.mapper_ends == old(client)@.mapper_ends,
{
}

} // verus!
