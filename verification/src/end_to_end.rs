//! What a reducer reads of what the mappers were given: laws that span the map side
//! and the store of pushed blocks.

use vstd::prelude::*;

use crate::celeborn_sink::{MapperAttempt, SinkActionView, SinkStateView};
use crate::mock::MockView;

verus! {

/// A store after the given pushes, one after the other.
pub open spec fn store_pushes(store: MockView, pushes: Seq<SinkActionView>) -> MockView
    decreases pushes.len(),
{
    if pushes.len() == 0 {
        store
    } else {
        let after = match pushes[0] {
            SinkActionView::Push { attempt, partition_id, data } => store.push(
                attempt.shuffle_id,
                partition_id,
                data,
            ),
            _ => store,
        };
        store_pushes(after, pushes.drop_first())
    }
}

/// The block that a batch adds to partition `i`: none where the partition has no rows.
pub open spec fn batch_block(rows: Seq<usize>, blocks: Seq<Seq<u8>>, i: int) -> Seq<Seq<u8>> {
    if i < rows.len() && rows[i] != 0 {
        seq![blocks[i]]
    } else {
        Seq::empty()
    }
}

pub(crate) proof fn lemma_store_pushes(
    store: MockView,
    attempt: MapperAttempt,
    rows: Seq<usize>,
    blocks: Seq<Seq<u8>>,
    from: int,
    shuffle_id: u64,
    partition_id: u32,
)
    requires
        0 <= from <= rows.len() <= 0x1_0000_0000,
        rows.len() == blocks.len(),
    ensures
        ({
            let pushes = crate::celeborn_sink::nonempty_pushes(attempt, rows, blocks, from);
            store_pushes(store, pushes).blocks(shuffle_id, partition_id) == store.blocks(
                shuffle_id,
                partition_id,
            ) + (if shuffle_id == attempt.shuffle_id && from <= partition_id {
                batch_block(rows, blocks, partition_id as int)
            } else {
                Seq::empty()
            })
        }),
    decreases rows.len() - from,
{
    let pushes = crate::celeborn_sink::nonempty_pushes(attempt, rows, blocks, from);
    let held = store.blocks(shuffle_id, partition_id);
    if from == rows.len() {
        assert(held + Seq::<Seq<u8>>::empty() =~= held);
    } else if rows[from] == 0 {
        lemma_store_pushes(store, attempt, rows, blocks, from + 1, shuffle_id, partition_id);
    } else {
        let rest = crate::celeborn_sink::nonempty_pushes(attempt, rows, blocks, from + 1);
        let after = store.push(attempt.shuffle_id, from as u32, blocks[from]);
        assert(pushes.drop_first() =~= rest);
        assert(store_pushes(store, pushes) == store_pushes(after, rest));
        lemma_store_pushes(after, attempt, rows, blocks, from + 1, shuffle_id, partition_id);
        if shuffle_id == attempt.shuffle_id && partition_id == from {
            assert(after.blocks(shuffle_id, partition_id) =~= held + seq![blocks[from]]);
            assert(held + seq![blocks[from]] + Seq::<Seq<u8>>::empty() =~= held
                + seq![blocks[from]]);
        }
    }
}

/// A reducer reads what the mappers were given. Once a mapper's batch has been worked
/// on, a partition of the mapper's shuffle holds the block of that batch behind what it
/// held before, if the batch has rows for it, and is as it was otherwise. Partitions of
/// other shuffles are as they were.
pub proof fn law_reducers_read_what_mappers_push(
    store: MockView,
    state: SinkStateView,
    rows: Seq<usize>,
    blocks: Seq<Seq<u8>>,
    shuffle_id: u64,
    partition_id: u32,
)
    requires
        state.wf(),
        crate::celeborn_sink::batch_fits(state, rows, blocks, 0),
        rows.len() <= 0x1_0000_0000,
    ensures
        ({
            let pushes = crate::celeborn_sink::run_batch(state, rows, blocks).1;
            store_pushes(store, pushes).blocks(shuffle_id, partition_id) == store.blocks(
                shuffle_id,
                partition_id,
            ) + (if shuffle_id == state.shuffle_id {
                batch_block(rows, blocks, partition_id as int)
            } else {
                Seq::empty()
            })
        }),
{
    crate::celeborn_sink::law_batch(state, rows, blocks);
    lemma_store_pushes(store, state.attempt(), rows, blocks, 0, shuffle_id, partition_id);
}

/// One batch: the state of its mapper, the row counts of its target partitions, and what
/// each of these serialises to.
#[verifier::ext_equal]
pub struct Batch {
    pub state: SinkStateView,
    pub rows: Seq<usize>,
    pub blocks: Seq<Seq<u8>>,
}

impl Batch {
    /// The counters of the mapper can take the batch up, and 32 bits number its target
    /// partitions.
    pub open spec fn wf(self) -> bool {
        &&& self.state.wf()
        &&& crate::celeborn_sink::batch_fits(self.state, self.rows, self.blocks, 0)
        &&& self.rows.len() <= 0x1_0000_0000
    }

    /// The block that the batch adds to a partition of a shuffle, if any.
    pub open spec fn block(self, shuffle_id: u64, partition_id: u32) -> Seq<Seq<u8>> {
        if shuffle_id == self.state.shuffle_id {
            batch_block(self.rows, self.blocks, partition_id as int)
        } else {
            Seq::empty()
        }
    }
}

/// A store after the given batches were worked on, one after the other.
pub open spec fn store_batches(store: MockView, batches: Seq<Batch>) -> MockView
    decreases batches.len(),
{
    if batches.len() == 0 {
        store
    } else {
        let last = batches.last();
        store_pushes(
            store_batches(store, batches.drop_last()),
            crate::celeborn_sink::run_batch(last.state, last.rows, last.blocks).1,
        )
    }
}

/// The blocks that the batches have for a partition of a shuffle, in order.
pub open spec fn blocks_of(batches: Seq<Batch>, shuffle_id: u64, partition_id: u32) -> Seq<Seq<u8>>
    decreases batches.len(),
{
    if batches.len() == 0 {
        Seq::empty()
    } else {
        blocks_of(batches.drop_last(), shuffle_id, partition_id) + batches.last().block(
            shuffle_id,
            partition_id,
        )
    }
}

/// The read of a partition returns the blocks that the batches had for it, all of them and
/// nothing else, in the order of the batches, behind what the partition held before. Any
/// number of mappers and shuffles may take part.
pub proof fn law_reducers_read_all_batches(
    store: MockView,
    batches: Seq<Batch>,
    shuffle_id: u64,
    partition_id: u32,
)
    requires
        forall|k: int| 0 <= k < batches.len() ==> (#[trigger] batches[k]).wf(),
    ensures
        store_batches(store, batches).blocks(shuffle_id, partition_id) == store.blocks(
            shuffle_id,
            partition_id,
        ) + blocks_of(batches, shuffle_id, partition_id),
    decreases batches.len(),
{
    let held = store.blocks(shuffle_id, partition_id);
    if batches.len() == 0 {
        assert(held + Seq::<Seq<u8>>::empty() =~= held);
    } else {
        let init = batches.drop_last();
        let last = batches.last();
        assert(last.wf());
        assert forall|k: int| 0 <= k < init.len() implies (#[trigger] init[k]).wf() by {
            assert(init[k] == batches[k]);
        }
        law_reducers_read_all_batches(store, init, shuffle_id, partition_id);
        law_reducers_read_what_mappers_push(
            store_batches(store, init),
            last.state,
            last.rows,
            last.blocks,
            shuffle_id,
            partition_id,
        );
        assert(held + blocks_of(init, shuffle_id, partition_id) + last.block(
            shuffle_id,
            partition_id,
        ) =~= held + blocks_of(batches, shuffle_id, partition_id));
    }
}

/// The reported metadata counts what was pushed: a batch of one mapper adds to the totals
/// of each partition the rows that it has for that partition and the bytes of the block
/// that it pushes there.
pub proof fn law_metadata_counts_pushes(
    states: Seq<SinkStateView>,
    k: int,
    rows: Seq<usize>,
    blocks: Seq<Seq<u8>>,
    i: int,
)
    requires
        0 <= k < states.len(),
        states[k].wf(),
        crate::celeborn_sink::batch_fits(states[k], rows, blocks, 0),
        0 <= i,
    ensures
        ({
            let after = states.update(
                k,
                crate::celeborn_sink::run_batch(states[k], rows, blocks).0.state,
            );
            let pushed = i < rows.len() && rows[i] != 0;
            &&& crate::celeborn_sink::total_rows(after, i) == crate::celeborn_sink::total_rows(
                states,
                i,
            ) + (if pushed {
                rows[i] as int
            } else {
                0
            })
            &&& crate::celeborn_sink::total_bytes(after, i) == crate::celeborn_sink::total_bytes(
                states,
                i,
            ) + (if pushed {
                blocks[i].len() as int
            } else {
                0
            })
        }),
    decreases states.len(),
{
    let end = crate::celeborn_sink::run_batch(states[k], rows, blocks).0.state;
    let after = states.update(k, end);
    crate::celeborn_sink::law_batch(states[k], rows, blocks);
    let init = states.drop_last();
    if k == states.len() - 1 {
        assert(after.drop_last() =~= init);
        if i < states[k].rows.len() {
            assert(end.rows[i] == states[k].rows[i] + (if i < rows.len() {
                rows[i] as int
            } else {
                0
            }));
            assert(end.bytes[i] >= states[k].bytes[i]);
        }
    } else {
        assert(after.drop_last() =~= init.update(k, end));
        law_metadata_counts_pushes(init, k, rows, blocks, i);
    }
}

/// Mappers that have pushed nothing report nothing.
pub proof fn law_metadata_starts_at_zero(states: Seq<SinkStateView>, i: int)
    requires
        forall|k: int|
            0 <= k < states.len() ==> {
                let state = #[trigger] states[k];
                &&& state.rows == crate::celeborn_sink::zeros(state.rows.len())
                &&& state.bytes == crate::celeborn_sink::zeros(state.bytes.len())
            },
    ensures
        crate::celeborn_sink::total_rows(states, i) == 0,
        crate::celeborn_sink::total_bytes(states, i) == 0,
    decreases states.len(),
{
    if states.len() > 0 {
        let init = states.drop_last();
        assert forall|k: int| 0 <= k < init.len() implies {
            let state = #[trigger] init[k];
            &&& state.rows == crate::celeborn_sink::zeros(state.rows.len())
            &&& state.bytes == crate::celeborn_sink::zeros(state.bytes.len())
        } by {
            assert(init[k] == states[k]);
        }
        law_metadata_starts_at_zero(init, i);
        assert(states.last() == states[states.len() - 1]);
    }
}

} // verus!
