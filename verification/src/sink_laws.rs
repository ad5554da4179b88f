//! Laws of the map side: what a batch and a conclusion ask for from beginning to end, and
//! what they leave behind.

use vstd::prelude::*;

use crate::celeborn_sink::{
    aggregate, ended_attempts, try_aggregate, CelebornFinalizeTask, CelebornRepartitionState,
    CelebornSinkTask, FinalizeAction, FinalizeActionView, FinalizeView, MapperAttempt, SinkAction, SinkActionView,
    SinkEvent, SinkEventView, SinkPhase, SinkStateView, SinkTaskView,
};
use crate::shuffle_metadata::ShufflePartitionMeta;

verus! {

/// The outcome of an action that succeeds: the batch is split into target partitions with
/// the given row counts, and a target partition serialises to its block.
pub open spec fn reply(
    action: SinkActionView,
    rows: Seq<usize>,
    blocks: Seq<Seq<u8>>,
) -> SinkEventView {
    match action {
        SinkActionView::Register { .. } => SinkEventView::Registered,
        SinkActionView::Partition => SinkEventView::Partitioned(rows),
        SinkActionView::Serialize { partition_idx } => SinkEventView::Serialized(
            blocks[partition_idx as int],
        ),
        SinkActionView::Push { .. } => SinkEventView::Pushed,
        SinkActionView::Finish => SinkEventView::Pushed,
    }
}

/// The course of a batch.
pub struct BatchRun {
    /// Every outcome was taken up, and the batch came to its end.
    pub finished: bool,
    /// The task at the end.
    pub end: SinkTaskView,
    /// What was asked for, in order.
    pub actions: Seq<SinkActionView>,
}

/// The course of a batch from the given action on, in which every action succeeds, for at
/// most `steps` actions.
pub open spec fn run(
    task: SinkTaskView,
    action: SinkActionView,
    rows: Seq<usize>,
    blocks: Seq<Seq<u8>>,
    steps: nat,
) -> BatchRun
    decreases steps,
{
    if steps == 0 || action is Finish {
        BatchRun { finished: action is Finish, end: task, actions: seq![action] }
    } else {
        let event = reply(action, rows, blocks);
        let (next, asked) = task.step(event);
        let rest = run(next, asked, rows, blocks, (steps - 1) as nat);
        BatchRun {
            finished: task.accepts(event) && rest.finished,
            end: rest.end,
            actions: seq![action] + rest.actions,
        }
    }
}

/// The course of a whole batch.
pub open spec fn whole_run(
    state: SinkStateView,
    rows: Seq<usize>,
    blocks: Seq<Seq<u8>>,
    steps: nat,
) -> BatchRun {
    let (task, action) = SinkTaskView::start(state);
    run(task, action, rows, blocks, steps)
}

/// The target partitions from `from` on that have rows, in ascending order.
pub open spec fn nonempty_from(rows: Seq<usize>, from: int) -> Seq<int>
    decreases rows.len() - from,
{
    if from >= rows.len() {
        Seq::empty()
    } else if rows[from] != 0 {
        seq![from] + nonempty_from(rows, from + 1)
    } else {
        nonempty_from(rows, from + 1)
    }
}

/// The counters can take up what a batch has for the target partitions from `from` on.
pub open spec fn fits(
    state: SinkStateView,
    rows: Seq<usize>,
    blocks: Seq<Seq<u8>>,
    from: int,
) -> bool {
    forall|i: int|
        from <= i < rows.len() && #[trigger] rows[i] != 0 ==> {
            &&& i < state.rows.len()
            &&& i < state.bytes.len()
            &&& state.rows[i] + rows[i] <= usize::MAX
            &&& state.bytes[i] + blocks[i].len() <= usize::MAX
        }
}

proof fn lemma_nonempty_from(rows: Seq<usize>, from: int)
    requires
        0 <= from <= rows.len(),
    ensures
        nonempty_from(rows, from).len() <= rows.len() - from,
        forall|j: int, k: int|
            0 <= j < k < nonempty_from(rows, from).len() ==> (#[trigger] nonempty_from(
                rows,
                from,
            )[j]) < (#[trigger] nonempty_from(rows, from)[k]),
        forall|j: int|
            0 <= j < nonempty_from(rows, from).len() ==> from <= (#[trigger] nonempty_from(
                rows,
                from,
            )[j]) < rows.len() && rows[nonempty_from(rows, from)[j]] != 0,
        forall|i: int|
            from <= i < rows.len() && #[trigger] rows[i] != 0 ==> nonempty_from(
                rows,
                from,
            ).contains(i),
    decreases rows.len() - from,
{
    if from < rows.len() {
        lemma_nonempty_from(rows, from + 1);
        let rest = nonempty_from(rows, from + 1);
        let all = nonempty_from(rows, from);
        if rows[from] != 0 {
            assert(all == seq![from] + rest);
            assert forall|i: int| from <= i < rows.len() && #[trigger] rows[i] != 0 implies all.contains(
                i,
            ) by {
                if i == from {
                    assert(all[0] == i);
                } else {
                    assert(rest.contains(i));
                    let j = choose|j: int| 0 <= j < rest.len() && rest[j] == i;
                    assert(all[j + 1] == i);
                }
            }
        }
    }
}

/// Where the task stands after it has gone on from `from`.
proof fn lemma_advance(task: SinkTaskView, from: int)
    requires
        0 <= from <= task.rows.len() <= usize::MAX,
    ensures
        ({
            let (next, action) = task.advance(from);
            let targets = nonempty_from(task.rows, from);
            &&& next == (SinkTaskView {
                phase: next.phase,
                index: next.index,
                size: next.size,
                ..task
            })
            &&& if targets.len() == 0 {
                next.phase == SinkPhase::Done && action == SinkActionView::Finish
            } else {
                &&& next.phase == SinkPhase::Serializing
                &&& from <= next.index < task.rows.len()
                &&& task.rows[next.index] != 0
                &&& targets[0] == next.index
                &&& targets == seq![next.index] + nonempty_from(task.rows, next.index + 1)
                &&& action == (SinkActionView::Serialize { partition_idx: next.index as usize })
                &&& next.index as usize == next.index
            }
        }),
    decreases task.rows.len() - from,
{
    if from < task.rows.len() && task.rows[from] == 0 {
        lemma_advance(task, from + 1);
    }
}

proof fn lemma_run_targets(
    task: SinkTaskView,
    action: SinkActionView,
    blocks: Seq<Seq<u8>>,
    steps: nat,
)
    requires
        task.phase == SinkPhase::Serializing,
        0 <= task.index < task.rows.len() <= usize::MAX,
        task.rows[task.index] != 0,
        task.rows.len() == blocks.len(),
        task.state.rows.len() == task.state.bytes.len(),
        fits(task.state, task.rows, blocks, task.index),
        action == (SinkActionView::Serialize { partition_idx: task.index as usize }),
        steps >= 2 * (task.rows.len() - task.index),
    ensures
        ({
            let run = run(task, action, task.rows, blocks, steps);
            let targets = nonempty_from(task.rows, task.index);
            &&& run.finished
            &&& run.actions.len() == 2 * targets.len() + 1
            &&& run.actions.last() == SinkActionView::Finish
            &&& forall|j: int|
                0 <= j < targets.len() ==> {
                    &&& run.actions[2 * j] == (SinkActionView::Serialize {
                        partition_idx: (#[trigger] targets[j]) as usize,
                    })
                    &&& run.actions[2 * j + 1] == (SinkActionView::Push {
                        attempt: MapperAttempt {
                            shuffle_id: task.state.shuffle_id,
                            map_id: task.state.map_id,
                            attempt_id: task.state.attempt_id,
                        },
                        partition_id: targets[j] as u32,
                        data: blocks[targets[j]],
                    })
                }
            &&& run.end.phase == SinkPhase::Done
            &&& run.end.state == (SinkStateView {
                rows: run.end.state.rows,
                bytes: run.end.state.bytes,
                ..task.state
            })
            &&& run.end.state.rows.len() == task.state.rows.len()
            &&& run.end.state.bytes.len() == task.state.bytes.len()
            &&& forall|i: int|
                0 <= i < task.state.rows.len() ==> #[trigger] run.end.state.rows[i]
                    == task.state.rows[i] + (if task.index <= i < task.rows.len() {
                    task.rows[i] as int
                } else {
                    0
                })
            &&& forall|i: int|
                0 <= i < task.state.bytes.len() ==> #[trigger] run.end.state.bytes[i]
                    == task.state.bytes[i] + (if task.index <= i < task.rows.len()
                    && task.rows[i] != 0 {
                    blocks[i].len() as int
                } else {
                    0
                })
            &&& forall|store: crate::mock::MockView|
                #[trigger] crate::end_to_end::store_pushes(store, run.actions)
                    == crate::end_to_end::store_pushes(
                    store,
                    crate::celeborn_sink::nonempty_pushes(
                        task.state.attempt(),
                        task.rows,
                        blocks,
                        task.index,
                    ),
                )
        }),
    decreases task.rows.len() - task.index,
{
    let k = task.index;
    let targets = nonempty_from(task.rows, k);
    let serialized = SinkEventView::Serialized(blocks[k]);
    let (pushing, push) = task.step(serialized);
    let (next, asked) = pushing.step(SinkEventView::Pushed);
    let pushed = pushing.state.pushed(k, task.rows[k], blocks[k].len() as int);
    let counted = SinkTaskView { state: pushed, ..pushing };
    assert(task.rows[k] != 0);
    assert(k as usize == k);
    assert(reply(action, task.rows, blocks) == serialized);
    assert(next == counted.advance(k + 1).0);
    lemma_advance(counted, k + 1);
    let run0 = run(task, action, task.rows, blocks, steps);
    let run1 = run(pushing, push, task.rows, blocks, (steps - 1) as nat);
    let rest = run(next, asked, task.rows, blocks, (steps - 2) as nat);
    assert(run1.actions == seq![push] + rest.actions);
    assert(run0.actions == seq![action] + run1.actions);
    let later = nonempty_from(task.rows, k + 1);
    assert(targets == seq![k] + later);
    assert(fits(next.state, next.rows, blocks, k + 1));
    lemma_nonempty_from(task.rows, k + 1);
    let pushes = crate::celeborn_sink::nonempty_pushes(task.state.attempt(), task.rows, blocks, k);
    let later_pushes = crate::celeborn_sink::nonempty_pushes(
        task.state.attempt(),
        task.rows,
        blocks,
        k + 1,
    );
    assert(pushes == seq![push] + later_pushes);
    if later.len() == 0 {
        assert(rest.actions == seq![asked]);
        lemma_no_pushes(task.state.attempt(), task.rows, blocks, k + 1);
        assert forall|i: int| k < i < task.rows.len() implies task.rows[i] == 0 by {
            if task.rows[i] != 0 {
                assert(later.contains(i));
            }
        }
    } else {
        lemma_run_targets(next, asked, blocks, (steps - 2) as nat);
        lemma_gap(task.state.attempt(), task.rows, blocks, k + 1, next.index);
        assert forall|i: int| k < i < next.index implies task.rows[i] == 0 by {
            if task.rows[i] != 0 {
                assert(later.contains(i));
            }
        }
    }
    assert forall|j: int| 0 <= j < targets.len() implies {
        &&& run0.actions[2 * j] == (SinkActionView::Serialize {
            partition_idx: (#[trigger] targets[j]) as usize,
        })
        &&& run0.actions[2 * j + 1] == (SinkActionView::Push {
            attempt: task.state.attempt(),
            partition_id: targets[j] as u32,
            data: blocks[targets[j]],
        })
    } by {
        if j > 0 {
            assert(targets[j] == later[j - 1]);
            assert(run0.actions[2 * j] == rest.actions[2 * (j - 1)]);
            assert(run0.actions[2 * j + 1] == rest.actions[2 * (j - 1) + 1]);
        }
    }
    assert forall|store: crate::mock::MockView|
        #[trigger] crate::end_to_end::store_pushes(store, run0.actions)
            == crate::end_to_end::store_pushes(store, pushes) by {
        let after = store.push(task.state.shuffle_id, k as u32, blocks[k]);
        assert(run0.actions.drop_first() =~= run1.actions);
        assert(run1.actions.drop_first() =~= rest.actions);
        assert(pushes.drop_first() =~= later_pushes);
        assert(crate::end_to_end::store_pushes(store, run0.actions)
            == crate::end_to_end::store_pushes(store, run1.actions));
        assert(crate::end_to_end::store_pushes(store, run1.actions)
            == crate::end_to_end::store_pushes(after, rest.actions));
        if later.len() == 0 {
            assert(rest.actions.drop_first() =~= Seq::<SinkActionView>::empty());
            assert(crate::end_to_end::store_pushes(after, rest.actions.drop_first()) == after);
        }
    }
}

proof fn lemma_no_pushes(
    attempt: MapperAttempt,
    rows: Seq<usize>,
    blocks: Seq<Seq<u8>>,
    from: int,
)
    requires
        nonempty_from(rows, from).len() == 0,
        0 <= from <= rows.len(),
    ensures
        crate::celeborn_sink::nonempty_pushes(attempt, rows, blocks, from) == Seq::<
            SinkActionView,
        >::empty(),
    decreases rows.len() - from,
{
    if from < rows.len() {
        if rows[from] == 0 {
            lemma_no_pushes(attempt, rows, blocks, from + 1);
        } else {
            assert(nonempty_from(rows, from)[0] == from);
        }
    }
}

proof fn lemma_gap(
    attempt: MapperAttempt,
    rows: Seq<usize>,
    blocks: Seq<Seq<u8>>,
    from: int,
    first: int,
)
    requires
        0 <= from <= first < rows.len(),
        nonempty_from(rows, from).len() > 0,
        nonempty_from(rows, from)[0] == first,
    ensures
        nonempty_from(rows, from) == nonempty_from(rows, first),
        crate::celeborn_sink::nonempty_pushes(attempt, rows, blocks, from)
            == crate::celeborn_sink::nonempty_pushes(attempt, rows, blocks, first),
    decreases first - from,
{
    if from < first {
        if rows[from] == 0 {
            lemma_gap(attempt, rows, blocks, from + 1, first);
        } else {
            assert(nonempty_from(rows, from)[0] == from);
        }
    }
}

/// The actions that precede the target partitions of a batch.
pub open spec fn opening(state: SinkStateView) -> Seq<SinkActionView> {
    if state.registered {
        seq![SinkActionView::Partition]
    } else {
        seq![
            SinkActionView::Register {
                shuffle_id: state.shuffle_id,
                num_mappers: state.num_mappers,
                num_partitions: state.num_partitions,
            },
            SinkActionView::Partition,
        ]
    }
}

/// A batch does its work on every target partition that has rows, and on no other. After
/// the registration, where there has been none, and the split, each such partition is
/// serialised, and the very bytes that it serialises to are pushed to it under the
/// mapper's own attempt, before the next one is taken up; they are taken up in ascending
/// order, each once. Every outcome on the way is taken up. Afterwards the counters of each
/// partition have grown by its rows and by its bytes, and nothing else has changed but
/// that the shuffle is registered.
pub proof fn law_batch_serves_every_partition(
    state: SinkStateView,
    rows: Seq<usize>,
    blocks: Seq<Seq<u8>>,
    steps: nat,
)
    requires
        state.rows.len() == state.bytes.len(),
        rows.len() == blocks.len(),
        rows.len() <= usize::MAX,
        forall|i: int|
            0 <= i < rows.len() && #[trigger] rows[i] != 0 ==> {
                &&& i < state.rows.len()
                &&& state.rows[i] + rows[i] <= usize::MAX
                &&& state.bytes[i] + blocks[i].len() <= usize::MAX
            },
        steps >= 2 * rows.len() + 2,
    ensures
        ({
            let run = whole_run(state, rows, blocks, steps);
            let first = opening(state).len() as int;
            let targets = nonempty_from(rows, 0);
            &&& run.finished
            &&& forall|j: int, k: int|
                0 <= j < k < targets.len() ==> (#[trigger] targets[j]) < (#[trigger] targets[k])
            &&& forall|i: int|
                targets.contains(i) <==> 0 <= i < rows.len() && #[trigger] rows[i] != 0
            &&& run.actions.len() == first + 2 * targets.len() + 1
            &&& run.actions.take(first) == opening(state)
            &&& forall|j: int|
                0 <= j < targets.len() ==> {
                    &&& run.actions[first + 2 * j] == (SinkActionView::Serialize {
                        partition_idx: (#[trigger] targets[j]) as usize,
                    })
                    &&& run.actions[first + 2 * j + 1] == (SinkActionView::Push {
                        attempt: MapperAttempt {
                            shuffle_id: state.shuffle_id,
                            map_id: state.map_id,
                            attempt_id: state.attempt_id,
                        },
                        partition_id: targets[j] as u32,
                        data: blocks[targets[j]],
                    })
                }
            &&& run.actions.last() == SinkActionView::Finish
            &&& run.end.phase == SinkPhase::Done
            &&& run.end.state.shuffle_id == state.shuffle_id
            &&& run.end.state.map_id == state.map_id
            &&& run.end.state.attempt_id == state.attempt_id
            &&& run.end.state.num_mappers == state.num_mappers
            &&& run.end.state.num_partitions == state.num_partitions
            &&& run.end.state.registered
            &&& run.end.state.rows.len() == state.rows.len()
            &&& run.end.state.bytes.len() == state.bytes.len()
            &&& forall|i: int|
                0 <= i < state.rows.len() ==> #[trigger] run.end.state.rows[i] == state.rows[i] + (
                if i < rows.len() {
                    rows[i] as int
                } else {
                    0
                })
            &&& forall|i: int|
                0 <= i < state.bytes.len() ==> #[trigger] run.end.state.bytes[i] == state.bytes[i]
                    + (if i < rows.len() && rows[i] != 0 {
                    blocks[i].len() as int
                } else {
                    0
                })
        }),
{
    lemma_whole_run(state, rows, blocks, steps);
    lemma_nonempty_from(rows, 0);
    let targets = nonempty_from(rows, 0);
    assert forall|i: int| targets.contains(i) <==> 0 <= i < rows.len() && #[trigger] rows[i]
        != 0 by {
        if targets.contains(i) {
            let j = choose|j: int| 0 <= j < targets.len() && targets[j] == i;
            assert(rows[targets[j]] != 0);
        }
    }
}

/// The course of a batch behind its opening.
proof fn lemma_whole_run(
    state: SinkStateView,
    rows: Seq<usize>,
    blocks: Seq<Seq<u8>>,
    steps: nat,
)
    requires
        state.rows.len() == state.bytes.len(),
        rows.len() == blocks.len(),
        rows.len() <= usize::MAX,
        fits(state, rows, blocks, 0),
        steps >= 2 * rows.len() + 2,
    ensures
        ({
            let run = whole_run(state, rows, blocks, steps);
            let first = opening(state).len() as int;
            let targets = nonempty_from(rows, 0);
            &&& run.finished
            &&& run.actions.len() == first + 2 * targets.len() + 1
            &&& run.actions.take(first) == opening(state)
            &&& forall|j: int|
                0 <= j < targets.len() ==> {
                    &&& run.actions[first + 2 * j] == (SinkActionView::Serialize {
                        partition_idx: (#[trigger] targets[j]) as usize,
                    })
                    &&& run.actions[first + 2 * j + 1] == (SinkActionView::Push {
                        attempt: MapperAttempt {
                            shuffle_id: state.shuffle_id,
                            map_id: state.map_id,
                            attempt_id: state.attempt_id,
                        },
                        partition_id: targets[j] as u32,
                        data: blocks[targets[j]],
                    })
                }
            &&& run.actions.last() == SinkActionView::Finish
            &&& run.end.phase == SinkPhase::Done
            &&& run.end.state == (SinkStateView {
                registered: true,
                rows: run.end.state.rows,
                bytes: run.end.state.bytes,
                ..state
            })
            &&& run.end.state.rows.len() == state.rows.len()
            &&& run.end.state.bytes.len() == state.bytes.len()
            &&& forall|i: int|
                0 <= i < state.rows.len() ==> #[trigger] run.end.state.rows[i] == state.rows[i] + (
                if i < rows.len() {
                    rows[i] as int
                } else {
                    0
                })
            &&& forall|i: int|
                0 <= i < state.bytes.len() ==> #[trigger] run.end.state.bytes[i] == state.bytes[i]
                    + (if i < rows.len() && rows[i] != 0 {
                    blocks[i].len() as int
                } else {
                    0
                })
            &&& forall|store: crate::mock::MockView|
                #[trigger] crate::end_to_end::store_pushes(store, run.actions)
                    == crate::end_to_end::store_pushes(
                    store,
                    crate::celeborn_sink::nonempty_pushes(state.attempt(), rows, blocks, 0),
                )
        }),
{
    let (task, action) = SinkTaskView::start(state);
    let run0 = run(task, action, rows, blocks, steps);
    let ready = if state.registered {
        task
    } else {
        task.step(SinkEventView::Registered).0
    };
    let left = if state.registered {
        steps
    } else {
        (steps - 1) as nat
    };
    let run1 = run(ready, SinkActionView::Partition, rows, blocks, left);
    let (split, asked) = ready.step(SinkEventView::Partitioned(rows));
    let run2 = run(split, asked, rows, blocks, (left - 1) as nat);
    assert(run1.actions == seq![SinkActionView::Partition] + run2.actions);
    if state.registered {
        assert(run0.actions == run1.actions);
    } else {
        assert(run0.actions == seq![action] + run1.actions);
    }
    let first = opening(state).len() as int;
    assert(run0.actions =~= opening(state) + run2.actions);
    assert(run0.actions.take(first) =~= opening(state));
    lemma_advance(SinkTaskView { rows, ..ready }, 0);
    lemma_nonempty_from(rows, 0);
    let targets = nonempty_from(rows, 0);
    let pushes = crate::celeborn_sink::nonempty_pushes(state.attempt(), rows, blocks, 0);
    assert(crate::celeborn_sink::has_room(state.rows, rows, 0));
    if targets.len() == 0 {
        lemma_no_pushes(state.attempt(), rows, blocks, 0);
        assert(run2.actions == seq![asked]);
        assert forall|i: int| 0 <= i < rows.len() implies rows[i] == 0 by {
            if rows[i] != 0 {
                assert(targets.contains(i));
            }
        }
    } else {
        assert forall|i: int| 0 <= i < split.index implies rows[i] == 0 by {
            if rows[i] != 0 {
                assert(targets.contains(i));
            }
        }
        lemma_run_targets(split, asked, blocks, (left - 1) as nat);
        lemma_gap(state.attempt(), rows, blocks, 0, split.index);
    }
    assert forall|j: int| 0 <= j < targets.len() implies {
        &&& run0.actions[first + 2 * j] == (SinkActionView::Serialize {
            partition_idx: (#[trigger] targets[j]) as usize,
        })
        &&& run0.actions[first + 2 * j + 1] == (SinkActionView::Push {
            attempt: state.attempt(),
            partition_id: targets[j] as u32,
            data: blocks[targets[j]],
        })
    } by {
        assert(run0.actions[first + 2 * j] == run2.actions[2 * j]);
        assert(run0.actions[first + 2 * j + 1] == run2.actions[2 * j + 1]);
    }
    assert forall|store: crate::mock::MockView|
        #[trigger] crate::end_to_end::store_pushes(store, run0.actions)
            == crate::end_to_end::store_pushes(store, pushes) by {
        assert(run1.actions.drop_first() =~= run2.actions);
        assert(crate::end_to_end::store_pushes(store, run1.actions)
            == crate::end_to_end::store_pushes(store, run2.actions));
        if !state.registered {
            assert(run0.actions.drop_first() =~= run1.actions);
        }
        if targets.len() == 0 {
            assert(run2.actions.drop_first() =~= Seq::<SinkActionView>::empty());
            assert(crate::end_to_end::store_pushes(store, run2.actions.drop_first()) == store);
        }
    }
}

/// What a mapper's batch leaves for the reducers: a partition of the mapper's shuffle gains
/// exactly the block that the batch's rows for it serialise to, behind what it held, if the
/// batch has any; nothing else changes.
pub proof fn law_reducers_read_serialised_partitions(
    store: crate::mock::MockView,
    state: SinkStateView,
    rows: Seq<usize>,
    blocks: Seq<Seq<u8>>,
    steps: nat,
    shuffle_id: u64,
    partition_id: u32,
)
    requires
        state.rows.len() == state.bytes.len(),
        rows.len() == blocks.len(),
        rows.len() <= usize::MAX,
        rows.len() <= 0x1_0000_0000,
        forall|i: int|
            0 <= i < rows.len() && #[trigger] rows[i] != 0 ==> {
                &&& i < state.rows.len()
                &&& state.rows[i] + rows[i] <= usize::MAX
                &&& state.bytes[i] + blocks[i].len() <= usize::MAX
            },
        steps >= 2 * rows.len() + 2,
    ensures
        ({
            let asked = whole_run(state, rows, blocks, steps).actions;
            let after = crate::end_to_end::store_pushes(store, asked);
            after.blocks(shuffle_id, partition_id) == (if shuffle_id == state.shuffle_id
                && partition_id < rows.len() && rows[partition_id as int] != 0 {
                store.blocks(shuffle_id, partition_id).push(blocks[partition_id as int])
            } else {
                store.blocks(shuffle_id, partition_id)
            })
        }),
{
    lemma_whole_run(state, rows, blocks, steps);
    crate::end_to_end::lemma_store_pushes(
        store,
        state.attempt(),
        rows,
        blocks,
        0,
        shuffle_id,
        partition_id,
    );
    let held = store.blocks(shuffle_id, partition_id);
    assert(held + Seq::<Seq<u8>>::empty() =~= held);
    if partition_id < rows.len() {
        assert(held + seq![blocks[partition_id as int]] =~= held.push(blocks[partition_id as int]));
    }
}

/// A new mapper belongs to the first attempt at its map task. It has registered nothing
/// and counted nothing, and has a counter for every target partition; the partition count
/// that it registers with is their number, cut to 32 bits.
pub proof fn law_new_mapper_starts_from_nothing(
    shuffle_id: u64,
    map_id: u32,
    num_mappers: u32,
    num_partitions: usize,
    state: CelebornRepartitionState,
)
    requires
        call_ensures(
            CelebornRepartitionState::new,
            (shuffle_id, map_id, num_mappers, num_partitions),
            state,
        ),
    ensures
        state@.shuffle_id == shuffle_id,
        state@.map_id == map_id,
        state@.attempt_id == 0,
        state@.num_mappers == num_mappers,
        !state@.registered,
        state@.num_partitions == num_partitions as int % 0x1_0000_0000,
        num_partitions <= u32::MAX ==> state@.num_partitions == num_partitions,
        state@.rows.len() == num_partitions,
        state@.bytes.len() == num_partitions,
        forall|i: int| 0 <= i < num_partitions ==> #[trigger] state@.rows[i] == 0,
        forall|i: int| 0 <= i < num_partitions ==> #[trigger] state@.bytes[i] == 0,
        state@.wf(),
{
}

/// A mapper is known by its shuffle, its map task and its attempt.
pub proof fn law_attempt_identifies_mapper(state: CelebornRepartitionState, attempt: MapperAttempt)
    requires
        call_ensures(CelebornRepartitionState::attempt, (&state,), attempt),
    ensures
        attempt.shuffle_id == state@.shuffle_id,
        attempt.map_id == state@.map_id,
        attempt.attempt_id == state@.attempt_id,
        attempt == state@.attempt(),
{
}

/// What a mapper says of itself is what it holds.
pub proof fn law_mapper_shows_its_counters(
    state: CelebornRepartitionState,
    registered: bool,
    rows: &Vec<usize>,
    bytes: &Vec<usize>,
)
    requires
        call_ensures(CelebornRepartitionState::is_registered, (&state,), registered),
        call_ensures(CelebornRepartitionState::rows_per_partition, (&state,), rows),
        call_ensures(CelebornRepartitionState::bytes_per_partition, (&state,), bytes),
    ensures
        registered == state@.registered,
        rows@ == state@.rows,
        bytes@ == state@.bytes,
{
}

/// An outcome is taken up exactly where it answers the action before it and the counters of
/// the partitions that it concerns can take its sizes up. A partition without rows needs no
/// counter.
pub proof fn law_outcomes_that_are_taken_up(task: SinkTaskView, rows: Seq<usize>, data: Seq<u8>)
    ensures
        task.accepts(SinkEventView::Registered) <==> task.phase == SinkPhase::Registering,
        task.accepts(SinkEventView::Partitioned(rows)) <==> {
            &&& task.phase == SinkPhase::Partitioning
            &&& forall|i: int|
                0 <= i < rows.len() && #[trigger] rows[i] != 0 ==> i < task.state.rows.len()
                    && task.state.rows[i] + rows[i] <= usize::MAX
        },
        task.accepts(SinkEventView::Serialized(data)) <==> task.phase == SinkPhase::Serializing
            && task.state.bytes[task.index] + data.len() <= usize::MAX,
        task.accepts(SinkEventView::Pushed) <==> task.phase == SinkPhase::Pushing,
        task.awaits() <==> task.phase == SinkPhase::Registering || task.phase
            == SinkPhase::Partitioning || task.phase == SinkPhase::Serializing || task.phase
            == SinkPhase::Pushing,
{
}

/// A failure changes nothing that the mapper holds, and leaves the batch failed.
pub proof fn law_failure_keeps_the_counters(task: SinkTaskView)
    ensures
        task.failed().phase == SinkPhase::Failed,
        task.failed().state == task.state,
{
}

/// The mapper that comes out of a batch is the one that the batch worked on.
pub proof fn law_batch_returns_its_mapper(
    task: CelebornSinkTask,
    state: CelebornRepartitionState,
)
    requires
        call_ensures(CelebornSinkTask::into_state, (task,), state),
    ensures
        state@ == task@.state,
{
}

/// The view of an event or an action tells all that it holds, and nothing else.
pub proof fn law_sink_views_are_faithful(
    rows: Vec<usize>,
    data: Vec<u8>,
    attempt: MapperAttempt,
    id: u64,
    a: u32,
    b: u32,
    index: usize,
    metas: Vec<ShufflePartitionMeta>,
)
    ensures
        SinkEvent::Registered@ == SinkEventView::Registered,
        SinkEvent::Partitioned(rows)@ == SinkEventView::Partitioned(rows@),
        SinkEvent::Serialized(data)@ == SinkEventView::Serialized(data@),
        SinkEvent::Pushed@ == SinkEventView::Pushed,
        (SinkAction::Register { shuffle_id: id, num_mappers: a, num_partitions: b })@ == (
        SinkActionView::Register { shuffle_id: id, num_mappers: a, num_partitions: b }),
        SinkAction::Partition@ == SinkActionView::Partition,
        (SinkAction::Serialize { partition_idx: index })@ == (SinkActionView::Serialize {
            partition_idx: index,
        }),
        (SinkAction::Push { attempt, partition_id: a, data })@ == (SinkActionView::Push {
            attempt,
            partition_id: a,
            data: data@,
        }),
        SinkAction::Finish@ == SinkActionView::Finish,
        (FinalizeAction::Register { shuffle_id: id, num_mappers: a, num_partitions: b })@ == (
        FinalizeActionView::Register { shuffle_id: id, num_mappers: a, num_partitions: b }),
        FinalizeAction::EndMapper(attempt)@ == FinalizeActionView::EndMapper(attempt),
        FinalizeAction::Report(metas)@ == FinalizeActionView::Report(metas@),
        FinalizeAction::Stop@ == FinalizeActionView::Stop,
{
}

/// A counter, or zero where there is none.
pub open spec fn counter(counters: Seq<usize>, i: int) -> int {
    if 0 <= i < counters.len() {
        counters[i] as int
    } else {
        0
    }
}

/// The rows that each of the states pushed to partition `i`.
pub open spec fn rows_at(states: Seq<SinkStateView>, i: int) -> Seq<int> {
    Seq::new(states.len(), |k: int| counter(states[k].rows, i))
}

/// The bytes that each of the states pushed to partition `i`.
pub open spec fn bytes_at(states: Seq<SinkStateView>, i: int) -> Seq<int> {
    Seq::new(states.len(), |k: int| counter(states[k].bytes, i))
}

/// The totals of a partition are the sums of the states' counters.
pub proof fn law_totals_are_sums(states: Seq<SinkStateView>, i: int)
    ensures
        crate::celeborn_sink::total_rows(states, i) == crate::sums::sum(rows_at(states, i)),
        crate::celeborn_sink::total_bytes(states, i) == crate::sums::sum(bytes_at(states, i)),
    decreases states.len(),
{
    if states.len() > 0 {
        let init = states.drop_last();
        law_totals_are_sums(init, i);
        assert(rows_at(states, i).drop_last() =~= rows_at(init, i));
        assert(bytes_at(states, i).drop_last() =~= bytes_at(init, i));
        crate::sums::lemma_sum_last(rows_at(states, i));
        crate::sums::lemma_sum_last(bytes_at(states, i));
    }
}

/// The metadata is that of `num_partitions` partitions, and counts for each of them the
/// rows and the bytes that all the states together pushed to it.
pub open spec fn counts_all(
    metas: Seq<ShufflePartitionMeta>,
    states: Seq<SinkStateView>,
    num_partitions: int,
) -> bool {
    &&& metas.len() == num_partitions
    &&& forall|i: int|
        0 <= i < num_partitions ==> (#[trigger] metas[i]).num_rows == crate::sums::sum(
            rows_at(states, i),
        )
    &&& forall|i: int|
        0 <= i < num_partitions ==> (#[trigger] metas[i]).size_bytes == crate::sums::sum(
            bytes_at(states, i),
        )
}

/// No state has a counter beyond the partitions, and no sum is too large.
pub open spec fn sums_fit(states: Seq<SinkStateView>, num_partitions: int) -> bool {
    &&& forall|k: int|
        0 <= k < states.len() ==> (#[trigger] states[k]).rows.len() <= num_partitions
            && states[k].bytes.len() <= num_partitions
    &&& forall|i: int|
        0 <= i < num_partitions ==> #[trigger] crate::sums::sum(rows_at(states, i)) <= usize::MAX
    &&& forall|i: int|
        0 <= i < num_partitions ==> #[trigger] crate::sums::sum(bytes_at(states, i)) <= usize::MAX
}

pub(crate) proof fn lemma_metas(states: Seq<SinkStateView>, num_partitions: nat)
    ensures
        crate::celeborn_sink::can_aggregate(states, num_partitions) <==> sums_fit(
            states,
            num_partitions as int,
        ),
        sums_fit(states, num_partitions as int) ==> counts_all(
            crate::celeborn_sink::partition_metas(states, num_partitions),
            states,
            num_partitions as int,
        ),
{
    assert forall|i: int| crate::celeborn_sink::total_rows(states, i) == #[trigger] crate::sums::sum(
        rows_at(states, i),
    ) by {
        law_totals_are_sums(states, i);
    }
    assert forall|i: int|
        crate::celeborn_sink::total_bytes(states, i) == #[trigger] crate::sums::sum(
            bytes_at(states, i),
        ) by {
        law_totals_are_sums(states, i);
    }
    if sums_fit(states, num_partitions as int) {
        assert forall|i: int|
            #![trigger crate::celeborn_sink::total_rows(states, i)]
            #![trigger crate::celeborn_sink::total_bytes(states, i)]
            0 <= i < num_partitions implies crate::celeborn_sink::total_rows(states, i)
            <= usize::MAX && crate::celeborn_sink::total_bytes(states, i) <= usize::MAX by {
            assert(crate::sums::sum(rows_at(states, i)) <= usize::MAX);
            assert(crate::sums::sum(bytes_at(states, i)) <= usize::MAX);
        }
    }
    if crate::celeborn_sink::can_aggregate(states, num_partitions) {
        assert forall|i: int| 0 <= i < num_partitions implies #[trigger] crate::sums::sum(
            rows_at(states, i),
        ) <= usize::MAX by {
            assert(crate::celeborn_sink::total_rows(states, i) <= usize::MAX);
        }
        assert forall|i: int| 0 <= i < num_partitions implies #[trigger] crate::sums::sum(
            bytes_at(states, i),
        ) <= usize::MAX by {
            assert(crate::celeborn_sink::total_bytes(states, i) <= usize::MAX);
        }
    }
    let metas = crate::celeborn_sink::partition_metas(states, num_partitions);
    if sums_fit(states, num_partitions as int) {
        assert forall|i: int| 0 <= i < num_partitions implies (#[trigger] metas[i]).num_rows
            == crate::sums::sum(rows_at(states, i)) && metas[i].size_bytes == crate::sums::sum(
            bytes_at(states, i),
        ) by {
            assert(crate::sums::sum(rows_at(states, i)) <= usize::MAX);
            assert(crate::sums::sum(bytes_at(states, i)) <= usize::MAX);
        }
    }
}

/// What each of the states holds.
pub open spec fn held(states: Seq<CelebornRepartitionState>) -> Seq<SinkStateView> {
    Seq::new(states.len(), |k: int| states[k]@)
}

/// The aggregation counts, for every partition, the rows and the bytes that all the states
/// together pushed to it. It gives nothing exactly where a counter is beyond the partitions
/// or a sum is too large.
pub proof fn law_aggregation_counts_every_partition(
    states: Vec<CelebornRepartitionState>,
    num_partitions: usize,
    r: Option<Vec<ShufflePartitionMeta>>,
)
    requires
        call_ensures(try_aggregate, (&states, num_partitions), r),
    ensures
        r is Some <==> sums_fit(held(states@), num_partitions as int),
        r matches Some(metas) ==> counts_all(metas@, held(states@), num_partitions as int),
{
    assert(held(states@) =~= crate::celeborn_sink::state_views(states@));
    lemma_metas(held(states@), num_partitions as nat);
}

/// The same of an aggregation that is known to succeed, and it is wherever the sums fit.
pub proof fn law_known_aggregation_counts_every_partition(
    states: Vec<CelebornRepartitionState>,
    num_partitions: usize,
    metas: Vec<ShufflePartitionMeta>,
)
    requires
        sums_fit(held(states@), num_partitions as int),
        call_ensures(aggregate, (&states, num_partitions), metas),
    ensures
        call_requires(aggregate, (&states, num_partitions)),
        counts_all(metas@, held(states@), num_partitions as int),
{
    assert(held(states@) =~= crate::celeborn_sink::state_views(states@));
    lemma_metas(held(states@), num_partitions as nat);
}

/// Among the attempts to end, each comes at the place where it first occurs: all that occur
/// before it do so among the earlier ones.
pub proof fn law_attempts_end_in_order(s: Seq<MapperAttempt>)
    ensures
        forall|k: int|
            0 <= k < crate::celeborn_sink::distinct(s).len() ==> first_occurs(
                s,
                crate::celeborn_sink::distinct(s),
                #[trigger] crate::celeborn_sink::distinct(s)[k],
                k,
            ),
    decreases s.len(),
{
    if s.len() > 0 {
        let init = s.drop_last();
        let before = crate::celeborn_sink::distinct(init);
        let all = crate::celeborn_sink::distinct(s);
        law_attempts_end_in_order(init);
        crate::celeborn_sink::law_each_attempt_ends_once(init);
        assert forall|k: int| 0 <= k < all.len() implies first_occurs(
            s,
            all,
            #[trigger] all[k],
            k,
        ) by {
            if k < before.len() {
                assert(all[k] == before[k]);
                assert(first_occurs(init, before, before[k], k));
                let m = choose|m: int|
                    0 <= m < init.len() && #[trigger] init[m] == before[k] && forall|l: int|
                        0 <= l < m ==> before.take(k).contains(#[trigger] init[l]);
                assert(s[m] == all[k]);
                assert(all.take(k) =~= before.take(k));
                assert forall|l: int| 0 <= l < m implies all.take(k).contains(#[trigger] s[l]) by {
                    assert(s[l] == init[l]);
                }
            } else {
                let m = s.len() - 1;
                assert(s[m] == all[k]);
                assert(all.take(k) =~= before);
                assert forall|l: int| 0 <= l < m implies all.take(k).contains(#[trigger] s[l]) by {
                    assert(init[l] == s[l]);
                    assert(init.contains(s[l]));
                }
            }
        }
    }
}

/// `a` occurs in `s`, and whatever occurs before its first occurrence is among the first `k`
/// of `list`.
pub open spec fn first_occurs(
    s: Seq<MapperAttempt>,
    list: Seq<MapperAttempt>,
    a: MapperAttempt,
    k: int,
) -> bool {
    exists|m: int|
        0 <= m < s.len() && #[trigger] s[m] == a && forall|l: int|
            0 <= l < m ==> list.take(k).contains(#[trigger] s[l])
}

/// The attempts of the states.
pub open spec fn attempts_of(states: Seq<SinkStateView>) -> Seq<MapperAttempt> {
    Seq::new(
        states.len(),
        |k: int|
            MapperAttempt {
                shuffle_id: states[k].shuffle_id,
                map_id: states[k].map_id,
                attempt_id: states[k].attempt_id,
            },
    )
}

/// `list` holds every attempt of the states once, in the order of first occurrence.
pub open spec fn lists_attempts(list: Seq<MapperAttempt>, states: Seq<SinkStateView>) -> bool {
    &&& list.no_duplicates()
    &&& forall|a: MapperAttempt|
        #[trigger] list.contains(a) <==> attempts_of(states).contains(a)
    &&& forall|k: int|
        0 <= k < list.len() ==> first_occurs(attempts_of(states), list, #[trigger] list[k], k)
}

/// The attempts to end are those of the states, each once, in the order in which they first
/// occur.
pub proof fn law_every_attempt_is_to_end(
    states: Vec<CelebornRepartitionState>,
    r: Vec<MapperAttempt>,
)
    requires
        call_ensures(ended_attempts, (&states,), r),
    ensures
        lists_attempts(r@, held(states@)),
{
    let s = attempts_of(held(states@));
    assert(held(states@) =~= crate::celeborn_sink::state_views(states@));
    assert(s =~= crate::celeborn_sink::attempts(crate::celeborn_sink::state_views(states@)));
    crate::celeborn_sink::law_each_attempt_ends_once(s);
    law_attempts_end_in_order(s);
}

/// How a conclusion goes on. Until all the attempts of the states are ended, it is their
/// turn, one by one: an attempt is ended where its shuffle has been registered, by a state
/// or since, and otherwise the shuffle is registered with the sizes that the first state of
/// that attempt was made with. When all are ended, the report counts every partition over
/// all the states. After a failure there is nothing.
pub proof fn law_conclusion_goes_on(task: FinalizeView)
    requires
        sums_fit(task.states, task.num_partitions as int),
    ensures
        lists_attempts(task.attempts(), task.states),
        task.wf() <==> task.ended <= task.attempts().len(),
        task.action() is Stop <==> task.failed,
        task.action() matches FinalizeActionView::Report(metas) ==> counts_all(
            metas,
            task.states,
            task.num_partitions as int,
        ),
        task.action() is Report <==> !task.failed && task.ended >= task.attempts().len(),
        !task.failed && task.ended < task.attempts().len() ==> {
            let attempt = task.attempts()[task.ended as int];
            let known = task.registered.contains(attempt.shuffle_id) || exists|k: int|
                0 <= k < task.states.len() && (#[trigger] task.states[k]).registered
                    && task.states[k].shuffle_id == attempt.shuffle_id;
            if known {
                task.action() == FinalizeActionView::EndMapper(attempt)
            } else {
                exists|k: int|
                    {
                        &&& 0 <= k < task.states.len()
                        &&& attempts_of(task.states)[k] == attempt
                        &&& forall|l: int|
                            0 <= l < k ==> #[trigger] attempts_of(task.states)[l] != attempt
                        &&& task.action() == (FinalizeActionView::Register {
                            shuffle_id: attempt.shuffle_id,
                            num_mappers: (#[trigger] task.states[k]).num_mappers,
                            num_partitions: task.states[k].num_partitions,
                        })
                    }
            }
        },
{
    let s = attempts_of(task.states);
    assert(s =~= crate::celeborn_sink::attempts(task.states));
    crate::celeborn_sink::law_each_attempt_ends_once(s);
    law_attempts_end_in_order(s);
    lemma_metas(task.states, task.num_partitions);
    if !task.failed && task.ended < task.attempts().len() {
        let attempt = task.attempts()[task.ended as int];
        crate::celeborn_sink::lemma_attempt_has_state(task);
        crate::celeborn_sink::lemma_first_of(task.states, attempt, 0);
        let k = crate::celeborn_sink::first_of(task.states, attempt, 0);
        assert(s[k] == attempt);
        assert forall|l: int| 0 <= l < k implies #[trigger] s[l] != attempt by {
            assert(task.states[l].attempt() != attempt);
        }
    }
}

/// What a conclusion starts from, and what each success and a failure change.
pub proof fn law_conclusion_keeps_its_states(
    task: FinalizeView,
    states: Seq<SinkStateView>,
    num_partitions: nat,
    id: u64,
)
    ensures
        FinalizeView::start(states, num_partitions).states == states,
        FinalizeView::start(states, num_partitions).num_partitions == num_partitions,
        FinalizeView::start(states, num_partitions).ended == 0,
        !FinalizeView::start(states, num_partitions).failed,
        forall|other: u64|
            !(#[trigger] FinalizeView::start(states, num_partitions).registered.contains(other)),
        task.after_end().ended == task.ended + 1,
        task.after_end().states == task.states,
        task.after_end().num_partitions == task.num_partitions,
        task.after_end().registered == task.registered,
        task.after_end().failed == task.failed,
        task.after_registration(id).registered == task.registered.insert(id),
        task.after_registration(id).states == task.states,
        task.after_registration(id).num_partitions == task.num_partitions,
        task.after_registration(id).ended == task.ended,
        task.after_registration(id).failed == task.failed,
        task.after_failure().failed,
{
}

/// What a conclusion asks for next reports every partition in full.
pub proof fn law_report_counts_every_partition(task: CelebornFinalizeTask, r: FinalizeAction)
    requires
        sums_fit(task@.states, task@.num_partitions as int),
        call_ensures(CelebornFinalizeTask::next, (&task,), r),
    ensures
        r matches FinalizeAction::Report(metas) ==> counts_all(
            metas@,
            task@.states,
            task@.num_partitions as int,
        ),
        r matches FinalizeAction::EndMapper(attempt) ==> task@.ended < task@.attempts().len()
            && attempt == task@.attempts()[task@.ended as int],
        r is Stop <==> task@.failed,
{
    lemma_metas(task@.states, task@.num_partitions);
}

/// The work on a batch takes the course of its model: it starts where the model does, takes
/// up an outcome exactly where the model does, and goes on as the model does.
pub proof fn law_batch_follows_its_model(
    state: CelebornRepartitionState,
    started: (CelebornSinkTask, SinkAction),
    task: &mut CelebornSinkTask,
    event: SinkEvent,
    action: SinkAction,
    accepted: bool,
)
    ensures
        call_ensures(CelebornSinkTask::start, (state,), started) ==> {
            let (begun, asked) = started;
            let model = SinkTaskView::start(state@);
            begun@ == model.0 && asked@ == model.1 && begun@.wf()
        },
        call_ensures(CelebornSinkTask::step, (task, event), action) ==> {
            let model = old(task)@.step(event@);
            final(task)@ == model.0 && action@ == model.1 && final(task)@.wf()
        },
        call_ensures(CelebornSinkTask::accepts, (old(task), &event), accepted) ==> accepted == old(
            task,
        )@.accepts(event@),
        old(task)@.wf() && old(task)@.accepts(event@) ==> call_requires(
            CelebornSinkTask::step,
            (task, event),
        ),
        state@.wf() ==> call_requires(CelebornSinkTask::start, (state,)),
{
}

/// A failure of whatever is asked for is handed back as it came, by a batch and by a
/// conclusion, and nothing is asked for after it.
pub proof fn law_failures_are_handed_back<X>(
    batch: &mut CelebornSinkTask,
    conclusion: &mut CelebornFinalizeTask,
    error: X,
    r: X,
    event: SinkEventView,
)
    ensures
        call_ensures(CelebornSinkTask::fail::<X>, (batch, error), r) ==> {
            &&& r == error
            &&& final(batch)@.state == old(batch)@.state
            &&& final(batch)@.phase == SinkPhase::Failed
            &&& !final(batch)@.accepts(event)
        },
        call_ensures(CelebornFinalizeTask::fail::<X>, (conclusion, error), r) ==> {
            &&& r == error
            &&& final(conclusion)@.states == old(conclusion)@.states
            &&& final(conclusion)@.action() is Stop
        },
{
}

/// A conclusion starts with all the states and nothing done. A registration adds the shuffle
/// that was asked for, an end moves on to the next attempt, and neither changes anything else.
pub proof fn law_conclusion_follows_its_model(
    states: Vec<CelebornRepartitionState>,
    num_partitions: usize,
    started: CelebornFinalizeTask,
    task: &mut CelebornFinalizeTask,
    r: (),
)
    ensures
        call_ensures(CelebornFinalizeTask::start, (states, num_partitions), started) ==> {
            &&& started.inv()
            &&& started@.wf()
            &&& started@.states == held(states@)
            &&& started@.num_partitions == num_partitions
            &&& started@.registered == Set::<u64>::empty()
            &&& started@.ended == 0
            &&& !started@.failed
        },
        call_ensures(CelebornFinalizeTask::shuffle_registered, (task,), r) ==> {
            &&& final(task).inv()
            &&& final(task)@.states == old(task)@.states
            &&& final(task)@.num_partitions == old(task)@.num_partitions
            &&& final(task)@.ended == old(task)@.ended
            &&& final(task)@.failed == old(task)@.failed
            &&& old(task)@.action() matches FinalizeActionView::Register { shuffle_id, .. }
                ==> final(task)@.registered == old(task)@.registered.insert(shuffle_id)
        },
        call_ensures(CelebornFinalizeTask::mapper_ended, (task,), r) ==> {
            &&& final(task).inv()
            &&& final(task)@.states == old(task)@.states
            &&& final(task)@.num_partitions == old(task)@.num_partitions
            &&& final(task)@.registered == old(task)@.registered
            &&& final(task)@.failed == old(task)@.failed
            &&& final(task)@.ended == old(task)@.ended + 1
        },
{
    assert(held(states@) =~= crate::celeborn_sink::state_views(states@));
}

} // verus!
