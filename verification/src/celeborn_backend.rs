//! The coordinator's side of a Celeborn shuffle: the reduce tasks.

use std::sync::Arc;

use vstd::prelude::*;

use crate::partition_refs::{FlightPartitionRef, PartitionRef};
use crate::shared::share;

verus! {

/// Coordinator-side metadata for a single Celeborn shuffle stage.
#[derive(Clone, Copy, Debug, PartialEq, Eq, Structural)]
pub struct CelebornShuffleSpec {
    /// Unique identifier for this shuffle stage.
    pub shuffle_id: u64,
    /// Total number of map tasks for this shuffle, determined at plan
    /// construction time from the upstream partition count.
    pub num_mappers: u32,
}

/// Read-stage metadata needed to construct reduce tasks.
///
/// The Celeborn cluster itself owns the partition location index, so reduce tasks
/// only need to know the shuffle; the partition of each task is supplied separately.
#[derive(Clone, Copy, Debug, PartialEq, Eq, Structural)]
pub struct CelebornShuffleReadSpec {
    pub shuffle_id: u64,
    pub num_mappers: u32,
}

/// The partition that a reduce task reads.
#[derive(Clone, Copy, Debug, PartialEq, Eq, Structural)]
pub struct CelebornShuffleReadInput {
    pub partition_idx: usize,
}

/// The shuffle that a plan reads from.
#[derive(Clone, Copy, Debug, PartialEq, Eq, Structural)]
pub enum ShuffleReadBackend {
    /// Partitions of Flight servers. The servers are found through the references
    /// that the task is given, so the plan itself names none.
    Flight { shuffle_id: u64 },
    Celeborn { shuffle_id: u64, num_mappers: u32 },
}

/// A local plan that reads shuffled data. Its statistics are not materialized.
/// `S` is a schema of the engine.
#[derive(Debug)]
pub enum LocalPlan<S> {
    InMemoryScan {
        node_id: u32,
        schema: Arc<S>,
        size_bytes: usize,
        origin_node_id: Option<usize>,
    },
    ShuffleRead {
        node_id: u32,
        schema: Arc<S>,
        backend: ShuffleReadBackend,
        origin_node_id: Option<usize>,
    },
}

/// What a task is given to read. `H` is a handle to a partition of the engine.
#[derive(Debug)]
pub enum TaskInputs<H> {
    Partitions(Vec<PartitionRef<H>>),
    FlightReads(Vec<FlightPartitionRef>),
    CelebornReads(CelebornShuffleReadInput),
}

/// A task: a plan, the node that it is for, and what the plan's source under that
/// node is given to read. `Q` is a plan.
#[derive(Debug)]
pub struct TaskSpec<Q, H> {
    pub plan: Q,
    pub node_id: u32,
    pub inputs: TaskInputs<H>,
}

/// Cleanup hook for Celeborn shuffles.
///
/// Celeborn shuffle data is owned by the Celeborn cluster, not by worker processes,
/// so there are no local files to track. This function therefore performs no work; it
/// exists so that cleanup has a uniform shape across all backends.
pub fn register_cleanup<X>(_backend: &CelebornShuffleSpec, _plan_context: &mut X)
    ensures
        *final(_plan_context) == *old(_plan_context),
{
}

/// The read-stage metadata of a shuffle.
pub fn read_spec_from_backend(backend: &CelebornShuffleSpec) -> (r: CelebornShuffleReadSpec)
    ensures
        r.shuffle_id == backend.shuffle_id,
        r.num_mappers == backend.num_mappers,
{
    CelebornShuffleReadSpec { shuffle_id: backend.shuffle_id, num_mappers: backend.num_mappers }
}

/// The reduce task of one partition.
pub open spec fn read_task<S, H>(
    node_id: u32,
    schema: Arc<S>,
    read_spec: CelebornShuffleReadSpec,
    partition_idx: usize,
) -> TaskSpec<LocalPlan<S>, H> {
    TaskSpec {
        plan: LocalPlan::ShuffleRead {
            node_id,
            schema,
            backend: ShuffleReadBackend::Celeborn {
                shuffle_id: read_spec.shuffle_id,
                num_mappers: read_spec.num_mappers,
            },
            origin_node_id: Some(node_id as usize),
        },
        node_id,
        inputs: TaskInputs::CelebornReads(CelebornShuffleReadInput { partition_idx }),
    }
}

/// The reduce tasks of a shuffle: one for each partition, in order.
pub fn emit_read_tasks<S, H>(
    node_id: u32,
    schema: &Arc<S>,
    num_partitions: usize,
    read_spec: &CelebornShuffleReadSpec,
) -> (r: Vec<TaskSpec<LocalPlan<S>, H>>)
    ensures
        r@.len() == num_partitions,
        forall|i: int|
            0 <= i < num_partitions ==> (#[trigger] r@[i]) == read_task::<S, H>(
                node_id,
                *schema,
                *read_spec,
                i as usize,
            ),
{
    let mut r: Vec<TaskSpec<LocalPlan<S>, H>> = Vec::new();
    let mut partition_idx: usize = 0;
    while partition_idx < num_partitions
        invariant
            partition_idx <= num_partitions,
            r@.len() == partition_idx,
            forall|i: int|
                0 <= i < partition_idx ==> (#[trigger] r@[i]) == read_task::<S, H>(
                    node_id,
                    *schema,
                    *read_spec,
                    i as usize,
                ),
        decreases num_partitions - partition_idx,
    {
        r.push(
            TaskSpec {
                plan: LocalPlan::ShuffleRead {
                    node_id,
                    schema: share(schema),
                    backend: ShuffleReadBackend::Celeborn {
                        shuffle_id: read_spec.shuffle_id,
                        num_mappers: read_spec.num_mappers,
                    },
                    origin_node_id: Some(node_id as usize),
                },
                node_id,
                inputs: TaskInputs::CelebornReads(CelebornShuffleReadInput { partition_idx }),
            },
        );
        partition_idx += 1;
    }
    r
}

/// Every partition of a shuffle is read by exactly one of its reduce tasks: the task at
/// index `i` reads partition `i` and no other, so no two tasks read the same partition and
/// none is left out. Each task reads the shuffle that the metadata names, with the
/// metadata's number of mappers, under the node and the schema that it is emitted for.
pub proof fn law_each_partition_has_its_reduce_task<S, H>(
    node_id: u32,
    schema: Arc<S>,
    num_partitions: usize,
    read_spec: CelebornShuffleReadSpec,
    tasks: Vec<TaskSpec<LocalPlan<S>, H>>,
)
    requires
        call_ensures(
            emit_read_tasks::<S, H>,
            (node_id, &schema, num_partitions, &read_spec),
            tasks,
        ),
    ensures
        tasks@.len() == num_partitions,
        forall|i: int|
            0 <= i < num_partitions ==> {
                let task = #[trigger] tasks@[i];
                &&& task.inputs matches TaskInputs::CelebornReads(input) && input.partition_idx == i
                &&& task.node_id == node_id
                &&& task.plan matches LocalPlan::ShuffleRead {
                    node_id: reader,
                    schema: rows,
                    backend: ShuffleReadBackend::Celeborn { shuffle_id, num_mappers },
                    origin_node_id,
                } && {
                    &&& reader == node_id
                    &&& rows == schema
                    &&& shuffle_id == read_spec.shuffle_id
                    &&& num_mappers == read_spec.num_mappers
                    &&& origin_node_id == Some(node_id as usize)
                }
            },
        forall|i: int, j: int|
            0 <= i < j < num_partitions ==> (#[trigger] tasks@[i]).inputs != (
            #[trigger] tasks@[j]).inputs,
{
}

/// The read-stage metadata names the same shuffle, with the same number of mappers.
pub proof fn law_read_spec_names_the_shuffle(
    backend: CelebornShuffleSpec,
    r: CelebornShuffleReadSpec,
)
    requires
        call_ensures(read_spec_from_backend, (&backend,), r),
    ensures
        r.shuffle_id == backend.shuffle_id,
        r.num_mappers == backend.num_mappers,
{
}

/// The cleanup of a Celeborn shuffle leaves the plan as it is.
pub proof fn law_cleanup_does_nothing<X>(backend: CelebornShuffleSpec, plan_context: &mut X, r: ())
    requires
        call_ensures(register_cleanup::<X>, (&backend, plan_context), r),
    ensures
        *final(plan_context) == *old(plan_context),
{
}

} // verus!
