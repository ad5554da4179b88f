//! The coordinator's side of a shuffle: its identifier, its backend, and the tasks
//! that read its output.

use std::sync::Arc;

use vstd::prelude::*;

use crate::celeborn_backend::{
    emit_read_tasks, read_spec_from_backend, CelebornShuffleReadSpec, CelebornShuffleSpec,
    LocalPlan, ShuffleReadBackend, TaskInputs, TaskSpec,
};
use crate::partition_refs::{into_flight_refs, total_size_bytes, PartitionRef};
use crate::shared::share;

verus! {

/// The place of a pipeline node: the query that it belongs to, and the node itself.
#[derive(Clone, Copy, Debug, PartialEq, Eq, Structural)]
pub struct PipelineNodeContext {
    pub query_idx: u16,
    pub node_id: u32,
}

/// The largest session seed.
pub const MAX_SESSION_SEED: u16 = 0x1FFF;

/// The seed of a session, from the time at which it started, in nanoseconds since the
/// epoch. It is part of every shuffle identifier, so that a restarted process does not
/// find stale data of an earlier one under its own identifiers.
pub fn session_seed(startup_nanos: u128) -> (r: u16)
    ensures
        r == startup_nanos % 8192,
        r <= MAX_SESSION_SEED,
{
    assert(startup_nanos & 0x1FFF == startup_nanos % 8192) by (bit_vector);
    (startup_nanos & 0x1FFF) as u16
}

/// The identifier of a shuffle: from the highest bits down the seed, ten bits of the
/// query index and eight bits of the node.
pub open spec fn shuffle_id_of(seed: u16, query_idx: u16, node_id: u32) -> int {
    seed * 0x4_0000 + (query_idx % 0x400) * 0x100 + node_id % 0x100
}

/// The identifier of the shuffle of a pipeline node, in a session with the given seed.
pub fn make_shuffle_id(context: &PipelineNodeContext, seed: u16) -> (r: u64)
    ensures
        r == shuffle_id_of(seed, context.query_idx, context.node_id),
{
    let high: u64 = seed as u64;
    let query: u64 = (context.query_idx as u64) & 0x3FF;
    let node: u64 = (context.node_id as u64) & 0xFF;
    proof {
        let q = context.query_idx as u64;
        let n = context.node_id as u64;
        assert(q & 0x3FF == q % 0x400) by (bit_vector);
        assert(n & 0xFF == n % 0x100) by (bit_vector);
        assert((high << 18) | (query << 8) | node == high * 0x4_0000 + query * 0x100 + node)
            by (bit_vector)
            requires
                high < 0x1_0000,
                query < 0x400,
                node < 0x100,
        ;
    }
    (high << 18) | (query << 8) | node
}

/// The Flight backend of a shuffle.
#[derive(Debug)]
pub struct FlightShuffleBackendConfig {
    pub shuffle_id: u64,
    pub shuffle_dirs: Vec<String>,
    pub compression: Option<String>,
}

/// The backend of a shuffle.
#[derive(Debug)]
pub enum DistributedShuffleBackend {
    Ray,
    Flight(FlightShuffleBackendConfig),
    Celeborn(CelebornShuffleSpec),
}

/// The backend of a shuffle, as the local operators of the engine take it.
#[derive(Debug)]
pub enum LocalShuffleBackend {
    Ray,
    Flight { shuffle_id: u64, shuffle_dirs: Vec<String>, compression: Option<String> },
    Celeborn { shuffle_id: u64, num_mappers: u32 },
}

/// The tasks that read the output of a shuffle. `M` is an output of a map task.
#[derive(Debug)]
pub enum ReadTasks<S, H, M> {
    /// One task for each group of map outputs, which reads the group from memory.
    InMemory(Vec<Vec<M>>),
    /// One task for each group of map outputs, which reads the group from Flight servers.
    Flight(Vec<Vec<M>>),
    /// One task for each partition.
    Celeborn(Vec<TaskSpec<LocalPlan<S>, H>>),
}

/// A shuffle: its backend, the schema of its rows, and the node that it belongs to.
/// `S` is a schema of the engine.
#[derive(Debug)]
pub struct ShuffleBackend<S> {
    backend: DistributedShuffleBackend,
    schema: Arc<S>,
    node_id: u32,
}

/// What a [`ShuffleBackend`] holds.
pub struct ShuffleBackendView<S> {
    pub backend: DistributedShuffleBackend,
    pub schema: Arc<S>,
    pub node_id: u32,
}

impl<S> View for ShuffleBackend<S> {
    type V = ShuffleBackendView<S>;

    closed spec fn view(&self) -> ShuffleBackendView<S> {
        ShuffleBackendView {
            backend: self.backend,
            schema: self.schema,
            node_id: self.node_id,
        }
    }
}

/// The backend with its shuffle identifier replaced. A Ray shuffle has none.
pub open spec fn with_shuffle_id(
    backend: DistributedShuffleBackend,
    shuffle_id: u64,
) -> DistributedShuffleBackend {
    match backend {
        DistributedShuffleBackend::Ray => DistributedShuffleBackend::Ray,
        DistributedShuffleBackend::Flight(config) => DistributedShuffleBackend::Flight(
            FlightShuffleBackendConfig { shuffle_id, ..config },
        ),
        DistributedShuffleBackend::Celeborn(spec) => DistributedShuffleBackend::Celeborn(
            CelebornShuffleSpec { shuffle_id, ..spec },
        ),
    }
}

impl<S> ShuffleBackendView<S> {
    /// The plan that reads materialized partitions: from memory for a Ray shuffle, and
    /// from Flight servers for a Flight shuffle. The servers are found through the
    /// references, so the plan names no shuffle.
    pub open spec fn refs_plan<H>(self, refs: Seq<PartitionRef<H>>) -> LocalPlan<S> {
        if self.backend is Ray {
            LocalPlan::InMemoryScan {
                node_id: self.node_id,
                schema: self.schema,
                size_bytes: crate::partition_refs::total_size(refs) as usize,
                origin_node_id: Some(self.node_id as usize),
            }
        } else {
            LocalPlan::ShuffleRead {
                node_id: self.node_id,
                schema: self.schema,
                backend: ShuffleReadBackend::Flight { shuffle_id: 0 },
                origin_node_id: Some(self.node_id as usize),
            }
        }
    }

    /// The partitions are such as a task of this shuffle reads: for a Ray shuffle their
    /// sizes add up, and for a Flight shuffle Flight servers hold them all. A Celeborn
    /// shuffle has no such tasks.
    pub open spec fn reads_refs<H>(self, refs: Seq<PartitionRef<H>>) -> bool {
        match self.backend {
            DistributedShuffleBackend::Ray => crate::partition_refs::total_size(refs)
                <= usize::MAX,
            DistributedShuffleBackend::Flight(_) => forall|i: int|
                0 <= i < refs.len() ==> (#[trigger] refs[i]) is Flight,
            DistributedShuffleBackend::Celeborn(_) => false,
        }
    }
}

impl<S> ShuffleBackend<S> {
    /// The shuffle of a pipeline node. Its identifier is the one of the node, whatever
    /// identifier `backend` comes with.
    pub fn new(
        context: &PipelineNodeContext,
        schema: Arc<S>,
        backend: DistributedShuffleBackend,
        seed: u16,
    ) -> (r: Self)
        ensures
            r@.schema == schema,
            r@.node_id == context.node_id,
            r@.backend == with_shuffle_id(
                backend,
                shuffle_id_of(seed, context.query_idx, context.node_id) as u64,
            ),
    {
        let shuffle_id: u64 = make_shuffle_id(context, seed);
        ShuffleBackend {
            schema,
            node_id: context.node_id,
            backend: match backend {
                DistributedShuffleBackend::Ray => DistributedShuffleBackend::Ray,
                DistributedShuffleBackend::Flight(config) => DistributedShuffleBackend::Flight(
                    FlightShuffleBackendConfig {
                        shuffle_id,
                        shuffle_dirs: config.shuffle_dirs,
                        compression: config.compression,
                    },
                ),
                DistributedShuffleBackend::Celeborn(spec) => DistributedShuffleBackend::Celeborn(
                    CelebornShuffleSpec { shuffle_id, num_mappers: spec.num_mappers },
                ),
            },
        }
    }

    /// The backend.
    pub fn backend(&self) -> (r: &DistributedShuffleBackend)
        ensures
            *r == self@.backend,
    {
        &self.backend
    }

    /// The schema of the rows.
    pub fn schema(&self) -> (r: &Arc<S>)
        ensures
            *r == self@.schema,
    {
        &self.schema
    }

    /// The node that the shuffle belongs to.
    pub fn node_id(&self) -> (r: u32)
        ensures
            r == self@.node_id,
    {
        self.node_id
    }

    /// Registers the cleanup of the shuffle's local files with the plan that it is part
    /// of. Only a Flight shuffle has local files: its configuration is returned, for the
    /// engine to register. Otherwise there is nothing to do.
    pub fn register_cleanup<X>(&self, plan_context: &mut X) -> (r: Option<
        &FlightShuffleBackendConfig,
    >)
        ensures
            *final(plan_context) == *old(plan_context),
            match self@.backend {
                DistributedShuffleBackend::Flight(config) => r == Some(&config),
                _ => r is None,
            },
    {
        match &self.backend {
            DistributedShuffleBackend::Ray => None,
            DistributedShuffleBackend::Flight(config) => Some(config),
            DistributedShuffleBackend::Celeborn(spec) => {
                crate::celeborn_backend::register_cleanup(spec, plan_context);
                None
            },
        }
    }

    /// The backend as the local operators of the engine take it.
    pub fn local_shuffle_backend(&self) -> (r: LocalShuffleBackend)
        ensures
            match self@.backend {
                DistributedShuffleBackend::Ray => r is Ray,
                DistributedShuffleBackend::Flight(config) => r matches LocalShuffleBackend::Flight {
                    shuffle_id,
                    shuffle_dirs,
                    compression,
                } && {
                    &&& shuffle_id == config.shuffle_id
                    &&& shuffle_dirs@ == config.shuffle_dirs@
                    &&& compression == config.compression
                },
                DistributedShuffleBackend::Celeborn(spec) => r == (LocalShuffleBackend::Celeborn {
                    shuffle_id: spec.shuffle_id,
                    num_mappers: spec.num_mappers,
                }),
            },
    {
        match &self.backend {
            DistributedShuffleBackend::Ray => LocalShuffleBackend::Ray,
            DistributedShuffleBackend::Flight(config) => {
                let shuffle_dirs = config.shuffle_dirs.clone();
                assert(shuffle_dirs@ =~= config.shuffle_dirs@);
                let compression = match &config.compression {
                    Some(codec) => Some(codec.clone()),
                    None => None,
                };
                LocalShuffleBackend::Flight {
                    shuffle_id: config.shuffle_id,
                    shuffle_dirs,
                    compression,
                }
            },
            DistributedShuffleBackend::Celeborn(spec) => LocalShuffleBackend::Celeborn {
                shuffle_id: spec.shuffle_id,
                num_mappers: spec.num_mappers,
            },
        }
    }

    /// The task that reads materialized partitions, with `wrap_plan` applied on top of
    /// the plan that reads them.
    pub fn build_refs_task_builder<H, Q, F: FnOnce(LocalPlan<S>) -> Q>(
        &self,
        partition_refs: Vec<PartitionRef<H>>,
        wrap_plan: F,
    ) -> (r: TaskSpec<Q, H>)
        requires
            self@.reads_refs(partition_refs@),
            call_requires(wrap_plan, (self@.refs_plan(partition_refs@),)),
        ensures
            call_ensures(wrap_plan, (self@.refs_plan(partition_refs@),), r.plan),
            r.node_id == self@.node_id,
            if self@.backend is Ray {
                r.inputs == TaskInputs::Partitions(partition_refs)
            } else {
                r.inputs matches TaskInputs::FlightReads(refs) && refs@
                    == crate::partition_refs::flight_refs(partition_refs@)
            },
    {
        let node_id: u32 = self.node_id;
        match &self.backend {
            DistributedShuffleBackend::Ray => {
                let total: usize = total_size_bytes(&partition_refs);
                let plan = wrap_plan(
                    LocalPlan::InMemoryScan {
                        node_id,
                        schema: share(&self.schema),
                        size_bytes: total,
                        origin_node_id: Some(node_id as usize),
                    },
                );
                TaskSpec { plan, node_id, inputs: TaskInputs::Partitions(partition_refs) }
            },
            _ => {
                let refs = into_flight_refs(partition_refs);
                let plan = wrap_plan(
                    LocalPlan::ShuffleRead {
                        node_id,
                        schema: share(&self.schema),
                        backend: ShuffleReadBackend::Flight { shuffle_id: 0 },
                        origin_node_id: Some(node_id as usize),
                    },
                );
                TaskSpec { plan, node_id, inputs: TaskInputs::FlightReads(refs) }
            },
        }
    }

    /// The tasks that read the output of the shuffle. Those of a Ray or Flight shuffle
    /// are made from the groups of map outputs, and those of a Celeborn shuffle from
    /// the number of partitions alone.
    pub fn emit_read_tasks<H, M>(
        &self,
        partition_groups: Vec<Vec<M>>,
        num_partitions: usize,
    ) -> (r: ReadTasks<S, H, M>)
        ensures
            match self@.backend {
                DistributedShuffleBackend::Ray => r == ReadTasks::<S, H, M>::InMemory(
                    partition_groups,
                ),
                DistributedShuffleBackend::Flight(_) => r == ReadTasks::<S, H, M>::Flight(
                    partition_groups,
                ),
                DistributedShuffleBackend::Celeborn(spec) => r matches ReadTasks::Celeborn(tasks)
                    && {
                    &&& tasks@.len() == num_partitions
                    &&& forall|i: int|
                        0 <= i < num_partitions ==> (#[trigger] tasks@[i])
                            == crate::celeborn_backend::read_task::<S, H>(
                            self@.node_id,
                            self@.schema,
                            CelebornShuffleReadSpec {
                                shuffle_id: spec.shuffle_id,
                                num_mappers: spec.num_mappers,
                            },
                            i as usize,
                        )
                },
            },
    {
        match &self.backend {
            DistributedShuffleBackend::Ray => ReadTasks::InMemory(partition_groups),
            DistributedShuffleBackend::Flight(_) => ReadTasks::Flight(partition_groups),
            DistributedShuffleBackend::Celeborn(spec) => {
                let read_spec = read_spec_from_backend(spec);
                ReadTasks::Celeborn(
                    emit_read_tasks(self.node_id, &self.schema, num_partitions, &read_spec),
                )
            },
        }
    }
}

/// Every shuffle identifier of a session is one that the native client can take.
pub proof fn law_shuffle_id_fits_native_client(seed: u16, query_idx: u16, node_id: u32)
    requires
        seed <= MAX_SESSION_SEED,
    ensures
        0 <= shuffle_id_of(seed, query_idx, node_id) <= i32::MAX,
        !crate::ffi::overflows(shuffle_id_of(seed, query_idx, node_id) as u64),
{
}

/// Shuffles share an identifier only where the sessions have the same seed, and the
/// queries and nodes agree in the bits that the identifier takes of them.
pub proof fn law_shuffle_id_is_unique(
    seed: u16,
    query_idx: u16,
    node_id: u32,
    other_seed: u16,
    other_query_idx: u16,
    other_node_id: u32,
)
    ensures
        shuffle_id_of(seed, query_idx, node_id) == shuffle_id_of(
            other_seed,
            other_query_idx,
            other_node_id,
        ) <==> {
            &&& seed == other_seed
            &&& query_idx % 0x400 == other_query_idx % 0x400
            &&& node_id % 0x100 == other_node_id % 0x100
        },
{
}

/// The seed of a session is the lowest thirteen bits of its startup time.
pub proof fn law_seed_is_the_low_bits_of_the_time(startup_nanos: u128, seed: u16)
    requires
        call_ensures(session_seed, (startup_nanos,), seed),
    ensures
        seed == startup_nanos % 8192,
        seed <= MAX_SESSION_SEED,
        MAX_SESSION_SEED == 8191,
{
}

/// A shuffle identifier can be taken apart again: its lowest eight bits are those of the
/// node, the ten bits above them are the lowest of the query, and what is above is the seed.
/// With a session seed it fits the native client.
pub proof fn law_shuffle_id_can_be_taken_apart(context: PipelineNodeContext, seed: u16, id: u64)
    requires
        call_ensures(make_shuffle_id, (&context, seed), id),
    ensures
        id % 256 == context.node_id % 256,
        (id / 256) % 1024 == context.query_idx % 1024,
        id / 262144 == seed,
        seed <= 8191 ==> id <= 2147483647,
        id == shuffle_id_of(seed, context.query_idx, context.node_id),
{
}

/// A shuffle has the identifier of its node, and keeps the schema, the node, the kind of the
/// backend and all else that the backend came with.
pub proof fn law_shuffle_is_made_as_configured<S>(
    context: PipelineNodeContext,
    schema: Arc<S>,
    backend: DistributedShuffleBackend,
    seed: u16,
    r: ShuffleBackend<S>,
    id: u64,
)
    requires
        call_ensures(ShuffleBackend::<S>::new, (&context, schema, backend, seed), r),
        call_ensures(make_shuffle_id, (&context, seed), id),
    ensures
        r@.schema == schema,
        r@.node_id == context.node_id,
        match backend {
            DistributedShuffleBackend::Ray => r@.backend is Ray,
            DistributedShuffleBackend::Flight(config) => r@.backend matches
                DistributedShuffleBackend::Flight(made) && {
                &&& made.shuffle_id == id
                &&& made.shuffle_dirs == config.shuffle_dirs
                &&& made.compression == config.compression
            },
            DistributedShuffleBackend::Celeborn(spec) => r@.backend matches
                DistributedShuffleBackend::Celeborn(made) && {
                &&& made.shuffle_id == id
                &&& made.num_mappers == spec.num_mappers
            },
        },
{
}

/// What a shuffle says of itself is what it holds.
pub proof fn law_shuffle_shows_what_it_holds<S>(
    shuffle: ShuffleBackend<S>,
    backend: &DistributedShuffleBackend,
    schema: &Arc<S>,
    node_id: u32,
)
    requires
        call_ensures(ShuffleBackend::<S>::backend, (&shuffle,), backend),
        call_ensures(ShuffleBackend::<S>::schema, (&shuffle,), schema),
        call_ensures(ShuffleBackend::<S>::node_id, (&shuffle,), node_id),
    ensures
        *backend == shuffle@.backend,
        *schema == shuffle@.schema,
        node_id == shuffle@.node_id,
{
}

/// Only a Flight shuffle has files to clean up; its configuration is handed on as it is, and
/// the plan is left to the engine.
pub proof fn law_only_flight_files_are_cleaned_up<S, X>(
    shuffle: ShuffleBackend<S>,
    plan_context: &mut X,
    r: Option<&FlightShuffleBackendConfig>,
)
    requires
        call_ensures(ShuffleBackend::<S>::register_cleanup::<X>, (&shuffle, plan_context), r),
    ensures
        *final(plan_context) == *old(plan_context),
        r is Some <==> shuffle@.backend is Flight,
        r matches Some(config) ==> shuffle@.backend == DistributedShuffleBackend::Flight(*config),
{
}

/// The local operators get the backend of the shuffle, with all that it holds.
pub proof fn law_local_backend_is_that_of_the_shuffle<S>(
    shuffle: ShuffleBackend<S>,
    r: LocalShuffleBackend,
)
    requires
        call_ensures(ShuffleBackend::<S>::local_shuffle_backend, (&shuffle,), r),
    ensures
        match r {
            LocalShuffleBackend::Ray => shuffle@.backend is Ray,
            LocalShuffleBackend::Flight { shuffle_id, shuffle_dirs, compression } => shuffle@.backend
                matches DistributedShuffleBackend::Flight(config) && {
                &&& shuffle_id == config.shuffle_id
                &&& shuffle_dirs@ == config.shuffle_dirs@
                &&& compression == config.compression
            },
            LocalShuffleBackend::Celeborn { shuffle_id, num_mappers } => shuffle@.backend matches
                DistributedShuffleBackend::Celeborn(spec) && {
                &&& shuffle_id == spec.shuffle_id
                &&& num_mappers == spec.num_mappers
            },
        },
{
}

/// The plan that a task of materialized partitions is wrapped around: a Ray shuffle scans
/// memory for the sum of the partitions' sizes, and a Flight shuffle reads from the servers
/// that the references name. Either is for the node and the schema of the shuffle.
pub proof fn law_refs_plan_reads_the_partitions<S, H>(
    shuffle: ShuffleBackendView<S>,
    refs: Seq<PartitionRef<H>>,
)
    requires
        shuffle.reads_refs(refs),
    ensures
        shuffle.backend is Ray ==> (shuffle.refs_plan(refs) matches LocalPlan::InMemoryScan {
            node_id,
            schema,
            size_bytes,
            origin_node_id,
        } && {
            &&& node_id == shuffle.node_id
            &&& schema == shuffle.schema
            &&& size_bytes == crate::sums::sum(crate::partition_refs::sizes(refs))
            &&& origin_node_id == Some(shuffle.node_id as usize)
        }),
        shuffle.backend is Flight ==> (shuffle.refs_plan(refs) matches LocalPlan::ShuffleRead {
            node_id,
            schema,
            backend: ShuffleReadBackend::Flight { shuffle_id },
            origin_node_id,
        } && {
            &&& node_id == shuffle.node_id
            &&& schema == shuffle.schema
            &&& shuffle_id == 0
            &&& origin_node_id == Some(shuffle.node_id as usize)
        }),
        !(shuffle.backend is Celeborn),
{
    crate::partition_refs::law_total_size_is_the_sum(refs);
}

/// The partitions that a task can be made for: those of a Ray shuffle whose sizes add up,
/// those of a Flight shuffle that Flight servers hold, and none of a Celeborn shuffle.
pub proof fn law_refs_that_can_be_read<S, H>(
    shuffle: ShuffleBackendView<S>,
    refs: Seq<PartitionRef<H>>,
)
    ensures
        shuffle.backend is Ray ==> (shuffle.reads_refs(refs) <==> crate::sums::sum(
            crate::partition_refs::sizes(refs),
        ) <= usize::MAX),
        shuffle.backend is Flight ==> (shuffle.reads_refs(refs) <==> forall|i: int|
            0 <= i < refs.len() ==> (#[trigger] refs[i]) is Flight),
        shuffle.backend is Celeborn ==> !shuffle.reads_refs(refs),
{
    crate::partition_refs::law_total_size_is_the_sum(refs);
}

/// The task of materialized partitions has the wrapped plan, is for the node of the shuffle,
/// and is given all the partitions, in order.
pub proof fn law_refs_task_is_given_the_partitions<S, H, Q, F: FnOnce(LocalPlan<S>) -> Q>(
    shuffle: ShuffleBackend<S>,
    refs: Vec<PartitionRef<H>>,
    wrap_plan: F,
    r: TaskSpec<Q, H>,
)
    requires
        shuffle@.reads_refs(refs@),
        call_ensures(
            ShuffleBackend::<S>::build_refs_task_builder::<H, Q, F>,
            (&shuffle, refs, wrap_plan),
            r,
        ),
    ensures
        call_ensures(wrap_plan, (shuffle@.refs_plan(refs@),), r.plan),
        r.node_id == shuffle@.node_id,
        shuffle@.backend is Ray ==> r.inputs == TaskInputs::Partitions(refs),
        shuffle@.backend is Flight ==> (r.inputs matches TaskInputs::FlightReads(given) && {
            &&& given@.len() == refs@.len()
            &&& forall|i: int|
                0 <= i < refs@.len() ==> PartitionRef::<H>::Flight(#[trigger] given@[i]) == refs@[i]
        }),
{
    if shuffle@.backend is Flight {
        let given = r.inputs->FlightReads_0;
        assert forall|i: int| 0 <= i < refs@.len() implies PartitionRef::<H>::Flight(
            #[trigger] given@[i],
        ) == refs@[i] by {
            assert(refs@[i] is Flight);
        }
    }
}

/// The tasks that read a shuffle: a Ray or Flight shuffle hands its groups of map outputs on
/// as they are. A Celeborn shuffle has one task for each partition, which reads that
/// partition and no other, of this shuffle and for all its mappers.
pub proof fn law_every_partition_is_read<S, H, M>(
    shuffle: ShuffleBackend<S>,
    partition_groups: Vec<Vec<M>>,
    num_partitions: usize,
    r: ReadTasks<S, H, M>,
)
    requires
        call_ensures(
            ShuffleBackend::<S>::emit_read_tasks::<H, M>,
            (&shuffle, partition_groups, num_partitions),
            r,
        ),
    ensures
        match shuffle@.backend {
            DistributedShuffleBackend::Ray => r == ReadTasks::<S, H, M>::InMemory(partition_groups),
            DistributedShuffleBackend::Flight(_) => r == ReadTasks::<S, H, M>::Flight(
                partition_groups,
            ),
            DistributedShuffleBackend::Celeborn(spec) => r matches ReadTasks::Celeborn(tasks) && {
                &&& tasks@.len() == num_partitions
                &&& forall|i: int|
                    0 <= i < num_partitions ==> {
                        let task = #[trigger] tasks@[i];
                        &&& task.inputs matches TaskInputs::CelebornReads(input)
                            && input.partition_idx == i
                        &&& task.node_id == shuffle@.node_id
                        &&& task.plan matches LocalPlan::ShuffleRead {
                            node_id,
                            schema,
                            backend: ShuffleReadBackend::Celeborn { shuffle_id, num_mappers },
                            origin_node_id,
                        } && {
                            &&& node_id == shuffle@.node_id
                            &&& schema == shuffle@.schema
                            &&& shuffle_id == spec.shuffle_id
                            &&& num_mappers == spec.num_mappers
                            &&& origin_node_id == Some(shuffle@.node_id as usize)
                        }
                    }
            },
        },
{
}

} // verus!
