//! The repartition sink: it splits every batch of its input into target
//! partitions and hands them to one of three shuffle backends.

use std::collections::{HashMap, VecDeque};
use std::sync::Arc;

use vstd::prelude::*;
use vstd::string::*;

use crate::celeborn_sink::{
    try_aggregate, CelebornFinalizeTask, CelebornRepartitionState, FinalizeView, SinkStateView,
};
use crate::error::CelebornError;
use crate::partition_refs::{flight_partition_refs, FinalizedPartition, FlightPartitionRef};
use crate::shared::share;
use crate::text::{append_decimal, join};

verus! {

broadcast use {
    vstd::std_specs::hash::group_hash_axioms,
    vstd::std_specs::vecdeque::group_vec_dequeue_axioms,
};

/// A key expression of the engine, with the text that it is displayed as.
#[derive(Debug)]
pub struct KeyExpr<E> {
    pub expr: E,
    pub text: String,
}

/// How rows are assigned to target partitions.
#[derive(Debug)]
pub enum RepartitionSpec<E, B> {
    /// By the hash of the keys.
    Hash { by: Arc<Vec<KeyExpr<E>>> },
    /// At random.
    Random { seed: Option<u64> },
    /// By the range that the keys fall into.
    Range { by: Arc<Vec<KeyExpr<E>>>, boundaries: Arc<B>, descending: Arc<Vec<bool>> },
}

/// A split of one batch that the engine is asked for.
#[derive(Debug)]
pub enum PartitionRequest<E, B> {
    Hash { by: Arc<Vec<KeyExpr<E>>>, num_partitions: usize },
    Random { num_partitions: usize, seed: u64 },
    Range { by: Arc<Vec<KeyExpr<E>>>, boundaries: Arc<B>, descending: Arc<Vec<bool>> },
}

/// Partitions in memory, grouped by target partition. `P` is a partition of the engine.
#[derive(Debug)]
pub struct RayRepartitionState<P> {
    states: VecDeque<Vec<P>>,
}

/// The partitions of each group.
pub open spec fn groups<P>(s: Seq<Vec<P>>) -> Seq<Seq<P>> {
    s.map_values(|v: Vec<P>| v@)
}

impl<P> View for RayRepartitionState<P> {
    type V = Seq<Seq<P>>;

    closed spec fn view(&self) -> Seq<Seq<P>> {
        groups(self.states@)
    }
}

/// `groups` with `parts[i]` added at the end of group `i`, for as long as both last.
pub open spec fn zip_push<P>(groups: Seq<Seq<P>>, parts: Seq<P>) -> Seq<Seq<P>> {
    Seq::new(
        groups.len(),
        |i: int|
            if i < parts.len() {
                groups[i].push(parts[i])
            } else {
                groups[i]
            },
    )
}

/// `n` empty groups.
pub open spec fn empty_groups<P>(n: nat) -> Seq<Seq<P>> {
    Seq::new(n, |i: int| Seq::empty())
}

impl<P> RayRepartitionState<P> {
    /// A state with `n` empty groups.
    pub fn new(n: usize) -> (r: Self)
        ensures
            r@ == empty_groups::<P>(n as nat),
    {
        let mut states: VecDeque<Vec<P>> = VecDeque::new();
        let mut i: usize = 0;
        while i < n
            invariant
                i <= n,
                states@.len() == i,
                forall|j: int| 0 <= j < i ==> (#[trigger] states@[j])@ == Seq::<P>::empty(),
            decreases n - i,
        {
            states.push_back(Vec::new());
            i += 1;
        }
        assert(groups(states@) =~= empty_groups::<P>(n as nat));
        RayRepartitionState { states }
    }

    /// The number of groups that are left.
    pub fn group_count(&self) -> (r: usize)
        ensures
            r == self@.len(),
    {
        self.states.len()
    }

    /// Adds each part to its group, for as long as there are both parts and groups.
    pub fn push(&mut self, parts: Vec<P>)
        ensures
            final(self)@ == zip_push(old(self)@, parts@),
    {
        let n: usize = self.states.len();
        let ghost before = self.states@;
        let ghost all_parts = parts@;
        let mut parts = parts;
        parts.truncate(n);
        let mut i: usize = n;
        // The groups are turned over from the back: those behind `i` have been
        // moved to the front, with their part added.
        while i > 0
            invariant
                i <= n,
                n == before.len(),
                self.states@.len() == n,
                parts@ == all_parts.take(
                    if all_parts.len() < i {
                        all_parts.len() as int
                    } else {
                        i as int
                    },
                ),
                forall|j: int|
                    0 <= j < i ==> #[trigger] self.states@[n - i + j] == before[j],
                forall|j: int|
                    i <= j < n ==> (#[trigger] self.states@[j - i])@ == zip_push(
                        groups(before),
                        all_parts,
                    )[j],
            decreases i,
        {
            let ghost turned = self.states@;
            assert(turned[n - i + (i - 1)] == before[i - 1]);
            let mut group = self.states.pop_back().unwrap();
            i -= 1;
            if i < parts.len() {
                let part = parts.pop().unwrap();
                group.push(part);
            }
            self.states.push_front(group);
            proof {
                assert(group@ == zip_push(groups(before), all_parts)[i as int]);
                assert forall|j: int| 0 <= j < i implies #[trigger] self.states@[n - i + j]
                    == before[j] by {
                    assert(turned[n - (i + 1) + j] == before[j]);
                }
                assert forall|j: int| i <= j < n implies (#[trigger] self.states@[j - i])@
                    == zip_push(groups(before), all_parts)[j] by {
                    if j > i {
                        assert(turned[j - (i + 1)] == self.states@[j - i]);
                    }
                }
            }
        }
        proof {
            assert forall|j: int| 0 <= j < n implies #[trigger] self@[j] == zip_push(
                groups(before),
                all_parts,
            )[j] by {
                assert(self.states@[j - 0]@ == zip_push(groups(before), all_parts)[j]);
            }
            assert(self@ =~= zip_push(groups(before), all_parts));
        }
    }

    /// Takes the first group out.
    pub fn emit(&mut self) -> (r: Option<Vec<P>>)
        ensures
            match r {
                Some(group) => {
                    &&& old(self)@.len() > 0
                    &&& group@ == old(self)@[0]
                    &&& final(self)@ == old(self)@.drop_first()
                },
                None => old(self)@.len() == 0 && final(self)@ == old(self)@,
            },
    {
        let ghost before = self.states@;
        let r = self.states.pop_front();
        proof {
            if before.len() > 0 {
                assert(groups(self.states@) =~= groups(before).drop_first());
            }
        }
        r
    }
}

/// Handles to the caches of the target partitions. `C` is a handle to one cache.
#[derive(Debug)]
pub struct FlightRepartitionState<C> {
    pub partitions: Arc<Vec<C>>,
}

/// The number of pairs when `caches` and `parts` are paired off from the front.
pub open spec fn paired<C, P>(caches: Seq<C>, parts: Seq<P>) -> int {
    if parts.len() < caches.len() {
        parts.len() as int
    } else {
        caches.len() as int
    }
}

impl<C> FlightRepartitionState<C> {
    /// The parts to append to the caches: the part at index `i` goes to the cache
    /// at index `i`. Parts without a cache are dropped.
    pub fn push<P>(&self, parts: Vec<P>) -> (r: Vec<P>)
        ensures
            r@ == parts@.take(paired(self.partitions@, parts@)),
    {
        let mut r = parts;
        if self.partitions.len() < r.len() {
            r.truncate(self.partitions.len());
        }
        assert(r@ =~= parts@.take(paired(self.partitions@, parts@)));
        r
    }
}

/// The state of one input, for whichever backend the sink has.
#[derive(Debug)]
pub enum RepartitionState<P, C> {
    Ray(RayRepartitionState<P>),
    Flight(FlightRepartitionState<C>),
    Celeborn(CelebornRepartitionState),
}

impl<P, C> RepartitionState<P, C> {
    /// Takes up the parts of a batch. A Ray state keeps them. For a Flight state the
    /// parts to append to its caches are returned, in the order of the caches. A
    /// Celeborn state takes up its batches through
    /// [`CelebornSinkTask`](crate::celeborn_sink::CelebornSinkTask).
    pub fn push(&mut self, parts: Vec<P>) -> (r: Vec<P>)
        requires
            !(*old(self) is Celeborn),
        ensures
            match *old(self) {
                RepartitionState::Ray(state) => {
                    &&& r@.len() == 0
                    &&& *final(self) matches RepartitionState::Ray(after)
                    &&& after@ == zip_push(state@, parts@)
                },
                RepartitionState::Flight(state) => {
                    &&& *final(self) == *old(self)
                    &&& r@ == parts@.take(paired(state.partitions@, parts@))
                },
                RepartitionState::Celeborn(_) => true,
            },
    {
        match self {
            RepartitionState::Ray(state) => {
                state.push(parts);
                Vec::new()
            },
            RepartitionState::Flight(state) => state.push(parts),
            RepartitionState::Celeborn(_) => parts,
        }
    }
}

/// The shuffle backend of a sink. `S` is a schema of the engine.
#[derive(Debug)]
pub enum RepartitionBackend<S, C> {
    /// Partitions stay in memory.
    Ray,
    /// Partitions go to local caches that a Flight server offers.
    Flight {
        shuffle_id: u64,
        shuffle_dirs: Vec<String>,
        compression: Option<String>,
        shuffle_address: String,
        target_in_memory_size_per_partition: usize,
        /// The schema of the rows.
        schema: Arc<S>,
        /// The caches of each input that has a state.
        partitions: HashMap<u32, Arc<Vec<C>>>,
    },
    /// Partitions are pushed to a Celeborn cluster.
    Celeborn { shuffle_id: u64, num_mappers: u32 },
}

/// The name of a backend.
pub open spec fn backend_name<S, C>(backend: RepartitionBackend<S, C>) -> Seq<char> {
    match backend {
        RepartitionBackend::Ray => "Ray"@,
        RepartitionBackend::Flight { .. } => "Flight"@,
        RepartitionBackend::Celeborn { .. } => "Celeborn"@,
    }
}

impl<S, C> RepartitionBackend<S, C> {
    /// The name of the backend.
    pub fn name(&self) -> (r: &'static str)
        ensures
            r@ == backend_name(*self),
    {
        match self {
            RepartitionBackend::Ray => "Ray",
            RepartitionBackend::Flight { .. } => "Flight",
            RepartitionBackend::Celeborn { .. } => "Celeborn",
        }
    }
}

/// The memory that the caches of one input may use together.
pub const TARGET_TOTAL_IN_MEMORY_SIZE_BYTES: usize = 2_097_152_000;

/// The least memory that one cache may use.
pub const MIN_IN_MEMORY_SIZE_BYTES: usize = 8_388_608;

/// The most memory that one cache may use.
pub const MAX_IN_MEMORY_SIZE_BYTES: usize = 134_217_728;

/// The memory that each of `num_partitions` caches may use: an equal share of the
/// total, but no less than the least and no more than the most that one may use.
pub open spec fn cache_share(num_partitions: int) -> int {
    let share = TARGET_TOTAL_IN_MEMORY_SIZE_BYTES as int / num_partitions;
    if share < MIN_IN_MEMORY_SIZE_BYTES {
        MIN_IN_MEMORY_SIZE_BYTES as int
    } else if share > MAX_IN_MEMORY_SIZE_BYTES {
        MAX_IN_MEMORY_SIZE_BYTES as int
    } else {
        share
    }
}

/// A cache that is to be created for one target partition of one input.
#[derive(Debug)]
pub struct CacheSpec<'a, S> {
    pub input_id: u32,
    pub partition_idx: usize,
    pub schema: &'a Arc<S>,
    pub shuffle_dirs: &'a Vec<String>,
    pub shuffle_id: u64,
    pub target_in_memory_size: usize,
    pub compression: &'a Option<String>,
}

/// How the state of an input comes about.
#[derive(Debug)]
pub enum StatePlan<'a, P, S, C> {
    Ready(RepartitionState<P, C>),
    /// The input has no caches yet. They are created as listed, and
    /// [`RepartitionSink::install_caches`] then gives the state.
    CreateCaches(Vec<CacheSpec<'a, S>>),
}

/// What remains to be done with the states of a sink at the end of its input.
#[derive(Debug)]
pub enum FinalizePlan<P, C> {
    /// For each target partition, the partitions to be merged into it.
    Merge(Vec<Vec<P>>),
    /// The caches to close, whose partitions the server then offers for the shuffle.
    Close { shuffle_id: u64, caches: Arc<Vec<C>> },
    /// The mapper attempts to end, and the metadata to report.
    Conclude(CelebornFinalizeTask),
}

/// Why the states of a sink cannot be concluded.
#[derive(Clone, Copy, Debug, PartialEq, Eq, Structural)]
pub enum FinalizeRefusal {
    /// A state is not one of the sink's backend.
    Mismatch,
    /// A Ray state no longer holds a group for every target partition.
    MissingGroup,
    /// A Flight sink has no state.
    NoState,
    /// The counters of Celeborn states do not add up: one is beyond the target
    /// partitions, or a total is too large.
    CounterOverflow,
}

/// The kinds of operators that the engine reports metrics for.
#[derive(Clone, Copy, Debug, PartialEq, Eq, Structural)]
pub enum NodeType {
    Repartition,
}

/// A sink that repartitions its input.
#[derive(Debug)]
pub struct RepartitionSink<E, B, S, C> {
    pub backend: RepartitionBackend<S, C>,
    pub repartition_spec: RepartitionSpec<E, B>,
    pub num_partitions: usize,
}

/// The split that a specification asks for. `own_seed` says whether a random split
/// uses the seed of the specification; otherwise its seed is zero.
pub open spec fn request_for<E, B>(
    spec: RepartitionSpec<E, B>,
    num_partitions: usize,
    own_seed: bool,
) -> PartitionRequest<E, B> {
    match spec {
        RepartitionSpec::Hash { by } => PartitionRequest::Hash { by, num_partitions },
        RepartitionSpec::Random { seed } => PartitionRequest::Random {
            num_partitions,
            seed: match seed {
                Some(s) => if own_seed {
                    s
                } else {
                    0
                },
                None => 0,
            },
        },
        RepartitionSpec::Range { by, boundaries, descending } => PartitionRequest::Range {
            by,
            boundaries,
            descending,
        },
    }
}

/// The partitions that the states hold for target partition `i`, state by state.
pub open spec fn gathered<P>(states: Seq<Seq<Seq<P>>>, i: int) -> Seq<P>
    decreases states.len(),
{
    if states.len() == 0 {
        Seq::empty()
    } else {
        gathered(states.drop_last(), i) + states.last()[i]
    }
}

/// The groups of each of a sequence of Ray states.
pub open spec fn ray_views<P>(states: Seq<RayRepartitionState<P>>) -> Seq<Seq<Seq<P>>> {
    states.map_values(|s: RayRepartitionState<P>| s@)
}

/// For each target partition, the partitions that the states hold for it.
pub fn gather_groups<P>(states: Vec<RayRepartitionState<P>>, num_partitions: usize) -> (r: Vec<
    Vec<P>,
>)
    requires
        forall|k: int| 0 <= k < states@.len() ==> (#[trigger] states@[k])@.len() >= num_partitions,
    ensures
        r@.len() == num_partitions,
        forall|i: int|
            0 <= i < num_partitions ==> (#[trigger] r@[i])@ == gathered(ray_views(states@), i),
{
    let ghost all = ray_views(states@);
    let mut states = states;
    let mut r: Vec<Vec<P>> = Vec::new();
    let mut i: usize = 0;
    while i < num_partitions
        invariant
            i <= num_partitions,
            states@.len() == all.len(),
            forall|k: int| 0 <= k < all.len() ==> (#[trigger] all[k]).len() >= num_partitions,
            forall|k: int|
                0 <= k < all.len() ==> (#[trigger] states@[k])@ == all[k].skip(i as int),
            r@.len() == i,
            forall|j: int| 0 <= j < i ==> (#[trigger] r@[j])@ == gathered(all, j),
        decreases num_partitions - i,
    {
        let mut data: Vec<P> = Vec::new();
        let mut k: usize = 0;
        while k < states.len()
            invariant
                i < num_partitions,
                k <= states@.len(),
                states@.len() == all.len(),
                forall|m: int| 0 <= m < all.len() ==> (#[trigger] all[m]).len() >= num_partitions,
                forall|m: int|
                    0 <= m < k ==> (#[trigger] states@[m])@ == all[m].skip(i as int + 1),
                forall|m: int|
                    k <= m < all.len() ==> (#[trigger] states@[m])@ == all[m].skip(i as int),
                data@ == gathered(all.take(k as int), i as int),
            decreases states@.len() - k,
        {
            assert(states@[k as int]@ == all[k as int].skip(i as int));
            match states[k].emit() {
                Some(group) => {
                    let mut group = group;
                    data.append(&mut group);
                },
                None => {
                    assert(false);
                },
            }
            proof {
                assert(all.take(k + 1).drop_last() =~= all.take(k as int));
                assert(all[k as int].skip(i as int).drop_first() =~= all[k as int].skip(
                    i as int + 1,
                ));
            }
            k += 1;
        }
        assert(all.take(k as int) =~= all);
        r.push(data);
        i += 1;
    }
    r
}

/// The groups of each of a sequence of states that are all Ray states.
pub open spec fn ray_groups<P, C>(states: Seq<RepartitionState<P, C>>) -> Seq<Seq<Seq<P>>> {
    states.map_values(|s: RepartitionState<P, C>| s->Ray_0@)
}

/// What each of a sequence of states holds that are all Celeborn states.
pub open spec fn celeborn_views<P, C>(states: Seq<RepartitionState<P, C>>) -> Seq<SinkStateView> {
    states.map_values(|s: RepartitionState<P, C>| s->Celeborn_0@)
}

fn into_ray_states<P, C>(states: Vec<RepartitionState<P, C>>) -> (r: Vec<RayRepartitionState<P>>)
    requires
        forall|k: int| 0 <= k < states@.len() ==> (#[trigger] states@[k]) is Ray,
    ensures
        ray_views(r@) == ray_groups(states@),
{
    let mut r: Vec<RayRepartitionState<P>> = Vec::new();
    let ghost all = states@;
    for state in it: states.into_iter()
        invariant
            it.seq() == all,
            forall|k: int| 0 <= k < all.len() ==> (#[trigger] all[k]) is Ray,
            r@.len() == it.index(),
            forall|k: int| 0 <= k < it.index() ==> (#[trigger] r@[k]) == all[k]->Ray_0,
    {
        match state {
            RepartitionState::Ray(state) => {
                r.push(state);
            },
            _ => {
                assert(all[it.index()] is Ray);
            },
        }
    }
    assert(ray_views(r@) =~= ray_groups(all));
    r
}

fn into_celeborn_states<P, C>(states: Vec<RepartitionState<P, C>>) -> (r: Vec<
    CelebornRepartitionState,
>)
    requires
        forall|k: int| 0 <= k < states@.len() ==> (#[trigger] states@[k]) is Celeborn,
    ensures
        crate::celeborn_sink::state_views(r@) == celeborn_views(states@),
{
    let mut r: Vec<CelebornRepartitionState> = Vec::new();
    let ghost all = states@;
    for state in it: states.into_iter()
        invariant
            it.seq() == all,
            forall|k: int| 0 <= k < all.len() ==> (#[trigger] all[k]) is Celeborn,
            r@.len() == it.index(),
            forall|k: int| 0 <= k < it.index() ==> (#[trigger] r@[k]) == all[k]->Celeborn_0,
    {
        match state {
            RepartitionState::Celeborn(state) => {
                r.push(state);
            },
            _ => {
                assert(all[it.index()] is Celeborn);
            },
        }
    }
    assert(crate::celeborn_sink::state_views(r@) =~= celeborn_views(all));
    r
}

fn all_have_groups<P>(states: &Vec<RayRepartitionState<P>>, num_partitions: usize) -> (r: bool)
    ensures
        r <==> forall|k: int|
            0 <= k < states@.len() ==> (#[trigger] states@[k])@.len() >= num_partitions,
{
    let mut k: usize = 0;
    while k < states.len()
        invariant
            k <= states@.len(),
            forall|j: int| 0 <= j < k ==> (#[trigger] states@[j])@.len() >= num_partitions,
        decreases states@.len() - k,
    {
        if states[k].group_count() < num_partitions {
            assert(states@[k as int]@.len() < num_partitions);
            return false;
        }
        k += 1;
    }
    true
}

/// The line that displays a sink.
pub open spec fn display_text<E, B>(
    backend: Seq<char>,
    spec: RepartitionSpec<E, B>,
    num_partitions: nat,
) -> Seq<char> {
    let how = match spec {
        RepartitionSpec::Hash { by } => "By "@ + crate::text::joined(key_texts(by@), ", "@),
        RepartitionSpec::Random { .. } => "Random"@,
        RepartitionSpec::Range { .. } => "Range"@,
    };
    "Repartition("@ + backend + "): "@ + how + " into "@ + crate::text::decimal(num_partitions)
        + " partitions"@
}

/// The texts of a sequence of key expressions.
pub open spec fn key_texts<E>(by: Seq<KeyExpr<E>>) -> Seq<Seq<char>> {
    by.map_values(|k: KeyExpr<E>| k.text@)
}

fn clone_key_texts<E>(by: &Vec<KeyExpr<E>>) -> (r: Vec<String>)
    ensures
        crate::text::texts(r@) == key_texts(by@),
{
    let mut r: Vec<String> = Vec::new();
    let mut i: usize = 0;
    while i < by.len()
        invariant
            i <= by@.len(),
            r@.len() == i,
            forall|j: int| 0 <= j < i ==> (#[trigger] r@[j])@ == by@[j].text@,
        decreases by@.len() - i,
    {
        r.push(by[i].text.clone());
        i += 1;
    }
    assert(crate::text::texts(r@) =~= key_texts(by@));
    r
}

impl<E, B, S, C> RepartitionSink<E, B, S, C> {
    /// A sink that keeps its partitions in memory.
    pub fn new_ray(repartition_spec: RepartitionSpec<E, B>, num_partitions: usize) -> (r: Self)
        ensures
            r == (RepartitionSink::<E, B, S, C> {
                backend: RepartitionBackend::Ray,
                repartition_spec,
                num_partitions,
            }),
    {
        Self { backend: RepartitionBackend::Ray, repartition_spec, num_partitions }
    }

    /// A sink that writes its partitions to caches of a Flight server. It never fails.
    pub fn try_new_flight(
        num_partitions: usize,
        schema: Arc<S>,
        shuffle_id: u64,
        repartition_spec: RepartitionSpec<E, B>,
        shuffle_dirs: Vec<String>,
        compression: Option<String>,
        shuffle_address: String,
    ) -> (r: Result<Self, CelebornError>)
        requires
            num_partitions > 0,
        ensures
            r matches Ok(sink) && {
                &&& sink.wf()
                &&& sink.num_partitions == num_partitions
                &&& sink.repartition_spec == repartition_spec
                &&& sink.backend matches RepartitionBackend::Flight {
                    shuffle_id: id,
                    shuffle_dirs: dirs,
                    compression: codec,
                    shuffle_address: address,
                    target_in_memory_size_per_partition: target,
                    schema: rows,
                    partitions,
                } && {
                    &&& id == shuffle_id
                    &&& dirs == shuffle_dirs
                    &&& codec == compression
                    &&& address == shuffle_address
                    &&& target == cache_share(num_partitions as int)
                    &&& rows == schema
                    &&& partitions@ == Map::<u32, Arc<Vec<C>>>::empty()
                }
            },
    {
        let share_size: usize = TARGET_TOTAL_IN_MEMORY_SIZE_BYTES / num_partitions;
        let target: usize = if share_size < MIN_IN_MEMORY_SIZE_BYTES {
            MIN_IN_MEMORY_SIZE_BYTES
        } else if share_size > MAX_IN_MEMORY_SIZE_BYTES {
            MAX_IN_MEMORY_SIZE_BYTES
        } else {
            share_size
        };
        Ok(
            Self {
                backend: RepartitionBackend::Flight {
                    shuffle_id,
                    shuffle_dirs,
                    compression,
                    shuffle_address,
                    target_in_memory_size_per_partition: target,
                    schema,
                    partitions: HashMap::new(),
                },
                repartition_spec,
                num_partitions,
            },
        )
    }

    /// A sink that pushes its partitions to a Celeborn cluster.
    pub fn new_celeborn(
        num_partitions: usize,
        shuffle_id: u64,
        num_mappers: u32,
        repartition_spec: RepartitionSpec<E, B>,
    ) -> (r: Self)
        ensures
            r == (RepartitionSink::<E, B, S, C> {
                backend: RepartitionBackend::Celeborn { shuffle_id, num_mappers },
                repartition_spec,
                num_partitions,
            }),
    {
        Self {
            backend: RepartitionBackend::Celeborn { shuffle_id, num_mappers },
            repartition_spec,
            num_partitions,
        }
    }

    /// The caches of an input, where it has any.
    pub open spec fn caches_of(&self, input_id: u32) -> Option<Arc<Vec<C>>> {
        match self.backend {
            RepartitionBackend::Flight { partitions, .. } => if partitions@.contains_key(input_id) {
                Some(partitions@[input_id])
            } else {
                None
            },
            _ => None,
        }
    }

    /// Every input that has caches has one for each target partition.
    pub open spec fn wf(&self) -> bool {
        forall|id: u32|
            (#[trigger] self.caches_of(id)) matches Some(caches) ==> caches@.len()
                == self.num_partitions
    }

    /// The state is one of this sink's backend.
    pub open spec fn matches_state<P>(&self, state: RepartitionState<P, C>) -> bool {
        match self.backend {
            RepartitionBackend::Ray => state is Ray,
            RepartitionBackend::Flight { .. } => state is Flight,
            RepartitionBackend::Celeborn { .. } => state is Celeborn,
        }
    }

    /// The split that every batch of the sink is put through. A Celeborn sink
    /// splits at random with seed zero, whatever seed its specification names.
    pub open spec fn request(&self) -> PartitionRequest<E, B> {
        request_for(
            self.repartition_spec,
            self.num_partitions,
            !(self.backend is Celeborn),
        )
    }

    /// The split to put a batch through. A Celeborn sink has no range splits.
    pub fn sink<P>(&self, state: &RepartitionState<P, C>) -> (r: PartitionRequest<E, B>)
        requires
            self.matches_state(*state),
            !(self.backend is Celeborn && self.repartition_spec is Range),
        ensures
            r == self.request(),
    {
        match &self.repartition_spec {
            RepartitionSpec::Hash { by } => PartitionRequest::Hash {
                by: share(by),
                num_partitions: self.num_partitions,
            },
            RepartitionSpec::Random { seed } => {
                let seed: u64 = match &self.backend {
                    RepartitionBackend::Celeborn { .. } => 0,
                    _ => match seed {
                        Some(s) => *s,
                        None => 0,
                    },
                };
                PartitionRequest::Random { num_partitions: self.num_partitions, seed }
            },
            RepartitionSpec::Range { by, boundaries, descending } => PartitionRequest::Range {
                by: share(by),
                boundaries: share(boundaries),
                descending: share(descending),
            },
        }
    }

    /// Why the states cannot be concluded, if they cannot.
    pub open spec fn refusal<P>(&self, states: Seq<RepartitionState<P, C>>) -> Option<
        FinalizeRefusal,
    > {
        if !(forall|k: int| 0 <= k < states.len() ==> self.matches_state(#[trigger] states[k])) {
            Some(FinalizeRefusal::Mismatch)
        } else {
            match self.backend {
                RepartitionBackend::Ray => if forall|k: int|
                    0 <= k < states.len() ==> (#[trigger] states[k])->Ray_0@.len()
                        >= self.num_partitions {
                    None
                } else {
                    Some(FinalizeRefusal::MissingGroup)
                },
                RepartitionBackend::Flight { .. } => if states.len() > 0 {
                    None
                } else {
                    Some(FinalizeRefusal::NoState)
                },
                RepartitionBackend::Celeborn { .. } => if crate::celeborn_sink::can_aggregate(
                    celeborn_views(states),
                    self.num_partitions as nat,
                ) {
                    None
                } else {
                    Some(FinalizeRefusal::CounterOverflow)
                },
            }
        }
    }

    /// The states can be concluded: they are of this sink's backend, a Ray state
    /// still holds a group for every target partition, a Flight sink has at least
    /// one state, and the counters of Celeborn states add up.
    pub open spec fn can_finalize<P>(&self, states: Seq<RepartitionState<P, C>>) -> bool {
        self.refusal(states) is None
    }

    /// What remains to be done with the states at the end of the input: the groups of
    /// Ray states are merged, the caches of the first Flight state are closed, and
    /// Celeborn states are concluded.
    pub open spec fn concludes<P>(
        &self,
        states: Seq<RepartitionState<P, C>>,
        plan: FinalizePlan<P, C>,
    ) -> bool {
        match self.backend {
            RepartitionBackend::Ray => plan matches FinalizePlan::Merge(merged) && {
                &&& merged@.len() == self.num_partitions
                &&& forall|i: int|
                    0 <= i < self.num_partitions ==> (#[trigger] merged@[i])@ == gathered(
                        ray_groups(states),
                        i,
                    )
            },
            RepartitionBackend::Flight { shuffle_id, .. } => plan matches FinalizePlan::Close {
                shuffle_id: id,
                caches,
            } && id == shuffle_id && caches == states[0]->Flight_0.partitions,
            RepartitionBackend::Celeborn { .. } => plan matches FinalizePlan::Conclude(task) && {
                &&& task.inv()
                &&& task@.wf()
                &&& task@ == FinalizeView::start(
                    celeborn_views(states),
                    self.num_partitions as nat,
                )
            },
        }
    }

    fn all_match<P>(&self, states: &Vec<RepartitionState<P, C>>) -> (r: bool)
        ensures
            r <==> forall|k: int|
                0 <= k < states@.len() ==> self.matches_state(#[trigger] states@[k]),
    {
        let mut k: usize = 0;
        while k < states.len()
            invariant
                k <= states@.len(),
                forall|j: int| 0 <= j < k ==> self.matches_state(#[trigger] states@[j]),
            decreases states@.len() - k,
        {
            let matched = match (&self.backend, &states[k]) {
                (RepartitionBackend::Ray, RepartitionState::Ray(_)) => true,
                (RepartitionBackend::Flight { .. }, RepartitionState::Flight(_)) => true,
                (RepartitionBackend::Celeborn { .. }, RepartitionState::Celeborn(_)) => true,
                _ => false,
            };
            if !matched {
                assert(!self.matches_state(states@[k as int]));
                return false;
            }
            k += 1;
        }
        true
    }

    /// What remains to be done with the states at the end of the input, if they can be
    /// concluded, or else why they cannot.
    pub fn try_finalize<P>(&self, states: Vec<RepartitionState<P, C>>) -> (r: Result<
        FinalizePlan<P, C>,
        FinalizeRefusal,
    >)
        ensures
            match r {
                Ok(plan) => self.can_finalize(states@) && self.concludes(states@, plan),
                Err(refusal) => self.refusal(states@) == Some(refusal),
            },
    {
        if !self.all_match(&states) {
            return Err(FinalizeRefusal::Mismatch);
        }
        let ghost all = states@;
        match &self.backend {
            RepartitionBackend::Ray => {
                assert forall|k: int| 0 <= k < all.len() implies (#[trigger] all[k]) is Ray by {
                    assert(self.matches_state(all[k]));
                }
                let rays = into_ray_states(states);
                assert(ray_views(rays@).len() == ray_groups(all).len());
                if !all_have_groups(&rays, self.num_partitions) {
                    let ghost k = choose|k: int|
                        0 <= k < rays@.len() && (#[trigger] rays@[k])@.len() < self.num_partitions;
                    assert(ray_views(rays@)[k] == ray_groups(all)[k]);
                    assert(all[k]->Ray_0@.len() < self.num_partitions);
                    return Err(FinalizeRefusal::MissingGroup);
                }
                assert forall|j: int| 0 <= j < all.len() implies (#[trigger] all[j])->Ray_0@.len()
                    >= self.num_partitions by {
                    assert(ray_views(rays@)[j] == ray_groups(all)[j]);
                    assert(rays@[j]@.len() >= self.num_partitions);
                }
                Ok(FinalizePlan::Merge(gather_groups(rays, self.num_partitions)))
            },
            RepartitionBackend::Flight { shuffle_id, .. } => {
                if states.len() == 0 {
                    return Err(FinalizeRefusal::NoState);
                }
                assert(self.matches_state(states@[0]));
                match &states[0] {
                    RepartitionState::Flight(state) => Ok(
                        FinalizePlan::Close {
                            shuffle_id: *shuffle_id,
                            caches: share(&state.partitions),
                        },
                    ),
                    _ => Err(FinalizeRefusal::Mismatch),
                }
            },
            RepartitionBackend::Celeborn { .. } => {
                assert forall|k: int| 0 <= k < all.len() implies (#[trigger] all[k]) is Celeborn by {
                    assert(self.matches_state(all[k]));
                }
                let mappers = into_celeborn_states(states);
                if try_aggregate(&mappers, self.num_partitions).is_none() {
                    return Err(FinalizeRefusal::CounterOverflow);
                }
                Ok(FinalizePlan::Conclude(CelebornFinalizeTask::start(mappers, self.num_partitions)))
            },
        }
    }

    /// What remains to be done with the states at the end of the input.
    pub fn finalize<P>(&self, states: Vec<RepartitionState<P, C>>) -> (r: FinalizePlan<P, C>)
        requires
            self.can_finalize(states@),
        ensures
            self.concludes(states@, r),
    {
        self.try_finalize(states).unwrap()
    }

    /// The references under which the Flight server of the sink offers its closed
    /// partitions: one for each partition, in order.
    pub fn flight_partition_refs(&self, finalized: &Vec<FinalizedPartition>) -> (r: Vec<
        FlightPartitionRef,
    >)
        requires
            self.backend is Flight,
        ensures
            self.backend matches RepartitionBackend::Flight { shuffle_id, shuffle_address, .. } && {
                &&& r@.len() == finalized@.len()
                &&& forall|i: int|
                    0 <= i < finalized@.len() ==> (#[trigger] r@[i])
                        == crate::partition_refs::offered(
                        shuffle_id,
                        shuffle_address,
                        finalized@[i],
                    )
            },
    {
        match &self.backend {
            RepartitionBackend::Flight { shuffle_id, shuffle_address, .. } => flight_partition_refs(
                *shuffle_id,
                shuffle_address,
                finalized,
            ),
            _ => Vec::new(),
        }
    }

    /// The name of the operator.
    pub fn name(&self) -> (r: String)
        ensures
            r@ == "Repartition("@ + backend_name(self.backend) + ")"@,
    {
        let mut out = String::from_str("Repartition(");
        out.append(self.backend.name());
        out.append(")");
        out
    }

    /// The kind of the operator.
    pub fn op_type(&self) -> (r: NodeType)
        ensures
            r == NodeType::Repartition,
    {
        NodeType::Repartition
    }

    /// The lines that display the operator.
    pub fn multiline_display(&self) -> (r: Vec<String>)
        ensures
            crate::text::texts(r@) == seq![
                display_text(
                    backend_name(self.backend),
                    self.repartition_spec,
                    self.num_partitions as nat,
                ),
            ],
    {
        let mut out = String::from_str("Repartition(");
        out.append(self.backend.name());
        out.append("): ");
        match &self.repartition_spec {
            RepartitionSpec::Hash { by } => {
                out.append("By ");
                let names = clone_key_texts(by);
                proof {
                    reveal_strlit(", ");
                }
                out.append(join(&names, ", ").as_str());
            },
            RepartitionSpec::Random { .. } => {
                out.append("Random");
            },
            RepartitionSpec::Range { .. } => {
                out.append("Range");
            },
        }
        out.append(" into ");
        append_decimal(&mut out, self.num_partitions as u64);
        out.append(" partitions");
        assert(out@ =~= display_text(
            backend_name(self.backend),
            self.repartition_spec,
            self.num_partitions as nat,
        ));
        let mut r: Vec<String> = Vec::new();
        r.push(out);
        assert(crate::text::texts(r@) =~= seq![
            display_text(
                backend_name(self.backend),
                self.repartition_spec,
                self.num_partitions as nat,
            ),
        ]);
        r
    }

    /// The caches that an input of a Flight sink needs: one for each target
    /// partition, in order.
    pub open spec fn needs_caches(&self, input_id: u32, specs: Seq<CacheSpec<'_, S>>) -> bool {
        self.backend matches RepartitionBackend::Flight {
            shuffle_id,
            shuffle_dirs,
            compression,
            target_in_memory_size_per_partition,
            schema,
            ..
        } && {
            &&& specs.len() == self.num_partitions
            &&& forall|i: int|
                0 <= i < specs.len() ==> #[trigger] specs[i] == (CacheSpec {
                    input_id,
                    partition_idx: i as usize,
                    schema: &schema,
                    shuffle_dirs: &shuffle_dirs,
                    shuffle_id,
                    target_in_memory_size: target_in_memory_size_per_partition,
                    compression: &compression,
                })
        }
    }

    /// The state of an input, or the caches that have to be created for it first.
    /// The states of one input share their caches.
    pub fn make_state<P>(&self, input_id: u32) -> (r: StatePlan<'_, P, S, C>)
        ensures
            match self.backend {
                RepartitionBackend::Ray => r matches StatePlan::Ready(RepartitionState::Ray(s))
                    && s@ == empty_groups::<P>(self.num_partitions as nat),
                RepartitionBackend::Flight { .. } => match self.caches_of(input_id) {
                    Some(caches) => r matches StatePlan::Ready(RepartitionState::Flight(s))
                        && s.partitions == caches,
                    None => r matches StatePlan::CreateCaches(specs) && self.needs_caches(
                        input_id,
                        specs@,
                    ),
                },
                RepartitionBackend::Celeborn { shuffle_id, num_mappers } => r matches StatePlan::Ready(
                    RepartitionState::Celeborn(s),
                ) && s@.wf() && s@ == crate::celeborn_sink::initial_state(
                    shuffle_id,
                    input_id,
                    num_mappers,
                    self.num_partitions,
                ),
            },
    {
        match &self.backend {
            RepartitionBackend::Ray => StatePlan::Ready(
                RepartitionState::Ray(RayRepartitionState::new(self.num_partitions)),
            ),
            RepartitionBackend::Flight {
                shuffle_id,
                shuffle_dirs,
                compression,
                target_in_memory_size_per_partition,
                schema,
                partitions,
                ..
            } => {
                match partitions.get(&input_id) {
                    Some(caches) => StatePlan::Ready(
                        RepartitionState::Flight(
                            FlightRepartitionState { partitions: share(caches) },
                        ),
                    ),
                    None => {
                        let mut specs: Vec<CacheSpec<'_, S>> = Vec::new();
                        let mut i: usize = 0;
                        while i < self.num_partitions
                            invariant
                                i <= self.num_partitions,
                                specs@.len() == i,
                                forall|j: int|
                                    0 <= j < i ==> #[trigger] specs@[j] == (CacheSpec {
                                        input_id,
                                        partition_idx: j as usize,
                                        schema,
                                        shuffle_dirs,
                                        shuffle_id: *shuffle_id,
                                        target_in_memory_size: *target_in_memory_size_per_partition,
                                        compression,
                                    }),
                            decreases self.num_partitions - i,
                        {
                            specs.push(
                                CacheSpec {
                                    input_id,
                                    partition_idx: i,
                                    schema,
                                    shuffle_dirs,
                                    shuffle_id: *shuffle_id,
                                    target_in_memory_size: *target_in_memory_size_per_partition,
                                    compression,
                                },
                            );
                            i += 1;
                        }
                        StatePlan::CreateCaches(specs)
                    },
                }
            },
            RepartitionBackend::Celeborn { shuffle_id, num_mappers } => StatePlan::Ready(
                RepartitionState::Celeborn(
                    CelebornRepartitionState::new(
                        *shuffle_id,
                        input_id,
                        *num_mappers,
                        self.num_partitions,
                    ),
                ),
            ),
        }
    }

    /// `after` is this sink with `caches` added as those of an input.
    pub open spec fn gains_caches(&self, after: &Self, input_id: u32, caches: Arc<Vec<C>>) -> bool {
        &&& after.repartition_spec == self.repartition_spec
        &&& after.num_partitions == self.num_partitions
        &&& match (self.backend, after.backend) {
            (
                RepartitionBackend::Flight {
                    shuffle_id: id0,
                    shuffle_dirs: dirs0,
                    compression: codec0,
                    shuffle_address: address0,
                    target_in_memory_size_per_partition: target0,
                    schema: schema0,
                    partitions: partitions0,
                },
                RepartitionBackend::Flight {
                    shuffle_id: id1,
                    shuffle_dirs: dirs1,
                    compression: codec1,
                    shuffle_address: address1,
                    target_in_memory_size_per_partition: target1,
                    schema: schema1,
                    partitions: partitions1,
                },
            ) => {
                &&& id1 == id0
                &&& dirs1 == dirs0
                &&& codec1 == codec0
                &&& address1 == address0
                &&& target1 == target0
                &&& schema1 == schema0
                &&& partitions1@ == partitions0@.insert(input_id, caches)
            },
            _ => false,
        }
    }

    /// Keeps the caches that were created for an input that had none, and gives the
    /// input's state. Where their creation failed, its error is returned and the input
    /// still has none.
    pub fn install_caches<P, X>(&mut self, input_id: u32, created: Result<Vec<C>, X>) -> (r: Result<
        RepartitionState<P, C>,
        X,
    >)
        requires
            old(self).backend is Flight,
            old(self).caches_of(input_id) is None,
            created matches Ok(caches) ==> caches@.len() == old(self).num_partitions,
        ensures
            match (created, r) {
                (Ok(caches), Ok(state)) => {
                    &&& state matches RepartitionState::Flight(s) && s.partitions == Arc::new(
                        caches,
                    )
                    &&& old(self).gains_caches(final(self), input_id, Arc::new(caches))
                },
                (Err(error), Err(e)) => e == error && *final(self) == *old(self),
                _ => false,
            },
            old(self).wf() ==> final(self).wf(),
    {
        match created {
            Ok(caches) => {
                let handle = Arc::new(caches);
                let state_handle = share(&handle);
                match &mut self.backend {
                    RepartitionBackend::Flight { partitions, .. } => {
                        partitions.insert(input_id, handle);
                    },
                    _ => {},
                }
                proof {
                    if old(self).wf() {
                        law_inputs_keep_their_caches(*old(self), *self, input_id, state_handle);
                    }
                }
                Ok(RepartitionState::Flight(FlightRepartitionState { partitions: state_handle }))
            },
            Err(error) => Err(error),
        }
    }
}

/// Each input of a Flight sink has one set of caches, one for each target partition, which
/// all its states share: what is installed for an input is what its states get from that
/// time on, since caches installed later are those of other inputs and change nothing for
/// it.
pub proof fn law_inputs_keep_their_caches<E, B, S, C>(
    before: RepartitionSink<E, B, S, C>,
    after: RepartitionSink<E, B, S, C>,
    input_id: u32,
    caches: Arc<Vec<C>>,
)
    requires
        before.wf(),
        before.caches_of(input_id) is None,
        caches@.len() == before.num_partitions,
        before.gains_caches(&after, input_id, caches),
    ensures
        after.wf(),
        after.caches_of(input_id) == Some(caches),
        forall|id: u32|
            before.caches_of(id) is Some ==> #[trigger] after.caches_of(id) == before.caches_of(id),
        forall|id: u32|
            id != input_id ==> #[trigger] after.caches_of(id) == before.caches_of(id),
{
    assert forall|id: u32| id != input_id implies #[trigger] after.caches_of(id)
        == before.caches_of(id) by {}
}

/// No part of a batch is lost and none is merged twice: once state `k` has taken up
/// the parts of a batch, the part for target partition `i` is merged into partition
/// `i` besides what was merged into it before.
pub proof fn law_every_part_is_merged<P>(
    states: Seq<Seq<Seq<P>>>,
    k: int,
    parts: Seq<P>,
    i: int,
)
    requires
        0 <= k < states.len(),
        0 <= i < states[k].len(),
        i < parts.len(),
    ensures
        gathered(states.update(k, zip_push(states[k], parts)), i).to_multiset() == gathered(
            states,
            i,
        ).to_multiset().insert(parts[i]),
    decreases states.len(),
{
    broadcast use vstd::seq_lib::group_to_multiset_ensures;

    let after = states.update(k, zip_push(states[k], parts));
    let last = states.len() - 1;
    if k == last {
        assert(after.drop_last() =~= states.drop_last());
        let init = gathered(states.drop_last(), i);
        assert(init + states[k][i].push(parts[i]) =~= (init + states[k][i]).push(parts[i]));
    } else {
        let init = states.drop_last();
        assert(after.drop_last() =~= init.update(k, zip_push(init[k], parts)));
        law_every_part_is_merged(init, k, parts, i);
        vstd::seq_lib::lemma_multiset_commutative(
            gathered(after.drop_last(), i),
            states.last()[i],
        );
        vstd::seq_lib::lemma_multiset_commutative(gathered(init, i), states.last()[i]);
        assert(gathered(after, i).to_multiset() =~= gathered(states, i).to_multiset().insert(
            parts[i],
        ));
    }
}

/// A part only reaches the target partition that it was split off for: what is merged
/// into partition `i` does not depend on the other parts of a batch.
pub proof fn law_parts_keep_to_their_partition<P>(
    states: Seq<Seq<Seq<P>>>,
    k: int,
    parts: Seq<P>,
    other: Seq<P>,
    i: int,
)
    requires
        0 <= k < states.len(),
        0 <= i < states[k].len(),
        parts.len() == other.len(),
        i < parts.len() ==> parts[i] == other[i],
    ensures
        gathered(states.update(k, zip_push(states[k], parts)), i) == gathered(
            states.update(k, zip_push(states[k], other)),
            i,
        ),
    decreases states.len(),
{
    let a = states.update(k, zip_push(states[k], parts));
    let b = states.update(k, zip_push(states[k], other));
    if k == states.len() - 1 {
        assert(a.drop_last() =~= b.drop_last());
    } else {
        let init = states.drop_last();
        assert(a.drop_last() =~= init.update(k, zip_push(init[k], parts)));
        assert(b.drop_last() =~= init.update(k, zip_push(init[k], other)));
        law_parts_keep_to_their_partition(init, k, parts, other, i);
    }
}

/// Every cache may use at least the least and at most the most memory that is set
/// for one, and between the two bounds the caches together stay within the total.
pub proof fn law_cache_share_is_bounded(num_partitions: int)
    requires
        num_partitions > 0,
    ensures
        MIN_IN_MEMORY_SIZE_BYTES <= cache_share(num_partitions) <= MAX_IN_MEMORY_SIZE_BYTES,
        cache_share(num_partitions) > MIN_IN_MEMORY_SIZE_BYTES ==> num_partitions * cache_share(
            num_partitions,
        ) <= TARGET_TOTAL_IN_MEMORY_SIZE_BYTES,
{
    let total = TARGET_TOTAL_IN_MEMORY_SIZE_BYTES as int;
    let share = cache_share(num_partitions);
    if share > MIN_IN_MEMORY_SIZE_BYTES {
        assert(share <= total / num_partitions);
        assert(num_partitions * share <= total) by (nonlinear_arith)
            requires
                num_partitions > 0,
                share <= total / num_partitions,
        ;
    }
}

} // verus!
