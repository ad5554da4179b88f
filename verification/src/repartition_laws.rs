//! Laws of the repartition sink: what it is made with, how its batches are split, and what
//! becomes of the states at the end.

use std::sync::Arc;

use vstd::prelude::*;

use crate::celeborn_sink::SinkStateView;
use crate::error::CelebornError;
use crate::partition_refs::{FinalizedPartition, FlightPartitionRef};
use crate::repartition::{
    gather_groups, FinalizePlan, FinalizeRefusal, FlightRepartitionState, PartitionRequest,
    RayRepartitionState, RepartitionBackend, RepartitionSink, RepartitionSpec, RepartitionState,
    StatePlan,
};

verus! {

/// Every batch is split as the specification says, whatever the backend: by hash of exactly
/// the keys that it names, at random, or by the range of the keys that it names with its own
/// boundaries and directions; by hash or at random into as many partitions as the sink has.
/// A random split uses the seed of the specification, or zero where it names none; that of a
/// Celeborn sink always uses zero.
pub proof fn law_split_follows_specification<E, B, S, C, P>(
    sink: RepartitionSink<E, B, S, C>,
    state: RepartitionState<P, C>,
    r: PartitionRequest<E, B>,
)
    requires
        call_ensures(RepartitionSink::<E, B, S, C>::sink::<P>, (&sink, &state), r),
    ensures
        r is Hash <==> sink.repartition_spec is Hash,
        r is Random <==> sink.repartition_spec is Random,
        r is Range <==> sink.repartition_spec is Range,
        r matches PartitionRequest::Hash { by, num_partitions } ==> by
            == sink.repartition_spec->Hash_by && num_partitions == sink.num_partitions,
        r matches PartitionRequest::Random { num_partitions, seed } ==> {
            &&& num_partitions == sink.num_partitions
            &&& sink.backend is Celeborn ==> seed == 0
            &&& !(sink.backend is Celeborn) ==> match sink.repartition_spec->seed {
                Some(own) => seed == own,
                None => seed == 0,
            }
        },
        r matches PartitionRequest::Range { by, boundaries, descending } ==> {
            &&& by == sink.repartition_spec->Range_by
            &&& boundaries == sink.repartition_spec->boundaries
            &&& descending == sink.repartition_spec->descending
        },
{
}

/// The state is one of the kind that the backend makes.
pub open spec fn is_of<P, S, C>(
    state: RepartitionState<P, C>,
    backend: RepartitionBackend<S, C>,
) -> bool {
    ||| backend is Ray && state is Ray
    ||| backend is Flight && state is Flight
    ||| backend is Celeborn && state is Celeborn
}

/// A batch can be split for every state of the sink's kind, but by range only where the
/// backend is not Celeborn.
pub proof fn law_batches_that_can_be_split<E, B, S, C, P>(
    sink: RepartitionSink<E, B, S, C>,
    state: RepartitionState<P, C>,
)
    requires
        is_of(state, sink.backend),
        sink.repartition_spec is Range ==> !(sink.backend is Celeborn),
    ensures
        call_requires(RepartitionSink::<E, B, S, C>::sink::<P>, (&sink, &state)),
{
}

/// A sink is made with what it is given.
pub proof fn law_sinks_are_made_as_given<E, B, S, C>(
    repartition_spec: RepartitionSpec<E, B>,
    num_partitions: usize,
    shuffle_id: u64,
    num_mappers: u32,
    ray: RepartitionSink<E, B, S, C>,
    celeborn: RepartitionSink<E, B, S, C>,
)
    requires
        call_ensures(
            RepartitionSink::<E, B, S, C>::new_ray,
            (repartition_spec, num_partitions),
            ray,
        ),
        call_ensures(
            RepartitionSink::<E, B, S, C>::new_celeborn,
            (num_partitions, shuffle_id, num_mappers, repartition_spec),
            celeborn,
        ),
    ensures
        ray.backend is Ray,
        ray.repartition_spec == repartition_spec,
        ray.num_partitions == num_partitions,
        celeborn.backend == (RepartitionBackend::<S, C>::Celeborn { shuffle_id, num_mappers }),
        celeborn.repartition_spec == repartition_spec,
        celeborn.num_partitions == num_partitions,
{
}

/// A Flight sink is made with what it is given and has no caches yet. Each of its caches may
/// use an equal share of 2000 MiB, rounded down, but at least 8 MiB and at most 128 MiB.
pub proof fn law_flight_sink_is_made_as_given<E, B, S, C>(
    num_partitions: usize,
    schema: Arc<S>,
    shuffle_id: u64,
    repartition_spec: RepartitionSpec<E, B>,
    shuffle_dirs: Vec<String>,
    compression: Option<String>,
    shuffle_address: String,
    r: Result<RepartitionSink<E, B, S, C>, CelebornError>,
)
    requires
        num_partitions > 0,
        call_ensures(
            RepartitionSink::<E, B, S, C>::try_new_flight,
            (
                num_partitions,
                schema,
                shuffle_id,
                repartition_spec,
                shuffle_dirs,
                compression,
                shuffle_address,
            ),
            r,
        ),
    ensures
        r is Ok,
        ({
            let sink = r->Ok_0;
            let mib = 1024 * 1024int;
            &&& sink.num_partitions == num_partitions
            &&& sink.repartition_spec == repartition_spec
            &&& sink.backend matches RepartitionBackend::Flight {
                shuffle_id: id,
                shuffle_dirs: dirs,
                compression: codec,
                shuffle_address: address,
                target_in_memory_size_per_partition: share,
                schema: rows,
                partitions,
            } && {
                &&& id == shuffle_id
                &&& dirs == shuffle_dirs
                &&& codec == compression
                &&& address == shuffle_address
                &&& rows == schema
                &&& forall|input: u32| !#[trigger] partitions@.contains_key(input)
                &&& 8 * mib <= share <= 128 * mib
                &&& share > 8 * mib ==> share * num_partitions <= 2000 * mib
                &&& share < 128 * mib ==> 2000 * mib < (share + 1) * num_partitions
            }
        }),
{
    law_cache_share_is_an_equal_share(num_partitions as int);
}

/// The share of a cache is the largest that all caches can have within 2000 MiB, unless that
/// is less than 8 MiB or more than 128 MiB.
pub proof fn law_cache_share_is_an_equal_share(num_partitions: int)
    requires
        num_partitions > 0,
    ensures
        ({
            let mib = 1024 * 1024int;
            let share = crate::repartition::cache_share(num_partitions);
            &&& 8 * mib <= share <= 128 * mib
            &&& share > 8 * mib ==> share * num_partitions <= 2000 * mib
            &&& share < 128 * mib ==> 2000 * mib < (share + 1) * num_partitions
        }),
{
    let total = 2000 * (1024 * 1024int);
    let equal = total / num_partitions;
    let share = crate::repartition::cache_share(num_partitions);
    assert(equal * num_partitions <= total < (equal + 1) * num_partitions) by (nonlinear_arith)
        requires
            num_partitions > 0,
            equal == total / num_partitions,
    ;
    if share > 8 * (1024 * 1024int) {
        assert(share * num_partitions <= equal * num_partitions) by (nonlinear_arith)
            requires
                num_partitions > 0,
                share <= equal,
        ;
    }
    if share < 128 * (1024 * 1024int) {
        assert((equal + 1) * num_partitions <= (share + 1) * num_partitions) by (nonlinear_arith)
            requires
                num_partitions > 0,
                equal <= share,
        ;
    }
}

/// A new Ray state has an empty group for each target partition.
pub proof fn law_new_groups_are_empty<P>(n: usize, r: RayRepartitionState<P>)
    requires
        call_ensures(RayRepartitionState::<P>::new, (n,), r),
    ensures
        r@.len() == n,
        forall|i: int| 0 <= i < n ==> (#[trigger] r@[i]).len() == 0,
{
}

/// A part is added at the end of the group of its own target partition; groups without a
/// part stay as they are, and so does the number of groups.
pub proof fn law_parts_join_their_groups<P>(
    state: &mut RayRepartitionState<P>,
    parts: Vec<P>,
    r: (),
    i: int,
)
    requires
        call_ensures(RayRepartitionState::<P>::push, (state, parts), r),
    ensures
        final(state)@.len() == old(state)@.len(),
        0 <= i < old(state)@.len() ==> final(state)@[i] == (if i < parts@.len() {
            old(state)@[i].push(parts@[i])
        } else {
            old(state)@[i]
        }),
{
}

/// The groups are taken out from the front, whole, and none is left at the end.
pub proof fn law_groups_are_taken_in_order<P>(
    state: &mut RayRepartitionState<P>,
    r: Option<Vec<P>>,
)
    requires
        call_ensures(RayRepartitionState::<P>::emit, (state,), r),
    ensures
        r is Some <==> old(state)@.len() > 0,
        r matches Some(group) ==> seq![group@] + final(state)@ == old(state)@,
        r is None ==> final(state)@ == old(state)@,
{
    if let Some(group) = r {
        assert(seq![group@] + final(state)@ =~= old(state)@);
    }
}

/// The groups that are counted are those that are there.
pub proof fn law_groups_are_counted<P>(state: RayRepartitionState<P>, count: usize)
    requires
        call_ensures(RayRepartitionState::<P>::group_count, (&state,), count),
    ensures
        count == state@.len(),
{
}

/// The parts for the caches are the first ones, in order, as many as there are caches or
/// parts.
pub proof fn law_parts_go_to_their_caches<C, P>(
    state: FlightRepartitionState<C>,
    parts: Vec<P>,
    r: Vec<P>,
)
    requires
        call_ensures(FlightRepartitionState::<C>::push::<P>, (&state, parts), r),
    ensures
        r@.len() <= parts@.len(),
        r@.len() <= state.partitions@.len(),
        r@.len() == parts@.len() || r@.len() == state.partitions@.len(),
        forall|i: int| 0 <= i < r@.len() ==> #[trigger] r@[i] == parts@[i],
{
}

/// A state takes up the parts of a batch: a Ray state keeps them all, each in its group, and
/// a Flight state hands them on, each for its cache.
pub proof fn law_states_take_up_parts<P, C>(
    state: &mut RepartitionState<P, C>,
    parts: Vec<P>,
    r: Vec<P>,
    i: int,
)
    requires
        call_ensures(RepartitionState::<P, C>::push, (state, parts), r),
    ensures
        *old(state) matches RepartitionState::Ray(before) ==> r@.len() == 0 && (
        *final(state) matches RepartitionState::Ray(after) && after@.len() == before@.len() && (0
            <= i < before@.len() ==> after@[i] == (if i < parts@.len() {
            before@[i].push(parts@[i])
        } else {
            before@[i]
        }))),
        *old(state) matches RepartitionState::Flight(before) ==> {
            &&& *final(state) == *old(state)
            &&& r@.len() == (if parts@.len() < before.partitions@.len() {
                parts@.len()
            } else {
                before.partitions@.len()
            })
            &&& 0 <= i < r@.len() ==> r@[i] == parts@[i]
        },
{
}

/// The groups that each of the states holds for target partition `i`.
pub open spec fn groups_at<P>(states: Seq<Seq<Seq<P>>>, i: int) -> Seq<Seq<P>> {
    Seq::new(states.len(), |k: int| states[k][i])
}

/// What is gathered for a target partition is what the states hold for it, put together
/// state by state.
pub proof fn law_gathered_is_put_together<P>(states: Seq<Seq<Seq<P>>>, i: int)
    ensures
        crate::repartition::gathered(states, i) == groups_at(states, i).flatten(),
    decreases states.len(),
{
    if states.len() > 0 {
        let init = states.drop_last();
        law_gathered_is_put_together(init, i);
        assert(groups_at(states, i) =~= groups_at(init, i).push(states.last()[i]));
        groups_at(init, i).lemma_flatten_push(states.last()[i]);
    }
}

/// The same of the groups that are gathered out of Ray states.
pub proof fn law_groups_are_gathered_in_full<P>(
    states: Vec<RayRepartitionState<P>>,
    num_partitions: usize,
    r: Vec<Vec<P>>,
    i: int,
)
    requires
        call_ensures(gather_groups::<P>, (states, num_partitions), r),
    ensures
        r@.len() == num_partitions,
        0 <= i < num_partitions ==> r@[i]@ == groups_at(
            Seq::new(states@.len(), |k: int| states@[k]@),
            i,
        ).flatten(),
{
    let held = Seq::new(states@.len(), |k: int| states@[k]@);
    assert(held =~= crate::repartition::ray_views(states@));
    law_gathered_is_put_together(held, i);
}

/// The groups of states that are all Ray states.
pub open spec fn ray_held<P, C>(states: Seq<RepartitionState<P, C>>) -> Seq<Seq<Seq<P>>> {
    Seq::new(states.len(), |k: int| states[k]->Ray_0@)
}

/// What states hold that are all Celeborn states.
pub open spec fn celeborn_held<P, C>(states: Seq<RepartitionState<P, C>>) -> Seq<SinkStateView> {
    Seq::new(states.len(), |k: int| states[k]->Celeborn_0@)
}

/// What a conclusion does with the states of a sink. Ray states are merged into one partition
/// for each target, with all that the states hold for it, state by state. The caches of the
/// first Flight state are closed, for the shuffle of the sink. Celeborn states are concluded
/// all together, in order, with nothing registered or ended yet.
pub open spec fn plan_is<E, B, S, C, P>(
    sink: RepartitionSink<E, B, S, C>,
    states: Seq<RepartitionState<P, C>>,
    plan: FinalizePlan<P, C>,
) -> bool {
    match plan {
        FinalizePlan::Merge(merged) => {
            &&& sink.backend is Ray
            &&& merged@.len() == sink.num_partitions
            &&& forall|i: int|
                0 <= i < sink.num_partitions ==> (#[trigger] merged@[i])@ == groups_at(
                    ray_held(states),
                    i,
                ).flatten()
        },
        FinalizePlan::Close { shuffle_id, caches } => {
            &&& sink.backend is Flight
            &&& shuffle_id == sink.backend->Flight_shuffle_id
            &&& states[0] matches RepartitionState::Flight(first) && caches == first.partitions
        },
        FinalizePlan::Conclude(task) => {
            &&& sink.backend is Celeborn
            &&& task.inv()
            &&& task@.wf()
            &&& task@.states == celeborn_held(states)
            &&& task@.num_partitions == sink.num_partitions
            &&& task@.ended == 0
            &&& !task@.failed
            &&& forall|id: u64| !#[trigger] task@.registered.contains(id)
        },
    }
}

/// Why states cannot be concluded.
pub open spec fn refused_for<E, B, S, C, P>(
    sink: RepartitionSink<E, B, S, C>,
    states: Seq<RepartitionState<P, C>>,
    refusal: FinalizeRefusal,
) -> bool {
    let of_kind = forall|k: int| 0 <= k < states.len() ==> is_of(#[trigger] states[k], sink.backend);
    match refusal {
        FinalizeRefusal::Mismatch => !of_kind,
        FinalizeRefusal::MissingGroup => of_kind && sink.backend is Ray && exists|k: int|
            0 <= k < states.len() && (#[trigger] states[k])->Ray_0@.len() < sink.num_partitions,
        FinalizeRefusal::NoState => sink.backend is Flight && states.len() == 0,
        FinalizeRefusal::CounterOverflow => of_kind && sink.backend is Celeborn
            && !crate::sink_laws::sums_fit(celeborn_held(states), sink.num_partitions as int),
    }
}

proof fn lemma_finalize<E, B, S, C, P>(
    sink: RepartitionSink<E, B, S, C>,
    states: Seq<RepartitionState<P, C>>,
)
    ensures
        sink.refusal(states) matches Some(refusal) ==> refused_for(sink, states, refusal),
        forall|refusal: FinalizeRefusal|
            #[trigger] refused_for(sink, states, refusal) ==> sink.refusal(states) == Some(refusal),
        forall|plan: FinalizePlan<P, C>|
            sink.refusal(states) is None && #[trigger] sink.concludes(states, plan) ==> plan_is(
                sink,
                states,
                plan,
            ),
{
    assert forall|k: int| 0 <= k < states.len() implies sink.matches_state(#[trigger] states[k])
        == is_of(states[k], sink.backend) by {}
    let of_kind = forall|k: int| 0 <= k < states.len() ==> is_of(#[trigger] states[k], sink.backend);
    assert(of_kind == (forall|k: int|
        0 <= k < states.len() ==> sink.matches_state(#[trigger] states[k]))) by {
        if of_kind {
            assert forall|k: int| 0 <= k < states.len() implies sink.matches_state(
                #[trigger] states[k],
            ) by {
                assert(is_of(states[k], sink.backend));
            }
        }
        if forall|k: int| 0 <= k < states.len() ==> sink.matches_state(#[trigger] states[k]) {
            assert forall|k: int| 0 <= k < states.len() implies is_of(
                #[trigger] states[k],
                sink.backend,
            ) by {
                assert(sink.matches_state(states[k]));
            }
        }
    }
    assert(ray_held(states) =~= crate::repartition::ray_groups(states));
    assert(celeborn_held(states) =~= crate::repartition::celeborn_views(states));
    crate::sink_laws::lemma_metas(celeborn_held(states), sink.num_partitions as nat);
    assert forall|i: int| #[trigger] crate::repartition::gathered(ray_held(states), i)
        == groups_at(ray_held(states), i).flatten() by {
        law_gathered_is_put_together(ray_held(states), i);
    }
    assert forall|plan: FinalizePlan<P, C>|
        sink.refusal(states) is None && #[trigger] sink.concludes(states, plan) implies plan_is(
        sink,
        states,
        plan,
    ) by {
        if sink.backend is Flight {
            assert(sink.matches_state(states[0]));
        }
        if sink.backend is Ray {
            let merged = plan->Merge_0;
            assert forall|i: int| 0 <= i < sink.num_partitions implies (#[trigger] merged@[i])@
                == groups_at(ray_held(states), i).flatten() by {
                assert(crate::repartition::gathered(ray_held(states), i) == groups_at(
                    ray_held(states),
                    i,
                ).flatten());
            }
        }
    }
}

/// The states at the end of the input are concluded in full, or refused for a reason that
/// holds; and whenever a reason holds they are refused for it.
pub proof fn law_states_are_concluded_or_refused<E, B, S, C, P>(
    sink: RepartitionSink<E, B, S, C>,
    states: Vec<RepartitionState<P, C>>,
    r: Result<FinalizePlan<P, C>, FinalizeRefusal>,
)
    requires
        call_ensures(RepartitionSink::<E, B, S, C>::try_finalize::<P>, (&sink, states), r),
    ensures
        match r {
            Ok(plan) => plan_is(sink, states@, plan),
            Err(refusal) => refused_for(sink, states@, refusal),
        },
        forall|refusal: FinalizeRefusal|
            #[trigger] refused_for(sink, states@, refusal) ==> r == Err::<
                FinalizePlan<P, C>,
                FinalizeRefusal,
            >(refusal),
{
    lemma_finalize(sink, states@);
}

/// The same where no reason for a refusal holds: that is all that a conclusion asks for.
pub proof fn law_states_are_concluded<E, B, S, C, P>(
    sink: RepartitionSink<E, B, S, C>,
    states: Vec<RepartitionState<P, C>>,
    plan: FinalizePlan<P, C>,
)
    requires
        forall|refusal: FinalizeRefusal| !#[trigger] refused_for(sink, states@, refusal),
        call_ensures(RepartitionSink::<E, B, S, C>::finalize::<P>, (&sink, states), plan),
    ensures
        call_requires(RepartitionSink::<E, B, S, C>::finalize::<P>, (&sink, states)),
        plan_is(sink, states@, plan),
{
    lemma_finalize(sink, states@);
    if sink.refusal(states@) is Some {
        assert(refused_for(sink, states@, sink.refusal(states@)->0));
    }
}

/// The state of an input. That of a Ray sink has an empty group for each target partition.
/// That of a Celeborn sink belongs to the sink's shuffle and to the map task of the input,
/// and starts from nothing. That of a Flight sink has the caches of the input; where there
/// are none yet, one is to be created for each target partition, in order, with the sink's
/// schema, directories, shuffle, share of memory and compression.
pub proof fn law_states_are_made_for_the_sink<E, B, S, C, P>(
    sink: RepartitionSink<E, B, S, C>,
    input_id: u32,
    r: StatePlan<'_, P, S, C>,
    i: int,
)
    requires
        call_ensures(RepartitionSink::<E, B, S, C>::make_state::<P>, (&sink, input_id), r),
    ensures
        sink.backend is Ray ==> (r matches StatePlan::Ready(RepartitionState::Ray(state))
            && state@.len() == sink.num_partitions && (0 <= i < sink.num_partitions ==> state@[i].len()
            == 0)),
        sink.backend matches RepartitionBackend::Celeborn { shuffle_id, num_mappers } ==> (
        r matches StatePlan::Ready(RepartitionState::Celeborn(state)) && {
            &&& state@.shuffle_id == shuffle_id
            &&& state@.map_id == input_id
            &&& state@.attempt_id == 0
            &&& state@.num_mappers == num_mappers
            &&& !state@.registered
            &&& state@.rows.len() == sink.num_partitions
            &&& state@.bytes.len() == sink.num_partitions
            &&& 0 <= i < sink.num_partitions ==> state@.rows[i] == 0 && state@.bytes[i] == 0
            &&& sink.num_partitions <= u32::MAX ==> state@.num_partitions == sink.num_partitions
        }),
        sink.backend matches RepartitionBackend::Flight {
            shuffle_id,
            shuffle_dirs,
            compression,
            target_in_memory_size_per_partition,
            schema,
            partitions,
            ..
        } ==> if partitions@.contains_key(input_id) {
            r matches StatePlan::Ready(RepartitionState::Flight(state)) && state.partitions
                == partitions@[input_id]
        } else {
            r matches StatePlan::CreateCaches(specs) && {
                &&& specs@.len() == sink.num_partitions
                &&& 0 <= i < sink.num_partitions ==> {
                    &&& specs@[i].input_id == input_id
                    &&& specs@[i].partition_idx == i
                    &&& *specs@[i].schema == schema
                    &&& *specs@[i].shuffle_dirs == shuffle_dirs
                    &&& specs@[i].shuffle_id == shuffle_id
                    &&& specs@[i].target_in_memory_size == target_in_memory_size_per_partition
                    &&& *specs@[i].compression == compression
                }
            }
        },
{
    if sink.backend is Flight {
        if let StatePlan::CreateCaches(specs) = r {
            if 0 <= i < sink.num_partitions {
                assert(specs@[i].partition_idx == i);
            }
        }
    }
}

/// Created caches become those of their input, and of no other; the rest of the sink stays
/// as it is. A failure is passed on and changes nothing.
pub proof fn law_created_caches_are_kept<E, B, S, C, P, X>(
    sink: &mut RepartitionSink<E, B, S, C>,
    input_id: u32,
    created: Result<Vec<C>, X>,
    r: Result<RepartitionState<P, C>, X>,
    other: u32,
)
    requires
        call_ensures(
            RepartitionSink::<E, B, S, C>::install_caches::<P, X>,
            (sink, input_id, created),
            r,
        ),
    ensures
        created matches Err(error) ==> r == Err::<RepartitionState<P, C>, X>(error) && *final(sink)
            == *old(sink),
        created matches Ok(caches) ==> {
            &&& r matches Ok(RepartitionState::Flight(state)) && state.partitions@ == caches@
            &&& final(sink).num_partitions == old(sink).num_partitions
            &&& final(sink).repartition_spec == old(sink).repartition_spec
            &&& final(sink).backend is Flight
            &&& final(sink).backend->Flight_shuffle_id == old(sink).backend->Flight_shuffle_id
            &&& final(sink).backend->shuffle_address == old(sink).backend->shuffle_address
            &&& final(sink).backend->schema == old(sink).backend->schema
            &&& final(sink).backend->shuffle_dirs == old(sink).backend->shuffle_dirs
            &&& final(sink).backend->compression == old(sink).backend->compression
            &&& final(sink).backend->target_in_memory_size_per_partition == old(
                sink,
            ).backend->target_in_memory_size_per_partition
            &&& final(sink).backend->partitions@.contains_key(input_id)
            &&& final(sink).backend->partitions@[input_id]@ == caches@
            &&& other != input_id ==> final(sink).backend->partitions@.contains_key(other) == old(
                sink,
            ).backend->partitions@.contains_key(other) && final(sink).backend->partitions@[other]
                == old(sink).backend->partitions@[other]
        },
{
}

/// The closed partitions of a sink are offered for its shuffle at its address, each with its
/// own identifier, rows and size.
pub proof fn law_sink_offers_its_partitions<E, B, S, C>(
    sink: RepartitionSink<E, B, S, C>,
    finalized: Vec<FinalizedPartition>,
    r: Vec<FlightPartitionRef>,
    i: int,
)
    requires
        sink.backend is Flight,
        call_ensures(
            RepartitionSink::<E, B, S, C>::flight_partition_refs,
            (&sink, &finalized),
            r,
        ),
    ensures
        r@.len() == finalized@.len(),
        0 <= i < finalized@.len() ==> {
            &&& r@[i].shuffle_id == sink.backend->Flight_shuffle_id
            &&& r@[i].server_address == sink.backend->shuffle_address
            &&& r@[i].partition_ref_id == finalized@[i].partition_ref_id
            &&& r@[i].num_rows == finalized@[i].num_rows
            &&& r@[i].size_bytes == finalized@[i].size_bytes
        },
{
}

/// The texts of keys.
pub open spec fn shown_keys<E>(by: Seq<crate::repartition::KeyExpr<E>>) -> Seq<Seq<char>> {
    Seq::new(by.len(), |i: int| by[i].text@)
}

/// A sink is named after its backend, and displayed on one line with its name, how it splits,
/// all its keys where it splits by hash, and the number of its partitions.
pub proof fn law_sink_is_displayed<E, B, S, C>(
    sink: RepartitionSink<E, B, S, C>,
    backend: &'static str,
    name: String,
    lines: Vec<String>,
)
    requires
        call_ensures(RepartitionBackend::<S, C>::name, (&sink.backend,), backend),
        call_ensures(RepartitionSink::<E, B, S, C>::name, (&sink,), name),
        call_ensures(RepartitionSink::<E, B, S, C>::multiline_display, (&sink,), lines),
    ensures
        sink.backend is Ray ==> backend@ == "Ray"@,
        sink.backend is Flight ==> backend@ == "Flight"@,
        sink.backend is Celeborn ==> backend@ == "Celeborn"@,
        name@ == "Repartition("@ + backend@ + ")"@,
        lines@.len() == 1,
        sink.repartition_spec matches RepartitionSpec::Hash { by } ==> lines@[0]@
            == "Repartition("@ + backend@ + "): "@ + ("By "@ + crate::text::joined(
            shown_keys(by@),
            ", "@,
        )) + " into "@ + crate::text::decimal(sink.num_partitions as nat) + " partitions"@,
        sink.repartition_spec is Random ==> lines@[0]@ == "Repartition("@ + backend@ + "): "@
            + "Random"@ + " into "@ + crate::text::decimal(sink.num_partitions as nat)
            + " partitions"@,
        sink.repartition_spec is Range ==> lines@[0]@ == "Repartition("@ + backend@ + "): "@
            + "Range"@ + " into "@ + crate::text::decimal(sink.num_partitions as nat)
            + " partitions"@,
{
    let texts = crate::text::texts(lines@);
    assert(texts.len() == lines@.len());
    assert(texts[0] == lines@[0]@);
    if let RepartitionSpec::Hash { by } = sink.repartition_spec {
        assert(shown_keys(by@) =~= crate::repartition::key_texts(by@));
    }
}

} // verus!
