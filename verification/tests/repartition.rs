use std::sync::Arc;

use celeborn_shuffle::celeborn_sink::{
    aggregate, ended_attempts, try_aggregate, CelebornRepartitionState, CelebornSinkTask,
    FinalizeAction, MapperAttempt, SinkAction, SinkEvent,
};
use celeborn_shuffle::repartition::{
    FinalizePlan, FinalizeRefusal, FlightRepartitionState, KeyExpr, NodeType, PartitionRequest,
    RayRepartitionState, RepartitionBackend, RepartitionSink, RepartitionSpec, RepartitionState,
    StatePlan,
};
use celeborn_shuffle::partition_refs::FinalizedPartition;
use celeborn_shuffle::shuffle_metadata::ShufflePartitionMeta;

type Spec = RepartitionSpec<u8, &'static str>;
type Schema = &'static str;
type Sink = RepartitionSink<u8, &'static str, Schema, char>;
type State = RepartitionState<i32, char>;

fn key(expr: u8, text: &str) -> KeyExpr<u8> {
    KeyExpr {
        expr,
        text: text.to_string(),
    }
}

fn hash_spec() -> Spec {
    RepartitionSpec::Hash {
        by: Arc::new(vec![key(1, "col(a)"), key(2, "col(b) + 1")]),
    }
}

fn range_spec() -> Spec {
    RepartitionSpec::Range {
        by: Arc::new(vec![key(3, "col(c)")]),
        boundaries: Arc::new("bounds"),
        descending: Arc::new(vec![true]),
    }
}

fn flight_sink(num_partitions: usize, spec: Spec) -> Sink {
    Sink::try_new_flight(
        num_partitions,
        Arc::new("schema"),
        77,
        spec,
        vec!["/tmp/x".to_string()],
        None,
        "addr:1".to_string(),
    )
    .unwrap()
}

fn install(sink: &mut Sink, input_id: u32, caches: Vec<char>) -> State {
    sink.install_caches::<i32, String>(input_id, Ok(caches))
        .unwrap()
}

fn ready(plan: StatePlan<'_, i32, Schema, char>) -> State {
    match plan {
        StatePlan::Ready(state) => state,
        other => panic!("unexpected plan {other:?}"),
    }
}

fn attempt(shuffle_id: u64, map_id: u32) -> MapperAttempt {
    MapperAttempt {
        shuffle_id,
        map_id,
        attempt_id: 0,
    }
}

/// Runs a batch in which everything succeeds. Returns the state after it, the actions
/// other than pushes, and the pushes.
fn run_batch(
    state: CelebornRepartitionState,
    rows: Vec<usize>,
    blocks: &[&[u8]],
) -> (CelebornRepartitionState, usize, Vec<(MapperAttempt, u32, Vec<u8>)>) {
    let (mut task, mut action) = CelebornSinkTask::start(state);
    let mut registrations = 0;
    let mut pushes = Vec::new();
    loop {
        let event = match action {
            SinkAction::Register { .. } => {
                registrations += 1;
                SinkEvent::Registered
            }
            SinkAction::Partition => SinkEvent::Partitioned(rows.clone()),
            SinkAction::Serialize { partition_idx } => {
                SinkEvent::Serialized(blocks[partition_idx].to_vec())
            }
            SinkAction::Push {
                attempt,
                partition_id,
                data,
            } => {
                pushes.push((attempt, partition_id, data));
                SinkEvent::Pushed
            }
            SinkAction::Finish => return (task.into_state(), registrations, pushes),
        };
        action = task.step(event);
    }
}

#[test]
fn ray_state_groups_parts_by_partition() {
    let mut state: RayRepartitionState<i32> = RayRepartitionState::new(3);
    state.push(vec![1, 2, 3]);
    state.push(vec![4, 5]);
    state.push(vec![6, 7, 8, 9]);
    assert_eq!(state.group_count(), 3);
    assert_eq!(state.emit(), Some(vec![1, 4, 6]));
    assert_eq!(state.group_count(), 2);
    assert_eq!(state.emit(), Some(vec![2, 5, 7]));
    assert_eq!(state.emit(), Some(vec![3, 8]));
    assert_eq!(state.emit(), None);
    state.push(vec![1]);
    assert_eq!(state.emit(), None);
}

#[test]
fn flight_state_pairs_parts_with_caches() {
    let state = FlightRepartitionState {
        partitions: Arc::new(vec!['a', 'b']),
    };
    assert_eq!(state.push(vec![1, 2, 3]), vec![1, 2]);
    assert_eq!(state.push(vec![1]), vec![1]);
}

#[test]
fn states_take_up_parts_by_backend() {
    let mut ray: State = RepartitionState::Ray(RayRepartitionState::new(1));
    assert!(ray.push(vec![5]).is_empty());
    match &mut ray {
        RepartitionState::Ray(state) => assert_eq!(state.emit(), Some(vec![5])),
        other => panic!("unexpected state {other:?}"),
    }
    let mut flight: State = RepartitionState::Flight(FlightRepartitionState {
        partitions: Arc::new(vec!['a']),
    });
    assert_eq!(flight.push(vec![5, 6]), vec![5]);
}

#[test]
fn names_and_display() {
    let ray = Sink::new_ray(hash_spec(), 4);
    assert_eq!(ray.name(), "Repartition(Ray)");
    assert_eq!(ray.op_type(), NodeType::Repartition);
    assert_eq!(
        ray.multiline_display(),
        vec!["Repartition(Ray): By col(a), col(b) + 1 into 4 partitions".to_string()]
    );
    let flight = flight_sink(16, RepartitionSpec::Random { seed: None });
    assert_eq!(flight.name(), "Repartition(Flight)");
    assert_eq!(
        flight.multiline_display(),
        vec!["Repartition(Flight): Random into 16 partitions".to_string()]
    );
    let celeborn = Sink::new_celeborn(0, 1, 1, range_spec());
    assert_eq!(celeborn.name(), "Repartition(Celeborn)");
    assert_eq!(
        celeborn.multiline_display(),
        vec!["Repartition(Celeborn): Range into 0 partitions".to_string()]
    );
    let keyless = Sink::new_ray(RepartitionSpec::Hash { by: Arc::new(vec![]) }, 1);
    assert_eq!(
        keyless.multiline_display(),
        vec!["Repartition(Ray): By  into 1 partitions".to_string()]
    );
}

#[test]
fn cache_share_is_clamped() {
    let share = |n: usize| match flight_sink(n, hash_spec()).backend {
        RepartitionBackend::Flight {
            target_in_memory_size_per_partition,
            ..
        } => target_in_memory_size_per_partition,
        other => panic!("unexpected backend {other:?}"),
    };
    assert_eq!(share(1), 1024 * 1024 * 128);
    assert_eq!(share(15), 1024 * 1024 * 128);
    assert_eq!(share(16), 1024 * 1024 * 125);
    assert_eq!(share(250), 1024 * 1024 * 8);
    assert_eq!(share(251), 1024 * 1024 * 8);
    assert_eq!(share(usize::MAX), 1024 * 1024 * 8);
}

#[test]
fn splits_follow_the_specification() {
    let ray = Sink::new_ray(hash_spec(), 4);
    let state = ready(ray.make_state(0));
    match ray.sink(&state) {
        PartitionRequest::Hash { by, num_partitions } => {
            assert_eq!(num_partitions, 4);
            assert_eq!(by.len(), 2);
            assert_eq!(by[0].expr, 1);
            assert_eq!(by[1].expr, 2);
        }
        other => panic!("unexpected request {other:?}"),
    }
    let ray = Sink::new_ray(range_spec(), 4);
    let state = ready(ray.make_state(0));
    match ray.sink(&state) {
        PartitionRequest::Range {
            by,
            boundaries,
            descending,
        } => {
            assert_eq!(by[0].expr, 3);
            assert_eq!(*boundaries, "bounds");
            assert_eq!(*descending, vec![true]);
        }
        other => panic!("unexpected request {other:?}"),
    }
}

#[test]
fn celeborn_random_split_ignores_the_seed() {
    let seed_of = |sink: &Sink| {
        let state = ready(sink.make_state(0));
        match sink.sink(&state) {
            PartitionRequest::Random {
                num_partitions,
                seed,
            } => (num_partitions, seed),
            other => panic!("unexpected request {other:?}"),
        }
    };
    let seeded = || RepartitionSpec::Random { seed: Some(9) };
    assert_eq!(seed_of(&Sink::new_ray(seeded(), 2)), (2, 9));
    assert_eq!(
        seed_of(&Sink::new_ray(RepartitionSpec::Random { seed: None }, 2)),
        (2, 0)
    );
    assert_eq!(seed_of(&Sink::new_celeborn(3, 1, 1, seeded())), (3, 0));
}

#[test]
fn flight_states_of_an_input_share_their_caches() {
    let mut sink = flight_sink(2, hash_spec());
    {
        let plan: StatePlan<'_, i32, Schema, char> = sink.make_state(8);
        let specs = match plan {
            StatePlan::CreateCaches(specs) => specs,
            other => panic!("unexpected plan {other:?}"),
        };
        assert_eq!(specs.len(), 2);
        for (i, spec) in specs.iter().enumerate() {
            assert_eq!(spec.input_id, 8);
            assert_eq!(spec.partition_idx, i);
            assert_eq!(spec.shuffle_id, 77);
            assert_eq!(**spec.schema, "schema");
            assert_eq!(spec.shuffle_dirs, &vec!["/tmp/x".to_string()]);
            assert_eq!(spec.target_in_memory_size, 1024 * 1024 * 128);
            assert!(spec.compression.is_none());
        }
    }
    let created = install(&mut sink, 8, vec!['p', 'q']);
    let again = ready(sink.make_state(8));
    match (created, again) {
        (RepartitionState::Flight(a), RepartitionState::Flight(b)) => {
            assert!(Arc::ptr_eq(&a.partitions, &b.partitions));
            assert_eq!(*a.partitions, vec!['p', 'q']);
        }
        other => panic!("unexpected states {other:?}"),
    }
    let other: StatePlan<'_, i32, Schema, char> = sink.make_state(9);
    assert!(matches!(other, StatePlan::CreateCaches(specs) if specs.len() == 2));
}

#[test]
fn ray_finalize_merges_by_partition() {
    let sink = Sink::new_ray(hash_spec(), 2);
    let mut first = ready(sink.make_state(0));
    let mut second = ready(sink.make_state(1));
    first.push(vec![1, 2]);
    first.push(vec![3, 4]);
    second.push(vec![5, 6]);
    match sink.finalize(vec![first, second]) {
        FinalizePlan::Merge(merged) => assert_eq!(merged, vec![vec![1, 3, 5], vec![2, 4, 6]]),
        other => panic!("unexpected plan {other:?}"),
    }
    let none: Vec<State> = vec![];
    match sink.finalize(none) {
        FinalizePlan::Merge(merged) => assert_eq!(merged, vec![vec![], vec![]]),
        other => panic!("unexpected plan {other:?}"),
    }
}

#[test]
fn flight_finalize_closes_the_caches() {
    let mut sink = flight_sink(2, hash_spec());
    let state = install(&mut sink, 0, vec!['p', 'q']);
    match sink.finalize(vec![state]) {
        FinalizePlan::Close { shuffle_id, caches } => {
            assert_eq!(shuffle_id, 77);
            assert_eq!(*caches, vec!['p', 'q']);
        }
        other => panic!("unexpected plan {other:?}"),
    }
}

#[test]
fn celeborn_state_starts_at_zero() {
    let sink = Sink::new_celeborn(3, 70, 2, hash_spec());
    match ready(sink.make_state(5)) {
        RepartitionState::Celeborn(state) => {
            assert_eq!(state.attempt(), attempt(70, 5));
            assert!(!state.is_registered());
            assert_eq!(state.rows_per_partition(), &vec![0, 0, 0]);
            assert_eq!(state.bytes_per_partition(), &vec![0, 0, 0]);
        }
        other => panic!("unexpected state {other:?}"),
    }
}

#[test]
fn first_batch_registers_with_the_sizes_of_the_shuffle() {
    let state = CelebornRepartitionState::new(70, 5, 2, 3);
    let (_, action) = CelebornSinkTask::start(state);
    assert!(matches!(
        action,
        SinkAction::Register {
            shuffle_id: 70,
            num_mappers: 2,
            num_partitions: 3
        }
    ));
}

#[test]
fn batches_push_nonempty_partitions_and_count() {
    let state = CelebornRepartitionState::new(70, 5, 2, 4);
    let blocks: [&[u8]; 4] = [b"", b"bb", b"", b"dddd"];
    let (state, registrations, pushes) = run_batch(state, vec![0, 3, 0, 5], &blocks);
    assert_eq!(registrations, 1);
    assert_eq!(
        pushes,
        vec![
            (attempt(70, 5), 1, b"bb".to_vec()),
            (attempt(70, 5), 3, b"dddd".to_vec()),
        ]
    );
    assert!(state.is_registered());
    assert_eq!(state.rows_per_partition(), &vec![0, 3, 0, 5]);
    assert_eq!(state.bytes_per_partition(), &vec![0, 2, 0, 4]);

    let blocks: [&[u8]; 4] = [b"a", b"b", b"", b""];
    let (state, registrations, pushes) = run_batch(state, vec![1, 1, 0, 0], &blocks);
    assert_eq!(registrations, 0);
    assert_eq!(pushes.len(), 2);
    assert_eq!(state.rows_per_partition(), &vec![1, 4, 0, 5]);
    assert_eq!(state.bytes_per_partition(), &vec![1, 3, 0, 4]);

    let (state, _, pushes) = run_batch(state, vec![0, 0, 0, 0], &[]);
    assert!(pushes.is_empty());
    assert_eq!(state.rows_per_partition(), &vec![1, 4, 0, 5]);
}

#[test]
fn each_attempt_is_ended_once() {
    let states = vec![
        CelebornRepartitionState::new(1, 0, 2, 1),
        CelebornRepartitionState::new(1, 1, 2, 1),
        CelebornRepartitionState::new(1, 0, 2, 1),
        CelebornRepartitionState::new(2, 0, 2, 1),
        CelebornRepartitionState::new(1, 1, 2, 1),
    ];
    assert_eq!(
        ended_attempts(&states),
        vec![attempt(1, 0), attempt(1, 1), attempt(2, 0)]
    );
}

#[test]
fn metadata_adds_up_over_states() {
    let (a, _, _) = run_batch(
        CelebornRepartitionState::new(1, 0, 1, 2),
        vec![3, 1],
        &[b"aaa", b"b"],
    );
    let (b, _, _) = run_batch(
        CelebornRepartitionState::new(1, 0, 1, 2),
        vec![0, 4],
        &[b"", b"bbbbb"],
    );
    assert_eq!(
        aggregate(&vec![a, b], 3),
        vec![
            ShufflePartitionMeta::new(3, 3),
            ShufflePartitionMeta::new(5, 6),
            ShufflePartitionMeta::new(0, 0),
        ]
    );
}

#[test]
fn celeborn_finalize_reports_after_all_ends() {
    let sink = Sink::new_celeborn(2, 70, 2, hash_spec());
    let mut states: Vec<State> = Vec::new();
    for input in [0u32, 0, 1] {
        match ready(sink.make_state(input)) {
            RepartitionState::Celeborn(state) => {
                let (state, _, _) = run_batch(state, vec![1, 0], &[b"xy", b""]);
                states.push(RepartitionState::Celeborn(state));
            }
            other => panic!("unexpected state {other:?}"),
        }
    }
    let mut task = match sink.finalize(states) {
        FinalizePlan::Conclude(task) => task,
        other => panic!("unexpected plan {other:?}"),
    };
    let mut ended = Vec::new();
    let metas = loop {
        match task.next() {
            FinalizeAction::EndMapper(attempt) => {
                ended.push(attempt);
                task.mapper_ended();
            }
            FinalizeAction::Report(metas) => break metas,
            other => panic!("unexpected action {other:?}"),
        }
    };
    assert_eq!(ended, vec![attempt(70, 0), attempt(70, 1)]);
    assert_eq!(
        metas,
        vec![
            ShufflePartitionMeta::new(3, 6),
            ShufflePartitionMeta::new(0, 0)
        ]
    );
}

#[test]
fn empty_partitions_beyond_the_counters_are_skipped() {
    let state = CelebornRepartitionState::new(70, 5, 2, 1);
    let (state, _, pushes) = run_batch(state, vec![2, 0, 0], &[b"xyz", b"", b""]);
    assert_eq!(pushes, vec![(attempt(70, 5), 0, b"xyz".to_vec())]);
    assert_eq!(state.rows_per_partition(), &vec![2]);
    assert_eq!(state.bytes_per_partition(), &vec![3]);
}

#[test]
fn tasks_accept_the_answers_to_their_actions() {
    let state = CelebornRepartitionState::new(70, 5, 2, 2);
    let (mut task, _) = CelebornSinkTask::start(state);
    assert!(task.accepts(&SinkEvent::Registered));
    assert!(!task.accepts(&SinkEvent::Partitioned(vec![1, 1])));
    assert!(!task.accepts(&SinkEvent::Serialized(vec![1])));
    assert!(!task.accepts(&SinkEvent::Pushed));
    task.step(SinkEvent::Registered);
    assert!(!task.accepts(&SinkEvent::Registered));
    assert!(task.accepts(&SinkEvent::Partitioned(vec![usize::MAX, 0, 0])));
    assert!(!task.accepts(&SinkEvent::Partitioned(vec![0, 0, 1])));
    task.step(SinkEvent::Partitioned(vec![usize::MAX, 0]));
    assert!(task.accepts(&SinkEvent::Serialized(vec![1])));
    task.step(SinkEvent::Serialized(vec![1]));
    assert!(task.accepts(&SinkEvent::Pushed));
    assert!(matches!(task.step(SinkEvent::Pushed), SinkAction::Finish));
    let (task, action) = CelebornSinkTask::start(task.into_state());
    assert!(matches!(action, SinkAction::Partition));
    assert!(task.accepts(&SinkEvent::Partitioned(vec![0, 7])));
    assert!(!task.accepts(&SinkEvent::Partitioned(vec![1, 7])));
}

#[test]
fn counters_that_do_not_add_up_are_not_reported() {
    let full = || {
        run_batch(
            CelebornRepartitionState::new(1, 0, 1, 2),
            vec![usize::MAX, 1],
            &[b"a", b"b"],
        )
        .0
    };
    assert_eq!(
        try_aggregate(&vec![full()], 2),
        Some(vec![
            ShufflePartitionMeta::new(usize::MAX, 1),
            ShufflePartitionMeta::new(1, 1),
        ])
    );
    assert_eq!(try_aggregate(&vec![full(), full()], 2), None);
    assert_eq!(try_aggregate(&vec![full()], 1), None);
    assert_eq!(try_aggregate(&vec![], 0), Some(vec![]));
}

#[test]
fn states_that_cannot_be_concluded_are_refused() {
    let ray = Sink::new_ray(hash_spec(), 2);
    let celeborn = Sink::new_celeborn(2, 70, 2, hash_spec());
    let mut flight = flight_sink(2, hash_spec());
    let none = || -> Vec<State> { vec![] };
    let refusal = |r: Result<FinalizePlan<i32, char>, FinalizeRefusal>| r.err();
    assert_eq!(refusal(ray.try_finalize(none())), None);
    assert_eq!(refusal(celeborn.try_finalize(none())), None);
    assert_eq!(
        refusal(flight.try_finalize(none())),
        Some(FinalizeRefusal::NoState)
    );
    let mismatch = Some(FinalizeRefusal::Mismatch);
    assert_eq!(
        refusal(ray.try_finalize(vec![ready(celeborn.make_state(0))])),
        mismatch
    );
    assert_eq!(
        refusal(celeborn.try_finalize(vec![ready(ray.make_state(0))])),
        mismatch
    );
    assert_eq!(
        refusal(flight.try_finalize(vec![ready(ray.make_state(0))])),
        mismatch
    );
    let cached = install(&mut flight, 0, vec!['p', 'q']);
    assert_eq!(refusal(flight.try_finalize(vec![cached])), None);

    let mut emptied = ready(ray.make_state(0));
    match &mut emptied {
        RepartitionState::Ray(state) => assert!(state.emit().is_some()),
        other => panic!("unexpected state {other:?}"),
    }
    assert_eq!(
        refusal(ray.try_finalize(vec![emptied])),
        Some(FinalizeRefusal::MissingGroup)
    );

    let full = || {
        let state = CelebornRepartitionState::new(70, 0, 2, 2);
        RepartitionState::Celeborn(run_batch(state, vec![usize::MAX, 0], &[b"a", b""]).0)
    };
    assert_eq!(refusal(celeborn.try_finalize(vec![full()])), None);
    assert_eq!(
        refusal(celeborn.try_finalize(vec![full(), full()])),
        Some(FinalizeRefusal::CounterOverflow)
    );
}

#[test]
fn failed_cache_creation_is_not_remembered() {
    let mut sink = flight_sink(2, hash_spec());
    let failed: Result<State, String> = sink.install_caches(8, Err("no space".to_string()));
    assert_eq!(failed.err(), Some("no space".to_string()));
    let plan: StatePlan<'_, i32, Schema, char> = sink.make_state(8);
    assert!(matches!(plan, StatePlan::CreateCaches(specs) if specs.len() == 2));
    install(&mut sink, 8, vec!['p', 'q']);
    install(&mut sink, 9, vec!['r', 's']);
    match ready(sink.make_state(8)) {
        RepartitionState::Flight(state) => assert_eq!(*state.partitions, vec!['p', 'q']),
        other => panic!("unexpected state {other:?}"),
    }
}

#[test]
fn flight_refs_name_the_shuffle_and_server_of_the_sink() {
    let sink = flight_sink(2, hash_spec());
    let refs = sink.flight_partition_refs(&vec![FinalizedPartition {
        partition_ref_id: 5,
        num_rows: 6,
        size_bytes: 7,
    }]);
    assert_eq!(refs.len(), 1);
    assert_eq!(refs[0].shuffle_id, 77);
    assert_eq!(refs[0].server_address, "addr:1");
    assert_eq!(refs[0].partition_ref_id, 5);
    assert_eq!(refs[0].num_rows, 6);
    assert_eq!(refs[0].size_bytes, 7);
}

#[test]
fn inputs_without_data_are_registered_before_their_end() {
    let sink = Sink::new_celeborn(3, 70, 2, hash_spec());
    let states: Vec<State> = vec![ready(sink.make_state(0)), ready(sink.make_state(1))];
    let mut task = match sink.finalize(states) {
        FinalizePlan::Conclude(task) => task,
        other => panic!("unexpected plan {other:?}"),
    };
    assert!(matches!(
        task.next(),
        FinalizeAction::Register {
            shuffle_id: 70,
            num_mappers: 2,
            num_partitions: 3
        }
    ));
    task.shuffle_registered();
    for map_id in [0u32, 1] {
        assert!(matches!(task.next(), FinalizeAction::EndMapper(a) if a == attempt(70, map_id)));
        task.mapper_ended();
    }
    match task.next() {
        FinalizeAction::Report(metas) => {
            assert_eq!(metas, vec![ShufflePartitionMeta::new(0, 0); 3])
        }
        other => panic!("unexpected action {other:?}"),
    }
}

#[test]
fn one_registered_state_registers_its_shuffle() {
    let sink = Sink::new_celeborn(1, 70, 2, hash_spec());
    let (pushed, _, _) = run_batch(
        CelebornRepartitionState::new(70, 1, 2, 1),
        vec![1],
        &[b"x"],
    );
    let states: Vec<State> = vec![ready(sink.make_state(0)), RepartitionState::Celeborn(pushed)];
    match sink.finalize(states) {
        FinalizePlan::Conclude(task) => {
            assert!(matches!(task.next(), FinalizeAction::EndMapper(a) if a == attempt(70, 0)))
        }
        other => panic!("unexpected plan {other:?}"),
    }
}

#[test]
fn failed_end_stops_the_conclusion() {
    let sink = Sink::new_celeborn(1, 70, 2, hash_spec());
    let states: Vec<State> = vec![ready(sink.make_state(0)), ready(sink.make_state(1))];
    let mut task = match sink.finalize(states) {
        FinalizePlan::Conclude(task) => task,
        other => panic!("unexpected plan {other:?}"),
    };
    task.shuffle_registered();
    task.mapper_ended();
    assert!(matches!(task.next(), FinalizeAction::EndMapper(a) if a == attempt(70, 1)));
    assert_eq!(task.fail("gone".to_string()), "gone");
    assert!(matches!(task.next(), FinalizeAction::Stop));
}

#[test]
fn failed_push_ends_the_batch() {
    let state = CelebornRepartitionState::new(70, 5, 2, 2);
    let (mut task, _) = CelebornSinkTask::start(state);
    task.step(SinkEvent::Registered);
    task.step(SinkEvent::Partitioned(vec![1, 1]));
    task.step(SinkEvent::Serialized(vec![9]));
    assert_eq!(task.fail(404), 404);
    assert!(!task.accepts(&SinkEvent::Pushed));
    assert!(!task.accepts(&SinkEvent::Registered));
    assert!(!task.accepts(&SinkEvent::Partitioned(vec![])));
    assert!(!task.accepts(&SinkEvent::Serialized(vec![])));

    let state = CelebornRepartitionState::new(70, 5, 2, 2);
    let (mut task, action) = CelebornSinkTask::start(state);
    assert!(matches!(action, SinkAction::Register { .. }));
    assert_eq!(task.fail("refused"), "refused");
    assert!(!task.accepts(&SinkEvent::Registered));
}
