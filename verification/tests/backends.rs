use std::sync::Arc;

use celeborn_shuffle::celeborn_backend::{
    read_spec_from_backend, register_cleanup, CelebornShuffleReadInput, CelebornShuffleSpec,
    LocalPlan, ShuffleReadBackend, TaskInputs,
};
use celeborn_shuffle::ffi::to_ffi_i32;
use celeborn_shuffle::partition_refs::{
    flight_partition_refs, FinalizedPartition, FlightPartitionRef, PartitionRef,
};
use celeborn_shuffle::shuffle_backend::{
    make_shuffle_id, session_seed, DistributedShuffleBackend, FlightShuffleBackendConfig,
    LocalShuffleBackend, PipelineNodeContext, ReadTasks, ShuffleBackend,
};
use celeborn_shuffle::shuffle_metadata::ShufflePartitionMeta;

fn sample_spec() -> CelebornShuffleSpec {
    CelebornShuffleSpec {
        shuffle_id: 42,
        num_mappers: 8,
    }
}

fn context(query_idx: u16, node_id: u32) -> PipelineNodeContext {
    PipelineNodeContext { query_idx, node_id }
}

fn flight_config() -> FlightShuffleBackendConfig {
    FlightShuffleBackendConfig {
        shuffle_id: 0,
        shuffle_dirs: vec!["/a".to_string(), "/b".to_string()],
        compression: Some("lz4".to_string()),
    }
}

#[test]
fn read_spec_from_backend_forwards_shuffle_id() {
    let spec_input = sample_spec();
    let read_spec = read_spec_from_backend(&spec_input);
    assert_eq!(read_spec.shuffle_id, 42);
}

#[test]
fn read_spec_from_backend_does_not_mutate_input() {
    let spec_input = sample_spec();
    let _ = read_spec_from_backend(&spec_input);
    assert_eq!(spec_input.shuffle_id, 42);
    assert_eq!(spec_input.num_mappers, 8);
}

/// The partition index of a read input survives a trip through JSON.
#[test]
fn celeborn_shuffle_read_input_round_trip_via_serde() {
    let inputs: Vec<CelebornShuffleReadInput> = (0..5)
        .map(|i| CelebornShuffleReadInput { partition_idx: i })
        .collect();

    let values: Vec<serde_json::Value> = inputs
        .iter()
        .map(|input| {
            let mut object = serde_json::Map::new();
            object.insert("partition_idx".to_string(), input.partition_idx.into());
            serde_json::Value::Object(object)
        })
        .collect();
    let json = serde_json::to_string(&values).expect("serializable");
    let decoded_values: Vec<serde_json::Value> =
        serde_json::from_str(&json).expect("deserializable");
    let decoded: Vec<CelebornShuffleReadInput> = decoded_values
        .iter()
        .map(|value| CelebornShuffleReadInput {
            partition_idx: value["partition_idx"].as_u64().unwrap() as usize,
        })
        .collect();

    assert_eq!(decoded.len(), 5);
    for (i, input) in decoded.iter().enumerate() {
        assert_eq!(input.partition_idx, i);
    }
}

#[test]
fn cleanup_of_a_celeborn_shuffle_changes_nothing() {
    let mut plan_context = vec![1, 2, 3];
    register_cleanup(&sample_spec(), &mut plan_context);
    assert_eq!(plan_context, vec![1, 2, 3]);
}

#[test]
fn session_seed_keeps_thirteen_bits() {
    assert_eq!(session_seed(0), 0);
    assert_eq!(session_seed(8191), 8191);
    assert_eq!(session_seed(8192), 0);
    assert_eq!(session_seed(1_700_000_000_123_456_789), 3349);
    assert_eq!(session_seed(u128::MAX), 0x1FFF);
}

#[test]
fn shuffle_id_layout() {
    assert_eq!(make_shuffle_id(&context(0, 0), 0), 0);
    assert_eq!(make_shuffle_id(&context(0, 5), 0), 5);
    assert_eq!(make_shuffle_id(&context(3, 5), 0), 3 * 256 + 5);
    assert_eq!(
        make_shuffle_id(&context(3, 5), 7),
        7 * 262_144 + 3 * 256 + 5
    );
    // Only ten bits of the query and eight bits of the node count.
    assert_eq!(make_shuffle_id(&context(1024 + 3, 256 + 5), 0), 3 * 256 + 5);
}

#[test]
fn largest_shuffle_id_fits_the_native_client() {
    let id = make_shuffle_id(&context(u16::MAX, u32::MAX), session_seed(u128::MAX));
    assert_eq!(id, i32::MAX as u64);
    assert_eq!(to_ffi_i32(id, "shuffle_id").unwrap(), i32::MAX);
}

#[test]
fn shuffle_ids_differ_by_seed_query_and_node() {
    let id = make_shuffle_id(&context(1, 1), 1);
    assert_ne!(id, make_shuffle_id(&context(1, 1), 2));
    assert_ne!(id, make_shuffle_id(&context(2, 1), 1));
    assert_ne!(id, make_shuffle_id(&context(1, 2), 1));
}

#[test]
fn new_backend_takes_the_identifier_of_its_node() {
    let schema = Arc::new("schema");
    let ctx = context(2, 9);
    let id = make_shuffle_id(&ctx, 77);

    let celeborn = ShuffleBackend::new(
        &ctx,
        schema.clone(),
        DistributedShuffleBackend::Celeborn(sample_spec()),
        77,
    );
    assert_eq!(celeborn.node_id(), 9);
    assert_eq!(**celeborn.schema(), "schema");
    assert!(matches!(
        celeborn.backend(),
        DistributedShuffleBackend::Celeborn(spec) if spec.shuffle_id == id && spec.num_mappers == 8
    ));
    assert!(matches!(
        celeborn.local_shuffle_backend(),
        LocalShuffleBackend::Celeborn { shuffle_id, num_mappers: 8 } if shuffle_id == id
    ));

    let flight = ShuffleBackend::new(
        &ctx,
        schema.clone(),
        DistributedShuffleBackend::Flight(flight_config()),
        77,
    );
    match flight.local_shuffle_backend() {
        LocalShuffleBackend::Flight {
            shuffle_id,
            shuffle_dirs,
            compression,
        } => {
            assert_eq!(shuffle_id, id);
            assert_eq!(shuffle_dirs, vec!["/a".to_string(), "/b".to_string()]);
            assert_eq!(compression, Some("lz4".to_string()));
        }
        other => panic!("unexpected backend {other:?}"),
    }

    let ray = ShuffleBackend::new(&ctx, schema, DistributedShuffleBackend::Ray, 77);
    assert!(matches!(ray.backend(), DistributedShuffleBackend::Ray));
    assert!(matches!(
        ray.local_shuffle_backend(),
        LocalShuffleBackend::Ray
    ));
}

#[test]
fn only_flight_shuffles_have_files_to_clean_up() {
    let ctx = context(0, 1);
    let schema = Arc::new(());
    let mut plan_context = 5;
    let ray = ShuffleBackend::new(&ctx, schema.clone(), DistributedShuffleBackend::Ray, 0);
    assert!(ray.register_cleanup(&mut plan_context).is_none());
    let celeborn = ShuffleBackend::new(
        &ctx,
        schema.clone(),
        DistributedShuffleBackend::Celeborn(sample_spec()),
        0,
    );
    assert!(celeborn.register_cleanup(&mut plan_context).is_none());
    let flight = ShuffleBackend::new(
        &ctx,
        schema,
        DistributedShuffleBackend::Flight(flight_config()),
        0,
    );
    let config = flight.register_cleanup(&mut plan_context).unwrap();
    assert_eq!(config.shuffle_dirs.len(), 2);
    assert_eq!(plan_context, 5);
}

#[test]
fn celeborn_read_tasks_cover_every_partition_once() {
    let ctx = context(4, 6);
    let backend = ShuffleBackend::new(
        &ctx,
        Arc::new("rows"),
        DistributedShuffleBackend::Celeborn(sample_spec()),
        3,
    );
    let id = make_shuffle_id(&ctx, 3);
    let tasks: ReadTasks<&str, (), ()> = backend.emit_read_tasks(Vec::new(), 3);
    let tasks = match tasks {
        ReadTasks::Celeborn(tasks) => tasks,
        other => panic!("unexpected tasks {other:?}"),
    };
    assert_eq!(tasks.len(), 3);
    for (i, task) in tasks.iter().enumerate() {
        assert_eq!(task.node_id, 6);
        assert!(matches!(
            &task.inputs,
            TaskInputs::CelebornReads(input) if input.partition_idx == i
        ));
        match &task.plan {
            LocalPlan::ShuffleRead {
                node_id,
                schema,
                backend,
                origin_node_id,
            } => {
                assert_eq!(*node_id, 6);
                assert_eq!(**schema, "rows");
                assert_eq!(
                    *backend,
                    ShuffleReadBackend::Celeborn {
                        shuffle_id: id,
                        num_mappers: 8
                    }
                );
                assert_eq!(*origin_node_id, Some(6));
            }
            other => panic!("unexpected plan {other:?}"),
        }
    }
}

#[test]
fn ray_and_flight_read_tasks_keep_the_groups() {
    let ctx = context(0, 1);
    let groups = vec![vec![1, 2], vec![], vec![3]];
    let ray = ShuffleBackend::new(&ctx, Arc::new(()), DistributedShuffleBackend::Ray, 0);
    let tasks: ReadTasks<(), (), i32> = ray.emit_read_tasks(groups.clone(), 9);
    assert!(matches!(tasks, ReadTasks::InMemory(g) if g == groups));
    let flight = ShuffleBackend::new(
        &ctx,
        Arc::new(()),
        DistributedShuffleBackend::Flight(flight_config()),
        0,
    );
    let tasks: ReadTasks<(), (), i32> = flight.emit_read_tasks(groups.clone(), 9);
    assert!(matches!(tasks, ReadTasks::Flight(g) if g == groups));
}

fn flight_ref(partition_ref_id: u64, size_bytes: usize) -> FlightPartitionRef {
    FlightPartitionRef {
        shuffle_id: 1,
        server_address: "host".to_string(),
        partition_ref_id,
        num_rows: 1,
        size_bytes,
    }
}

#[test]
fn refs_task_of_a_ray_shuffle_scans_memory() {
    let ray = ShuffleBackend::new(
        &context(0, 11),
        Arc::new("rows"),
        DistributedShuffleBackend::Ray,
        0,
    );
    let refs = vec![
        PartitionRef::Held {
            handle: 'a',
            size_bytes: 30,
        },
        PartitionRef::Flight(flight_ref(1, 12)),
    ];
    let task = ray.build_refs_task_builder(refs, |plan| (plan, "wrapped"));
    assert_eq!(task.node_id, 11);
    assert_eq!(task.plan.1, "wrapped");
    assert!(matches!(
        task.plan.0,
        LocalPlan::InMemoryScan { node_id: 11, size_bytes: 42, origin_node_id: Some(11), .. }
    ));
    assert!(matches!(&task.inputs, TaskInputs::Partitions(p) if p.len() == 2));
}

#[test]
fn refs_task_of_a_flight_shuffle_reads_from_servers() {
    let flight = ShuffleBackend::new(
        &context(0, 12),
        Arc::new("rows"),
        DistributedShuffleBackend::Flight(flight_config()),
        0,
    );
    let refs: Vec<PartitionRef<char>> = vec![
        PartitionRef::Flight(flight_ref(7, 1)),
        PartitionRef::Flight(flight_ref(8, 2)),
    ];
    let task = flight.build_refs_task_builder(refs, |plan| plan);
    assert!(matches!(
        task.plan,
        LocalPlan::ShuffleRead {
            node_id: 12,
            backend: ShuffleReadBackend::Flight { shuffle_id: 0 },
            origin_node_id: Some(12),
            ..
        }
    ));
    match &task.inputs {
        TaskInputs::FlightReads(refs) => {
            assert_eq!(refs.len(), 2);
            assert_eq!(refs[0].partition_ref_id, 7);
            assert_eq!(refs[1].partition_ref_id, 8);
        }
        other => panic!("unexpected inputs {other:?}"),
    }
}

#[test]
fn flight_refs_name_their_server() {
    let finalized = vec![
        FinalizedPartition {
            partition_ref_id: 5,
            num_rows: 10,
            size_bytes: 100,
        },
        FinalizedPartition {
            partition_ref_id: 6,
            num_rows: 0,
            size_bytes: 0,
        },
    ];
    let refs = flight_partition_refs(9, &"server:1".to_string(), &finalized);
    assert_eq!(refs.len(), 2);
    assert_eq!(refs[0].shuffle_id, 9);
    assert_eq!(refs[0].server_address, "server:1");
    assert_eq!(refs[0].partition_ref_id, 5);
    assert_eq!(refs[0].num_rows, 10);
    assert_eq!(refs[0].size_bytes, 100);
    assert_eq!(refs[1].partition_ref_id, 6);
}

#[test]
fn partition_meta_holds_its_counts() {
    let meta = ShufflePartitionMeta::new(3, 400);
    assert_eq!(meta.num_rows, 3);
    assert_eq!(meta.size_bytes, 400);
}
