use celeborn_shuffle::celeborn_sink::{
    aggregate, CelebornRepartitionState, CelebornSinkTask, SinkAction, SinkEvent,
};
use celeborn_shuffle::mock::MockShuffleCelebornClient;
use celeborn_shuffle::shuffle_metadata::ShufflePartitionMeta;

/// Runs one batch of a mapper against an in-memory store.
fn map_batch(
    client: &mut MockShuffleCelebornClient,
    state: CelebornRepartitionState,
    blocks: &[(usize, &[u8])],
) -> CelebornRepartitionState {
    let (mut task, mut action) = CelebornSinkTask::start(state);
    loop {
        let event = match action {
            SinkAction::Register {
                shuffle_id,
                num_mappers,
                num_partitions,
            } => {
                client
                    .register_shuffle(shuffle_id, num_mappers, num_partitions)
                    .unwrap();
                SinkEvent::Registered
            }
            SinkAction::Partition => {
                SinkEvent::Partitioned(blocks.iter().map(|block| block.0).collect())
            }
            SinkAction::Serialize { partition_idx } => {
                SinkEvent::Serialized(blocks[partition_idx].1.to_vec())
            }
            SinkAction::Push {
                attempt,
                partition_id,
                data,
            } => {
                client
                    .push_data(
                        attempt.shuffle_id,
                        attempt.map_id,
                        attempt.attempt_id,
                        partition_id,
                        &data,
                    )
                    .unwrap();
                SinkEvent::Pushed
            }
            SinkAction::Finish => return task.into_state(),
        };
        action = task.step(event);
    }
}

fn read(client: &MockShuffleCelebornClient, shuffle_id: u64, partition_id: u32) -> Vec<Vec<u8>> {
    client
        .read_partition(shuffle_id, partition_id)
        .unwrap()
        .iter()
        .map(|block| block.to_vec())
        .collect()
}

#[test]
fn reducers_read_what_mappers_push() {
    let mut client = MockShuffleCelebornClient::new();
    let first = CelebornRepartitionState::new(1, 0, 2, 3);
    let second = CelebornRepartitionState::new(1, 1, 2, 3);
    let first = map_batch(&mut client, first, &[(1, b"a0"), (0, b"zz"), (2, b"c0")]);
    map_batch(&mut client, second, &[(1, b"a1"), (1, b"b1"), (0, b"")]);
    map_batch(&mut client, first, &[(1, b"a2"), (0, b""), (0, b"")]);

    assert_eq!(
        read(&client, 1, 0),
        vec![b"a0".to_vec(), b"a1".to_vec(), b"a2".to_vec()]
    );
    assert_eq!(read(&client, 1, 1), vec![b"b1".to_vec()]);
    assert_eq!(read(&client, 1, 2), vec![b"c0".to_vec()]);
    assert!(read(&client, 2, 0).is_empty());
}

#[test]
fn metadata_counts_what_was_pushed() {
    let mut client = MockShuffleCelebornClient::new();
    let fresh = |map_id: u32| CelebornRepartitionState::new(4, map_id, 2, 2);
    assert_eq!(
        aggregate(&vec![fresh(0), fresh(1)], 2),
        vec![
            ShufflePartitionMeta::new(0, 0),
            ShufflePartitionMeta::new(0, 0),
        ]
    );
    let first = map_batch(&mut client, fresh(0), &[(3, b"abc"), (0, b"not pushed")]);
    let second = map_batch(&mut client, fresh(1), &[(1, b"d"), (2, b"ef")]);
    let metas = aggregate(&vec![first, second], 2);
    assert_eq!(
        metas,
        vec![
            ShufflePartitionMeta::new(4, 4),
            ShufflePartitionMeta::new(2, 2),
        ]
    );
    for (i, meta) in metas.iter().enumerate() {
        let read_back: usize = read(&client, 4, i as u32).iter().map(|b| b.len()).sum();
        assert_eq!(read_back, meta.size_bytes);
    }
}
