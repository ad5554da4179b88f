use std::sync::Arc;

use arrow_array::{Float64Array, Int32Array, RecordBatch, StringArray};
use arrow_ipc::reader::StreamReader;
use arrow_ipc::writer::StreamWriter;
use arrow_schema::{DataType, Field, Schema};
use celeborn_shuffle::mock::MockShuffleCelebornClient;

fn new_client() -> MockShuffleCelebornClient {
    MockShuffleCelebornClient::new()
}

fn write_to_ipc_stream(batch: &RecordBatch) -> Vec<u8> {
    let mut out: Vec<u8> = Vec::new();
    let mut writer = StreamWriter::try_new(&mut out, &batch.schema()).unwrap();
    writer.write(batch).unwrap();
    writer.finish().unwrap();
    drop(writer);
    out
}

fn read_from_ipc_stream(bytes: &[u8]) -> Vec<RecordBatch> {
    StreamReader::try_new(bytes, None)
        .unwrap()
        .map(|batch| batch.unwrap())
        .collect()
}

fn int_batch(values: Vec<i32>) -> RecordBatch {
    let schema = Schema::new(vec![Field::new("x", DataType::Int32, true)]);
    RecordBatch::try_new(Arc::new(schema), vec![Arc::new(Int32Array::from(values))]).unwrap()
}

#[test]
fn push_then_read_returns_data_in_order() {
    let mut client = new_client();
    client.register_shuffle(1, 2, 8).unwrap();
    client.push_data(1, 0, 0, 7, b"hello").unwrap();
    client.push_data(1, 1, 0, 7, b"world").unwrap();

    let collected = client.read_partition(1, 7).unwrap();
    assert_eq!(collected.len(), 2);
    assert_eq!(collected[0].as_ref(), b"hello");
    assert_eq!(collected[1].as_ref(), b"world");
}

#[test]
fn mapper_end_is_recorded() {
    let mut client = new_client();
    client.register_shuffle(42, 10, 1).unwrap();
    client.mapper_end(42, 3, 0).unwrap();
    assert_eq!(client.mapper_end_count(42, 3, 0), 1);
    assert_eq!(client.mapper_end_count(42, 3, 1), 0);
}

#[test]
fn unregister_drops_data_and_marks_flag() {
    let mut client = new_client();
    client.register_shuffle(9, 1, 1).unwrap();
    client.push_data(9, 0, 0, 0, b"x").unwrap();
    assert_eq!(client.pushed_block_count(9, 0), 1);

    client.unregister_shuffle(9).unwrap();
    assert!(client.is_unregistered(9));
    assert_eq!(client.pushed_block_count(9, 0), 0);
}

#[test]
fn read_unknown_partition_returns_empty_stream() {
    let mut client = new_client();
    client.register_shuffle(123, 1, 457).unwrap();
    let blocks = client.read_partition(123, 456).unwrap();
    assert!(blocks.into_iter().next().is_none());
}

/// Two or more mappers push one block each to the same partition. A read returns all
/// blocks, in push order.
#[test]
fn multiple_mappers_pushed_to_same_partition_are_concatenated() {
    let mut client = new_client();
    client.register_shuffle(1, 3, 6).unwrap();

    client
        .push_data(1, /* map_id */ 0, 0, 5, b"from_mapper_0")
        .unwrap();
    client
        .push_data(1, /* map_id */ 1, 0, 5, b"from_mapper_1")
        .unwrap();
    client
        .push_data(1, /* map_id */ 2, 0, 5, b"from_mapper_2")
        .unwrap();

    client.mapper_end(1, 0, 0).unwrap();
    client.mapper_end(1, 1, 0).unwrap();
    client.mapper_end(1, 2, 0).unwrap();

    for map_id in 0..3 {
        assert_eq!(
            client.mapper_end_count(1, map_id, 0),
            1,
            "mapper {map_id} should have exactly one mapper_end call"
        );
    }

    let chunks = client.read_partition(1, 5).unwrap();
    assert_eq!(chunks.len(), 3);
    assert_eq!(chunks[0].as_ref(), b"from_mapper_0");
    assert_eq!(chunks[1].as_ref(), b"from_mapper_1");
    assert_eq!(chunks[2].as_ref(), b"from_mapper_2");
}

/// Different shuffles do not see each other's data, even when they reuse the same
/// map and partition.
#[test]
fn shuffles_are_isolated_by_shuffle_id() {
    let mut client = new_client();

    client.register_shuffle(10, 1, 1).unwrap();
    client.register_shuffle(20, 1, 1).unwrap();

    client.push_data(10, 0, 0, 0, b"shuffle_10_data").unwrap();
    client.push_data(20, 0, 0, 0, b"shuffle_20_data").unwrap();

    let mut s10 = client.read_partition(10, 0).unwrap().into_iter();
    let chunk10 = s10.next().unwrap();
    assert_eq!(chunk10.as_ref(), b"shuffle_10_data");
    assert!(s10.next().is_none());

    let mut s20 = client.read_partition(20, 0).unwrap().into_iter();
    let chunk20 = s20.next().unwrap();
    assert_eq!(chunk20.as_ref(), b"shuffle_20_data");
    assert!(s20.next().is_none());

    client.unregister_shuffle(10).unwrap();
    assert!(client.is_unregistered(10));
    assert!(!client.is_unregistered(20));
    assert_eq!(client.pushed_block_count(10, 0), 0);
    assert_eq!(client.pushed_block_count(20, 0), 1);
}

/// Unregistering twice leaves the client in the same state and produces no error.
#[test]
fn unregister_is_idempotent() {
    let mut client = new_client();
    client.register_shuffle(7, 1, 1).unwrap();
    client.push_data(7, 0, 0, 0, b"data").unwrap();

    client.unregister_shuffle(7).unwrap();
    client.unregister_shuffle(7).unwrap();

    assert!(client.is_unregistered(7));
    client.unregister_shuffle(99).unwrap();
    assert!(client.is_unregistered(7));
    assert!(client.is_unregistered(99));
}

/// A record batch of mixed types, serialised to an Arrow IPC stream, pushed, read back
/// and deserialised is the batch that it was.
#[test]
fn arrow_ipc_roundtrip_through_push_and_read() {
    let mut client = new_client();

    let schema = Schema::new(vec![
        Field::new("id", DataType::Int32, true),
        Field::new("score", DataType::Float64, true),
        Field::new("name", DataType::Utf8, true),
    ]);
    let batch = RecordBatch::try_new(
        Arc::new(schema),
        vec![
            Arc::new(Int32Array::from(vec![10, 20, 30])),
            Arc::new(Float64Array::from(vec![1.5, 2.5, 3.5])),
            Arc::new(StringArray::from(vec!["alpha", "beta", "gamma"])),
        ],
    )
    .unwrap();
    let ipc_bytes = write_to_ipc_stream(&batch);

    let shuffle_id = 100;
    let partition_id = 7;
    client.register_shuffle(100, 1, 8).unwrap();
    client
        .push_data(shuffle_id, 0, 0, partition_id, &ipc_bytes)
        .unwrap();

    let mut stream = client
        .read_partition(shuffle_id, partition_id)
        .unwrap()
        .into_iter();
    let chunk = stream.next().expect("should have one chunk");
    assert!(stream.next().is_none(), "should have exactly one chunk");

    let roundtrip = read_from_ipc_stream(&chunk);
    assert_eq!(roundtrip.len(), 1);
    assert_eq!(roundtrip[0].schema(), batch.schema());
    assert_eq!(roundtrip[0].num_rows(), 3);
    assert_eq!(batch, roundtrip[0]);
}

/// Two mappers each push a serialised batch to the same partition. They are read back as
/// two chunks, each of which is deserialised on its own.
#[test]
fn multi_mapper_arrow_ipc_roundtrip() {
    let mut client = new_client();
    let shuffle_id = 200;
    let partition_id = 0;

    client.register_shuffle(shuffle_id, 2, 1).unwrap();

    let batch_m0 = int_batch(vec![1, 2]);
    let ipc_m0 = write_to_ipc_stream(&batch_m0);
    client
        .push_data(shuffle_id, 0, 0, partition_id, &ipc_m0)
        .unwrap();

    let batch_m1 = int_batch(vec![3, 4, 5]);
    let ipc_m1 = write_to_ipc_stream(&batch_m1);
    client
        .push_data(shuffle_id, 1, 0, partition_id, &ipc_m1)
        .unwrap();

    let mut stream = client
        .read_partition(shuffle_id, partition_id)
        .unwrap()
        .into_iter();

    let chunk0 = stream.next().expect("chunk from mapper 0");
    let rt0 = read_from_ipc_stream(&chunk0);
    assert_eq!(rt0[0].num_rows(), 2);
    assert_eq!(batch_m0, rt0[0]);

    let chunk1 = stream.next().expect("chunk from mapper 1");
    let rt1 = read_from_ipc_stream(&chunk1);
    assert_eq!(rt1[0].num_rows(), 3);
    assert_eq!(batch_m1, rt1[0]);

    assert!(stream.next().is_none(), "no more chunks");

    let total_rows: usize = rt0[0].num_rows() + rt1[0].num_rows();
    assert_eq!(total_rows, 5);
}

#[test]
fn default_client_is_empty() {
    let client = MockShuffleCelebornClient::default();
    assert_eq!(client.pushed_block_count(0, 0), 0);
    assert_eq!(client.mapper_end_count(0, 0, 0), 0);
    assert!(!client.is_unregistered(0));
}

#[test]
fn ends_are_counted_per_attempt() {
    let mut client = new_client();
    client.mapper_end(1, 0, 1).unwrap();
    client.mapper_end(1, 0, 1).unwrap();
    client.mapper_end(1, 1, 0).unwrap();
    client.mapper_end(0, u32::MAX, u32::MAX).unwrap();
    client.mapper_end(u64::MAX, u32::MAX, u32::MAX).unwrap();
    assert_eq!(client.mapper_end_count(1, 0, 1), 2);
    assert_eq!(client.mapper_end_count(1, 1, 0), 1);
    assert_eq!(client.mapper_end_count(1, 0, 0), 0);
    assert_eq!(client.mapper_end_count(0, u32::MAX, u32::MAX), 1);
    assert_eq!(client.mapper_end_count(u64::MAX, u32::MAX, u32::MAX), 1);
    assert_eq!(client.mapper_end_count(u64::MAX, u32::MAX, 0), 0);
}

#[test]
fn unregister_keeps_ended_attempts_and_allows_reuse() {
    let mut client = new_client();
    client.register_shuffle(5, 1, 2).unwrap();
    client.push_data(5, 0, 0, 0, b"a").unwrap();
    client.push_data(5, 0, 0, 1, b"b").unwrap();
    client.mapper_end(5, 0, 0).unwrap();
    client.unregister_shuffle(5).unwrap();
    assert_eq!(client.pushed_block_count(5, 0), 0);
    assert_eq!(client.pushed_block_count(5, 1), 0);
    assert_eq!(client.mapper_end_count(5, 0, 0), 1);

    client.register_shuffle(5, 1, 2).unwrap();
    client.register_shuffle(5, 1, 2).unwrap();
    client.push_data(5, 0, 0, 1, b"c").unwrap();
    let blocks = client.read_partition(5, 1).unwrap();
    assert_eq!(blocks.len(), 1);
    assert_eq!(blocks[0].as_ref(), b"c");
    assert!(client.is_unregistered(5));
}

#[test]
fn reads_do_not_consume_blocks() {
    let mut client = new_client();
    client.push_data(3, 0, 0, 0, b"").unwrap();
    client.push_data(3, 0, 0, 0, b"kept").unwrap();
    for _ in 0..2 {
        let blocks = client.read_partition(3, 0).unwrap();
        assert_eq!(blocks.len(), 2);
        assert_eq!(blocks[0].as_ref(), b"");
        assert_eq!(blocks[1].as_ref(), b"kept");
    }
    assert_eq!(client.pushed_block_count(3, 1), 0);
}
