use std::io::Read;
use std::sync::Arc;

use arrow_array::{Int32Array, RecordBatch};
use arrow_ipc::reader::StreamReader;
use arrow_ipc::writer::StreamWriter;
use arrow_schema::{DataType, Field, Schema};
use bytes::Bytes;
use celeborn_shuffle::error::{CelebornError, NativeCall};
use celeborn_shuffle::ffi::ReadPartitionCall;
use celeborn_shuffle::partition_read::{PartitionReadTask, ReadAction, ReadEvent};

fn call() -> ReadPartitionCall {
    ReadPartitionCall {
        shuffle_id: 4,
        partition_id: 5,
        num_mappers: 6,
    }
}

fn decoding() -> PartitionReadTask {
    let (mut task, first) = PartitionReadTask::start(call());
    assert!(matches!(first, ReadAction::UpdateFileGroup { shuffle_id: 4 }));
    let second = task.step(ReadEvent::Updated(Ok(())));
    assert!(matches!(
        second,
        ReadAction::OpenPartition {
            shuffle_id: 4,
            partition_id: 5,
            attempt_number: 0,
            start_map_index: 0,
            end_map_index: 6
        }
    ));
    let third = task.step(ReadEvent::Opened(Ok(())));
    assert!(matches!(third, ReadAction::DecodeStream));
    task
}

fn chunk_of(action: ReadAction) -> Bytes {
    match action {
        ReadAction::SendChunk(chunk) => chunk,
        other => panic!("unexpected action {other:?}"),
    }
}

fn error_of(action: ReadAction) -> CelebornError {
    match action {
        ReadAction::SendError(error) => error,
        other => panic!("unexpected action {other:?}"),
    }
}

#[test]
fn failed_update_is_sent_and_ends_the_read() {
    let (mut task, _) = PartitionReadTask::start(call());
    let error = error_of(task.step(ReadEvent::Updated(Err("x".to_string()))));
    assert!(matches!(
        &error,
        CelebornError::CallFailed {
            call: NativeCall::UpdateReducerFileGroup,
            ..
        }
    ));
    assert_eq!(
        error.message(),
        "Celeborn update_reducer_file_group failed: x"
    );
    assert!(matches!(
        task.step(ReadEvent::Sent { delivered: true }),
        ReadAction::Stop
    ));
}

#[test]
fn failed_open_is_sent_and_ends_the_read() {
    let (mut task, _) = PartitionReadTask::start(call());
    task.step(ReadEvent::Updated(Ok(())));
    let error = error_of(task.step(ReadEvent::Opened(Err("y".to_string()))));
    assert_eq!(error.message(), "Celeborn open_partition failed: y");
    assert!(matches!(
        task.step(ReadEvent::Sent { delivered: false }),
        ReadAction::Stop
    ));
}

#[test]
fn decoded_streams_are_sent_in_order() {
    let mut task = decoding();
    for data in [b"one".to_vec(), b"two".to_vec()] {
        let chunk = chunk_of(task.step(ReadEvent::StreamDecoded {
            captured: data.clone(),
        }));
        assert_eq!(chunk.as_ref(), &data[..]);
        assert!(matches!(
            task.step(ReadEvent::Sent { delivered: true }),
            ReadAction::DecodeStream
        ));
    }
    assert!(matches!(
        task.step(ReadEvent::HeaderRejected {
            captured: vec![],
            error: "end".to_string()
        }),
        ReadAction::Stop
    ));
}

#[test]
fn stream_of_no_bytes_is_not_sent() {
    let mut task = decoding();
    assert!(matches!(
        task.step(ReadEvent::StreamDecoded { captured: vec![] }),
        ReadAction::DecodeStream
    ));
    let chunk = chunk_of(task.step(ReadEvent::StreamDecoded { captured: vec![1] }));
    assert_eq!(chunk.as_ref(), &[1]);
}

#[test]
fn read_ends_when_the_receiver_is_gone() {
    let mut task = decoding();
    chunk_of(task.step(ReadEvent::StreamDecoded { captured: vec![1] }));
    assert!(matches!(
        task.step(ReadEvent::Sent { delivered: false }),
        ReadAction::Stop
    ));
}

#[test]
fn bytes_without_a_header_are_corrupt() {
    let mut task = decoding();
    let error = error_of(task.step(ReadEvent::HeaderRejected {
        captured: vec![9, 8],
        error: "bad".to_string(),
    }));
    assert_eq!(
        error.message(),
        "Celeborn: corrupt Arrow IPC stream header in partition data (shuffle_id=4, \
         partition_id=5, num_mappers=6, buffer_len=2, first_2_bytes=[9, 8], ipc_error=bad)"
    );
    assert!(matches!(
        task.step(ReadEvent::Sent { delivered: true }),
        ReadAction::Stop
    ));
}

#[test]
fn undecodable_batch_is_sent_and_ends_the_read() {
    let mut task = decoding();
    let error = error_of(task.step(ReadEvent::BatchRejected {
        error: "z".to_string(),
    }));
    assert_eq!(error.message(), "Celeborn IPC stream decode error: z");
    assert!(matches!(
        task.step(ReadEvent::Sent { delivered: true }),
        ReadAction::Stop
    ));
}

struct Tee<'a> {
    inner: &'a [u8],
    captured: Vec<u8>,
}

impl Read for Tee<'_> {
    fn read(&mut self, buf: &mut [u8]) -> std::io::Result<usize> {
        let n = self.inner.read(buf)?;
        self.captured.extend_from_slice(&buf[..n]);
        Ok(n)
    }
}

fn ipc_stream(values: Vec<i32>) -> Vec<u8> {
    let schema = Schema::new(vec![Field::new("x", DataType::Int32, true)]);
    let batch =
        RecordBatch::try_new(Arc::new(schema), vec![Arc::new(Int32Array::from(values))]).unwrap();
    let mut out: Vec<u8> = Vec::new();
    let mut writer = StreamWriter::try_new(&mut out, &batch.schema()).unwrap();
    writer.write(&batch).unwrap();
    writer.finish().unwrap();
    drop(writer);
    out
}

/// Reads a partition that holds the given bytes, with the Arrow decoder.
fn read_all(partition: &[u8]) -> (Vec<Bytes>, Option<CelebornError>) {
    let mut tee = Tee {
        inner: partition,
        captured: Vec::new(),
    };
    let mut task = decoding();
    let mut action = ReadAction::DecodeStream;
    let mut chunks = Vec::new();
    let mut failure = None;
    loop {
        let event = match action {
            ReadAction::DecodeStream => {
                tee.captured.clear();
                match StreamReader::try_new(&mut tee, None) {
                    Ok(reader) => {
                        let batches: Result<Vec<RecordBatch>, _> = reader.collect();
                        match batches {
                            Ok(_) => ReadEvent::StreamDecoded {
                                captured: std::mem::take(&mut tee.captured),
                            },
                            Err(e) => ReadEvent::BatchRejected {
                                error: e.to_string(),
                            },
                        }
                    }
                    Err(e) => ReadEvent::HeaderRejected {
                        captured: std::mem::take(&mut tee.captured),
                        error: e.to_string(),
                    },
                }
            }
            ReadAction::SendChunk(chunk) => {
                chunks.push(chunk);
                ReadEvent::Sent { delivered: true }
            }
            ReadAction::SendError(error) => {
                failure = Some(error);
                ReadEvent::Sent { delivered: true }
            }
            ReadAction::Stop => return (chunks, failure),
            other => panic!("unexpected action {other:?}"),
        };
        action = task.step(event);
    }
}

#[test]
fn concatenated_streams_are_split() {
    let first = ipc_stream(vec![1, 2]);
    let second = ipc_stream(vec![3, 4, 5]);
    let mut partition = first.clone();
    partition.extend_from_slice(&second);
    let (chunks, failure) = read_all(&partition);
    assert!(failure.is_none());
    assert_eq!(chunks.len(), 2);
    assert_eq!(chunks[0].as_ref(), &first[..]);
    assert_eq!(chunks[1].as_ref(), &second[..]);
}

#[test]
fn empty_partition_has_no_chunks() {
    let (chunks, failure) = read_all(&[]);
    assert!(chunks.is_empty());
    assert!(failure.is_none());
}

#[test]
fn garbage_behind_a_stream_is_reported() {
    let first = ipc_stream(vec![1]);
    let mut partition = first.clone();
    partition.extend_from_slice(&[1, 2, 3]);
    let (chunks, failure) = read_all(&partition);
    assert_eq!(chunks.len(), 1);
    assert_eq!(chunks[0].as_ref(), &first[..]);
    assert!(matches!(
        failure,
        Some(CelebornError::CorruptHeader { captured, .. }) if captured == vec![1, 2, 3]
    ));
}
