//! The reduce side of a Celeborn shuffle: the loop that reads one partition.
//!
//! The bytes of a partition are Arrow IPC streams, one after the other. The
//! application decodes one stream after the other from the partition's reader and
//! captures the bytes that each takes up. This module decides what is sent on, and
//! when the read is over.

use bytes::Bytes;
use vstd::prelude::*;

use crate::blocks::block_from_vec;
use crate::error::{CelebornError, ErrorView, NativeCall};
use crate::ffi::ReadPartitionCall;

verus! {

/// Where the read of a partition stands.
#[derive(Clone, Copy, Debug, PartialEq, Eq, Structural)]
pub enum ReadPhase {
    /// The locations of the shuffle's data are being updated.
    Updating,
    /// The partition is being opened.
    Opening,
    /// The next stream is being decoded.
    Decoding,
    /// A chunk is being sent to the receiver.
    Sending,
    /// A failure is being sent to the receiver.
    Failing,
    /// The read is over.
    Stopped,
}

/// What happened outside: each event answers the action before it.
#[derive(Debug)]
pub enum ReadEvent {
    /// The outcome of the update of the locations.
    Updated(Result<(), String>),
    /// The outcome of opening the partition.
    Opened(Result<(), String>),
    /// A stream was decoded to its end; it took up the captured bytes.
    StreamDecoded { captured: Vec<u8> },
    /// No stream header could be read; the bytes captured until then.
    HeaderRejected { captured: Vec<u8>, error: String },
    /// A record batch of a stream could not be decoded.
    BatchRejected { error: String },
    /// A chunk or a failure was handed to the receiver, or the receiver is gone.
    Sent { delivered: bool },
}

/// What to do next.
#[derive(Debug)]
pub enum ReadAction {
    /// Update the locations of the shuffle's data.
    UpdateFileGroup { shuffle_id: i32 },
    /// Open the partition for the map outputs in `[start_map_index, end_map_index)`.
    OpenPartition {
        shuffle_id: i32,
        partition_id: i32,
        attempt_number: i32,
        start_map_index: i32,
        end_map_index: i32,
    },
    /// Decode the next stream, and capture the bytes that it takes up.
    DecodeStream,
    /// Send a chunk to the receiver.
    SendChunk(Bytes),
    /// Send a failure to the receiver.
    SendError(CelebornError),
    /// Nothing is left to do.
    Stop,
}

/// What a [`ReadEvent`] says.
#[verifier::ext_equal]
pub enum ReadEventView {
    Updated(Result<(), Seq<char>>),
    Opened(Result<(), Seq<char>>),
    StreamDecoded { captured: Seq<u8> },
    HeaderRejected { captured: Seq<u8>, error: Seq<char> },
    BatchRejected { error: Seq<char> },
    Sent { delivered: bool },
}

/// An outcome with the text of its failure.
pub open spec fn outcome_view(outcome: Result<(), String>) -> Result<(), Seq<char>> {
    match outcome {
        Ok(_) => Ok(()),
        Err(e) => Err(e@),
    }
}

impl View for ReadEvent {
    type V = ReadEventView;

    open spec fn view(&self) -> ReadEventView {
        match self {
            ReadEvent::Updated(outcome) => ReadEventView::Updated(outcome_view(*outcome)),
            ReadEvent::Opened(outcome) => ReadEventView::Opened(outcome_view(*outcome)),
            ReadEvent::StreamDecoded { captured } => ReadEventView::StreamDecoded {
                captured: captured@,
            },
            ReadEvent::HeaderRejected { captured, error } => ReadEventView::HeaderRejected {
                captured: captured@,
                error: error@,
            },
            ReadEvent::BatchRejected { error } => ReadEventView::BatchRejected { error: error@ },
            ReadEvent::Sent { delivered } => ReadEventView::Sent { delivered: *delivered },
        }
    }
}

/// What a [`ReadAction`] asks for.
#[verifier::ext_equal]
pub enum ReadActionView {
    UpdateFileGroup { shuffle_id: i32 },
    OpenPartition {
        shuffle_id: i32,
        partition_id: i32,
        attempt_number: i32,
        start_map_index: i32,
        end_map_index: i32,
    },
    DecodeStream,
    SendChunk(Seq<u8>),
    SendError(ErrorView),
    Stop,
}

impl View for ReadAction {
    type V = ReadActionView;

    open spec fn view(&self) -> ReadActionView {
        match self {
            ReadAction::UpdateFileGroup { shuffle_id } => ReadActionView::UpdateFileGroup {
                shuffle_id: *shuffle_id,
            },
            ReadAction::OpenPartition {
                shuffle_id,
                partition_id,
                attempt_number,
                start_map_index,
                end_map_index,
            } => ReadActionView::OpenPartition {
                shuffle_id: *shuffle_id,
                partition_id: *partition_id,
                attempt_number: *attempt_number,
                start_map_index: *start_map_index,
                end_map_index: *end_map_index,
            },
            ReadAction::DecodeStream => ReadActionView::DecodeStream,
            ReadAction::SendChunk(chunk) => ReadActionView::SendChunk(
                crate::blocks::content(*chunk),
            ),
            ReadAction::SendError(e) => ReadActionView::SendError(e@),
            ReadAction::Stop => ReadActionView::Stop,
        }
    }
}

/// The events that answer the action before them.
pub open spec fn answers(phase: ReadPhase, event: ReadEventView) -> bool {
    match event {
        ReadEventView::Updated(_) => phase == ReadPhase::Updating,
        ReadEventView::Opened(_) => phase == ReadPhase::Opening,
        ReadEventView::StreamDecoded { .. } => phase == ReadPhase::Decoding,
        ReadEventView::HeaderRejected { .. } => phase == ReadPhase::Decoding,
        ReadEventView::BatchRejected { .. } => phase == ReadPhase::Decoding,
        ReadEventView::Sent { .. } => phase == ReadPhase::Sending || phase == ReadPhase::Failing,
    }
}

/// The phase after `event`, and the next action.
///
/// A decoded stream is sent on, and the next one is decoded once it is delivered; a
/// stream of no bytes is not sent. A header that cannot be read ends the read: where
/// no byte was captured the partition is at its end, otherwise it is corrupt. Every
/// other failure is sent and ends the read, and so does a receiver that is gone.
pub open spec fn read_step(
    call: ReadPartitionCall,
    phase: ReadPhase,
    event: ReadEventView,
) -> (ReadPhase, ReadActionView) {
    match event {
        ReadEventView::Updated(Ok(_)) => (
            ReadPhase::Opening,
            ReadActionView::OpenPartition {
                shuffle_id: call.shuffle_id,
                partition_id: call.partition_id,
                attempt_number: 0,
                start_map_index: 0,
                end_map_index: call.num_mappers,
            },
        ),
        ReadEventView::Updated(Err(error)) => (
            ReadPhase::Failing,
            ReadActionView::SendError(
                ErrorView::CallFailed { call: NativeCall::UpdateReducerFileGroup, error },
            ),
        ),
        ReadEventView::Opened(Ok(_)) => (ReadPhase::Decoding, ReadActionView::DecodeStream),
        ReadEventView::Opened(Err(error)) => (
            ReadPhase::Failing,
            ReadActionView::SendError(
                ErrorView::CallFailed { call: NativeCall::OpenPartition, error },
            ),
        ),
        ReadEventView::StreamDecoded { captured } => if captured.len() == 0 {
            (ReadPhase::Decoding, ReadActionView::DecodeStream)
        } else {
            (ReadPhase::Sending, ReadActionView::SendChunk(captured))
        },
        ReadEventView::HeaderRejected { captured, error } => if captured.len() == 0 {
            (ReadPhase::Stopped, ReadActionView::Stop)
        } else {
            (
                ReadPhase::Failing,
                ReadActionView::SendError(
                    ErrorView::CorruptHeader {
                        shuffle_id: call.shuffle_id,
                        partition_id: call.partition_id,
                        num_mappers: call.num_mappers,
                        captured,
                        error,
                    },
                ),
            )
        },
        ReadEventView::BatchRejected { error } => (
            ReadPhase::Failing,
            ReadActionView::SendError(ErrorView::DecodeFailed { error }),
        ),
        ReadEventView::Sent { delivered } => if phase == ReadPhase::Sending && delivered {
            (ReadPhase::Decoding, ReadActionView::DecodeStream)
        } else {
            (ReadPhase::Stopped, ReadActionView::Stop)
        },
    }
}

/// The read of one partition.
#[derive(Debug)]
pub struct PartitionReadTask {
    call: ReadPartitionCall,
    phase: ReadPhase,
}

impl PartitionReadTask {
    /// What the read is made with.
    pub closed spec fn call(&self) -> ReadPartitionCall {
        self.call
    }

    /// Where the read stands.
    pub closed spec fn phase(&self) -> ReadPhase {
        self.phase
    }

    /// Starts the read of a partition.
    pub fn start(call: ReadPartitionCall) -> (r: (Self, ReadAction))
        ensures
            r.0.call() == call,
            r.0.phase() == ReadPhase::Updating,
            r.1@ == (ReadActionView::UpdateFileGroup { shuffle_id: call.shuffle_id }),
    {
        (
            PartitionReadTask { call, phase: ReadPhase::Updating },
            ReadAction::UpdateFileGroup { shuffle_id: call.shuffle_id },
        )
    }

    /// Takes up an event and says what to do next.
    pub fn step(&mut self, event: ReadEvent) -> (action: ReadAction)
        requires
            answers(old(self).phase(), event@),
        ensures
            final(self).call() == old(self).call(),
            (final(self).phase(), action@) == read_step(
                old(self).call(),
                old(self).phase(),
                event@,
            ),
    {
        match event {
            ReadEvent::Updated(outcome) => match outcome {
                Ok(_) => {
                    self.phase = ReadPhase::Opening;
                    ReadAction::OpenPartition {
                        shuffle_id: self.call.shuffle_id,
                        partition_id: self.call.partition_id,
                        attempt_number: 0,
                        start_map_index: 0,
                        end_map_index: self.call.num_mappers,
                    }
                },
                Err(error) => self.fail(
                    CelebornError::CallFailed { call: NativeCall::UpdateReducerFileGroup, error },
                ),
            },
            ReadEvent::Opened(outcome) => match outcome {
                Ok(_) => {
                    self.phase = ReadPhase::Decoding;
                    ReadAction::DecodeStream
                },
                Err(error) => self.fail(
                    CelebornError::CallFailed { call: NativeCall::OpenPartition, error },
                ),
            },
            ReadEvent::StreamDecoded { captured } => {
                let chunk = block_from_vec(captured);
                if chunk.is_empty() {
                    ReadAction::DecodeStream
                } else {
                    self.phase = ReadPhase::Sending;
                    ReadAction::SendChunk(chunk)
                }
            },
            ReadEvent::HeaderRejected { captured, error } => if captured.is_empty() {
                self.phase = ReadPhase::Stopped;
                ReadAction::Stop
            } else {
                let corrupt = CelebornError::CorruptHeader {
                    shuffle_id: self.call.shuffle_id,
                    partition_id: self.call.partition_id,
                    num_mappers: self.call.num_mappers,
                    captured,
                    error,
                };
                self.fail(corrupt)
            },
            ReadEvent::BatchRejected { error } => self.fail(CelebornError::DecodeFailed { error }),
            ReadEvent::Sent { delivered } => {
                let sending = match self.phase {
                    ReadPhase::Sending => true,
                    _ => false,
                };
                if sending && delivered {
                    self.phase = ReadPhase::Decoding;
                    ReadAction::DecodeStream
                } else {
                    self.phase = ReadPhase::Stopped;
                    ReadAction::Stop
                }
            },
        }
    }

    fn fail(&mut self, error: CelebornError) -> (action: ReadAction)
        ensures
            final(self).call() == old(self).call(),
            final(self).phase() == ReadPhase::Failing,
            action@ == ReadActionView::SendError(error@),
    {
        self.phase = ReadPhase::Failing;
        ReadAction::SendError(error)
    }
}

/// What the receiver is sent while the outcomes of decoding are `decodes`, in order,
/// and everything is delivered.
pub open spec fn sent(
    call: ReadPartitionCall,
    phase: ReadPhase,
    decodes: Seq<ReadEventView>,
) -> Seq<ReadActionView>
    decreases decodes.len(),
{
    if phase != ReadPhase::Decoding || decodes.len() == 0 {
        Seq::empty()
    } else {
        let (next, action) = read_step(call, phase, decodes[0]);
        if action is SendChunk || action is SendError {
            let resumed = read_step(call, next, ReadEventView::Sent { delivered: true }).0;
            seq![action] + sent(call, resumed, decodes.drop_first())
        } else {
            sent(call, next, decodes.drop_first())
        }
    }
}

/// The bytes that the decoded streams took up, one after the other.
pub open spec fn captured_bytes(decodes: Seq<ReadEventView>) -> Seq<u8>
    decreases decodes.len(),
{
    if decodes.len() == 0 {
        Seq::empty()
    } else {
        decodes[0]->StreamDecoded_captured + captured_bytes(decodes.drop_first())
    }
}

/// The bytes of the chunks that were sent, one after the other.
pub open spec fn chunk_bytes(actions: Seq<ReadActionView>) -> Seq<u8>
    decreases actions.len(),
{
    if actions.len() == 0 {
        Seq::empty()
    } else {
        actions[0]->SendChunk_0 + chunk_bytes(actions.drop_first())
    }
}

/// One chunk for each decoded stream that took up any bytes, with those bytes, in order.
pub open spec fn stream_chunks(decodes: Seq<ReadEventView>) -> Seq<ReadActionView>
    decreases decodes.len(),
{
    if decodes.len() == 0 {
        Seq::empty()
    } else {
        let captured = decodes[0]->StreamDecoded_captured;
        let rest = stream_chunks(decodes.drop_first());
        if captured.len() == 0 {
            rest
        } else {
            seq![ReadActionView::SendChunk(captured)] + rest
        }
    }
}

/// The whole of a partition is sent, and nothing else: while every stream decodes, the
/// receiver gets one chunk for each stream that took up any bytes, with exactly those
/// bytes, in order. That no further header follows at the end adds nothing. Put together
/// the chunks are the bytes of the streams.
pub proof fn law_all_streams_are_sent(
    call: ReadPartitionCall,
    streams: Seq<ReadEventView>,
    end_error: Seq<char>,
)
    requires
        forall|i: int| 0 <= i < streams.len() ==> (#[trigger] streams[i]) is StreamDecoded,
    ensures
        ({
            let end = ReadEventView::HeaderRejected { captured: Seq::empty(), error: end_error };
            let out = sent(call, ReadPhase::Decoding, streams.push(end));
            &&& out == stream_chunks(streams)
            &&& chunk_bytes(out) == captured_bytes(streams)
        }),
    decreases streams.len(),
{
    let end = ReadEventView::HeaderRejected { captured: Seq::empty(), error: end_error };
    let all = streams.push(end);
    let out = sent(call, ReadPhase::Decoding, all);
    if streams.len() == 0 {
        assert(all[0] == end);
        assert(sent(call, ReadPhase::Stopped, all.drop_first()).len() == 0);
        assert(out =~= Seq::<ReadActionView>::empty());
    } else {
        assert(streams[0] is StreamDecoded);
        assert(all[0] == streams[0]);
        let rest = streams.drop_first();
        assert(all.drop_first() =~= rest.push(end));
        assert forall|i: int| 0 <= i < rest.len() implies (#[trigger] rest[i]) is StreamDecoded by {
            assert(rest[i] == streams[i + 1]);
        }
        law_all_streams_are_sent(call, rest, end_error);
        let tail = sent(call, ReadPhase::Decoding, rest.push(end));
        let captured = streams[0]->StreamDecoded_captured;
        if captured.len() == 0 {
            assert(out == tail);
            assert(captured + captured_bytes(rest) =~= captured_bytes(rest));
        } else {
            assert(out == seq![ReadActionView::SendChunk(captured)] + tail);
            assert(out.drop_first() =~= tail);
        }
    }
}

/// A failure is the last thing that a receiver gets: whatever decoding comes to,
/// everything that is sent before the last item is a chunk.
pub proof fn law_nothing_follows_a_failure(call: ReadPartitionCall, decodes: Seq<ReadEventView>)
    requires
        forall|i: int| 0 <= i < decodes.len() ==> answers(ReadPhase::Decoding, #[trigger] decodes[i]),
    ensures
        ({
            let out = sent(call, ReadPhase::Decoding, decodes);
            forall|i: int| 0 <= i < out.len() - 1 ==> (#[trigger] out[i]) is SendChunk
        }),
    decreases decodes.len(),
{
    if decodes.len() > 0 {
        let out = sent(call, ReadPhase::Decoding, decodes);
        let rest = decodes.drop_first();
        assert(answers(ReadPhase::Decoding, decodes[0]));
        assert forall|i: int| 0 <= i < rest.len() implies answers(
            ReadPhase::Decoding,
            #[trigger] rest[i],
        ) by {
            assert(rest[i] == decodes[i + 1]);
        }
        law_nothing_follows_a_failure(call, rest);
        let (next, action) = read_step(call, ReadPhase::Decoding, decodes[0]);
        assert(sent(call, ReadPhase::Stopped, rest).len() == 0);
        if action is SendChunk {
            let tail = sent(call, ReadPhase::Decoding, rest);
            assert(out == seq![action] + tail);
            assert forall|i: int| 0 <= i < out.len() - 1 implies (#[trigger] out[i]) is SendChunk by {
                if i > 0 {
                    assert(out[i] == tail[i - 1]);
                }
            }
        }
    }
}

/// A read that is over stays over, and it is over as soon as the receiver is gone or
/// has been sent a failure.
pub proof fn law_read_stops(call: ReadPartitionCall, delivered: bool, event: ReadEventView)
    ensures
        read_step(call, ReadPhase::Sending, ReadEventView::Sent { delivered: false }) == (
            ReadPhase::Stopped,
            ReadActionView::Stop,
        ),
        read_step(call, ReadPhase::Failing, ReadEventView::Sent { delivered }) == (
            ReadPhase::Stopped,
            ReadActionView::Stop,
        ),
        !answers(ReadPhase::Stopped, event),
{
}

/// A read begins with the update of the locations of the shuffle that the call names.
pub proof fn law_read_begins_with_update(
    call: ReadPartitionCall,
    started: (PartitionReadTask, ReadAction),
)
    requires
        call_ensures(PartitionReadTask::start, (call,), started),
    ensures
        started.0.call() == call,
        started.0.phase() == ReadPhase::Updating,
        started.1 matches ReadAction::UpdateFileGroup { shuffle_id } && shuffle_id
            == call.shuffle_id,
{
}

/// Once the locations are updated, the partition that the call names is opened, of the
/// shuffle that the call names, for the outputs of all its mappers: from the first one up
/// to the number of mappers of the call.
pub proof fn law_read_opens_all_map_outputs(
    task: &mut PartitionReadTask,
    event: ReadEvent,
    action: ReadAction,
)
    requires
        call_ensures(PartitionReadTask::step, (task, event), action),
        event matches ReadEvent::Updated(Ok(_)),
    ensures
        action matches ReadAction::OpenPartition {
            shuffle_id,
            partition_id,
            attempt_number,
            start_map_index,
            end_map_index,
        } && {
            &&& shuffle_id == old(task).call().shuffle_id
            &&& partition_id == old(task).call().partition_id
            &&& attempt_number == 0
            &&& start_map_index == 0
            &&& end_map_index == old(task).call().num_mappers
        },
        final(task).call() == old(task).call(),
        final(task).phase() == ReadPhase::Opening,
{
}

/// An opened partition is decoded stream by stream. The captured bytes of a decoded stream
/// are sent, all of them and no others, before the next stream is decoded; a stream of no
/// bytes is passed over.
pub proof fn law_read_sends_what_was_captured(
    task: &mut PartitionReadTask,
    event: ReadEvent,
    action: ReadAction,
)
    requires
        call_ensures(PartitionReadTask::step, (task, event), action),
    ensures
        final(task).call() == old(task).call(),
        event matches ReadEvent::Opened(Ok(_)) ==> action is DecodeStream && final(task).phase()
            == ReadPhase::Decoding,
        event matches ReadEvent::StreamDecoded { captured } ==> if captured@.len() == 0 {
            action is DecodeStream && final(task).phase() == ReadPhase::Decoding
        } else {
            action matches ReadAction::SendChunk(chunk) && crate::blocks::content(chunk)
                == captured@ && final(task).phase() == ReadPhase::Sending
        },
        event matches ReadEvent::Sent { delivered } ==> if delivered && old(task).phase()
            == ReadPhase::Sending {
            action is DecodeStream && final(task).phase() == ReadPhase::Decoding
        } else {
            action is Stop && final(task).phase() == ReadPhase::Stopped
        },
{
}

/// Every failure is reported for what it is. A failed update or opening names the call that
/// failed, with its error; a batch that cannot be decoded carries the decoder's error. A
/// header that cannot be read is the end of the partition where nothing was captured;
/// otherwise the partition is corrupt, and the report names it, its shuffle, the number of
/// mappers, the captured bytes and the error.
pub proof fn law_read_reports_failures(
    task: &mut PartitionReadTask,
    event: ReadEvent,
    action: ReadAction,
)
    requires
        call_ensures(PartitionReadTask::step, (task, event), action),
    ensures
        event matches ReadEvent::Updated(Err(e)) ==> final(task).phase() == ReadPhase::Failing && (
        action matches ReadAction::SendError(CelebornError::CallFailed { call, error }) && call
            == NativeCall::UpdateReducerFileGroup && error@ == e@),
        event matches ReadEvent::Opened(Err(e)) ==> final(task).phase() == ReadPhase::Failing && (
        action matches ReadAction::SendError(CelebornError::CallFailed { call, error }) && call
            == NativeCall::OpenPartition && error@ == e@),
        event matches ReadEvent::BatchRejected { error: e } ==> final(task).phase()
            == ReadPhase::Failing && (action matches ReadAction::SendError(
            CelebornError::DecodeFailed { error },
        ) && error@ == e@),
        event matches ReadEvent::HeaderRejected { captured: bytes, error: e } ==> if bytes@.len()
            == 0 {
            action is Stop && final(task).phase() == ReadPhase::Stopped
        } else {
            &&& final(task).phase() == ReadPhase::Failing
            &&& action matches ReadAction::SendError(
                CelebornError::CorruptHeader {
                    shuffle_id,
                    partition_id,
                    num_mappers,
                    captured,
                    error,
                },
            ) && {
                &&& shuffle_id == old(task).call().shuffle_id
                &&& partition_id == old(task).call().partition_id
                &&& num_mappers == old(task).call().num_mappers
                &&& captured@ == bytes@
                &&& error@ == e@
            }
        },
{
}

/// Each outcome is awaited exactly where its action was the last one.
pub proof fn law_outcomes_are_awaited(
    phase: ReadPhase,
    outcome: Result<(), Seq<char>>,
    captured: Seq<u8>,
    error: Seq<char>,
    delivered: bool,
)
    ensures
        answers(phase, ReadEventView::Updated(outcome)) <==> phase == ReadPhase::Updating,
        answers(phase, ReadEventView::Opened(outcome)) <==> phase == ReadPhase::Opening,
        answers(phase, (ReadEventView::StreamDecoded { captured })) <==> phase
            == ReadPhase::Decoding,
        answers(phase, (ReadEventView::HeaderRejected { captured, error })) <==> phase
            == ReadPhase::Decoding,
        answers(phase, (ReadEventView::BatchRejected { error })) <==> phase == ReadPhase::Decoding,
        answers(phase, (ReadEventView::Sent { delivered })) <==> phase == ReadPhase::Sending
            || phase == ReadPhase::Failing,
{
}

/// The view of an event or an action tells all that it holds, and nothing else.
pub proof fn law_read_views_are_faithful(event: ReadEvent, action: ReadAction)
    ensures
        match event {
            ReadEvent::Updated(Ok(_)) => event@ == ReadEventView::Updated(Ok(())),
            ReadEvent::Updated(Err(e)) => event@ == ReadEventView::Updated(Err(e@)),
            ReadEvent::Opened(Ok(_)) => event@ == ReadEventView::Opened(Ok(())),
            ReadEvent::Opened(Err(e)) => event@ == ReadEventView::Opened(Err(e@)),
            ReadEvent::StreamDecoded { captured } => event@ == (ReadEventView::StreamDecoded {
                captured: captured@,
            }),
            ReadEvent::HeaderRejected { captured, error } => event@ == (
            ReadEventView::HeaderRejected { captured: captured@, error: error@ }),
            ReadEvent::BatchRejected { error } => event@ == (ReadEventView::BatchRejected {
                error: error@,
            }),
            ReadEvent::Sent { delivered } => event@ == (ReadEventView::Sent { delivered }),
        },
        match action {
            ReadAction::UpdateFileGroup { shuffle_id } => action@ == (
            ReadActionView::UpdateFileGroup { shuffle_id }),
            ReadAction::OpenPartition {
                shuffle_id,
                partition_id,
                attempt_number,
                start_map_index,
                end_map_index,
            } => action@ == (ReadActionView::OpenPartition {
                shuffle_id,
                partition_id,
                attempt_number,
                start_map_index,
                end_map_index,
            }),
            ReadAction::DecodeStream => action@ == ReadActionView::DecodeStream,
            ReadAction::SendChunk(chunk) => action@ == ReadActionView::SendChunk(
                crate::blocks::content(chunk),
            ),
            ReadAction::SendError(e) => action@ == ReadActionView::SendError(e@),
            ReadAction::Stop => action@ == ReadActionView::Stop,
        },
{
}

} // verus!
