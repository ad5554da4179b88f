//! Failures of the shuffle client, and the text that reports them.

use vstd::prelude::*;
use vstd::string::*;

use crate::text::{append_byte_list, append_decimal, append_signed_decimal};

verus! {

/// The calls that the native Celeborn client offers.
#[derive(Clone, Copy, Debug, PartialEq, Eq, Structural)]
pub enum NativeCall {
    PushData,
    MapperEnd,
    UpdateReducerFileGroup,
    OpenPartition,
}

/// The name of a native call.
pub open spec fn native_call_name(call: NativeCall) -> Seq<char> {
    match call {
        NativeCall::PushData => "push_data"@,
        NativeCall::MapperEnd => "mapper_end"@,
        NativeCall::UpdateReducerFileGroup => "update_reducer_file_group"@,
        NativeCall::OpenPartition => "open_partition"@,
    }
}

impl NativeCall {
    /// The name of the call.
    pub fn name(&self) -> (r: &'static str)
        ensures
            r@ == native_call_name(*self),
    {
        match self {
            NativeCall::PushData => "push_data",
            NativeCall::MapperEnd => "mapper_end",
            NativeCall::UpdateReducerFileGroup => "update_reducer_file_group",
            NativeCall::OpenPartition => "open_partition",
        }
    }
}

/// A failure of the shuffle client.
#[allow(inconsistent_fields)]
#[derive(Debug)]
pub enum CelebornError {
    /// The LifecycleManager could not be reached.
    ConnectFailed { host: String, port: i32, error: String },
    /// The shuffle has no metadata: `register_shuffle` was not called for it.
    NotRegistered { shuffle_id: u64 },
    /// An identifier does not fit the 32-bit signed integers of the native client.
    IdOverflow { name: String, value: u64 },
    /// A native call reported a failure.
    CallFailed { call: NativeCall, error: String },
    /// The thread that ran a native call panicked.
    TaskPanicked { call: NativeCall, error: String },
    /// The lock on the shuffle metadata is poisoned.
    LockPoisoned { error: String },
    /// A record batch of a partition could not be decoded.
    DecodeFailed { error: String },
    /// The bytes of a partition do not start with an Arrow IPC stream header.
    CorruptHeader {
        shuffle_id: i32,
        partition_id: i32,
        num_mappers: i32,
        captured: Vec<u8>,
        error: String,
    },
}

/// What a [`CelebornError`] says.
#[allow(inconsistent_fields)]
#[verifier::ext_equal]
pub enum ErrorView {
    ConnectFailed { host: Seq<char>, port: i32, error: Seq<char> },
    NotRegistered { shuffle_id: u64 },
    IdOverflow { name: Seq<char>, value: u64 },
    CallFailed { call: NativeCall, error: Seq<char> },
    TaskPanicked { call: NativeCall, error: Seq<char> },
    LockPoisoned { error: Seq<char> },
    DecodeFailed { error: Seq<char> },
    CorruptHeader {
        shuffle_id: i32,
        partition_id: i32,
        num_mappers: i32,
        captured: Seq<u8>,
        error: Seq<char>,
    },
}

impl View for CelebornError {
    type V = ErrorView;

    open spec fn view(&self) -> ErrorView {
        match self {
            CelebornError::ConnectFailed { host, port, error } => ErrorView::ConnectFailed {
                host: host@,
                port: *port,
                error: error@,
            },
            CelebornError::NotRegistered { shuffle_id } => ErrorView::NotRegistered {
                shuffle_id: *shuffle_id,
            },
            CelebornError::IdOverflow { name, value } => ErrorView::IdOverflow {
                name: name@,
                value: *value,
            },
            CelebornError::CallFailed { call, error } => ErrorView::CallFailed {
                call: *call,
                error: error@,
            },
            CelebornError::TaskPanicked { call, error } => ErrorView::TaskPanicked {
                call: *call,
                error: error@,
            },
            CelebornError::LockPoisoned { error } => ErrorView::LockPoisoned { error: error@ },
            CelebornError::DecodeFailed { error } => ErrorView::DecodeFailed { error: error@ },
            CelebornError::CorruptHeader {
                shuffle_id,
                partition_id,
                num_mappers,
                captured,
                error,
            } => ErrorView::CorruptHeader {
                shuffle_id: *shuffle_id,
                partition_id: *partition_id,
                num_mappers: *num_mappers,
                captured: captured@,
                error: error@,
            },
        }
    }
}

/// The number of captured bytes that a report of a corrupt header shows.
pub open spec fn preview_len(captured: Seq<u8>) -> int {
    if captured.len() < 64 {
        captured.len() as int
    } else {
        64
    }
}

/// The text that reports a failure.
pub open spec fn message_text(e: ErrorView) -> Seq<char> {
    match e {
        ErrorView::ConnectFailed { host, port, error } => {
            "Failed to connect to Celeborn LifecycleManager at "@ + host + ":"@
                + crate::text::signed_decimal(port as int) + ": "@ + error
        },
        ErrorView::NotRegistered { shuffle_id } => {
            "shuffle "@ + crate::text::decimal(shuffle_id as nat)
                + " not registered; call register_shuffle first"@
        },
        ErrorView::IdOverflow { name, value } => {
            name + " "@ + crate::text::decimal(value as nat)
                + " overflows i32 (Celeborn FFI limit)"@
        },
        ErrorView::CallFailed { call, error } => {
            "Celeborn "@ + native_call_name(call) + " failed: "@ + error
        },
        ErrorView::TaskPanicked { call, error } => {
            "Celeborn "@ + native_call_name(call) + " task panicked: "@ + error
        },
        ErrorView::LockPoisoned { error } => "shuffle_meta lock poisoned: "@ + error,
        ErrorView::DecodeFailed { error } => "Celeborn IPC stream decode error: "@ + error,
        ErrorView::CorruptHeader { shuffle_id, partition_id, num_mappers, captured, error } => {
            let shown = preview_len(captured);
            "Celeborn: corrupt Arrow IPC stream header in partition data (shuffle_id="@
                + crate::text::signed_decimal(shuffle_id as int) + ", partition_id="@
                + crate::text::signed_decimal(partition_id as int) + ", num_mappers="@
                + crate::text::signed_decimal(num_mappers as int) + ", buffer_len="@
                + crate::text::decimal(captured.len()) + ", first_"@
                + crate::text::decimal(shown as nat) + "_bytes="@
                + crate::text::byte_list(captured.take(shown)) + ", ipc_error="@ + error + ")"@
        },
    }
}

impl CelebornError {
    /// The text that reports the failure.
    pub fn message(&self) -> (r: String)
        ensures
            r@ == message_text(self@),
    {
        let mut out = String::new();
        match self {
            CelebornError::ConnectFailed { host, port, error } => {
                out.append("Failed to connect to Celeborn LifecycleManager at ");
                out.append(host.as_str());
                out.append(":");
                append_signed_decimal(&mut out, *port);
                out.append(": ");
                out.append(error.as_str());
            },
            CelebornError::NotRegistered { shuffle_id } => {
                out.append("shuffle ");
                append_decimal(&mut out, *shuffle_id);
                out.append(" not registered; call register_shuffle first");
            },
            CelebornError::IdOverflow { name, value } => {
                out.append(name.as_str());
                out.append(" ");
                append_decimal(&mut out, *value);
                out.append(" overflows i32 (Celeborn FFI limit)");
            },
            CelebornError::CallFailed { call, error } => {
                out.append("Celeborn ");
                out.append(call.name());
                out.append(" failed: ");
                out.append(error.as_str());
            },
            CelebornError::TaskPanicked { call, error } => {
                out.append("Celeborn ");
                out.append(call.name());
                out.append(" task panicked: ");
                out.append(error.as_str());
            },
            CelebornError::LockPoisoned { error } => {
                out.append("shuffle_meta lock poisoned: ");
                out.append(error.as_str());
            },
            CelebornError::DecodeFailed { error } => {
                out.append("Celeborn IPC stream decode error: ");
                out.append(error.as_str());
            },
            CelebornError::CorruptHeader {
                shuffle_id,
                partition_id,
                num_mappers,
                captured,
                error,
            } => {
                let len: usize = captured.len();
                let shown: usize = if len < 64 { len } else { 64 };
                out.append("Celeborn: corrupt Arrow IPC stream header in partition data (shuffle_id=");
                append_signed_decimal(&mut out, *shuffle_id);
                out.append(", partition_id=");
                append_signed_decimal(&mut out, *partition_id);
                out.append(", num_mappers=");
                append_signed_decimal(&mut out, *num_mappers);
                out.append(", buffer_len=");
                append_decimal(&mut out, len as u64);
                out.append(", first_");
                append_decimal(&mut out, shown as u64);
                out.append("_bytes=");
                append_byte_list(&mut out, captured, shown);
                out.append(", ipc_error=");
                out.append(error.as_str());
                out.append(")");
            },
        }
        assert(out@ =~= message_text(self@));
        out
    }
}

/// A report names the failure and all that is known of it. Of captured bytes it shows the
/// first 64, or all where there are fewer, and says how many there are and how many it shows.
pub proof fn law_reports_say_what_failed(e: CelebornError, r: String)
    requires
        call_ensures(CelebornError::message, (&e,), r),
    ensures
        match e {
            CelebornError::ConnectFailed { host, port, error } => r@
                == "Failed to connect to Celeborn LifecycleManager at "@ + host@ + ":"@
                + crate::text::signed_decimal(port as int) + ": "@ + error@,
            CelebornError::NotRegistered { shuffle_id } => r@ == "shuffle "@
                + crate::text::decimal(shuffle_id as nat)
                + " not registered; call register_shuffle first"@,
            CelebornError::IdOverflow { name, value } => r@ == name@ + " "@ + crate::text::decimal(
                value as nat,
            ) + " overflows i32 (Celeborn FFI limit)"@,
            CelebornError::CallFailed { call, error } => r@ == "Celeborn "@ + called(call)
                + " failed: "@ + error@,
            CelebornError::TaskPanicked { call, error } => r@ == "Celeborn "@ + called(call)
                + " task panicked: "@ + error@,
            CelebornError::LockPoisoned { error } => r@ == "shuffle_meta lock poisoned: "@ + error@,
            CelebornError::DecodeFailed { error } => r@ == "Celeborn IPC stream decode error: "@
                + error@,
            CelebornError::CorruptHeader {
                shuffle_id,
                partition_id,
                num_mappers,
                captured,
                error,
            } => {
                let shown = if captured@.len() <= 64 {
                    captured@
                } else {
                    captured@.take(64)
                };
                r@
                    == "Celeborn: corrupt Arrow IPC stream header in partition data (shuffle_id="@
                    + crate::text::signed_decimal(shuffle_id as int) + ", partition_id="@
                    + crate::text::signed_decimal(partition_id as int) + ", num_mappers="@
                    + crate::text::signed_decimal(num_mappers as int) + ", buffer_len="@
                    + crate::text::decimal(captured@.len()) + ", first_"@ + crate::text::decimal(
                    shown.len(),
                ) + "_bytes="@ + crate::text::byte_list(shown) + ", ipc_error="@ + error@ + ")"@
            },
        },
{
    if let CelebornError::CorruptHeader { captured, .. } = e {
        if captured@.len() <= 64 {
            assert(captured@.take(captured@.len() as int) =~= captured@);
        }
    }
}

/// The name under which the native client offers a call.
pub open spec fn called(call: NativeCall) -> Seq<char> {
    if call == NativeCall::PushData {
        "push_data"@
    } else if call == NativeCall::MapperEnd {
        "mapper_end"@
    } else if call == NativeCall::UpdateReducerFileGroup {
        "update_reducer_file_group"@
    } else {
        "open_partition"@
    }
}

/// The view of an error tells all that it holds, and nothing else.
pub proof fn law_error_view_is_faithful(e: CelebornError)
    ensures
        match e {
            CelebornError::ConnectFailed { host, port, error } => e@ == (ErrorView::ConnectFailed {
                host: host@,
                port,
                error: error@,
            }),
            CelebornError::NotRegistered { shuffle_id } => e@ == (ErrorView::NotRegistered {
                shuffle_id,
            }),
            CelebornError::IdOverflow { name, value } => e@ == (ErrorView::IdOverflow {
                name: name@,
                value,
            }),
            CelebornError::CallFailed { call, error } => e@ == (ErrorView::CallFailed {
                call,
                error: error@,
            }),
            CelebornError::TaskPanicked { call, error } => e@ == (ErrorView::TaskPanicked {
                call,
                error: error@,
            }),
            CelebornError::LockPoisoned { error } => e@ == (ErrorView::LockPoisoned {
                error: error@,
            }),
            CelebornError::DecodeFailed { error } => e@ == (ErrorView::DecodeFailed {
                error: error@,
            }),
            CelebornError::CorruptHeader {
                shuffle_id,
                partition_id,
                num_mappers,
                captured,
                error,
            } => e@ == (ErrorView::CorruptHeader {
                shuffle_id,
                partition_id,
                num_mappers,
                captured: captured@,
                error: error@,
            }),
        },
{
}

/// A native call is named as the native client names it.
pub proof fn law_calls_are_named(call: NativeCall, r: &'static str)
    requires
        call_ensures(NativeCall::name, (&call,), r),
    ensures
        r@ == called(call),
{
}

} // verus!
