//! Shuffle over a remote Celeborn cluster: the identifiers, the client-side
//! bookkeeping, the map-side repartition sink and the reduce-side read loop.
//!
//! The modules hold the decisions. Network calls, Arrow decoding and task
//! scheduling belong to the application around the library, which performs the
//! calls that the library asks for and hands the outcomes back.

pub mod blocks;
pub mod celeborn_backend;
pub mod celeborn_sink;
pub mod client;
pub mod end_to_end;
pub mod error;
pub mod ffi;
pub mod mock;
pub mod partition_read;
pub mod partition_refs;
pub mod repartition;
pub mod repartition_laws;
pub mod shared;
pub mod shuffle_backend;
pub mod shuffle_metadata;
pub mod sink_laws;
pub mod sums;
pub mod text;
