//! The client of a Celeborn cluster that works through the native client.
//!
//! The native client takes 32-bit signed identifiers and the sizes of the shuffle
//! with every call. This module keeps the sizes of the registered shuffles, checks
//! the identifiers, and says what each call is given and how its outcome is
//! reported. The application makes the calls.

use std::collections::HashMap;

use vstd::prelude::*;
use vstd::string::*;

use crate::client::CelebornClientConfig;
use crate::error::{CelebornError, ErrorView, NativeCall};

verus! {

broadcast use vstd::std_specs::hash::group_hash_axioms;

/// Whether a value is too large for the identifiers of the native client.
pub open spec fn overflows(value: u64) -> bool {
    value > i32::MAX
}

/// The report on an identifier that is too large.
pub open spec fn overflow_error(name: Seq<char>, value: u64) -> ErrorView {
    ErrorView::IdOverflow { name, value }
}

/// Converts a value to the identifiers of the native client. Fails where it is too
/// large for them, with `name` and the value in the report.
pub fn to_ffi_i32(value: u64, name: &str) -> (r: Result<i32, CelebornError>)
    ensures
        match r {
            Ok(id) => !overflows(value) && id == value,
            Err(e) => overflows(value) && e@ == overflow_error(name@, value),
        },
{
    if value <= i32::MAX as u64 {
        Ok(value as i32)
    } else {
        Err(CelebornError::IdOverflow { name: String::from_str(name), value })
    }
}

/// The arguments of a native `push_data` call.
#[derive(Debug)]
pub struct PushDataCall {
    pub shuffle_id: i32,
    pub map_id: i32,
    pub attempt_id: i32,
    pub partition_id: i32,
    pub data: Vec<u8>,
    pub num_mappers: i32,
    pub num_partitions: i32,
}

/// The arguments of a native `mapper_end` call.
#[derive(Clone, Copy, Debug, PartialEq, Eq, Structural)]
pub struct MapperEndCall {
    pub shuffle_id: i32,
    pub map_id: i32,
    pub attempt_id: i32,
    pub num_mappers: i32,
}

/// What the read of a partition is made with.
#[derive(Clone, Copy, Debug, PartialEq, Eq, Structural)]
pub struct ReadPartitionCall {
    pub shuffle_id: i32,
    pub partition_id: i32,
    pub num_mappers: i32,
}

/// Why a `push_data` is refused before the native call, if it is: the shuffle is not
/// registered, or an identifier is too large. The first of the identifiers that is
/// too large is reported.
pub open spec fn push_refusal(
    meta: Map<u64, (u32, u32)>,
    shuffle_id: u64,
    map_id: u32,
    attempt_id: u32,
    partition_id: u32,
) -> Option<ErrorView> {
    if !meta.contains_key(shuffle_id) {
        Some(ErrorView::NotRegistered { shuffle_id })
    } else {
        let (num_mappers, num_partitions) = meta[shuffle_id];
        if overflows(shuffle_id) {
            Some(overflow_error("shuffle_id"@, shuffle_id))
        } else if overflows(map_id as u64) {
            Some(overflow_error("map_id"@, map_id as u64))
        } else if overflows(attempt_id as u64) {
            Some(overflow_error("attempt_id"@, attempt_id as u64))
        } else if overflows(partition_id as u64) {
            Some(overflow_error("partition_id"@, partition_id as u64))
        } else if overflows(num_mappers as u64) {
            Some(overflow_error("num_mappers"@, num_mappers as u64))
        } else if overflows(num_partitions as u64) {
            Some(overflow_error("num_partitions"@, num_partitions as u64))
        } else {
            None
        }
    }
}

/// Why a `mapper_end` is refused before the native call, if it is.
pub open spec fn mapper_end_refusal(
    meta: Map<u64, (u32, u32)>,
    shuffle_id: u64,
    map_id: u32,
    attempt_id: u32,
) -> Option<ErrorView> {
    if !meta.contains_key(shuffle_id) {
        Some(ErrorView::NotRegistered { shuffle_id })
    } else {
        let num_mappers = meta[shuffle_id].0;
        if overflows(shuffle_id) {
            Some(overflow_error("shuffle_id"@, shuffle_id))
        } else if overflows(map_id as u64) {
            Some(overflow_error("map_id"@, map_id as u64))
        } else if overflows(attempt_id as u64) {
            Some(overflow_error("attempt_id"@, attempt_id as u64))
        } else if overflows(num_mappers as u64) {
            Some(overflow_error("num_mappers"@, num_mappers as u64))
        } else {
            None
        }
    }
}

/// Why a `read_partition` is refused before the native call, if it is.
pub open spec fn read_refusal(
    meta: Map<u64, (u32, u32)>,
    shuffle_id: u64,
    partition_id: u32,
) -> Option<ErrorView> {
    if !meta.contains_key(shuffle_id) {
        Some(ErrorView::NotRegistered { shuffle_id })
    } else {
        let num_mappers = meta[shuffle_id].0;
        if overflows(shuffle_id) {
            Some(overflow_error("shuffle_id"@, shuffle_id))
        } else if overflows(partition_id as u64) {
            Some(overflow_error("partition_id"@, partition_id as u64))
        } else if overflows(num_mappers as u64) {
            Some(overflow_error("num_mappers"@, num_mappers as u64))
        } else {
            None
        }
    }
}

/// The report on a native call that ran on a thread of its own: `Err` of `joined` is
/// a panic of that thread, and `Err` within it a failure that the call reported.
pub open spec fn call_failure(
    call: NativeCall,
    joined: Result<Result<(), String>, String>,
) -> Option<ErrorView> {
    match joined {
        Err(panic) => Some(ErrorView::TaskPanicked { call, error: panic@ }),
        Ok(Err(error)) => Some(ErrorView::CallFailed { call, error: error@ }),
        Ok(Ok(_)) => None,
    }
}

/// Reports the outcome of a native call that ran on a thread of its own.
pub fn call_outcome(call: NativeCall, joined: Result<Result<(), String>, String>) -> (r: Result<
    (),
    CelebornError,
>)
    ensures
        match r {
            Ok(_) => call_failure(call, joined) is None,
            Err(e) => call_failure(call, joined) == Some(e@),
        },
{
    match joined {
        Err(error) => Err(CelebornError::TaskPanicked { call, error }),
        Ok(Err(error)) => Err(CelebornError::CallFailed { call, error }),
        Ok(Ok(_)) => Ok(()),
    }
}

/// The bookkeeping of a client that is connected to a Celeborn cluster.
///
/// One value serves all the shuffles of a process. It keeps, for each registered
/// shuffle, its number of mappers and of partitions.
#[derive(Debug)]
pub struct ShuffleCelebornClient {
    shuffle_meta: HashMap<u64, (u32, u32)>,
}

impl View for ShuffleCelebornClient {
    type V = Map<u64, (u32, u32)>;

    /// The number of mappers and of partitions of each registered shuffle.
    closed spec fn view(&self) -> Map<u64, (u32, u32)> {
        self.shuffle_meta@
    }
}

impl ShuffleCelebornClient {
    /// The client after an attempt to connect with the
    /// [request](CelebornClientConfig::connect_request) of the configuration. `outcome`
    /// is what the native client made of it. A connected client knows no shuffle.
    pub fn connect(config: &CelebornClientConfig, outcome: Result<(), String>) -> (r: Result<
        Self,
        CelebornError,
    >)
        ensures
            match (outcome, r) {
                (Ok(_), Ok(client)) => client@ == Map::<u64, (u32, u32)>::empty(),
                (Err(error), Err(e)) => e@ == (ErrorView::ConnectFailed {
                    host: config.lm_host@,
                    port: config.lm_port,
                    error: error@,
                }),
                _ => false,
            },
    {
        match outcome {
            Ok(_) => Ok(ShuffleCelebornClient { shuffle_meta: HashMap::new() }),
            Err(error) => Err(
                CelebornError::ConnectFailed {
                    host: config.lm_host.clone(),
                    port: config.lm_port,
                    error,
                },
            ),
        }
    }

    /// Registers a shuffle. The metadata of an earlier registration is replaced.
    pub fn register_shuffle(&mut self, shuffle_id: u64, num_mappers: u32, num_partitions: u32)
        ensures
            final(self)@ == old(self)@.insert(shuffle_id, (num_mappers, num_partitions)),
    {
        self.shuffle_meta.insert(shuffle_id, (num_mappers, num_partitions));
    }

    fn meta(&self, shuffle_id: u64) -> (r: Result<(u32, u32), CelebornError>)
        ensures
            match r {
                Ok(m) => self@.contains_key(shuffle_id) && m == self@[shuffle_id],
                Err(e) => !self@.contains_key(shuffle_id) && e@ == (ErrorView::NotRegistered {
                    shuffle_id,
                }),
            },
    {
        match self.shuffle_meta.get(&shuffle_id) {
            Some(m) => Ok(*m),
            None => Err(CelebornError::NotRegistered { shuffle_id }),
        }
    }

    /// What a native `push_data` call is given to push `data` to a partition.
    pub fn push_data(
        &self,
        shuffle_id: u64,
        map_id: u32,
        attempt_id: u32,
        partition_id: u32,
        data: &[u8],
    ) -> (r: Result<PushDataCall, CelebornError>)
        ensures
            match r {
                Ok(call) => {
                    &&& push_refusal(self@, shuffle_id, map_id, attempt_id, partition_id) is None
                    &&& call.shuffle_id == shuffle_id
                    &&& call.map_id == map_id
                    &&& call.attempt_id == attempt_id
                    &&& call.partition_id == partition_id
                    &&& call.data@ == data@
                    &&& call.num_mappers == self@[shuffle_id].0
                    &&& call.num_partitions == self@[shuffle_id].1
                },
                Err(e) => push_refusal(self@, shuffle_id, map_id, attempt_id, partition_id)
                    == Some(e@),
            },
    {
        let (num_mappers_raw, num_partitions_raw) = self.meta(shuffle_id)?;
        let shuffle_id = to_ffi_i32(shuffle_id, "shuffle_id")?;
        let map_id = to_ffi_i32(map_id as u64, "map_id")?;
        let attempt_id = to_ffi_i32(attempt_id as u64, "attempt_id")?;
        let partition_id = to_ffi_i32(partition_id as u64, "partition_id")?;
        let num_mappers = to_ffi_i32(num_mappers_raw as u64, "num_mappers")?;
        let num_partitions = to_ffi_i32(num_partitions_raw as u64, "num_partitions")?;
        let data = vstd::slice::slice_to_vec(data);
        Ok(
            PushDataCall {
                shuffle_id,
                map_id,
                attempt_id,
                partition_id,
                data,
                num_mappers,
                num_partitions,
            },
        )
    }

    /// What a native `mapper_end` call is given to end a map attempt.
    pub fn mapper_end(&self, shuffle_id: u64, map_id: u32, attempt_id: u32) -> (r: Result<
        MapperEndCall,
        CelebornError,
    >)
        ensures
            match r {
                Ok(call) => {
                    &&& mapper_end_refusal(self@, shuffle_id, map_id, attempt_id) is None
                    &&& call.shuffle_id == shuffle_id
                    &&& call.map_id == map_id
                    &&& call.attempt_id == attempt_id
                    &&& call.num_mappers == self@[shuffle_id].0
                },
                Err(e) => mapper_end_refusal(self@, shuffle_id, map_id, attempt_id) == Some(e@),
            },
    {
        let (num_mappers_raw, _) = self.meta(shuffle_id)?;
        let shuffle_id = to_ffi_i32(shuffle_id, "shuffle_id")?;
        let map_id = to_ffi_i32(map_id as u64, "map_id")?;
        let attempt_id = to_ffi_i32(attempt_id as u64, "attempt_id")?;
        let num_mappers = to_ffi_i32(num_mappers_raw as u64, "num_mappers")?;
        Ok(MapperEndCall { shuffle_id, map_id, attempt_id, num_mappers })
    }

    /// What the read of a partition is made with. The read itself is a
    /// [`PartitionReadTask`](crate::partition_read::PartitionReadTask).
    pub fn read_partition(&self, shuffle_id: u64, partition_id: u32) -> (r: Result<
        ReadPartitionCall,
        CelebornError,
    >)
        ensures
            match r {
                Ok(call) => {
                    &&& read_refusal(self@, shuffle_id, partition_id) is None
                    &&& call.shuffle_id == shuffle_id
                    &&& call.partition_id == partition_id
                    &&& call.num_mappers == self@[shuffle_id].0
                },
                Err(e) => read_refusal(self@, shuffle_id, partition_id) == Some(e@),
            },
    {
        let (num_mappers_raw, _) = self.meta(shuffle_id)?;
        let shuffle_id = to_ffi_i32(shuffle_id, "shuffle_id")?;
        let partition_id = to_ffi_i32(partition_id as u64, "partition_id")?;
        let num_mappers = to_ffi_i32(num_mappers_raw as u64, "num_mappers")?;
        Ok(ReadPartitionCall { shuffle_id, partition_id, num_mappers })
    }

    /// Drops the metadata of a shuffle. The native client has no call for this: the
    /// cluster itself collects what it holds of the shuffle.
    pub fn unregister_shuffle(&mut self, shuffle_id: u64)
        ensures
            final(self)@ == old(self)@.remove(shuffle_id),
    {
        self.shuffle_meta.remove(&shuffle_id);
        assert(self@ =~= old(self)@.remove(shuffle_id));
    }
}

/// A registered shuffle is served: once it is registered, no push, mapper end or read
/// whose identifiers and sizes the native client can take is refused.
pub proof fn law_registered_shuffle_is_served(
    meta: Map<u64, (u32, u32)>,
    shuffle_id: u64,
    num_mappers: u32,
    num_partitions: u32,
    map_id: u32,
    attempt_id: u32,
    partition_id: u32,
)
    requires
        !overflows(shuffle_id),
        !overflows(num_mappers as u64),
        !overflows(num_partitions as u64),
        !overflows(map_id as u64),
        !overflows(attempt_id as u64),
        !overflows(partition_id as u64),
    ensures
        ({
            let after = meta.insert(shuffle_id, (num_mappers, num_partitions));
            &&& push_refusal(after, shuffle_id, map_id, attempt_id, partition_id) is None
            &&& mapper_end_refusal(after, shuffle_id, map_id, attempt_id) is None
            &&& read_refusal(after, shuffle_id, partition_id) is None
        }),
{
}

/// A shuffle that is not registered, or no longer, is refused as such, before any of
/// its identifiers is looked at.
pub proof fn law_unregistered_shuffle_is_refused(
    meta: Map<u64, (u32, u32)>,
    shuffle_id: u64,
    map_id: u32,
    attempt_id: u32,
    partition_id: u32,
)
    ensures
        ({
            let after = meta.remove(shuffle_id);
            let refusal = Some(ErrorView::NotRegistered { shuffle_id });
            &&& push_refusal(after, shuffle_id, map_id, attempt_id, partition_id) == refusal
            &&& mapper_end_refusal(after, shuffle_id, map_id, attempt_id) == refusal
            &&& read_refusal(after, shuffle_id, partition_id) == refusal
        }),
{
}

/// Registering a shuffle twice with the same sizes is registering it once, so mappers
/// that register concurrently do no harm. Unregistering it twice is unregistering it
/// once, and undoes the registration of a shuffle that was not registered before.
pub proof fn law_registration_is_idempotent(
    meta: Map<u64, (u32, u32)>,
    shuffle_id: u64,
    sizes: (u32, u32),
)
    ensures
        meta.insert(shuffle_id, sizes).insert(shuffle_id, sizes) == meta.insert(shuffle_id, sizes),
        meta.remove(shuffle_id).remove(shuffle_id) == meta.remove(shuffle_id),
        !meta.contains_key(shuffle_id) ==> meta.insert(shuffle_id, sizes).remove(shuffle_id)
            == meta,
{
    assert(meta.insert(shuffle_id, sizes).insert(shuffle_id, sizes) =~= meta.insert(
        shuffle_id,
        sizes,
    ));
    assert(meta.remove(shuffle_id).remove(shuffle_id) =~= meta.remove(shuffle_id));
    if !meta.contains_key(shuffle_id) {
        assert(meta.insert(shuffle_id, sizes).remove(shuffle_id) =~= meta);
    }
}

/// Registering or unregistering a shuffle changes nothing for any other shuffle.
pub proof fn law_shuffles_are_independent(
    meta: Map<u64, (u32, u32)>,
    changed: u64,
    sizes: (u32, u32),
    shuffle_id: u64,
    map_id: u32,
    attempt_id: u32,
    partition_id: u32,
)
    requires
        changed != shuffle_id,
    ensures
        forall|after: Map<u64, (u32, u32)>|
            after == meta.insert(changed, sizes) || after == meta.remove(changed) ==> {
                &&& #[trigger] push_refusal(after, shuffle_id, map_id, attempt_id, partition_id)
                    == push_refusal(meta, shuffle_id, map_id, attempt_id, partition_id)
                &&& mapper_end_refusal(after, shuffle_id, map_id, attempt_id)
                    == mapper_end_refusal(meta, shuffle_id, map_id, attempt_id)
                &&& read_refusal(after, shuffle_id, partition_id) == read_refusal(
                    meta,
                    shuffle_id,
                    partition_id,
                )
                &&& meta.contains_key(shuffle_id) ==> after[shuffle_id] == meta[shuffle_id]
            },
{
}

/// The largest identifier that the native client can take.
pub const LARGEST_NATIVE_ID: u64 = 2_147_483_647;

/// An identifier is converted as it is where it is at most the largest one, and otherwise
/// refused under its name.
pub proof fn law_identifiers_are_converted_unchanged(
    value: u64,
    name: &str,
    r: Result<i32, CelebornError>,
)
    requires
        call_ensures(to_ffi_i32, (value, name), r),
    ensures
        r is Ok <==> value <= LARGEST_NATIVE_ID,
        r matches Ok(id) ==> id == value,
        r matches Err(e) ==> e@ == (ErrorView::IdOverflow { name: name@, value }),
{
}

/// A list of named identifiers: the first one that is too large is the one reported.
pub open spec fn first_too_large(ids: Seq<(Seq<char>, u64)>) -> Option<ErrorView>
    decreases ids.len(),
{
    if ids.len() == 0 {
        None
    } else if ids[0].1 > LARGEST_NATIVE_ID {
        Some(ErrorView::IdOverflow { name: ids[0].0, value: ids[0].1 })
    } else {
        first_too_large(ids.drop_first())
    }
}

proof fn lemma_first_too_large(ids: Seq<(Seq<char>, u64)>)
    requires
        ids.len() > 0,
    ensures
        first_too_large(ids) == (if ids[0].1 > LARGEST_NATIVE_ID {
            Some(ErrorView::IdOverflow { name: ids[0].0, value: ids[0].1 })
        } else {
            first_too_large(ids.drop_first())
        }),
{
}

/// A push to a registered shuffle whose identifiers and sizes all fit is made with exactly
/// those, with the sizes the shuffle was registered with, and with the data as it is. Any
/// other is refused: because the shuffle is not registered, or for the first of its
/// identifiers and sizes that is too large.
pub proof fn law_push_is_made_as_asked(
    client: ShuffleCelebornClient,
    shuffle_id: u64,
    map_id: u32,
    attempt_id: u32,
    partition_id: u32,
    data: &[u8],
    r: Result<PushDataCall, CelebornError>,
)
    requires
        call_ensures(
            ShuffleCelebornClient::push_data,
            (&client, shuffle_id, map_id, attempt_id, partition_id, data),
            r,
        ),
    ensures
        !client@.contains_key(shuffle_id) ==> (r matches Err(e) && e@ == (ErrorView::NotRegistered {
            shuffle_id,
        })),
        client@.contains_key(shuffle_id) ==> {
            let (num_mappers, num_partitions) = client@[shuffle_id];
            let refused = first_too_large(
                seq![
                    ("shuffle_id"@, shuffle_id),
                    ("map_id"@, map_id as u64),
                    ("attempt_id"@, attempt_id as u64),
                    ("partition_id"@, partition_id as u64),
                    ("num_mappers"@, num_mappers as u64),
                    ("num_partitions"@, num_partitions as u64),
                ],
            );
            match r {
                Ok(call) => {
                    &&& refused is None
                    &&& call.shuffle_id == shuffle_id
                    &&& call.map_id == map_id
                    &&& call.attempt_id == attempt_id
                    &&& call.partition_id == partition_id
                    &&& call.data@ == data@
                    &&& call.num_mappers == num_mappers
                    &&& call.num_partitions == num_partitions
                },
                Err(e) => refused == Some(e@),
            }
        },
{
    if client@.contains_key(shuffle_id) {
        let (num_mappers, num_partitions) = client@[shuffle_id];
        let s5 = seq![("num_partitions"@, num_partitions as u64)];
        let s4 = seq![("num_mappers"@, num_mappers as u64)] + s5;
        let s3 = seq![("partition_id"@, partition_id as u64)] + s4;
        let s2 = seq![("attempt_id"@, attempt_id as u64)] + s3;
        let s1 = seq![("map_id"@, map_id as u64)] + s2;
        let s0 = seq![("shuffle_id"@, shuffle_id)] + s1;
        assert(s0.drop_first() =~= s1);
        assert(s1.drop_first() =~= s2);
        assert(s2.drop_first() =~= s3);
        assert(s3.drop_first() =~= s4);
        assert(s4.drop_first() =~= s5);
        lemma_first_too_large(s0);
        lemma_first_too_large(s1);
        lemma_first_too_large(s2);
        lemma_first_too_large(s3);
        lemma_first_too_large(s4);
        lemma_first_too_large(s5);
        assert(s5.drop_first() =~= Seq::empty());
        assert(first_too_large(s5.drop_first()) is None);
        assert(s0 =~= seq![
            ("shuffle_id"@, shuffle_id),
            ("map_id"@, map_id as u64),
            ("attempt_id"@, attempt_id as u64),
            ("partition_id"@, partition_id as u64),
            ("num_mappers"@, num_mappers as u64),
            ("num_partitions"@, num_partitions as u64),
        ]);
    }
}

/// The same of the end of a map attempt.
pub proof fn law_end_is_made_as_asked(
    client: ShuffleCelebornClient,
    shuffle_id: u64,
    map_id: u32,
    attempt_id: u32,
    r: Result<MapperEndCall, CelebornError>,
)
    requires
        call_ensures(
            ShuffleCelebornClient::mapper_end,
            (&client, shuffle_id, map_id, attempt_id),
            r,
        ),
    ensures
        !client@.contains_key(shuffle_id) ==> (r matches Err(e) && e@ == (ErrorView::NotRegistered {
            shuffle_id,
        })),
        client@.contains_key(shuffle_id) ==> {
            let num_mappers = client@[shuffle_id].0;
            let refused = first_too_large(
                seq![
                    ("shuffle_id"@, shuffle_id),
                    ("map_id"@, map_id as u64),
                    ("attempt_id"@, attempt_id as u64),
                    ("num_mappers"@, num_mappers as u64),
                ],
            );
            match r {
                Ok(call) => {
                    &&& refused is None
                    &&& call.shuffle_id == shuffle_id
                    &&& call.map_id == map_id
                    &&& call.attempt_id == attempt_id
                    &&& call.num_mappers == num_mappers
                },
                Err(e) => refused == Some(e@),
            }
        },
{
    if client@.contains_key(shuffle_id) {
        let num_mappers = client@[shuffle_id].0;
        let s3 = seq![("num_mappers"@, num_mappers as u64)];
        let s2 = seq![("attempt_id"@, attempt_id as u64)] + s3;
        let s1 = seq![("map_id"@, map_id as u64)] + s2;
        let s0 = seq![("shuffle_id"@, shuffle_id)] + s1;
        assert(s0.drop_first() =~= s1);
        assert(s1.drop_first() =~= s2);
        assert(s2.drop_first() =~= s3);
        lemma_first_too_large(s0);
        lemma_first_too_large(s1);
        lemma_first_too_large(s2);
        lemma_first_too_large(s3);
        assert(s3.drop_first() =~= Seq::empty());
        assert(first_too_large(s3.drop_first()) is None);
        assert(s0 =~= seq![
            ("shuffle_id"@, shuffle_id),
            ("map_id"@, map_id as u64),
            ("attempt_id"@, attempt_id as u64),
            ("num_mappers"@, num_mappers as u64),
        ]);
    }
}

/// The same of the read of a partition: it is made for all the mappers that the shuffle was
/// registered with.
pub proof fn law_read_is_made_as_asked(
    client: ShuffleCelebornClient,
    shuffle_id: u64,
    partition_id: u32,
    r: Result<ReadPartitionCall, CelebornError>,
)
    requires
        call_ensures(
            ShuffleCelebornClient::read_partition,
            (&client, shuffle_id, partition_id),
            r,
        ),
    ensures
        !client@.contains_key(shuffle_id) ==> (r matches Err(e) && e@ == (ErrorView::NotRegistered {
            shuffle_id,
        })),
        client@.contains_key(shuffle_id) ==> {
            let num_mappers = client@[shuffle_id].0;
            let refused = first_too_large(
                seq![
                    ("shuffle_id"@, shuffle_id),
                    ("partition_id"@, partition_id as u64),
                    ("num_mappers"@, num_mappers as u64),
                ],
            );
            match r {
                Ok(call) => {
                    &&& refused is None
                    &&& call.shuffle_id == shuffle_id
                    &&& call.partition_id == partition_id
                    &&& call.num_mappers == num_mappers
                },
                Err(e) => refused == Some(e@),
            }
        },
{
    if client@.contains_key(shuffle_id) {
        let num_mappers = client@[shuffle_id].0;
        let s2 = seq![("num_mappers"@, num_mappers as u64)];
        let s1 = seq![("partition_id"@, partition_id as u64)] + s2;
        let s0 = seq![("shuffle_id"@, shuffle_id)] + s1;
        assert(s0.drop_first() =~= s1);
        assert(s1.drop_first() =~= s2);
        lemma_first_too_large(s0);
        lemma_first_too_large(s1);
        lemma_first_too_large(s2);
        assert(s2.drop_first() =~= Seq::empty());
        assert(first_too_large(s2.drop_first()) is None);
        assert(s0 =~= seq![
            ("shuffle_id"@, shuffle_id),
            ("partition_id"@, partition_id as u64),
            ("num_mappers"@, num_mappers as u64),
        ]);
    }
}

/// A registered shuffle has the sizes it was registered with, and an unregistered one has
/// none; neither touches any other shuffle.
pub proof fn law_sizes_are_those_registered(
    client: &mut ShuffleCelebornClient,
    shuffle_id: u64,
    num_mappers: u32,
    num_partitions: u32,
    other: u64,
    r: (),
)
    ensures
        call_ensures(
            ShuffleCelebornClient::register_shuffle,
            (client, shuffle_id, num_mappers, num_partitions),
            r,
        ) ==> {
            &&& final(client)@.contains_key(shuffle_id)
            &&& final(client)@[shuffle_id] == (num_mappers, num_partitions)
            &&& other != shuffle_id ==> final(client)@.contains_key(other) == old(
                client,
            )@.contains_key(other) && final(client)@[other] == old(client)@[other]
        },
        call_ensures(ShuffleCelebornClient::unregister_shuffle, (client, shuffle_id), r) ==> {
            &&& !final(client)@.contains_key(shuffle_id)
            &&& other != shuffle_id ==> final(client)@.contains_key(other) == old(
                client,
            )@.contains_key(other) && (old(client)@.contains_key(other) ==> final(client)@[other]
                == old(client)@[other])
        },
{
}

/// A connection is reported as the native client reports it: a new client knows no shuffle,
/// and a failure names the configured host and port.
pub proof fn law_connection_is_reported(
    config: CelebornClientConfig,
    outcome: Result<(), String>,
    r: Result<ShuffleCelebornClient, CelebornError>,
    shuffle_id: u64,
)
    requires
        call_ensures(ShuffleCelebornClient::connect, (&config, outcome), r),
    ensures
        r is Ok <==> outcome is Ok,
        r matches Ok(client) ==> !client@.contains_key(shuffle_id),
        r matches Err(e) ==> e@ == (ErrorView::ConnectFailed {
            host: config.lm_host@,
            port: config.lm_port,
            error: outcome->Err_0@,
        }),
{
}

/// The outcome of a native call is passed on: a success as such, a failure of the call and a
/// panic of its thread each under the name of the call and with its own error.
pub proof fn law_outcome_is_passed_on(
    call: NativeCall,
    joined: Result<Result<(), String>, String>,
    r: Result<(), CelebornError>,
)
    requires
        call_ensures(call_outcome, (call, joined), r),
    ensures
        match joined {
            Ok(Ok(_)) => r is Ok,
            Ok(Err(error)) => r matches Err(e) && e@ == (ErrorView::CallFailed {
                call,
                error: error@,
            }),
            Err(error) => r matches Err(e) && e@ == (ErrorView::TaskPanicked {
                call,
                error: error@,
            }),
        },
{
}

} // verus!
