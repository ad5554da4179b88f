//! The map side of a Celeborn shuffle: what a mapper pushes for each batch of
//! input, the counters that it keeps, and the metadata that all mappers of a
//! process report together.

use std::collections::HashSet;

use vstd::prelude::*;

use crate::shuffle_metadata::ShufflePartitionMeta;

verus! {

broadcast use vstd::std_specs::hash::group_hash_axioms;

/// Per-mapper state of the Celeborn backend.
///
/// One value exists per concurrent input task. The counters are kept across
/// batches, so that the metadata can be produced without a second pass over
/// the data.
#[derive(Debug)]
pub struct CelebornRepartitionState {
    shuffle_id: u64,
    map_id: u32,
    attempt_id: u32,
    /// Total number of map tasks of this shuffle.
    num_mappers: u32,
    /// Whether the shuffle has been registered through this state.
    registered: bool,
    /// Rows pushed so far, per partition.
    rows_per_partition: Vec<usize>,
    /// Bytes pushed so far, per partition.
    bytes_per_partition: Vec<usize>,
    num_partitions: u32,
}

/// What a [`CelebornRepartitionState`] holds.
#[verifier::ext_equal]
pub struct SinkStateView {
    pub shuffle_id: u64,
    pub map_id: u32,
    pub attempt_id: u32,
    pub num_mappers: u32,
    pub registered: bool,
    pub rows: Seq<usize>,
    pub bytes: Seq<usize>,
    pub num_partitions: u32,
}

impl SinkStateView {
    /// Both counters cover the same partitions, and the partition count is their
    /// number, cut to 32 bits.
    pub open spec fn wf(self) -> bool {
        &&& self.rows.len() == self.bytes.len()
        &&& self.num_partitions == self.rows.len() % 0x1_0000_0000
    }

    /// The map attempt that the state belongs to.
    pub open spec fn attempt(self) -> MapperAttempt {
        MapperAttempt {
            shuffle_id: self.shuffle_id,
            map_id: self.map_id,
            attempt_id: self.attempt_id,
        }
    }

    /// The state after `rows` rows in `size` bytes went to partition `i`.
    pub open spec fn pushed(self, i: int, rows: usize, size: int) -> Self {
        SinkStateView {
            rows: self.rows.update(i, (self.rows[i] + rows) as usize),
            bytes: self.bytes.update(i, (self.bytes[i] + size) as usize),
            ..self
        }
    }
}

impl View for CelebornRepartitionState {
    type V = SinkStateView;

    closed spec fn view(&self) -> SinkStateView {
        SinkStateView {
            shuffle_id: self.shuffle_id,
            map_id: self.map_id,
            attempt_id: self.attempt_id,
            num_mappers: self.num_mappers,
            registered: self.registered,
            rows: self.rows_per_partition@,
            bytes: self.bytes_per_partition@,
            num_partitions: self.num_partitions,
        }
    }
}

/// `n` counters at zero.
pub open spec fn zeros(n: nat) -> Seq<usize> {
    Seq::new(n, |i: int| 0usize)
}

fn zero_counters(n: usize) -> (r: Vec<usize>)
    ensures
        r@ == zeros(n as nat),
{
    let mut r: Vec<usize> = Vec::new();
    let mut i: usize = 0;
    while i < n
        invariant
            i <= n,
            r@ == zeros(i as nat),
        decreases n - i,
    {
        r.push(0);
        i += 1;
        assert(r@ =~= zeros(i as nat));
    }
    r
}

/// The state that a mapper starts with: nothing registered, nothing pushed. The
/// attempt is always the first one, and the partition count is cut to 32 bits.
pub open spec fn initial_state(
    shuffle_id: u64,
    map_id: u32,
    num_mappers: u32,
    num_partitions: usize,
) -> SinkStateView {
    SinkStateView {
        shuffle_id,
        map_id,
        attempt_id: 0,
        num_mappers,
        registered: false,
        rows: zeros(num_partitions as nat),
        bytes: zeros(num_partitions as nat),
        num_partitions: num_partitions as u32,
    }
}

impl CelebornRepartitionState {
    /// The state of the mapper `map_id` before its first batch.
    pub fn new(shuffle_id: u64, map_id: u32, num_mappers: u32, num_partitions: usize) -> (r: Self)
        ensures
            r@ == initial_state(shuffle_id, map_id, num_mappers, num_partitions),
            r@.wf(),
    {
        proof {
            let count = num_partitions as u64;
            assert(count as u32 == count % 0x1_0000_0000) by (bit_vector);
        }
        CelebornRepartitionState {
            shuffle_id,
            map_id,
            attempt_id: 0,
            num_mappers,
            registered: false,
            rows_per_partition: zero_counters(num_partitions),
            bytes_per_partition: zero_counters(num_partitions),
            num_partitions: #[verifier::truncate] (num_partitions as u32),
        }
    }

    /// The map attempt that the state belongs to.
    pub fn attempt(&self) -> (r: MapperAttempt)
        ensures
            r == self@.attempt(),
    {
        MapperAttempt {
            shuffle_id: self.shuffle_id,
            map_id: self.map_id,
            attempt_id: self.attempt_id,
        }
    }

    /// Whether the shuffle has been registered through this state.
    pub fn is_registered(&self) -> (r: bool)
        ensures
            r == self@.registered,
    {
        self.registered
    }

    /// Rows pushed so far, per partition.
    pub fn rows_per_partition(&self) -> (r: &Vec<usize>)
        ensures
            r@ == self@.rows,
    {
        &self.rows_per_partition
    }

    /// Bytes pushed so far, per partition.
    pub fn bytes_per_partition(&self) -> (r: &Vec<usize>)
        ensures
            r@ == self@.bytes,
    {
        &self.bytes_per_partition
    }
}

/// One attempt at one map task of one shuffle.
#[derive(Clone, Copy, Debug, PartialEq, Eq, Structural)]
pub struct MapperAttempt {
    pub shuffle_id: u64,
    pub map_id: u32,
    pub attempt_id: u32,
}

/// Where the work on one batch stands.
#[derive(Clone, Copy, Debug, PartialEq, Eq, Structural)]
pub enum SinkPhase {
    /// The shuffle is being registered.
    Registering,
    /// The batch is being split into target partitions.
    Partitioning,
    /// A target partition is being serialised.
    Serializing,
    /// The serialised bytes are being pushed.
    Pushing,
    /// All non-empty target partitions have been pushed.
    Done,
    /// An action failed, and the batch with it.
    Failed,
}

/// What happened outside: each event answers the action before it, and each says
/// that the work of that action succeeded. A failure is handed to
/// [`CelebornSinkTask::fail`], and ends the work on the batch.
#[derive(Debug)]
pub enum SinkEvent {
    Registered,
    /// The row counts of the target partitions that the batch was split into.
    Partitioned(Vec<usize>),
    /// The Arrow IPC stream bytes of the requested target partition.
    Serialized(Vec<u8>),
    Pushed,
}

/// What to do next.
#[derive(Debug)]
pub enum SinkAction {
    Register { shuffle_id: u64, num_mappers: u32, num_partitions: u32 },
    Partition,
    Serialize { partition_idx: usize },
    Push { attempt: MapperAttempt, partition_id: u32, data: Vec<u8> },
    Finish,
}

/// What a [`SinkEvent`] says.
#[verifier::ext_equal]
pub enum SinkEventView {
    Registered,
    Partitioned(Seq<usize>),
    Serialized(Seq<u8>),
    Pushed,
}

impl View for SinkEvent {
    type V = SinkEventView;

    open spec fn view(&self) -> SinkEventView {
        match self {
            SinkEvent::Registered => SinkEventView::Registered,
            SinkEvent::Partitioned(rows) => SinkEventView::Partitioned(rows@),
            SinkEvent::Serialized(data) => SinkEventView::Serialized(data@),
            SinkEvent::Pushed => SinkEventView::Pushed,
        }
    }
}

/// What a [`SinkAction`] asks for.
#[verifier::ext_equal]
pub enum SinkActionView {
    Register { shuffle_id: u64, num_mappers: u32, num_partitions: u32 },
    Partition,
    Serialize { partition_idx: usize },
    Push { attempt: MapperAttempt, partition_id: u32, data: Seq<u8> },
    Finish,
}

impl View for SinkAction {
    type V = SinkActionView;

    open spec fn view(&self) -> SinkActionView {
        match self {
            SinkAction::Register { shuffle_id, num_mappers, num_partitions } => {
                SinkActionView::Register {
                    shuffle_id: *shuffle_id,
                    num_mappers: *num_mappers,
                    num_partitions: *num_partitions,
                }
            },
            SinkAction::Partition => SinkActionView::Partition,
            SinkAction::Serialize { partition_idx } => SinkActionView::Serialize {
                partition_idx: *partition_idx,
            },
            SinkAction::Push { attempt, partition_id, data } => SinkActionView::Push {
                attempt: *attempt,
                partition_id: *partition_id,
                data: data@,
            },
            SinkAction::Finish => SinkActionView::Finish,
        }
    }
}

/// The first index from `from` on at which `rows` is not zero, or its length.
pub open spec fn next_nonempty(rows: Seq<usize>, from: int) -> int
    decreases rows.len() - from,
{
    if from >= rows.len() {
        rows.len() as int
    } else if rows[from] != 0 {
        from
    } else {
        next_nonempty(rows, from + 1)
    }
}

/// Every target partition from `from` on that has rows has a counter, and the counter
/// can take them up.
pub open spec fn has_room(counters: Seq<usize>, rows: Seq<usize>, from: int) -> bool {
    forall|i: int|
        from <= i < rows.len() && #[trigger] rows[i] != 0 ==> i < counters.len() && counters[i]
            + rows[i] <= usize::MAX
}

/// The work on one batch: the mapper's state and how far the work has come.
#[verifier::ext_equal]
pub struct SinkTaskView {
    pub state: SinkStateView,
    pub phase: SinkPhase,
    /// Row counts of the target partitions.
    pub rows: Seq<usize>,
    /// The target partition at work.
    pub index: int,
    /// The serialised size of that partition.
    pub size: int,
}

impl SinkTaskView {
    /// The task at the start of a batch, with its first action: an unregistered
    /// shuffle is registered first.
    pub open spec fn start(state: SinkStateView) -> (Self, SinkActionView) {
        let task = SinkTaskView {
            state,
            phase: if state.registered {
                SinkPhase::Partitioning
            } else {
                SinkPhase::Registering
            },
            rows: Seq::empty(),
            index: 0,
            size: 0,
        };
        if state.registered {
            (task, SinkActionView::Partition)
        } else {
            (
                task,
                SinkActionView::Register {
                    shuffle_id: state.shuffle_id,
                    num_mappers: state.num_mappers,
                    num_partitions: state.num_partitions,
                },
            )
        }
    }

    /// On to the first non-empty target partition from `from` on, or to the end.
    pub open spec fn advance(self, from: int) -> (Self, SinkActionView) {
        let index = next_nonempty(self.rows, from);
        if index < self.rows.len() {
            (
                SinkTaskView { phase: SinkPhase::Serializing, index, size: 0, ..self },
                SinkActionView::Serialize { partition_idx: index as usize },
            )
        } else {
            (
                SinkTaskView { phase: SinkPhase::Done, index, size: 0, ..self },
                SinkActionView::Finish,
            )
        }
    }

    /// The task after `event`, with the next action.
    pub open spec fn step(self, event: SinkEventView) -> (Self, SinkActionView) {
        match event {
            SinkEventView::Registered => (
                SinkTaskView {
                    state: SinkStateView { registered: true, ..self.state },
                    phase: SinkPhase::Partitioning,
                    ..self
                },
                SinkActionView::Partition,
            ),
            SinkEventView::Partitioned(rows) => SinkTaskView { rows, ..self }.advance(0),
            SinkEventView::Serialized(data) => (
                SinkTaskView { phase: SinkPhase::Pushing, size: data.len() as int, ..self },
                SinkActionView::Push {
                    attempt: self.state.attempt(),
                    partition_id: self.index as u32,
                    data,
                },
            ),
            SinkEventView::Pushed => SinkTaskView {
                state: self.state.pushed(self.index, self.rows[self.index], self.size),
                ..self
            }.advance(self.index + 1),
        }
    }

    /// An action has been asked for and is not answered yet, so its work may fail.
    pub open spec fn awaits(self) -> bool {
        self.phase != SinkPhase::Done && self.phase != SinkPhase::Failed
    }

    /// The task after its action failed.
    pub open spec fn failed(self) -> Self {
        SinkTaskView { phase: SinkPhase::Failed, ..self }
    }

    /// The events that answer the action before them, and whose sizes the
    /// counters can take up.
    pub open spec fn accepts(self, event: SinkEventView) -> bool {
        match event {
            SinkEventView::Registered => self.phase == SinkPhase::Registering,
            SinkEventView::Partitioned(rows) => {
                &&& self.phase == SinkPhase::Partitioning
                &&& has_room(self.state.rows, rows, 0)
            },
            SinkEventView::Serialized(data) => {
                &&& self.phase == SinkPhase::Serializing
                &&& self.state.bytes[self.index] + data.len() <= usize::MAX
            },
            SinkEventView::Pushed => self.phase == SinkPhase::Pushing,
        }
    }

    /// The index is in range where there is one, and the counters can take up
    /// what is still to be pushed.
    pub open spec fn wf(self) -> bool {
        &&& self.state.wf()
        &&& self.phase == SinkPhase::Serializing || self.phase == SinkPhase::Pushing ==> {
            &&& 0 <= self.index < self.rows.len()
            &&& self.rows[self.index] != 0
            &&& has_room(self.state.rows, self.rows, self.index)
        }
        &&& self.phase == SinkPhase::Pushing ==> {
            &&& 0 <= self.size
            &&& self.state.bytes[self.index] + self.size <= usize::MAX
        }
    }
}

/// The work on one batch of a mapper.
///
/// The application performs each action and answers it with an event. When an
/// action fails, the batch fails with the error of that action.
#[derive(Debug)]
pub struct CelebornSinkTask {
    state: CelebornRepartitionState,
    phase: SinkPhase,
    rows: Vec<usize>,
    index: usize,
    size: usize,
}

impl View for CelebornSinkTask {
    type V = SinkTaskView;

    closed spec fn view(&self) -> SinkTaskView {
        SinkTaskView {
            state: self.state@,
            phase: self.phase,
            rows: self.rows@,
            index: self.index as int,
            size: self.size as int,
        }
    }
}

proof fn lemma_next_nonempty(rows: Seq<usize>, from: int)
    requires
        0 <= from <= rows.len(),
    ensures
        from <= next_nonempty(rows, from) <= rows.len(),
        next_nonempty(rows, from) < rows.len() ==> rows[next_nonempty(rows, from)] != 0,
        forall|i: int| from <= i < next_nonempty(rows, from) ==> rows[i] == 0,
    decreases rows.len() - from,
{
    if from < rows.len() && rows[from] == 0 {
        lemma_next_nonempty(rows, from + 1);
    }
}

fn counters_have_room(counters: &Vec<usize>, rows: &Vec<usize>) -> (r: bool)
    ensures
        r == has_room(counters@, rows@, 0),
{
    let mut i: usize = 0;
    while i < rows.len()
        invariant
            i <= rows@.len(),
            forall|j: int|
                0 <= j < i && #[trigger] rows@[j] != 0 ==> j < counters@.len() && counters@[j]
                    + rows@[j] <= usize::MAX,
        decreases rows@.len() - i,
    {
        if rows[i] != 0 && (i >= counters.len() || counters[i].checked_add(rows[i]).is_none()) {
            assert(rows@[i as int] != 0);
            return false;
        }
        i += 1;
    }
    true
}

impl CelebornSinkTask {
    /// Starts the work on a batch.
    pub fn start(state: CelebornRepartitionState) -> (r: (Self, SinkAction))
        requires
            state@.wf(),
        ensures
            r.0@.wf(),
            (r.0@, r.1@) == SinkTaskView::start(state@),
    {
        let (phase, action) = if state.registered {
            (SinkPhase::Partitioning, SinkAction::Partition)
        } else {
            (
                SinkPhase::Registering,
                SinkAction::Register {
                    shuffle_id: state.shuffle_id,
                    num_mappers: state.num_mappers,
                    num_partitions: state.num_partitions,
                },
            )
        };
        let task = CelebornSinkTask { state, phase, rows: Vec::new(), index: 0, size: 0 };
        assert(task@.rows =~= Seq::<usize>::empty());
        (task, action)
    }

    fn advance(&mut self, from: usize) -> (action: SinkAction)
        requires
            old(self)@.state.wf(),
            from <= old(self)@.rows.len(),
            has_room(old(self)@.state.rows, old(self)@.rows, from as int),
        ensures
            final(self)@.wf(),
            (final(self)@, action@) == old(self)@.advance(from as int),
    {
        let mut i: usize = from;
        while i < self.rows.len() && self.rows[i] == 0
            invariant
                *self == *old(self),
                from <= i <= self.rows@.len(),
                next_nonempty(self.rows@, i as int) == next_nonempty(self.rows@, from as int),
            decreases self.rows@.len() - i,
        {
            i += 1;
        }
        proof {
            lemma_next_nonempty(self.rows@, from as int);
        }
        self.index = i;
        self.size = 0;
        if i < self.rows.len() {
            self.phase = SinkPhase::Serializing;
            SinkAction::Serialize { partition_idx: i }
        } else {
            self.phase = SinkPhase::Done;
            SinkAction::Finish
        }
    }

    /// Whether the task can take up an event: it answers the last action, and the
    /// counters have room for its sizes.
    pub fn accepts(&self, event: &SinkEvent) -> (r: bool)
        requires
            self@.wf(),
        ensures
            r == self@.accepts(event@),
    {
        match event {
            SinkEvent::Registered => self.phase == SinkPhase::Registering,
            SinkEvent::Partitioned(rows) => self.phase == SinkPhase::Partitioning
                && counters_have_room(&self.state.rows_per_partition, rows),
            SinkEvent::Serialized(data) => self.phase == SinkPhase::Serializing
                && self.state.bytes_per_partition[self.index].checked_add(data.len()).is_some(),
            SinkEvent::Pushed => self.phase == SinkPhase::Pushing,
        }
    }

    /// Takes up an event and says what to do next.
    pub fn step(&mut self, event: SinkEvent) -> (action: SinkAction)
        requires
            old(self)@.wf(),
            old(self)@.accepts(event@),
        ensures
            final(self)@.wf(),
            (final(self)@, action@) == old(self)@.step(event@),
    {
        match event {
            SinkEvent::Registered => {
                self.state.registered = true;
                self.phase = SinkPhase::Partitioning;
                SinkAction::Partition
            },
            SinkEvent::Partitioned(rows) => {
                self.rows = rows;
                self.advance(0)
            },
            SinkEvent::Serialized(data) => {
                self.size = data.len();
                self.phase = SinkPhase::Pushing;
                SinkAction::Push {
                    attempt: self.state.attempt(),
                    partition_id: #[verifier::truncate] (self.index as u32),
                    data,
                }
            },
            SinkEvent::Pushed => {
                let i: usize = self.index;
                let rows: usize = self.state.rows_per_partition[i] + self.rows[i];
                let size: usize = self.state.bytes_per_partition[i] + self.size;
                self.state.rows_per_partition.set(i, rows);
                self.state.bytes_per_partition.set(i, size);
                let count: usize = self.rows.len();
                assert(i < count);
                assert(self@.state =~= old(self)@.state.pushed(
                    i as int,
                    old(self)@.rows[i as int],
                    old(self)@.size,
                ));
                self.advance(i + 1)
            },
        }
    }

    /// The action failed: the batch fails with its error, and nothing more is asked for.
    pub fn fail<E>(&mut self, error: E) -> (r: E)
        requires
            old(self)@.wf(),
            old(self)@.awaits(),
        ensures
            r == error,
            final(self)@.wf(),
            final(self)@ == old(self)@.failed(),
    {
        self.phase = SinkPhase::Failed;
        error
    }

    /// The mapper's state after the batch.
    pub fn into_state(self) -> (r: CelebornRepartitionState)
        requires
            self@.wf(),
            self@.phase == SinkPhase::Done,
        ensures
            r@ == self@.state,
            r@.wf(),
    {
        self.state
    }
}

/// The states of a sequence of mappers.
pub open spec fn state_views(states: Seq<CelebornRepartitionState>) -> Seq<SinkStateView> {
    states.map_values(|s: CelebornRepartitionState| s@)
}

/// The attempts that a sequence of states belongs to.
pub open spec fn attempts(states: Seq<SinkStateView>) -> Seq<MapperAttempt> {
    states.map_values(|s: SinkStateView| s.attempt())
}

/// The elements of a sequence in the order of their first occurrence, each once.
pub open spec fn distinct(s: Seq<MapperAttempt>) -> Seq<MapperAttempt>
    decreases s.len(),
{
    if s.len() == 0 {
        Seq::empty()
    } else {
        let rest = distinct(s.drop_last());
        if rest.contains(s.last()) {
            rest
        } else {
            rest.push(s.last())
        }
    }
}

/// The rows that all the states together pushed to partition `i`.
pub open spec fn total_rows(states: Seq<SinkStateView>, i: int) -> nat
    decreases states.len(),
{
    if states.len() == 0 {
        0
    } else {
        let own = states.last().rows;
        total_rows(states.drop_last(), i) + (if 0 <= i < own.len() {
            own[i] as nat
        } else {
            0
        })
    }
}

/// The bytes that all the states together pushed to partition `i`.
pub open spec fn total_bytes(states: Seq<SinkStateView>, i: int) -> nat
    decreases states.len(),
{
    if states.len() == 0 {
        0
    } else {
        let own = states.last().bytes;
        total_bytes(states.drop_last(), i) + (if 0 <= i < own.len() {
            own[i] as nat
        } else {
            0
        })
    }
}

/// The metadata of all partitions: the totals over the states.
pub open spec fn partition_metas(
    states: Seq<SinkStateView>,
    num_partitions: nat,
) -> Seq<ShufflePartitionMeta> {
    Seq::new(
        num_partitions,
        |i: int|
            ShufflePartitionMeta {
                num_rows: total_rows(states, i) as usize,
                size_bytes: total_bytes(states, i) as usize,
            },
    )
}

/// No state counts a partition beyond `num_partitions`, and every total fits.
pub open spec fn can_aggregate(states: Seq<SinkStateView>, num_partitions: nat) -> bool {
    &&& forall|k: int|
        0 <= k < states.len() ==> {
            &&& (#[trigger] states[k]).rows.len() <= num_partitions
            &&& states[k].bytes.len() <= num_partitions
        }
    &&& forall|i: int|
        #![trigger total_rows(states, i)]
        #![trigger total_bytes(states, i)]
        0 <= i < num_partitions ==> {
            &&& total_rows(states, i) <= usize::MAX
            &&& total_bytes(states, i) <= usize::MAX
        }
}

fn contains_attempt(list: &Vec<MapperAttempt>, attempt: MapperAttempt) -> (r: bool)
    ensures
        r == list@.contains(attempt),
{
    let mut i: usize = 0;
    while i < list.len()
        invariant
            i <= list@.len(),
            forall|j: int| 0 <= j < i ==> list@[j] != attempt,
        decreases list@.len() - i,
    {
        if list[i] == attempt {
            assert(list@[i as int] == attempt);
            return true;
        }
        i += 1;
    }
    false
}

/// The attempts to report as ended: every attempt among the states, once, in the
/// order in which it first occurs. Several states share an attempt where one input
/// is worked on concurrently, and Celeborn wants each attempt ended exactly once.
pub fn ended_attempts(states: &Vec<CelebornRepartitionState>) -> (r: Vec<MapperAttempt>)
    ensures
        r@ == distinct(attempts(state_views(states@))),
{
    let ghost all = attempts(state_views(states@));
    let mut r: Vec<MapperAttempt> = Vec::new();
    let mut i: usize = 0;
    while i < states.len()
        invariant
            i <= states@.len(),
            all == attempts(state_views(states@)),
            r@ == distinct(all.take(i as int)),
        decreases states@.len() - i,
    {
        let attempt = states[i].attempt();
        if !contains_attempt(&r, attempt) {
            r.push(attempt);
        }
        assert(all.take(i + 1).drop_last() =~= all.take(i as int));
        assert(all.take(i + 1).last() == attempt);
        i += 1;
    }
    assert(all.take(i as int) =~= all);
    r
}

proof fn lemma_totals_grow(states: Seq<SinkStateView>, n: int, i: int)
    requires
        0 <= n <= states.len(),
    ensures
        total_rows(states.take(n), i) <= total_rows(states, i),
        total_bytes(states.take(n), i) <= total_bytes(states, i),
    decreases states.len(),
{
    if n == states.len() {
        assert(states.take(n) =~= states);
    } else {
        assert(states.drop_last().take(n) =~= states.take(n));
        lemma_totals_grow(states.drop_last(), n, i);
    }
}

/// The counters `own` can be added to `totals`: each has its total, and the sums fit.
pub open spec fn can_add(totals: Seq<usize>, own: Seq<usize>) -> bool {
    &&& own.len() <= totals.len()
    &&& forall|i: int| 0 <= i < own.len() ==> totals[i] + #[trigger] own[i] <= usize::MAX
}

/// Adds the counters `own` to the totals, where that can be done.
fn add_counters(totals: &mut Vec<usize>, own: &Vec<usize>) -> (r: bool)
    ensures
        r == can_add(old(totals)@, own@),
        r ==> final(totals)@.len() == old(totals)@.len(),
        r ==> forall|i: int|
            0 <= i < own@.len() ==> #[trigger] final(totals)@[i] == old(totals)@[i] + own@[i],
        r ==> forall|i: int|
            own@.len() <= i < old(totals)@.len() ==> #[trigger] final(totals)@[i]
                == old(totals)@[i],
{
    if own.len() > totals.len() {
        return false;
    }
    let mut i: usize = 0;
    while i < own.len()
        invariant
            i <= own@.len() <= totals@.len(),
            totals@.len() == old(totals)@.len(),
            forall|j: int| 0 <= j < i ==> old(totals)@[j] + #[trigger] own@[j] <= usize::MAX,
            forall|j: int|
                0 <= j < i ==> #[trigger] totals@[j] == old(totals)@[j] + own@[j],
            forall|j: int|
                i <= j < totals@.len() ==> #[trigger] totals@[j] == old(totals)@[j],
        decreases own@.len() - i,
    {
        match totals[i].checked_add(own[i]) {
            Some(sum) => {
                totals.set(i, sum);
            },
            None => {
                assert(old(totals)@[i as int] + own@[i as int] > usize::MAX);
                return false;
            },
        }
        i += 1;
    }
    true
}

/// Where the counters of state `k` cannot be added to the totals of the states before
/// it, not all the states can be aggregated.
proof fn lemma_cannot_aggregate(
    all: Seq<SinkStateView>,
    k: int,
    num_partitions: nat,
    rows: Seq<usize>,
    bytes: Seq<usize>,
)
    requires
        0 <= k < all.len(),
        rows.len() == num_partitions,
        bytes.len() == num_partitions,
        forall|i: int| 0 <= i < rows.len() ==> #[trigger] rows[i] == total_rows(all.take(k), i),
        forall|i: int| 0 <= i < bytes.len() ==> #[trigger] bytes[i] == total_bytes(all.take(k), i),
        !can_add(rows, all[k].rows) || !can_add(bytes, all[k].bytes),
    ensures
        !can_aggregate(all, num_partitions),
{
    let next = all.take(k + 1);
    assert(next.drop_last() =~= all.take(k));
    assert(next.last() == all[k]);
    if all[k].rows.len() <= num_partitions && all[k].bytes.len() <= num_partitions {
        if !can_add(rows, all[k].rows) {
            let i = choose|i: int|
                0 <= i < all[k].rows.len() && rows[i] + #[trigger] all[k].rows[i] > usize::MAX;
            assert(rows[i] == total_rows(all.take(k), i));
            lemma_totals_grow(all, k + 1, i);
            assert(total_rows(all, i) > usize::MAX);
        } else {
            let i = choose|i: int|
                0 <= i < all[k].bytes.len() && bytes[i] + #[trigger] all[k].bytes[i] > usize::MAX;
            assert(bytes[i] == total_bytes(all.take(k), i));
            lemma_totals_grow(all, k + 1, i);
            assert(total_bytes(all, i) > usize::MAX);
        }
    }
}

/// The metadata of all partitions, if the counters of the states add up: for each one
/// the rows and bytes that the states pushed to it, taken together.
pub fn try_aggregate(states: &Vec<CelebornRepartitionState>, num_partitions: usize) -> (r: Option<
    Vec<ShufflePartitionMeta>,
>)
    ensures
        match r {
            Some(metas) => {
                &&& can_aggregate(state_views(states@), num_partitions as nat)
                &&& metas@ == partition_metas(state_views(states@), num_partitions as nat)
            },
            None => !can_aggregate(state_views(states@), num_partitions as nat),
        },
{
    let ghost all = state_views(states@);
    let mut rows = zero_counters(num_partitions);
    let mut bytes = zero_counters(num_partitions);
    let mut k: usize = 0;
    while k < states.len()
        invariant
            k <= states@.len(),
            all == state_views(states@),
            rows@.len() == num_partitions,
            bytes@.len() == num_partitions,
            forall|j: int|
                0 <= j < k ==> {
                    &&& (#[trigger] all[j]).rows.len() <= num_partitions
                    &&& all[j].bytes.len() <= num_partitions
                },
            forall|i: int|
                0 <= i < num_partitions ==> #[trigger] rows@[i] == total_rows(
                    all.take(k as int),
                    i,
                ),
            forall|i: int|
                0 <= i < num_partitions ==> #[trigger] bytes@[i] == total_bytes(
                    all.take(k as int),
                    i,
                ),
        decreases states@.len() - k,
    {
        let ghost old_rows = rows@;
        let ghost old_bytes = bytes@;
        proof {
            assert(all.take(k + 1).drop_last() =~= all.take(k as int));
            assert(all.take(k + 1).last() == all[k as int]);
            assert(all[k as int].rows == states@[k as int].rows_per_partition@);
            assert(all[k as int].bytes == states@[k as int].bytes_per_partition@);
        }
        if !add_counters(&mut rows, &states[k].rows_per_partition) || !add_counters(
            &mut bytes,
            &states[k].bytes_per_partition,
        ) {
            proof {
                lemma_cannot_aggregate(
                    all,
                    k as int,
                    num_partitions as nat,
                    old_rows,
                    old_bytes,
                );
            }
            return None;
        }
        k += 1;
    }
    proof {
        assert(all.take(k as int) =~= all);
        assert forall|i: int|
            #![trigger total_rows(all, i)]
            #![trigger total_bytes(all, i)]
            0 <= i < num_partitions implies total_rows(all, i) <= usize::MAX && total_bytes(all, i)
            <= usize::MAX by {
            assert(rows@[i] == total_rows(all, i));
            assert(bytes@[i] == total_bytes(all, i));
        }
    }
    let mut metas: Vec<ShufflePartitionMeta> = Vec::new();
    let mut i: usize = 0;
    while i < num_partitions
        invariant
            i <= num_partitions,
            rows@.len() == num_partitions,
            bytes@.len() == num_partitions,
            forall|j: int| 0 <= j < num_partitions ==> #[trigger] rows@[j] == total_rows(all, j),
            forall|j: int| 0 <= j < num_partitions ==> #[trigger] bytes@[j] == total_bytes(all, j),
            metas@ == partition_metas(all, i as nat),
        decreases num_partitions - i,
    {
        metas.push(ShufflePartitionMeta::new(rows[i], bytes[i]));
        i += 1;
        assert(metas@ =~= partition_metas(all, i as nat));
    }
    Some(metas)
}

/// The metadata of all partitions: for each one the rows and bytes that the states
/// pushed to it, taken together.
pub fn aggregate(
    states: &Vec<CelebornRepartitionState>,
    num_partitions: usize,
) -> (r: Vec<ShufflePartitionMeta>)
    requires
        can_aggregate(state_views(states@), num_partitions as nat),
    ensures
        r@ == partition_metas(state_views(states@), num_partitions as nat),
{
    try_aggregate(states, num_partitions).unwrap()
}

/// What to do next to conclude the shuffle output of a process.
#[derive(Debug)]
pub enum FinalizeAction {
    /// Register a shuffle through which nothing was pushed.
    Register { shuffle_id: u64, num_mappers: u32, num_partitions: u32 },
    /// Tell the cluster that the attempt has pushed all it has.
    EndMapper(MapperAttempt),
    /// Report the metadata: nothing is left to do.
    Report(Vec<ShufflePartitionMeta>),
    /// An action failed: there is nothing to report.
    Stop,
}

/// What a [`FinalizeAction`] asks for.
#[verifier::ext_equal]
pub enum FinalizeActionView {
    Register { shuffle_id: u64, num_mappers: u32, num_partitions: u32 },
    EndMapper(MapperAttempt),
    Report(Seq<ShufflePartitionMeta>),
    Stop,
}

impl View for FinalizeAction {
    type V = FinalizeActionView;

    open spec fn view(&self) -> FinalizeActionView {
        match self {
            FinalizeAction::Register { shuffle_id, num_mappers, num_partitions } => {
                FinalizeActionView::Register {
                    shuffle_id: *shuffle_id,
                    num_mappers: *num_mappers,
                    num_partitions: *num_partitions,
                }
            },
            FinalizeAction::EndMapper(attempt) => FinalizeActionView::EndMapper(*attempt),
            FinalizeAction::Report(metas) => FinalizeActionView::Report(metas@),
            FinalizeAction::Stop => FinalizeActionView::Stop,
        }
    }
}

/// The index of the first state of an attempt from `from` on, or the number of states.
pub open spec fn first_of(states: Seq<SinkStateView>, attempt: MapperAttempt, from: int) -> int
    decreases states.len() - from,
{
    if from >= states.len() {
        states.len() as int
    } else if states[from].attempt() == attempt {
        from
    } else {
        first_of(states, attempt, from + 1)
    }
}

/// The states to conclude, and how far their conclusion has come.
#[verifier::ext_equal]
pub struct FinalizeView {
    pub states: Seq<SinkStateView>,
    pub num_partitions: nat,
    /// The shuffles that were registered in the course of the conclusion.
    pub registered: Set<u64>,
    /// How many of the attempts have been ended.
    pub ended: nat,
    /// Whether an action failed.
    pub failed: bool,
}

impl FinalizeView {
    /// The start of a conclusion: nothing registered, no attempt ended.
    pub open spec fn start(states: Seq<SinkStateView>, num_partitions: nat) -> Self {
        FinalizeView { states, num_partitions, registered: Set::empty(), ended: 0, failed: false }
    }

    /// The attempts to end, in order.
    pub open spec fn attempts(self) -> Seq<MapperAttempt> {
        distinct(attempts(self.states))
    }

    pub open spec fn wf(self) -> bool {
        &&& can_aggregate(self.states, self.num_partitions)
        &&& self.ended <= self.attempts().len()
    }

    /// The shuffle has been registered: through one of the states, or in the course of
    /// the conclusion.
    pub open spec fn known(self, id: u64) -> bool {
        self.registered.contains(id) || exists|k: int|
            0 <= k < self.states.len() && self.states[k].shuffle_id == id && (
            #[trigger] self.states[k]).registered
    }

    /// Each attempt is ended in turn. Where its shuffle has not been registered yet, that
    /// is done first, with the sizes that the attempt's first state names. The metadata
    /// is reported when all attempts are ended, and nothing is done after a failure.
    pub open spec fn action(self) -> FinalizeActionView {
        if self.failed {
            FinalizeActionView::Stop
        } else if self.ended < self.attempts().len() {
            let attempt = self.attempts()[self.ended as int];
            if self.known(attempt.shuffle_id) {
                FinalizeActionView::EndMapper(attempt)
            } else {
                let first = self.states[first_of(self.states, attempt, 0)];
                FinalizeActionView::Register {
                    shuffle_id: attempt.shuffle_id,
                    num_mappers: first.num_mappers,
                    num_partitions: first.num_partitions,
                }
            }
        } else {
            FinalizeActionView::Report(partition_metas(self.states, self.num_partitions))
        }
    }

    /// The conclusion after the shuffle `id` was registered.
    pub open spec fn after_registration(self, id: u64) -> Self {
        FinalizeView { registered: self.registered.insert(id), ..self }
    }

    /// The conclusion after one more attempt was ended.
    pub open spec fn after_end(self) -> Self {
        FinalizeView { ended: self.ended + 1, ..self }
    }

    /// The conclusion after its action failed.
    pub open spec fn after_failure(self) -> Self {
        FinalizeView { failed: true, ..self }
    }
}

pub(crate) proof fn lemma_first_of(states: Seq<SinkStateView>, attempt: MapperAttempt, from: int)
    requires
        0 <= from <= states.len(),
    ensures
        from <= first_of(states, attempt, from) <= states.len(),
        first_of(states, attempt, from) < states.len() ==> states[first_of(
            states,
            attempt,
            from,
        )].attempt() == attempt,
        forall|k: int|
            from <= k < first_of(states, attempt, from) ==> (#[trigger] states[k]).attempt()
                != attempt,
    decreases states.len() - from,
{
    if from < states.len() && states[from].attempt() != attempt {
        lemma_first_of(states, attempt, from + 1);
    }
}

/// The attempt at hand has a state.
pub(crate) proof fn lemma_attempt_has_state(task: FinalizeView)
    requires
        task.ended < task.attempts().len(),
    ensures
        ({
            let attempt = task.attempts()[task.ended as int];
            let first = first_of(task.states, attempt, 0);
            0 <= first < task.states.len() && task.states[first].attempt() == attempt
        }),
{
    let attempt = task.attempts()[task.ended as int];
    law_each_attempt_ends_once(attempts(task.states));
    assert(task.attempts().contains(attempt));
    assert(attempts(task.states).contains(attempt));
    let k = choose|k: int|
        0 <= k < attempts(task.states).len() && attempts(task.states)[k] == attempt;
    assert(task.states[k].attempt() == attempt);
    lemma_first_of(task.states, attempt, 0);
}

/// The conclusion of the shuffle output of a process.
///
/// The application performs each action and says when it succeeded. When an action
/// fails, the conclusion fails with the error of that action.
#[derive(Debug)]
pub struct CelebornFinalizeTask {
    states: Vec<CelebornRepartitionState>,
    num_partitions: usize,
    attempts: Vec<MapperAttempt>,
    registered: HashSet<u64>,
    ended: usize,
    failed: bool,
}

impl View for CelebornFinalizeTask {
    type V = FinalizeView;

    closed spec fn view(&self) -> FinalizeView {
        FinalizeView {
            states: state_views(self.states@),
            num_partitions: self.num_partitions as nat,
            registered: self.registered@,
            ended: self.ended as nat,
            failed: self.failed,
        }
    }
}

impl CelebornFinalizeTask {
    /// The list of attempts is the one to end.
    pub closed spec fn inv(&self) -> bool {
        self.attempts@ == self@.attempts()
    }

    /// Starts the conclusion of the given states.
    pub fn start(states: Vec<CelebornRepartitionState>, num_partitions: usize) -> (r: Self)
        requires
            can_aggregate(state_views(states@), num_partitions as nat),
        ensures
            r.inv(),
            r@.wf(),
            r@ == FinalizeView::start(state_views(states@), num_partitions as nat),
    {
        let attempts = ended_attempts(&states);
        let r = CelebornFinalizeTask {
            states,
            num_partitions,
            attempts,
            registered: HashSet::new(),
            ended: 0,
            failed: false,
        };
        assert(r@ =~= FinalizeView::start(state_views(states@), num_partitions as nat));
        r
    }

    fn known(&self, id: u64) -> (r: bool)
        ensures
            r == self@.known(id),
    {
        if self.registered.contains(&id) {
            return true;
        }
        let mut k: usize = 0;
        while k < self.states.len()
            invariant
                k <= self.states@.len(),
                !self@.registered.contains(id),
                forall|j: int|
                    0 <= j < k ==> !(self@.states[j].shuffle_id == id && (
                    #[trigger] self@.states[j]).registered),
            decreases self.states@.len() - k,
        {
            let state = &self.states[k];
            assert(self@.states[k as int] == state@);
            if state.shuffle_id == id && state.registered {
                return true;
            }
            k += 1;
        }
        false
    }

    /// The first state of an attempt.
    fn first_state(&self, attempt: MapperAttempt) -> (r: usize)
        requires
            first_of(self@.states, attempt, 0) < self@.states.len(),
        ensures
            r == first_of(self@.states, attempt, 0),
    {
        let count: usize = self.states.len();
        let mut k: usize = 0;
        proof {
            lemma_first_of(self@.states, attempt, 0);
        }
        while self.states[k].attempt() != attempt
            invariant
                k <= first_of(self@.states, attempt, 0) < count,
                count == self.states@.len(),
                self@.states == state_views(self.states@),
                first_of(self@.states, attempt, k as int) == first_of(self@.states, attempt, 0),
            decreases self.states@.len() - k,
        {
            assert(self@.states[k as int] == self.states@[k as int]@);
            proof {
                lemma_first_of(self@.states, attempt, k + 1);
            }
            k += 1;
        }
        assert(self@.states[k as int] == self.states@[k as int]@);
        k
    }

    /// What to do next.
    pub fn next(&self) -> (r: FinalizeAction)
        requires
            self.inv(),
            self@.wf(),
        ensures
            r@ == self@.action(),
    {
        if self.failed {
            FinalizeAction::Stop
        } else if self.ended < self.attempts.len() {
            let attempt = self.attempts[self.ended];
            if self.known(attempt.shuffle_id) {
                FinalizeAction::EndMapper(attempt)
            } else {
                proof {
                    lemma_attempt_has_state(self@);
                }
                let k: usize = self.first_state(attempt);
                let first = &self.states[k];
                assert(self@.states[k as int] == first@);
                FinalizeAction::Register {
                    shuffle_id: attempt.shuffle_id,
                    num_mappers: first.num_mappers,
                    num_partitions: first.num_partitions,
                }
            }
        } else {
            FinalizeAction::Report(aggregate(&self.states, self.num_partitions))
        }
    }

    /// The shuffle that the last action named has been registered.
    pub fn shuffle_registered(&mut self)
        requires
            old(self).inv(),
            old(self)@.wf(),
            old(self)@.action() is Register,
        ensures
            final(self).inv(),
            final(self)@.wf(),
            final(self)@ == old(self)@.after_registration(
                old(self)@.action()->Register_shuffle_id,
            ),
    {
        let attempt = self.attempts[self.ended];
        self.registered.insert(attempt.shuffle_id);
        assert(self@ =~= old(self)@.after_registration(attempt.shuffle_id));
    }

    /// The attempt that the last action named has been ended.
    pub fn mapper_ended(&mut self)
        requires
            old(self).inv(),
            old(self)@.wf(),
            old(self)@.action() is EndMapper,
        ensures
            final(self).inv(),
            final(self)@.wf(),
            final(self)@ == old(self)@.after_end(),
    {
        let count: usize = self.attempts.len();
        assert(self.ended < count);
        self.ended = self.ended + 1;
    }

    /// The action failed: the conclusion fails with its error, and nothing is reported.
    pub fn fail<E>(&mut self, error: E) -> (r: E)
        requires
            old(self).inv(),
            old(self)@.wf(),
            old(self)@.action() is Register || old(self)@.action() is EndMapper,
        ensures
            r == error,
            final(self).inv(),
            final(self)@.wf(),
            final(self)@ == old(self)@.after_failure(),
    {
        self.failed = true;
        error
    }
}

/// The pushes that a batch calls for from target partition `from` on: one for each
/// partition that has rows, in ascending order.
pub open spec fn nonempty_pushes(
    attempt: MapperAttempt,
    rows: Seq<usize>,
    blocks: Seq<Seq<u8>>,
    from: int,
) -> Seq<SinkActionView>
    decreases rows.len() - from,
{
    if from >= rows.len() {
        Seq::empty()
    } else {
        let rest = nonempty_pushes(attempt, rows, blocks, from + 1);
        if rows[from] != 0 {
            seq![
                SinkActionView::Push { attempt, partition_id: from as u32, data: blocks[from] },
            ] + rest
        } else {
            rest
        }
    }
}

/// The rest of a batch in which every action succeeds: the task at the end, and the
/// pushes on the way. `blocks` holds what each target partition serialises to.
pub open spec fn run_blocks(task: SinkTaskView, blocks: Seq<Seq<u8>>) -> (
    SinkTaskView,
    Seq<SinkActionView>,
)
    decreases task.rows.len() - task.index,
{
    if task.phase != SinkPhase::Serializing || task.index >= task.rows.len() {
        (task, Seq::empty())
    } else {
        let (pushing, push) = task.step(SinkEventView::Serialized(blocks[task.index]));
        let (next, _) = pushing.step(SinkEventView::Pushed);
        if next.phase == SinkPhase::Serializing && task.index < next.index < next.rows.len()
            && next.rows.len() == task.rows.len() {
            let (end, rest) = run_blocks(next, blocks);
            (end, seq![push] + rest)
        } else {
            (next, seq![push])
        }
    }
}

/// A batch that has just been split, from the state before it.
pub open spec fn split_batch(state: SinkStateView, rows: Seq<usize>) -> SinkTaskView {
    let started = SinkTaskView::start(state).0;
    let registered = if state.registered {
        started
    } else {
        started.step(SinkEventView::Registered).0
    };
    registered.step(SinkEventView::Partitioned(rows)).0
}

/// A whole batch in which every action succeeds, from the state before it.
pub open spec fn run_batch(
    state: SinkStateView,
    rows: Seq<usize>,
    blocks: Seq<Seq<u8>>,
) -> (SinkTaskView, Seq<SinkActionView>) {
    run_blocks(split_batch(state, rows), blocks)
}

/// The counters of `state` can take up a batch.
pub open spec fn batch_fits(
    state: SinkStateView,
    rows: Seq<usize>,
    blocks: Seq<Seq<u8>>,
    from: int,
) -> bool {
    &&& rows.len() == blocks.len()
    &&& has_room(state.rows, rows, from)
    &&& forall|i: int|
        from <= i < rows.len() && rows[i] != 0 ==> state.bytes[i] + (#[trigger] blocks[i]).len()
            <= usize::MAX
}

proof fn lemma_skip_empty(
    attempt: MapperAttempt,
    rows: Seq<usize>,
    blocks: Seq<Seq<u8>>,
    from: int,
    to: int,
)
    requires
        0 <= from <= to <= rows.len(),
        forall|i: int| from <= i < to ==> rows[i] == 0,
    ensures
        nonempty_pushes(attempt, rows, blocks, from) == nonempty_pushes(attempt, rows, blocks, to),
    decreases to - from,
{
    if from < to {
        lemma_skip_empty(attempt, rows, blocks, from + 1, to);
    }
}

proof fn lemma_run_blocks(task: SinkTaskView, blocks: Seq<Seq<u8>>)
    requires
        task.wf(),
        task.phase == SinkPhase::Serializing,
        batch_fits(task.state, task.rows, blocks, task.index),
    ensures
        ({
            let (end, pushes) = run_blocks(task, blocks);
            &&& end.phase == SinkPhase::Done
            &&& end.wf()
            &&& pushes == nonempty_pushes(task.state.attempt(), task.rows, blocks, task.index)
            &&& end.state == (SinkStateView {
                rows: end.state.rows,
                bytes: end.state.bytes,
                ..task.state
            })
            &&& end.state.rows.len() == task.state.rows.len()
            &&& forall|i: int|
                0 <= i < task.state.rows.len() ==> #[trigger] end.state.rows[i]
                    == task.state.rows[i] + (if task.index <= i < task.rows.len() {
                    task.rows[i] as int
                } else {
                    0
                })
            &&& forall|i: int|
                0 <= i < task.state.rows.len() ==> #[trigger] end.state.bytes[i]
                    == task.state.bytes[i] + (if task.index <= i < task.rows.len()
                    && task.rows[i] != 0 {
                    blocks[i].len() as int
                } else {
                    0
                })
        }),
    decreases task.rows.len() - task.index,
{
    let k = task.index;
    let (pushing, push) = task.step(SinkEventView::Serialized(blocks[k]));
    let (next, _) = pushing.step(SinkEventView::Pushed);
    lemma_next_nonempty(task.rows, k + 1);
    lemma_skip_empty(task.state.attempt(), task.rows, blocks, k + 1, next.index);
    assert(task.state.bytes[k] + blocks[k].len() <= usize::MAX);
    assert(task.state.rows[k] + task.rows[k] <= usize::MAX);
    if next.phase == SinkPhase::Serializing {
        assert(next.wf());
        assert(batch_fits(next.state, next.rows, blocks, next.index));
        lemma_run_blocks(next, blocks);
    } else {
        assert(nonempty_pushes(task.state.attempt(), task.rows, blocks, next.index)
            =~= Seq::<SinkActionView>::empty());
    }
}

/// A batch pushes every target partition that has rows exactly once, in ascending
/// order, with the bytes it serialises to and under the mapper's own attempt, and
/// pushes no empty partition. Afterwards the shuffle is registered, and each counter
/// has grown by what was pushed to its partition.
pub proof fn law_batch(state: SinkStateView, rows: Seq<usize>, blocks: Seq<Seq<u8>>)
    requires
        state.wf(),
        batch_fits(state, rows, blocks, 0),
    ensures
        ({
            let (end, pushes) = run_batch(state, rows, blocks);
            &&& end.phase == SinkPhase::Done
            &&& end.wf()
            &&& pushes == nonempty_pushes(state.attempt(), rows, blocks, 0)
            &&& end.state == (SinkStateView {
                registered: true,
                rows: end.state.rows,
                bytes: end.state.bytes,
                ..state
            })
            &&& end.state.rows.len() == state.rows.len()
            &&& forall|i: int|
                0 <= i < state.rows.len() ==> #[trigger] end.state.rows[i] == state.rows[i] + (if i
                    < rows.len() {
                    rows[i] as int
                } else {
                    0
                })
            &&& forall|i: int|
                0 <= i < state.rows.len() ==> #[trigger] end.state.bytes[i] == state.bytes[i]
                    + (if i < rows.len() && rows[i] != 0 {
                    blocks[i].len() as int
                } else {
                    0
                })
        }),
{
    let split = split_batch(state, rows);
    lemma_next_nonempty(rows, 0);
    lemma_skip_empty(state.attempt(), rows, blocks, 0, split.index);
    if split.phase == SinkPhase::Serializing {
        lemma_run_blocks(split, blocks);
    } else {
        assert(nonempty_pushes(state.attempt(), rows, blocks, split.index)
            =~= Seq::<SinkActionView>::empty());
    }
}

/// The shuffle is registered with the first batch of a mapper and never again: the
/// batch after a successful one starts with the split of its input.
pub proof fn law_registers_once(state: SinkStateView, rows: Seq<usize>, blocks: Seq<Seq<u8>>)
    requires
        state.wf(),
        batch_fits(state, rows, blocks, 0),
    ensures
        SinkTaskView::start(state).1 is Register <==> !state.registered,
        SinkTaskView::start(run_batch(state, rows, blocks).0.state).1 is Partition,
{
    law_batch(state, rows, blocks);
}

/// Among the attempts to end each one occurs once, and every attempt of a state is
/// among them, whatever the number of states that share it.
pub proof fn law_each_attempt_ends_once(s: Seq<MapperAttempt>)
    ensures
        distinct(s).no_duplicates(),
        forall|a: MapperAttempt| distinct(s).contains(a) <==> s.contains(a),
    decreases s.len(),
{
    if s.len() > 0 {
        let init = s.drop_last();
        let last = s.last();
        law_each_attempt_ends_once(init);
        assert forall|a: MapperAttempt| distinct(s).contains(a) <==> s.contains(a) by {
            if s.contains(a) {
                let i = choose|i: int| 0 <= i < s.len() && s[i] == a;
                if i < init.len() {
                    assert(init[i] == a);
                    assert(init.contains(a));
                    assert(distinct(init).contains(a));
                }
                if !distinct(init).contains(last) {
                    let d = distinct(init).push(last);
                    assert(d[d.len() - 1] == last);
                    if distinct(init).contains(a) {
                        let j = choose|j: int|
                            0 <= j < distinct(init).len() && distinct(init)[j] == a;
                        assert(d[j] == a);
                    }
                }
            }
            if distinct(s).contains(a) {
                let j = choose|j: int| 0 <= j < distinct(s).len() && distinct(s)[j] == a;
                if j < distinct(init).len() {
                    assert(distinct(init)[j] == a);
                    assert(init.contains(a));
                    let i = choose|i: int| 0 <= i < init.len() && init[i] == a;
                    assert(s[i] == a);
                } else {
                    assert(s[s.len() - 1] == a);
                }
            }
        }
    }
}

/// The attempt that is named for ending has not been named before, and metadata is
/// reported only when every attempt among the states has been.
pub proof fn law_report_follows_all_ends(task: FinalizeView)
    requires
        task.wf(),
    ensures
        task.action() is Report <==> !task.failed && task.ended == task.attempts().len(),
        task.action() matches FinalizeActionView::EndMapper(a) ==> !task.attempts().take(
            task.ended as int,
        ).contains(a) && attempts(task.states).contains(a),
{
    law_each_attempt_ends_once(attempts(task.states));
    if task.ended < task.attempts().len() {
        assert(task.attempts().contains(task.attempts()[task.ended as int]));
    }
}

/// An attempt is ended only once its shuffle is registered. A shuffle is registered only
/// where it was not, with the sizes that a state of it names, and the attempt that it was
/// registered for is ended next.
pub proof fn law_ends_follow_registration(task: FinalizeView)
    requires
        task.wf(),
    ensures
        task.action() matches FinalizeActionView::EndMapper(a) ==> task.known(a.shuffle_id),
        task.action() matches FinalizeActionView::Register {
            shuffle_id,
            num_mappers,
            num_partitions,
        } ==> {
            &&& !task.known(shuffle_id)
            &&& exists|k: int|
                0 <= k < task.states.len() && (#[trigger] task.states[k]).shuffle_id == shuffle_id
                    && task.states[k].num_mappers == num_mappers && task.states[k].num_partitions
                    == num_partitions
            &&& task.after_registration(shuffle_id).action() == FinalizeActionView::EndMapper(
                task.attempts()[task.ended as int],
            )
        },
{
    if task.action() is Register {
        lemma_attempt_has_state(task);
        let attempt = task.attempts()[task.ended as int];
        let first = first_of(task.states, attempt, 0);
        assert(task.states[first].shuffle_id == attempt.shuffle_id);
        assert(task.after_registration(attempt.shuffle_id).known(attempt.shuffle_id));
    }
}

/// A registered shuffle stays registered while the attempts are ended.
pub proof fn law_registration_lasts(task: FinalizeView, id: u64, other: u64)
    requires
        task.known(id),
    ensures
        task.after_end().known(id),
        task.after_registration(other).known(id),
{
    if !task.registered.contains(id) {
        let k = choose|k: int|
            0 <= k < task.states.len() && task.states[k].shuffle_id == id && (
            #[trigger] task.states[k]).registered;
        assert(task.after_end().states[k].registered);
        assert(task.after_registration(other).states[k].registered);
    }
}

/// A failure ends the conclusion: no shuffle is registered, no attempt is ended and
/// nothing is reported after it.
pub proof fn law_failure_ends_conclusion(task: FinalizeView)
    ensures
        task.after_failure().action() is Stop,
{
}

/// The batch up to a push that fails, when `n` pushes succeed before it: the task after
/// the failure, and the pushes that were asked for.
pub open spec fn run_failing(task: SinkTaskView, blocks: Seq<Seq<u8>>, n: nat) -> (
    SinkTaskView,
    Seq<SinkActionView>,
)
    decreases n,
{
    if task.phase != SinkPhase::Serializing {
        (task, Seq::empty())
    } else {
        let (pushing, push) = task.step(SinkEventView::Serialized(blocks[task.index]));
        if n == 0 {
            (pushing.failed(), seq![push])
        } else {
            let next = pushing.step(SinkEventView::Pushed).0;
            let (end, rest) = run_failing(next, blocks, (n - 1) as nat);
            (end, seq![push] + rest)
        }
    }
}

proof fn lemma_run_failing(task: SinkTaskView, blocks: Seq<Seq<u8>>, n: nat)
    requires
        task.wf(),
        task.phase == SinkPhase::Serializing,
        batch_fits(task.state, task.rows, blocks, task.index),
        n < nonempty_pushes(task.state.attempt(), task.rows, blocks, task.index).len(),
    ensures
        ({
            let (end, pushes) = run_failing(task, blocks, n);
            &&& end.phase == SinkPhase::Failed
            &&& pushes == nonempty_pushes(task.state.attempt(), task.rows, blocks, task.index).take(
                n as int + 1,
            )
        }),
    decreases n,
{
    let k = task.index;
    let all = nonempty_pushes(task.state.attempt(), task.rows, blocks, k);
    let rest = nonempty_pushes(task.state.attempt(), task.rows, blocks, k + 1);
    let (pushing, push) = task.step(SinkEventView::Serialized(blocks[k]));
    let next = pushing.step(SinkEventView::Pushed).0;
    assert(all == seq![push] + rest);
    lemma_next_nonempty(task.rows, k + 1);
    lemma_skip_empty(task.state.attempt(), task.rows, blocks, k + 1, next.index);
    assert(task.state.bytes[k] + blocks[k].len() <= usize::MAX);
    assert(task.state.rows[k] + task.rows[k] <= usize::MAX);
    if n == 0 {
        assert(all.take(1) =~= seq![push]);
    } else {
        if next.phase != SinkPhase::Serializing {
            assert(rest =~= Seq::<SinkActionView>::empty());
        }
        assert(next.wf());
        assert(batch_fits(next.state, next.rows, blocks, next.index));
        lemma_run_failing(next, blocks, (n - 1) as nat);
        assert(all.take(n as int + 1) =~= seq![push] + rest.take(n as int));
    }
}

/// Whatever action fails, the registration among them, the task takes up nothing more, and
/// so asks for nothing more.
pub proof fn law_nothing_follows_a_failed_action(task: SinkTaskView, event: SinkEventView)
    ensures
        !task.failed().accepts(event),
        !task.failed().awaits(),
{
}

/// A push that fails ends the batch: the pushes that were asked for are the first ones of
/// the batch, up to the one that failed, and the task takes up nothing more.
pub proof fn law_failure_ends_batch(
    state: SinkStateView,
    rows: Seq<usize>,
    blocks: Seq<Seq<u8>>,
    n: nat,
)
    requires
        state.wf(),
        batch_fits(state, rows, blocks, 0),
        n < nonempty_pushes(state.attempt(), rows, blocks, 0).len(),
    ensures
        ({
            let (end, pushes) = run_failing(split_batch(state, rows), blocks, n);
            &&& pushes == nonempty_pushes(state.attempt(), rows, blocks, 0).take(n as int + 1)
            &&& end.phase == SinkPhase::Failed
            &&& forall|event: SinkEventView| !#[trigger] end.accepts(event)
        }),
{
    let split = split_batch(state, rows);
    lemma_next_nonempty(rows, 0);
    lemma_skip_empty(state.attempt(), rows, blocks, 0, split.index);
    if split.phase != SinkPhase::Serializing {
        assert(nonempty_pushes(state.attempt(), rows, blocks, split.index)
            =~= Seq::<SinkActionView>::empty());
    }
    lemma_run_failing(split, blocks, n);
}

proof fn lemma_pushes_in_range(
    state: SinkStateView,
    rows: Seq<usize>,
    blocks: Seq<Seq<u8>>,
    from: int,
)
    requires
        state.wf(),
        state.rows.len() <= u32::MAX,
        has_room(state.rows, rows, from),
        0 <= from <= rows.len(),
    ensures
        ({
            let pushes = nonempty_pushes(state.attempt(), rows, blocks, from);
            &&& forall|j: int|
                0 <= j < pushes.len() ==> (#[trigger] pushes[j]) is Push && from
                    <= pushes[j]->Push_partition_id < state.num_partitions
            &&& forall|j: int, k: int|
                0 <= j < k < pushes.len() ==> (#[trigger] pushes[j])->Push_partition_id < (
                #[trigger] pushes[k])->Push_partition_id
        }),
    decreases rows.len() - from,
{
    if from < rows.len() {
        lemma_pushes_in_range(state, rows, blocks, from + 1);
        let pushes = nonempty_pushes(state.attempt(), rows, blocks, from);
        let rest = nonempty_pushes(state.attempt(), rows, blocks, from + 1);
        if rows[from] != 0 {
            assert(from < state.rows.len());
            assert forall|j: int| 0 < j < pushes.len() implies #[trigger] pushes[j] == rest[j
                - 1] by {}
        }
    }
}

/// A push names a partition below the count that the shuffle is registered with, as long
/// as 32 bits hold that count, and no partition is named twice in a batch.
pub proof fn law_pushes_are_in_range(state: SinkStateView, rows: Seq<usize>, blocks: Seq<Seq<u8>>)
    requires
        state.wf(),
        batch_fits(state, rows, blocks, 0),
        state.rows.len() <= u32::MAX,
    ensures
        ({
            let pushes = run_batch(state, rows, blocks).1;
            &&& forall|j: int|
                0 <= j < pushes.len() ==> (#[trigger] pushes[j]) is Push
                    && pushes[j]->Push_partition_id < state.num_partitions
            &&& forall|j: int, k: int|
                0 <= j < k < pushes.len() ==> (#[trigger] pushes[j])->Push_partition_id < (
                #[trigger] pushes[k])->Push_partition_id
        }),
        SinkTaskView::start(state).1 matches SinkActionView::Register { num_partitions, .. }
            ==> num_partitions == state.num_partitions,
{
    law_batch(state, rows, blocks);
    lemma_pushes_in_range(state, rows, blocks, 0);
}

/// The totals do not depend on how the pushed data is spread over the states: those
/// of two groups of states together are the sums of those of each.
pub proof fn law_totals_add_up(a: Seq<SinkStateView>, b: Seq<SinkStateView>, i: int)
    ensures
        total_rows(a + b, i) == total_rows(a, i) + total_rows(b, i),
        total_bytes(a + b, i) == total_bytes(a, i) + total_bytes(b, i),
    decreases b.len(),
{
    if b.len() == 0 {
        assert(a + b =~= a);
    } else {
        assert((a + b).drop_last() =~= a + b.drop_last());
        law_totals_add_up(a, b.drop_last(), i);
    }
}

} // verus!
