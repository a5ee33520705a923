//! The state of an extraction, and the steps of the pipeline that every dump file runs
//! through: batching, publishing, and reporting.
//!
//! Times are readings of a monotonic clock in nanoseconds.

use crate::names::NameSet;
use crate::text::{contains_piece, has_piece, join_two, views};
use crate::types::{
    count_of, counted, no_progress, total_of, DataType, ExtractionProgress, PerType,
};
use vstd::prelude::*;

verus! {

// ── The shared state ────────────────────────────────────────────────

/// The lifecycle of an extraction.
///
/// It is `Idle` before the first run and `Running` during one. A run leaves `Completed` or
/// `Failed` behind. `Completed` turns into `Waiting` when the wait for the next check begins;
/// `Failed` stays until the next run.
#[derive(Debug, Clone, Copy, PartialEq, Eq, Structural)]
pub enum ExtractionStatus {
    Idle,
    Running,
    Completed,
    Waiting,
    Failed,
}

/// The name of a status.
pub open spec fn status_name(status: ExtractionStatus) -> &'static str {
    match status {
        ExtractionStatus::Idle => "idle",
        ExtractionStatus::Running => "running",
        ExtractionStatus::Completed => "completed",
        ExtractionStatus::Waiting => "waiting",
        ExtractionStatus::Failed => "failed",
    }
}

impl ExtractionStatus {
    /// The name of this status.
    pub fn as_str(&self) -> (name: &'static str)
        ensures
            name == status_name(*self),
    {
        match self {
            ExtractionStatus::Idle => "idle",
            ExtractionStatus::Running => "running",
            ExtractionStatus::Completed => "completed",
            ExtractionStatus::Waiting => "waiting",
            ExtractionStatus::Failed => "failed",
        }
    }
}

impl Default for ExtractionStatus {
    fn default() -> (status: ExtractionStatus)
        ensures
            status == ExtractionStatus::Idle,
    {
        ExtractionStatus::Idle
    }
}

/// The state that is shared across the extractor.
#[derive(Debug)]
pub struct ExtractorState {
    pub extraction_progress: ExtractionProgress,
    pub last_extraction_time: PerType<u64>,
    pub completed_files: NameSet,
    pub active_connections: PerType<String>,
    pub error_count: u64,
    pub extraction_status: ExtractionStatus,
}

/// What an [`ExtractorState`] stands for.
#[verifier::ext_equal]
pub struct StateModel {
    pub progress: ExtractionProgress,
    pub last_times: Map<DataType, u64>,
    pub completed: Set<Seq<char>>,
    pub active: Map<DataType, Seq<char>>,
    pub error_count: u64,
    pub status: ExtractionStatus,
}

impl View for ExtractorState {
    type V = StateModel;

    open spec fn view(&self) -> StateModel {
        StateModel {
            progress: self.extraction_progress,
            last_times: self.last_extraction_time@,
            completed: self.completed_files@,
            active: self.active_connections@.map_values(|name: String| name@),
            error_count: self.error_count,
            status: self.extraction_status,
        }
    }
}

/// The state in which nothing was extracted.
pub open spec fn fresh_state(status: ExtractionStatus) -> StateModel {
    StateModel {
        progress: no_progress(),
        last_times: Map::empty(),
        completed: Set::empty(),
        active: Map::empty(),
        error_count: 0,
        status,
    }
}

/// The state with the file of a type being extracted.
pub open spec fn opened_state(
    state: StateModel,
    data_type: DataType,
    file_name: Seq<char>,
) -> StateModel {
    StateModel { active: state.active.insert(data_type, file_name), ..state }
}

/// The state with the file of a type done with, and listed where it is complete.
pub open spec fn closed_state(
    state: StateModel,
    data_type: DataType,
    file_name: Seq<char>,
    complete: bool,
) -> StateModel {
    StateModel {
        completed: if complete {
            state.completed.insert(file_name)
        } else {
            state.completed
        },
        active: state.active.remove(data_type),
        ..state
    }
}

/// The state in which the next check is waited for.
pub open spec fn waiting_state(state: StateModel) -> StateModel {
    StateModel {
        status: if state.status == ExtractionStatus::Completed {
            ExtractionStatus::Waiting
        } else {
            state.status
        },
        ..state
    }
}

/// The state at the end of a run.
pub open spec fn ended_state(state: StateModel, success: bool) -> StateModel {
    StateModel {
        status: if success {
            ExtractionStatus::Completed
        } else {
            ExtractionStatus::Failed
        },
        ..state
    }
}

impl Default for ExtractorState {
    fn default() -> (state: ExtractorState)
        ensures
            state@ == fresh_state(ExtractionStatus::Idle),
            state.completed_files.distinct(),
    {
        let state = ExtractorState {
            extraction_progress: ExtractionProgress::default(),
            last_extraction_time: PerType::new(),
            completed_files: NameSet::new(),
            active_connections: PerType::new(),
            error_count: 0,
            extraction_status: ExtractionStatus::Idle,
        };
        assert(state@ =~= fresh_state(ExtractionStatus::Idle));
        state
    }
}

impl ExtractorState {
    /// Forget the last run and start another.
    pub fn start_run(&mut self)
        ensures
            final(self)@ == fresh_state(ExtractionStatus::Running),
            final(self).completed_files.distinct(),
    {
        self.extraction_progress = ExtractionProgress::default();
        self.last_extraction_time.clear();
        self.completed_files.clear();
        self.active_connections.clear();
        self.error_count = 0;
        self.extraction_status = ExtractionStatus::Running;
        assert(self@ =~= fresh_state(ExtractionStatus::Running));
    }

    /// Record which file of a type is being extracted.
    pub fn open_file(&mut self, data_type: DataType, file_name: &str)
        ensures
            final(self)@ == opened_state(old(self)@, data_type, file_name@),
            old(self).completed_files.distinct() ==> final(self).completed_files.distinct(),
    {
        self.active_connections.insert(data_type, file_name.to_owned());
        assert(self@.active =~= old(self)@.active.insert(data_type, file_name@));
    }

    /// Record that the file of a type is done with, and whether it is complete.
    pub fn close_file(&mut self, data_type: DataType, file_name: &str, complete: bool)
        ensures
            final(self)@ == closed_state(old(self)@, data_type, file_name@, complete),
            old(self).completed_files.distinct() ==> final(self).completed_files.distinct(),
    {
        if complete {
            self.completed_files.insert(file_name.to_owned());
        }
        self.active_connections.remove(&data_type);
        assert(self@.active =~= old(self)@.active.remove(data_type));
    }

    /// Turn a completed run into the wait for the next check. A failed one stays visible.
    pub fn begin_waiting(&mut self)
        ensures
            final(self)@ == waiting_state(old(self)@),
            old(self).completed_files.distinct() ==> final(self).completed_files.distinct(),
    {
        if self.extraction_status == ExtractionStatus::Completed {
            self.extraction_status = ExtractionStatus::Waiting;
        }
    }

    /// Record how a run ended.
    pub fn end_run(&mut self, success: bool)
        ensures
            final(self)@ == ended_state(old(self)@, success),
            old(self).completed_files.distinct() ==> final(self).completed_files.distinct(),
    {
        self.extraction_status = if success {
            ExtractionStatus::Completed
        } else {
            ExtractionStatus::Failed
        };
    }
}

/// Record that a check ended in an error.
///
/// A run that stops early leaves `Running` behind. `Failed` is a state that the wait keeps and
/// that lets the next request through.
pub fn reset_status_after_failed_check(state: &mut ExtractorState)
    ensures
        final(state)@ == (StateModel { status: ExtractionStatus::Failed, ..old(state)@ }),
        old(state).completed_files.distinct() ==> final(state).completed_files.distinct(),
{
    state.extraction_status = ExtractionStatus::Failed;
}

/// Take the request for a run, if there is one, and give its force flag.
pub fn wait_for_trigger(trigger: &mut Option<bool>) -> (request: Option<bool>)
    ensures
        request == *old(trigger),
        *final(trigger) is None,
{
    trigger.take()
}

/// The outcome of the first run of a process.
///
/// A run that a shutdown interrupted is no failure: the process ends cleanly.
pub fn initial_run_outcome(success: bool, shutdown_requested: bool, source_label: &str) -> (outcome:
    Result<(), String>)
    ensures
        outcome is Ok <==> success || shutdown_requested,
        outcome matches Err(message) ==> message@ == "Initial "@ + source_label@
            + " processing failed"@,
{
    if shutdown_requested || success {
        return Ok(());
    }
    let start = join_two("Initial ", source_label);
    Err(join_two(start.as_str(), " processing failed"))
}

// ── Batching ────────────────────────────────────────────────────────

/// How the records of one file are batched.
#[derive(Debug)]
pub struct BatcherConfig {
    pub batch_size: usize,
    pub data_type: DataType,
    pub file_name: String,
    pub state_save_interval: usize,
}

/// The records of one file on their way into batches.
#[derive(Debug)]
pub struct Batcher<T> {
    pub batch: Vec<T>,
    pub last_flush: u64,
    pub total_records: u64,
    pub total_batches: u64,
    pub last_state_save: u64,
}

/// What a [`Batcher`] stands for.
#[verifier::ext_equal]
pub struct BatcherModel<T> {
    pub pending: Seq<T>,
    pub last_flush: u64,
    pub total_records: u64,
    pub total_batches: u64,
    pub last_state_save: u64,
}

impl<T> View for Batcher<T> {
    type V = BatcherModel<T>;

    open spec fn view(&self) -> BatcherModel<T> {
        BatcherModel {
            pending: self.batch@,
            last_flush: self.last_flush,
            total_records: self.total_records,
            total_batches: self.total_batches,
            last_state_save: self.last_state_save,
        }
    }
}

/// What happens to a batcher.
///
/// `Message` is the next record, `Closed` the end of the records, `Idle` a wait that no record
/// ended, and `Sent` the word that the last batch was handed on. Each comes with the time.
#[derive(Debug)]
pub enum BatcherEvent<T> {
    Message { message: T, now: u64 },
    Closed,
    Idle { now: u64 },
    Sent { now: u64 },
}

/// The progress of one file that is to be written down: its records and its batches.
#[derive(Debug, Clone, Copy, PartialEq, Eq, Structural)]
pub struct Checkpoint {
    pub records: u64,
    pub batches: u64,
}

/// What a batcher asks for: first a checkpoint to be saved, then a batch to be sent.
#[derive(Debug)]
pub struct BatcherStep<T> {
    pub save: Option<Checkpoint>,
    pub send: Option<Vec<T>>,
}

/// One second, the age at which an unfinished batch is sent.
pub const FLUSH_AFTER_NANOS: u64 = 1_000_000_000;

/// The batch that a step hands out, as a sequence.
pub open spec fn opt_batch<T>(batch: Option<Vec<T>>) -> Option<Seq<T>> {
    match batch {
        Some(batch) => Some(batch@),
        None => None,
    }
}

/// The batcher with one more record.
pub open spec fn with_message<T>(batcher: BatcherModel<T>, message: T) -> BatcherModel<T> {
    BatcherModel {
        pending: batcher.pending.push(message),
        total_records: (batcher.total_records + 1) as u64,
        ..batcher
    }
}

/// Whether the progress is saved at the record that was just taken.
pub open spec fn saves<T>(batcher: BatcherModel<T>, interval: usize) -> bool {
    &&& interval != 0
    &&& batcher.total_records % (interval as u64) == 0
    &&& batcher.total_records != batcher.last_state_save
}

/// What is saved and what is sent on an event, and the batcher after it.
pub open spec fn batcher_step<T>(
    batcher: BatcherModel<T>,
    config: BatcherConfig,
    event: BatcherEvent<T>,
) -> (Option<Checkpoint>, Option<Seq<T>>, BatcherModel<T>) {
    match event {
        BatcherEvent::Message { message, now } => {
            let taken = with_message(batcher, message);
            let save = if saves(taken, config.state_save_interval) {
                Some(Checkpoint { records: taken.total_records, batches: taken.total_batches })
            } else {
                None
            };
            let saved = if saves(taken, config.state_save_interval) {
                BatcherModel { last_state_save: taken.total_records, ..taken }
            } else {
                taken
            };
            if taken.pending.len() >= config.batch_size {
                (save, Some(taken.pending), BatcherModel { pending: Seq::empty(), ..saved })
            } else {
                (save, None, saved)
            }
        },
        BatcherEvent::Closed => if batcher.pending.len() == 0 {
            (None, None, batcher)
        } else {
            (None, Some(batcher.pending), BatcherModel { pending: Seq::empty(), ..batcher })
        },
        BatcherEvent::Idle { now } => if batcher.pending.len() > 0 && now - batcher.last_flush
            > FLUSH_AFTER_NANOS {
            (None, Some(batcher.pending), BatcherModel { pending: Seq::empty(), ..batcher })
        } else {
            (None, None, batcher)
        },
        BatcherEvent::Sent { now } => (
            None,
            None,
            BatcherModel {
                total_batches: (batcher.total_batches + 1) as u64,
                last_flush: now,
                ..batcher
            },
        ),
    }
}

/// What becomes of the shared state on an event of a batcher: a record is counted and its
/// time noted, and nothing else changes.
pub open spec fn batcher_state<T>(
    state: StateModel,
    config: BatcherConfig,
    event: BatcherEvent<T>,
) -> StateModel {
    match event {
        BatcherEvent::Message { message, now } => StateModel {
            progress: counted(state.progress, config.data_type, 1),
            last_times: state.last_times.insert(config.data_type, now),
            ..state
        },
        _ => state,
    }
}

impl<T> Batcher<T> {
    /// A batcher that has seen no record.
    pub fn new(now: u64) -> (batcher: Batcher<T>)
        ensures
            batcher@ == (BatcherModel::<T> {
                pending: Seq::empty(),
                last_flush: now,
                total_records: 0,
                total_batches: 0,
                last_state_save: 0,
            }),
    {
        Batcher {
            batch: Vec::new(),
            last_flush: now,
            total_records: 0,
            total_batches: 0,
            last_state_save: 0,
        }
    }

    /// The progress to be written down when the records have ended.
    pub fn final_checkpoint(&self) -> (checkpoint: Checkpoint)
        ensures
            checkpoint == (Checkpoint {
                records: self@.total_records,
                batches: self@.total_batches,
            }),
    {
        Checkpoint { records: self.total_records, batches: self.total_batches }
    }

    fn take_batch(&mut self) -> (batch: Vec<T>)
        ensures
            batch@ == old(self)@.pending,
            final(self)@ == (BatcherModel { pending: Seq::empty(), ..old(self)@ }),
    {
        let mut batch: Vec<T> = Vec::new();
        std::mem::swap(&mut batch, &mut self.batch);
        batch
    }
}

/// One step of a batcher: what is to be saved, and then what is to be sent.
///
/// A batch is sent when it is full, when the records end, and when a wait finds it older than
/// a second. Progress is saved every `state_save_interval` records, before the batch that
/// holds the last of them is sent.
pub fn message_batcher<T>(
    batcher: &mut Batcher<T>,
    config: &BatcherConfig,
    state: &mut ExtractorState,
    event: BatcherEvent<T>,
) -> (step: BatcherStep<T>)
    requires
        event is Message ==> old(batcher)@.total_records < u64::MAX && count_of(
            old(state)@.progress,
            config.data_type,
        ) < u64::MAX,
        event is Sent ==> old(batcher)@.total_batches < u64::MAX,
    ensures
        (step.save, opt_batch(step.send), final(batcher)@) == batcher_step(
            old(batcher)@,
            *config,
            event,
        ),
        final(state)@ == batcher_state(old(state)@, *config, event),
        old(state).completed_files.distinct() ==> final(state).completed_files.distinct(),
{
    match event {
        BatcherEvent::Message { message, now } => {
            batcher.batch.push(message);
            batcher.total_records = batcher.total_records + 1;
            state.extraction_progress.increment(config.data_type);
            state.last_extraction_time.insert(config.data_type, now);
            let ghost taken = with_message(old(batcher)@, message);
            assert(batcher@ =~= taken);
            let mut save: Option<Checkpoint> = None;
            let interval: u64 = config.state_save_interval as u64;
            if interval != 0 && batcher.total_records % interval == 0 && batcher.total_records
                != batcher.last_state_save {
                batcher.last_state_save = batcher.total_records;
                save = Some(
                    Checkpoint { records: batcher.total_records, batches: batcher.total_batches },
                );
            }
            let mut send: Option<Vec<T>> = None;
            if batcher.batch.len() >= config.batch_size {
                send = Some(batcher.take_batch());
            }
            BatcherStep { save, send }
        },
        BatcherEvent::Closed => {
            if batcher.batch.len() == 0 {
                BatcherStep { save: None, send: None }
            } else {
                BatcherStep { save: None, send: Some(batcher.take_batch()) }
            }
        },
        BatcherEvent::Idle { now } => {
            if batcher.batch.len() > 0 && now.saturating_sub(batcher.last_flush)
                > FLUSH_AFTER_NANOS {
                BatcherStep { save: None, send: Some(batcher.take_batch()) }
            } else {
                BatcherStep { save: None, send: None }
            }
        },
        BatcherEvent::Sent { now } => {
            batcher.total_batches = batcher.total_batches + 1;
            batcher.last_flush = now;
            BatcherStep { save: None, send: None }
        },
    }
}

/// What follows a step of a batcher.
#[derive(Debug, Clone, Copy, PartialEq, Eq, Structural)]
pub enum BatcherNext {
    /// Take the next record.
    Continue,
    /// The records have ended: save the last checkpoint, and end.
    Finish(Checkpoint),
    /// A batch could not be handed on: end with an error. No further record is taken, and no
    /// last checkpoint is saved.
    Stop,
}

/// The batcher once it is known what came of the batch of a step, if there was one: a batch
/// that was handed on is counted.
pub open spec fn after_sending<T>(
    batcher: BatcherModel<T>,
    config: BatcherConfig,
    handed_on: Option<bool>,
    now: u64,
) -> BatcherModel<T> {
    if handed_on == Some(true) {
        batcher_step(batcher, config, BatcherEvent::Sent { now }).2
    } else {
        batcher
    }
}

/// What a batcher does next: it stops where a batch could not be handed on, and finishes where
/// the records have ended.
pub open spec fn next_of<T>(
    batcher: BatcherModel<T>,
    handed_on: Option<bool>,
    closed: bool,
) -> BatcherNext {
    if handed_on == Some(false) {
        BatcherNext::Stop
    } else if closed {
        BatcherNext::Finish(
            Checkpoint { records: batcher.total_records, batches: batcher.total_batches },
        )
    } else {
        BatcherNext::Continue
    }
}

/// What follows a step of a batcher: `handed_on` says what came of the batch that the step
/// sent, and is nothing where it sent none; `closed` says whether the records have ended.
pub fn batcher_next<T>(
    batcher: &mut Batcher<T>,
    config: &BatcherConfig,
    state: &mut ExtractorState,
    handed_on: Option<bool>,
    closed: bool,
    now: u64,
) -> (next: BatcherNext)
    requires
        handed_on == Some(true) ==> old(batcher)@.total_batches < u64::MAX,
    ensures
        final(batcher)@ == after_sending(old(batcher)@, *config, handed_on, now),
        next == next_of(final(batcher)@, handed_on, closed),
        final(state)@ == old(state)@,
        old(state).completed_files.distinct() ==> final(state).completed_files.distinct(),
{
    if let Some(done) = handed_on {
        if !done {
            return BatcherNext::Stop;
        }
        let _ = message_batcher(batcher, config, state, BatcherEvent::Sent { now });
    }
    if closed {
        BatcherNext::Finish(batcher.final_checkpoint())
    } else {
        BatcherNext::Continue
    }
}

// ── Publishing ──────────────────────────────────────────────────────

/// What a publisher does after a batch.
#[derive(Debug, Clone, Copy, PartialEq, Eq, Structural)]
pub enum PublisherStep {
    NextBatch,
    Stop,
}

/// One step of a publisher: go on where the batch was published, and count an error and stop
/// where it was not.
pub fn message_publisher(state: &mut ExtractorState, published: bool) -> (step: PublisherStep)
    requires
        !published ==> old(state)@.error_count < u64::MAX,
    ensures
        step == if published {
            PublisherStep::NextBatch
        } else {
            PublisherStep::Stop
        },
        final(state)@ == if published {
            old(state)@
        } else {
            StateModel { error_count: (old(state)@.error_count + 1) as u64, ..old(state)@ }
        },
        old(state).completed_files.distinct() ==> final(state).completed_files.distinct(),
{
    if published {
        PublisherStep::NextBatch
    } else {
        state.error_count = state.error_count + 1;
        PublisherStep::Stop
    }
}

// ── Reporting ───────────────────────────────────────────────────────

/// The seconds before the next progress report: short for the first three, then longer.
pub fn report_interval(report_count: u64) -> (seconds: u64)
    ensures
        seconds == if report_count < 3 {
            10u64
        } else {
            30u64
        },
{
    if report_count < 3 {
        10
    } else {
        30
    }
}

/// Two minutes, the silence after which a type counts as stalled.
pub const STALLED_AFTER_NANOS: u64 = 120_000_000_000;

/// Whether a completed file bears the name of a type.
pub open spec fn type_completed(completed: Set<Seq<char>>, data_type: DataType) -> bool {
    exists|name: Seq<char>| #[trigger]
        completed.contains(name) && has_piece(name, crate::types::name_of_type(data_type)@)
}

/// Whether a type has been silent for too long without being completed.
pub open spec fn is_stalled(state: StateModel, data_type: DataType, now: u64) -> bool {
    &&& state.last_times.contains_key(data_type)
    &&& !type_completed(state.completed, data_type)
    &&& now - state.last_times[data_type] > STALLED_AFTER_NANOS
}

/// The types, in a fixed order.
pub open spec fn all_types() -> Seq<DataType> {
    seq![
        DataType::Artists,
        DataType::Labels,
        DataType::Masters,
        DataType::ReleaseGroups,
        DataType::Releases,
    ]
}

/// Each type is listed, and only once.
pub proof fn every_type_is_listed_once(data_type: DataType, i: int, j: int)
    ensures
        all_types().contains(data_type),
        0 <= i < j < all_types().len() ==> all_types()[i] != all_types()[j],
{
    let types = all_types();
    assert(types[0] == DataType::Artists && types[1] == DataType::Labels);
    assert(types[2] == DataType::Masters && types[3] == DataType::ReleaseGroups);
    assert(types[4] == DataType::Releases);
}

/// What a progress report says.
#[derive(Debug)]
pub struct ProgressReport {
    pub total: u64,
    pub stalled: Vec<DataType>,
}

fn any_completed(names: &NameSet, piece: &str) -> (found: bool)
    ensures
        found == exists|name: Seq<char>| #[trigger] names@.contains(name) && has_piece(name, piece@),
{
    let ghost list = views(names.names@);
    let mut i: usize = 0;
    while i < names.names.len()
        invariant
            i <= names.names@.len(),
            list == views(names.names@),
            forall|j: int| 0 <= j < i ==> !has_piece(#[trigger] list[j], piece@),
        decreases names.names.len() - i,
    {
        if contains_piece(names.names[i].as_str(), piece) {
            proof {
                assert(list[i as int] == names.names@[i as int]@);
                assert(list.contains(list[i as int]));
                assert(names@.contains(list[i as int]));
            }
            return true;
        }
        i = i + 1;
    }
    assert forall|name: Seq<char>| #[trigger] names@.contains(name) implies !has_piece(
        name,
        piece@,
    ) by {
        let j = choose|j: int| 0 <= j < list.len() && list[j] == name;
        assert(!has_piece(list[j], piece@));
    }
    false
}

fn stalled(state: &ExtractorState, data_type: DataType, now: u64) -> (is: bool)
    ensures
        is == is_stalled(state@, data_type, now),
{
    match state.last_extraction_time.get(&data_type) {
        Some(last) => {
            !any_completed(&state.completed_files, data_type.as_str()) && now.saturating_sub(*last)
                > STALLED_AFTER_NANOS
        },
        None => false,
    }
}

/// A progress report: how many records there are, and which types have stalled.
pub fn progress_reporter(state: &ExtractorState, now: u64) -> (report: ProgressReport)
    requires
        total_of(state@.progress) <= u64::MAX,
    ensures
        report.total == total_of(state@.progress),
        report.stalled@ == all_types().filter(|t: DataType| is_stalled(state@, t, now)),
{
    let all = [
        DataType::Artists,
        DataType::Labels,
        DataType::Masters,
        DataType::ReleaseGroups,
        DataType::Releases,
    ];
    let ghost test = |t: DataType| is_stalled(state@, t, now);
    let mut list: Vec<DataType> = Vec::new();
    let mut i: usize = 0;
    proof {
        reveal(Seq::filter);
        assert(all_types().take(0) =~= Seq::<DataType>::empty());
        assert(list@ =~= all_types().take(0).filter(test));
    }
    while i < 5
        invariant
            i <= 5,
            all@ == all_types(),
            test == (|t: DataType| is_stalled(state@, t, now)),
            list@ == all_types().take(i as int).filter(test),
        decreases 5 - i,
    {
        proof {
            reveal(Seq::filter);
            assert(all_types().take(i + 1).drop_last() =~= all_types().take(i as int));
            assert(all_types().take(i + 1).last() == all@[i as int]);
        }
        if stalled(state, all[i], now) {
            list.push(all[i]);
        }
        i = i + 1;
    }
    assert(all_types().take(5) =~= all_types());
    ProgressReport { total: state.extraction_progress.total(), stalled: list }
}

} // verus!
