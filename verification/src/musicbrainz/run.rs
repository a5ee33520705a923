//! One extraction run: from the download of a dump to the word that it is complete.
//!
//! A run is a sequence of questions and answers. It says what is to be done next, as an
//! [`Action`]; whoever performs it hands the result back as an [`Event`].

use crate::runtime::{
    all_types, closed_state, ended_state, every_type_is_listed_once, fresh_state, opened_state,
    ExtractionStatus, ExtractorState, StateModel,
};
use crate::table::Table;
use crate::telemetry::FileOutcome;
use crate::types::{
    count_of, counted, musicbrainz_types, name_of_type, types_are_told_apart_by_name, DataType,
    ExtractionProgress, PerType,
};
use vstd::prelude::*;

verus! {

/// A point in time: seconds since the epoch, and nanoseconds on top.
#[derive(Debug, Clone, Copy, PartialEq, Eq, Structural)]
pub struct Timestamp {
    pub seconds: i64,
    pub nanos: u32,
}

/// One file of a dump.
#[derive(Debug)]
pub struct DumpFile {
    pub data_type: DataType,
    pub file_name: String,
}

/// What a [`DumpFile`] stands for.
#[verifier::ext_equal]
pub struct FileModel {
    pub data_type: DataType,
    pub file_name: Seq<char>,
}

impl View for DumpFile {
    type V = FileModel;

    open spec fn view(&self) -> FileModel {
        FileModel { data_type: self.data_type, file_name: self.file_name@ }
    }
}

/// What the files of a dump stand for, in order.
pub open spec fn file_models(files: Seq<DumpFile>) -> Seq<FileModel> {
    files.map_values(|file: DumpFile| file@)
}

/// How far the work that a state marker records has come.
#[derive(Debug, Clone, Copy, PartialEq, Eq, Structural)]
pub enum PhaseStatus {
    Pending,
    InProgress,
    Completed,
    Failed,
}

/// What a state marker records of one file.
#[derive(Debug, Clone, Copy, PartialEq, Eq, Structural)]
pub struct FileProgress {
    pub status: PhaseStatus,
    pub records_extracted: u64,
}

/// What a run reads of a state marker: how far the processing has come, when it began, and
/// what is known of each file.
#[derive(Debug)]
pub struct MarkerFacts {
    pub phase: PhaseStatus,
    pub started_at: Option<Timestamp>,
    pub files: Table<FileProgress>,
}

/// What a state marker says of a dump version.
#[derive(Debug, Clone, Copy, PartialEq, Eq, Structural)]
pub enum ProcessingDecision {
    Skip,
    Reprocess,
    Continue,
}

/// Where in a run the shutdown flag is looked at.
#[derive(Debug, Clone, Copy, PartialEq, Eq, Structural)]
pub enum Poll {
    Start,
    Downloaded,
    File,
}

/// What a run asks for next. Files are named by their place in the list of dump files.
#[derive(Debug, Clone, Copy, PartialEq, Eq, Structural)]
pub enum Action {
    /// Look at the shutdown flag.
    PollShutdown(Poll),
    /// Download the latest dump.
    Download,
    /// List the files of the dump.
    Discover,
    /// Read the state marker of the version, or begin a new one where there is none or where
    /// reprocessing is forced.
    OpenMarker { force: bool },
    /// Begin a new state marker.
    ResetMarker,
    /// Connect to the message broker.
    Connect,
    /// Declare the exchange of a type.
    SetupExchange(DataType),
    /// Record in the state marker that the processing begins, and save it.
    StartProcessing { files: usize },
    /// Record the number of files in the state marker, and save it.
    ResumeProcessing { files: usize },
    /// Read the artist dump for the ids that artists have elsewhere.
    BuildArtistMap { file: usize },
    /// Record in the state marker that a file begins, and save it.
    StartFile { file: usize },
    /// Parse, batch and publish a file.
    RunPipeline { file: usize, with_artist_map: bool },
    /// Send the word that a file is complete.
    SendFileComplete { file: usize, records: u64 },
    /// Record in the state marker that a file is complete, where it is, and save it.
    FinishFile { file: usize, complete: Option<u64> },
    /// Count the outcome of a file.
    RecordOutcome(FileOutcome),
    /// Send the word that the extraction is complete.
    SendExtractionComplete { started_at: Timestamp },
    /// Close the connection to the message broker.
    Close,
    /// Record in the state marker that the extraction is complete, where it is, and save it.
    FinalizeMarker { complete: bool },
    /// The run is over: whether it succeeded.
    Finish(bool),
    /// The run is over: what was asked for last failed.
    Fail,
}

/// What came of an action.
#[derive(Debug)]
pub enum Event {
    Shutdown(bool),
    Failed,
    Done,
    Downloaded(String),
    Discovered(Vec<DumpFile>),
    Opened { decision: ProcessingDecision, facts: MarkerFacts },
    Reset(MarkerFacts),
    Started(Option<Timestamp>),
    Piped { parsed: Option<u64>, batched: bool, published: bool },
    Sent(bool),
}

/// Whether an event is an answer to an action.
pub open spec fn answers(event: Event, action: Action) -> bool {
    match action {
        Action::PollShutdown(_) => event is Shutdown,
        Action::Download => event is Failed || event is Downloaded,
        Action::Discover => event is Failed || event is Discovered,
        Action::OpenMarker { .. } => event is Failed || event is Opened,
        Action::ResetMarker => event is Reset,
        Action::Connect | Action::SetupExchange(_) | Action::ResumeProcessing { .. }
        | Action::BuildArtistMap { .. } | Action::StartFile { .. } | Action::FinishFile { .. }
        | Action::Close | Action::FinalizeMarker { .. } => event is Failed || event is Done,
        Action::StartProcessing { .. } => event is Failed || event is Started,
        Action::RunPipeline { .. } => event is Piped,
        Action::SendFileComplete { .. } | Action::SendExtractionComplete { .. } => event is Sent,
        Action::RecordOutcome(_) => event is Done,
        Action::Finish(_) | Action::Fail => false,
    }
}

/// An extraction run: what it has learned, and what it has asked for.
#[derive(Debug)]
pub struct Run {
    pub force_reprocess: bool,
    pub began_at: Timestamp,
    pub version: String,
    pub files: Vec<DumpFile>,
    pub marker: MarkerFacts,
    pub next: usize,
    pub records: u64,
    pub record_counts: PerType<u64>,
    pub success: bool,
    pub asked: Action,
}

/// What a [`Run`] stands for.
#[verifier::ext_equal]
pub struct RunModel {
    pub force: bool,
    pub began_at: Timestamp,
    pub version: Seq<char>,
    pub files: Seq<FileModel>,
    pub phase: PhaseStatus,
    pub marker_started: Option<Timestamp>,
    pub known: Map<Seq<char>, FileProgress>,
    pub next: int,
    pub records: u64,
    pub counts: Map<DataType, u64>,
    pub success: bool,
    pub asked: Action,
}

impl View for Run {
    type V = RunModel;

    open spec fn view(&self) -> RunModel {
        RunModel {
            force: self.force_reprocess,
            began_at: self.began_at,
            version: self.version@,
            files: file_models(self.files@),
            phase: self.marker.phase,
            marker_started: self.marker.started_at,
            known: self.marker.files@,
            next: self.next as int,
            records: self.records,
            counts: self.record_counts@,
            success: self.success,
            asked: self.asked,
        }
    }
}

// ── What follows what ───────────────────────────────────────────────

/// The run with something else to ask for.
pub open spec fn asks(run: RunModel, action: Action) -> RunModel {
    RunModel { asked: action, ..run }
}

/// When the processing began: the time that the state marker keeps over a restart, else the
/// time at which this run began.
pub open spec fn processing_start(run: RunModel) -> Timestamp {
    match run.marker_started {
        Some(at) => at,
        None => run.began_at,
    }
}

/// The run once no file is left: the word that the extraction is complete goes out only where
/// everything succeeded.
pub open spec fn after_files(run: RunModel) -> RunModel {
    if run.success {
        asks(run, Action::SendExtractionComplete { started_at: processing_start(run) })
    } else {
        asks(run, Action::Close)
    }
}

/// The run before its next file.
pub open spec fn before_file(run: RunModel) -> RunModel {
    if run.next < run.files.len() {
        asks(run, Action::PollShutdown(Poll::File))
    } else {
        after_files(run)
    }
}

/// The place of the first file of a type at or behind `from`.
pub open spec fn first_of(files: Seq<FileModel>, data_type: DataType, from: int) -> Option<int>
    decreases files.len() - from,
{
    if 0 <= from < files.len() {
        if files[from].data_type == data_type {
            Some(from)
        } else {
            first_of(files, data_type, from + 1)
        }
    } else {
        None
    }
}

/// The run once the state marker is ready.
pub open spec fn ready(run: RunModel) -> RunModel {
    match first_of(run.files, DataType::Artists, 0) {
        Some(file) => asks(run, Action::BuildArtistMap { file: file as usize }),
        None => before_file(run),
    }
}

/// The run once the exchanges are declared.
pub open spec fn declared(run: RunModel) -> RunModel {
    match run.phase {
        PhaseStatus::Pending => asks(
            run,
            Action::StartProcessing { files: run.files.len() as usize },
        ),
        PhaseStatus::InProgress => asks(
            run,
            Action::ResumeProcessing { files: run.files.len() as usize },
        ),
        _ => ready(run),
    }
}

/// The run once the exchange of a type is declared: exchanges are declared for artists,
/// labels, release groups and releases, in this order.
pub open spec fn after_exchange(run: RunModel, data_type: DataType) -> RunModel {
    match data_type {
        DataType::Artists => asks(run, Action::SetupExchange(DataType::Labels)),
        DataType::Labels => asks(run, Action::SetupExchange(DataType::ReleaseGroups)),
        DataType::ReleaseGroups => asks(run, Action::SetupExchange(DataType::Releases)),
        _ => declared(run),
    }
}

/// Whether the state marker knows a file as completed.
pub open spec fn is_completed(known: Map<Seq<char>, FileProgress>, file_name: Seq<char>) -> bool {
    known.contains_key(file_name) && known[file_name].status == PhaseStatus::Completed
}

/// The progress with the records of every file that an earlier session completed.
pub open spec fn rehydrated(
    progress: ExtractionProgress,
    files: Seq<FileModel>,
    known: Map<Seq<char>, FileProgress>,
) -> ExtractionProgress
    decreases files.len(),
{
    if files.len() == 0 {
        progress
    } else {
        let before = rehydrated(progress, files.drop_last(), known);
        let file = files.last();
        if is_completed(known, file.file_name) {
            counted(before, file.data_type, known[file.file_name].records_extracted)
        } else {
            before
        }
    }
}

/// Whether the counts of the rehydrated progress fit.
pub open spec fn rehydration_fits(
    progress: ExtractionProgress,
    files: Seq<FileModel>,
    known: Map<Seq<char>, FileProgress>,
) -> bool
    decreases files.len(),
{
    if files.len() == 0 {
        true
    } else {
        let before = rehydrated(progress, files.drop_last(), known);
        let file = files.last();
        &&& rehydration_fits(progress, files.drop_last(), known)
        &&& is_completed(known, file.file_name) ==> count_of(before, file.data_type)
            + known[file.file_name].records_extracted <= u64::MAX
    }
}

/// The run at its next file, which an earlier session completed or which is to be started.
pub open spec fn at_file(run: RunModel) -> RunModel {
    let file = run.files[run.next];
    if is_completed(run.known, file.file_name) {
        asks(
            RunModel {
                counts: run.counts.insert(
                    file.data_type,
                    run.known[file.file_name].records_extracted,
                ),
                ..run
            },
            Action::RecordOutcome(FileOutcome::Skipped),
        )
    } else {
        asks(run, Action::StartFile { file: run.next as usize })
    }
}

/// The run once a file went through the pipeline.
pub open spec fn after_pipeline(
    run: RunModel,
    parsed: Option<u64>,
    batched: bool,
    published: bool,
) -> RunModel {
    let file = run.next as usize;
    let records = match parsed {
        Some(count) => count,
        None => 0,
    };
    let counted = RunModel { records, ..run };
    if parsed is Some && batched && published {
        asks(counted, Action::SendFileComplete { file, records })
    } else {
        asks(
            RunModel { success: false, ..counted },
            Action::FinishFile { file, complete: None },
        )
    }
}

/// The run once the state marker is saved behind a file.
pub open spec fn after_file(run: RunModel, complete: Option<u64>) -> RunModel {
    let file = run.files[run.next];
    asks(
        RunModel {
            counts: run.counts.insert(file.data_type, run.records),
            known: match complete {
                Some(records) => run.known.insert(
                    file.file_name,
                    FileProgress { status: PhaseStatus::Completed, records_extracted: records },
                ),
                None => run.known,
            },
            ..run
        },
        Action::RecordOutcome(
            if complete is Some {
                FileOutcome::Completed
            } else {
                FileOutcome::Failed
            },
        ),
    )
}

/// What is known of a state marker, taken into a run.
pub open spec fn with_facts(run: RunModel, facts: MarkerFacts) -> RunModel {
    RunModel {
        phase: facts.phase,
        marker_started: facts.started_at,
        known: facts.files@,
        ..run
    }
}

/// The run and the shared state after an answer to what the run asked for.
pub open spec fn run_step(run: RunModel, state: StateModel, event: Event) -> (RunModel, StateModel) {
    match (run.asked, event) {
        (Action::PollShutdown(Poll::Start), Event::Shutdown(true)) => (
            asks(run, Action::Finish(false)),
            state,
        ),
        (Action::PollShutdown(Poll::Start), Event::Shutdown(false)) => (
            asks(run, Action::Download),
            fresh_state(ExtractionStatus::Running),
        ),
        (Action::Download, Event::Downloaded(version)) => (
            asks(RunModel { version: version@, ..run }, Action::PollShutdown(Poll::Downloaded)),
            state,
        ),
        (Action::PollShutdown(Poll::Downloaded), Event::Shutdown(true)) => (
            asks(run, Action::Finish(false)),
            state,
        ),
        (Action::PollShutdown(Poll::Downloaded), Event::Shutdown(false)) => (
            asks(run, Action::Discover),
            state,
        ),
        (Action::Discover, Event::Discovered(files)) => if files@.len() == 0 {
            (asks(run, Action::Finish(true)), ended_state(state, true))
        } else {
            (
                asks(
                    RunModel { files: file_models(files@), ..run },
                    Action::OpenMarker { force: run.force },
                ),
                state,
            )
        },
        (Action::OpenMarker { .. }, Event::Opened { decision, facts }) => match decision {
            ProcessingDecision::Skip => (
                asks(with_facts(run, facts), Action::Finish(true)),
                ended_state(state, true),
            ),
            ProcessingDecision::Reprocess => (
                asks(with_facts(run, facts), Action::ResetMarker),
                state,
            ),
            ProcessingDecision::Continue => (asks(with_facts(run, facts), Action::Connect), state),
        },
        (Action::ResetMarker, Event::Reset(facts)) => (
            asks(with_facts(run, facts), Action::Connect),
            state,
        ),
        (Action::Connect, Event::Done) => (
            asks(run, Action::SetupExchange(DataType::Artists)),
            state,
        ),
        (Action::SetupExchange(data_type), Event::Done) => (after_exchange(run, data_type), state),
        (Action::StartProcessing { .. }, Event::Started(at)) => (
            ready(RunModel { marker_started: at, ..run }),
            state,
        ),
        (Action::ResumeProcessing { .. }, Event::Done) => (
            ready(run),
            StateModel { progress: rehydrated(state.progress, run.files, run.known), ..state },
        ),
        (Action::BuildArtistMap { .. }, Event::Done) => (before_file(run), state),
        (Action::PollShutdown(Poll::File), Event::Shutdown(true)) => (
            after_files(RunModel { success: false, ..run }),
            state,
        ),
        (Action::PollShutdown(Poll::File), Event::Shutdown(false)) => (at_file(run), state),
        (Action::StartFile { file }, Event::Done) => (
            asks(
                run,
                Action::RunPipeline {
                    file,
                    with_artist_map: run.files[run.next].data_type == DataType::Artists,
                },
            ),
            opened_state(
                state,
                run.files[run.next].data_type,
                run.files[run.next].file_name,
            ),
        ),
        (Action::RunPipeline { .. }, Event::Piped { parsed, batched, published }) => (
            after_pipeline(run, parsed, batched, published),
            state,
        ),
        (Action::SendFileComplete { file, records }, Event::Sent(true)) => (
            asks(run, Action::FinishFile { file, complete: Some(records) }),
            state,
        ),
        (Action::SendFileComplete { file, records }, Event::Sent(false)) => (
            asks(
                RunModel { success: false, ..run },
                Action::FinishFile { file, complete: None },
            ),
            state,
        ),
        (Action::FinishFile { complete, .. }, Event::Done) => (
            after_file(run, complete),
            closed_state(
                state,
                run.files[run.next].data_type,
                run.files[run.next].file_name,
                complete is Some,
            ),
        ),
        (Action::RecordOutcome(_), Event::Done) => (
            before_file(RunModel { next: run.next + 1, ..run }),
            state,
        ),
        (Action::SendExtractionComplete { .. }, Event::Sent(sent)) => (
            asks(RunModel { success: sent, ..run }, Action::Close),
            state,
        ),
        (Action::Close, _) => (
            asks(run, Action::FinalizeMarker { complete: run.success }),
            state,
        ),
        (Action::FinalizeMarker { .. }, Event::Done) => (
            asks(run, Action::Finish(run.success)),
            ended_state(state, run.success),
        ),
        _ => (asks(run, Action::Fail), state),
    }
}

/// Whether a run has a file at hand wherever it asks for something to be done with one.
pub open spec fn at_hand(run: RunModel) -> bool {
    &&& 0 <= run.next <= run.files.len()
    &&& run.files.len() <= usize::MAX
    &&& match run.asked {
        Action::PollShutdown(Poll::File) | Action::RecordOutcome(_) => run.next < run.files.len(),
        Action::StartFile { file } => run.next < run.files.len() && file == run.next,
        Action::RunPipeline { file, .. } => run.next < run.files.len() && file == run.next,
        Action::SendFileComplete { file, records } => run.next < run.files.len() && file
            == run.next && records == run.records,
        Action::FinishFile { file, .. } => run.next < run.files.len() && file == run.next,
        Action::BuildArtistMap { file } => run.next == 0 && file < run.files.len(),
        Action::PollShutdown(_) | Action::Download | Action::Discover | Action::OpenMarker { .. }
        | Action::ResetMarker | Action::Connect | Action::SetupExchange(_)
        | Action::StartProcessing { .. } | Action::ResumeProcessing { .. } => run.next == 0,
        _ => true,
    }
}

/// A run that has not begun.
pub open spec fn new_run(force: bool, began_at: Timestamp) -> RunModel {
    RunModel {
        force,
        began_at,
        version: Seq::empty(),
        files: Seq::empty(),
        phase: PhaseStatus::Pending,
        marker_started: None,
        known: Map::empty(),
        next: 0,
        records: 0,
        counts: Map::empty(),
        success: true,
        asked: Action::PollShutdown(Poll::Start),
    }
}

proof fn lemma_first_of(files: Seq<FileModel>, data_type: DataType, from: int)
    requires
        0 <= from,
    ensures
        first_of(files, data_type, from) matches Some(file) ==> from <= file < files.len()
            && files[file].data_type == data_type,
    decreases files.len() - from,
{
    if from < files.len() && files[from].data_type != data_type {
        lemma_first_of(files, data_type, from + 1);
    }
}

/// A run has a file at hand wherever it needs one, from its beginning and over every step.
pub proof fn a_run_keeps_its_file_at_hand(run: RunModel, state: StateModel, event: Event)
    requires
        at_hand(run),
        answers(event, run.asked),
    ensures
        at_hand(run_step(run, state, event).0),
        at_hand(new_run(run.force, run.began_at)),
{
    lemma_first_of(run.files, DataType::Artists, 0);
    if let Event::Discovered(files) = event {
        assert(files@.len() == files.len());
    }
}

// ── The run itself ──────────────────────────────────────────────────

/// The word that an extraction is complete.
#[derive(Debug)]
pub struct Completion {
    pub version: String,
    pub started_at: Timestamp,
    pub record_counts: Vec<(String, u64)>,
    pub types: Vec<DataType>,
}

/// What a list of counts stands for.
pub open spec fn count_models(counts: Seq<(String, u64)>) -> Seq<(Seq<char>, u64)> {
    counts.map_values(|count: (String, u64)| (count.0@, count.1))
}

/// The counts of a list of types, by name; a type without a count is passed over.
pub open spec fn counts_of(counts: Map<DataType, u64>, types: Seq<DataType>) -> Seq<
    (Seq<char>, u64),
>
    decreases types.len(),
{
    if types.len() == 0 {
        Seq::empty()
    } else {
        let before = counts_of(counts, types.drop_last());
        if counts.contains_key(types.last()) {
            before.push((name_of_type(types.last())@, counts[types.last()]))
        } else {
            before
        }
    }
}

/// The counts of all types, by name.
pub open spec fn named_counts(counts: Map<DataType, u64>) -> Seq<(Seq<char>, u64)> {
    counts_of(counts, all_types())
}

/// Whether a name is that of one of a list of types.
pub open spec fn names_one_of(name: Seq<char>, types: Seq<DataType>) -> bool {
    exists|t: DataType| #[trigger] types.contains(t) && name == name_of_type(t)@
}

proof fn lemma_counts_of(counts: Map<DataType, u64>, types: Seq<DataType>)
    ensures
        forall|t: DataType, n: u64|
            #![trigger counts_of(counts, types).contains((name_of_type(t)@, n))]
            counts_of(counts, types).contains((name_of_type(t)@, n)) <==> types.contains(t)
                && counts.contains_key(t) && counts[t] == n,
        forall|i: int|
            0 <= i < counts_of(counts, types).len() ==> names_one_of(
                (#[trigger] counts_of(counts, types)[i]).0,
                types,
            ),
    decreases types.len(),
{
    if types.len() > 0 {
        let rest = types.drop_last();
        let last = types.last();
        let all = counts_of(counts, types);
        let some = counts_of(counts, rest);
        lemma_counts_of(counts, rest);
        assert forall|t: DataType, n: u64|
            #![trigger all.contains((name_of_type(t)@, n))]
            all.contains((name_of_type(t)@, n)) <==> types.contains(t) && counts.contains_key(t)
                && counts[t] == n by {
            let entry = (name_of_type(t)@, n);
            types_are_told_apart_by_name(t, last);
            if all.contains(entry) {
                let i = choose|i: int| 0 <= i < all.len() && all[i] == entry;
                if i < some.len() {
                    assert(some[i] == entry);
                    assert(some.contains(entry));
                    let j = choose|j: int| 0 <= j < rest.len() && rest[j] == t;
                    assert(types[j] == t);
                } else {
                    assert(types[types.len() - 1] == t);
                }
            }
            if types.contains(t) && counts.contains_key(t) && counts[t] == n {
                if t == last {
                    assert(all[all.len() - 1] == entry);
                } else {
                    let j = choose|j: int| 0 <= j < types.len() && types[j] == t;
                    assert(rest[j] == t);
                    assert(some.contains(entry));
                    let i = choose|i: int| 0 <= i < some.len() && some[i] == entry;
                    assert(all[i] == entry);
                }
            }
        }
        assert forall|i: int| 0 <= i < all.len() implies names_one_of(
            (#[trigger] all[i]).0,
            types,
        ) by {
            if i < some.len() {
                assert(all[i] == some[i]);
                let t = choose|t: DataType| #[trigger]
                    rest.contains(t) && some[i].0 == name_of_type(t)@;
                let j = choose|j: int| 0 <= j < rest.len() && rest[j] == t;
                assert(types[j] == t);
                assert(types.contains(t));
            } else {
                assert(types[types.len() - 1] == last);
                assert(types.contains(last));
            }
        }
    }
}

proof fn lemma_counts_once(counts: Map<DataType, u64>, types: Seq<DataType>, i: int, j: int)
    requires
        forall|a: int, b: int| 0 <= a < b < types.len() ==> #[trigger] types[a] != #[trigger] types[b],
        0 <= i < j < counts_of(counts, types).len(),
    ensures
        counts_of(counts, types)[i].0 != counts_of(counts, types)[j].0,
    decreases types.len(),
{
    let rest = types.drop_last();
    let last = types.last();
    let some = counts_of(counts, rest);
    assert forall|a: int, b: int| 0 <= a < b < rest.len() implies #[trigger] rest[a]
        != #[trigger] rest[b] by {
        assert(rest[a] == types[a] && rest[b] == types[b]);
    }
    if j < some.len() {
        lemma_counts_once(counts, rest, i, j);
    } else {
        lemma_counts_of(counts, rest);
        assert(counts_of(counts, types)[i] == some[i]);
        assert(names_one_of(some[i].0, rest));
        let t = choose|t: DataType| #[trigger] rest.contains(t) && some[i].0 == name_of_type(t)@;
        let k = choose|k: int| 0 <= k < rest.len() && rest[k] == t;
        assert(types[k] == t && types[types.len() - 1] == last);
        types_are_told_apart_by_name(t, last);
    }
}

/// The counts by name hold a type with a number exactly where the type was counted with that
/// number, whatever type it is; they hold no other name, and none twice.
pub proof fn every_counted_type_is_named_once(
    counts: Map<DataType, u64>,
    data_type: DataType,
    n: u64,
    i: int,
    j: int,
)
    ensures
        named_counts(counts).contains((name_of_type(data_type)@, n)) <==> counts.contains_key(
            data_type,
        ) && counts[data_type] == n,
        0 <= i < named_counts(counts).len() ==> exists|t: DataType| #[trigger]
            counts.contains_key(t) && named_counts(counts)[i] == (name_of_type(t)@, counts[t]),
        0 <= i < j < named_counts(counts).len() ==> named_counts(counts)[i].0 != named_counts(
            counts,
        )[j].0,
{
    let types = all_types();
    let all = named_counts(counts);
    every_type_is_listed_once(data_type, 0, 1);
    lemma_counts_of(counts, types);
    if 0 <= i < all.len() {
        assert(names_one_of(all[i].0, types));
        let t = choose|t: DataType| #[trigger] types.contains(t) && all[i].0 == name_of_type(t)@;
        assert(all[i] == (name_of_type(t)@, all[i].1));
        assert(all.contains((name_of_type(t)@, all[i].1)));
    }
    if 0 <= i < j < all.len() {
        assert forall|a: int, b: int| 0 <= a < b < types.len() implies #[trigger] types[a]
            != #[trigger] types[b] by {
            every_type_is_listed_once(data_type, a, b);
        }
        lemma_counts_once(counts, types, i, j);
    }
}

impl Run {
    /// A run that has not begun, and what it asks for first.
    pub fn new(force_reprocess: bool, began_at: Timestamp) -> (run: Run)
        ensures
            run@ == new_run(force_reprocess, began_at),
            at_hand(run@),
    {
        let run = Run {
            force_reprocess,
            began_at,
            version: String::new(),
            files: Vec::new(),
            marker: MarkerFacts {
                phase: PhaseStatus::Pending,
                started_at: None,
                files: Table::new(),
            },
            next: 0,
            records: 0,
            record_counts: PerType::new(),
            success: true,
            asked: Action::PollShutdown(Poll::Start),
        };
        assert(run@ =~= new_run(force_reprocess, began_at));
        run
    }

    /// Whether an event is an answer to what this run asked for.
    pub fn accepts(&self, event: &Event) -> (fits: bool)
        ensures
            fits == answers(*event, self@.asked),
    {
        let failed = matches!(event, Event::Failed);
        let done = matches!(event, Event::Done);
        match self.asked {
            Action::PollShutdown(_) => matches!(event, Event::Shutdown(_)),
            Action::Download => failed || matches!(event, Event::Downloaded(_)),
            Action::Discover => failed || matches!(event, Event::Discovered(_)),
            Action::OpenMarker { .. } => failed || matches!(event, Event::Opened { .. }),
            Action::ResetMarker => matches!(event, Event::Reset(_)),
            Action::Connect
            | Action::SetupExchange(_)
            | Action::ResumeProcessing { .. }
            | Action::BuildArtistMap { .. }
            | Action::StartFile { .. }
            | Action::FinishFile { .. }
            | Action::Close
            | Action::FinalizeMarker { .. } => failed || done,
            Action::StartProcessing { .. } => failed || matches!(event, Event::Started(_)),
            Action::RunPipeline { .. } => matches!(event, Event::Piped { .. }),
            Action::SendFileComplete { .. } | Action::SendExtractionComplete { .. } => {
                matches!(event, Event::Sent(_))
            },
            Action::RecordOutcome(_) => done,
            Action::Finish(_) | Action::Fail => false,
        }
    }

    /// Whether the counts of a resumed run fit.
    pub fn can_resume(&self, state: &ExtractorState) -> (fits: bool)
        ensures
            fits == rehydration_fits(state@.progress, self@.files, self@.known),
    {
        let ghost files = self@.files;
        let ghost known = self@.known;
        let mut progress = state.extraction_progress;
        let mut i: usize = 0;
        assert(files.take(0) =~= Seq::<FileModel>::empty());
        while i < self.files.len()
            invariant
                i <= self.files@.len(),
                files == self@.files,
                known == self@.known,
                progress == rehydrated(state@.progress, files.take(i as int), known),
                rehydration_fits(state@.progress, files.take(i as int), known),
            decreases self.files.len() - i,
        {
            proof {
                assert(files.take(i + 1).drop_last() =~= files.take(i as int));
                assert(files.take(i + 1).last() == self.files@[i as int]@);
            }
            if let Some(records) = self.completed_records(self.files[i].file_name.as_str()) {
                let data_type = self.files[i].data_type;
                if records > u64::MAX - progress.get(data_type) {
                    proof {
                        if rehydration_fits(state@.progress, files, known) {
                            lemma_fits_prefix(state@.progress, files, known, i + 1);
                        }
                    }
                    return false;
                }
                progress.add(data_type, records);
            }
            i = i + 1;
        }
        assert(files.take(files.len() as int) =~= files);
        true
    }

    /// What the word that the extraction is complete holds: the version, the time at which
    /// the processing began, how many records there are of each type, and whom it goes to.
    pub fn completion(&self) -> (completion: Completion)
        ensures
            completion.version@ == self@.version,
            completion.started_at == processing_start(self@),
            completion.types@ == musicbrainz_types(),
            count_models(completion.record_counts@) == named_counts(self@.counts),
            forall|t: DataType, n: u64|
                #![trigger count_models(completion.record_counts@).contains((name_of_type(t)@, n))]
                count_models(completion.record_counts@).contains((name_of_type(t)@, n))
                    <==> self@.counts.contains_key(t) && self@.counts[t] == n,
    {
        let mut record_counts: Vec<(String, u64)> = Vec::new();
        let all = [
            DataType::Artists,
            DataType::Labels,
            DataType::Masters,
            DataType::ReleaseGroups,
            DataType::Releases,
        ];
        let ghost counts = self@.counts;
        let mut i: usize = 0;
        proof {
            assert(all_types().take(0) =~= Seq::<DataType>::empty());
            assert(count_models(record_counts@) =~= Seq::<(Seq<char>, u64)>::empty());
        }
        while i < 5
            invariant
                i <= 5,
                all@ == all_types(),
                counts == self@.counts,
                count_models(record_counts@) == counts_of(counts, all_types().take(i as int)),
            decreases 5 - i,
        {
            proof {
                assert(all_types().take(i + 1).drop_last() =~= all_types().take(i as int));
                assert(all_types().take(i + 1).last() == all@[i as int]);
            }
            if let Some(records) = self.record_counts.get(&all[i]) {
                let ghost before = record_counts@;
                record_counts.push((all[i].as_str().to_owned(), *records));
                assert(count_models(record_counts@) =~= count_models(before).push(
                    (name_of_type(all@[i as int])@, *records),
                ));
            }
            i = i + 1;
        }
        proof {
            assert(all_types().take(5) =~= all_types());
            assert forall|t: DataType, n: u64|
                #![trigger count_models(record_counts@).contains((name_of_type(t)@, n))]
                count_models(record_counts@).contains((name_of_type(t)@, n))
                    <==> counts.contains_key(t) && counts[t] == n by {
                every_counted_type_is_named_once(counts, t, n, 0, 1);
            }
        }
        Completion {
            version: self.version.clone(),
            started_at: self.processing_start(),
            record_counts,
            types: DataType::musicbrainz(),
        }
    }

    fn processing_start(&self) -> (at: Timestamp)
        ensures
            at == processing_start(self@),
    {
        match self.marker.started_at {
            Some(at) => at,
            None => self.began_at,
        }
    }

    fn after_files(&mut self)
        ensures
            final(self)@ == after_files(old(self)@),
    {
        self.asked = if self.success {
            Action::SendExtractionComplete { started_at: self.processing_start() }
        } else {
            Action::Close
        };
    }

    fn before_file(&mut self)
        ensures
            final(self)@ == before_file(old(self)@),
    {
        if self.next < self.files.len() {
            self.asked = Action::PollShutdown(Poll::File);
        } else {
            self.after_files();
        }
    }

    fn ready(&mut self)
        ensures
            final(self)@ == ready(old(self)@),
    {
        let ghost files = self@.files;
        let mut i: usize = 0;
        while i < self.files.len()
            invariant
                i <= self.files@.len(),
                self@ == old(self)@,
                files == file_models(self.files@),
                first_of(files, DataType::Artists, 0) == first_of(
                    files,
                    DataType::Artists,
                    i as int,
                ),
            decreases self.files.len() - i,
        {
            assert(files[i as int] == self.files@[i as int]@);
            if self.files[i].data_type == DataType::Artists {
                self.asked = Action::BuildArtistMap { file: i };
                return ;
            }
            i = i + 1;
        }
        self.before_file();
    }

    fn declared(&mut self)
        ensures
            final(self)@ == declared(old(self)@),
    {
        assert(self@.files.len() == self.files@.len());
        match self.marker.phase {
            PhaseStatus::Pending => {
                self.asked = Action::StartProcessing { files: self.files.len() };
            },
            PhaseStatus::InProgress => {
                self.asked = Action::ResumeProcessing { files: self.files.len() };
            },
            _ => self.ready(),
        }
    }

    fn after_exchange(&mut self, data_type: DataType)
        ensures
            final(self)@ == after_exchange(old(self)@, data_type),
    {
        match data_type {
            DataType::Artists => {
                self.asked = Action::SetupExchange(DataType::Labels);
            },
            DataType::Labels => {
                self.asked = Action::SetupExchange(DataType::ReleaseGroups);
            },
            DataType::ReleaseGroups => {
                self.asked = Action::SetupExchange(DataType::Releases);
            },
            _ => self.declared(),
        }
    }

    /// The records of a file where the state marker knows it as completed.
    fn completed_records(&self, file_name: &str) -> (records: Option<u64>)
        ensures
            records is Some <==> is_completed(self@.known, file_name@),
            records matches Some(count) ==> count == self@.known[file_name@].records_extracted,
    {
        match self.marker.files.get(file_name) {
            Some(progress) => if progress.status == PhaseStatus::Completed {
                Some(progress.records_extracted)
            } else {
                None
            },
            None => None,
        }
    }

    fn at_file(&mut self)
        requires
            old(self)@.next < old(self)@.files.len(),
        ensures
            final(self)@ == at_file(old(self)@),
    {
        let ghost file = self@.files[self@.next];
        assert(file == self.files@[self.next as int]@);
        match self.completed_records(self.files[self.next].file_name.as_str()) {
            Some(records) => {
                let data_type = self.files[self.next].data_type;
                self.record_counts.insert(data_type, records);
                self.asked = Action::RecordOutcome(FileOutcome::Skipped);
            },
            None => {
                self.asked = Action::StartFile { file: self.next };
            },
        }
    }

    /// Count the records of every file that an earlier session completed.
    fn rehydrate(&self, state: &mut ExtractorState)
        requires
            rehydration_fits(old(state)@.progress, self@.files, self@.known),
        ensures
            final(state)@ == (StateModel {
                progress: rehydrated(old(state)@.progress, self@.files, self@.known),
                ..old(state)@
            }),
            old(state).completed_files.distinct() ==> final(state).completed_files.distinct(),
    {
        let ghost files = self@.files;
        let ghost known = self@.known;
        let ghost progress = state@.progress;
        let ghost before = state@;
        let mut i: usize = 0;
        assert(files.take(0) =~= Seq::<FileModel>::empty());
        while i < self.files.len()
            invariant
                i <= self.files@.len(),
                files == self@.files,
                known == self@.known,
                rehydration_fits(progress, files, known),
                state@ == (StateModel {
                    progress: rehydrated(progress, files.take(i as int), known),
                    ..before
                }),
                old(state).completed_files.distinct() ==> state.completed_files.distinct(),
            decreases self.files.len() - i,
        {
            proof {
                lemma_fits_prefix(progress, files, known, i + 1);
                assert(files.take(i + 1).drop_last() =~= files.take(i as int));
                assert(files.take(i + 1).last() == self.files@[i as int]@);
            }
            if let Some(records) = self.completed_records(self.files[i].file_name.as_str()) {
                state.extraction_progress.add(self.files[i].data_type, records);
            }
            i = i + 1;
        }
        assert(files.take(files.len() as int) =~= files);
    }

    fn after_pipeline(&mut self, parsed: Option<u64>, batched: bool, published: bool)
        ensures
            final(self)@ == after_pipeline(old(self)@, parsed, batched, published),
    {
        match parsed {
            Some(count) => {
                self.records = count;
                if batched && published {
                    self.asked = Action::SendFileComplete { file: self.next, records: count };
                    return ;
                }
            },
            None => {
                self.records = 0;
            },
        }
        self.success = false;
        self.asked = Action::FinishFile { file: self.next, complete: None };
    }

    fn after_file(&mut self, complete: Option<u64>)
        requires
            old(self)@.next < old(self)@.files.len(),
        ensures
            final(self)@ == after_file(old(self)@, complete),
    {
        assert(self@.files[self@.next] == self.files@[self.next as int]@);
        let data_type = self.files[self.next].data_type;
        self.record_counts.insert(data_type, self.records);
        match complete {
            Some(records) => {
                let file_name = self.files[self.next].file_name.clone();
                self.marker.files.insert(
                    file_name,
                    FileProgress { status: PhaseStatus::Completed, records_extracted: records },
                );
                self.asked = Action::RecordOutcome(FileOutcome::Completed);
            },
            None => {
                self.asked = Action::RecordOutcome(FileOutcome::Failed);
            },
        }
    }
}

proof fn lemma_fits_prefix(
    progress: ExtractionProgress,
    files: Seq<FileModel>,
    known: Map<Seq<char>, FileProgress>,
    upto: int,
)
    requires
        rehydration_fits(progress, files, known),
        0 <= upto <= files.len(),
    ensures
        rehydration_fits(progress, files.take(upto), known),
    decreases files.len(),
{
    if upto == files.len() {
        assert(files.take(upto) =~= files);
    } else {
        lemma_fits_prefix(progress, files.drop_last(), known, upto);
        assert(files.drop_last().take(upto) =~= files.take(upto));
    }
}

/// One step of a run: take the answer to what was asked for, and ask for the next thing.
pub fn process_musicbrainz_data(run: &mut Run, state: &mut ExtractorState, event: Event) -> (next:
    Action)
    requires
        at_hand(old(run)@),
        answers(event, old(run)@.asked),
        old(run)@.asked is ResumeProcessing ==> rehydration_fits(
            old(state)@.progress,
            old(run)@.files,
            old(run)@.known,
        ),
    ensures
        (final(run)@, final(state)@) == run_step(old(run)@, old(state)@, event),
        next == final(run)@.asked,
        at_hand(final(run)@),
        old(state).completed_files.distinct() ==> final(state).completed_files.distinct(),
{
    proof {
        a_run_keeps_its_file_at_hand(run@, state@, event);
    }
    match (run.asked, event) {
        (Action::PollShutdown(Poll::Start), Event::Shutdown(requested)) => {
            if requested {
                run.asked = Action::Finish(false);
            } else {
                state.start_run();
                run.asked = Action::Download;
            }
        },
        (Action::Download, Event::Downloaded(version)) => {
            run.version = version;
            run.asked = Action::PollShutdown(Poll::Downloaded);
        },
        (Action::PollShutdown(Poll::Downloaded), Event::Shutdown(requested)) => {
            run.asked = if requested {
                Action::Finish(false)
            } else {
                Action::Discover
            };
        },
        (Action::Discover, Event::Discovered(files)) => {
            if files.len() == 0 {
                state.end_run(true);
                run.asked = Action::Finish(true);
            } else {
                run.files = files;
                run.asked = Action::OpenMarker { force: run.force_reprocess };
            }
        },
        (Action::OpenMarker { .. }, Event::Opened { decision, facts }) => {
            run.marker = facts;
            match decision {
                ProcessingDecision::Skip => {
                    state.end_run(true);
                    run.asked = Action::Finish(true);
                },
                ProcessingDecision::Reprocess => {
                    run.asked = Action::ResetMarker;
                },
                ProcessingDecision::Continue => {
                    run.asked = Action::Connect;
                },
            }
        },
        (Action::ResetMarker, Event::Reset(facts)) => {
            run.marker = facts;
            run.asked = Action::Connect;
        },
        (Action::Connect, Event::Done) => {
            run.asked = Action::SetupExchange(DataType::Artists);
        },
        (Action::SetupExchange(data_type), Event::Done) => run.after_exchange(data_type),
        (Action::StartProcessing { .. }, Event::Started(at)) => {
            run.marker.started_at = at;
            run.ready();
        },
        (Action::ResumeProcessing { .. }, Event::Done) => {
            run.rehydrate(state);
            run.ready();
        },
        (Action::BuildArtistMap { .. }, Event::Done) => run.before_file(),
        (Action::PollShutdown(Poll::File), Event::Shutdown(requested)) => {
            if requested {
                run.success = false;
                run.after_files();
            } else {
                run.at_file();
            }
        },
        (Action::StartFile { file }, Event::Done) => {
            assert(run@.files[run@.next] == run.files@[run.next as int]@);
            let data_type = run.files[run.next].data_type;
            state.open_file(data_type, run.files[run.next].file_name.as_str());
            run.asked = Action::RunPipeline {
                file,
                with_artist_map: data_type == DataType::Artists,
            };
        },
        (Action::RunPipeline { .. }, Event::Piped { parsed, batched, published }) => {
            run.after_pipeline(parsed, batched, published);
        },
        (Action::SendFileComplete { file, records }, Event::Sent(sent)) => {
            if sent {
                run.asked = Action::FinishFile { file, complete: Some(records) };
            } else {
                run.success = false;
                run.asked = Action::FinishFile { file, complete: None };
            }
        },
        (Action::FinishFile { complete, .. }, Event::Done) => {
            assert(run@.files[run@.next] == run.files@[run.next as int]@);
            state.close_file(
                run.files[run.next].data_type,
                run.files[run.next].file_name.as_str(),
                complete.is_some(),
            );
            run.after_file(complete);
        },
        (Action::RecordOutcome(_), Event::Done) => {
            run.next = run.next + 1;
            run.before_file();
        },
        (Action::SendExtractionComplete { .. }, Event::Sent(sent)) => {
            run.success = sent;
            run.asked = Action::Close;
        },
        (Action::Close, _) => {
            run.asked = Action::FinalizeMarker { complete: run.success };
        },
        (Action::FinalizeMarker { .. }, Event::Done) => {
            state.end_run(run.success);
            run.asked = Action::Finish(run.success);
        },
        _ => {
            run.asked = Action::Fail;
        },
    }
    run.asked
}

} // verus!
