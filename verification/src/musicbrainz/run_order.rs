//! What a run asks for, what led to it, and what an answer changes.

use crate::musicbrainz::run::{
    a_run_keeps_its_file_at_hand, answers, at_hand, first_of, new_run, rehydrated,
    rehydration_fits, run_step, Action, Event, FileModel, FileProgress, PhaseStatus, Poll,
    ProcessingDecision, RunModel, Timestamp,
};
use crate::musicbrainz::run_laws::{
    completions, every_answer_brings_the_end_closer, lemma_harmed_after, lemma_unharmed_after,
    nothing_failed, reached_files, run_after, stage, well_answered,
};
use crate::runtime::{ExtractionStatus, StateModel};
use crate::telemetry::FileOutcome;
use crate::types::{count_of, musicbrainz_types, DataType, ExtractionProgress};
use vstd::prelude::*;

verus! {

/// Every answer fits exactly the actions that it can come of.
pub proof fn answers_fit_their_actions(event: Event, action: Action)
    ensures
        event is Shutdown ==> (answers(event, action) <==> action is PollShutdown),
        event is Downloaded ==> (answers(event, action) <==> action is Download),
        event is Discovered ==> (answers(event, action) <==> action is Discover),
        event is Opened ==> (answers(event, action) <==> action is OpenMarker),
        event is Reset ==> (answers(event, action) <==> action is ResetMarker),
        event is Started ==> (answers(event, action) <==> action is StartProcessing),
        event is Piped ==> (answers(event, action) <==> action is RunPipeline),
        event is Sent ==> (answers(event, action) <==> action is SendFileComplete
            || action is SendExtractionComplete),
        event is Done ==> (answers(event, action) <==> action is Connect
            || action is SetupExchange || action is ResumeProcessing || action is BuildArtistMap
            || action is StartFile || action is FinishFile || action is RecordOutcome
            || action is Close || action is FinalizeMarker),
        event is Failed ==> (answers(event, action) <==> action is Download || action is Discover
            || action is OpenMarker || action is Connect || action is SetupExchange
            || action is StartProcessing || action is ResumeProcessing || action is BuildArtistMap
            || action is StartFile || action is FinishFile || action is Close
            || action is FinalizeMarker),
{
}

// ── What led to what ────────────────────────────────────────────────

/// What holds of every run that began afresh: it has a file at hand wherever it needs one,
/// there are files once the state marker is opened, and nothing was counted or failed before
/// the files.
pub open spec fn under_way(run: RunModel) -> bool {
    &&& at_hand(run)
    &&& run.asked != Action::SetupExchange(DataType::Masters)
    &&& 1 <= stage(run) <= 11 ==> run.files.len() > 0
    &&& stage(run) >= 3 ==> run.success && run.next == 0 && run.counts == Map::<
        DataType,
        u64,
    >::empty()
    &&& run.asked is SendExtractionComplete ==> run.success && run.next == run.files.len()
}

/// Every run is under way from its beginning to its end.
pub proof fn a_run_stays_under_way(
    force: bool,
    began_at: Timestamp,
    run: RunModel,
    state: StateModel,
    event: Event,
)
    requires
        under_way(run),
        answers(event, run.asked),
    ensures
        under_way(new_run(force, began_at)),
        under_way(run_step(run, state, event).0),
{
    a_run_keeps_its_file_at_hand(run, state, event);
}

/// Every well-answered run is under way.
pub proof fn every_run_is_under_way(
    force: bool,
    began_at: Timestamp,
    state: StateModel,
    events: Seq<Event>,
)
    requires
        well_answered(new_run(force, began_at), state, events),
    ensures
        under_way(run_after(new_run(force, began_at), state, events).0),
    decreases events.len(),
{
    if events.len() > 0 {
        let before = run_after(new_run(force, began_at), state, events.drop_last());
        every_run_is_under_way(force, began_at, state, events.drop_last());
        a_run_stays_under_way(force, began_at, before.0, before.1, events.last());
    }
}

/// The dump is downloaded once the run may begin, its files are listed once it is there, and
/// the state marker is opened where there are files: each step only behind the one before.
pub proof fn what_leads_to_the_marker(run: RunModel, state: StateModel, event: Event)
    requires
        under_way(run),
        answers(event, run.asked),
    ensures
        ({
            let next = run_step(run, state, event).0.asked;
            &&& next != Action::PollShutdown(Poll::Start)
            &&& next is Download ==> run.asked == Action::PollShutdown(Poll::Start) && event
                == Event::Shutdown(false)
            &&& next == Action::PollShutdown(Poll::Downloaded) ==> run.asked is Download
                && event is Downloaded
            &&& next is Discover ==> run.asked == Action::PollShutdown(Poll::Downloaded) && event
                == Event::Shutdown(false)
            &&& next is OpenMarker ==> run.asked is Discover && event is Discovered
                && event->Discovered_0@.len() > 0 && next->force == run.force
            &&& next is ResetMarker ==> run.asked is OpenMarker && event is Opened
                && event->decision == ProcessingDecision::Reprocess
        }),
{
}

/// The broker is connected to where the state marker says that there is something to do, and
/// then an exchange is declared for each type that MusicBrainz has, one behind the other.
pub proof fn what_leads_to_the_exchanges(run: RunModel, state: StateModel, event: Event)
    requires
        under_way(run),
        answers(event, run.asked),
    ensures
        ({
            let next = run_step(run, state, event).0.asked;
            &&& next is Connect ==> (run.asked is OpenMarker && event is Opened && event->decision
                == ProcessingDecision::Continue) || (run.asked is ResetMarker && event is Reset)
            &&& next is SetupExchange ==> event is Done && exists|i: int|
                0 <= i < musicbrainz_types().len() && next == Action::SetupExchange(
                    #[trigger] musicbrainz_types()[i],
                ) && if i == 0 {
                    run.asked is Connect
                } else {
                    run.asked == Action::SetupExchange(musicbrainz_types()[i - 1])
                }
        }),
{
    let next = run_step(run, state, event).0.asked;
    if next is SetupExchange {
        let types = musicbrainz_types();
        assert(types[0] == DataType::Artists && types[1] == DataType::Labels);
        assert(types[2] == DataType::ReleaseGroups && types[3] == DataType::Releases);
    }
}

/// Whether an answer is the word that the last exchange is declared.
pub open spec fn exchanges_declared(run: RunModel, event: Event) -> bool {
    run.asked == Action::SetupExchange(DataType::Releases) && event is Done
}

/// Whether an answer makes the state marker ready for the files.
pub open spec fn marker_ready(run: RunModel, event: Event) -> bool {
    ||| exchanges_declared(run, event) && (run.phase == PhaseStatus::Completed || run.phase
        == PhaseStatus::Failed)
    ||| run.asked is StartProcessing && event is Started
    ||| run.asked is ResumeProcessing && event is Done
}

proof fn lemma_first_of(files: Seq<FileModel>, data_type: DataType, from: int)
    requires
        0 <= from,
    ensures
        match first_of(files, data_type, from) {
            Some(file) => from <= file < files.len() && files[file].data_type == data_type
                && forall|j: int|
                from <= j < file ==> (#[trigger] files[j]).data_type != data_type,
            None => forall|j: int|
                from <= j < files.len() ==> (#[trigger] files[j]).data_type != data_type,
        },
    decreases files.len() - from,
{
    if from < files.len() && files[from].data_type != data_type {
        lemma_first_of(files, data_type, from + 1);
    }
}

/// The processing is started where the state marker does not know of any, and resumed where
/// it was under way. The artist dump is read ahead where there is one, the first of them, once
/// the marker is ready. Then the files begin.
pub proof fn what_leads_to_the_files(run: RunModel, state: StateModel, event: Event)
    requires
        under_way(run),
        answers(event, run.asked),
    ensures
        ({
            let after = run_step(run, state, event).0;
            let next = after.asked;
            &&& next is StartProcessing ==> exchanges_declared(run, event) && run.phase
                == PhaseStatus::Pending && next->StartProcessing_files == run.files.len()
            &&& next is ResumeProcessing ==> exchanges_declared(run, event) && run.phase
                == PhaseStatus::InProgress && next->ResumeProcessing_files == run.files.len()
            &&& next is BuildArtistMap ==> marker_ready(run, event)
                && next->BuildArtistMap_file < run.files.len()
                && run.files[next->BuildArtistMap_file as int].data_type == DataType::Artists
                && forall|j: int|
                0 <= j < next->BuildArtistMap_file ==> (#[trigger] run.files[j]).data_type
                    != DataType::Artists
            &&& next == Action::PollShutdown(Poll::File) ==> after.next < run.files.len() && {
                ||| marker_ready(run, event) && after.next == 0 && forall|j: int|
                    0 <= j < run.files.len() ==> (#[trigger] run.files[j]).data_type
                        != DataType::Artists
                ||| run.asked is BuildArtistMap && event is Done && after.next == 0
                ||| run.asked is RecordOutcome && event is Done && after.next == run.next + 1
            }
        }),
{
    lemma_first_of(run.files, DataType::Artists, 0);
}

/// Whether a run knows its next file as completed.
pub open spec fn knows_next(run: RunModel) -> bool {
    let name = run.files[run.next].file_name;
    run.known.contains_key(name) && run.known[name].status == PhaseStatus::Completed
}

/// Each file is started where it is not known as completed, goes through the pipeline, and is
/// finished; its outcome is counted at the end, and says what came of it.
pub proof fn what_becomes_of_a_file(run: RunModel, state: StateModel, event: Event)
    requires
        under_way(run),
        answers(event, run.asked),
    ensures
        ({
            let next = run_step(run, state, event).0.asked;
            &&& next is StartFile ==> run.asked == Action::PollShutdown(Poll::File) && event
                == Event::Shutdown(false) && next->StartFile_file == run.next && !knows_next(run)
            &&& next is RunPipeline ==> run.asked is StartFile && event is Done
                && next->RunPipeline_file == run.next && (next->with_artist_map
                <==> run.files[run.next].data_type == DataType::Artists)
            &&& next is SendFileComplete ==> run.asked is RunPipeline
                && next->SendFileComplete_file == run.next && event == (Event::Piped {
                parsed: Some(next->records),
                batched: true,
                published: true,
            })
            &&& next is FinishFile && next->FinishFile_complete is Some ==> run.asked == (
            Action::SendFileComplete { file: run.next as usize, records: next->FinishFile_complete->0 })
                && event == Event::Sent(true) && next->FinishFile_file == run.next
            &&& next is FinishFile && next->FinishFile_complete is None ==> next->FinishFile_file == run.next
                && {
                ||| run.asked is RunPipeline && event is Piped && !(event->parsed is Some
                    && event->batched && event->published)
                ||| run.asked is SendFileComplete && event == Event::Sent(false)
            }
            &&& next == Action::RecordOutcome(FileOutcome::Skipped) ==> run.asked
                == Action::PollShutdown(Poll::File) && event == Event::Shutdown(false)
                && knows_next(run)
            &&& next == Action::RecordOutcome(FileOutcome::Completed) ==> run.asked is FinishFile
                && run.asked->FinishFile_complete is Some && event is Done
            &&& next == Action::RecordOutcome(FileOutcome::Failed) ==> run.asked is FinishFile
                && run.asked->FinishFile_complete is None && event is Done
        }),
{
}

/// Behind the last file the word that the extraction is complete is sent where nothing failed.
/// The connection is closed behind it, or where something failed, or where a stop was asked
/// for. The state marker is finalized right behind the close, as complete where nothing
/// failed.
pub proof fn what_leads_to_the_end(run: RunModel, state: StateModel, event: Event)
    requires
        under_way(run),
        answers(event, run.asked),
    ensures
        ({
            let next = run_step(run, state, event).0.asked;
            let last_file = run.asked is RecordOutcome && event is Done && run.next + 1
                == run.files.len();
            &&& next is SendExtractionComplete ==> last_file && run.success && next->started_at
                == if run.marker_started is Some {
                run.marker_started->0
            } else {
                run.began_at
            }
            &&& next is Close ==> {
                ||| run.asked is SendExtractionComplete && event is Sent
                ||| last_file && !run.success
                ||| run.asked == Action::PollShutdown(Poll::File) && event == Event::Shutdown(true)
            }
            &&& next is FinalizeMarker ==> run.asked is Close && next
                == (Action::FinalizeMarker { complete: run.success })
            &&& next is Finish ==> {
                ||| run.asked == Action::PollShutdown(Poll::Start) && event == Event::Shutdown(true)
                    && next == Action::Finish(false)
                ||| run.asked == Action::PollShutdown(Poll::Downloaded) && event == Event::Shutdown(
                    true,
                ) && next == Action::Finish(false)
                ||| run.asked is Discover && event is Discovered && event->Discovered_0@.len() == 0
                    && next == Action::Finish(true)
                ||| run.asked is OpenMarker && event is Opened && event->decision
                    == ProcessingDecision::Skip && next == Action::Finish(true)
                ||| run.asked is FinalizeMarker && event is Done && next == Action::Finish(
                    run.success,
                )
            }
            &&& next is Fail ==> event is Failed && !(run.asked is Close)
        }),
{
}

// ── What an answer changes ──────────────────────────────────────────

/// A run keeps how it was begun. It learns the version from the download, the files from the
/// listing, and how far the work has come from the state marker, and nowhere else.
pub proof fn a_run_learns_from_its_answers(run: RunModel, state: StateModel, event: Event)
    requires
        under_way(run),
        answers(event, run.asked),
    ensures
        ({
            let after = run_step(run, state, event).0;
            &&& after.force == run.force
            &&& after.began_at == run.began_at
            &&& event is Downloaded ==> after.version == event->Downloaded_0@
            &&& !(event is Downloaded) ==> after.version == run.version
            &&& event is Discovered && event->Discovered_0@.len() > 0 ==> after.files.len()
                == event->Discovered_0@.len() && forall|i: int|
                0 <= i < after.files.len() ==> (#[trigger] after.files[i]).data_type
                    == event->Discovered_0@[i].data_type && after.files[i].file_name
                    == event->Discovered_0@[i].file_name@
            &&& !(event is Discovered) ==> after.files == run.files
            &&& event is Opened ==> after.phase == event->facts.phase && after.marker_started
                == event->facts.started_at && after.known == event->facts.files@
            &&& event is Reset ==> after.phase == event->Reset_0.phase && after.marker_started
                == event->Reset_0.started_at && after.known == event->Reset_0.files@
            &&& event is Started ==> after.marker_started == event->Started_0
            &&& !(event is Opened || event is Reset) ==> after.phase == run.phase
            &&& !(event is Opened || event is Reset || event is Started) ==> after.marker_started
                == run.marker_started
        }),
{
}

/// A file that is finished as complete is known as completed, with the records that were
/// sent; nothing else that is known of files changes behind the opening of the state marker.
pub proof fn a_finished_file_is_known(
    run: RunModel,
    state: StateModel,
    event: Event,
    name: Seq<char>,
)
    requires
        under_way(run),
        answers(event, run.asked),
        !(event is Opened || event is Reset),
    ensures
        ({
            let after = run_step(run, state, event).0;
            let finished = run.asked is FinishFile && event is Done && run.asked->FinishFile_complete is Some
                && name == run.files[run.next].file_name;
            &&& finished ==> after.known.contains_key(name) && after.known[name]
                == (FileProgress {
                status: PhaseStatus::Completed,
                records_extracted: run.asked->FinishFile_complete->0,
            })
            &&& !finished ==> (after.known.contains_key(name) <==> run.known.contains_key(name))
                && (run.known.contains_key(name) ==> after.known[name] == run.known[name])
        }),
{
}

/// A type is counted when its file is skipped, with the records that the state marker keeps,
/// or finished, with the records that were parsed; the next file is turned to once its outcome
/// is counted.
pub proof fn a_type_is_counted_with_its_file(
    run: RunModel,
    state: StateModel,
    event: Event,
    data_type: DataType,
)
    requires
        under_way(run),
        answers(event, run.asked),
    ensures
        ({
            let after = run_step(run, state, event).0;
            let file = run.files[run.next];
            let skipped = run.asked == Action::PollShutdown(Poll::File) && event
                == Event::Shutdown(false) && knows_next(run) && file.data_type == data_type;
            let finished = run.asked is FinishFile && event is Done && file.data_type == data_type;
            &&& skipped ==> after.counts.contains_key(data_type) && after.counts[data_type]
                == run.known[file.file_name].records_extracted
            &&& finished ==> after.counts.contains_key(data_type) && after.counts[data_type]
                == run.records
            &&& !skipped && !finished ==> (after.counts.contains_key(data_type)
                <==> run.counts.contains_key(data_type)) && (run.counts.contains_key(data_type)
                ==> after.counts[data_type] == run.counts[data_type])
            &&& after.next == if run.asked is RecordOutcome {
                run.next + 1
            } else {
                run.next
            }
            &&& event is Piped && event->parsed is Some ==> after.records == event->parsed->0
            &&& event is Piped && event->parsed is None ==> after.records == 0
            &&& !(event is Piped) ==> after.records == run.records
        }),
{
}

/// Whether an answer behind the state marker makes a run fail: a stop asked for before a file,
/// a file that did not go through, or a word that could not be sent.
pub open spec fn spoils(run: RunModel, event: Event) -> bool {
    ||| run.asked == Action::PollShutdown(Poll::File) && event == Event::Shutdown(true)
    ||| event is Piped && !(event->parsed is Some && event->batched && event->published)
    ||| event == Event::Sent(false)
}

/// A run succeeds until something spoils it, and never again after that.
pub proof fn a_run_succeeds_until_it_is_spoiled(run: RunModel, state: StateModel, event: Event)
    requires
        under_way(run),
        answers(event, run.asked),
    ensures
        run_step(run, state, event).0.success <==> run.success && !spoils(run, event),
{
}

/// The shared state is emptied and marked as running when a run begins; it is marked completed
/// or failed when the run finishes, by what it finishes with. No other answer changes the
/// status, and none changes the count of errors or a time behind the beginning.
pub proof fn the_status_follows_the_run(
    run: RunModel,
    state: StateModel,
    event: Event,
    data_type: DataType,
)
    requires
        under_way(run),
        answers(event, run.asked),
    ensures
        ({
            let after = run_step(run, state, event);
            let begins = run.asked == Action::PollShutdown(Poll::Start) && event
                == Event::Shutdown(false);
            let ends = after.0.asked is Finish && !(run.asked is PollShutdown);
            &&& begins ==> after.1.status == ExtractionStatus::Running && after.1.error_count == 0
                && count_of(after.1.progress, data_type) == 0
                && !after.1.last_times.contains_key(data_type) && !after.1.active.contains_key(
                data_type,
            ) && after.1.completed == Set::<Seq<char>>::empty()
            &&& ends ==> after.1.status == if after.0.asked == Action::Finish(true) {
                ExtractionStatus::Completed
            } else {
                ExtractionStatus::Failed
            }
            &&& !begins && !ends ==> after.1.status == state.status
            &&& !begins ==> after.1.error_count == state.error_count && after.1.last_times
                == state.last_times
            &&& !begins && !(run.asked is ResumeProcessing && event is Done) ==> after.1.progress
                == state.progress
        }),
{
}

/// A file is shown as active from its start to its finish, and only the file at hand is
/// touched; it is listed as completed where it was finished as complete.
pub proof fn active_files_follow_the_run(
    run: RunModel,
    state: StateModel,
    event: Event,
    data_type: DataType,
    name: Seq<char>,
)
    requires
        under_way(run),
        answers(event, run.asked),
        run.asked != Action::PollShutdown(Poll::Start),
    ensures
        ({
            let after = run_step(run, state, event).1;
            let file = run.files[run.next];
            let starts = run.asked is StartFile && event is Done && file.data_type == data_type;
            let ends = run.asked is FinishFile && event is Done && file.data_type == data_type;
            let listed = run.asked is FinishFile && event is Done && run.asked->FinishFile_complete is Some
                && file.file_name == name;
            &&& starts ==> after.active.contains_key(data_type) && after.active[data_type]
                == file.file_name
            &&& ends ==> !after.active.contains_key(data_type)
            &&& !starts && !ends ==> (after.active.contains_key(data_type)
                <==> state.active.contains_key(data_type)) && (state.active.contains_key(data_type)
                ==> after.active[data_type] == state.active[data_type])
            &&& after.completed.contains(name) <==> state.completed.contains(name) || listed
        }),
{
}

/// A run that resumes counts the records of each file that the state marker knows as
/// completed, on top of what was counted, to the type of the file.
pub proof fn resuming_counts_each_completed_file(
    run: RunModel,
    state: StateModel,
    files: Seq<FileModel>,
    file: FileModel,
    data_type: DataType,
)
    requires
        run.asked is ResumeProcessing,
        run.files == files.push(file),
        rehydration_fits(state.progress, run.files, run.known),
    ensures
        ({
            let fewer = RunModel { files, ..run };
            let all = count_of(run_step(run, state, Event::Done).1.progress, data_type);
            let some = count_of(run_step(fewer, state, Event::Done).1.progress, data_type);
            let known = run.known.contains_key(file.file_name) && run.known[file.file_name].status
                == PhaseStatus::Completed;
            &&& known && file.data_type == data_type ==> all == some
                + run.known[file.file_name].records_extracted
            &&& !(known && file.data_type == data_type) ==> all == some
            &&& files.len() == 0 ==> some == count_of(state.progress, data_type)
        }),
{
    assert(run.files.drop_last() =~= files);
    assert(run.files.last() == file);
}

// ── Whole runs ──────────────────────────────────────────────────────

/// The run before the last of its answers.
pub open spec fn run_before(run: RunModel, state: StateModel, events: Seq<Event>) -> RunModel {
    run_after(run, state, events.drop_last()).0
}

proof fn lemma_end_of_run(
    force: bool,
    began_at: Timestamp,
    state: StateModel,
    events: Seq<Event>,
)
    requires
        well_answered(new_run(force, began_at), state, events),
        events.len() > 0,
    ensures
        ({
            let run = run_after(new_run(force, began_at), state, events).0;
            let before = run_before(new_run(force, began_at), state, events);
            &&& run.asked is FinalizeMarker ==> before.asked is Close && run.success
                == before.success && run.asked == (Action::FinalizeMarker {
                complete: before.success,
            })
            &&& run.asked is Close && run.success ==> before.asked is SendExtractionComplete
                && events.last() == Event::Sent(true)
            &&& run.asked is Finish ==> before.asked is FinalizeMarker || stage(before) >= 11
            &&& run.asked is Finish && before.asked is FinalizeMarker ==> run.asked
                == Action::Finish(run.success) && run.success == before.success
        }),
{
    let before = run_after(new_run(force, began_at), state, events.drop_last());
    every_run_is_under_way(force, began_at, state, events.drop_last());
    what_leads_to_the_end(before.0, before.1, events.last());
    a_run_succeeds_until_it_is_spoiled(before.0, before.1, events.last());
}

proof fn lemma_verdict(force: bool, began_at: Timestamp, state: StateModel, events: Seq<Event>)
    requires
        well_answered(new_run(force, began_at), state, events),
        run_after(new_run(force, began_at), state, events).0.asked is FinalizeMarker,
    ensures
        run_after(new_run(force, began_at), state, events).0.success <==> nothing_failed(
            new_run(force, began_at),
            state,
            events,
        ),
        nothing_failed(new_run(force, began_at), state, events) ==> completions(
            new_run(force, began_at),
            state,
            events,
        ) == 1,
{
    lemma_harmed_after(new_run(force, began_at), state, events);
    if nothing_failed(new_run(force, began_at), state, events) {
        lemma_unharmed_after(force, began_at, state, events);
    }
}

/// A state marker is finalized as complete only where nothing failed and nobody asked to stop,
/// right behind the close of the connection, which came right behind the word that the
/// extraction is complete, which was sent. It is finalized as not complete only where
/// something failed.
pub proof fn the_marker_is_complete_only_behind_the_word(
    force: bool,
    began_at: Timestamp,
    state: StateModel,
    events: Seq<Event>,
    complete: bool,
)
    requires
        well_answered(new_run(force, began_at), state, events),
        run_after(new_run(force, began_at), state, events).0.asked == (Action::FinalizeMarker {
            complete,
        }),
    ensures
        ({
            let start = new_run(force, began_at);
            &&& events.len() >= 2
            &&& run_before(start, state, events).asked is Close
            &&& complete <==> nothing_failed(start, state, events)
            &&& complete ==> run_before(
                start,
                state,
                events.drop_last(),
            ).asked is SendExtractionComplete && events[events.len() - 2] == Event::Sent(true)
            &&& complete ==> completions(start, state, events) == 1
        }),
{
    let start = new_run(force, began_at);
    let rest = events.drop_last();
    assert(start.asked == Action::PollShutdown(Poll::Start));
    lemma_end_of_run(force, began_at, state, events);
    lemma_end_of_run(force, began_at, state, rest);
    assert(rest.last() == events[events.len() - 2]);
    lemma_verdict(force, began_at, state, events);
}

proof fn lemma_files_are_never_left(
    force: bool,
    began_at: Timestamp,
    state: StateModel,
    events: Seq<Event>,
)
    requires
        well_answered(new_run(force, began_at), state, events),
        reached_files(new_run(force, began_at), state, events),
    ensures
        stage(run_after(new_run(force, began_at), state, events).0) <= 2,
    decreases events.len(),
{
    let start = new_run(force, began_at);
    if events.len() > 0 && reached_files(start, state, events.drop_last()) {
        let before = run_after(start, state, events.drop_last());
        lemma_files_are_never_left(force, began_at, state, events.drop_last());
        every_run_is_under_way(force, began_at, state, events.drop_last());
        every_answer_brings_the_end_closer(before.0, before.1, events.last());
    }
}

/// A run that came to its files and finishes closes the connection and then finalizes the
/// state marker right before: as complete, and with success, where nothing failed, and as not
/// complete, and without success, where something did.
pub proof fn a_run_closes_and_finalizes_before_it_finishes(
    force: bool,
    began_at: Timestamp,
    state: StateModel,
    events: Seq<Event>,
)
    requires
        well_answered(new_run(force, began_at), state, events),
        reached_files(new_run(force, began_at), state, events),
        run_after(new_run(force, began_at), state, events).0.asked is Finish,
    ensures
        ({
            let start = new_run(force, began_at);
            let complete = nothing_failed(start, state, events);
            &&& events.len() >= 2
            &&& run_before(start, state, events).asked == (Action::FinalizeMarker { complete })
            &&& run_before(start, state, events.drop_last()).asked is Close
            &&& run_after(start, state, events).0.asked == Action::Finish(complete)
        }),
{
    let start = new_run(force, began_at);
    let rest = events.drop_last();
    assert(start.asked == Action::PollShutdown(Poll::Start));
    lemma_end_of_run(force, began_at, state, events);
    assert(reached_files(start, state, rest));
    lemma_files_are_never_left(force, began_at, state, rest);
    assert(rest.len() > 0);
    lemma_end_of_run(force, began_at, state, rest);
    lemma_harmed_after(start, state, events);
    if nothing_failed(start, state, events) {
        lemma_unharmed_after(force, began_at, state, events);
    }
}

/// A run in which something failed goes on from its last file, or from the request to stop, to
/// the close, and from there to a state marker that is not complete.
pub proof fn a_failed_run_closes_without_completing(run: RunModel, state: StateModel, event: Event)
    requires
        under_way(run),
        answers(event, run.asked),
    ensures
        run.asked is RecordOutcome && run.next + 1 == run.files.len() && !run.success ==> run_step(
            run,
            state,
            event,
        ).0.asked is Close,
        run.asked == Action::PollShutdown(Poll::File) && event == Event::Shutdown(true)
            ==> run_step(run, state, event).0.asked is Close && !run_step(
            run,
            state,
            event,
        ).0.success,
        run.asked is Close && !run.success ==> run_step(run, state, event).0.asked == (
        Action::FinalizeMarker { complete: false }),
{
}

/// A run can resume exactly where each file that is known as completed can be counted on top
/// of those before it.
pub proof fn resuming_fits_file_by_file(
    progress: ExtractionProgress,
    files: Seq<FileModel>,
    file: FileModel,
    known: Map<Seq<char>, FileProgress>,
)
    ensures
        rehydration_fits(progress, Seq::empty(), known),
        rehydration_fits(progress, files.push(file), known) <==> rehydration_fits(
            progress,
            files,
            known,
        ) && (known.contains_key(file.file_name) && known[file.file_name].status
            == PhaseStatus::Completed ==> count_of(
            rehydrated(progress, files, known),
            file.data_type,
        ) + known[file.file_name].records_extracted <= u64::MAX),
{
    assert(files.push(file).drop_last() =~= files);
    assert(files.push(file).last() == file);
}

} // verus!
