//! What holds of every extraction run.

use crate::musicbrainz::run::{
    a_run_keeps_its_file_at_hand, answers, at_hand, is_completed, new_run, rehydrated,
    rehydration_fits, run_step, Action, Event, FileModel, FileProgress, Poll, RunModel, Timestamp,
};
use crate::runtime::{fresh_state, ExtractionStatus, StateModel};
use crate::telemetry::FileOutcome;
use crate::types::{count_of, musicbrainz_types, no_progress, DataType, ExtractionProgress};
use vstd::prelude::*;

verus! {

/// The run and the shared state after a list of answers.
pub open spec fn run_after(run: RunModel, state: StateModel, events: Seq<Event>) -> (
    RunModel,
    StateModel,
)
    decreases events.len(),
{
    if events.len() == 0 {
        (run, state)
    } else {
        let before = run_after(run, state, events.drop_last());
        run_step(before.0, before.1, events.last())
    }
}

/// Whether each event is an answer to what the run asked for.
pub open spec fn well_answered(run: RunModel, state: StateModel, events: Seq<Event>) -> bool
    decreases events.len(),
{
    if events.len() == 0 {
        true
    } else {
        &&& well_answered(run, state, events.drop_last())
        &&& answers(events.last(), run_after(run, state, events.drop_last()).0.asked)
    }
}

/// Whether an event reports a failure or a request to stop.
pub open spec fn reports_failure(event: Event) -> bool {
    match event {
        Event::Failed => true,
        Event::Shutdown(requested) => requested,
        Event::Piped { parsed, batched, published } => !(parsed is Some && batched && published),
        Event::Sent(sent) => !sent,
        _ => false,
    }
}

// ── Beginning and end ───────────────────────────────────────────────

/// A run that is asked to stop before it begins ends at once and leaves the shared state as
/// it was.
pub proof fn a_run_never_begins_under_shutdown(
    force: bool,
    began_at: Timestamp,
    state: StateModel,
)
    ensures
        run_step(new_run(force, began_at), state, Event::Shutdown(true)).0.asked == Action::Finish(
            false,
        ),
        run_step(new_run(force, began_at), state, Event::Shutdown(true)).1 == state,
{
}

/// A run that begins forgets the one before.
pub proof fn a_run_begins_afresh(force: bool, began_at: Timestamp, state: StateModel)
    ensures
        run_step(new_run(force, began_at), state, Event::Shutdown(false)).0.asked
            == Action::Download,
        run_step(new_run(force, began_at), state, Event::Shutdown(false)).1 == fresh_state(
            ExtractionStatus::Running,
        ),
{
}

/// A run that ends in success leaves a completed extraction behind, and one that ends with
/// errors behind its files a failed one.
pub proof fn the_status_shows_how_a_run_ended(run: RunModel, state: StateModel, event: Event)
    requires
        answers(event, run.asked),
    ensures
        run_step(run, state, event).0.asked == Action::Finish(true) ==> run_step(
            run,
            state,
            event,
        ).1.status == ExtractionStatus::Completed,
        run.asked is FinalizeMarker && run_step(run, state, event).0.asked == Action::Finish(false)
            ==> run_step(run, state, event).1.status == ExtractionStatus::Failed,
{
}

/// The measure of what is left of a run: first its stage, then the files that it still has.
pub open spec fn stage(run: RunModel) -> nat {
    match run.asked {
        Action::PollShutdown(Poll::Start) => 15,
        Action::Download => 14,
        Action::PollShutdown(Poll::Downloaded) => 13,
        Action::Discover => 12,
        Action::OpenMarker { .. } => 11,
        Action::ResetMarker => 10,
        Action::Connect => 9,
        Action::SetupExchange(DataType::Artists) => 8,
        Action::SetupExchange(DataType::Labels) => 7,
        Action::SetupExchange(DataType::ReleaseGroups) => 6,
        Action::SetupExchange(_) => 5,
        Action::StartProcessing { .. } | Action::ResumeProcessing { .. } => 4,
        Action::BuildArtistMap { .. } => 3,
        Action::PollShutdown(Poll::File) | Action::StartFile { .. } | Action::RunPipeline { .. }
        | Action::SendFileComplete { .. } | Action::FinishFile { .. }
        | Action::RecordOutcome(_) => 2,
        Action::SendExtractionComplete { .. } | Action::Close | Action::FinalizeMarker { .. } => 1,
        Action::Finish(_) | Action::Fail => 0,
    }
}

/// What is left within a stage.
pub open spec fn left(run: RunModel) -> int {
    match run.asked {
        Action::PollShutdown(Poll::File) => 6 * (run.files.len() - run.next),
        Action::StartFile { .. } => 6 * (run.files.len() - run.next) - 1,
        Action::RunPipeline { .. } => 6 * (run.files.len() - run.next) - 2,
        Action::SendFileComplete { .. } => 6 * (run.files.len() - run.next) - 3,
        Action::FinishFile { .. } => 6 * (run.files.len() - run.next) - 4,
        Action::RecordOutcome(_) => 6 * (run.files.len() - run.next) - 5,
        Action::SendExtractionComplete { .. } => 2,
        Action::Close => 1,
        _ => 0,
    }
}

/// Every answer brings a run closer to its end, so every run ends.
#[verifier::rlimit(60)]
pub proof fn every_answer_brings_the_end_closer(run: RunModel, state: StateModel, event: Event)
    requires
        at_hand(run),
        answers(event, run.asked),
    ensures
        ({
            let after = run_step(run, state, event).0;
            &&& left(after) >= 0
            &&& stage(after) < stage(run) || (stage(after) == stage(run) && left(after) < left(
                run,
            ))
        }),
{
    a_run_keeps_its_file_at_hand(run, state, event);
}

/// Once the broker is connected, an exchange is declared for each MusicBrainz type, in the
/// order of [`musicbrainz_types`], and for no other.
pub proof fn exchanges_are_declared_for_every_type(run: RunModel, state: StateModel, i: int)
    requires
        0 <= i < musicbrainz_types().len(),
        i == 0 ==> run.asked == Action::Connect,
        i > 0 ==> run.asked == Action::SetupExchange(musicbrainz_types()[i - 1]),
    ensures
        run_step(run, state, Event::Done).0.asked == Action::SetupExchange(
            musicbrainz_types()[i],
        ),
        run_step(run, state, Event::Done).1 == state,
{
}

/// Before the first file is looked at, all the exchanges have been declared: the files begin
/// only behind the last of them.
pub proof fn files_begin_behind_the_last_exchange(run: RunModel, state: StateModel, event: Event)
    requires
        answers(event, run.asked),
        stage(run) >= 5,
        stage(run_step(run, state, event).0) < 5,
        !(run_step(run, state, event).0.asked is Finish),
        !(run_step(run, state, event).0.asked is Fail),
    ensures
        run.asked matches Action::SetupExchange(last) && last != DataType::Artists && last
            != DataType::Labels && last != DataType::ReleaseGroups,
        event is Done,
{
}

// ── Completion ──────────────────────────────────────────────────────

/// A file is marked complete only right after the word that it is complete was sent, and with
/// the count that was sent.
pub proof fn a_file_is_marked_only_after_its_word_was_sent(
    run: RunModel,
    state: StateModel,
    event: Event,
    file: usize,
    records: u64,
)
    requires
        answers(event, run.asked),
        run_step(run, state, event).0.asked == (Action::FinishFile {
            file,
            complete: Some(records),
        }),
    ensures
        run.asked == (Action::SendFileComplete { file, records }),
        event == Event::Sent(true),
{
}

/// The word that a file is complete is sent only where it was parsed, batched and published
/// without an error, and it carries the count of the parser.
pub proof fn the_word_is_sent_only_for_a_file_without_errors(
    run: RunModel,
    state: StateModel,
    event: Event,
    file: usize,
    records: u64,
)
    requires
        at_hand(run),
        answers(event, run.asked),
        run_step(run, state, event).0.asked == (Action::SendFileComplete { file, records }),
    ensures
        run.asked is RunPipeline,
        file == run.next,
        event == (Event::Piped { parsed: Some(records), batched: true, published: true }),
{
}

/// A file that the state marker knows as completed is skipped: it is neither parsed nor sent
/// again, and its persisted count is reported.
pub proof fn a_completed_file_is_skipped(run: RunModel, state: StateModel)
    requires
        run.asked == Action::PollShutdown(Poll::File),
        0 <= run.next < run.files.len(),
        is_completed(run.known, run.files[run.next].file_name),
    ensures
        ({
            let after = run_step(run, state, Event::Shutdown(false)).0;
            let file = run.files[run.next];
            &&& after.asked == Action::RecordOutcome(FileOutcome::Skipped)
            &&& after.counts.contains_key(file.data_type)
            &&& after.counts[file.data_type] == run.known[file.file_name].records_extracted
            &&& after.known == run.known
        }),
{
}

/// What holds of a run between its first step and the word that the extraction is complete.
pub open spec fn sound(run: RunModel, failed: bool) -> bool {
    let behind_files = run.asked is SendExtractionComplete || run.asked is Close
        || run.asked is FinalizeMarker || run.asked is Finish || run.asked is Fail;
    &&& at_hand(run)
    &&& run.success && !behind_files ==> !failed
    &&& run.asked is SendExtractionComplete ==> !failed && run.success && run.next
        == run.files.len()
    &&& !behind_files || run.asked is SendExtractionComplete ==> {
        &&& forall|j: int|
            0 <= j < run.next ==> run.counts.contains_key((#[trigger] run.files[j]).data_type)
        &&& run.success ==> forall|j: int|
            0 <= j < run.next ==> is_completed(run.known, (#[trigger] run.files[j]).file_name)
    }
    &&& run.asked is RecordOutcome ==> {
        &&& run.counts.contains_key(run.files[run.next].data_type)
        &&& run.success ==> is_completed(run.known, run.files[run.next].file_name)
    }
    &&& run.asked is FinishFile && run.success ==> run.asked->FinishFile_complete is Some
}

proof fn lemma_sound_step(run: RunModel, state: StateModel, event: Event, failed: bool)
    requires
        sound(run, failed),
        answers(event, run.asked),
    ensures
        sound(run_step(run, state, event).0, failed || reports_failure(event)),
{
    a_run_keeps_its_file_at_hand(run, state, event);
    let after = run_step(run, state, event).0;
    match (run.asked, event) {
        (Action::FinishFile { file, complete }, Event::Done) => {
            assert forall|j: int| 0 <= j < after.next implies after.counts.contains_key(
                (#[trigger] after.files[j]).data_type,
            ) by {
                assert(run.counts.contains_key(run.files[j].data_type));
            }
            if run.success {
                assert forall|j: int| 0 <= j < after.next implies is_completed(
                    after.known,
                    (#[trigger] after.files[j]).file_name,
                ) by {
                    assert(is_completed(run.known, run.files[j].file_name));
                }
            }
        },
        (Action::PollShutdown(Poll::File), Event::Shutdown(false)) => {
            assert forall|j: int| 0 <= j < after.next implies after.counts.contains_key(
                (#[trigger] after.files[j]).data_type,
            ) by {
                assert(run.counts.contains_key(run.files[j].data_type));
            }
        },
        (Action::RecordOutcome(_), Event::Done) => {
            assert forall|j: int| 0 <= j < after.next implies after.counts.contains_key(
                (#[trigger] after.files[j]).data_type,
            ) by {
                if j < run.next {
                    assert(run.counts.contains_key(run.files[j].data_type));
                }
            }
            if run.success {
                assert forall|j: int| 0 <= j < after.next implies is_completed(
                    after.known,
                    (#[trigger] after.files[j]).file_name,
                ) by {
                    if j < run.next {
                        assert(is_completed(run.known, run.files[j].file_name));
                    }
                }
            }
        },
        _ => {},
    }
}

/// Whether one of the events reports a failure or a request to stop.
pub open spec fn any_failure(events: Seq<Event>) -> bool {
    exists|i: int| 0 <= i < events.len() && reports_failure(#[trigger] events[i])
}

proof fn lemma_sound_after(
    force: bool,
    began_at: Timestamp,
    state: StateModel,
    events: Seq<Event>,
)
    requires
        well_answered(new_run(force, began_at), state, events),
    ensures
        sound(run_after(new_run(force, began_at), state, events).0, any_failure(events)),
    decreases events.len(),
{
    let start = new_run(force, began_at);
    if events.len() > 0 {
        let rest = events.drop_last();
        let before = run_after(start, state, rest);
        lemma_sound_after(force, began_at, state, rest);
        lemma_sound_step(before.0, before.1, events.last(), any_failure(rest));
        if any_failure(rest) {
            let i = choose|i: int| 0 <= i < rest.len() && reports_failure(#[trigger] rest[i]);
            assert(events[i] == rest[i]);
        }
        if reports_failure(events.last()) {
            assert(reports_failure(events[events.len() - 1]));
        }
        if any_failure(events) {
            let i = choose|i: int| 0 <= i < events.len() && reports_failure(#[trigger] events[i]);
            if i < rest.len() {
                assert(rest[i] == events[i]);
            }
        }
    }
}

/// The word that the extraction is complete goes out only where nothing failed and nobody
/// asked to stop, and where every file of the dump was completed, now or in an earlier
/// session. It carries a count for the type of each of them.
pub proof fn extraction_is_complete_only_after_full_success(
    force: bool,
    began_at: Timestamp,
    state: StateModel,
    events: Seq<Event>,
)
    requires
        well_answered(new_run(force, began_at), state, events),
        run_after(new_run(force, began_at), state, events).0.asked is SendExtractionComplete,
    ensures
        !any_failure(events),
        ({
            let run = run_after(new_run(force, began_at), state, events).0;
            &&& forall|j: int|
                0 <= j < run.files.len() ==> is_completed(
                    run.known,
                    (#[trigger] run.files[j]).file_name,
                ) && run.counts.contains_key(run.files[j].data_type)
        }),
{
    lemma_sound_after(force, began_at, state, events);
}

/// Whether nothing went wrong in a run: no answer reports a failure or a request to stop, but
/// for the closing of the connection, whose failure is passed over.
pub open spec fn nothing_failed(run: RunModel, state: StateModel, events: Seq<Event>) -> bool {
    forall|i: int|
        0 <= i < events.len() && reports_failure(#[trigger] events[i]) ==> run_after(
            run,
            state,
            events.take(i),
        ).0.asked is Close
}

/// Whether a run came to the files of its dump.
pub open spec fn reached_files(run: RunModel, state: StateModel, events: Seq<Event>) -> bool
    decreases events.len(),
{
    ||| run_after(run, state, events).0.asked == Action::PollShutdown(Poll::File)
    ||| events.len() > 0 && reached_files(run, state, events.drop_last())
}

/// How often a run asked for the word that the extraction is complete.
pub open spec fn completions(run: RunModel, state: StateModel, events: Seq<Event>) -> nat
    decreases events.len(),
{
    let now: nat = if run_after(run, state, events).0.asked is SendExtractionComplete {
        1
    } else {
        0
    };
    if events.len() == 0 {
        now
    } else {
        completions(run, state, events.drop_last()) + now
    }
}

/// What holds of a run in which nothing went wrong.
pub open spec fn unharmed(run: RunModel, reached: bool, completions: nat) -> bool {
    &&& at_hand(run)
    &&& run.success
    &&& !(run.asked is Fail)
    &&& run.asked is Finish ==> run.asked == Action::Finish(true) && completions == if reached {
        1nat
    } else {
        0nat
    }
    &&& run.asked is FinalizeMarker ==> run.asked == (Action::FinalizeMarker { complete: true })
    &&& run.asked is FinishFile ==> run.asked->FinishFile_complete is Some
    &&& stage(run) == 1 ==> reached && completions == 1
    &&& stage(run) == 2 ==> reached && completions == 0
    &&& stage(run) >= 3 ==> !reached && completions == 0
    &&& 3 <= stage(run) <= 11 ==> run.files.len() > 0
}

#[verifier::rlimit(60)]
proof fn lemma_unharmed_step(
    run: RunModel,
    state: StateModel,
    event: Event,
    reached: bool,
    completions: nat,
)
    requires
        unharmed(run, reached, completions),
        answers(event, run.asked),
        reports_failure(event) ==> run.asked is Close,
    ensures
        ({
            let after = run_step(run, state, event).0;
            unharmed(
                after,
                reached || after.asked == Action::PollShutdown(Poll::File),
                completions + if after.asked is SendExtractionComplete {
                    1nat
                } else {
                    0nat
                },
            )
        }),
{
    a_run_keeps_its_file_at_hand(run, state, event);
}

pub proof fn lemma_unharmed_after(
    force: bool,
    began_at: Timestamp,
    state: StateModel,
    events: Seq<Event>,
)
    requires
        well_answered(new_run(force, began_at), state, events),
        nothing_failed(new_run(force, began_at), state, events),
    ensures
        unharmed(
            run_after(new_run(force, began_at), state, events).0,
            reached_files(new_run(force, began_at), state, events),
            completions(new_run(force, began_at), state, events),
        ),
    decreases events.len(),
{
    let start = new_run(force, began_at);
    if events.len() > 0 {
        let rest = events.drop_last();
        let before = run_after(start, state, rest);
        assert forall|i: int| 0 <= i < rest.len() && reports_failure(#[trigger] rest[i]) implies
            run_after(start, state, rest.take(i)).0.asked is Close by {
            assert(reports_failure(events[i]));
            assert(rest.take(i) =~= events.take(i));
        }
        lemma_unharmed_after(force, began_at, state, rest);
        assert(events.take(events.len() - 1) =~= rest);
        assert(reports_failure(events.last()) ==> reports_failure(events[events.len() - 1]));
        lemma_unharmed_step(
            before.0,
            before.1,
            events.last(),
            reached_files(start, state, rest),
            completions(start, state, rest),
        );
    }
}

/// A run in which nothing went wrong and which came to its files asks exactly once for the
/// word that the extraction is complete, and ends in success with the state marker complete.
/// One that did not come to its files, because there are none or because they were processed
/// before, ends in success without the word.
pub proof fn a_run_without_failure_completes_the_extraction(
    force: bool,
    began_at: Timestamp,
    state: StateModel,
    events: Seq<Event>,
)
    requires
        well_answered(new_run(force, began_at), state, events),
        nothing_failed(new_run(force, began_at), state, events),
    ensures
        ({
            let start = new_run(force, began_at);
            let asked = run_after(start, state, events).0.asked;
            let reached = reached_files(start, state, events);
            &&& asked != Action::Fail
            &&& asked is Finish ==> asked == Action::Finish(true)
            &&& asked is FinalizeMarker ==> asked == (Action::FinalizeMarker { complete: true })
            &&& asked is Finish && reached ==> completions(start, state, events) == 1
            &&& asked is Finish && !reached ==> completions(start, state, events) == 0
            &&& asked is Finish ==> run_after(start, state, events).1.status
                == ExtractionStatus::Completed
        }),
{
    lemma_unharmed_after(force, began_at, state, events);
    let start = new_run(force, began_at);
    if events.len() > 0 {
        let before = run_after(start, state, events.drop_last());
        the_status_shows_how_a_run_ended(before.0, before.1, events.last());
    }
}

/// What holds of a run once something went wrong: it has failed, or it goes on to do so.
pub open spec fn harmed(run: RunModel) -> bool {
    ||| run.asked is Fail
    ||| run.asked == Action::Finish(false)
    ||| !run.success && 1 <= stage(run) <= 2 && !(run.asked is SendExtractionComplete)
}

proof fn lemma_harmed_step(run: RunModel, state: StateModel, event: Event)
    requires
        answers(event, run.asked),
        harmed(run) || (reports_failure(event) && !(run.asked is Close)),
    ensures
        harmed(run_step(run, state, event).0),
{
}

pub proof fn lemma_harmed_after(run: RunModel, state: StateModel, events: Seq<Event>)
    requires
        well_answered(run, state, events),
    ensures
        nothing_failed(run, state, events) || harmed(run_after(run, state, events).0),
    decreases events.len(),
{
    if events.len() > 0 {
        let rest = events.drop_last();
        let before = run_after(run, state, rest);
        lemma_harmed_after(run, state, rest);
        if harmed(before.0) || (reports_failure(events.last()) && !(before.0.asked is Close)) {
            lemma_harmed_step(before.0, before.1, events.last());
        } else {
            assert forall|i: int|
                0 <= i < events.len() && reports_failure(#[trigger] events[i]) implies run_after(
                run,
                state,
                events.take(i),
            ).0.asked is Close by {
                if i < rest.len() {
                    assert(reports_failure(rest[i]));
                    assert(rest.take(i) =~= events.take(i));
                } else {
                    assert(events.take(i) =~= rest);
                }
            }
        }
    }
}

/// A run that ends in success is one in which nothing went wrong. It asked exactly once for
/// the word that the extraction is complete where it came to its files, and never where it
/// did not.
pub proof fn a_run_that_succeeded_had_no_failure(
    force: bool,
    began_at: Timestamp,
    state: StateModel,
    events: Seq<Event>,
)
    requires
        well_answered(new_run(force, began_at), state, events),
        run_after(new_run(force, began_at), state, events).0.asked == Action::Finish(true),
    ensures
        nothing_failed(new_run(force, began_at), state, events),
        completions(new_run(force, began_at), state, events) == if reached_files(
            new_run(force, began_at),
            state,
            events,
        ) {
            1nat
        } else {
            0nat
        },
{
    lemma_harmed_after(new_run(force, began_at), state, events);
    a_run_without_failure_completes_the_extraction(force, began_at, state, events);
}

/// The word that the extraction is complete carries the time at which the processing began,
/// which a restart does not change: the time that the state marker keeps, where it keeps one.
pub proof fn the_start_time_survives_a_restart(
    run: RunModel,
    state: StateModel,
    event: Event,
    started_at: Timestamp,
)
    requires
        answers(event, run.asked),
        run_step(run, state, event).0.asked == (Action::SendExtractionComplete { started_at }),
    ensures
        started_at == match run_step(run, state, event).0.marker_started {
            Some(at) => at,
            None => run.began_at,
        },
        run_step(run, state, event).0.marker_started == if run.asked is StartProcessing {
            event->Started_0
        } else {
            run.marker_started
        },
{
}

// ── Counting ────────────────────────────────────────────────────────

/// Whether no two files are of one type.
pub open spec fn distinct_types(files: Seq<FileModel>) -> bool {
    forall|i: int, j: int|
        0 <= i < j < files.len() ==> (#[trigger] files[i]).data_type != (
        #[trigger] files[j]).data_type
}

proof fn lemma_other_counts(
    progress: ExtractionProgress,
    files: Seq<FileModel>,
    known: Map<Seq<char>, FileProgress>,
    data_type: DataType,
)
    requires
        forall|i: int| 0 <= i < files.len() ==> (#[trigger] files[i]).data_type != data_type,
    ensures
        count_of(rehydrated(progress, files, known), data_type) == count_of(progress, data_type),
    decreases files.len(),
{
    if files.len() > 0 {
        let rest = files.drop_last();
        assert forall|i: int| 0 <= i < rest.len() implies (#[trigger] rest[i]).data_type
            != data_type by {
            assert(rest[i] == files[i]);
        }
        lemma_other_counts(progress, rest, known, data_type);
        assert(files[files.len() - 1].data_type != data_type);
    }
}

/// A run that resumes with no records counted, over files of distinct types, counts exactly
/// the records that the state marker keeps for the files that it knows as completed, and the
/// counts fit.
pub proof fn a_resumed_run_counts_what_was_done_before(
    files: Seq<FileModel>,
    known: Map<Seq<char>, FileProgress>,
)
    requires
        distinct_types(files),
    ensures
        rehydration_fits(no_progress(), files, known),
        forall|i: int|
            0 <= i < files.len() ==> count_of(
                rehydrated(no_progress(), files, known),
                (#[trigger] files[i]).data_type,
            ) == if is_completed(known, files[i].file_name) {
                known[files[i].file_name].records_extracted
            } else {
                0
            },
    decreases files.len(),
{
    if files.len() > 0 {
        let rest = files.drop_last();
        let last = files.last();
        let before = rehydrated(no_progress(), rest, known);
        assert forall|i: int, j: int| 0 <= i < j < rest.len() implies (
        #[trigger] rest[i]).data_type != (#[trigger] rest[j]).data_type by {
            assert(rest[i] == files[i] && rest[j] == files[j]);
        }
        a_resumed_run_counts_what_was_done_before(rest, known);
        assert forall|i: int| 0 <= i < rest.len() implies (#[trigger] rest[i]).data_type
            != last.data_type by {
            assert(rest[i] == files[i] && last == files[files.len() - 1]);
        }
        lemma_other_counts(no_progress(), rest, known, last.data_type);
        assert forall|i: int| 0 <= i < files.len() implies count_of(
            rehydrated(no_progress(), files, known),
            (#[trigger] files[i]).data_type,
        ) == if is_completed(known, files[i].file_name) {
            known[files[i].file_name].records_extracted
        } else {
            0
        } by {
            if i < rest.len() {
                assert(rest[i] == files[i]);
                assert(files[i].data_type != last.data_type);
            }
        }
    }
}

/// A file shows as being extracted while it goes through the pipeline and no longer once it
/// is finished, and it is listed as completed exactly where it was marked complete.
pub proof fn the_shared_state_follows_the_file(run: RunModel, state: StateModel, event: Event)
    requires
        at_hand(run),
        answers(event, run.asked),
        event is Done,
    ensures
        ({
            let after = run_step(run, state, event).1;
            let file = run.files[run.next];
            &&& run.asked is StartFile ==> after.active.contains_key(file.data_type)
                && after.active[file.data_type] == file.file_name
            &&& run.asked is FinishFile ==> !after.active.contains_key(file.data_type) && (
            after.completed.contains(file.file_name) <==> state.completed.contains(file.file_name)
                || run.asked->FinishFile_complete is Some)
        }),
{
}

} // verus!
