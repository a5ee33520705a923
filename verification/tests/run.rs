//! Extraction runs and their schedule, driven by answers.

use extractor::musicbrainz::run::{
    process_musicbrainz_data, Action, DumpFile, Event, FileProgress, MarkerFacts, PhaseStatus,
    Poll, ProcessingDecision, Run, Timestamp,
};
use extractor::musicbrainz::schedule::{
    check_interval, run_musicbrainz_loop, Schedule, ScheduleAction, ScheduleEvent,
};
use extractor::runtime::{ExtractionStatus, ExtractorState};
use extractor::table::Table;
use extractor::telemetry::FileOutcome;
use extractor::types::DataType;

const BEGAN: Timestamp = Timestamp { seconds: 100, nanos: 5 };
const EARLIER: Timestamp = Timestamp { seconds: 7, nanos: 0 };

fn file(data_type: DataType, name: &str) -> DumpFile {
    DumpFile { data_type, file_name: name.to_string() }
}

fn two_files() -> Vec<DumpFile> {
    vec![file(DataType::Labels, "label.jsonl.xz"), file(DataType::Artists, "artist.jsonl.xz")]
}

fn facts(phase: PhaseStatus, started_at: Option<Timestamp>, completed: &[(&str, u64)]) -> MarkerFacts {
    let mut files = Table::new();
    for (name, records) in completed {
        files.insert(
            name.to_string(),
            FileProgress { status: PhaseStatus::Completed, records_extracted: *records },
        );
    }
    MarkerFacts { phase, started_at, files }
}

/// What the outside world answers.
struct World {
    shutdown_at: Option<usize>,
    polls: usize,
    fail: Option<Action>,
    files: Vec<DumpFile>,
    decision: ProcessingDecision,
    phase: PhaseStatus,
    started_at: Option<Timestamp>,
    completed: Vec<(&'static str, u64)>,
    parsed: Option<u64>,
    published: bool,
    word_sent: bool,
    extraction_sent: bool,
}

impl World {
    fn new() -> World {
        World {
            shutdown_at: None,
            polls: 0,
            fail: None,
            files: two_files(),
            decision: ProcessingDecision::Continue,
            phase: PhaseStatus::Pending,
            started_at: None,
            completed: Vec::new(),
            parsed: Some(10),
            published: true,
            word_sent: true,
            extraction_sent: true,
        }
    }

    fn answer(&mut self, action: Action) -> Event {
        if self.fail == Some(action) {
            return Event::Failed;
        }
        match action {
            Action::PollShutdown(_) => {
                self.polls += 1;
                Event::Shutdown(self.shutdown_at.is_some_and(|at| self.polls >= at))
            }
            Action::Download => Event::Downloaded("20260325-001001".to_string()),
            Action::Discover => Event::Discovered(std::mem::take(&mut self.files)),
            Action::OpenMarker { .. } => Event::Opened {
                decision: self.decision,
                facts: facts(self.phase, self.started_at, &self.completed),
            },
            Action::ResetMarker => Event::Reset(facts(PhaseStatus::Pending, None, &[])),
            Action::StartProcessing { .. } => Event::Started(Some(BEGAN)),
            Action::RunPipeline { .. } => {
                Event::Piped { parsed: self.parsed, batched: true, published: self.published }
            }
            Action::SendFileComplete { .. } => Event::Sent(self.word_sent),
            Action::SendExtractionComplete { .. } => Event::Sent(self.extraction_sent),
            _ => Event::Done,
        }
    }

    /// Drive a run to its end: the actions, the last run, and the last state.
    fn drive(&mut self, force: bool) -> (Vec<Action>, Run, ExtractorState) {
        let mut run = Run::new(force, BEGAN);
        let mut state = ExtractorState::default();
        let mut actions = vec![run.asked];
        while !matches!(run.asked, Action::Finish(_) | Action::Fail) {
            let event = self.answer(run.asked);
            assert!(run.accepts(&event), "{event:?} is no answer to {:?}", run.asked);
            actions.push(process_musicbrainz_data(&mut run, &mut state, event));
            assert!(actions.len() < 100);
        }
        (actions, run, state)
    }
}

#[test]
fn a_run_over_two_files_asks_for_everything_in_order() {
    let (actions, run, state) = World::new().drive(false);
    assert_eq!(
        actions,
        vec![
            Action::PollShutdown(Poll::Start),
            Action::Download,
            Action::PollShutdown(Poll::Downloaded),
            Action::Discover,
            Action::OpenMarker { force: false },
            Action::Connect,
            Action::SetupExchange(DataType::Artists),
            Action::SetupExchange(DataType::Labels),
            Action::SetupExchange(DataType::ReleaseGroups),
            Action::SetupExchange(DataType::Releases),
            Action::StartProcessing { files: 2 },
            Action::BuildArtistMap { file: 1 },
            Action::PollShutdown(Poll::File),
            Action::StartFile { file: 0 },
            Action::RunPipeline { file: 0, with_artist_map: false },
            Action::SendFileComplete { file: 0, records: 10 },
            Action::FinishFile { file: 0, complete: Some(10) },
            Action::RecordOutcome(FileOutcome::Completed),
            Action::PollShutdown(Poll::File),
            Action::StartFile { file: 1 },
            Action::RunPipeline { file: 1, with_artist_map: true },
            Action::SendFileComplete { file: 1, records: 10 },
            Action::FinishFile { file: 1, complete: Some(10) },
            Action::RecordOutcome(FileOutcome::Completed),
            Action::SendExtractionComplete { started_at: BEGAN },
            Action::Close,
            Action::FinalizeMarker { complete: true },
            Action::Finish(true),
        ]
    );
    assert_eq!(run.version, "20260325-001001");
    assert_eq!(run.record_counts.get(&DataType::Labels), Some(&10));
    assert_eq!(run.record_counts.get(&DataType::Artists), Some(&10));
    assert_eq!(state.extraction_status, ExtractionStatus::Completed);
    assert!(state.completed_files.contains("label.jsonl.xz"));
    assert!(state.completed_files.contains("artist.jsonl.xz"));
    assert!(state.active_connections.is_empty());
}

#[test]
fn a_shutdown_before_the_start_leaves_the_state_alone() {
    let mut world = World::new();
    world.shutdown_at = Some(1);
    let (actions, _, state) = world.drive(false);
    assert_eq!(actions, vec![Action::PollShutdown(Poll::Start), Action::Finish(false)]);
    assert_eq!(state.extraction_status, ExtractionStatus::Idle);
}

#[test]
fn a_shutdown_after_the_download_stops_before_the_processing() {
    let mut world = World::new();
    world.shutdown_at = Some(2);
    let (actions, _, state) = world.drive(false);
    assert_eq!(actions.last(), Some(&Action::Finish(false)));
    assert!(!actions.contains(&Action::Discover));
    assert_eq!(state.extraction_status, ExtractionStatus::Running);
}

#[test]
fn a_shutdown_between_files_is_no_completion() {
    let mut world = World::new();
    world.shutdown_at = Some(4);
    let (actions, _, state) = world.drive(false);
    assert_eq!(
        actions[actions.len() - 4..],
        [
            Action::PollShutdown(Poll::File),
            Action::Close,
            Action::FinalizeMarker { complete: false },
            Action::Finish(false)
        ]
    );
    assert!(actions.contains(&Action::FinishFile { file: 0, complete: Some(10) }));
    assert!(!actions.contains(&Action::StartFile { file: 1 }));
    assert_eq!(state.extraction_status, ExtractionStatus::Failed);
}

#[test]
fn a_dump_without_files_is_complete() {
    let mut world = World::new();
    world.files = Vec::new();
    let (actions, _, state) = world.drive(false);
    assert_eq!(actions.last(), Some(&Action::Finish(true)));
    assert!(!actions.contains(&Action::Connect));
    assert_eq!(state.extraction_status, ExtractionStatus::Completed);
}

#[test]
fn a_processed_version_is_skipped() {
    let mut world = World::new();
    world.decision = ProcessingDecision::Skip;
    let (actions, _, state) = world.drive(false);
    assert_eq!(actions[actions.len() - 2..], [Action::OpenMarker { force: false }, Action::Finish(true)]);
    assert_eq!(state.extraction_status, ExtractionStatus::Completed);
}

#[test]
fn reprocessing_begins_with_a_new_marker() {
    let mut world = World::new();
    world.decision = ProcessingDecision::Reprocess;
    world.completed = vec![("label.jsonl.xz", 3)];
    let (actions, _, _) = world.drive(true);
    assert!(actions.contains(&Action::OpenMarker { force: true }));
    assert!(actions.contains(&Action::ResetMarker));
    assert!(!actions.contains(&Action::RecordOutcome(FileOutcome::Skipped)));
    assert_eq!(actions.last(), Some(&Action::Finish(true)));
}

#[test]
fn a_resumed_run_skips_and_still_reports_what_was_done() {
    let mut world = World::new();
    world.phase = PhaseStatus::InProgress;
    world.started_at = Some(EARLIER);
    world.completed = vec![("label.jsonl.xz", 42), ("other", 9)];
    let (actions, run, state) = world.drive(false);
    assert!(actions.contains(&Action::ResumeProcessing { files: 2 }));
    assert!(actions.contains(&Action::RecordOutcome(FileOutcome::Skipped)));
    assert!(!actions.contains(&Action::StartFile { file: 0 }));
    assert!(actions.contains(&Action::SendExtractionComplete { started_at: EARLIER }));
    assert_eq!(run.record_counts.get(&DataType::Labels), Some(&42));
    assert_eq!(run.record_counts.get(&DataType::Artists), Some(&10));
    assert_eq!(state.extraction_progress.labels, 42);
    assert_eq!(state.extraction_progress.total(), 42);
}

#[test]
fn a_failed_stage_leaves_the_file_pending() {
    for (parsed, published) in [(None, true), (Some(10), false)] {
        let mut world = World::new();
        world.parsed = parsed;
        world.published = published;
        let (actions, run, state) = world.drive(false);
        assert!(actions.contains(&Action::FinishFile { file: 0, complete: None }));
        assert!(!actions.iter().any(|action| matches!(action, Action::SendFileComplete { .. })));
        assert!(!actions
            .iter()
            .any(|action| matches!(action, Action::SendExtractionComplete { .. })));
        assert_eq!(actions.last(), Some(&Action::Finish(false)));
        assert_eq!(run.record_counts.get(&DataType::Labels), Some(&parsed.unwrap_or(0)));
        assert!(state.completed_files.is_empty());
        assert_eq!(state.extraction_status, ExtractionStatus::Failed);
    }
}

#[test]
fn a_file_whose_word_was_not_sent_is_not_marked() {
    let mut world = World::new();
    world.word_sent = false;
    let (actions, _, state) = world.drive(false);
    assert!(actions.contains(&Action::SendFileComplete { file: 0, records: 10 }));
    assert!(actions.contains(&Action::FinishFile { file: 0, complete: None }));
    assert!(actions.contains(&Action::RecordOutcome(FileOutcome::Failed)));
    assert_eq!(actions.last(), Some(&Action::Finish(false)));
    assert!(state.completed_files.is_empty());
}

#[test]
fn an_unsent_completion_fails_the_run() {
    let mut world = World::new();
    world.extraction_sent = false;
    let (actions, _, state) = world.drive(false);
    assert!(actions.contains(&Action::FinalizeMarker { complete: false }));
    assert_eq!(actions.last(), Some(&Action::Finish(false)));
    assert_eq!(state.extraction_status, ExtractionStatus::Failed);
}

#[test]
fn an_error_ends_the_run_at_once() {
    for action in [
        Action::Download,
        Action::Discover,
        Action::OpenMarker { force: false },
        Action::Connect,
        Action::SetupExchange(DataType::ReleaseGroups),
        Action::StartProcessing { files: 2 },
        Action::BuildArtistMap { file: 1 },
        Action::StartFile { file: 1 },
        Action::FinishFile { file: 0, complete: Some(10) },
        Action::FinalizeMarker { complete: true },
    ] {
        let mut world = World::new();
        world.fail = Some(action);
        let (actions, _, state) = world.drive(false);
        assert_eq!(actions[actions.len() - 2..], [action, Action::Fail]);
        assert_eq!(state.extraction_status, ExtractionStatus::Running);
    }
    let mut world = World::new();
    world.fail = Some(Action::Close);
    let (actions, _, _) = world.drive(false);
    assert_eq!(actions.last(), Some(&Action::Finish(true)), "a failed close is ignored");
}

#[test]
fn a_run_takes_only_answers_to_its_question() {
    let run = Run::new(false, BEGAN);
    assert!(run.accepts(&Event::Shutdown(true)));
    assert!(!run.accepts(&Event::Done));
    assert!(!run.accepts(&Event::Failed));
}

#[test]
fn a_schedule_runs_waits_and_stops() {
    let mut state = ExtractorState::default();
    let mut schedule = Schedule::new(15, true);
    assert_eq!(schedule.asked, ScheduleAction::Run { force_reprocess: true, initial: true });
    state.extraction_status = ExtractionStatus::Completed;
    let mut next = |event| {
        assert!(schedule.accepts(&event));
        let action = run_musicbrainz_loop(&mut schedule, &mut state, event);
        (action, state.extraction_status)
    };
    let waiting = ScheduleAction::Wait { days: 15 };
    assert_eq!(
        next(ScheduleEvent::RunEnded(Some(true))).0,
        ScheduleAction::PollAfterInitial { success: true }
    );
    assert_eq!(next(ScheduleEvent::Shutdown(false)).0, ScheduleAction::Poll);
    assert_eq!(next(ScheduleEvent::Shutdown(false)), (waiting, ExtractionStatus::Waiting));
    assert_eq!(
        next(ScheduleEvent::Elapsed).0,
        ScheduleAction::Run { force_reprocess: false, initial: false }
    );
    assert_eq!(
        next(ScheduleEvent::RunEnded(None)),
        (ScheduleAction::Poll, ExtractionStatus::Failed)
    );
    assert_eq!(next(ScheduleEvent::Shutdown(false)), (waiting, ExtractionStatus::Failed));
    assert_eq!(
        next(ScheduleEvent::Triggered(true)).0,
        ScheduleAction::Run { force_reprocess: true, initial: false }
    );
    assert_eq!(next(ScheduleEvent::RunEnded(Some(false))).0, ScheduleAction::Poll);
    assert_eq!(next(ScheduleEvent::Shutdown(true)).0, ScheduleAction::Stop);
}

#[test]
fn only_the_first_run_fails_the_process() {
    let mut state = ExtractorState::default();
    let mut failed = Schedule::new(1, false);
    run_musicbrainz_loop(&mut failed, &mut state, ScheduleEvent::RunEnded(Some(false)));
    assert_eq!(
        run_musicbrainz_loop(&mut failed, &mut state, ScheduleEvent::Shutdown(false)),
        ScheduleAction::FailInitial
    );
    let mut stopped = Schedule::new(1, false);
    run_musicbrainz_loop(&mut stopped, &mut state, ScheduleEvent::RunEnded(Some(false)));
    assert_eq!(
        run_musicbrainz_loop(&mut stopped, &mut state, ScheduleEvent::Shutdown(true)),
        ScheduleAction::Poll
    );
    let mut broken = Schedule::new(1, false);
    assert_eq!(
        run_musicbrainz_loop(&mut broken, &mut state, ScheduleEvent::RunEnded(None)),
        ScheduleAction::FailWithRun
    );
    assert!(!broken.accepts(&ScheduleEvent::Elapsed));
    let mut notified = Schedule { asked: ScheduleAction::Wait { days: 1 }, interval_days: 1 };
    assert_eq!(
        run_musicbrainz_loop(&mut notified, &mut state, ScheduleEvent::ShutdownNotified),
        ScheduleAction::Stop
    );
}

#[test]
fn the_completion_names_what_the_run_counted() {
    let mut world = World::new();
    world.phase = PhaseStatus::InProgress;
    world.started_at = Some(EARLIER);
    world.completed = vec![("label.jsonl.xz", 30)];
    let (_, run, _) = world.drive(false);
    let completion = run.completion();
    assert_eq!(completion.version, "20260325-001001");
    assert_eq!(completion.started_at, EARLIER);
    assert_eq!(
        completion.record_counts,
        vec![("artists".to_string(), 10), ("labels".to_string(), 30)]
    );
    assert_eq!(completion.types, DataType::musicbrainz());
}

#[test]
fn a_run_resumes_only_counts_that_fit() {
    let mut run = Run::new(false, BEGAN);
    run.files = vec![file(DataType::Labels, "a"), file(DataType::Labels, "b")];
    run.marker = facts(PhaseStatus::InProgress, None, &[("a", u64::MAX - 1), ("b", 1)]);
    let state = ExtractorState::default();
    assert!(run.can_resume(&state));
    run.marker = facts(PhaseStatus::InProgress, None, &[("a", u64::MAX - 1), ("b", 2)]);
    assert!(!run.can_resume(&state));
    run.files = vec![file(DataType::Labels, "a"), file(DataType::Artists, "b")];
    assert!(run.can_resume(&state));
}

#[test]
fn a_run_without_failure_sends_its_word_once() {
    let word = |action: &&Action| matches!(action, Action::SendExtractionComplete { .. });
    for completed in [vec![], vec![("label.jsonl.xz", 30)]] {
        let mut world = World::new();
        world.completed = completed;
        let (actions, run, state) = world.drive(false);
        assert_eq!(actions.iter().filter(word).count(), 1);
        assert!(actions.contains(&Action::FinalizeMarker { complete: true }));
        assert_eq!(run.asked, Action::Finish(true));
        assert_eq!(state.extraction_status, ExtractionStatus::Completed);
    }

    let mut unclosed = World::new();
    unclosed.fail = Some(Action::Close);
    let (actions, run, _) = unclosed.drive(false);
    assert_eq!(actions.iter().filter(word).count(), 1);
    assert_eq!(run.asked, Action::Finish(true));

    let mut skipped = World::new();
    skipped.decision = ProcessingDecision::Skip;
    let (actions, run, _) = skipped.drive(false);
    assert_eq!(actions.iter().filter(word).count(), 0);
    assert_eq!(run.asked, Action::Finish(true));
}

#[test]
fn a_check_interval_is_counted_in_seconds() {
    assert_eq!(check_interval(15), Some(1_296_000));
    assert_eq!(check_interval(u64::MAX / 86400), Some(u64::MAX / 86400 * 86400));
    assert_eq!(check_interval(u64::MAX / 86400 + 1), None);
}

#[test]
fn a_run_with_a_failure_never_ends_in_success() {
    let failures: [fn(&mut World); 5] = [
        |world| world.fail = Some(Action::Connect),
        |world| world.parsed = None,
        |world| world.published = false,
        |world| world.word_sent = false,
        |world| world.extraction_sent = false,
    ];
    for failure in failures {
        let mut world = World::new();
        failure(&mut world);
        let (_, run, _) = world.drive(false);
        assert_ne!(run.asked, Action::Finish(true));
    }
    for shutdown_at in 1..=4 {
        let mut world = World::new();
        world.shutdown_at = Some(shutdown_at);
        let (_, run, _) = world.drive(false);
        assert_eq!(run.asked, Action::Finish(false));
    }
}
