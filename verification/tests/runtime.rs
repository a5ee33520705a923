//! The shared state, batching, publishing and reporting.

use extractor::runtime::{
    batcher_next, initial_run_outcome, message_batcher, message_publisher, progress_reporter, report_interval,
    reset_status_after_failed_check, wait_for_trigger, Batcher, BatcherConfig, BatcherEvent,
    BatcherNext, BatcherStep, Checkpoint, ExtractionStatus, ExtractorState, PublisherStep,
};
use extractor::types::{DataType, ExtractionProgress, PerType};

const SECOND: u64 = 1_000_000_000;

fn config(batch_size: usize, data_type: DataType, state_save_interval: usize) -> BatcherConfig {
    BatcherConfig {
        batch_size,
        data_type,
        file_name: "test_file.xml.gz".to_string(),
        state_save_interval,
    }
}

/// Run messages `0..count` through a batcher that then closes; the sizes of the batches and
/// the checkpoints, the last one included.
fn run_batcher(
    config: &BatcherConfig,
    state: &mut ExtractorState,
    count: u32,
) -> (Vec<Vec<u32>>, Vec<Checkpoint>) {
    let mut batcher: Batcher<u32> = Batcher::new(0);
    let mut batches = Vec::new();
    let mut checkpoints = Vec::new();
    for message in 0..count {
        let step = message_batcher(&mut batcher, config, state, BatcherEvent::Message { message, now: 1 });
        checkpoints.extend(step.save);
        if let Some(batch) = step.send {
            batches.push(batch);
            message_batcher(&mut batcher, config, state, BatcherEvent::Sent { now: 1 });
        }
    }
    let step = message_batcher(&mut batcher, config, state, BatcherEvent::Closed);
    if let Some(batch) = step.send {
        batches.push(batch);
        message_batcher(&mut batcher, config, state, BatcherEvent::Sent { now: 1 });
    }
    checkpoints.push(batcher.final_checkpoint());
    (batches, checkpoints)
}

#[test]
fn test_extractor_state_default() {
    let state = ExtractorState::default();

    assert_eq!(state.extraction_progress.total(), 0);
    assert!(state.last_extraction_time.is_empty());
    assert!(state.completed_files.is_empty());
    assert!(state.active_connections.is_empty());
    assert_eq!(state.error_count, 0);
}

#[test]
fn test_extractor_state_default_extraction_status() {
    let state = ExtractorState::default();
    assert_eq!(state.extraction_status, ExtractionStatus::Idle);
    assert_eq!(ExtractionStatus::default(), ExtractionStatus::Idle);
}

#[test]
fn test_extraction_status_as_str_all_variants() {
    assert_eq!(ExtractionStatus::Idle.as_str(), "idle");
    assert_eq!(ExtractionStatus::Running.as_str(), "running");
    assert_eq!(ExtractionStatus::Completed.as_str(), "completed");
    assert_eq!(ExtractionStatus::Waiting.as_str(), "waiting");
    assert_eq!(ExtractionStatus::Failed.as_str(), "failed");
}

#[test]
fn test_message_batcher_basic() {
    let mut state = ExtractorState::default();
    let (batches, _) = run_batcher(&config(3, DataType::Artists, 5000), &mut state, 5);
    assert_eq!(batches.iter().map(Vec::len).sum::<usize>(), 5);
    assert_eq!(state.extraction_progress.artists, 5);
}

#[test]
fn test_message_batcher_respects_batch_size() {
    let mut state = ExtractorState::default();
    let (batches, _) = run_batcher(&config(10, DataType::Labels, 5000), &mut state, 10);
    assert_eq!(batches[0].len(), 10);
}

#[test]
fn test_message_batcher_timeout_flush() {
    let mut state = ExtractorState::default();
    let config = config(100, DataType::Masters, 5000);
    let mut batcher: Batcher<u32> = Batcher::new(0);
    for message in 0..3 {
        message_batcher(&mut batcher, &config, &mut state, BatcherEvent::Message { message, now: 1 });
    }
    let early =
        message_batcher(&mut batcher, &config, &mut state, BatcherEvent::Idle { now: SECOND });
    assert!(early.send.is_none(), "a second has not passed");
    let late = message_batcher(
        &mut batcher,
        &config,
        &mut state,
        BatcherEvent::Idle { now: SECOND + 200_000_000 },
    );
    assert_eq!(late.send.expect("the batch is a second old").len(), 3);
    let again: BatcherStep<u32> = message_batcher(
        &mut batcher,
        &config,
        &mut state,
        BatcherEvent::Idle { now: 9 * SECOND },
    );
    assert!(again.send.is_none(), "nothing is pending");
}

#[test]
fn test_message_batcher_triggers_state_save() {
    let mut state = ExtractorState::default();
    let (batches, checkpoints) = run_batcher(&config(100, DataType::Artists, 5), &mut state, 5);
    assert_eq!(batches.iter().map(Vec::len).sum::<usize>(), 5);
    assert_eq!(
        checkpoints,
        vec![Checkpoint { records: 5, batches: 0 }, Checkpoint { records: 5, batches: 1 }]
    );
}

#[test]
fn test_message_batcher_multiple_batch_sizes() {
    let mut state = ExtractorState::default();
    let (batches, _) = run_batcher(&config(10, DataType::Releases, 50000), &mut state, 25);
    let sizes: Vec<usize> = batches.iter().map(Vec::len).collect();
    assert_eq!(sizes, vec![10, 10, 5]);
}

#[test]
fn test_message_batcher_empty_input() {
    let mut state = ExtractorState::default();
    let (batches, checkpoints) = run_batcher(&config(10, DataType::Artists, 5000), &mut state, 0);
    assert!(batches.is_empty());
    assert_eq!(checkpoints, vec![Checkpoint { records: 0, batches: 0 }]);
}

#[test]
fn batches_hold_every_record_in_order_and_checkpoints_come_at_every_interval() {
    for (batch_size, interval, count) in [(1, 1, 7), (4, 3, 22), (0, 2, 5), (7, 0, 20)] {
        let mut state = ExtractorState::default();
        let (batches, checkpoints) =
            run_batcher(&config(batch_size, DataType::ReleaseGroups, interval), &mut state, count);
        let flat: Vec<u32> = batches.iter().flatten().copied().collect();
        assert_eq!(flat, (0..count).collect::<Vec<u32>>());
        assert!(batches.iter().all(|batch| !batch.is_empty() && batch.len() <= batch_size.max(1)));
        let records: Vec<u64> =
            checkpoints[..checkpoints.len() - 1].iter().map(|checkpoint| checkpoint.records).collect();
        let expected: Vec<u64> =
            (1..=count as u64).filter(|n| interval != 0 && n % interval as u64 == 0).collect();
        assert_eq!(records, expected);
        assert_eq!(
            checkpoints.last(),
            Some(&Checkpoint { records: count as u64, batches: batches.len() as u64 })
        );
        assert_eq!(state.extraction_progress.release_groups, count as u64);
        assert_eq!(state.extraction_progress.total(), count as u64);
    }
}

#[test]
fn progress_is_saved_before_the_batch_that_completes_the_interval() {
    let mut state = ExtractorState::default();
    let config = config(2, DataType::Artists, 2);
    let mut batcher: Batcher<u32> = Batcher::new(0);
    message_batcher(&mut batcher, &config, &mut state, BatcherEvent::Message { message: 1, now: 1 });
    let step = message_batcher(
        &mut batcher,
        &config,
        &mut state,
        BatcherEvent::Message { message: 2, now: 3 },
    );
    assert_eq!(step.save, Some(Checkpoint { records: 2, batches: 0 }));
    assert_eq!(step.send, Some(vec![1, 2]));
    assert_eq!(state.last_extraction_time.get(&DataType::Artists), Some(&3));
}

#[test]
fn a_failed_publish_is_counted_and_stops() {
    let mut state = ExtractorState::default();
    assert_eq!(message_publisher(&mut state, true), PublisherStep::NextBatch);
    assert_eq!(state.error_count, 0);
    assert_eq!(message_publisher(&mut state, false), PublisherStep::Stop);
    assert_eq!(state.error_count, 1);
}

#[test]
fn test_extractor_state_tracks_progress() {
    let mut state = ExtractorState::default();
    state.extraction_progress.increment(DataType::Artists);
    state.extraction_progress.increment(DataType::Artists);
    state.extraction_progress.increment(DataType::Labels);
    assert_eq!(state.extraction_progress.artists, 2);
    assert_eq!(state.extraction_progress.labels, 1);
    assert_eq!(state.extraction_progress.total(), 3);
}

#[test]
fn test_extractor_state_tracks_completed_files() {
    let mut state = ExtractorState::default();
    state.completed_files.insert("file1.xml".to_string());
    state.completed_files.insert("file2.xml".to_string());
    state.completed_files.insert("file2.xml".to_string());
    assert_eq!(state.completed_files.len(), 2);
    assert!(state.completed_files.contains("file1.xml"));
    assert!(!state.completed_files.contains("file3.xml"));
}

#[test]
fn test_extractor_state_tracks_active_connections() {
    let mut state = ExtractorState::default();
    state.active_connections.insert(DataType::Artists, "processing_artists.xml".to_string());
    state.active_connections.insert(DataType::Labels, "processing_labels.xml".to_string());
    assert_eq!(state.active_connections.len(), 2);
    assert_eq!(
        state.active_connections.get(&DataType::Artists),
        Some(&"processing_artists.xml".to_string())
    );
    state.active_connections.remove(&DataType::Artists);
    assert!(!state.active_connections.contains_key(&DataType::Artists));
    assert_eq!(state.active_connections.len(), 1);
}

#[test]
fn test_extractor_state_last_extraction_time() {
    let mut state = ExtractorState::default();
    state.last_extraction_time.insert(DataType::Artists, 1);
    state.last_extraction_time.insert(DataType::Labels, 2);
    assert!(state.last_extraction_time.contains_key(&DataType::Artists));
    assert!(state.last_extraction_time.contains_key(&DataType::Labels));
}

#[test]
fn test_reset_status_after_failed_check_clears_running() {
    let mut state = ExtractorState::default();
    state.extraction_status = ExtractionStatus::Running;
    reset_status_after_failed_check(&mut state);
    assert_eq!(state.extraction_status, ExtractionStatus::Failed);
}

#[test]
fn test_reset_status_after_failed_check_is_not_running() {
    for start in [ExtractionStatus::Running, ExtractionStatus::Completed, ExtractionStatus::Waiting] {
        let mut state = ExtractorState::default();
        state.extraction_status = start;
        reset_status_after_failed_check(&mut state);
        assert_eq!(state.extraction_status, ExtractionStatus::Failed);
        assert_ne!(state.extraction_status, ExtractionStatus::Running);
    }
}

#[test]
fn test_lost_trigger_leaves_a_terminal_failed_status_not_waiting() {
    let mut state = ExtractorState::default();
    state.extraction_status = ExtractionStatus::Waiting;
    reset_status_after_failed_check(&mut state);
    assert_eq!(state.extraction_status, ExtractionStatus::Failed);
    assert_ne!(state.extraction_status, ExtractionStatus::Waiting);
}

#[test]
fn test_initial_run_outcome_shutdown_is_not_failure() {
    assert!(initial_run_outcome(false, false, "MusicBrainz").is_err());
    assert!(initial_run_outcome(false, true, "MusicBrainz").is_ok());
    assert!(initial_run_outcome(true, true, "MusicBrainz").is_ok());
    assert!(initial_run_outcome(true, false, "MusicBrainz").is_ok());
}

#[test]
fn test_initial_run_outcome_discogs_shutdown_is_ok() {
    assert!(initial_run_outcome(false, true, "Discogs").is_ok());
    assert!(initial_run_outcome(false, false, "Discogs").is_err());
}

#[test]
fn a_failed_initial_run_names_its_source() {
    assert_eq!(
        initial_run_outcome(false, false, "MusicBrainz"),
        Err("Initial MusicBrainz processing failed".to_string())
    );
}

#[test]
fn test_wait_for_trigger_returns_when_triggered() {
    let mut trigger: Option<bool> = None;
    assert_eq!(wait_for_trigger(&mut trigger), None);
    trigger = Some(true);
    assert_eq!(wait_for_trigger(&mut trigger), Some(true));
}

#[test]
fn test_wait_for_trigger_clears_flag() {
    let mut trigger = Some(false);
    assert_eq!(wait_for_trigger(&mut trigger), Some(false));
    assert_eq!(trigger, None);
}

#[test]
fn test_wait_for_trigger_only_fires_once() {
    let mut trigger = Some(false);
    assert_eq!(wait_for_trigger(&mut trigger), Some(false));
    assert_eq!(wait_for_trigger(&mut trigger), None);
    trigger = Some(true);
    assert_eq!(wait_for_trigger(&mut trigger), Some(true));
}

#[test]
fn test_extraction_status_set_to_running() {
    let mut state = ExtractorState::default();
    state.extraction_progress.increment(DataType::Artists);
    state.completed_files.insert("a".to_string());
    state.error_count = 3;
    state.start_run();
    assert_eq!(state.extraction_status, ExtractionStatus::Running);
    assert_eq!(state.extraction_progress, ExtractionProgress::default());
    assert!(state.completed_files.is_empty());
    assert_eq!(state.error_count, 0);
}

#[test]
fn test_extraction_status_set_completed_on_success() {
    let mut state = ExtractorState::default();
    state.extraction_status = ExtractionStatus::Running;
    state.end_run(true);
    assert_eq!(state.extraction_status, ExtractionStatus::Completed);
}

#[test]
fn test_extraction_status_set_failed_on_error() {
    let mut state = ExtractorState::default();
    state.extraction_status = ExtractionStatus::Running;
    state.end_run(false);
    assert_eq!(state.extraction_status, ExtractionStatus::Failed);
}

#[test]
fn test_completed_transitions_to_waiting_in_loop() {
    let mut state = ExtractorState::default();
    state.extraction_status = ExtractionStatus::Completed;
    state.begin_waiting();
    assert_eq!(state.extraction_status, ExtractionStatus::Waiting);
    state.extraction_status = ExtractionStatus::Failed;
    state.begin_waiting();
    assert_eq!(state.extraction_status, ExtractionStatus::Failed);
}

#[test]
fn test_progress_reporter_interval_increases_after_three_reports() {
    let intervals: Vec<u64> = (0..6).map(report_interval).collect();
    assert_eq!(intervals, vec![10, 10, 10, 30, 30, 30]);
}

#[test]
fn test_progress_reporter_stall_detection() {
    let mut state = ExtractorState::default();
    state.last_extraction_time.insert(DataType::Artists, 0);
    state.extraction_progress.increment(DataType::Artists);
    assert!(progress_reporter(&state, 11 * SECOND).stalled.is_empty());
    assert!(progress_reporter(&state, 120 * SECOND).stalled.is_empty());
    let report = progress_reporter(&state, 131 * SECOND);
    assert_eq!(report.stalled, vec![DataType::Artists]);
    assert_eq!(report.total, 1);
}

#[test]
fn test_progress_reporter_with_completed_files_and_active_connections() {
    let mut state = ExtractorState::default();
    state.extraction_progress.artists = 1000;
    state.extraction_progress.labels = 500;
    state.extraction_progress.masters = 200;
    state.extraction_progress.releases = 300;
    state.completed_files.insert("discogs_20260101_artists.xml.gz".to_string());
    state.active_connections.insert(DataType::Labels, "discogs_20260101_labels.xml.gz".to_string());
    state.last_extraction_time.insert(DataType::Artists, 0);
    state.last_extraction_time.insert(DataType::Releases, 0);
    state.last_extraction_time.insert(DataType::Labels, 200 * SECOND);
    let report = progress_reporter(&state, 300 * SECOND);
    assert_eq!(report.total, 2000);
    assert_eq!(report.stalled, vec![DataType::Releases], "a completed type never stalls");
}

#[test]
fn the_types_have_their_names() {
    let names: Vec<&str> = DataType::musicbrainz().iter().map(|t| t.as_str()).collect();
    assert_eq!(names, vec!["artists", "labels", "release-groups", "releases"]);
    assert_eq!(DataType::Masters.as_str(), "masters");
    assert_eq!(extractor::catalog_contract::entity_types().to_vec(), names);
    assert_eq!(
        extractor::catalog_contract::consumers(),
        ["brainzgraphinator", "brainztableinator"]
    );
}

#[test]
fn counting_adds_to_one_type_only() {
    let mut progress = ExtractionProgress::default();
    progress.add(DataType::ReleaseGroups, 7);
    progress.add(DataType::ReleaseGroups, 5);
    progress.increment(DataType::Masters);
    assert_eq!(progress.get(DataType::ReleaseGroups), 12);
    assert_eq!(progress.get(DataType::Masters), 1);
    assert_eq!(progress.get(DataType::Artists), 0);
    assert_eq!(progress.total(), 13);
}

#[test]
fn a_value_per_type_is_replaced_and_cleared() {
    let mut map: PerType<u8> = PerType::new();
    assert!(map.is_empty());
    for (n, t) in DataType::musicbrainz().into_iter().enumerate() {
        map.insert(t, n as u8);
    }
    map.insert(DataType::Masters, 9);
    map.insert(DataType::Masters, 8);
    assert_eq!(map.len(), 5);
    assert_eq!(map.get(&DataType::Masters), Some(&8));
    assert_eq!(map.get(&DataType::Releases), Some(&3));
    map.clear();
    assert!(map.is_empty());
    assert_eq!(map.len(), 0);
}

#[test]
fn a_total_that_does_not_fit_is_none() {
    let mut progress = ExtractionProgress::default();
    progress.add(DataType::Artists, u64::MAX);
    assert_eq!(progress.checked_total(), Some(u64::MAX));
    progress.increment(DataType::ReleaseGroups);
    assert_eq!(progress.checked_total(), None);
}

#[test]
fn the_last_checkpoint_counts_the_batches_that_were_sent() {
    for (size, count) in [(10, 35), (10, 30), (1, 4), (7, 3), (5, 0)] {
        let config = config(size, DataType::Artists, 4);
        let (batches, checkpoints) = run_batcher(&config, &mut ExtractorState::default(), count);
        let last = checkpoints.last().expect("the last checkpoint is always saved");
        assert_eq!(last.batches, batches.len() as u64);
        assert_eq!(last.records, u64::from(count));
        for checkpoint in &checkpoints[..checkpoints.len() - 1] {
            assert_eq!(checkpoint.batches, (checkpoint.records - 1) / size as u64);
        }
    }
}

#[test]
fn a_batch_that_cannot_be_handed_on_stops_the_batcher() {
    let config = config(2, DataType::Labels, 100);
    let mut state = ExtractorState::default();
    let mut batcher: Batcher<u32> = Batcher::new(0);
    for message in 0..2 {
        message_batcher(&mut batcher, &config, &mut state, BatcherEvent::Message { message, now: 3 });
    }
    let next = batcher_next(&mut batcher, &config, &mut state, Some(false), false, 9);
    assert_eq!(next, BatcherNext::Stop);
    assert_eq!((batcher.total_records, batcher.total_batches, batcher.last_flush), (2, 0, 0));
    assert_eq!(state.extraction_progress.labels, 2);

    let next = batcher_next(&mut batcher, &config, &mut state, Some(false), true, 9);
    assert_eq!(next, BatcherNext::Stop, "there is no last checkpoint");
}

#[test]
fn a_batcher_goes_on_and_finishes() {
    let config = config(2, DataType::Labels, 100);
    let mut state = ExtractorState::default();
    let mut batcher: Batcher<u32> = Batcher::new(0);
    message_batcher(&mut batcher, &config, &mut state, BatcherEvent::Message { message: 1, now: 3 });
    let next = batcher_next(&mut batcher, &config, &mut state, None, false, 4);
    assert_eq!((next, batcher.total_batches, batcher.last_flush), (BatcherNext::Continue, 0, 0));
    message_batcher(&mut batcher, &config, &mut state, BatcherEvent::Message { message: 2, now: 5 });
    let next = batcher_next(&mut batcher, &config, &mut state, Some(true), false, 6);
    assert_eq!((next, batcher.total_batches, batcher.last_flush), (BatcherNext::Continue, 1, 6));
    message_batcher(&mut batcher, &config, &mut state, BatcherEvent::Closed);
    let next = batcher_next(&mut batcher, &config, &mut state, None, true, 7);
    assert_eq!(next, BatcherNext::Finish(Checkpoint { records: 2, batches: 1 }));
}
