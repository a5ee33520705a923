//! Measurements, spans, headers, and what the kernel says.

use extractor::table::Table;
use extractor::telemetry::bootstrap::{
    confirm_duration_view, endpoint_configured, env_is_set, export_interval, init_metrics,
    init_traces, metrics_disabled, register_runtime_metrics, runtime_metrics_registered,
    service_name_override, trace_endpoint_configured, traces_disabled, unregistered,
    uses_default_sampler, Bootstrap,
};
use extractor::telemetry::headers::{get_header, header_keys, set_header};
use extractor::telemetry::instruments::{
    extraction_instruments, observe_cpu_time, observe_file_descriptors, observe_memory,
    observe_threads, process_instruments, scheduler_instruments, InstrumentKind, InstrumentParts,
};
use extractor::telemetry::process::{
    open_file_descriptor_count, parse_process_cpu_ticks, process_rss_bytes, process_thread_count,
    read_status_field, USER_HZ,
};
use extractor::telemetry::progress::{progress_reader, Fraction, PROGRESS_REPORT_STEP};
use extractor::telemetry::records::{
    download_span, extract_span, no_source, parse_span, publish_span, record_download_bytes,
    record_error, record_file_outcome, record_file_progress, record_messages_sent,
    record_publish_confirm, record_records, record_reconnect, set_source, source, Amount,
    Measurement, SourceLabel, SpanKind,
};
use extractor::telemetry::{
    FileOutcome, Stage, ATTR_ENTITY, ATTR_MESSAGING_DESTINATION_NAME,
    ATTR_MESSAGING_OPERATION_NAME, ATTR_MESSAGING_SYSTEM, ATTR_OUTCOME, ATTR_SOURCE, ATTR_STAGE,
    ATTR_SYSTEM, DEFAULT_SERVICE_NAME, MESSAGING_OPERATION_PUBLISH, MESSAGING_SYSTEM_RABBITMQ,
    METRIC_EXTRACTION_DOWNLOAD_BYTES, METRIC_EXTRACTION_ERRORS, METRIC_EXTRACTION_FILES,
    METRIC_EXTRACTION_FILE_PROGRESS, METRIC_EXTRACTION_PUBLISH_CONFIRM_DURATION,
    METRIC_EXTRACTION_RECORDS, METRIC_MESSAGING_SENT_MESSAGES, METRIC_PIPELINE_RECONNECTS,
    SOURCE_MUSICBRAINZ, TRACEPARENT_HEADER,
};
use lapin::types::{AMQPValue, FieldTable};

fn env(entries: &[(&str, &str)]) -> Table<String> {
    let mut table = Table::new();
    for (key, value) in entries {
        table.insert(key.to_string(), value.to_string());
    }
    table
}

fn musicbrainz() -> SourceLabel {
    let mut label = no_source();
    set_source(&mut label, SOURCE_MUSICBRAINZ);
    label
}

fn pairs(measurement: &Measurement) -> Vec<(&str, &str)> {
    measurement.attributes.iter().map(|a| (a.key, a.value.as_str())).collect()
}

#[test]
fn file_and_stage_labels_match_the_conventions() {
    assert_eq!(FileOutcome::Completed.as_str(), "completed");
    assert_eq!(FileOutcome::Skipped.as_str(), "skipped");
    assert_eq!(FileOutcome::Failed.as_str(), "failed");
    assert_eq!(Stage::Download.as_str(), "download");
    assert_eq!(Stage::Parse.as_str(), "parse");
    assert_eq!(Stage::Publish.as_str(), "publish");
    assert!(matches!(source(&no_source()).as_str(), SOURCE_MUSICBRAINZ | "unknown"));
    assert!(matches!(source(&musicbrainz()).as_str(), SOURCE_MUSICBRAINZ | "unknown"));
}

#[test]
fn the_first_source_counts() {
    let mut label = no_source();
    assert_eq!(source(&label), "unknown");
    set_source(&mut label, "first");
    set_source(&mut label, "second");
    assert_eq!(source(&label), "first");
}

#[test]
fn every_instrument_uses_its_conventional_name_and_attribute_keys() {
    let label = musicbrainz();
    let records = record_records(&label, "artists", 3).expect("there are records");
    assert_eq!(records.metric, METRIC_EXTRACTION_RECORDS);
    assert_eq!(records.amount, Amount::Count(3));
    assert_eq!(pairs(&records), vec![(ATTR_SOURCE, "musicbrainz"), (ATTR_ENTITY, "artists")]);
    for (outcome, text) in [
        (FileOutcome::Completed, "completed"),
        (FileOutcome::Skipped, "skipped"),
        (FileOutcome::Failed, "failed"),
    ] {
        let file = record_file_outcome(&label, outcome);
        assert_eq!(file.metric, METRIC_EXTRACTION_FILES);
        assert_eq!(file.amount, Amount::Count(1));
        assert_eq!(pairs(&file), vec![(ATTR_SOURCE, "musicbrainz"), (ATTR_OUTCOME, text)]);
    }
    let half = Fraction { part: 1, whole: 2 };
    let progress = record_file_progress(&label, "artists", half);
    assert_eq!(progress.metric, METRIC_EXTRACTION_FILE_PROGRESS);
    assert_eq!(progress.amount, Amount::Ratio(half));
    assert_eq!(pairs(&progress), vec![(ATTR_SOURCE, "musicbrainz"), (ATTR_ENTITY, "artists")]);
    let bytes = record_download_bytes(&label, 2048).expect("there are bytes");
    assert_eq!(bytes.metric, METRIC_EXTRACTION_DOWNLOAD_BYTES);
    assert_eq!(bytes.amount, Amount::Count(2048));
    assert_eq!(pairs(&bytes), vec![(ATTR_SOURCE, "musicbrainz")]);
    let confirm = record_publish_confirm(&label, 12_000_000);
    assert_eq!(confirm.metric, METRIC_EXTRACTION_PUBLISH_CONFIRM_DURATION);
    assert_eq!(confirm.amount, Amount::Nanos(12_000_000));
    assert_eq!(pairs(&confirm), vec![(ATTR_SOURCE, "musicbrainz")]);
    for (stage, text) in
        [(Stage::Download, "download"), (Stage::Parse, "parse"), (Stage::Publish, "publish")]
    {
        let error = record_error(&label, stage);
        assert_eq!(error.metric, METRIC_EXTRACTION_ERRORS);
        assert_eq!(error.amount, Amount::Count(1));
        assert_eq!(pairs(&error), vec![(ATTR_SOURCE, "musicbrainz"), (ATTR_STAGE, text)]);
    }
    let sent =
        record_messages_sent("groovemap-musicbrainz-artists", 1).expect("there are messages");
    assert_eq!(sent.metric, METRIC_MESSAGING_SENT_MESSAGES);
    assert_eq!(
        pairs(&sent),
        vec![
            (ATTR_MESSAGING_SYSTEM, MESSAGING_SYSTEM_RABBITMQ),
            (ATTR_MESSAGING_DESTINATION_NAME, "groovemap-musicbrainz-artists")
        ]
    );
    let reconnect = record_reconnect(MESSAGING_SYSTEM_RABBITMQ);
    assert_eq!(reconnect.metric, METRIC_PIPELINE_RECONNECTS);
    assert_eq!(reconnect.amount, Amount::Count(1));
    assert_eq!(pairs(&reconnect), vec![(ATTR_SYSTEM, "rabbitmq")]);
}

#[test]
fn nothing_is_recorded_of_nothing() {
    let label = musicbrainz();
    assert_eq!(record_records(&label, "artists", 0), None);
    assert_eq!(record_download_bytes(&label, 0), None);
    assert_eq!(record_messages_sent("exchange", 0), None);
}

#[test]
fn publish_confirm_histogram_uses_second_scale_buckets() {
    assert_eq!(
        confirm_duration_view(METRIC_EXTRACTION_PUBLISH_CONFIRM_DURATION),
        Some(vec![1, 5, 10, 25, 50, 100, 250, 500, 1000, 2500, 5000, 10000, 30000])
    );
    assert_eq!(confirm_duration_view(METRIC_EXTRACTION_RECORDS), None);
}

#[test]
fn progress_reader_reports_completion() {
    let payload = vec![b'x'; 4096];
    let total = payload.len() as u64;
    let mut reader = progress_reader(std::io::Cursor::new(payload), total, "artists");

    let mut sink = Vec::new();
    let copied = std::io::copy(&mut reader.inner, &mut sink).expect("copy through the reader");
    assert_eq!(reader.advance(copied), None);
    assert_eq!(sink.len(), total as usize);
    let ratio = reader.ratio();
    let ratio = ratio.part as f64 / ratio.whole as f64;
    assert!((ratio - 1.0).abs() < f64::EPSILON, "a fully consumed reader must sit at ratio 1.0");
}

#[test]
fn progress_reader_handles_an_empty_file() {
    let mut reader = progress_reader(std::io::Cursor::new(Vec::<u8>::new()), 0, "artists");
    let mut sink = Vec::new();
    let copied = std::io::copy(&mut reader.inner, &mut sink).expect("copy through the reader");
    assert_eq!(reader.advance(copied), None);
    let ratio = reader.ratio();
    assert_eq!(ratio.part as f64 / ratio.whole as f64, 0.0);
}

#[test]
fn file_progress_is_clamped_to_a_ratio() {
    let recorded = |part: u64, whole: u64| {
        match record_file_progress(&musicbrainz(), "artists", Fraction { part, whole }).amount {
            Amount::Ratio(ratio) => (ratio.part, ratio.whole),
            other => panic!("{other:?} is no ratio"),
        }
    };
    assert_eq!(recorded(42, 10), (10, 10));
    assert_eq!(recorded(0, 0), (0, 1));
    assert_eq!(recorded(7, 0), (0, 1));
    assert_eq!(recorded(3, 4), (3, 4));
    for (part, whole) in [(42, 10), (0, 0), (7, 0), (3, 4), (u64::MAX, 1)] {
        let (part, whole) = recorded(part, whole);
        let value = part as f64 / whole as f64;
        assert!((0.0..=1.0).contains(&value), "file progress must stay within 0..1, saw {value}");
    }
}

#[test]
fn progress_is_reported_once_per_step() {
    let mut reader = progress_reader((), 3 * PROGRESS_REPORT_STEP, "releases");
    assert_eq!(reader.advance(PROGRESS_REPORT_STEP - 1), None);
    assert_eq!(
        reader.advance(1),
        Some(Fraction { part: PROGRESS_REPORT_STEP, whole: 3 * PROGRESS_REPORT_STEP })
    );
    assert_eq!(reader.advance(PROGRESS_REPORT_STEP - 1), None);
    assert_eq!(reader.entity, "releases");
    let more = reader.advance(9 * PROGRESS_REPORT_STEP).expect("a step was taken");
    assert_eq!(more.part, 11 * PROGRESS_REPORT_STEP - 1);
    let kept = more.in_bounds();
    assert_eq!(kept.part, kept.whole, "no file is more than wholly read");
}

#[test]
fn init_metrics_is_a_no_op_without_an_endpoint() {
    assert_eq!(init_metrics(&env(&[])), Bootstrap::NoEndpoint);
}

#[test]
fn init_metrics_treats_an_empty_endpoint_as_unset() {
    let env = env(&[("OTEL_EXPORTER_OTLP_ENDPOINT", "   ")]);
    assert_eq!(init_metrics(&env), Bootstrap::NoEndpoint);
    assert!(!endpoint_configured(&env));
    assert!(!env_is_set(&env, "OTEL_EXPORTER_OTLP_ENDPOINT"));
}

#[test]
fn init_metrics_honours_the_none_exporter() {
    let env = env(&[
        ("OTEL_EXPORTER_OTLP_ENDPOINT", "http://otel-collector:4318"),
        ("OTEL_METRICS_EXPORTER", "none"),
    ]);
    assert_eq!(init_metrics(&env), Bootstrap::Disabled);
    assert_eq!(init_traces(&env), Bootstrap::Export);
}

#[test]
fn either_endpoint_is_enough() {
    let metrics = env(&[("OTEL_EXPORTER_OTLP_METRICS_ENDPOINT", "http://c")]);
    assert_eq!(init_metrics(&metrics), Bootstrap::Export);
    assert_eq!(init_traces(&metrics), Bootstrap::NoEndpoint);
    let traces = env(&[("OTEL_EXPORTER_OTLP_TRACES_ENDPOINT", "http://c")]);
    assert_eq!(init_metrics(&traces), Bootstrap::NoEndpoint);
    assert_eq!(init_traces(&traces), Bootstrap::Export);
    assert!(trace_endpoint_configured(&traces));
    assert!(!metrics_disabled(&env(&[("OTEL_METRICS_EXPORTER", "otlp")])));
    assert!(metrics_disabled(&env(&[("OTEL_METRICS_EXPORTER", " NoNe ")])));
}

#[test]
fn init_traces_is_a_no_op_without_an_endpoint() {
    assert_eq!(init_traces(&env(&[])), Bootstrap::NoEndpoint);
}

#[test]
fn init_traces_treats_an_empty_endpoint_as_unset() {
    assert_eq!(
        init_traces(&env(&[("OTEL_EXPORTER_OTLP_ENDPOINT", "   ")])),
        Bootstrap::NoEndpoint
    );
}

#[test]
fn init_traces_honours_the_none_exporter() {
    let env = env(&[
        ("OTEL_EXPORTER_OTLP_ENDPOINT", "http://otel-collector:4318"),
        ("OTEL_TRACES_EXPORTER", "none"),
    ]);
    assert_eq!(init_traces(&env), Bootstrap::Disabled);
    assert!(traces_disabled(&env));
}

#[test]
fn the_sampler_and_the_interval_come_from_the_environment() {
    assert!(uses_default_sampler(&env(&[("OTEL_TRACES_SAMPLER", " ")])));
    assert!(!uses_default_sampler(&env(&[("OTEL_TRACES_SAMPLER", "always_on")])));
    assert_eq!(export_interval(&env(&[])), 60_000);
    assert_eq!(export_interval(&env(&[("OTEL_METRIC_EXPORT_INTERVAL", "250")])), 250);
    assert_eq!(export_interval(&env(&[("OTEL_METRIC_EXPORT_INTERVAL", " 250")])), 60_000);
}

#[test]
fn resource_prefers_the_environment_service_name() {
    let env = env(&[("OTEL_SERVICE_NAME", "extractor-musicbrainz")]);
    assert_eq!(service_name_override(&env, DEFAULT_SERVICE_NAME), None);
}

#[test]
fn resource_falls_back_to_the_code_default_service_name() {
    assert_eq!(
        service_name_override(&env(&[]), DEFAULT_SERVICE_NAME),
        Some(DEFAULT_SERVICE_NAME.to_string())
    );
}

#[test]
fn runtime_metrics_are_registered_once() {
    let mut guard = unregistered();
    assert!(!runtime_metrics_registered(&guard));
    assert!(register_runtime_metrics(&mut guard));
    assert!(runtime_metrics_registered(&guard));
    assert!(!register_runtime_metrics(&mut guard));
    assert!(runtime_metrics_registered(&guard));
}

#[test]
fn process_cpu_seconds_parses_an_awkward_comm() {
    let fields: Vec<String> = (3..=52).map(|n| n.to_string()).collect();
    let stat = format!("1 (weird ) name) S {}", fields[1..].join(" "));
    let (user, system) = parse_process_cpu_ticks(&stat).expect("stat line should parse");
    assert_eq!(user as f64 / USER_HZ as f64, 14.0 / 100.0);
    assert_eq!(system as f64 / USER_HZ as f64, 15.0 / 100.0);
}

#[test]
fn process_cpu_seconds_rejects_a_truncated_stat_line() {
    assert!(parse_process_cpu_ticks("1 (extractor) S 3 4 5").is_none());
    assert!(parse_process_cpu_ticks("").is_none());
    assert!(parse_process_cpu_ticks("1 (x) S 1 2 3 4 5 6 7 8 9 10 x 12").is_none());
    assert_eq!(parse_process_cpu_ticks(") S 1 2 3 4 5 6 7 8 9 10 11 12"), Some((11, 12)));
}

#[test]
fn status_fields_are_read_by_name() {
    let status = "Name:\textractor\nThreads:\t9\nVmRSS:\t   12345 kB\n";
    assert_eq!(read_status_field(status, "Threads:"), Some(9));
    assert_eq!(read_status_field(status, "VmRSS:"), Some(12345));
    assert_eq!(read_status_field(status, "VmHWM:"), None);
}

#[test]
fn status_fields_become_bytes_and_threads() {
    let status = "VmRSS: many\r\nThreads:\t9\r\nVmRSS:\t2 kB\n";
    assert_eq!(process_rss_bytes(status), Some(2048), "a line without a number is passed over");
    assert_eq!(process_thread_count(status), Some(9));
    assert_eq!(process_rss_bytes("VmRSS: 18446744073709551615 kB"), Some(u64::MAX));
    assert_eq!(process_rss_bytes("VmRSS: 18014398509481983 kB"), Some(u64::MAX - 1023));
    assert_eq!(process_rss_bytes("VmRSS: 18014398509481984 kB"), Some(u64::MAX));
    assert_eq!(process_thread_count("Threads:"), None);
    assert_eq!(open_file_descriptor_count(4), 3);
    assert_eq!(open_file_descriptor_count(0), 0);
}

#[test]
fn one_file_produces_the_conventional_span_tree() {
    let label = musicbrainz();
    let root = extract_span(&label, "artists");
    assert_eq!(root.name, "extract musicbrainz artists");
    assert_eq!(root.kind, SpanKind::Internal);
    let attributes: Vec<(&str, &str)> =
        root.attributes.iter().map(|a| (a.key, a.value.as_str())).collect();
    assert_eq!(attributes, vec![(ATTR_SOURCE, SOURCE_MUSICBRAINZ), (ATTR_ENTITY, "artists")]);
    assert_eq!((download_span().name.as_str(), download_span().kind), ("download", SpanKind::Internal));
    assert_eq!((parse_span().name.as_str(), parse_span().kind), ("parse", SpanKind::Internal));
    let publish = publish_span("groovemap-musicbrainz-artists");
    assert_eq!(publish.name, "publish groovemap-musicbrainz-artists");
    assert_eq!(publish.kind, SpanKind::Producer);
    let attributes: Vec<(&str, &str)> =
        publish.attributes.iter().map(|a| (a.key, a.value.as_str())).collect();
    assert_eq!(
        attributes,
        vec![
            (ATTR_MESSAGING_SYSTEM, MESSAGING_SYSTEM_RABBITMQ),
            (ATTR_MESSAGING_DESTINATION_NAME, "groovemap-musicbrainz-artists"),
            (ATTR_MESSAGING_OPERATION_NAME, MESSAGING_OPERATION_PUBLISH)
        ]
    );
}

#[test]
fn span_names_stay_low_cardinality() {
    let spans =
        [extract_span(&musicbrainz(), "releases"), publish_span("groovemap-musicbrainz-releases")];
    let names: Vec<&str> = spans.iter().map(|span| span.name.as_str()).collect();
    assert!(names.contains(&"extract musicbrainz releases"), "saw {names:?}");
    assert!(names.contains(&"publish groovemap-musicbrainz-releases"), "saw {names:?}");
    for span in &spans {
        for attribute in &span.attributes {
            assert!(!attribute.value.contains(".jsonl"), "no file name may reach a span attribute");
        }
    }
}

#[test]
fn a_header_that_was_set_is_read_back() {
    let mut headers = FieldTable::default();
    let traceparent = "00-0af7651916cd43dd8448eb211c80319c-b7ad6b7169203331-01";
    assert_eq!(get_header(&headers, TRACEPARENT_HEADER), None);
    set_header(&mut headers, TRACEPARENT_HEADER, "first".to_string());
    set_header(&mut headers, "tracestate", "ä=1".to_string());
    set_header(&mut headers, TRACEPARENT_HEADER, traceparent.to_string());
    assert_eq!(get_header(&headers, TRACEPARENT_HEADER), Some(traceparent.to_string()));
    assert_eq!(get_header(&headers, "tracestate"), Some("ä=1".to_string()));
    assert_eq!(get_header(&headers, "other"), None);
    assert_eq!(header_keys(&headers), vec!["traceparent".to_string(), "tracestate".to_string()]);
    assert!(matches!(
        headers.inner().get(TRACEPARENT_HEADER),
        Some(AMQPValue::LongString(raw)) if raw.as_bytes() == traceparent.as_bytes()
    ));
}

#[test]
fn a_header_of_another_kind_has_no_text() {
    let mut headers = FieldTable::default();
    headers.insert("short".into(), AMQPValue::ShortString("s".into()));
    headers.insert("bytes".into(), AMQPValue::LongString(vec![0xff, 0xfe].into()));
    headers.insert("number".into(), AMQPValue::LongInt(7));
    assert_eq!(get_header(&headers, "short"), Some("s".to_string()));
    assert_eq!(get_header(&headers, "bytes"), None);
    assert_eq!(get_header(&headers, "number"), None);
    assert_eq!(header_keys(&headers), vec!["bytes", "number", "short"]);
    let longest = "k".repeat(255);
    set_header(&mut headers, &longest, "v".to_string());
    assert_eq!(get_header(&headers, &longest), Some("v".to_string()));
}

#[test]
fn instruments_have_their_units_and_kinds() {
    let names = |parts: Vec<InstrumentParts>| {
        parts.into_iter().map(|p| (p.name, p.kind, p.unit)).collect::<Vec<_>>()
    };
    assert_eq!(
        names(extraction_instruments()),
        vec![
            (METRIC_EXTRACTION_RECORDS, InstrumentKind::Counter, ""),
            (METRIC_EXTRACTION_FILES, InstrumentKind::Counter, ""),
            (METRIC_EXTRACTION_FILE_PROGRESS, InstrumentKind::Gauge, "1"),
            (METRIC_EXTRACTION_DOWNLOAD_BYTES, InstrumentKind::Counter, "By"),
            (METRIC_EXTRACTION_PUBLISH_CONFIRM_DURATION, InstrumentKind::Histogram, "s"),
            (METRIC_EXTRACTION_ERRORS, InstrumentKind::Counter, ""),
            (METRIC_MESSAGING_SENT_MESSAGES, InstrumentKind::Counter, ""),
            (METRIC_PIPELINE_RECONNECTS, InstrumentKind::Counter, ""),
        ]
    );
    assert_eq!(
        names(process_instruments()),
        vec![
            ("process.cpu.time", InstrumentKind::ObservableCounter, "s"),
            ("process.memory.usage", InstrumentKind::ObservableGauge, "By"),
            ("process.thread.count", InstrumentKind::ObservableGauge, ""),
            ("process.open_file_descriptor.count", InstrumentKind::ObservableGauge, ""),
        ]
    );
    assert_eq!(
        names(scheduler_instruments()),
        vec![
            ("groovemap.runtime.tokio.workers", InstrumentKind::ObservableGauge, ""),
            ("groovemap.runtime.tokio.alive_tasks", InstrumentKind::ObservableGauge, ""),
            ("groovemap.runtime.tokio.global_queue_depth", InstrumentKind::ObservableGauge, ""),
        ]
    );
}

#[test]
fn process_observations_leave_a_gap_for_what_cannot_be_read() {
    assert_eq!(observe_cpu_time(None), None);
    assert_eq!(observe_cpu_time(Some("1 (x) S 1")), None);
    assert_eq!(observe_memory(None), None);
    assert_eq!(observe_threads(Some("VmRSS: 1 kB")), None);
    assert_eq!(observe_file_descriptors(None), None);

    let stat = "7 (a b) S 1 1 1 0 -1 0 0 0 0 0 250 50 0 0";
    let (user, system) = observe_cpu_time(Some(stat)).unwrap();
    assert_eq!((user.metric, user.amount), ("process.cpu.time", Amount::Ticks(250)));
    assert_eq!(pairs(&user), vec![("cpu.mode", "user")]);
    assert_eq!((system.metric, system.amount), ("process.cpu.time", Amount::Ticks(50)));
    assert_eq!(pairs(&system), vec![("cpu.mode", "system")]);

    let status = "VmRSS:\t  2048 kB\nThreads:\t9\n";
    let memory = observe_memory(Some(status)).unwrap();
    assert_eq!((memory.metric, memory.amount), ("process.memory.usage", Amount::Count(2097152)));
    assert_eq!(observe_threads(Some(status)).unwrap().amount, Amount::Count(9));
    assert_eq!(observe_file_descriptors(Some(12)).unwrap().amount, Amount::Count(11));
    assert_eq!(observe_file_descriptors(Some(0)).unwrap().amount, Amount::Count(0));
}
