//! What the process shows and decides around its runs.

use extractor::startup::{
    apply_failure_cooldown, ascii_art, build_tracing_filter, parse_failure_cooldown,
    startup_banner_message, tracing_filter, DEFAULT_FAILURE_COOLDOWN_SECS,
};

#[test]
fn test_build_tracing_filter_debug() {
    let filter = build_tracing_filter("debug");
    assert_eq!(filter, "extractor=debug,lapin=info");
}

#[test]
fn test_build_tracing_filter_info() {
    let filter = build_tracing_filter("info");
    assert_eq!(filter, "extractor=info,lapin=warn");
}

#[test]
fn test_build_tracing_filter_warn() {
    let filter = build_tracing_filter("warn");
    assert_eq!(filter, "extractor=warn,lapin=warn");
}

#[test]
fn test_build_tracing_filter_error() {
    let filter = build_tracing_filter("error");
    assert_eq!(filter, "extractor=error,lapin=warn");
}

#[test]
fn test_build_tracing_filter_python_levels() {
    assert_eq!(build_tracing_filter("DEBUG"), "extractor=debug,lapin=info");
    assert_eq!(build_tracing_filter("INFO"), "extractor=info,lapin=warn");
    assert_eq!(build_tracing_filter("WARNING"), "extractor=warn,lapin=warn");
    assert_eq!(build_tracing_filter("CRITICAL"), "extractor=error,lapin=warn");
    assert_eq!(build_tracing_filter("INVALID"), "extractor=info,lapin=warn");
    assert_eq!(build_tracing_filter(""), "extractor=info,lapin=warn");
}

#[test]
fn a_level_counts_in_upper_case_only_once_it_is_there() {
    assert_eq!(tracing_filter("ERROR"), "extractor=error,lapin=warn");
    assert_eq!(tracing_filter("error"), "extractor=info,lapin=warn");
    assert_eq!(build_tracing_filter("Warnıng"), "extractor=warn,lapin=warn");
}

#[test]
fn test_startup_banner_message_reflects_repository() {
    assert_eq!(startup_banner_message(), "🚀 Starting GrooveMap musicbrainz-ingestion");
}

#[test]
fn test_ascii_art_uses_repository_identity() {
    let banner = ascii_art();
    assert!(banner.contains("catalog-ingestion"));
    assert!(!banner.to_ascii_lowercase().contains("discogsography"));
    assert!(!banner.contains("rust-extractor"));
}

#[test]
fn test_parse_failure_cooldown_default_when_missing() {
    assert_eq!(parse_failure_cooldown(None), DEFAULT_FAILURE_COOLDOWN_SECS);
}

#[test]
fn test_parse_failure_cooldown_default_when_garbage() {
    assert_eq!(parse_failure_cooldown(Some("not-a-number")), DEFAULT_FAILURE_COOLDOWN_SECS);
    assert_eq!(parse_failure_cooldown(Some("")), DEFAULT_FAILURE_COOLDOWN_SECS);
    assert_eq!(parse_failure_cooldown(Some("-1")), DEFAULT_FAILURE_COOLDOWN_SECS);
}

#[test]
fn test_parse_failure_cooldown_explicit_value() {
    assert_eq!(parse_failure_cooldown(Some("0")), 0);
    assert_eq!(parse_failure_cooldown(Some("1")), 1);
    assert_eq!(parse_failure_cooldown(Some("3600")), 3600);
}

#[test]
fn test_apply_failure_cooldown_zero_returns_immediately() {
    assert_eq!(apply_failure_cooldown(Some("0")), None);
}

#[test]
fn test_apply_failure_cooldown_advances_virtual_clock() {
    assert_eq!(apply_failure_cooldown(Some("60")), Some(60));
    assert_eq!(apply_failure_cooldown(None), Some(600));
}
