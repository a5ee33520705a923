//! Whether telemetry is exported, and how it is set up.

use crate::table::Table;
use crate::telemetry::METRIC_EXTRACTION_PUBLISH_CONFIRM_DURATION;
use crate::text::{
    blank, bounded_value, case_is_ignored_letter_by_letter, equals_ignoring_ascii_case, is_blank,
    is_white_space, opt_view, parse_unsigned, same_ignoring_ascii_case, same_letter, same_text,
    trim, trimmed_text, trimming_keeps_what_is_between, trimming_removes_only_outer_whitespace,
};
use vstd::prelude::*;

verus! {

/// Whether a variable is set to more than whitespace.
pub open spec fn is_set(env: Map<Seq<char>, String>, name: Seq<char>) -> bool {
    env.contains_key(name) && !is_blank(env[name]@)
}

/// Whether a variable selects no exporter.
pub open spec fn selects_none(env: Map<Seq<char>, String>, name: Seq<char>) -> bool {
    env.contains_key(name) && same_ignoring_ascii_case(trimmed_text(env[name]@), "none"@)
}

/// Whether a variable is set to more than whitespace.
pub fn env_is_set(env: &Table<String>, name: &str) -> (set: bool)
    ensures
        set == is_set(env@, name@),
{
    match env.get(name) {
        Some(value) => !blank(value.as_str()),
        None => false,
    }
}

fn none_selected(env: &Table<String>, name: &str) -> (none: bool)
    ensures
        none == selects_none(env@, name@),
{
    match env.get(name) {
        Some(value) => equals_ignoring_ascii_case(trim(value.as_str()).as_str(), "none"),
        None => false,
    }
}

/// Whether the metrics exporter is switched off.
pub fn metrics_disabled(env: &Table<String>) -> (disabled: bool)
    ensures
        disabled == selects_none(env@, "OTEL_METRICS_EXPORTER"@),
{
    none_selected(env, "OTEL_METRICS_EXPORTER")
}

/// Whether the trace exporter is switched off.
pub fn traces_disabled(env: &Table<String>) -> (disabled: bool)
    ensures
        disabled == selects_none(env@, "OTEL_TRACES_EXPORTER"@),
{
    none_selected(env, "OTEL_TRACES_EXPORTER")
}

/// Whether there is an endpoint for metrics: their own or the common one.
pub fn endpoint_configured(env: &Table<String>) -> (configured: bool)
    ensures
        configured == (is_set(env@, "OTEL_EXPORTER_OTLP_METRICS_ENDPOINT"@) || is_set(
            env@,
            "OTEL_EXPORTER_OTLP_ENDPOINT"@,
        )),
{
    env_is_set(env, "OTEL_EXPORTER_OTLP_METRICS_ENDPOINT")
        || env_is_set(env, "OTEL_EXPORTER_OTLP_ENDPOINT")
}

/// Whether there is an endpoint for traces: their own or the common one.
pub fn trace_endpoint_configured(env: &Table<String>) -> (configured: bool)
    ensures
        configured == (is_set(env@, "OTEL_EXPORTER_OTLP_TRACES_ENDPOINT"@) || is_set(
            env@,
            "OTEL_EXPORTER_OTLP_ENDPOINT"@,
        )),
{
    env_is_set(env, "OTEL_EXPORTER_OTLP_TRACES_ENDPOINT")
        || env_is_set(env, "OTEL_EXPORTER_OTLP_ENDPOINT")
}

/// What becomes of a telemetry pipeline.
#[derive(Debug, Clone, Copy, PartialEq, Eq, Structural)]
pub enum Bootstrap {
    /// The exporter is switched off.
    Disabled,
    /// There is nowhere to export to.
    NoEndpoint,
    /// The pipeline is built.
    Export,
}

/// What becomes of the metrics pipeline.
pub fn init_metrics(env: &Table<String>) -> (bootstrap: Bootstrap)
    ensures
        bootstrap == if selects_none(env@, "OTEL_METRICS_EXPORTER"@) {
            Bootstrap::Disabled
        } else if is_set(env@, "OTEL_EXPORTER_OTLP_METRICS_ENDPOINT"@) || is_set(
            env@,
            "OTEL_EXPORTER_OTLP_ENDPOINT"@,
        ) {
            Bootstrap::Export
        } else {
            Bootstrap::NoEndpoint
        },
{
    if metrics_disabled(env) {
        Bootstrap::Disabled
    } else if endpoint_configured(env) {
        Bootstrap::Export
    } else {
        Bootstrap::NoEndpoint
    }
}

/// What becomes of the trace pipeline.
pub fn init_traces(env: &Table<String>) -> (bootstrap: Bootstrap)
    ensures
        bootstrap == if selects_none(env@, "OTEL_TRACES_EXPORTER"@) {
            Bootstrap::Disabled
        } else if is_set(env@, "OTEL_EXPORTER_OTLP_TRACES_ENDPOINT"@) || is_set(
            env@,
            "OTEL_EXPORTER_OTLP_ENDPOINT"@,
        ) {
            Bootstrap::Export
        } else {
            Bootstrap::NoEndpoint
        },
{
    if traces_disabled(env) {
        Bootstrap::Disabled
    } else if trace_endpoint_configured(env) {
        Bootstrap::Export
    } else {
        Bootstrap::NoEndpoint
    }
}

/// Whether the trace pipeline gets the default sampler: only where none is named.
pub fn uses_default_sampler(env: &Table<String>) -> (uses: bool)
    ensures
        uses == !is_set(env@, "OTEL_TRACES_SAMPLER"@),
{
    !env_is_set(env, "OTEL_TRACES_SAMPLER")
}

/// The milliseconds between two exports of the metrics.
pub fn export_interval(env: &Table<String>) -> (milliseconds: u64)
    ensures
        milliseconds == if env@.contains_key("OTEL_METRIC_EXPORT_INTERVAL"@) {
            match bounded_value(env@["OTEL_METRIC_EXPORT_INTERVAL"@]@, u64::MAX) {
                Some(value) => value,
                None => 60_000u64,
            }
        } else {
            60_000u64
        },
{
    match env.get("OTEL_METRIC_EXPORT_INTERVAL") {
        Some(text) => match parse_unsigned(text.as_str(), u64::MAX) {
            Some(value) => value,
            None => 60_000,
        },
        None => 60_000,
    }
}

/// The service name that the code gives to its telemetry: the default, and only where the
/// environment names none.
pub fn service_name_override(env: &Table<String>, default: &str) -> (name: Option<String>)
    ensures
        opt_view(name) == if is_set(env@, "OTEL_SERVICE_NAME"@) {
            None
        } else {
            Some(default@)
        },
{
    if env_is_set(env, "OTEL_SERVICE_NAME") {
        None
    } else {
        Some(default.to_owned())
    }
}

/// The bucket boundaries of the histogram of publisher confirms, in milliseconds.
pub open spec fn confirm_boundaries() -> Seq<u64> {
    seq![1, 5, 10, 25, 50, 100, 250, 500, 1000, 2500, 5000, 10000, 30000]
}

/// The bucket boundaries of an instrument, in milliseconds, where it is the histogram of
/// publisher confirms; every other instrument keeps its own.
pub fn confirm_duration_view(instrument: &str) -> (boundaries: Option<Vec<u64>>)
    ensures
        match boundaries {
            Some(list) => instrument@ == METRIC_EXTRACTION_PUBLISH_CONFIRM_DURATION@ && list@
                == confirm_boundaries(),
            None => instrument@ != METRIC_EXTRACTION_PUBLISH_CONFIRM_DURATION@,
        },
{
    if same_text(instrument, METRIC_EXTRACTION_PUBLISH_CONFIRM_DURATION) {
        Some(vec![1, 5, 10, 25, 50, 100, 250, 500, 1000, 2500, 5000, 10000, 30000])
    } else {
        None
    }
}

/// The boundaries rise, from one millisecond to the timeout of a confirm.
pub proof fn confirm_boundaries_rise(i: int, j: int)
    requires
        0 <= i < j < confirm_boundaries().len(),
    ensures
        confirm_boundaries()[i] < confirm_boundaries()[j],
        1 <= confirm_boundaries()[i],
        confirm_boundaries()[j] <= 30000,
{
}

/// A guard that lets a registration happen once.
#[derive(Debug)]
pub struct Registration {
    pub registered: bool,
}

/// A guard of a registration that has not happened.
pub fn unregistered() -> (guard: Registration)
    ensures
        !guard.registered,
{
    Registration { registered: false }
}

/// Whether the runtime metrics are to be registered now: the first call says so, and no later
/// one.
pub fn register_runtime_metrics(guard: &mut Registration) -> (now: bool)
    ensures
        now == !old(guard).registered,
        final(guard).registered,
{
    if guard.registered {
        false
    } else {
        guard.registered = true;
        true
    }
}

/// Whether the runtime metrics were registered.
pub fn runtime_metrics_registered(guard: &Registration) -> (registered: bool)
    ensures
        registered == guard.registered,
{
    guard.registered
}

/// A variable selects no exporter exactly where it holds `none`, in any case, with nothing but
/// whitespace around it.
pub proof fn none_is_selected_by_its_name(
    env: Map<Seq<char>, String>,
    name: Seq<char>,
    before: Seq<char>,
    word: Seq<char>,
    after: Seq<char>,
)
    requires
        is_blank(before),
        is_blank(after),
        word.len() > 0,
        !is_white_space(word[0]),
        !is_white_space(word.last()),
    ensures
        !env.contains_key(name) ==> !selects_none(env, name),
        env.contains_key(name) && is_blank(env[name]@) ==> !selects_none(env, name),
        env.contains_key(name) && env[name]@ == before + word + after ==> (selects_none(env, name)
            <==> word.len() == 4 && forall|i: int|
            0 <= i < 4 ==> same_letter(#[trigger] word[i], "none"@[i])),
{
    reveal_strlit("none");
    assert("none"@.len() == 4);
    trimming_keeps_what_is_between(before, word, after);
    case_is_ignored_letter_by_letter(word, "none"@);
    if env.contains_key(name) && is_blank(env[name]@) {
        trimming_removes_only_outer_whitespace(env[name]@);
        case_is_ignored_letter_by_letter(trimmed_text(env[name]@), "none"@);
    }
}

/// A variable is set exactly where it holds a character that is no whitespace.
pub proof fn a_set_variable_holds_more_than_whitespace(
    env: Map<Seq<char>, String>,
    name: Seq<char>,
)
    ensures
        is_set(env, name) <==> env.contains_key(name) && exists|i: int|
            0 <= i < env[name]@.len() && !is_white_space(#[trigger] env[name]@[i]),
{
}

} // verus!
