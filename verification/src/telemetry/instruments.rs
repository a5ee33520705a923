//! The instruments that are registered, and what the process instruments observe.

use crate::telemetry::process::{
    cpu_ticks, open_file_descriptor_count, parse_process_cpu_ticks, process_rss_bytes,
    process_thread_count, rss_bytes, status_value,
};
use crate::telemetry::records::{
    one_attribute, opt_measurement, Amount, Measurement, MeasurementModel,
};
use crate::telemetry::{
    ATTR_CPU_MODE, CPU_MODE_SYSTEM, CPU_MODE_USER, METRIC_EXTRACTION_DOWNLOAD_BYTES,
    METRIC_EXTRACTION_ERRORS, METRIC_EXTRACTION_FILES, METRIC_EXTRACTION_FILE_PROGRESS,
    METRIC_EXTRACTION_PUBLISH_CONFIRM_DURATION, METRIC_EXTRACTION_RECORDS,
    METRIC_MESSAGING_SENT_MESSAGES, METRIC_PIPELINE_RECONNECTS, METRIC_PROCESS_CPU_TIME,
    METRIC_PROCESS_MEMORY_USAGE, METRIC_PROCESS_OPEN_FILE_DESCRIPTOR_COUNT,
    METRIC_PROCESS_THREAD_COUNT, METRIC_RUNTIME_TOKIO_ALIVE_TASKS,
    METRIC_RUNTIME_TOKIO_GLOBAL_QUEUE_DEPTH, METRIC_RUNTIME_TOKIO_WORKERS,
};
use vstd::prelude::*;

verus! {

/// How an instrument takes its values.
#[derive(Debug, Clone, Copy, PartialEq, Eq, Structural)]
pub enum InstrumentKind {
    Counter,
    Gauge,
    Histogram,
    ObservableCounter,
    ObservableGauge,
}

/// What an instrument is made of. An instrument without a unit has an empty one.
#[derive(Debug, Clone, Copy, PartialEq, Eq)]
pub struct InstrumentParts {
    pub name: &'static str,
    pub kind: InstrumentKind,
    pub unit: &'static str,
    pub description: &'static str,
}

/// The instruments of the extraction pipeline.
pub open spec fn extraction_metrics() -> Seq<InstrumentParts> {
    seq![
        InstrumentParts {
            name: METRIC_EXTRACTION_RECORDS,
            kind: InstrumentKind::Counter,
            unit: "",
            description: "Records extracted from provider dumps and handed to the publish pipeline",
        },
        InstrumentParts {
            name: METRIC_EXTRACTION_FILES,
            kind: InstrumentKind::Counter,
            unit: "",
            description: "Provider dump files reaching a terminal state",
        },
        InstrumentParts {
            name: METRIC_EXTRACTION_FILE_PROGRESS,
            kind: InstrumentKind::Gauge,
            unit: "1",
            description: "Fraction of the current dump file consumed, 0..1",
        },
        InstrumentParts {
            name: METRIC_EXTRACTION_DOWNLOAD_BYTES,
            kind: InstrumentKind::Counter,
            unit: "By",
            description: "Bytes downloaded from the provider",
        },
        InstrumentParts {
            name: METRIC_EXTRACTION_PUBLISH_CONFIRM_DURATION,
            kind: InstrumentKind::Histogram,
            unit: "s",
            description: "Time awaiting a RabbitMQ publisher confirm",
        },
        InstrumentParts {
            name: METRIC_EXTRACTION_ERRORS,
            kind: InstrumentKind::Counter,
            unit: "",
            description: "Extraction errors by pipeline stage",
        },
        InstrumentParts {
            name: METRIC_MESSAGING_SENT_MESSAGES,
            kind: InstrumentKind::Counter,
            unit: "",
            description: "Messages successfully published and confirmed",
        },
        InstrumentParts {
            name: METRIC_PIPELINE_RECONNECTS,
            kind: InstrumentKind::Counter,
            unit: "",
            description: "Reconnections to a backing system",
        },
    ]
}

/// The instruments over the kernel's view of the process.
pub open spec fn process_metrics() -> Seq<InstrumentParts> {
    seq![
        InstrumentParts {
            name: METRIC_PROCESS_CPU_TIME,
            kind: InstrumentKind::ObservableCounter,
            unit: "s",
            description: "CPU time consumed by this process, split by kernel accounting mode",
        },
        InstrumentParts {
            name: METRIC_PROCESS_MEMORY_USAGE,
            kind: InstrumentKind::ObservableGauge,
            unit: "By",
            description: "Resident set size of this process",
        },
        InstrumentParts {
            name: METRIC_PROCESS_THREAD_COUNT,
            kind: InstrumentKind::ObservableGauge,
            unit: "",
            description: "OS threads in this process",
        },
        InstrumentParts {
            name: METRIC_PROCESS_OPEN_FILE_DESCRIPTOR_COUNT,
            kind: InstrumentKind::ObservableGauge,
            unit: "",
            description: "File descriptors currently open by this process",
        },
    ]
}

/// The instruments over the task scheduler.
pub open spec fn scheduler_metrics() -> Seq<InstrumentParts> {
    seq![
        InstrumentParts {
            name: METRIC_RUNTIME_TOKIO_WORKERS,
            kind: InstrumentKind::ObservableGauge,
            unit: "",
            description: "Worker threads in the tokio runtime",
        },
        InstrumentParts {
            name: METRIC_RUNTIME_TOKIO_ALIVE_TASKS,
            kind: InstrumentKind::ObservableGauge,
            unit: "",
            description: "Tasks spawned on the tokio runtime that have not yet completed",
        },
        InstrumentParts {
            name: METRIC_RUNTIME_TOKIO_GLOBAL_QUEUE_DEPTH,
            kind: InstrumentKind::ObservableGauge,
            unit: "",
            description: "Tasks queued on the tokio runtime's global injection queue",
        },
    ]
}

fn instrument(
    name: &'static str,
    kind: InstrumentKind,
    unit: &'static str,
    description: &'static str,
) -> (parts: InstrumentParts)
    ensures
        parts == (InstrumentParts { name, kind, unit, description }),
{
    InstrumentParts { name, kind, unit, description }
}

/// The instruments of the extraction pipeline.
pub fn extraction_instruments() -> (instruments: Vec<InstrumentParts>)
    ensures
        instruments@ == extraction_metrics(),
{
    let list = vec![
        instrument(
            METRIC_EXTRACTION_RECORDS,
            InstrumentKind::Counter,
            "",
            "Records extracted from provider dumps and handed to the publish pipeline",
        ),
        instrument(
            METRIC_EXTRACTION_FILES,
            InstrumentKind::Counter,
            "",
            "Provider dump files reaching a terminal state",
        ),
        instrument(
            METRIC_EXTRACTION_FILE_PROGRESS,
            InstrumentKind::Gauge,
            "1",
            "Fraction of the current dump file consumed, 0..1",
        ),
        instrument(
            METRIC_EXTRACTION_DOWNLOAD_BYTES,
            InstrumentKind::Counter,
            "By",
            "Bytes downloaded from the provider",
        ),
        instrument(
            METRIC_EXTRACTION_PUBLISH_CONFIRM_DURATION,
            InstrumentKind::Histogram,
            "s",
            "Time awaiting a RabbitMQ publisher confirm",
        ),
        instrument(
            METRIC_EXTRACTION_ERRORS,
            InstrumentKind::Counter,
            "",
            "Extraction errors by pipeline stage",
        ),
        instrument(
            METRIC_MESSAGING_SENT_MESSAGES,
            InstrumentKind::Counter,
            "",
            "Messages successfully published and confirmed",
        ),
        instrument(
            METRIC_PIPELINE_RECONNECTS,
            InstrumentKind::Counter,
            "",
            "Reconnections to a backing system",
        ),
    ];
    assert(list@ =~= extraction_metrics());
    list
}

/// The instruments over the kernel's view of the process.
pub fn process_instruments() -> (instruments: Vec<InstrumentParts>)
    ensures
        instruments@ == process_metrics(),
{
    let list = vec![
        instrument(
            METRIC_PROCESS_CPU_TIME,
            InstrumentKind::ObservableCounter,
            "s",
            "CPU time consumed by this process, split by kernel accounting mode",
        ),
        instrument(
            METRIC_PROCESS_MEMORY_USAGE,
            InstrumentKind::ObservableGauge,
            "By",
            "Resident set size of this process",
        ),
        instrument(
            METRIC_PROCESS_THREAD_COUNT,
            InstrumentKind::ObservableGauge,
            "",
            "OS threads in this process",
        ),
        instrument(
            METRIC_PROCESS_OPEN_FILE_DESCRIPTOR_COUNT,
            InstrumentKind::ObservableGauge,
            "",
            "File descriptors currently open by this process",
        ),
    ];
    assert(list@ =~= process_metrics());
    list
}

/// The instruments over the task scheduler.
pub fn scheduler_instruments() -> (instruments: Vec<InstrumentParts>)
    ensures
        instruments@ == scheduler_metrics(),
{
    let list = vec![
        instrument(
            METRIC_RUNTIME_TOKIO_WORKERS,
            InstrumentKind::ObservableGauge,
            "",
            "Worker threads in the tokio runtime",
        ),
        instrument(
            METRIC_RUNTIME_TOKIO_ALIVE_TASKS,
            InstrumentKind::ObservableGauge,
            "",
            "Tasks spawned on the tokio runtime that have not yet completed",
        ),
        instrument(
            METRIC_RUNTIME_TOKIO_GLOBAL_QUEUE_DEPTH,
            InstrumentKind::ObservableGauge,
            "",
            "Tasks queued on the tokio runtime's global injection queue",
        ),
    ];
    assert(list@ =~= scheduler_metrics());
    list
}

// ── What the process instruments observe ────────────────────────────

/// The measurement of a metric without attributes.
pub open spec fn plain(metric: Seq<char>, amount: Amount) -> MeasurementModel {
    MeasurementModel { metric, amount, attributes: Seq::empty() }
}

/// The measurement of the processor time of one accounting mode, in clock ticks.
pub open spec fn cpu_time(mode: Seq<char>, ticks: u64) -> MeasurementModel {
    MeasurementModel {
        metric: METRIC_PROCESS_CPU_TIME@,
        amount: Amount::Ticks(ticks),
        attributes: seq![(ATTR_CPU_MODE@, mode)],
    }
}

fn observed(metric: &'static str, amount: Amount) -> (measurement: Measurement)
    ensures
        measurement@ == plain(metric@, amount),
{
    let measurement = Measurement { metric, amount, attributes: Vec::new() };
    assert(measurement@.attributes =~= Seq::<(Seq<char>, Seq<char>)>::empty());
    measurement
}

/// The user and system ticks of a status line that could be read.
pub open spec fn opt_ticks(stat: Option<&str>) -> Option<(u64, u64)> {
    match stat {
        Some(stat) => cpu_ticks(stat@),
        None => None,
    }
}

/// The processor time of the process, user and system, where its status line could be read
/// and states it. A gap is left otherwise, never a zero.
pub fn observe_cpu_time(stat: Option<&str>) -> (observed: Option<(Measurement, Measurement)>)
    ensures
        match (observed, opt_ticks(stat)) {
            (Some((user, system)), Some((user_ticks, system_ticks))) => user@ == cpu_time(
                CPU_MODE_USER@,
                user_ticks,
            ) && system@ == cpu_time(CPU_MODE_SYSTEM@, system_ticks),
            (None, None) => true,
            _ => false,
        },
{
    let Some(stat) = stat else {
        return None;
    };
    match parse_process_cpu_ticks(stat) {
        Some((user, system)) => Some(
            (
                Measurement {
                    metric: METRIC_PROCESS_CPU_TIME,
                    amount: Amount::Ticks(user),
                    attributes: one_attribute(ATTR_CPU_MODE, CPU_MODE_USER.to_owned()),
                },
                Measurement {
                    metric: METRIC_PROCESS_CPU_TIME,
                    amount: Amount::Ticks(system),
                    attributes: one_attribute(ATTR_CPU_MODE, CPU_MODE_SYSTEM.to_owned()),
                },
            ),
        ),
        None => None,
    }
}

/// The resident set size of the process, where its status text could be read and states it.
pub fn observe_memory(status: Option<&str>) -> (observed: Option<Measurement>)
    ensures
        opt_measurement(observed) == match status {
            Some(status) => match rss_bytes(status@) {
                Some(bytes) => Some(plain(METRIC_PROCESS_MEMORY_USAGE@, Amount::Count(bytes))),
                None => None,
            },
            None => None,
        },
{
    let Some(status) = status else {
        return None;
    };
    match process_rss_bytes(status) {
        Some(bytes) => Some(self::observed(METRIC_PROCESS_MEMORY_USAGE, Amount::Count(bytes))),
        None => None,
    }
}

/// The number of threads of the process, where its status text could be read and states it.
pub fn observe_threads(status: Option<&str>) -> (observed: Option<Measurement>)
    ensures
        opt_measurement(observed) == match status {
            Some(status) => match status_value(status@, "Threads:"@) {
                Some(threads) => Some(
                    plain(METRIC_PROCESS_THREAD_COUNT@, Amount::Count(threads)),
                ),
                None => None,
            },
            None => None,
        },
{
    let Some(status) = status else {
        return None;
    };
    match process_thread_count(status) {
        Some(threads) => Some(self::observed(METRIC_PROCESS_THREAD_COUNT, Amount::Count(threads))),
        None => None,
    }
}

/// The number of open file descriptors, where their listing could be read.
pub fn observe_file_descriptors(entries: Option<u64>) -> (observed: Option<Measurement>)
    ensures
        opt_measurement(observed) == match entries {
            Some(entries) => Some(
                plain(
                    METRIC_PROCESS_OPEN_FILE_DESCRIPTOR_COUNT@,
                    Amount::Count(
                        if entries == 0 {
                            0
                        } else {
                            (entries - 1) as u64
                        },
                    ),
                ),
            ),
            None => None,
        },
{
    match entries {
        Some(entries) => Some(
            self::observed(
                METRIC_PROCESS_OPEN_FILE_DESCRIPTOR_COUNT,
                Amount::Count(open_file_descriptor_count(entries)),
            ),
        ),
        None => None,
    }
}

/// The processor time of a mode is recorded as its ticks under the metric of processor time,
/// with the mode as its only attribute; what has no attributes records its amount as it is.
pub proof fn observations_carry_what_was_read(
    mode: Seq<char>,
    ticks: u64,
    metric: Seq<char>,
    amount: Amount,
)
    ensures
        cpu_time(mode, ticks).metric == METRIC_PROCESS_CPU_TIME@,
        cpu_time(mode, ticks).amount == Amount::Ticks(ticks),
        cpu_time(mode, ticks).attributes == seq![(ATTR_CPU_MODE@, mode)],
        plain(metric, amount).metric == metric,
        plain(metric, amount).amount == amount,
        plain(metric, amount).attributes.len() == 0,
{
}

/// Ticks are observed exactly where a status line could be read and states them.
pub proof fn ticks_are_those_of_the_status_line(stat: &str)
    ensures
        opt_ticks(Some(stat)) == cpu_ticks(stat@),
        opt_ticks(None) is None,
{
}

} // verus!
