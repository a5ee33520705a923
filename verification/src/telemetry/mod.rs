//! What the extractor says about itself: metrics, spans, and the headers that carry a trace
//! across the message broker.

pub mod bootstrap;
pub mod headers;
pub mod instruments;
pub mod process;
pub mod progress;
pub mod records;

use vstd::prelude::*;

verus! {

/// Instrumentation scope reported on every metric.
pub const INSTRUMENTATION_SCOPE: &'static str = "groovemap.musicbrainz-ingestion";

/// The service name where the environment names none.
pub const DEFAULT_SERVICE_NAME: &'static str = "musicbrainz-ingestion";

// Metric names.

pub const METRIC_EXTRACTION_RECORDS: &'static str = "groovemap.extraction.records";

pub const METRIC_EXTRACTION_FILES: &'static str = "groovemap.extraction.files";

pub const METRIC_EXTRACTION_FILE_PROGRESS: &'static str = "groovemap.extraction.file.progress";

pub const METRIC_EXTRACTION_DOWNLOAD_BYTES: &'static str = "groovemap.extraction.download.bytes";

pub const METRIC_EXTRACTION_PUBLISH_CONFIRM_DURATION: &'static str =
    "groovemap.extraction.publish.confirm.duration";

pub const METRIC_EXTRACTION_ERRORS: &'static str = "groovemap.extraction.errors";

pub const METRIC_MESSAGING_SENT_MESSAGES: &'static str = "messaging.client.sent.messages";

pub const METRIC_PIPELINE_RECONNECTS: &'static str = "groovemap.pipeline.reconnects";

pub const METRIC_PROCESS_CPU_TIME: &'static str = "process.cpu.time";

pub const METRIC_PROCESS_MEMORY_USAGE: &'static str = "process.memory.usage";

pub const METRIC_PROCESS_THREAD_COUNT: &'static str = "process.thread.count";

pub const METRIC_PROCESS_OPEN_FILE_DESCRIPTOR_COUNT: &'static str =
    "process.open_file_descriptor.count";

pub const METRIC_RUNTIME_TOKIO_WORKERS: &'static str = "groovemap.runtime.tokio.workers";

pub const METRIC_RUNTIME_TOKIO_ALIVE_TASKS: &'static str = "groovemap.runtime.tokio.alive_tasks";

pub const METRIC_RUNTIME_TOKIO_GLOBAL_QUEUE_DEPTH: &'static str =
    "groovemap.runtime.tokio.global_queue_depth";

// Attribute keys, and the values that are fixed.

pub const ATTR_SOURCE: &'static str = "source";

pub const ATTR_ENTITY: &'static str = "entity";

pub const ATTR_OUTCOME: &'static str = "outcome";

pub const ATTR_STAGE: &'static str = "stage";

pub const ATTR_SYSTEM: &'static str = "system";

pub const ATTR_MESSAGING_SYSTEM: &'static str = "messaging.system";

pub const ATTR_MESSAGING_DESTINATION_NAME: &'static str = "messaging.destination.name";

pub const ATTR_MESSAGING_OPERATION_NAME: &'static str = "messaging.operation.name";

pub const ATTR_CPU_MODE: &'static str = "cpu.mode";

pub const CPU_MODE_USER: &'static str = "user";

pub const CPU_MODE_SYSTEM: &'static str = "system";

pub const MESSAGING_SYSTEM_RABBITMQ: &'static str = "rabbitmq";

pub const MESSAGING_OPERATION_PUBLISH: &'static str = "publish";

pub const SOURCE_MUSICBRAINZ: &'static str = "musicbrainz";

/// The header that carries a trace across the message broker.
pub const TRACEPARENT_HEADER: &'static str = "traceparent";

/// Terminal state of one dump file.
#[derive(Debug, Clone, Copy, PartialEq, Eq, Structural)]
pub enum FileOutcome {
    Completed,
    Skipped,
    Failed,
}

/// The label of a file outcome.
pub open spec fn outcome_label(outcome: FileOutcome) -> &'static str {
    match outcome {
        FileOutcome::Completed => "completed",
        FileOutcome::Skipped => "skipped",
        FileOutcome::Failed => "failed",
    }
}

impl FileOutcome {
    /// The label of this outcome.
    pub fn as_str(self) -> (label: &'static str)
        ensures
            label == outcome_label(self),
    {
        match self {
            FileOutcome::Completed => "completed",
            FileOutcome::Skipped => "skipped",
            FileOutcome::Failed => "failed",
        }
    }
}

/// The part of the pipeline that an error belongs to.
#[derive(Debug, Clone, Copy, PartialEq, Eq, Structural)]
pub enum Stage {
    Download,
    Parse,
    Publish,
}

/// The label of a stage.
pub open spec fn stage_label(stage: Stage) -> &'static str {
    match stage {
        Stage::Download => "download",
        Stage::Parse => "parse",
        Stage::Publish => "publish",
    }
}

impl Stage {
    /// The label of this stage.
    pub fn as_str(self) -> (label: &'static str)
        ensures
            label == stage_label(self),
    {
        match self {
            Stage::Download => "download",
            Stage::Parse => "parse",
            Stage::Publish => "publish",
        }
    }
}

} // verus!
