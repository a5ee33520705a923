//! Measurements and spans: what is recorded, under which name, and with which attributes.

use crate::telemetry::progress::{clamped, Fraction};
use crate::telemetry::{
    outcome_label, stage_label, FileOutcome, Stage, ATTR_ENTITY, ATTR_MESSAGING_DESTINATION_NAME,
    ATTR_MESSAGING_OPERATION_NAME, ATTR_MESSAGING_SYSTEM, ATTR_OUTCOME, ATTR_SOURCE, ATTR_STAGE,
    ATTR_SYSTEM, MESSAGING_OPERATION_PUBLISH, MESSAGING_SYSTEM_RABBITMQ, METRIC_EXTRACTION_ERRORS,
    METRIC_EXTRACTION_DOWNLOAD_BYTES, METRIC_EXTRACTION_FILES, METRIC_EXTRACTION_FILE_PROGRESS,
    METRIC_EXTRACTION_PUBLISH_CONFIRM_DURATION, METRIC_EXTRACTION_RECORDS,
    METRIC_MESSAGING_SENT_MESSAGES, METRIC_PIPELINE_RECONNECTS,
};
use crate::text::{join_two, opt_view};
use vstd::prelude::*;

verus! {

// ── The source label ────────────────────────────────────────────────

/// Which provider this process extracts, once that is known.
#[derive(Debug)]
pub struct SourceLabel {
    pub value: Option<String>,
}

/// The label of the source: what was set, else `unknown`.
pub open spec fn source_text(label: SourceLabel) -> Seq<char> {
    match label.value {
        Some(text) => text@,
        None => "unknown"@,
    }
}

/// A label that was not set.
pub fn no_source() -> (label: SourceLabel)
    ensures
        label.value is None,
{
    SourceLabel { value: None }
}

/// Set the label of the source. The first call counts; later ones change nothing.
pub fn set_source(label: &mut SourceLabel, source: &str)
    ensures
        opt_view(final(label).value) == if old(label).value is Some {
            opt_view(old(label).value)
        } else {
            Some(source@)
        },
{
    if label.value.is_none() {
        label.value = Some(source.to_owned());
    }
}

/// The label of the source: what was set, else `unknown`.
pub fn source(label: &SourceLabel) -> (text: String)
    ensures
        text@ == source_text(*label),
{
    match &label.value {
        Some(text) => text.clone(),
        None => "unknown".to_owned(),
    }
}

// ── Measurements ────────────────────────────────────────────────────

/// An attribute of a measurement or a span.
#[derive(Debug, PartialEq, Eq)]
pub struct Attribute {
    pub key: &'static str,
    pub value: String,
}

/// What the attributes stand for, in order.
pub open spec fn attribute_models(attributes: Seq<Attribute>) -> Seq<(Seq<char>, Seq<char>)> {
    attributes.map_values(|attribute: Attribute| (attribute.key@, attribute.value@))
}

/// How much is recorded.
#[derive(Debug, Clone, Copy, PartialEq, Eq, Structural)]
pub enum Amount {
    /// So many more.
    Count(u64),
    /// So much of the whole.
    Ratio(Fraction),
    /// So long, in nanoseconds.
    Nanos(u64),
    /// So long, in clock ticks of the kernel.
    Ticks(u64),
}

/// One value for one metric.
#[derive(Debug, PartialEq, Eq)]
pub struct Measurement {
    pub metric: &'static str,
    pub amount: Amount,
    pub attributes: Vec<Attribute>,
}

/// What a [`Measurement`] stands for.
#[verifier::ext_equal]
pub struct MeasurementModel {
    pub metric: Seq<char>,
    pub amount: Amount,
    pub attributes: Seq<(Seq<char>, Seq<char>)>,
}

impl View for Measurement {
    type V = MeasurementModel;

    open spec fn view(&self) -> MeasurementModel {
        MeasurementModel {
            metric: self.metric@,
            amount: self.amount,
            attributes: attribute_models(self.attributes@),
        }
    }
}

/// What an optional measurement stands for.
pub open spec fn opt_measurement(measurement: Option<Measurement>) -> Option<MeasurementModel> {
    match measurement {
        Some(measurement) => Some(measurement@),
        None => None,
    }
}

pub(crate) fn one_attribute(key: &'static str, value: String) -> (attributes: Vec<Attribute>)
    ensures
        attribute_models(attributes@) == seq![(key@, value@)],
{
    let mut attributes: Vec<Attribute> = Vec::new();
    attributes.push(Attribute { key, value });
    assert(attribute_models(attributes@) =~= seq![(key@, value@)]);
    attributes
}

fn two_attributes(
    key: &'static str,
    value: String,
    other_key: &'static str,
    other_value: String,
) -> (attributes: Vec<Attribute>)
    ensures
        attribute_models(attributes@) == seq![(key@, value@), (other_key@, other_value@)],
{
    let mut attributes = one_attribute(key, value);
    let ghost before = attributes@;
    attributes.push(Attribute { key: other_key, value: other_value });
    assert(attribute_models(attributes@) =~= attribute_models(before).push(
        (other_key@, other_value@),
    ));
    assert(attribute_models(attributes@) =~= seq![(key@, value@), (other_key@, other_value@)]);
    attributes
}

/// Records of one entity that were extracted; nothing where there are none.
pub fn record_records(label: &SourceLabel, entity: &str, count: u64) -> (measurement: Option<
    Measurement,
>)
    ensures
        opt_measurement(measurement) == if count == 0 {
            None
        } else {
            Some(
                MeasurementModel {
                    metric: METRIC_EXTRACTION_RECORDS@,
                    amount: Amount::Count(count),
                    attributes: seq![
                        (ATTR_SOURCE@, source_text(*label)),
                        (ATTR_ENTITY@, entity@),
                    ],
                },
            )
        },
{
    if count == 0 {
        return None;
    }
    Some(
        Measurement {
            metric: METRIC_EXTRACTION_RECORDS,
            amount: Amount::Count(count),
            attributes: two_attributes(ATTR_SOURCE, source(label), ATTR_ENTITY, entity.to_owned()),
        },
    )
}

/// A dump file that reached its terminal state.
pub fn record_file_outcome(label: &SourceLabel, outcome: FileOutcome) -> (measurement: Measurement)
    ensures
        measurement@ == (MeasurementModel {
            metric: METRIC_EXTRACTION_FILES@,
            amount: Amount::Count(1),
            attributes: seq![
                (ATTR_SOURCE@, source_text(*label)),
                (ATTR_OUTCOME@, outcome_label(outcome)@),
            ],
        }),
{
    Measurement {
        metric: METRIC_EXTRACTION_FILES,
        amount: Amount::Count(1),
        attributes: two_attributes(
            ATTR_SOURCE,
            source(label),
            ATTR_OUTCOME,
            outcome.as_str().to_owned(),
        ),
    }
}

/// How much of the current file of an entity was read, between zero and one.
pub fn record_file_progress(label: &SourceLabel, entity: &str, ratio: Fraction) -> (measurement:
    Measurement)
    ensures
        measurement@ == (MeasurementModel {
            metric: METRIC_EXTRACTION_FILE_PROGRESS@,
            amount: Amount::Ratio(clamped(ratio)),
            attributes: seq![(ATTR_SOURCE@, source_text(*label)), (ATTR_ENTITY@, entity@)],
        }),
{
    Measurement {
        metric: METRIC_EXTRACTION_FILE_PROGRESS,
        amount: Amount::Ratio(ratio.in_bounds()),
        attributes: two_attributes(ATTR_SOURCE, source(label), ATTR_ENTITY, entity.to_owned()),
    }
}

/// Bytes that were downloaded; nothing where there are none.
pub fn record_download_bytes(label: &SourceLabel, bytes: u64) -> (measurement: Option<Measurement>)
    ensures
        opt_measurement(measurement) == if bytes == 0 {
            None
        } else {
            Some(
                MeasurementModel {
                    metric: METRIC_EXTRACTION_DOWNLOAD_BYTES@,
                    amount: Amount::Count(bytes),
                    attributes: seq![(ATTR_SOURCE@, source_text(*label))],
                },
            )
        },
{
    if bytes == 0 {
        return None;
    }
    Some(
        Measurement {
            metric: METRIC_EXTRACTION_DOWNLOAD_BYTES,
            amount: Amount::Count(bytes),
            attributes: one_attribute(ATTR_SOURCE, source(label)),
        },
    )
}

/// The time that a publisher confirm took.
pub fn record_publish_confirm(label: &SourceLabel, nanos: u64) -> (measurement: Measurement)
    ensures
        measurement@ == (MeasurementModel {
            metric: METRIC_EXTRACTION_PUBLISH_CONFIRM_DURATION@,
            amount: Amount::Nanos(nanos),
            attributes: seq![(ATTR_SOURCE@, source_text(*label))],
        }),
{
    Measurement {
        metric: METRIC_EXTRACTION_PUBLISH_CONFIRM_DURATION,
        amount: Amount::Nanos(nanos),
        attributes: one_attribute(ATTR_SOURCE, source(label)),
    }
}

/// An error of one stage.
pub fn record_error(label: &SourceLabel, stage: Stage) -> (measurement: Measurement)
    ensures
        measurement@ == (MeasurementModel {
            metric: METRIC_EXTRACTION_ERRORS@,
            amount: Amount::Count(1),
            attributes: seq![
                (ATTR_SOURCE@, source_text(*label)),
                (ATTR_STAGE@, stage_label(stage)@),
            ],
        }),
{
    Measurement {
        metric: METRIC_EXTRACTION_ERRORS,
        amount: Amount::Count(1),
        attributes: two_attributes(
            ATTR_SOURCE,
            source(label),
            ATTR_STAGE,
            stage.as_str().to_owned(),
        ),
    }
}

/// Messages that the broker confirmed; nothing where there are none.
pub fn record_messages_sent(destination: &str, count: u64) -> (measurement: Option<Measurement>)
    ensures
        opt_measurement(measurement) == if count == 0 {
            None
        } else {
            Some(
                MeasurementModel {
                    metric: METRIC_MESSAGING_SENT_MESSAGES@,
                    amount: Amount::Count(count),
                    attributes: seq![
                        (ATTR_MESSAGING_SYSTEM@, MESSAGING_SYSTEM_RABBITMQ@),
                        (ATTR_MESSAGING_DESTINATION_NAME@, destination@),
                    ],
                },
            )
        },
{
    if count == 0 {
        return None;
    }
    Some(
        Measurement {
            metric: METRIC_MESSAGING_SENT_MESSAGES,
            amount: Amount::Count(count),
            attributes: two_attributes(
                ATTR_MESSAGING_SYSTEM,
                MESSAGING_SYSTEM_RABBITMQ.to_owned(),
                ATTR_MESSAGING_DESTINATION_NAME,
                destination.to_owned(),
            ),
        },
    )
}

/// A reconnection to a backing system.
pub fn record_reconnect(system: &str) -> (measurement: Measurement)
    ensures
        measurement@ == (MeasurementModel {
            metric: METRIC_PIPELINE_RECONNECTS@,
            amount: Amount::Count(1),
            attributes: seq![(ATTR_SYSTEM@, system@)],
        }),
{
    Measurement {
        metric: METRIC_PIPELINE_RECONNECTS,
        amount: Amount::Count(1),
        attributes: one_attribute(ATTR_SYSTEM, system.to_owned()),
    }
}

// ── Spans ───────────────────────────────────────────────────────────

/// On which side of a message a span stands.
#[derive(Debug, Clone, Copy, PartialEq, Eq, Structural)]
pub enum SpanKind {
    Internal,
    Producer,
}

/// What a span is made of.
#[derive(Debug, PartialEq, Eq)]
pub struct SpanParts {
    pub name: String,
    pub kind: SpanKind,
    pub attributes: Vec<Attribute>,
}

/// What [`SpanParts`] stand for.
#[verifier::ext_equal]
pub struct SpanModel {
    pub name: Seq<char>,
    pub kind: SpanKind,
    pub attributes: Seq<(Seq<char>, Seq<char>)>,
}

impl View for SpanParts {
    type V = SpanModel;

    open spec fn view(&self) -> SpanModel {
        SpanModel {
            name: self.name@,
            kind: self.kind,
            attributes: attribute_models(self.attributes@),
        }
    }
}

/// The span that covers one dump file: `extract`, the source and the entity.
pub fn extract_span(label: &SourceLabel, entity: &str) -> (span: SpanParts)
    ensures
        span@ == (SpanModel {
            name: "extract "@ + source_text(*label) + " "@ + entity@,
            kind: SpanKind::Internal,
            attributes: seq![(ATTR_SOURCE@, source_text(*label)), (ATTR_ENTITY@, entity@)],
        }),
{
    let text = source(label);
    let mut name = join_two("extract ", text.as_str());
    name.append(" ");
    name.append(entity);
    SpanParts {
        name,
        kind: SpanKind::Internal,
        attributes: two_attributes(ATTR_SOURCE, text, ATTR_ENTITY, entity.to_owned()),
    }
}

/// The span that covers the transfer of one file.
pub fn download_span() -> (span: SpanParts)
    ensures
        span@ == (SpanModel {
            name: "download"@,
            kind: SpanKind::Internal,
            attributes: Seq::empty(),
        }),
{
    let span = SpanParts {
        name: "download".to_owned(),
        kind: SpanKind::Internal,
        attributes: Vec::new(),
    };
    assert(span@.attributes =~= Seq::<(Seq<char>, Seq<char>)>::empty());
    span
}

/// The span that covers the parse of one file.
pub fn parse_span() -> (span: SpanParts)
    ensures
        span@ == (SpanModel {
            name: "parse"@,
            kind: SpanKind::Internal,
            attributes: Seq::empty(),
        }),
{
    let span = SpanParts {
        name: "parse".to_owned(),
        kind: SpanKind::Internal,
        attributes: Vec::new(),
    };
    assert(span@.attributes =~= Seq::<(Seq<char>, Seq<char>)>::empty());
    span
}

/// The span that covers one published batch: `publish` and the exchange.
pub fn publish_span(destination: &str) -> (span: SpanParts)
    ensures
        span@ == (SpanModel {
            name: "publish "@ + destination@,
            kind: SpanKind::Producer,
            attributes: seq![
                (ATTR_MESSAGING_SYSTEM@, MESSAGING_SYSTEM_RABBITMQ@),
                (ATTR_MESSAGING_DESTINATION_NAME@, destination@),
                (ATTR_MESSAGING_OPERATION_NAME@, MESSAGING_OPERATION_PUBLISH@),
            ],
        }),
{
    let mut attributes = two_attributes(
        ATTR_MESSAGING_SYSTEM,
        MESSAGING_SYSTEM_RABBITMQ.to_owned(),
        ATTR_MESSAGING_DESTINATION_NAME,
        destination.to_owned(),
    );
    let ghost before = attributes@;
    attributes.push(
        Attribute {
            key: ATTR_MESSAGING_OPERATION_NAME,
            value: MESSAGING_OPERATION_PUBLISH.to_owned(),
        },
    );
    assert(attribute_models(attributes@) =~= attribute_models(before).push(
        (ATTR_MESSAGING_OPERATION_NAME@, MESSAGING_OPERATION_PUBLISH@),
    ));
    assert(attribute_models(attributes@) =~= seq![
        (ATTR_MESSAGING_SYSTEM@, MESSAGING_SYSTEM_RABBITMQ@),
        (ATTR_MESSAGING_DESTINATION_NAME@, destination@),
        (ATTR_MESSAGING_OPERATION_NAME@, MESSAGING_OPERATION_PUBLISH@),
    ]);
    SpanParts {
        name: join_two("publish ", destination),
        kind: SpanKind::Producer,
        attributes,
    }
}

/// The label of the source is the text that was set, whatever it is, and `unknown` only where
/// none was.
pub proof fn the_source_is_what_was_set(label: SourceLabel, text: Seq<char>)
    ensures
        opt_view(label.value) == Some(text) ==> source_text(label) == text,
        label.value is None ==> source_text(label) == "unknown"@,
{
}

} // verus!
