//! What is recorded of a signal.

use super::unavailable_log::{
    after_available, after_unavailable, log_for, UnavailableLog, UnavailableLogEmitter,
};
use crate::doubles::{at_least, is_at_least, ZERO};
use crate::schema::{
    Attributes, Envelope, InstrumentKind, Letter, MetricPoint, Point, Quality, Severity,
};
use crate::series::{Listing, Series};
use crate::table::items_of;
use crate::text::{has_prefix, starts_with};
use vstd::prelude::*;

verus! {

/// The revision of the semantic conventions that the translation follows.
pub const OTEL_SEMCONV_REVISION: &'static str = "1.41.1";

/// The name of a quality.
pub open spec fn quality_text(q: Quality) -> Seq<char> {
    match q {
        Quality::Measured => "measured"@,
        Quality::Derived => "derived"@,
        Quality::Estimated => "estimated"@,
        Quality::Unsupported => "unsupported"@,
        Quality::Error => "error"@,
        Quality::Stale => "stale"@,
    }
}

/// The name of a quality.
pub fn quality_name(quality: &Quality) -> (r: &'static str)
    ensures
        r@ == quality_text(*quality),
{
    match quality {
        Quality::Measured => "measured",
        Quality::Derived => "derived",
        Quality::Estimated => "estimated",
        Quality::Unsupported => "unsupported",
        Quality::Error => "error",
        Quality::Stale => "stale",
    }
}

// --------------------------------------------------------------------------
// Health events
// --------------------------------------------------------------------------

/// The part of the system that a health event is about.
pub open spec fn domain_of(code: Seq<char>) -> Seq<char> {
    if has_prefix(code, "NVIDIA_"@) {
        "nvidia"@
    } else if has_prefix(code, "SERVICE_"@) {
        "service"@
    } else if has_prefix(code, "NATS_"@) {
        "nats"@
    } else {
        "agent"@
    }
}

/// The part of the system that a health event is about.
pub fn event_domain(code: &str) -> (r: &'static str)
    ensures
        r@ == domain_of(code@),
{
    if starts_with(code, "NVIDIA_") {
        "nvidia"
    } else if starts_with(code, "SERVICE_") {
        "service"
    } else if starts_with(code, "NATS_") {
        "nats"
    } else {
        "agent"
    }
}

/// The text of a JSON object with the given members.
pub uninterp spec fn json_object(members: Seq<(Seq<char>, Seq<char>)>) -> Seq<char>;

/// The contents of a list of members.
pub open spec fn members_view(v: Seq<(String, String)>) -> Seq<(Seq<char>, Seq<char>)> {
    v.map_values(|m: (String, String)| (m.0@, m.1@))
}

/// `serde_json::to_string` on a `BTreeMap` of the given members. Its text
/// depends on the members alone; how strings are escaped is left to the crate.
#[verifier::external_body]
fn write_json_object(members: Vec<(String, String)>) -> (r: String)
    ensures
        r@ == json_object(members_view(members@)),
{
    let map: std::collections::BTreeMap<String, String> = members.into_iter().collect();
    serde_json::to_string(&map).unwrap_or_default()
}

/// Attributes as a JSON object, in the order of their names.
pub fn attributes_json(attributes: &Attributes) -> (r: String)
    ensures
        r@ == json_object(items_of::<String, Seq<char>>(attributes@)),
{
    let ghost items = items_of::<String, Seq<char>>(attributes@);
    let n: usize = attributes.len();
    let mut members: Vec<(String, String)> = Vec::new();
    let mut i: usize = 0;
    while i < n
        invariant
            i <= n == items.len(),
            items == items_of::<String, Seq<char>>(attributes@),
            members@.len() == i,
            forall|j: int|
                0 <= j < i ==> (#[trigger] members@[j]).0@ == items[j].0 && members@[j].1@
                    == items[j].1,
        decreases n - i,
    {
        members.push((attributes.key_at(i).clone(), attributes.value_at(i).clone()));
        i += 1;
    }
    assert(members_view(members@) =~= items);
    write_json_object(members)
}

/// The level of a log record.
#[derive(Debug, Clone, Copy, PartialEq, Eq, Structural)]
pub enum LogLevel {
    Info,
    Warn,
    Error,
}

/// The level of a health event.
pub open spec fn level_of(s: Severity) -> LogLevel {
    match s {
        Severity::Info => LogLevel::Info,
        Severity::Warning => LogLevel::Warn,
        Severity::Error => LogLevel::Error,
        Severity::Critical => LogLevel::Error,
    }
}

/// What is logged of a health event besides its node and its message.
pub struct HealthRecord {
    pub level: LogLevel,
    pub domain: &'static str,
    pub attributes: String,
}

/// What is logged of a health event.
pub fn emit_health(severity: &Severity, code: &str, attributes: &Attributes) -> (r: HealthRecord)
    ensures
        r.level == level_of(*severity),
        r.domain@ == domain_of(code@),
        r.attributes@ == json_object(items_of::<String, Seq<char>>(attributes@)),
{
    let level = match severity {
        Severity::Info => LogLevel::Info,
        Severity::Warning => LogLevel::Warn,
        Severity::Error => LogLevel::Error,
        Severity::Critical => LogLevel::Error,
    };
    HealthRecord { level, domain: event_domain(code), attributes: attributes_json(attributes) }
}

// --------------------------------------------------------------------------
// Metric points
// --------------------------------------------------------------------------

/// A value to record with an instrument.
pub struct Measurement {
    pub instrument: InstrumentKind,
    pub name: String,
    pub unit: String,
    /// The bits of the number.
    pub value: u64,
    pub attributes: Vec<(String, String)>,
}

/// What becomes of a point.
pub enum Recorded {
    /// The value is recorded.
    Value(Measurement),
    /// The absence of a value is logged.
    Log(UnavailableLog),
    /// Nothing is recorded.
    Nothing,
}

/// The attributes that every measurement carries, and those of its point.
pub open spec fn measurement_attributes(e: Letter, p: Point<u64>) -> Listing {
    seq![
        ("host.name"@, e.node.host_name),
        ("host.id"@, e.node.id),
        ("spark.site"@, e.node.site),
        ("spark.node.id"@, e.node.id),
        ("spark.signal.boot_id"@, e.boot_id),
        ("measurement.quality"@, quality_text(p.quality)),
        ("measurement.source"@, p.source),
    ] + items_of::<String, Seq<char>>(p.attributes)
}

/// A counter takes no negative changes.
pub open spec fn recordable(p: Point<u64>) -> bool {
    p.instrument == InstrumentKind::CounterDelta ==> at_least(p.value->0, ZERO)
}

/// What becomes of a point, where `unavailable` are the series whose absence
/// is already logged.
pub open spec fn is_recorded(r: Recorded, unavailable: Set<Series>, e: Letter, p: Point<u64>) -> bool {
    match p.value {
        Some(bits) => if recordable(p) {
            r matches Recorded::Value(m) && m.instrument == p.instrument && m.name@ == p.name
                && m.unit@ == p.unit && m.value == bits && members_view(m.attributes@)
                == measurement_attributes(e, p)
        } else {
            r is Nothing
        },
        None => match log_for(unavailable, e, p) {
            Some(log) => r matches Recorded::Log(l) && l@ == log,
            None => r is Nothing,
        },
    }
}

/// The series whose absence is logged after a point.
pub open spec fn after_record(unavailable: Set<Series>, p: Point<u64>) -> Set<Series> {
    match p.value {
        Some(_) => after_available(unavailable, p),
        None => after_unavailable(unavailable, p),
    }
}

fn attribute(list: &mut Vec<(String, String)>, key: &str, value: &str)
    ensures
        members_view(final(list)@) == members_view(old(list)@).push((key@, value@)),
{
    let ghost before = list@;
    list.push((key.to_owned(), value.to_owned()));
    assert(members_view(list@) =~= members_view(before).push((key@, value@)));
}

fn all_attributes(envelope: &Envelope, point: &MetricPoint<u64>) -> (r: Vec<(String, String)>)
    ensures
        members_view(r@) == measurement_attributes(envelope@, point@),
{
    let mut list: Vec<(String, String)> = Vec::new();
    assert(members_view(list@) =~= seq![]);
    attribute(&mut list, "host.name", envelope.node.host_name.as_str());
    attribute(&mut list, "host.id", envelope.node.id.as_str());
    attribute(&mut list, "spark.site", envelope.node.site.as_str());
    attribute(&mut list, "spark.node.id", envelope.node.id.as_str());
    attribute(&mut list, "spark.signal.boot_id", envelope.boot_id.as_str());
    attribute(&mut list, "measurement.quality", quality_name(&point.quality));
    attribute(&mut list, "measurement.source", point.source.as_str());
    let ghost start = members_view(list@);
    let ghost items = items_of::<String, Seq<char>>(point.attributes@);
    let n: usize = point.attributes.len();
    let mut i: usize = 0;
    assert(start + items.take(0) =~= start);
    while i < n
        invariant
            i <= n == items.len(),
            items == items_of::<String, Seq<char>>(point.attributes@),
            members_view(list@) == start + items.take(i as int),
        decreases n - i,
    {
        attribute(
            &mut list,
            point.attributes.key_at(i).as_str(),
            point.attributes.value_at(i).as_str(),
        );
        assert(start + items.take(i + 1) =~= (start + items.take(i as int)).push(
            items[i as int],
        ));
        i += 1;
    }
    assert(items.take(i as int) =~= items);
    list
}

/// Decides what becomes of points.
pub struct Instruments {
    unavailable_logs: UnavailableLogEmitter,
}

impl View for Instruments {
    type V = Set<Series>;

    closed spec fn view(&self) -> Set<Series> {
        self.unavailable_logs@
    }
}

impl Instruments {
    pub fn new() -> (r: Self)
        ensures
            r@ == Set::<Series>::empty(),
    {
        Instruments { unavailable_logs: UnavailableLogEmitter::new() }
    }

    /// Decides what becomes of a point.
    pub fn record(&mut self, envelope: &Envelope, point: &MetricPoint<u64>) -> (r: Recorded)
        ensures
            is_recorded(r, old(self)@, envelope@, point@),
            final(self)@ == after_record(old(self)@, point@),
    {
        let value = match point.value {
            Some(value) => value,
            None => {
                return match self.unavailable_logs.emit(envelope, point) {
                    Some(log) => Recorded::Log(log),
                    None => Recorded::Nothing,
                };
            },
        };
        self.unavailable_logs.observe_available(point);
        if point.instrument == InstrumentKind::CounterDelta && !is_at_least(value, ZERO) {
            return Recorded::Nothing;
        }
        Recorded::Value(
            Measurement {
                instrument: point.instrument,
                name: point.name.clone(),
                unit: point.unit.clone(),
                value,
                attributes: all_attributes(envelope, point),
            },
        )
    }
}

/// A point without a value is never recorded as a measurement.
pub proof fn law_missing_values_are_not_recorded(
    r: Recorded,
    unavailable: Set<Series>,
    e: Letter,
    p: Point<u64>,
)
    requires
        is_recorded(r, unavailable, e, p),
        p.value is None,
    ensures
        !(r is Value),
{
}

} // verus!
