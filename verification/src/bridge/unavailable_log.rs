//! Log records of metrics that are unavailable.

use super::record::{quality_name, quality_text};
use crate::catalogue::{
    attribute_name_allowed, is_attribute, is_metric, is_source, metric_name_allowed,
    source_allowed,
};
use crate::rows::{flat, lemma_flat};
use crate::schema::{Envelope, Letter, MetricPoint, Point, Quality, MAX_ATTRIBUTE_VALUE_BYTES};
use crate::series::{series_of, PointKey, Series};
use crate::table::{items_of, Group};
use crate::text::{
    alphanumeric, byte_len, chars, digit, is_alphanumeric, is_digit, is_upper, length_in_bytes,
    upper,
};
use vstd::prelude::*;

verus! {

/// The severity of a log record.
#[derive(Debug, Clone, Copy, PartialEq, Eq, Structural)]
pub enum LogSeverity {
    Info,
    Warn,
    Error,
}

/// The value of a log attribute.
pub enum LogValue {
    Text(String),
    Int(i64),
}

/// The content of a [`LogValue`].
pub enum Datum {
    Text(Seq<char>),
    Int(i64),
}

impl View for LogValue {
    type V = Datum;

    open spec fn view(&self) -> Datum {
        match *self {
            LogValue::Text(s) => Datum::Text(s@),
            LogValue::Int(n) => Datum::Int(n),
        }
    }
}

/// The log record of an unavailable metric.
pub struct UnavailableLog {
    pub severity: LogSeverity,
    pub severity_text: &'static str,
    pub attributes: Vec<(String, LogValue)>,
}

/// The content of an [`UnavailableLog`].
#[verifier::ext_equal]
pub struct Log {
    pub severity: LogSeverity,
    pub severity_text: Seq<char>,
    pub attributes: Seq<(Seq<char>, Datum)>,
}

/// The contents of some log attributes.
pub open spec fn data_view(v: Seq<(String, LogValue)>) -> Seq<(Seq<char>, Datum)> {
    v.map_values(|a: (String, LogValue)| (a.0@, a.1@))
}

impl View for UnavailableLog {
    type V = Log;

    open spec fn view(&self) -> Log {
        Log {
            severity: self.severity,
            severity_text: self.severity_text@,
            attributes: data_view(self.attributes@),
        }
    }
}

// --------------------------------------------------------------------------
// Conversion
// --------------------------------------------------------------------------

/// A text that identifies something and can be logged as it stands.
pub open spec fn is_safe_identifier(s: Seq<char>) -> bool {
    &&& s.len() > 0
    &&& byte_len(s) <= MAX_ATTRIBUTE_VALUE_BYTES
    &&& forall|i: int|
        0 <= i < s.len() ==> {
            let c = #[trigger] s[i];
            is_alphanumeric(c) || c == '.' || c == '_' || c == '-' || c == ':'
        }
}

/// An error code that can be logged as it stands.
pub open spec fn is_error_code(s: Seq<char>) -> bool {
    &&& s.len() > 0
    &&& byte_len(s) <= MAX_ATTRIBUTE_VALUE_BYTES
    &&& forall|i: int|
        0 <= i < s.len() ==> {
            let c = #[trigger] s[i];
            is_upper(c) || is_digit(c) || c == '_'
        }
}

/// The severity of a quality.
pub open spec fn severity_of(q: Quality) -> (LogSeverity, Seq<char>) {
    match q {
        Quality::Unsupported => (LogSeverity::Info, "INFO"@),
        Quality::Error => (LogSeverity::Error, "ERROR"@),
        _ => (LogSeverity::Warn, "WARN"@),
    }
}

/// A sequence number as a signed number.
pub open spec fn signed(n: u64) -> i64 {
    if n <= i64::MAX {
        n as i64
    } else {
        i64::MAX
    }
}

/// An attribute of a point that is logged: a known one with a value that is
/// neither empty nor too long.
pub open spec fn logged_attribute(a: (Seq<char>, Seq<char>)) -> Seq<(Seq<char>, Datum)> {
    if is_attribute(a.0) && a.1.len() > 0 && byte_len(a.1) <= MAX_ATTRIBUTE_VALUE_BYTES {
        seq![(a.0, Datum::Text(a.1))]
    } else {
        seq![]
    }
}

pub open spec fn logged_attributes() -> spec_fn((Seq<char>, Seq<char>)) -> Seq<
    (Seq<char>, Datum),
> {
    |a: (Seq<char>, Seq<char>)| logged_attribute(a)
}

/// The log record of an unavailable metric; none where the metric, its source,
/// its error code or the node cannot be logged.
pub open spec fn converted(e: Letter, p: Point<u64>) -> Option<Log> {
    if is_metric(p.name) && is_source(p.source) && is_safe_identifier(e.node.site)
        && is_safe_identifier(e.node.id) && is_safe_identifier(e.node.host_name)
        && is_safe_identifier(e.boot_id) && p.error_code is Some && is_error_code(
        p.error_code->0,
    ) {
        Some(
            Log {
                severity: severity_of(p.quality).0,
                severity_text: severity_of(p.quality).1,
                attributes: seq![
                    ("metric.name"@, Datum::Text(p.name)),
                    ("measurement.quality"@, Datum::Text(quality_text(p.quality))),
                    ("measurement.source"@, Datum::Text(p.source)),
                    ("error.code"@, Datum::Text(p.error_code->0)),
                    ("host.name"@, Datum::Text(e.node.host_name)),
                    ("host.id"@, Datum::Text(e.node.id)),
                    ("spark.site"@, Datum::Text(e.node.site)),
                    ("spark.node.id"@, Datum::Text(e.node.id)),
                    ("spark.signal.boot_id"@, Datum::Text(e.boot_id)),
                    ("spark.signal.sequence"@, Datum::Int(signed(e.sequence))),
                ] + flat(items_of::<String, Seq<char>>(p.attributes), logged_attributes()),
            },
        )
    } else {
        None
    }
}

/// The content of an optional log record.
pub open spec fn log_view(l: Option<UnavailableLog>) -> Option<Log> {
    match l {
        Some(x) => Some(x@),
        None => None,
    }
}

/// Whether a text can be logged as an identifier.
pub fn safe_identifier(value: &str) -> (r: bool)
    ensures
        r == is_safe_identifier(value@),
{
    if value.is_empty() || length_in_bytes(value) > MAX_ATTRIBUTE_VALUE_BYTES {
        return false;
    }
    let t = chars(value);
    let mut i: usize = 0;
    while i < t.len()
        invariant
            i <= t@.len(),
            t@ == value@,
            forall|j: int|
                0 <= j < i ==> {
                    let c = #[trigger] value@[j];
                    is_alphanumeric(c) || c == '.' || c == '_' || c == '-' || c == ':'
                },
        decreases t@.len() - i,
    {
        let c = t[i];
        if !(alphanumeric(c) || c == '.' || c == '_' || c == '-' || c == ':') {
            return false;
        }
        i += 1;
    }
    true
}

fn error_code_allowed(value: &str) -> (r: bool)
    ensures
        r == is_error_code(value@),
{
    if value.is_empty() || length_in_bytes(value) > MAX_ATTRIBUTE_VALUE_BYTES {
        return false;
    }
    let t = chars(value);
    let mut i: usize = 0;
    while i < t.len()
        invariant
            i <= t@.len(),
            t@ == value@,
            forall|j: int|
                0 <= j < i ==> {
                    let c = #[trigger] value@[j];
                    is_upper(c) || is_digit(c) || c == '_'
                },
        decreases t@.len() - i,
    {
        let c = t[i];
        if !(upper(c) || digit(c) || c == '_') {
            return false;
        }
        i += 1;
    }
    true
}

fn datum(list: &mut Vec<(String, LogValue)>, key: &str, value: LogValue)
    ensures
        data_view(final(list)@) == data_view(old(list)@).push((key@, value@)),
{
    let ghost before = list@;
    list.push((key.to_owned(), value));
    assert(data_view(list@) =~= data_view(before).push((key@, value@)));
}

fn text(list: &mut Vec<(String, LogValue)>, key: &str, value: &str)
    ensures
        data_view(final(list)@) == data_view(old(list)@).push((key@, Datum::Text(value@))),
{
    datum(list, key, LogValue::Text(value.to_owned()));
}

fn point_attributes(point: &MetricPoint<u64>, list: &mut Vec<(String, LogValue)>)
    ensures
        data_view(final(list)@) == data_view(old(list)@) + flat(
            items_of::<String, Seq<char>>(point@.attributes),
            logged_attributes(),
        ),
{
    let ghost start = data_view(list@);
    let ghost items = items_of::<String, Seq<char>>(point.attributes@);
    let n: usize = point.attributes.len();
    let mut i: usize = 0;
    assert(start + flat(items.take(0), logged_attributes()) =~= start);
    while i < n
        invariant
            i <= n == items.len(),
            items == items_of::<String, Seq<char>>(point.attributes@),
            data_view(list@) == start + flat(items.take(i as int), logged_attributes()),
        decreases n - i,
    {
        proof {
            lemma_flat(items, i as int, logged_attributes());
        }
        let key = point.attributes.key_at(i);
        let value = point.attributes.value_at(i);
        if attribute_name_allowed(key.as_str()) && !value.as_str().is_empty() && length_in_bytes(
            value.as_str(),
        ) <= MAX_ATTRIBUTE_VALUE_BYTES {
            text(list, key.as_str(), value.as_str());
        }
        i += 1;
    }
    assert(items.take(i as int) =~= items);
}

/// The log record of an unavailable metric.
pub fn convert(envelope: &Envelope, point: &MetricPoint<u64>) -> (r: Option<UnavailableLog>)
    ensures
        log_view(r) == converted(envelope@, point@),
{
    if !metric_name_allowed(point.name.as_str()) || !source_allowed(point.source.as_str())
        || !safe_identifier(envelope.node.site.as_str()) || !safe_identifier(
        envelope.node.id.as_str(),
    ) || !safe_identifier(envelope.node.host_name.as_str()) || !safe_identifier(
        envelope.boot_id.as_str(),
    ) {
        return None;
    }
    let code = match &point.error_code {
        Some(code) => code,
        None => {
            return None;
        },
    };
    if !error_code_allowed(code.as_str()) {
        return None;
    }
    let (severity, severity_text) = match point.quality {
        Quality::Unsupported => (LogSeverity::Info, "INFO"),
        Quality::Error => (LogSeverity::Error, "ERROR"),
        _ => (LogSeverity::Warn, "WARN"),
    };
    let sequence: i64 = if envelope.sequence <= 0x7fff_ffff_ffff_ffff {
        envelope.sequence as i64
    } else {
        i64::MAX
    };
    let mut list: Vec<(String, LogValue)> = Vec::new();
    assert(data_view(list@) =~= seq![]);
    text(&mut list, "metric.name", point.name.as_str());
    text(&mut list, "measurement.quality", quality_name(&point.quality));
    text(&mut list, "measurement.source", point.source.as_str());
    text(&mut list, "error.code", code.as_str());
    text(&mut list, "host.name", envelope.node.host_name.as_str());
    text(&mut list, "host.id", envelope.node.id.as_str());
    text(&mut list, "spark.site", envelope.node.site.as_str());
    text(&mut list, "spark.node.id", envelope.node.id.as_str());
    text(&mut list, "spark.signal.boot_id", envelope.boot_id.as_str());
    datum(&mut list, "spark.signal.sequence", LogValue::Int(sequence));
    point_attributes(point, &mut list);
    Some(UnavailableLog { severity, severity_text, attributes: list })
}

// --------------------------------------------------------------------------
// Emission
// --------------------------------------------------------------------------

/// The series known to be unavailable after an unavailable point.
pub open spec fn after_unavailable(known: Set<Series>, p: Point<u64>) -> Set<Series> {
    known.insert(series_of(p))
}

/// The series known to be unavailable after a point with a value.
pub open spec fn after_available(known: Set<Series>, p: Point<u64>) -> Set<Series> {
    known.remove(series_of(p))
}

/// The log record that an unavailable point gives: one until the series
/// recovers.
pub open spec fn log_for(known: Set<Series>, e: Letter, p: Point<u64>) -> Option<Log> {
    if known.contains(series_of(p)) {
        None
    } else {
        converted(e, p)
    }
}

/// Decides when the absence of a value is logged.
pub struct UnavailableLogEmitter {
    unavailable_capabilities: Group<PointKey>,
}

impl View for UnavailableLogEmitter {
    type V = Set<Series>;

    closed spec fn view(&self) -> Set<Series> {
        self.unavailable_capabilities@
    }
}

impl UnavailableLogEmitter {
    /// An emitter that knows of no unavailable series.
    pub fn new() -> (r: Self)
        ensures
            r@ == Set::<Series>::empty(),
    {
        UnavailableLogEmitter { unavailable_capabilities: Group::new() }
    }

    /// The log record that an unavailable point gives, if any.
    pub fn emit(&mut self, envelope: &Envelope, point: &MetricPoint<u64>) -> (r: Option<
        UnavailableLog,
    >)
        ensures
            log_view(r) == log_for(old(self)@, envelope@, point@),
            final(self)@ == after_unavailable(old(self)@, point@),
    {
        if !self.observe_unavailable(point) {
            return None;
        }
        convert(envelope, point)
    }

    /// Takes note of an unavailable point and tells whether its series was not
    /// known to be unavailable.
    pub fn observe_unavailable(&mut self, point: &MetricPoint<u64>) -> (r: bool)
        ensures
            r == !old(self)@.contains(series_of(point@)),
            final(self)@ == after_unavailable(old(self)@, point@),
    {
        self.unavailable_capabilities.insert(PointKey::of(point))
    }

    /// Takes note that a series has a value.
    pub fn observe_available(&mut self, point: &MetricPoint<u64>)
        ensures
            final(self)@ == after_available(old(self)@, point@),
    {
        self.unavailable_capabilities.remove(&PointKey::of(point));
    }
}

/// Once an unavailable series is logged, it is not logged again until it has
/// had a value; then it is.
pub proof fn law_repeats_are_suppressed_until_recovery(
    known: Set<Series>,
    e: Letter,
    p: Point<u64>,
    q: Point<u64>,
    between: Point<u64>,
)
    requires
        series_of(q) == series_of(p),
    ensures
        log_for(after_unavailable(known, p), e, q) is None,
        series_of(between) != series_of(p) ==> log_for(
            after_available(after_unavailable(known, p), between),
            e,
            q,
        ) is None,
        series_of(between) == series_of(p) ==> log_for(
            after_available(after_unavailable(known, p), between),
            e,
            q,
        ) == converted(e, q),
{
}

/// A log record names only known attributes besides those that every record
/// has.
pub proof fn law_unknown_attributes_are_not_logged(e: Letter, p: Point<u64>, i: int)
    requires
        converted(e, p) is Some,
        10 <= i < converted(e, p)->0.attributes.len(),
    ensures
        is_attribute(converted(e, p)->0.attributes[i].0),
{
    let items = items_of::<String, Seq<char>>(p.attributes);
    let known = |a: (Seq<char>, Datum)| is_attribute(a.0);
    assert forall|a: (Seq<char>, Seq<char>), j: int| 0 <= j < logged_attributes()(a).len() implies
        known(#[trigger] logged_attributes()(a)[j]) by {
        assert(logged_attributes()(a) == logged_attribute(a));
    }
    crate::rows::lemma_flat_all(items, logged_attributes(), known);
    let tail = flat(items, logged_attributes());
    assert(converted(e, p)->0.attributes[i] == tail[i - 10]);
    assert(known(tail[i - 10]));
}

} // verus!
