//! What holds of everything that is recorded and logged.

use super::record::{
    after_record, domain_of, is_recorded, level_of, members_view, quality_text, LogLevel, Recorded,
};
use super::unavailable_log::{
    converted, is_error_code, is_safe_identifier, logged_attribute, logged_attributes, Datum,
    LogSeverity,
};
use crate::catalogue::{is_attribute, is_metric, is_source};
use crate::rows::{flat, lemma_flat_members};
use crate::schema::{InstrumentKind, Letter, Point, Quality, Severity};
use crate::series::Series;
use crate::table::{lemma_lists, lists};
use crate::text::{byte_len, has_prefix};
use vstd::prelude::*;

verus! {

// --------------------------------------------------------------------------
// Measurements
// --------------------------------------------------------------------------

/// A point with a value is recorded with its own instrument, name, unit and
/// number: a counter delta is added to a counter, a gauge sets a gauge and an
/// observation goes to a histogram. Only a counter delta that is negative or no
/// number is left out.
pub proof fn law_measurements_are_those_of_their_points(
    r: Recorded,
    unavailable: Set<Series>,
    e: Letter,
    p: Point<u64>,
)
    requires
        is_recorded(r, unavailable, e, p),
        p.value is Some,
    ensures
        r is Value || r is Nothing,
        r is Value <==> (p.instrument == InstrumentKind::CounterDelta ==> p.value->0
            <= 0x7ff0_0000_0000_0000 || p.value->0 == 0x8000_0000_0000_0000),
        r matches Recorded::Value(m) ==> {
            &&& m.value == p.value->0
            &&& m.name@ == p.name
            &&& m.unit@ == p.unit
            &&& p.instrument == InstrumentKind::CounterDelta <==> m.instrument
                == InstrumentKind::CounterDelta
            &&& p.instrument == InstrumentKind::Gauge <==> m.instrument == InstrumentKind::Gauge
            &&& p.instrument == InstrumentKind::HistogramObservation <==> m.instrument
                == InstrumentKind::HistogramObservation
        },
{
}

/// The name of a quality, and no two of them alike.
pub proof fn law_qualities_have_names()
    ensures
        quality_text(Quality::Measured) == "measured"@,
        quality_text(Quality::Derived) == "derived"@,
        quality_text(Quality::Estimated) == "estimated"@,
        quality_text(Quality::Unsupported) == "unsupported"@,
        quality_text(Quality::Error) == "error"@,
        quality_text(Quality::Stale) == "stale"@,
{
}

/// A measurement names the host, the node, the boot, the quality and the source
/// of its point, and then the attributes of the point, each once and with its
/// value.
pub proof fn law_measurements_name_their_origin(
    r: Recorded,
    unavailable: Set<Series>,
    e: Letter,
    p: Point<u64>,
    listing: Seq<(Seq<char>, Seq<char>)>,
)
    requires
        is_recorded(r, unavailable, e, p),
        r is Value,
        lists::<String, Seq<char>>(listing, p.attributes),
    ensures
        r matches Recorded::Value(m) && {
            let a = members_view(m.attributes@);
            &&& a.len() == 7 + listing.len()
            &&& a[0] == ("host.name"@, e.node.host_name)
            &&& a[1] == ("host.id"@, e.node.id)
            &&& a[2] == ("spark.site"@, e.node.site)
            &&& a[3] == ("spark.node.id"@, e.node.id)
            &&& a[4] == ("spark.signal.boot_id"@, e.boot_id)
            &&& a[5] == ("measurement.quality"@, quality_text(p.quality))
            &&& a[6] == ("measurement.source"@, p.source)
            &&& forall|i: int| 0 <= i < listing.len() ==> a[7 + i] == #[trigger] listing[i]
        },
{
    lemma_lists::<String, Seq<char>>(listing, p.attributes);
}

/// What is unavailable is logged once: after a point without a value, the next
/// one of the same source, metric and attributes gives nothing, until one of
/// them has had a value.
pub proof fn law_absences_are_logged_once(
    r: Recorded,
    unavailable: Set<Series>,
    e: Letter,
    p: Point<u64>,
    q: Point<u64>,
    v: Point<u64>,
)
    requires
        p.value is None,
        q.value is None,
        v.value is Some,
        q.source == p.source && q.name == p.name && q.attributes == p.attributes,
    ensures
        is_recorded(r, after_record(unavailable, p), e, q) ==> r is Nothing,
        v.source == p.source && v.name == p.name && v.attributes == p.attributes && is_recorded(
            r,
            after_record(after_record(unavailable, p), v),
            e,
            q,
        ) ==> (r is Log <==> converted(e, q) is Some) && !(r is Value),
        v.source != p.source || v.name != p.name ==> (is_recorded(
            r,
            after_record(after_record(unavailable, p), v),
            e,
            q,
        ) ==> r is Nothing),
{
}

/// What is recorded of one series does not depend on points of others.
pub proof fn law_series_are_recorded_apart(
    r: Recorded,
    unavailable: Set<Series>,
    e: Letter,
    p: Point<u64>,
    other: Point<u64>,
)
    requires
        other.source != p.source || other.name != p.name,
    ensures
        is_recorded(r, after_record(unavailable, other), e, p) == is_recorded(
            r,
            unavailable,
            e,
            p,
        ),
{
}

/// The first absence of a series is logged, with the record that its point
/// converts to.
pub proof fn law_the_first_absence_is_logged(r: Recorded, e: Letter, p: Point<u64>)
    requires
        is_recorded(r, Set::empty(), e, p),
        p.value is None,
    ensures
        r is Log <==> converted(e, p) is Some,
        r is Nothing <==> converted(e, p) is None,
        r matches Recorded::Log(l) ==> Some(l@) == converted(e, p),
{
}

// --------------------------------------------------------------------------
// Logs
// --------------------------------------------------------------------------

/// A log record is made where the metric, its source, its error code and the
/// node can be logged, and only there.
pub proof fn law_what_can_be_logged_is(e: Letter, p: Point<u64>)
    ensures
        converted(e, p) is Some <==> {
            &&& is_metric(p.name)
            &&& is_source(p.source)
            &&& is_safe_identifier(e.node.site)
            &&& is_safe_identifier(e.node.id)
            &&& is_safe_identifier(e.node.host_name)
            &&& is_safe_identifier(e.boot_id)
            &&& p.error_code matches Some(code) && is_error_code(code)
        },
{
}

/// A text can be logged as an identifier, or as an error code, where it is not
/// empty, not longer than 256 bytes and made of the characters of one.
pub proof fn law_identifiers_are_plain(s: Seq<char>)
    ensures
        is_safe_identifier(s) <==> 0 < s.len() && byte_len(s) <= 256 && forall|i: int|
            0 <= i < s.len() ==> ('a' <= #[trigger] s[i] <= 'z' || 'A' <= s[i] <= 'Z' || '0' <= s[i]
                <= '9' || s[i] == '.' || s[i] == '_' || s[i] == '-' || s[i] == ':'),
        is_error_code(s) <==> 0 < s.len() && byte_len(s) <= 256 && forall|i: int|
            0 <= i < s.len() ==> ('A' <= #[trigger] s[i] <= 'Z' || '0' <= s[i] <= '9' || s[i]
                == '_'),
{
}

/// A log record says what is missing, why, and where: an error is logged as an
/// error, what is unsupported as information and the rest as a warning.
pub proof fn law_logs_say_what_is_missing(e: Letter, p: Point<u64>)
    requires
        converted(e, p) is Some,
    ensures
        ({
            let log = converted(e, p)->0;
            let a = log.attributes;
            &&& a.len() >= 10
            &&& log.severity == LogSeverity::Error <==> p.quality == Quality::Error
            &&& log.severity == LogSeverity::Info <==> p.quality == Quality::Unsupported
            &&& log.severity == LogSeverity::Error ==> log.severity_text == "ERROR"@
            &&& log.severity == LogSeverity::Info ==> log.severity_text == "INFO"@
            &&& log.severity == LogSeverity::Warn ==> log.severity_text == "WARN"@
            &&& a[0] == ("metric.name"@, Datum::Text(p.name))
            &&& a[1] == ("measurement.quality"@, Datum::Text(quality_text(p.quality)))
            &&& a[2] == ("measurement.source"@, Datum::Text(p.source))
            &&& a[3] == ("error.code"@, Datum::Text(p.error_code->0))
            &&& a[4] == ("host.name"@, Datum::Text(e.node.host_name))
            &&& a[5] == ("host.id"@, Datum::Text(e.node.id))
            &&& a[6] == ("spark.site"@, Datum::Text(e.node.site))
            &&& a[7] == ("spark.node.id"@, Datum::Text(e.node.id))
            &&& a[8] == ("spark.signal.boot_id"@, Datum::Text(e.boot_id))
            &&& a[9].0 == "spark.signal.sequence"@
            &&& e.sequence <= 0x7fff_ffff_ffff_ffff ==> a[9].1 == Datum::Int(e.sequence as i64)
            &&& e.sequence > 0x7fff_ffff_ffff_ffff ==> a[9].1 == Datum::Int(0x7fff_ffff_ffff_ffff)
        }),
{
}

/// A log record carries an attribute of its point, with its value, exactly if
/// the attribute is a known one and the value neither empty nor longer than 256
/// bytes.
pub proof fn law_logs_keep_known_attributes(
    e: Letter,
    p: Point<u64>,
    listing: Seq<(Seq<char>, Seq<char>)>,
    key: Seq<char>,
    value: Seq<char>,
)
    requires
        converted(e, p) is Some,
        lists::<String, Seq<char>>(listing, p.attributes),
    ensures
        converted(e, p)->0.attributes.skip(10).contains((key, Datum::Text(value))) <==> {
            &&& p.attributes.contains_key(key) && p.attributes[key] == value
            &&& is_attribute(key) && value.len() > 0 && byte_len(value) <= 256
        },
{
    lemma_lists::<String, Seq<char>>(listing, p.attributes);
    let f = logged_attributes();
    let tail = flat(listing, f);
    let b = (key, Datum::Text(value));
    assert(converted(e, p)->0.attributes.skip(10) =~= tail);
    lemma_flat_members(listing, f, b);
    if tail.contains(b) {
        let i = choose|i: int| 0 <= i < listing.len() && f(#[trigger] listing[i]).contains(b);
        assert(f(listing[i]) == logged_attribute(listing[i]));
    }
    if p.attributes.contains_key(key) && p.attributes[key] == value && is_attribute(key)
        && value.len() > 0 && byte_len(value) <= 256 {
        let i = choose|i: int| 0 <= i < listing.len() && (#[trigger] listing[i]).0 == key;
        assert(f(listing[i]) == logged_attribute(listing[i]));
        assert(logged_attribute(listing[i])[0] == b);
        assert(f(listing[i]).contains(b));
    }
}

/// Health events are logged at a level that tells their severity, and under the
/// part of the system that their code starts with.
pub proof fn law_health_events_keep_their_severity(s: Severity, code: Seq<char>)
    ensures
        level_of(s) == LogLevel::Info <==> s == Severity::Info,
        level_of(s) == LogLevel::Warn <==> s == Severity::Warning,
        level_of(s) == LogLevel::Error <==> s == Severity::Error || s == Severity::Critical,
        has_prefix(code, "NVIDIA_"@) ==> domain_of(code) == "nvidia"@,
        has_prefix(code, "SERVICE_"@) ==> domain_of(code) == "service"@,
        has_prefix(code, "NATS_"@) ==> domain_of(code) == "nats"@,
        !has_prefix(code, "NVIDIA_"@) && !has_prefix(code, "SERVICE_"@) && !has_prefix(
            code,
            "NATS_"@,
        ) ==> domain_of(code) == "agent"@,
{
    reveal_strlit("NVIDIA_");
    reveal_strlit("SERVICE_");
    reveal_strlit("NATS_");
    if has_prefix(code, "NVIDIA_"@) {
        assert(code[0] == code.take(7)[0] == 'N');
        assert(code[1] == code.take(7)[1] == 'V');
    }
    if has_prefix(code, "SERVICE_"@) {
        assert(code[0] == code.take(8)[0] == 'S');
    }
    if has_prefix(code, "NATS_"@) {
        assert(code[0] == code.take(5)[0] == 'N');
        assert(code[1] == code.take(5)[1] == 'A');
    }
}

} // verus!
