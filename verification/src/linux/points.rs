//! The points of the host collectors.

use crate::arith::{minus, subtract};
use crate::catalogue::is_metric;
use crate::schema::{
    delta_of, gauge_of, unavailable_of, MetricPoint, Number, Point, Quality, Value,
};
use crate::text::{has_prefix, starts_with};
use vstd::prelude::*;

verus! {

/// Where a measured value of the metric `name` comes from.
pub open spec fn source_of(name: Seq<char>) -> Seq<char> {
    if has_prefix(name, "system.temperature"@) || has_prefix(name, "system.disk"@) || has_prefix(
        name,
        "system.network.link"@,
    ) {
        "sysfs"@
    } else {
        "procfs"@
    }
}

/// A measured or derived value.
pub open spec fn reading(
    name: Seq<char>,
    value: Number,
    unit: Seq<char>,
    quality: Quality,
) -> Point<Number> {
    gauge_of(name, value, unit, quality, source_of(name))
}

/// A value that could not be had.
pub open spec fn missing(
    name: Seq<char>,
    unit: Seq<char>,
    quality: Quality,
    code: Seq<char>,
) -> Point<Number> {
    unavailable_of(name, unit, quality, "procfs"@, code)
}

/// How far a counter has gone up since `earlier`. A counter that has gone down
/// counts as unchanged; one that is seen for the first time has no value yet.
pub open spec fn change(
    name: Seq<char>,
    unit: Seq<char>,
    source: Seq<char>,
    value: u64,
    earlier: Option<u64>,
) -> Point<Number> {
    match earlier {
        None => missing(name, unit, Quality::Stale, "BASELINE_INITIALIZING"@),
        Some(old_value) => delta_of(name, Number::Count(minus(value, old_value)), unit, source),
    }
}

/// How far a counter that may be missing has gone up since `earlier`.
pub open spec fn change_of(
    name: Seq<char>,
    unit: Seq<char>,
    source: Seq<char>,
    value: Option<u64>,
    earlier: Option<u64>,
    code: Seq<char>,
) -> Point<Number> {
    match value {
        Some(v) => change(name, unit, source, v, earlier),
        None => missing(name, unit, Quality::Error, code),
    }
}

pub fn gauge(name: &str, value: Value, unit: &str, quality: Quality) -> (r: MetricPoint<Value>)
    requires
        is_metric(name@),
    ensures
        r@ == reading(name@, value@, unit@, quality),
{
    let source = if starts_with(name, "system.temperature") || starts_with(name, "system.disk")
        || starts_with(name, "system.network.link") {
        "sysfs"
    } else {
        "procfs"
    };
    MetricPoint::gauge(name, value, unit, quality, source)
}

pub fn unavailable(name: &str, unit: &str, quality: Quality, code: &str) -> (r: MetricPoint<Value>)
    requires
        is_metric(name@),
    ensures
        r@ == missing(name@, unit@, quality, code@),
{
    MetricPoint::unavailable(name, unit, quality, "procfs", code)
}

pub fn counter(name: &str, unit: &str, source: &str, value: u64, earlier: Option<u64>) -> (r:
    MetricPoint<Value>)
    requires
        is_metric(name@),
    ensures
        r@ == change(name@, unit@, source@, value, earlier),
{
    match earlier {
        None => unavailable(name, unit, Quality::Stale, "BASELINE_INITIALIZING"),
        Some(old_value) => MetricPoint::counter_delta(
            name,
            Value::Count(subtract(value, old_value)),
            unit,
            source,
        ),
    }
}

pub fn optional_counter(
    name: &str,
    unit: &str,
    source: &str,
    value: Option<u64>,
    earlier: Option<u64>,
    code: &str,
) -> (r: MetricPoint<Value>)
    requires
        is_metric(name@),
    ensures
        r@ == change_of(name@, unit@, source@, value, earlier, code@),
{
    match value {
        Some(v) => counter(name, unit, source, v, earlier),
        None => unavailable(name, unit, Quality::Error, code),
    }
}

/// 1 for true, 0 for false.
pub open spec fn flag_of(b: bool) -> Number {
    Number::Count(
        if b {
            1
        } else {
            0
        },
    )
}

pub fn flag(b: bool) -> (r: Value)
    ensures
        r@ == flag_of(b),
{
    Value::Count(
        if b {
            1
        } else {
            0
        },
    )
}

} // verus!
