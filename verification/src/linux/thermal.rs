//! Temperature points.

use super::parse::{trimmed, trimmed_of};
use super::points::{gauge, reading};
use crate::doubles::{greater, greater_of};
use crate::rows::{flat, lemma_flat};
use crate::schema::{emit, views, MetricPoint, Number, Point, Quality, Value};
use crate::text::{
    concat, optional, strip_prefix, strip_prefix_of, strip_suffix, strip_suffix_of,
};
use vstd::prelude::*;

verus! {

/// A file of a sensor chip, with what belongs to it where it is the input of a
/// temperature channel.
pub struct ChannelFile {
    /// The name of the file.
    pub filename: String,
    /// The bits of the number in it, in thousandths of a degree.
    pub milli: Option<u64>,
    /// The content of the label file of the channel.
    pub label: Option<String>,
    /// The upper limit of the channel in degrees, written as a number.
    pub max: Option<String>,
    /// The critical limit of the channel in degrees, written as a number.
    pub crit: Option<String>,
}

/// A directory entry of `/sys/class/hwmon`.
pub struct SensorChip {
    /// The name of the entry.
    pub directory: String,
    /// The content of its `name` file.
    pub name: Option<String>,
    /// Its files; none where it cannot be read.
    pub files: Vec<ChannelFile>,
}

/// The number of the temperature channel whose input file this is.
pub open spec fn channel_of(filename: Seq<char>) -> Option<Seq<char>> {
    match strip_prefix_of(filename, "temp"@) {
        Some(rest) => strip_suffix_of(rest, "_input"@),
        None => None,
    }
}

/// The number of the temperature channel whose input file this is.
pub fn temperature_channel(filename: &str) -> (r: Option<String>)
    ensures
        optional(r) == channel_of(filename@),
{
    match strip_prefix(filename, "temp") {
        Some(rest) => strip_suffix(rest.as_str(), "_input"),
        None => None,
    }
}

/// The temperature that a file gives, if it is the input of a channel.
pub open spec fn temperature_of(f: ChannelFile) -> Option<u64> {
    if channel_of(f.filename@) is Some {
        f.milli
    } else {
        None
    }
}

/// The name of a sensor chip, or of its directory.
pub open spec fn chip_name(chip: SensorChip) -> Seq<char> {
    match trimmed_of(optional(chip.name)) {
        Some(name) => name,
        None => chip.directory@,
    }
}

/// The label of a channel, or its number.
pub open spec fn label_of(f: ChannelFile) -> Seq<char> {
    match trimmed_of(optional(f.label)) {
        Some(label) => label,
        None => "temp"@ + channel_of(f.filename@)->0,
    }
}

/// A point with an attribute that may be absent.
pub open spec fn with_optional(
    point: Point<Number>,
    key: Seq<char>,
    value: Option<Seq<char>>,
) -> Point<Number> {
    match value {
        Some(v) => point.with(key, v),
        None => point,
    }
}

/// The points of a file: one for the input of a channel.
pub open spec fn channel_points(chip: Seq<char>, f: ChannelFile) -> Seq<Point<Number>> {
    match temperature_of(f) {
        Some(milli) => seq![
            with_optional(
                with_optional(
                    reading(
                        "system.temperature"@,
                        Number::Per { bits: milli, divisor: 1000 },
                        "Cel"@,
                        Quality::Measured,
                    ).with("sensor"@, chip).with("channel"@, label_of(f)),
                    "temperature.limit.max_celsius"@,
                    optional(f.max),
                ),
                "temperature.limit.critical_celsius"@,
                optional(f.crit),
            ),
        ],
        None => seq![],
    }
}

pub open spec fn each_channel(chip: Seq<char>) -> spec_fn(ChannelFile) -> Seq<Point<Number>> {
    |f: ChannelFile| channel_points(chip, f)
}

/// The points of a sensor chip.
pub open spec fn chip_points(chip: SensorChip) -> Seq<Point<Number>> {
    flat(chip.files@, each_channel(chip_name(chip)))
}

pub open spec fn each_chip() -> spec_fn(SensorChip) -> Seq<Point<Number>> {
    |chip: SensorChip| chip_points(chip)
}

/// The greater of a temperature and the greatest one so far.
pub open spec fn higher(greatest: Option<u64>, milli: Option<u64>) -> Option<u64> {
    match (greatest, milli) {
        (g, None) => g,
        (None, Some(m)) => Some(m),
        (Some(g), Some(m)) => Some(greater_of(g, m)),
    }
}

/// The greatest temperature of some files and of what came before them.
pub open spec fn greatest_in(start: Option<u64>, files: Seq<ChannelFile>) -> Option<u64>
    decreases files.len(),
{
    if files.len() == 0 {
        start
    } else {
        higher(greatest_in(start, files.drop_last()), temperature_of(files.last()))
    }
}

/// The greatest temperature of some sensor chips.
pub open spec fn greatest(chips: Seq<SensorChip>) -> Option<u64>
    decreases chips.len(),
{
    if chips.len() == 0 {
        None
    } else {
        greatest_in(greatest(chips.drop_last()), chips.last().files@)
    }
}

/// The points of the sensor chips and, behind them, the greatest temperature.
pub open spec fn temperature_points(chips: Seq<SensorChip>) -> Seq<Point<Number>> {
    flat(chips, each_chip()) + (match greatest(chips) {
        Some(milli) => seq![
            reading(
                "system.temperature"@,
                Number::Per { bits: milli, divisor: 1000 },
                "Cel"@,
                Quality::Derived,
            ).with("aggregation"@, "maximum"@),
        ],
        None => seq![],
    })
}

fn attach_optional(point: MetricPoint<Value>, key: &str, value: &Option<String>) -> (r: MetricPoint<
    Value,
>)
    ensures
        r@ == with_optional(point@, key@, optional(*value)),
{
    match value {
        Some(v) => point.with_attribute(key, v.as_str()),
        None => point,
    }
}

fn collect_channel(
    chip: &str,
    f: &ChannelFile,
    maximum: Option<u64>,
    points: &mut Vec<MetricPoint<Value>>,
) -> (r: Option<u64>)
    ensures
        views(final(points)@) == views(old(points)@) + channel_points(chip@, *f),
        r == higher(maximum, temperature_of(*f)),
{
    let id = match temperature_channel(f.filename.as_str()) {
        Some(id) => id,
        None => {
            return maximum;
        },
    };
    let milli = match f.milli {
        Some(milli) => milli,
        None => {
            return maximum;
        },
    };
    let label = match trimmed(&f.label) {
        Some(label) => label,
        None => concat("temp", id.as_str()),
    };
    let point = gauge(
        "system.temperature",
        Value::Per { bits: milli, divisor: 1000 },
        "Cel",
        Quality::Measured,
    ).with_attribute("sensor", chip).with_attribute("channel", label.as_str());
    let point = attach_optional(point, "temperature.limit.max_celsius", &f.max);
    let point = attach_optional(point, "temperature.limit.critical_celsius", &f.crit);
    emit(points, point);
    match maximum {
        Some(g) => Some(greater(g, milli)),
        None => Some(milli),
    }
}

fn collect_chip(
    chip: &SensorChip,
    start: Option<u64>,
    points: &mut Vec<MetricPoint<Value>>,
) -> (r: Option<u64>)
    ensures
        views(final(points)@) == views(old(points)@) + chip_points(*chip),
        r == greatest_in(start, chip.files@),
{
    let name = match trimmed(&chip.name) {
        Some(name) => name,
        None => chip.directory.clone(),
    };
    let ghost first = views(points@);
    let files = &chip.files;
    let mut maximum = start;
    let mut i: usize = 0;
    while i < files.len()
        invariant
            i <= files@.len(),
            views(points@) == first + flat(files@.take(i as int), each_channel(name@)),
            maximum == greatest_in(start, files@.take(i as int)),
        decreases files@.len() - i,
    {
        proof {
            lemma_flat(files@, i as int, each_channel(name@));
            assert(files@.take(i + 1).drop_last() =~= files@.take(i as int));
        }
        maximum = collect_channel(name.as_str(), &files[i], maximum, points);
        i += 1;
    }
    assert(files@.take(i as int) =~= files@);
    maximum
}

/// Adds the points of the sensor chips and of the greatest temperature.
pub fn collect_temperatures(chips: &Vec<SensorChip>, points: &mut Vec<MetricPoint<Value>>)
    ensures
        views(final(points)@) == views(old(points)@) + temperature_points(chips@),
{
    let ghost first = views(points@);
    let mut maximum: Option<u64> = None;
    let mut i: usize = 0;
    while i < chips.len()
        invariant
            i <= chips@.len(),
            views(points@) == first + flat(chips@.take(i as int), each_chip()),
            maximum == greatest(chips@.take(i as int)),
        decreases chips@.len() - i,
    {
        proof {
            lemma_flat(chips@, i as int, each_chip());
            assert(chips@.take(i + 1).drop_last() =~= chips@.take(i as int));
        }
        maximum = collect_chip(&chips[i], maximum, points);
        i += 1;
    }
    assert(chips@.take(i as int) =~= chips@);
    match maximum {
        Some(milli) => {
            emit(
                points,
                gauge(
                    "system.temperature",
                    Value::Per { bits: milli, divisor: 1000 },
                    "Cel",
                    Quality::Derived,
                ).with_attribute("aggregation", "maximum"),
            );
        },
        None => {},
    }
}

} // verus!
