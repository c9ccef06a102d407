//! GPU points from the output of `nvidia-smi`, for hosts without NVML.

use crate::catalogue::is_metric;

use crate::schema::{
    emit, gauge_of, no_points, unavailable_of, views, MetricPoint, Number, Point, Quality, Value,
};
use crate::text::{
    decimal, float, is_float, lines, lines_of, split, split_of, texts, trim, trim_of, u64_text,
    Class,
};
use vstd::prelude::*;

verus! {

/// What running the query gave.
pub enum SmiOutput {
    /// The program could not be run.
    NotRun,
    /// The program failed.
    Failed,
    /// What the program wrote.
    Written(String),
}

/// The point of a queried field; a field that is not a number is unsupported.
pub open spec fn smi_point(name: Seq<char>, unit: Seq<char>, field: Seq<char>) -> Point<Number> {
    if is_float(field) {
        gauge_of(name, Number::Text(field), unit, Quality::Measured, "nvidia-smi"@)
    } else {
        unavailable_of(
            name,
            unit,
            Quality::Unsupported,
            "nvidia-smi"@,
            "NVSMI_NOT_SUPPORTED"@,
        )
    }
}

/// A point of the GPU with an identifier and an index.
pub open spec fn of_gpu(point: Point<Number>, id: Seq<char>, index: nat) -> Point<Number> {
    point.with("gpu.id"@, id).with("gpu.index"@, decimal(index))
}

/// The trimmed fields of a row.
pub open spec fn smi_fields(row: Seq<char>) -> Seq<Seq<char>> {
    split_of(row, Class::Only(',')).map_values(|f: Seq<char>| trim_of(f))
}

/// The points of a row. A row with other than seven fields has none.
pub open spec fn smi_row(row: Seq<char>, index: nat) -> Seq<Point<Number>> {
    let f = smi_fields(row);
    if f.len() != 7 {
        seq![]
    } else {
        let clock = "nvidia.gpu.clock.frequency"@;
        seq![
            of_gpu(smi_point("nvidia.gpu.utilization"@, "%"@, f[1]), f[0], index),
            of_gpu(smi_point("nvidia.gpu.memory_controller.utilization"@, "%"@, f[2]), f[0], index),
            of_gpu(smi_point("nvidia.gpu.temperature"@, "Cel"@, f[3]), f[0], index),
            of_gpu(smi_point("nvidia.gpu.power.draw"@, "W"@, f[4]), f[0], index),
            of_gpu(
                smi_point(clock, "MHz"@, f[5]).with("clock.domain"@, "graphics"@),
                f[0],
                index,
            ),
            of_gpu(smi_point(clock, "MHz"@, f[6]).with("clock.domain"@, "memory"@), f[0], index),
        ]
    }
}

/// The points of some rows, numbered from zero.
pub open spec fn smi_rows(rows: Seq<Seq<char>>) -> Seq<Point<Number>>
    decreases rows.len(),
{
    if rows.len() == 0 {
        seq![]
    } else {
        smi_rows(rows.drop_last()) + smi_row(rows.last(), (rows.len() - 1) as nat)
    }
}

/// The points that running the query gives.
pub open spec fn smi_points(output: SmiOutput) -> Seq<Point<Number>> {
    match output {
        SmiOutput::NotRun => seq![
            unavailable_of(
                "nvidia.gpu.utilization"@,
                "%"@,
                Quality::Unsupported,
                "nvml"@,
                "NVML_AND_NVSMI_UNAVAILABLE"@,
            ),
        ],
        SmiOutput::Failed => seq![
            unavailable_of(
                "nvidia.gpu.utilization"@,
                "%"@,
                Quality::Unsupported,
                "nvml"@,
                "NVSMI_QUERY_FAILED"@,
            ),
        ],
        SmiOutput::Written(raw) => smi_rows(lines_of(raw@)),
    }
}

/// The point of a queried field.
pub fn parse_smi_value(name: &str, unit: &str, field: &str) -> (r: MetricPoint<Value>)
    requires
        is_metric(name@),
    ensures
        r@ == smi_point(name@, unit@, field@),
{
    if float(field) {
        MetricPoint::gauge(
            name,
            Value::Text(field.to_owned()),
            unit,
            Quality::Measured,
            "nvidia-smi",
        )
    } else {
        MetricPoint::unavailable(
            name,
            unit,
            Quality::Unsupported,
            "nvidia-smi",
            "NVSMI_NOT_SUPPORTED",
        )
    }
}

/// Names the GPU that a point is about.
pub fn decorate(point: MetricPoint<Value>, id: &str, index: u64) -> (r: MetricPoint<Value>)
    ensures
        r@ == of_gpu(point@, id@, index as nat),
{
    let number = u64_text(index);
    point.with_attribute("gpu.id", id).with_attribute("gpu.index", number.as_str())
}

fn row_fields(row: &str) -> (r: Vec<String>)
    ensures
        texts(r@) == smi_fields(row@),
{
    let parts = split(row, Class::Only(','));
    let mut out: Vec<String> = Vec::new();
    let mut i: usize = 0;
    while i < parts.len()
        invariant
            i <= parts@.len(),
            out@.len() == i,
            forall|j: int| 0 <= j < i ==> (#[trigger] out@[j])@ == trim_of(texts(parts@)[j]),
        decreases parts@.len() - i,
    {
        out.push(trim(parts[i].as_str()));
        i += 1;
    }
    assert(texts(out@) =~= smi_fields(row@));
    out
}

fn parse_row(row: &str, index: u64, points: &mut Vec<MetricPoint<Value>>)
    ensures
        views(final(points)@) == views(old(points)@) + smi_row(row@, index as nat),
{
    let f = row_fields(row);
    if f.len() != 7 {
        return;
    }
    let ghost t = texts(f@);
    assert(t[0] == f@[0]@ && t[1] == f@[1]@ && t[2] == f@[2]@ && t[3] == f@[3]@);
    assert(t[4] == f@[4]@ && t[5] == f@[5]@ && t[6] == f@[6]@);
    let p = points;
    let id = f[0].as_str();
    let clock = "nvidia.gpu.clock.frequency";
    let point = parse_smi_value("nvidia.gpu.utilization", "%", f[1].as_str());
    emit(p, decorate(point, id, index));
    let point = parse_smi_value("nvidia.gpu.memory_controller.utilization", "%", f[2].as_str());
    emit(p, decorate(point, id, index));
    let point = parse_smi_value("nvidia.gpu.temperature", "Cel", f[3].as_str());
    emit(p, decorate(point, id, index));
    let point = parse_smi_value("nvidia.gpu.power.draw", "W", f[4].as_str());
    emit(p, decorate(point, id, index));
    let point = parse_smi_value(clock, "MHz", f[5].as_str());
    emit(p, decorate(point.with_attribute("clock.domain", "graphics"), id, index));
    let point = parse_smi_value(clock, "MHz", f[6].as_str());
    emit(p, decorate(point.with_attribute("clock.domain", "memory"), id, index));
}

/// Parses the rows that the query writes, one per GPU.
pub fn parse_smi_csv(raw: &str) -> (r: Vec<MetricPoint<Value>>)
    ensures
        views(r@) == smi_rows(lines_of(raw@)),
{
    let rows = lines(raw);
    let ghost all = texts(rows@);
    let mut points: Vec<MetricPoint<Value>> = no_points();
    let mut i: usize = 0;
    while i < rows.len()
        invariant
            i <= rows@.len(),
            all == texts(rows@),
            views(points@) == smi_rows(all.take(i as int)),
        decreases rows@.len() - i,
    {
        assert(all.take(i + 1).drop_last() =~= all.take(i as int));
        parse_row(rows[i].as_str(), i as u64, &mut points);
        i += 1;
    }
    assert(all.take(i as int) =~= all);
    points
}

/// The points of a host without NVML.
pub fn collect_smi_fallback(output: &SmiOutput) -> (r: Vec<MetricPoint<Value>>)
    ensures
        views(r@) == smi_points(*output),
{
    let code = match output {
        SmiOutput::NotRun => "NVML_AND_NVSMI_UNAVAILABLE",
        SmiOutput::Failed => "NVSMI_QUERY_FAILED",
        SmiOutput::Written(raw) => {
            return parse_smi_csv(raw.as_str());
        },
    };
    let mut points: Vec<MetricPoint<Value>> = no_points();
    emit(
        &mut points,
        MetricPoint::unavailable(
            "nvidia.gpu.utilization",
            "%",
            Quality::Unsupported,
            "nvml",
            code,
        ),
    );
    points
}

} // verus!
