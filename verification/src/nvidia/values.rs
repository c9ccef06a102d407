//! What the points of the GPUs say.

use super::capabilities::{
    capabilities_refusal, capability_refusal, disabled_notice, lifecycle_key_of, listing_text,
    notices_text, profile_refusal, quoted_form, quoted_list, quoted_set, queried, resolution, same_lifecycle, selector_refusal, selects, sourced,
    unsupported_notice, CapabilityPolicy, Hardware, HardwareProfile, HardwareSelector, Knowledge,
    Notice, ProfileCapability, ProfileSource, Refusal, Ruling,
};
use super::collector::{
    after_collection, after_device, after_devices, cuda_text, device_points, each_device, gpu_id,
    metric_of, names_gb10, nvidia_points, nvml_inventory, process_point, process_points,
    property_of, quotient, reading_points, remainder, state_name, state_points, state_value, wanted,
    with_gpu, with_gpus, DeviceReadings, GpuIdentity, Gpus, NvmlFault, NvmlInventory, NvmlState,
    PerformanceState, ProcessMemory, ProcessReading, Properties, Query, Reading, StateReading,
};
use super::smi::{smi_fields, smi_row, smi_rows, SmiOutput};
use super::xid::{
    event_point, event_points, gpus_with_event, quiet_point, quiet_points, unwatched_point,
    unwatched_points, watched_after, xid_points, Watched, XidMessage,
};
use crate::catalogue::is_metric;
use crate::linux::values::tells;
use crate::rows::{flat, lemma_flat_members};
use crate::schema::{
    rule_attributes_valid, rule_reason_valid, InstrumentKind, Number, Point, Quality,
};
use crate::series::Series;
use crate::table::elements_of;
use crate::text::laws::{free_of, law_texts_split_at_the_first};
use crate::text::{
    decimal, is_alphanumeric, is_float, lines_of, lowercase, signed_decimal, split_of, trim_of,
    uppercase, Class,
};
use vstd::prelude::*;

verus! {

// --------------------------------------------------------------------------
// Devices
// --------------------------------------------------------------------------

/// NVML is asked for a metric with some attributes.
pub open spec fn asked(
    k: Knowledge,
    metric: Seq<char>,
    attributes: Seq<(Seq<char>, Seq<char>)>,
) -> bool {
    queried(k, Series { source: "nvml"@, metric, attributes })
}

/// A point names a GPU by its identifier and its index.
pub open spec fn of_device(p: Point<Number>, d: DeviceReadings) -> bool {
    &&& p.attributes.contains_key("gpu.index"@) && p.attributes["gpu.index"@] == decimal(
        d.index as nat,
    )
    &&& p.attributes.contains_key("gpu.id"@)
    &&& d.uuid matches Some(uuid) ==> p.attributes["gpu.id"@] == uuid@
    &&& d.uuid is None ==> p.attributes["gpu.id"@] == "index-"@ + decimal(d.index as nat)
}

/// The attributes of a clock.
pub open spec fn domain(name: Seq<char>) -> Seq<(Seq<char>, Seq<char>)> {
    seq![("clock.domain"@, name)]
}

/// A point has the attributes that set its property apart.
pub open spec fn in_domain(
    p: Point<Number>,
    attributes: Seq<(Seq<char>, Seq<char>)>,
) -> bool {
    attributes.len() > 0 ==> p.attributes.contains_key(attributes[0].0)
        && p.attributes[attributes[0].0] == attributes[0].1
}

/// A number is told of a GPU.
pub open spec fn is_told(
    points: Seq<Point<Number>>,
    d: DeviceReadings,
    name: Seq<char>,
    attributes: Seq<(Seq<char>, Seq<char>)>,
    unit: Seq<char>,
    value: Number,
) -> bool {
    exists|p: Point<Number>| #[trigger]
        points.contains(p) && tells(p, name, unit, value) && of_device(p, d) && in_domain(
            p,
            attributes,
        )
}

proof fn lemma_attribute_names()
    ensures
        "gpu.id"@ != "gpu.index"@,
        "clock.domain"@ != "gpu.id"@,
        "clock.domain"@ != "gpu.index"@,
        "process.pid"@ != "gpu.id"@,
        "process.pid"@ != "gpu.index"@,
        "nvidia.performance_state"@ != "gpu.id"@,
        "nvidia.performance_state"@ != "gpu.index"@,
        "graphics"@ != "memory"@,
{
    reveal_strlit("gpu.id");
    reveal_strlit("gpu.index");
    reveal_strlit("clock.domain");
    reveal_strlit("process.pid");
    reveal_strlit("nvidia.performance_state");
    reveal_strlit("graphics");
    reveal_strlit("memory");
    assert("gpu.id"@.len() == 6 && "gpu.index"@.len() == 9 && "clock.domain"@.len() == 12);
    assert("process.pid"@.len() == 11 && "nvidia.performance_state"@.len() == 24);
    assert("graphics"@.len() == 8 && "memory"@.len() == 6);
}

/// Only the two clocks share a metric.
proof fn lemma_metrics_differ(q: Query, r: Query)
    requires
        metric_of(q) == metric_of(r),
    ensures
        q == r || (q is GraphicsClock || q is MemoryClock) && (r is GraphicsClock
            || r is MemoryClock),
{
    reveal_strlit("nvidia.gpu.utilization");
    reveal_strlit("nvidia.gpu.memory_controller.utilization");
    reveal_strlit("nvidia.gpu.temperature");
    reveal_strlit("nvidia.gpu.power.draw");
    reveal_strlit("nvidia.gpu.clock.frequency");
    reveal_strlit("nvidia.gpu.throttle");
    reveal_strlit("nvidia.gpu.performance_state");
    reveal_strlit("nvidia.gpu.encoder.utilization");
    reveal_strlit("nvidia.gpu.decoder.utilization");
    reveal_strlit("nvidia.gpu.process.memory.allocation");
    assert("nvidia.gpu.utilization"@.len() == 22);
    assert("nvidia.gpu.memory_controller.utilization"@.len() == 40);
    assert("nvidia.gpu.temperature"@.len() == 22);
    assert("nvidia.gpu.power.draw"@.len() == 21);
    assert("nvidia.gpu.clock.frequency"@.len() == 26);
    assert("nvidia.gpu.throttle"@.len() == 19);
    assert("nvidia.gpu.performance_state"@.len() == 28);
    assert("nvidia.gpu.encoder.utilization"@.len() == 30);
    assert("nvidia.gpu.decoder.utilization"@.len() == 30);
    assert("nvidia.gpu.process.memory.allocation"@.len() == 36);
    assert("nvidia.gpu.utilization"@[11] == 'u' && "nvidia.gpu.temperature"@[11] == 't');
    assert("nvidia.gpu.encoder.utilization"@[11] == 'e');
    assert("nvidia.gpu.decoder.utilization"@[11] == 'd');
}

proof fn lemma_joined(a: Seq<Point<Number>>, b: Seq<Point<Number>>, p: Point<Number>)
    ensures
        (a + b).contains(p) <==> a.contains(p) || b.contains(p),
{
    if a.contains(p) {
        let j = choose|j: int| 0 <= j < a.len() && a[j] == p;
        assert((a + b)[j] == p);
    }
    if b.contains(p) {
        let j = choose|j: int| 0 <= j < b.len() && b[j] == p;
        assert((a + b)[a.len() + j] == p);
    }
    if (a + b).contains(p) {
        let j = choose|j: int| 0 <= j < (a + b).len() && (a + b)[j] == p;
        if j < a.len() {
            assert(a[j] == p);
        } else {
            assert(b[j - a.len()] == p);
        }
    }
}

/// A point of a GPU is one of one of its readings.
proof fn lemma_parts(k: Knowledge, processes: bool, d: DeviceReadings, p: Point<Number>)
    ensures
        ({
            let id = gpu_id(d);
            let i = d.index;
            device_points(k, processes, d).contains(p) <==> {
                ||| reading_points(k, Query::Utilization, d.utilization, id, i).contains(p)
                ||| reading_points(k, Query::MemoryController, d.memory_controller, id, i).contains(
                    p,
                )
                ||| reading_points(k, Query::Temperature, d.temperature, id, i).contains(p)
                ||| reading_points(k, Query::Power, d.power, id, i).contains(p)
                ||| reading_points(k, Query::GraphicsClock, d.graphics_clock, id, i).contains(p)
                ||| reading_points(k, Query::MemoryClock, d.memory_clock, id, i).contains(p)
                ||| reading_points(k, Query::Throttle, d.throttle, id, i).contains(p)
                ||| state_points(k, d.performance_state, id, i).contains(p)
                ||| reading_points(k, Query::Encoder, d.encoder, id, i).contains(p)
                ||| reading_points(k, Query::Decoder, d.decoder, id, i).contains(p)
                ||| processes && process_points(k, d.processes, id, i).contains(p)
            }
        }),
{
    let id = gpu_id(d);
    let i = d.index;
    let a0 = reading_points(k, Query::Utilization, d.utilization, id, i);
    let b1 = reading_points(k, Query::MemoryController, d.memory_controller, id, i);
    let c2 = reading_points(k, Query::Temperature, d.temperature, id, i);
    let d3 = reading_points(k, Query::Power, d.power, id, i);
    let e4 = reading_points(k, Query::GraphicsClock, d.graphics_clock, id, i);
    let f5 = reading_points(k, Query::MemoryClock, d.memory_clock, id, i);
    let g6 = reading_points(k, Query::Throttle, d.throttle, id, i);
    let h7 = state_points(k, d.performance_state, id, i);
    let i8 = reading_points(k, Query::Encoder, d.encoder, id, i);
    let j9 = reading_points(k, Query::Decoder, d.decoder, id, i);
    let last = if processes {
        process_points(k, d.processes, id, i)
    } else {
        seq![]
    };
    lemma_joined(a0, b1, p);
    lemma_joined(a0 + b1, c2, p);
    lemma_joined(a0 + b1 + c2, d3, p);
    lemma_joined(a0 + b1 + c2 + d3, e4, p);
    lemma_joined(a0 + b1 + c2 + d3 + e4, f5, p);
    lemma_joined(a0 + b1 + c2 + d3 + e4 + f5, g6, p);
    lemma_joined(a0 + b1 + c2 + d3 + e4 + f5 + g6, h7, p);
    lemma_joined(a0 + b1 + c2 + d3 + e4 + f5 + g6 + h7, i8, p);
    lemma_joined(a0 + b1 + c2 + d3 + e4 + f5 + g6 + h7 + i8, j9, p);
    lemma_joined(a0 + b1 + c2 + d3 + e4 + f5 + g6 + h7 + i8 + j9, last, p);
}

/// A reading gives points of its own metric alone, and its number where it has
/// one.
proof fn lemma_own(
    k: Knowledge,
    q: Query,
    r: Reading,
    id: Seq<char>,
    index: u32,
    p: Point<Number>,
)
    requires
        reading_points(k, q, r, id, index).contains(p),
        q !is PerformanceState && q !is Processes,
    ensures
        p.name == metric_of(q),
        q is GraphicsClock ==> p.attributes.contains_key("clock.domain"@)
            && p.attributes["clock.domain"@] == "graphics"@,
        q is MemoryClock ==> p.attributes.contains_key("clock.domain"@)
            && p.attributes["clock.domain"@] == "memory"@,
        p.value is Some ==> (r matches Reading::Number(n) && p.value == Some(
            if q is Power {
                Number::Ratio { part: n, whole: 1000 }
            } else {
                Number::Count(n)
            },
        )),
{
    reveal(reading_points);
    lemma_attribute_names();
}

proof fn lemma_told(k: Knowledge, q: Query, r: Reading, id: Seq<char>, index: u32)
    requires
        queried(k, property_of(q)),
        r is Number,
    ensures
        ({
            let points = reading_points(k, q, r, id, index);
            let p = points[0];
            &&& points.contains(p)
            &&& p.name == metric_of(q)
            &&& p.unit == super::collector::unit_of(q)
            &&& p.instrument == InstrumentKind::Gauge
            &&& p.value == Some(
                if q is Power {
                    Number::Ratio { part: r->Number_0, whole: 1000 }
                } else {
                    Number::Count(r->Number_0)
                },
            )
            &&& p.attributes.contains_key("gpu.id"@) && p.attributes["gpu.id"@] == id
            &&& p.attributes.contains_key("gpu.index"@) && p.attributes["gpu.index"@] == decimal(
                index as nat,
            )
            &&& q is GraphicsClock ==> p.attributes.contains_key("clock.domain"@)
                && p.attributes["clock.domain"@] == "graphics"@
            &&& q is MemoryClock ==> p.attributes.contains_key("clock.domain"@)
                && p.attributes["clock.domain"@] == "memory"@
        }),
{
    reveal(reading_points);
    lemma_attribute_names();
    let points = reading_points(k, q, r, id, index);
    assert(points.len() == 1);
    assert(points.contains(points[0]));
}

/// Every number that NVML gives for a property that it is asked for is told, as
/// the metric of that property, in its unit and of its GPU; power in watts, and
/// clocks under their domain.
pub proof fn law_gpu_readings_are_told(k: Knowledge, processes: bool, d: DeviceReadings)
    ensures
        d.utilization matches Reading::Number(n) ==> (asked(
            k,
            "nvidia.gpu.utilization"@,
            seq![],
        ) ==> is_told(
            device_points(k, processes, d),
            d,
            "nvidia.gpu.utilization"@,
            seq![],
            "%"@,
            Number::Count(n),
        )),
        d.memory_controller matches Reading::Number(n) ==> (asked(
            k,
            "nvidia.gpu.memory_controller.utilization"@,
            seq![],
        ) ==> is_told(
            device_points(k, processes, d),
            d,
            "nvidia.gpu.memory_controller.utilization"@,
            seq![],
            "%"@,
            Number::Count(n),
        )),
        d.temperature matches Reading::Number(n) ==> (asked(
            k,
            "nvidia.gpu.temperature"@,
            seq![],
        ) ==> is_told(
            device_points(k, processes, d),
            d,
            "nvidia.gpu.temperature"@,
            seq![],
            "Cel"@,
            Number::Count(n),
        )),
        d.power matches Reading::Number(n) ==> (asked(
            k,
            "nvidia.gpu.power.draw"@,
            seq![],
        ) ==> is_told(
            device_points(k, processes, d),
            d,
            "nvidia.gpu.power.draw"@,
            seq![],
            "W"@,
            Number::Ratio { part: n, whole: 1000 },
        )),
        d.graphics_clock matches Reading::Number(n) ==> (asked(
            k,
            "nvidia.gpu.clock.frequency"@,
            domain("graphics"@),
        ) ==> is_told(
            device_points(k, processes, d),
            d,
            "nvidia.gpu.clock.frequency"@,
            domain("graphics"@),
            "MHz"@,
            Number::Count(n),
        )),
        d.memory_clock matches Reading::Number(n) ==> (asked(
            k,
            "nvidia.gpu.clock.frequency"@,
            domain("memory"@),
        ) ==> is_told(
            device_points(k, processes, d),
            d,
            "nvidia.gpu.clock.frequency"@,
            domain("memory"@),
            "MHz"@,
            Number::Count(n),
        )),
        d.throttle matches Reading::Number(n) ==> (asked(
            k,
            "nvidia.gpu.throttle"@,
            seq![],
        ) ==> is_told(
            device_points(k, processes, d),
            d,
            "nvidia.gpu.throttle"@,
            seq![],
            "1"@,
            Number::Count(n),
        )),
        d.encoder matches Reading::Number(n) ==> (asked(
            k,
            "nvidia.gpu.encoder.utilization"@,
            seq![],
        ) ==> is_told(
            device_points(k, processes, d),
            d,
            "nvidia.gpu.encoder.utilization"@,
            seq![],
            "%"@,
            Number::Count(n),
        )),
        d.decoder matches Reading::Number(n) ==> (asked(
            k,
            "nvidia.gpu.decoder.utilization"@,
            seq![],
        ) ==> is_told(
            device_points(k, processes, d),
            d,
            "nvidia.gpu.decoder.utilization"@,
            seq![],
            "%"@,
            Number::Count(n),
        )),
{
    let id = gpu_id(d);
    let i = d.index;
    if d.utilization is Number && queried(k, property_of(Query::Utilization)) {
        lemma_told(k, Query::Utilization, d.utilization, id, i);
        let p = reading_points(k, Query::Utilization, d.utilization, id, i)[0];
        lemma_parts(k, processes, d, p);
        assert(device_points(k, processes, d).contains(p));
    }
    if d.memory_controller is Number && queried(k, property_of(Query::MemoryController)) {
        lemma_told(k, Query::MemoryController, d.memory_controller, id, i);
        let p = reading_points(k, Query::MemoryController, d.memory_controller, id, i)[0];
        lemma_parts(k, processes, d, p);
        assert(device_points(k, processes, d).contains(p));
    }
    if d.temperature is Number && queried(k, property_of(Query::Temperature)) {
        lemma_told(k, Query::Temperature, d.temperature, id, i);
        let p = reading_points(k, Query::Temperature, d.temperature, id, i)[0];
        lemma_parts(k, processes, d, p);
        assert(device_points(k, processes, d).contains(p));
    }
    if d.power is Number && queried(k, property_of(Query::Power)) {
        lemma_told(k, Query::Power, d.power, id, i);
        let p = reading_points(k, Query::Power, d.power, id, i)[0];
        lemma_parts(k, processes, d, p);
        assert(device_points(k, processes, d).contains(p));
    }
    if d.graphics_clock is Number && queried(k, property_of(Query::GraphicsClock)) {
        lemma_told(k, Query::GraphicsClock, d.graphics_clock, id, i);
        let p = reading_points(k, Query::GraphicsClock, d.graphics_clock, id, i)[0];
        lemma_parts(k, processes, d, p);
        assert(device_points(k, processes, d).contains(p));
    }
    if d.memory_clock is Number && queried(k, property_of(Query::MemoryClock)) {
        lemma_told(k, Query::MemoryClock, d.memory_clock, id, i);
        let p = reading_points(k, Query::MemoryClock, d.memory_clock, id, i)[0];
        lemma_parts(k, processes, d, p);
        assert(device_points(k, processes, d).contains(p));
    }
    if d.throttle is Number && queried(k, property_of(Query::Throttle)) {
        lemma_told(k, Query::Throttle, d.throttle, id, i);
        let p = reading_points(k, Query::Throttle, d.throttle, id, i)[0];
        lemma_parts(k, processes, d, p);
        assert(device_points(k, processes, d).contains(p));
    }
    if d.encoder is Number && queried(k, property_of(Query::Encoder)) {
        lemma_told(k, Query::Encoder, d.encoder, id, i);
        let p = reading_points(k, Query::Encoder, d.encoder, id, i)[0];
        lemma_parts(k, processes, d, p);
        assert(device_points(k, processes, d).contains(p));
    }
    if d.decoder is Number && queried(k, property_of(Query::Decoder)) {
        lemma_told(k, Query::Decoder, d.decoder, id, i);
        let p = reading_points(k, Query::Decoder, d.decoder, id, i)[0];
        lemma_parts(k, processes, d, p);
        assert(device_points(k, processes, d).contains(p));
    }
}

/// A number that a GPU point tells of a metric is the reading of that metric
/// and of no other.
pub proof fn law_gpu_numbers_are_their_readings(
    k: Knowledge,
    processes: bool,
    d: DeviceReadings,
    p: Point<Number>,
)
    requires
        device_points(k, processes, d).contains(p),
        p.value is Some,
    ensures
        p.name == "nvidia.gpu.utilization"@ ==> (
        d.utilization matches Reading::Number(n) && p.value == Some(Number::Count(n))),
        p.name == "nvidia.gpu.memory_controller.utilization"@ ==> (
        d.memory_controller matches Reading::Number(n) && p.value == Some(Number::Count(n))),
        p.name == "nvidia.gpu.temperature"@ ==> (
        d.temperature matches Reading::Number(n) && p.value == Some(Number::Count(n))),
        p.name == "nvidia.gpu.power.draw"@ ==> (
        d.power matches Reading::Number(n) && p.value == Some(
            Number::Ratio { part: n, whole: 1000 },
        )),
        p.name == "nvidia.gpu.clock.frequency"@ && in_domain(p, domain("graphics"@)) ==> (
        d.graphics_clock matches Reading::Number(n) && p.value == Some(Number::Count(n))),
        p.name == "nvidia.gpu.clock.frequency"@ && in_domain(p, domain("memory"@)) ==> (
        d.memory_clock matches Reading::Number(n) && p.value == Some(Number::Count(n))),
        p.name == "nvidia.gpu.throttle"@ ==> (
        d.throttle matches Reading::Number(n) && p.value == Some(Number::Count(n))),
        p.name == "nvidia.gpu.encoder.utilization"@ ==> (
        d.encoder matches Reading::Number(n) && p.value == Some(Number::Count(n))),
        p.name == "nvidia.gpu.decoder.utilization"@ ==> (
        d.decoder matches Reading::Number(n) && p.value == Some(Number::Count(n))),
        p.name == "nvidia.gpu.performance_state"@ ==> (
        d.performance_state matches StateReading::State(state) && p.value == Some(
            Number::Level(state_value(state)),
        ) && p.attributes.contains_key("nvidia.performance_state"@)
            && p.attributes["nvidia.performance_state"@] == state_name(state)),
        p.name == "nvidia.gpu.process.memory.allocation"@ ==> processes && (
        d.processes matches ProcessReading::Processes(ps) && exists|j: int|
            0 <= j < ps@.len() && (#[trigger] ps@[j]).used is Some && p.value == Some(
                Number::Count(ps@[j].used->0),
            ) && p.attributes.contains_key("process.pid"@) && p.attributes["process.pid"@]
                == decimal(ps@[j].pid as nat)),
{
    let id = gpu_id(d);
    let i = d.index;
    lemma_parts(k, processes, d, p);
    lemma_attribute_names();
    assert forall|q: Query, r: Query| metric_of(q) == metric_of(r) implies q == r || (
    q is GraphicsClock || q is MemoryClock) && (r is GraphicsClock || r is MemoryClock) by {
        lemma_metrics_differ(q, r);
    }
    if reading_points(k, Query::Utilization, d.utilization, id, i).contains(p) {
        lemma_own(k, Query::Utilization, d.utilization, id, i, p);
    }
    if reading_points(k, Query::MemoryController, d.memory_controller, id, i).contains(p) {
        lemma_own(k, Query::MemoryController, d.memory_controller, id, i, p);
    }
    if reading_points(k, Query::Temperature, d.temperature, id, i).contains(p) {
        lemma_own(k, Query::Temperature, d.temperature, id, i, p);
    }
    if reading_points(k, Query::Power, d.power, id, i).contains(p) {
        lemma_own(k, Query::Power, d.power, id, i, p);
    }
    if reading_points(k, Query::GraphicsClock, d.graphics_clock, id, i).contains(p) {
        lemma_own(k, Query::GraphicsClock, d.graphics_clock, id, i, p);
    }
    if reading_points(k, Query::MemoryClock, d.memory_clock, id, i).contains(p) {
        lemma_own(k, Query::MemoryClock, d.memory_clock, id, i, p);
    }
    if reading_points(k, Query::Throttle, d.throttle, id, i).contains(p) {
        lemma_own(k, Query::Throttle, d.throttle, id, i, p);
    }
    if reading_points(k, Query::Encoder, d.encoder, id, i).contains(p) {
        lemma_own(k, Query::Encoder, d.encoder, id, i, p);
    }
    if reading_points(k, Query::Decoder, d.decoder, id, i).contains(p) {
        lemma_own(k, Query::Decoder, d.decoder, id, i, p);
    }
    if state_points(k, d.performance_state, id, i).contains(p) {
        reveal(state_points);
        assert(p.name == metric_of(Query::PerformanceState));
    }
    if processes && process_points(k, d.processes, id, i).contains(p) {
        reveal(process_points);
        let points = process_points(k, d.processes, id, i);
        let j = choose|j: int| 0 <= j < points.len() && points[j] == p;
        match d.processes {
            ProcessReading::Processes(ps) => {
                if queried(k, property_of(Query::Processes)) {
                    assert(points[j] == process_point(ps@[j], id, i));
                    assert(ps@[j].used is Some);
                }
            },
            _ => {},
        }
        assert(p.name == metric_of(Query::Processes));
    }
    assert(metric_of(Query::Utilization) == "nvidia.gpu.utilization"@);
    assert(metric_of(Query::MemoryController) == "nvidia.gpu.memory_controller.utilization"@);
    assert(metric_of(Query::Temperature) == "nvidia.gpu.temperature"@);
    assert(metric_of(Query::Power) == "nvidia.gpu.power.draw"@);
    assert(metric_of(Query::GraphicsClock) == "nvidia.gpu.clock.frequency"@);
    assert(metric_of(Query::Throttle) == "nvidia.gpu.throttle"@);
    assert(metric_of(Query::PerformanceState) == "nvidia.gpu.performance_state"@);
    assert(metric_of(Query::Encoder) == "nvidia.gpu.encoder.utilization"@);
    assert(metric_of(Query::Decoder) == "nvidia.gpu.decoder.utilization"@);
    assert(metric_of(Query::Processes) == "nvidia.gpu.process.memory.allocation"@);
}

/// A performance state is told by its number, from 0 for the fastest, and by
/// its name; one that is not known is -1.
pub proof fn law_performance_states_have_numbers()
    ensures
        state_value(PerformanceState::Zero) == 0,
        state_name(PerformanceState::Zero) == "Zero"@,
        state_value(PerformanceState::One) == 1,
        state_name(PerformanceState::One) == "One"@,
        state_value(PerformanceState::Two) == 2,
        state_name(PerformanceState::Two) == "Two"@,
        state_value(PerformanceState::Three) == 3,
        state_name(PerformanceState::Three) == "Three"@,
        state_value(PerformanceState::Four) == 4,
        state_name(PerformanceState::Four) == "Four"@,
        state_value(PerformanceState::Five) == 5,
        state_name(PerformanceState::Five) == "Five"@,
        state_value(PerformanceState::Six) == 6,
        state_name(PerformanceState::Six) == "Six"@,
        state_value(PerformanceState::Seven) == 7,
        state_name(PerformanceState::Seven) == "Seven"@,
        state_value(PerformanceState::Eight) == 8,
        state_name(PerformanceState::Eight) == "Eight"@,
        state_value(PerformanceState::Nine) == 9,
        state_name(PerformanceState::Nine) == "Nine"@,
        state_value(PerformanceState::Ten) == 10,
        state_name(PerformanceState::Ten) == "Ten"@,
        state_value(PerformanceState::Eleven) == 11,
        state_name(PerformanceState::Eleven) == "Eleven"@,
        state_value(PerformanceState::Twelve) == 12,
        state_name(PerformanceState::Twelve) == "Twelve"@,
        state_value(PerformanceState::Thirteen) == 13,
        state_name(PerformanceState::Thirteen) == "Thirteen"@,
        state_value(PerformanceState::Fourteen) == 14,
        state_name(PerformanceState::Fourteen) == "Fourteen"@,
        state_value(PerformanceState::Fifteen) == 15,
        state_name(PerformanceState::Fifteen) == "Fifteen"@,
        state_value(PerformanceState::Unknown) == -1,
        state_name(PerformanceState::Unknown) == "Unknown"@,
{
}

/// The memory of each process is told under its number, where it is known.
pub proof fn law_processes_tell_their_memory(p: ProcessMemory, id: Seq<char>, index: u32)
    ensures
        ({
            let point = process_point(p, id, index);
            &&& point.name == "nvidia.gpu.process.memory.allocation"@ && point.unit == "By"@
            &&& p.used matches Some(bytes) ==> point.value == Some(Number::Count(bytes))
            &&& p.used is None ==> point.value is None
            &&& point.attributes.contains_key("process.pid"@) && point.attributes["process.pid"@]
                == decimal(p.pid as nat)
            &&& point.attributes.contains_key("gpu.id"@) && point.attributes["gpu.id"@] == id
            &&& point.attributes.contains_key("gpu.index"@) && point.attributes["gpu.index"@]
                == decimal(index as nat)
        }),
{
    lemma_attribute_names();
}

/// The points of a host with NVML are those of each of its GPUs, in their order,
/// and then the events.
pub proof fn law_gpus_follow_each_other(
    k: Knowledge,
    processes: bool,
    w: Watched,
    devices: Vec<DeviceReadings>,
    messages: Vec<XidMessage>,
    ds: Seq<DeviceReadings>,
    d: DeviceReadings,
)
    ensures
        nvidia_points(k, processes, w, NvmlState::Devices { devices, messages }) == flat(
            devices@,
            each_device(k, processes),
        ) + xid_points(w, messages@),
        flat(ds.push(d), each_device(k, processes)) == flat(ds, each_device(k, processes))
            + device_points(k, processes, d),
        flat(Seq::empty(), each_device(k, processes)) == Seq::<Point<Number>>::empty(),
{
    assert(ds.push(d).drop_last() =~= ds);
}

// --------------------------------------------------------------------------
// The stand-in
// --------------------------------------------------------------------------

/// A field is told of a GPU: what it writes, or nothing where that is no number.
pub open spec fn is_field(
    p: Point<Number>,
    name: Seq<char>,
    attributes: Seq<(Seq<char>, Seq<char>)>,
    unit: Seq<char>,
    field: Seq<char>,
    id: Seq<char>,
    index: nat,
) -> bool {
    &&& p.name == name && p.unit == unit && in_domain(p, attributes)
    &&& is_float(field) ==> p.value == Some(Number::Text(field)) && p.quality == Quality::Measured
    &&& !is_float(field) ==> p.value is None && p.quality == Quality::Unsupported && p.error_code
        == Some("NVSMI_NOT_SUPPORTED"@)
    &&& p.source == "nvidia-smi"@
    &&& p.attributes.contains_key("gpu.id"@) && p.attributes["gpu.id"@] == id
    &&& p.attributes.contains_key("gpu.index"@) && p.attributes["gpu.index"@] == decimal(index)
}

/// A row of the stand-in gives one point per field behind the identifier, each
/// of its own metric: what the field writes, or nothing where that is no
/// number.
pub proof fn law_rows_tell_their_fields(row: Seq<char>, index: nat)
    requires
        smi_fields(row).len() == 7,
    ensures
        ({
            let f = smi_fields(row);
            let points = smi_row(row, index);
            &&& points.len() == 6
            &&& is_field(
                points[0],
                "nvidia.gpu.utilization"@,
                seq![],
                "%"@,
                f[1],
                f[0],
                index,
            )
            &&& is_field(
                points[1],
                "nvidia.gpu.memory_controller.utilization"@,
                seq![],
                "%"@,
                f[2],
                f[0],
                index,
            )
            &&& is_field(
                points[2],
                "nvidia.gpu.temperature"@,
                seq![],
                "Cel"@,
                f[3],
                f[0],
                index,
            )
            &&& is_field(
                points[3],
                "nvidia.gpu.power.draw"@,
                seq![],
                "W"@,
                f[4],
                f[0],
                index,
            )
            &&& is_field(
                points[4],
                "nvidia.gpu.clock.frequency"@,
                domain("graphics"@),
                "MHz"@,
                f[5],
                f[0],
                index,
            )
            &&& is_field(
                points[5],
                "nvidia.gpu.clock.frequency"@,
                domain("memory"@),
                "MHz"@,
                f[6],
                f[0],
                index,
            )
        }),
{
    lemma_attribute_names();
}

/// The rows of the stand-in are numbered from zero, in their order; a row with
/// other than seven fields gives nothing.
pub proof fn law_rows_are_numbered(rows: Seq<Seq<char>>, row: Seq<char>, index: nat)
    ensures
        smi_rows(rows.push(row)) == smi_rows(rows) + smi_row(row, rows.len()),
        smi_rows(Seq::empty()) == Seq::<Point<Number>>::empty(),
        smi_fields(row).len() != 7 ==> smi_row(row, index) == Seq::<Point<Number>>::empty(),
{
    assert(rows.push(row).drop_last() =~= rows);
}

// --------------------------------------------------------------------------
// Events
// --------------------------------------------------------------------------

/// Each critical event of a GPU counts once, with its code; a GPU that is
/// watched and had none counts none, and one that cannot be watched has no
/// number.
pub proof fn law_events_are_counted(m: XidMessage, uuid: Seq<char>, with_event: Set<Seq<char>>)
    ensures
        m matches XidMessage::Event { uuid: u, code } ==> event_point(m).len() == 1 && {
            let p = event_point(m)[0];
            &&& p.name == "nvidia.gpu.xid.count"@ && p.instrument == InstrumentKind::CounterDelta
            &&& p.value == Some(Number::Count(1))
            &&& p.attributes.contains_key("gpu.id"@) && p.attributes["gpu.id"@] == u@
            &&& p.attributes.contains_key("nvidia.xid.code"@) && p.attributes["nvidia.xid.code"@]
                == code@
        },
        m !is Event ==> event_point(m).len() == 0,
        with_event.contains(uuid) ==> quiet_point(uuid, with_event).len() == 0,
        !with_event.contains(uuid) ==> quiet_point(uuid, with_event).len() == 1 && {
            let p = quiet_point(uuid, with_event)[0];
            &&& p.name == "nvidia.gpu.xid.count"@ && p.instrument == InstrumentKind::CounterDelta
            &&& p.value == Some(Number::Count(0))
            &&& p.attributes.contains_key("gpu.id"@) && p.attributes["gpu.id"@] == uuid
        },
        unwatched_point(uuid).len() == 1 && {
            let p = unwatched_point(uuid)[0];
            &&& p.name == "nvidia.gpu.xid.count"@ && p.value is None
            &&& p.quality == Quality::Unsupported
            &&& p.attributes.contains_key("gpu.id"@) && p.attributes["gpu.id"@] == uuid
        },
{
    reveal_strlit("gpu.id");
    reveal_strlit("nvidia.xid.code");
    assert("gpu.id"@.len() == 6 && "nvidia.xid.code"@.len() == 15);
}

/// A GPU is watched from the message that says so on, and cannot be watched
/// from the one that says that; a GPU has an event where a message brings one.
pub proof fn law_messages_are_remembered(w: Watched, ms: Seq<XidMessage>, m: XidMessage)
    ensures
        ({
            let v = watched_after(w, ms);
            let n = watched_after(w, ms.push(m));
            &&& m matches XidMessage::Ready { uuid } ==> n.ready == v.ready.insert(uuid@)
                && n.unsupported == v.unsupported
            &&& m matches XidMessage::Unsupported { uuid } ==> n.unsupported
                == v.unsupported.insert(uuid@) && n.ready == v.ready
            &&& m is Event ==> n == v
            &&& m matches XidMessage::Event { uuid, .. } ==> gpus_with_event(ms.push(m))
                == gpus_with_event(ms).insert(uuid@)
            &&& m !is Event ==> gpus_with_event(ms.push(m)) == gpus_with_event(ms)
        }),
        watched_after(w, Seq::empty()) == w,
        gpus_with_event(Seq::empty()) == Set::<Seq<char>>::empty(),
{
    assert(ms.push(m).drop_last() =~= ms);
}

// --------------------------------------------------------------------------
// Capabilities
// --------------------------------------------------------------------------

/// What a rule disables is not queried, what it enables always, and the rest
/// until it is known to be unsupported.
pub proof fn law_policies_are_followed(k: Knowledge, p: Series)
    ensures
        k.rules.contains_key(p) && k.rules[p].policy == CapabilityPolicy::Disabled ==> !queried(
            k,
            p,
        ),
        k.rules.contains_key(p) && k.rules[p].policy == CapabilityPolicy::Enabled ==> queried(k, p),
        !k.rules.contains_key(p) || k.rules[p].policy == CapabilityPolicy::Auto ==> queried(k, p)
            == !k.unsupported.contains(p),
{
}

/// A selector matches hardware that has all that it names: the product as it
/// stands, and the device number whatever the case of its letters.
pub proof fn law_selectors_match_what_they_name(s: HardwareSelector, h: Hardware)
    ensures
        selects(s, h) <==> (s.gpu_product matches Some(p) ==> h.products.contains(p@)) && (
        s.pci_device_id matches Some(i) ==> h.pci_ids.contains(lowercase(i@))),
        selector_refusal(s) is None <==> (s.gpu_product is Some || s.pci_device_id is Some) && (
        s.gpu_product matches Some(p) ==> p@.len() > 0) && (s.pci_device_id matches Some(i)
            ==> i@.len() > 0),
{
}

/// A capability is accepted exactly if it names a known metric of NVML, known
/// attributes and a reason.
pub proof fn law_capabilities_are_checked(c: ProfileCapability)
    ensures
        capability_refusal(c) is None <==> is_metric(c.metric@) && c.source@ == "nvml"@
            && rule_attributes_valid(c.attributes@) && rule_reason_valid(c.reason@),
        !is_metric(c.metric@) ==> capability_refusal(c) == Some(
            Refusal::UnknownMetric { metric: c.metric@ },
        ),
{
}

/// What turned out to be unsupported for one hardware and driver is forgotten
/// for another.
pub proof fn law_lifecycles_are_told_apart(a: Hardware, b: Hardware)
    ensures
        same_lifecycle(a, b) ==> a.products == b.products && a.pci_ids == b.pci_ids,
        a.products != b.products || a.pci_ids != b.pci_ids ==> !same_lifecycle(a, b),
        a.driver is Some && b.driver is Some && a.driver != b.driver ==> !same_lifecycle(a, b),
        a == b ==> same_lifecycle(a, b),
{
}

/// The key of a lifecycle names the products, the device numbers and the driver.
pub proof fn law_lifecycle_keys_name_their_hardware(h: Hardware)
    ensures
        h.driver matches Some(version) ==> lifecycle_key_of(h) == "products="@ + quoted_set(
            h.products,
        ) + ";pci="@ + quoted_set(h.pci_ids) + ";driver="@ + version,
        h.driver is None ==> lifecycle_key_of(h) == "products="@ + quoted_set(h.products)
            + ";pci="@ + quoted_set(h.pci_ids) + ";driver="@ + ""@,
{
}

/// The elements of a set are quoted in their order, with commas between them and
/// braces around them.
pub proof fn law_sets_are_quoted(s: Set<Seq<char>>, all: Seq<Seq<char>>, last: Seq<char>)
    ensures
        elements_of::<String>(s) == all.push(last) && all.len() > 0 ==> quoted_set(s) == "{"@ + (
        quoted_list(all) + ", "@ + quoted_form(last)) + "}"@,
        quoted_list(seq![last]) == quoted_form(last),
        quoted_list(Seq::empty()) == ""@,
{
    assert(all.push(last).drop_last() =~= all);
}

/// A notice tells its property, its state and the reason under its number.
pub proof fn law_notices_are_numbered(ns: Seq<Notice>, n: Notice)
    ensures
        ({
            let m = notices_text(ns.push(n));
            let prefix = "spark.capability."@ + decimal(ns.len());
            &&& m.contains_key(prefix + ".source"@) && m[prefix + ".source"@] == n.property.source
            &&& m.contains_key(prefix + ".metric"@) && m[prefix + ".metric"@] == n.property.metric
            &&& m.contains_key(prefix + ".attributes"@) && m[prefix + ".attributes"@]
                == listing_text(n.property.attributes)
            &&& m.contains_key(prefix + ".state"@) && m[prefix + ".state"@] == n.state
            &&& m.contains_key(prefix + ".reason"@) && m[prefix + ".reason"@] == n.reason
        }),
{
    assert(ns.push(n).drop_last() =~= ns);
    reveal_strlit(".source");
    reveal_strlit(".metric");
    reveal_strlit(".state");
    reveal_strlit(".reason");
    reveal_strlit(".attributes");
    let prefix = "spark.capability."@ + decimal(ns.len());
    assert((prefix + ".source"@).len() == prefix.len() + 7);
    assert((prefix + ".metric"@).len() == prefix.len() + 7);
    assert((prefix + ".state"@).len() == prefix.len() + 6);
    assert((prefix + ".reason"@).len() == prefix.len() + 7);
    assert((prefix + ".attributes"@).len() == prefix.len() + 11);
    assert((prefix + ".source"@)[prefix.len() as int + 1] == 's');
    assert((prefix + ".metric"@)[prefix.len() as int + 1] == 'm');
    assert((prefix + ".reason"@)[prefix.len() as int + 1] == 'r');
}

/// A property that a rule disables is noted with the reason of the rule, one that
/// turned out to be unsupported with that; what a rule enables or leaves open is
/// not noted.
pub proof fn law_properties_that_are_not_queried_are_noted(k: Series, r: Ruling)
    ensures
        r.policy == CapabilityPolicy::Disabled ==> disabled_notice((k, r)) == seq![
            Notice { property: k, state: "disabled"@, reason: r.reason },
        ],
        r.policy != CapabilityPolicy::Disabled ==> disabled_notice((k, r)).len() == 0,
        unsupported_notice(k) == seq![
            Notice { property: k, state: "unsupported"@, reason: "NVML_NOTSUPPORTED"@ },
        ],
{
}

// --------------------------------------------------------------------------
// Inventory
// --------------------------------------------------------------------------

/// A GPU is listed with its name and its identifier under its index; one that
/// is named a GB10 has unified memory with a bandwidth of 273 gigabytes per
/// second.
pub proof fn law_gpus_are_listed(m: Properties, g: GpuIdentity)
    ensures
        ({
            let n = with_gpu(m, g);
            let prefix = "nvidia.gpu."@ + decimal(g.index as nat);
            &&& g.name matches Some(name) ==> n.contains_key(prefix + ".name"@) && n[prefix
                + ".name"@] == name@
            &&& g.uuid matches Some(uuid) ==> n.contains_key(prefix + ".uuid"@) && n[prefix
                + ".uuid"@] == uuid@
            &&& g.name matches Some(name) ==> (names_gb10(name@) ==> n.contains_key(
                "spark.memory.architecture"@,
            ) && n["spark.memory.architecture"@] == "unified"@ && n.contains_key(
                "spark.memory.bandwidth.capability_gbps"@,
            ) && n["spark.memory.bandwidth.capability_gbps"@] == "273"@)
            &&& g.name matches Some(name) ==> (!names_gb10(name@) ==> n.contains_key(
                "spark.memory.architecture"@,
            ) == m.contains_key("spark.memory.architecture"@))
        }),
{
    reveal_strlit(".name");
    reveal_strlit(".uuid");
    reveal_strlit("nvidia.gpu.");
    reveal_strlit("spark.memory.architecture");
    reveal_strlit("spark.memory.bandwidth.capability_gbps");
    let prefix = "nvidia.gpu."@ + decimal(g.index as nat);
    assert((prefix + ".name"@)[prefix.len() as int + 1] == 'n');
    assert((prefix + ".uuid"@)[prefix.len() as int + 1] == 'u');
    assert((prefix + ".name"@)[0] == 'n' && (prefix + ".uuid"@)[0] == 'n');
    assert("spark.memory.architecture"@[0] == 's' && "spark.memory.architecture"@.len() == 25);
    assert("spark.memory.bandwidth.capability_gbps"@[0] == 's');
    assert("spark.memory.bandwidth.capability_gbps"@.len() == 38);
}

/// A CUDA version counts thousands for the major number and tens for the minor
/// one.
pub proof fn law_cuda_versions_are_split(major: int, minor: int, rest: int, version: i32)
    requires
        0 <= major && 0 <= minor < 100 && 0 <= rest < 10,
        version == major * 1000 + minor * 10 + rest,
    ensures
        cuda_text(version) == signed_decimal(major) + "."@ + signed_decimal(minor),
{
    assert(version as int / 1000 == major) by (nonlinear_arith)
        requires
            version == major * 1000 + minor * 10 + rest,
            0 <= minor < 100,
            0 <= rest < 10,
            0 <= major,
    ;
    assert(quotient(version as int, 1000) == major);
    assert(remainder(version as int, 1000) == minor * 10 + rest);
    assert((minor * 10 + rest) / 10 == minor);
    assert(quotient(minor * 10 + rest, 10) == minor);
}

// --------------------------------------------------------------------------
// Failures
// --------------------------------------------------------------------------

/// A property of NVML.
pub open spec fn property(
    metric: Seq<char>,
    attributes: Seq<(Seq<char>, Seq<char>)>,
) -> Series {
    Series { source: "nvml"@, metric, attributes }
}

/// No rule is for a property, or one that leaves it to what is found.
pub open spec fn automatic(
    k: Knowledge,
    metric: Seq<char>,
    attributes: Seq<(Seq<char>, Seq<char>)>,
) -> bool {
    let p = property(metric, attributes);
    k.rules.contains_key(p) ==> k.rules[p].policy == CapabilityPolicy::Auto
}

/// A property is not queried because it is known to be unsupported.
pub open spec fn spared(
    k: Knowledge,
    metric: Seq<char>,
    attributes: Seq<(Seq<char>, Seq<char>)>,
) -> bool {
    automatic(k, metric, attributes) && k.unsupported.contains(property(metric, attributes))
}

/// A point without a number that tells of a fault.
pub open spec fn fails(p: Point<Number>, f: NvmlFault) -> bool {
    &&& p.value is None
    &&& f.unsupported ==> p.quality == Quality::Unsupported
    &&& !f.unsupported ==> p.quality == Quality::Error
    &&& p.error_code == Some(uppercase("NVML_"@ + f.name@))
}

/// A failed query is told of a GPU.
pub open spec fn failure_is_told(
    points: Seq<Point<Number>>,
    d: DeviceReadings,
    name: Seq<char>,
    attributes: Seq<(Seq<char>, Seq<char>)>,
    f: NvmlFault,
) -> bool {
    exists|p: Point<Number>| #[trigger]
        points.contains(p) && p.name == name && fails(p, f) && of_device(p, d) && in_domain(
            p,
            attributes,
        )
}

/// A property is told to be unsupported by a GPU.
pub open spec fn lack_is_told(
    points: Seq<Point<Number>>,
    d: DeviceReadings,
    name: Seq<char>,
    attributes: Seq<(Seq<char>, Seq<char>)>,
) -> bool {
    exists|p: Point<Number>| #[trigger]
        points.contains(p) && p.name == name && p.value is None && p.quality == Quality::Unsupported
            && p.error_code == Some("NVML_NOTSUPPORTED"@) && of_device(p, d) && in_domain(
            p,
            attributes,
        )
}

/// A property is remembered as unsupported afterwards exactly where it was so
/// before, or was found to be and no rule decides about it.
pub open spec fn is_remembered(
    before: Knowledge,
    after: Knowledge,
    name: Seq<char>,
    attributes: Seq<(Seq<char>, Seq<char>)>,
    found: bool,
) -> bool {
    let p = property(name, attributes);
    after.unsupported.contains(p) <==> before.unsupported.contains(p) || automatic(
        before,
        name,
        attributes,
    ) && found
}

/// A failed query is told as the metric of its property, with the error of NVML,
/// and as unsupported only where NVML says so.
#[verifier::rlimit(40)]
pub proof fn law_gpu_failures_are_told(k: Knowledge, processes: bool, d: DeviceReadings)
    ensures
        asked(k, "nvidia.gpu.utilization"@, seq![]) ==> (
        d.utilization matches Reading::Failed(fault) ==> failure_is_told(
            device_points(k, processes, d),
            d,
            "nvidia.gpu.utilization"@,
            seq![],
            fault,
        )),
        asked(k, "nvidia.gpu.memory_controller.utilization"@, seq![]) ==> (
        d.memory_controller matches Reading::Failed(fault) ==> failure_is_told(
            device_points(k, processes, d),
            d,
            "nvidia.gpu.memory_controller.utilization"@,
            seq![],
            fault,
        )),
        asked(k, "nvidia.gpu.temperature"@, seq![]) ==> (
        d.temperature matches Reading::Failed(fault) ==> failure_is_told(
            device_points(k, processes, d),
            d,
            "nvidia.gpu.temperature"@,
            seq![],
            fault,
        )),
        asked(k, "nvidia.gpu.power.draw"@, seq![]) ==> (
        d.power matches Reading::Failed(fault) ==> failure_is_told(
            device_points(k, processes, d),
            d,
            "nvidia.gpu.power.draw"@,
            seq![],
            fault,
        )),
        asked(k, "nvidia.gpu.clock.frequency"@, domain("graphics"@)) ==> (
        d.graphics_clock matches Reading::Failed(fault) ==> failure_is_told(
            device_points(k, processes, d),
            d,
            "nvidia.gpu.clock.frequency"@,
            domain("graphics"@),
            fault,
        )),
        asked(k, "nvidia.gpu.clock.frequency"@, domain("memory"@)) ==> (
        d.memory_clock matches Reading::Failed(fault) ==> failure_is_told(
            device_points(k, processes, d),
            d,
            "nvidia.gpu.clock.frequency"@,
            domain("memory"@),
            fault,
        )),
        asked(k, "nvidia.gpu.throttle"@, seq![]) ==> (
        d.throttle matches Reading::Failed(fault) ==> failure_is_told(
            device_points(k, processes, d),
            d,
            "nvidia.gpu.throttle"@,
            seq![],
            fault,
        )),
        asked(k, "nvidia.gpu.performance_state"@, seq![]) ==> (
        d.performance_state matches StateReading::Failed(fault) ==> failure_is_told(
            device_points(k, processes, d),
            d,
            "nvidia.gpu.performance_state"@,
            seq![],
            fault,
        )),
        asked(k, "nvidia.gpu.encoder.utilization"@, seq![]) ==> (
        d.encoder matches Reading::Failed(fault) ==> failure_is_told(
            device_points(k, processes, d),
            d,
            "nvidia.gpu.encoder.utilization"@,
            seq![],
            fault,
        )),
        asked(k, "nvidia.gpu.decoder.utilization"@, seq![]) ==> (
        d.decoder matches Reading::Failed(fault) ==> failure_is_told(
            device_points(k, processes, d),
            d,
            "nvidia.gpu.decoder.utilization"@,
            seq![],
            fault,
        )),
        processes && asked(k, "nvidia.gpu.process.memory.allocation"@, seq![]) ==> (
        d.processes matches ProcessReading::Failed(fault) ==> failure_is_told(
            device_points(k, processes, d),
            d,
            "nvidia.gpu.process.memory.allocation"@,
            seq![],
            fault,
        )),
{
    reveal(reading_points);
    reveal(state_points);
    reveal(process_points);
    lemma_attribute_names();
    let id = gpu_id(d);
    let i = d.index;
    if d.utilization is Failed && queried(k, property_of(Query::Utilization)) {
        let p = reading_points(k, Query::Utilization, d.utilization, id, i)[0];
        assert(reading_points(k, Query::Utilization, d.utilization, id, i).contains(p));
        lemma_parts(k, processes, d, p);
        assert(device_points(k, processes, d).contains(p));
    }
    if d.memory_controller is Failed && queried(k, property_of(Query::MemoryController)) {
        let p = reading_points(k, Query::MemoryController, d.memory_controller, id, i)[0];
        assert(reading_points(k, Query::MemoryController, d.memory_controller, id, i).contains(p));
        lemma_parts(k, processes, d, p);
        assert(device_points(k, processes, d).contains(p));
    }
    if d.temperature is Failed && queried(k, property_of(Query::Temperature)) {
        let p = reading_points(k, Query::Temperature, d.temperature, id, i)[0];
        assert(reading_points(k, Query::Temperature, d.temperature, id, i).contains(p));
        lemma_parts(k, processes, d, p);
        assert(device_points(k, processes, d).contains(p));
    }
    if d.power is Failed && queried(k, property_of(Query::Power)) {
        let p = reading_points(k, Query::Power, d.power, id, i)[0];
        assert(reading_points(k, Query::Power, d.power, id, i).contains(p));
        lemma_parts(k, processes, d, p);
        assert(device_points(k, processes, d).contains(p));
    }
    if d.graphics_clock is Failed && queried(k, property_of(Query::GraphicsClock)) {
        let p = reading_points(k, Query::GraphicsClock, d.graphics_clock, id, i)[0];
        assert(reading_points(k, Query::GraphicsClock, d.graphics_clock, id, i).contains(p));
        lemma_parts(k, processes, d, p);
        assert(device_points(k, processes, d).contains(p));
    }
    if d.memory_clock is Failed && queried(k, property_of(Query::MemoryClock)) {
        let p = reading_points(k, Query::MemoryClock, d.memory_clock, id, i)[0];
        assert(reading_points(k, Query::MemoryClock, d.memory_clock, id, i).contains(p));
        lemma_parts(k, processes, d, p);
        assert(device_points(k, processes, d).contains(p));
    }
    if d.throttle is Failed && queried(k, property_of(Query::Throttle)) {
        let p = reading_points(k, Query::Throttle, d.throttle, id, i)[0];
        assert(reading_points(k, Query::Throttle, d.throttle, id, i).contains(p));
        lemma_parts(k, processes, d, p);
        assert(device_points(k, processes, d).contains(p));
    }
    if d.performance_state is Failed && queried(k, property_of(Query::PerformanceState)) {
        let p = state_points(k, d.performance_state, id, i)[0];
        assert(state_points(k, d.performance_state, id, i).contains(p));
        lemma_parts(k, processes, d, p);
        assert(device_points(k, processes, d).contains(p));
    }
    if d.encoder is Failed && queried(k, property_of(Query::Encoder)) {
        let p = reading_points(k, Query::Encoder, d.encoder, id, i)[0];
        assert(reading_points(k, Query::Encoder, d.encoder, id, i).contains(p));
        lemma_parts(k, processes, d, p);
        assert(device_points(k, processes, d).contains(p));
    }
    if d.decoder is Failed && queried(k, property_of(Query::Decoder)) {
        let p = reading_points(k, Query::Decoder, d.decoder, id, i)[0];
        assert(reading_points(k, Query::Decoder, d.decoder, id, i).contains(p));
        lemma_parts(k, processes, d, p);
        assert(device_points(k, processes, d).contains(p));
    }
    if processes && d.processes is Failed && queried(k, property_of(Query::Processes)) {
        let p = process_points(k, d.processes, id, i)[0];
        assert(process_points(k, d.processes, id, i).contains(p));
        lemma_parts(k, processes, d, p);
        assert(device_points(k, processes, d).contains(p));
    }
}

/// A property that is known to be unsupported is told as such in every
/// collection.
#[verifier::rlimit(40)]
pub proof fn law_unsupported_properties_are_told(k: Knowledge, processes: bool, d: DeviceReadings)
    ensures
        spared(k, "nvidia.gpu.utilization"@, seq![]) ==> lack_is_told(
            device_points(k, processes, d),
            d,
            "nvidia.gpu.utilization"@,
            seq![],
        ),
        spared(k, "nvidia.gpu.memory_controller.utilization"@, seq![]) ==> lack_is_told(
            device_points(k, processes, d),
            d,
            "nvidia.gpu.memory_controller.utilization"@,
            seq![],
        ),
        spared(k, "nvidia.gpu.temperature"@, seq![]) ==> lack_is_told(
            device_points(k, processes, d),
            d,
            "nvidia.gpu.temperature"@,
            seq![],
        ),
        spared(k, "nvidia.gpu.power.draw"@, seq![]) ==> lack_is_told(
            device_points(k, processes, d),
            d,
            "nvidia.gpu.power.draw"@,
            seq![],
        ),
        spared(k, "nvidia.gpu.clock.frequency"@, domain("graphics"@)) ==> lack_is_told(
            device_points(k, processes, d),
            d,
            "nvidia.gpu.clock.frequency"@,
            domain("graphics"@),
        ),
        spared(k, "nvidia.gpu.clock.frequency"@, domain("memory"@)) ==> lack_is_told(
            device_points(k, processes, d),
            d,
            "nvidia.gpu.clock.frequency"@,
            domain("memory"@),
        ),
        spared(k, "nvidia.gpu.throttle"@, seq![]) ==> lack_is_told(
            device_points(k, processes, d),
            d,
            "nvidia.gpu.throttle"@,
            seq![],
        ),
        spared(k, "nvidia.gpu.performance_state"@, seq![]) ==> lack_is_told(
            device_points(k, processes, d),
            d,
            "nvidia.gpu.performance_state"@,
            seq![],
        ),
        spared(k, "nvidia.gpu.encoder.utilization"@, seq![]) ==> lack_is_told(
            device_points(k, processes, d),
            d,
            "nvidia.gpu.encoder.utilization"@,
            seq![],
        ),
        spared(k, "nvidia.gpu.decoder.utilization"@, seq![]) ==> lack_is_told(
            device_points(k, processes, d),
            d,
            "nvidia.gpu.decoder.utilization"@,
            seq![],
        ),
        processes && spared(k, "nvidia.gpu.process.memory.allocation"@, seq![]) ==> lack_is_told(
            device_points(k, processes, d),
            d,
            "nvidia.gpu.process.memory.allocation"@,
            seq![],
        ),
{
    reveal(reading_points);
    reveal(state_points);
    reveal(process_points);
    lemma_attribute_names();
    let id = gpu_id(d);
    let i = d.index;
    if spared(k, "nvidia.gpu.utilization"@, seq![]) {
        assert(property_of(Query::Utilization).attributes =~= seq![]);
        let p = reading_points(k, Query::Utilization, d.utilization, id, i)[0];
        assert(reading_points(k, Query::Utilization, d.utilization, id, i).contains(p));
        lemma_parts(k, processes, d, p);
        assert(device_points(k, processes, d).contains(p));
    }
    if spared(k, "nvidia.gpu.memory_controller.utilization"@, seq![]) {
        assert(property_of(Query::MemoryController).attributes =~= seq![]);
        let p = reading_points(k, Query::MemoryController, d.memory_controller, id, i)[0];
        assert(reading_points(k, Query::MemoryController, d.memory_controller, id, i).contains(p));
        lemma_parts(k, processes, d, p);
        assert(device_points(k, processes, d).contains(p));
    }
    if spared(k, "nvidia.gpu.temperature"@, seq![]) {
        assert(property_of(Query::Temperature).attributes =~= seq![]);
        let p = reading_points(k, Query::Temperature, d.temperature, id, i)[0];
        assert(reading_points(k, Query::Temperature, d.temperature, id, i).contains(p));
        lemma_parts(k, processes, d, p);
        assert(device_points(k, processes, d).contains(p));
    }
    if spared(k, "nvidia.gpu.power.draw"@, seq![]) {
        assert(property_of(Query::Power).attributes =~= seq![]);
        let p = reading_points(k, Query::Power, d.power, id, i)[0];
        assert(reading_points(k, Query::Power, d.power, id, i).contains(p));
        lemma_parts(k, processes, d, p);
        assert(device_points(k, processes, d).contains(p));
    }
    if spared(k, "nvidia.gpu.clock.frequency"@, domain("graphics"@)) {
        assert(property_of(Query::GraphicsClock).attributes =~= domain("graphics"@));
        let p = reading_points(k, Query::GraphicsClock, d.graphics_clock, id, i)[0];
        assert(reading_points(k, Query::GraphicsClock, d.graphics_clock, id, i).contains(p));
        lemma_parts(k, processes, d, p);
        assert(device_points(k, processes, d).contains(p));
    }
    if spared(k, "nvidia.gpu.clock.frequency"@, domain("memory"@)) {
        assert(property_of(Query::MemoryClock).attributes =~= domain("memory"@));
        let p = reading_points(k, Query::MemoryClock, d.memory_clock, id, i)[0];
        assert(reading_points(k, Query::MemoryClock, d.memory_clock, id, i).contains(p));
        lemma_parts(k, processes, d, p);
        assert(device_points(k, processes, d).contains(p));
    }
    if spared(k, "nvidia.gpu.throttle"@, seq![]) {
        assert(property_of(Query::Throttle).attributes =~= seq![]);
        let p = reading_points(k, Query::Throttle, d.throttle, id, i)[0];
        assert(reading_points(k, Query::Throttle, d.throttle, id, i).contains(p));
        lemma_parts(k, processes, d, p);
        assert(device_points(k, processes, d).contains(p));
    }
    if spared(k, "nvidia.gpu.performance_state"@, seq![]) {
        assert(property_of(Query::PerformanceState).attributes =~= seq![]);
        let p = state_points(k, d.performance_state, id, i)[0];
        assert(state_points(k, d.performance_state, id, i).contains(p));
        lemma_parts(k, processes, d, p);
        assert(device_points(k, processes, d).contains(p));
    }
    if spared(k, "nvidia.gpu.encoder.utilization"@, seq![]) {
        assert(property_of(Query::Encoder).attributes =~= seq![]);
        let p = reading_points(k, Query::Encoder, d.encoder, id, i)[0];
        assert(reading_points(k, Query::Encoder, d.encoder, id, i).contains(p));
        lemma_parts(k, processes, d, p);
        assert(device_points(k, processes, d).contains(p));
    }
    if spared(k, "nvidia.gpu.decoder.utilization"@, seq![]) {
        assert(property_of(Query::Decoder).attributes =~= seq![]);
        let p = reading_points(k, Query::Decoder, d.decoder, id, i)[0];
        assert(reading_points(k, Query::Decoder, d.decoder, id, i).contains(p));
        lemma_parts(k, processes, d, p);
        assert(device_points(k, processes, d).contains(p));
    }
    if processes && spared(k, "nvidia.gpu.process.memory.allocation"@, seq![]) {
        assert(property_of(Query::Processes).attributes =~= seq![]);
        let p = process_points(k, d.processes, id, i)[0];
        assert(process_points(k, d.processes, id, i).contains(p));
        lemma_parts(k, processes, d, p);
        assert(device_points(k, processes, d).contains(p));
    }
}

/// A performance state and the memory of each process are told where NVML is
/// asked for them.
pub proof fn law_gpu_states_are_told(k: Knowledge, processes: bool, d: DeviceReadings, j: int)
    ensures
        asked(k, "nvidia.gpu.performance_state"@, seq![]) ==> (
        d.performance_state matches StateReading::State(s) ==> exists|p: Point<Number>| #[trigger]
            device_points(k, processes, d).contains(p) && tells(
                p,
                "nvidia.gpu.performance_state"@,
                "1"@,
                Number::Level(state_value(s)),
            ) && of_device(p, d)),
        processes && asked(k, "nvidia.gpu.process.memory.allocation"@, seq![]) ==> (
        d.processes matches ProcessReading::Processes(ps) ==> (0 <= j < ps@.len()
            ==> device_points(k, processes, d).contains(
            process_point(ps@[j], gpu_id(d), d.index),
        ))),
{
    reveal(state_points);
    reveal(process_points);
    lemma_attribute_names();
    let id = gpu_id(d);
    let i = d.index;
    if d.performance_state is State && queried(k, property_of(Query::PerformanceState)) {
        let p = state_points(k, d.performance_state, id, i)[0];
        assert(state_points(k, d.performance_state, id, i).contains(p));
        lemma_parts(k, processes, d, p);
        assert(device_points(k, processes, d).contains(p));
    }
    if processes && queried(k, property_of(Query::Processes)) {
        match d.processes {
            ProcessReading::Processes(ps) => {
                if 0 <= j < ps@.len() {
                    let p = process_point(ps@[j], id, i);
                    assert(process_points(k, d.processes, id, i)[j] == p);
                    lemma_parts(k, processes, d, p);
                }
            },
            _ => {},
        }
    }
}

/// A property is remembered as unsupported exactly where NVML says so and no
/// rule decides about it; what was remembered before stays, and the rules stay.
#[verifier::rlimit(60)]
pub proof fn law_unsupported_properties_are_remembered(k: Knowledge, d: DeviceReadings)
    ensures
        is_remembered(
            k,
            after_device(k, d),
            "nvidia.gpu.utilization"@,
            seq![],
            d.utilization matches Reading::Failed(fault) && fault.unsupported,
        ),
        is_remembered(
            k,
            after_device(k, d),
            "nvidia.gpu.memory_controller.utilization"@,
            seq![],
            d.memory_controller matches Reading::Failed(fault) && fault.unsupported,
        ),
        is_remembered(
            k,
            after_device(k, d),
            "nvidia.gpu.temperature"@,
            seq![],
            d.temperature matches Reading::Failed(fault) && fault.unsupported,
        ),
        is_remembered(
            k,
            after_device(k, d),
            "nvidia.gpu.power.draw"@,
            seq![],
            d.power matches Reading::Failed(fault) && fault.unsupported,
        ),
        is_remembered(
            k,
            after_device(k, d),
            "nvidia.gpu.clock.frequency"@,
            domain("graphics"@),
            d.graphics_clock matches Reading::Failed(fault) && fault.unsupported,
        ),
        is_remembered(
            k,
            after_device(k, d),
            "nvidia.gpu.clock.frequency"@,
            domain("memory"@),
            d.memory_clock matches Reading::Failed(fault) && fault.unsupported,
        ),
        is_remembered(
            k,
            after_device(k, d),
            "nvidia.gpu.throttle"@,
            seq![],
            d.throttle matches Reading::Failed(fault) && fault.unsupported,
        ),
        is_remembered(
            k,
            after_device(k, d),
            "nvidia.gpu.performance_state"@,
            seq![],
            d.performance_state matches StateReading::Failed(fault) && fault.unsupported,
        ),
        is_remembered(
            k,
            after_device(k, d),
            "nvidia.gpu.encoder.utilization"@,
            seq![],
            d.encoder matches Reading::Failed(fault) && fault.unsupported,
        ),
        is_remembered(
            k,
            after_device(k, d),
            "nvidia.gpu.decoder.utilization"@,
            seq![],
            d.decoder matches Reading::Failed(fault) && fault.unsupported,
        ),
        is_remembered(
            k,
            after_device(k, d),
            "nvidia.gpu.process.memory.allocation"@,
            seq![],
            d.processes matches ProcessReading::Failed(fault) && fault.unsupported,
        ),
        after_device(k, d).rules == k.rules,
        after_device(k, d).hardware == k.hardware,
{
    lemma_properties_differ();
}

proof fn lemma_properties_differ()
    ensures
        forall|q: Query, r: Query| #[trigger]
            property_of(q) == #[trigger] property_of(r) ==> q == r,
{
    assert forall|q: Query, r: Query| #[trigger]
        property_of(q) == #[trigger] property_of(r) implies q == r by {
        lemma_metrics_differ(q, r);
        lemma_attribute_names();
        if q != r {
            assert(property_of(q).attributes[0].1 == "graphics"@ || property_of(q).attributes[0].1
                == "memory"@);
        }
    }
}

/// What is remembered of several GPUs is what is remembered of one after the
/// other.
pub proof fn law_gpus_are_remembered_in_order(
    k: Knowledge,
    ds: Seq<DeviceReadings>,
    d: DeviceReadings,
)
    ensures
        after_devices(k, ds.push(d)) == after_device(after_devices(k, ds), d),
        after_devices(k, Seq::empty()) == k,
{
    assert(ds.push(d).drop_last() =~= ds);
}

/// Without NVML its stand-in is asked; where neither can be, or the GPUs cannot
/// be counted, their utilization is unsupported for that reason.
pub proof fn law_hosts_without_gpus_are_told(
    k: Knowledge,
    processes: bool,
    w: Watched,
    output: SmiOutput,
)
    ensures
        output matches SmiOutput::Written(raw) ==> nvidia_points(
            k,
            processes,
            w,
            NvmlState::Missing(output),
        ) == smi_rows(lines_of(raw@)),
        output is NotRun ==> lacks(
            nvidia_points(k, processes, w, NvmlState::Missing(output)),
            "NVML_AND_NVSMI_UNAVAILABLE"@,
        ),
        output is Failed ==> lacks(
            nvidia_points(k, processes, w, NvmlState::Missing(output)),
            "NVSMI_QUERY_FAILED"@,
        ),
        lacks(
            nvidia_points(k, processes, w, NvmlState::CountFailed),
            "NVML_DEVICE_COUNT_FAILED"@,
        ),
{
}

/// The utilization is unsupported for a reason, and nothing else is told.
pub open spec fn lacks(points: Seq<Point<Number>>, code: Seq<char>) -> bool {
    &&& points.len() == 1
    &&& points[0].name == "nvidia.gpu.utilization"@ && points[0].unit == "%"@
    &&& points[0].source == "nvml"@
    &&& points[0].value is None
    &&& points[0].quality == Quality::Unsupported
    &&& points[0].error_code == Some(code)
}

/// The fields of a row of the stand-in stand between commas, without the white
/// space around them.
pub proof fn law_rows_are_split_at_commas(a: Seq<char>, b: Seq<char>)
    requires
        free_of(a, Class::Only(',')),
    ensures
        smi_fields(a.push(',') + b) == seq![trim_of(a)] + smi_fields(b),
        smi_fields(a) == seq![trim_of(a)],
{
    law_texts_split_at_the_first(a, ',', b, Class::Only(','));
    assert(smi_fields(a.push(',') + b) =~= seq![trim_of(a)] + smi_fields(b));
    assert(smi_fields(a) =~= seq![trim_of(a)]);
}

/// A product is a GB10 exactly if one of its words is, in any letter case.
pub proof fn law_gb10_is_a_word(a: Seq<char>, c: char, b: Seq<char>)
    requires
        free_of(a, Class::NonAlphanumeric),
        !is_alphanumeric(c),
    ensures
        names_gb10(a) <==> lowercase(a) == "gb10"@,
        names_gb10(a.push(c) + b) <==> lowercase(a) == "gb10"@ || names_gb10(b),
{
    let class = Class::NonAlphanumeric;
    law_texts_split_at_the_first(a, c, b, class);
    let one = split_of(a, class);
    let all = split_of(a.push(c) + b, class);
    let rest = split_of(b, class);
    assert(one[0] == a && all[0] == a);
    if names_gb10(a.push(c) + b) {
        let i = choose|i: int| 0 <= i < all.len() && lowercase(#[trigger] all[i]) == "gb10"@;
        if i > 0 {
            assert(all[i] == rest[i - 1]);
        }
    }
    if names_gb10(b) {
        let i = choose|i: int| 0 <= i < rest.len() && lowercase(#[trigger] rest[i]) == "gb10"@;
        assert(all[i + 1] == rest[i]);
    }
    if names_gb10(a) {
        let i = choose|i: int| 0 <= i < one.len() && lowercase(#[trigger] one[i]) == "gb10"@;
        assert(one[i] == a);
    }
}

/// The inventory lists the driver, the CUDA version and the number of GPUs,
/// where they are known, besides the GPUs in their order.
pub proof fn law_drivers_are_listed(n: NvmlInventory)
    requires
        n.gpus matches Some(list) ==> list.gpus@.len() == 0,
    ensures
        ({
            let m = nvml_inventory(n);
            &&& n.driver matches Some(v) ==> m.contains_key("nvidia.driver.version"@)
                && m["nvidia.driver.version"@] == v@
            &&& n.driver is None ==> !m.contains_key("nvidia.driver.version"@)
            &&& n.cuda matches Some(v) ==> m.contains_key("nvidia.cuda.driver_compatibility"@)
                && m["nvidia.cuda.driver_compatibility"@] == cuda_text(v)
            &&& n.cuda is None ==> !m.contains_key("nvidia.cuda.driver_compatibility"@)
            &&& n.gpus matches Some(list) ==> m.contains_key("nvidia.gpu.count"@)
                && m["nvidia.gpu.count"@] == decimal(list.count as nat)
            &&& n.gpus is None ==> !m.contains_key("nvidia.gpu.count"@)
        }),
{
    reveal_strlit("nvidia.driver.version");
    reveal_strlit("nvidia.cuda.driver_compatibility");
    reveal_strlit("nvidia.gpu.count");
    assert("nvidia.driver.version"@.len() == 21);
    assert("nvidia.cuda.driver_compatibility"@.len() == 32);
    assert("nvidia.gpu.count"@.len() == 16);
}

/// The GPUs are listed one after the other.
pub proof fn law_gpus_are_listed_in_order(m: Properties, gs: Seq<GpuIdentity>, g: GpuIdentity)
    ensures
        with_gpus(m, gs.push(g)) == with_gpu(with_gpus(m, gs), g),
        with_gpus(m, Seq::empty()) == m,
{
    assert(gs.push(g).drop_last() =~= gs);
}

/// Processes are queried only where they are to be told; everything else is
/// queried as its rule says.
pub proof fn law_processes_are_queried_on_demand(g: Gpus, q: Query)
    ensures
        !g.include_processes ==> !wanted(g, Query::Processes),
        g.include_processes || q !is Processes ==> wanted(g, q) == queried(
            g.knowledge,
            property_of(q),
        ),
{
}

/// A collection takes note of the readings and of the events of the GPUs; where
/// there are none it changes nothing.
pub proof fn law_collections_are_remembered(g: Gpus, state: NvmlState)
    ensures
        state matches NvmlState::Devices { devices, messages } ==> after_collection(
            g,
            state,
        ).knowledge == after_devices(g.knowledge, devices@) && after_collection(g, state).watched
            == watched_after(g.watched, messages@) && after_collection(g, state).include_processes
            == g.include_processes,
        state !is Devices ==> after_collection(g, state) == g,
{
}

/// Each event is told, each watched GPU without one is told to have had none,
/// and each GPU that cannot be watched is told as that.
pub proof fn law_watched_gpus_are_told(w: Watched, ms: Seq<XidMessage>, j: int, uuid: Seq<char>)
    ensures
        0 <= j < ms.len() && ms[j] is Event ==> xid_points(w, ms).contains(event_point(ms[j])[0]),
        elements_of::<String>(watched_after(w, ms).ready).contains(uuid) && !gpus_with_event(
            ms,
        ).contains(uuid) ==> xid_points(w, ms).contains(
            quiet_point(uuid, gpus_with_event(ms))[0],
        ),
        elements_of::<String>(watched_after(w, ms).unsupported).contains(uuid) ==> xid_points(
            w,
            ms,
        ).contains(unwatched_point(uuid)[0]),
{
    let v = watched_after(w, ms);
    let ready = elements_of::<String>(v.ready);
    let blind = elements_of::<String>(v.unsupported);
    let with_event = gpus_with_event(ms);
    let a = flat(ms, event_points());
    let b = flat(ready, quiet_points(with_event));
    let c = flat(blind, unwatched_points());
    if 0 <= j < ms.len() && ms[j] is Event {
        let p = event_point(ms[j])[0];
        assert(event_points()(ms[j]).contains(p));
        lemma_flat_members(ms, event_points(), p);
        lemma_joined(a, b, p);
        lemma_joined(a + b, c, p);
    }
    if ready.contains(uuid) && !with_event.contains(uuid) {
        let p = quiet_point(uuid, with_event)[0];
        let i = choose|i: int| 0 <= i < ready.len() && ready[i] == uuid;
        assert(quiet_points(with_event)(ready[i]).contains(p));
        lemma_flat_members(ready, quiet_points(with_event), p);
        lemma_joined(a, b, p);
        lemma_joined(a + b, c, p);
    }
    if blind.contains(uuid) {
        let p = unwatched_point(uuid)[0];
        let i = choose|i: int| 0 <= i < blind.len() && blind[i] == uuid;
        assert(unwatched_points()(blind[i]).contains(p));
        lemma_flat_members(blind, unwatched_points(), p);
        lemma_joined(a + b, c, p);
    }
}

// --------------------------------------------------------------------------
// Profiles
// --------------------------------------------------------------------------

/// A profile has a name of its own, a selector and capabilities, and nothing is
/// wrong with any of them; the first that is wrong is what it is refused for.
pub proof fn law_profiles_are_checked(p: HardwareProfile, ids: Set<Seq<char>>)
    ensures
        p.id@.len() == 0 || ids.contains(p.id@) ==> profile_refusal(p, ids) == Some(
            Refusal::ProfileId { id: p.id@ },
        ),
        p.id@.len() > 0 && !ids.contains(p.id@) && selector_refusal(p.selector) is Some
            ==> profile_refusal(p, ids) == selector_refusal(p.selector),
        p.id@.len() > 0 && !ids.contains(p.id@) && selector_refusal(p.selector) is None
            && p.capability@.len() == 0 ==> profile_refusal(p, ids) == Some(
            Refusal::NoCapabilities { id: p.id@ },
        ),
        p.id@.len() > 0 && !ids.contains(p.id@) && selector_refusal(p.selector) is None
            && p.capability@.len() > 0 ==> profile_refusal(p, ids) == capabilities_refusal(
            p.capability@,
        ),
{
}

/// The first capability that is refused is what a profile is refused for.
pub proof fn law_all_capabilities_are_checked(cs: Seq<ProfileCapability>, k: int)
    requires
        0 <= k <= cs.len(),
        forall|j: int| 0 <= j < k ==> capability_refusal(#[trigger] cs[j]) is None,
    ensures
        k == cs.len() ==> capabilities_refusal(cs) is None,
        k < cs.len() && capability_refusal(cs[k]) is Some ==> capabilities_refusal(cs)
            == capability_refusal(cs[k]),
    decreases k,
{
    if k > 0 {
        let rest = cs.skip(1);
        assert forall|j: int| 0 <= j < k - 1 implies capability_refusal(
            #[trigger] rest[j],
        ) is None by {
            assert(rest[j] == cs[j + 1]);
        }
        assert(capability_refusal(cs[0]) is None);
        law_all_capabilities_are_checked(rest, k - 1);
        if k < cs.len() {
            assert(rest[k - 1] == cs[k]);
        }
    }
}

/// Attributes are written as names and values with commas between them.
pub proof fn law_attributes_are_written(a: Seq<(Seq<char>, Seq<char>)>, k: Seq<char>, v: Seq<char>)
    ensures
        a.len() > 0 ==> listing_text(a.push((k, v))) == listing_text(a) + ","@ + (k + "="@ + v),
        listing_text(seq![(k, v)]) == k + "="@ + v,
        listing_text(Seq::empty()) == ""@,
{
    assert(a.push((k, v)).drop_last() =~= a);
}

/// Without configured profiles there are no rules, and profiles that cannot be
/// read are refused.
pub proof fn law_sources_of_profiles_are_read(source: ProfileSource, h: Hardware)
    ensures
        source is Unconfigured ==> sourced(source, h) == Ok::<Map<Series, Ruling>, Refusal>(
            Map::empty(),
        ),
        source is Unreadable ==> sourced(source, h) == Err::<Map<Series, Ruling>, Refusal>(
            Refusal::Unreadable,
        ),
        source matches ProfileSource::Files(fs) ==> sourced(source, h) == resolution(fs@, h),
{
}

/// What NVML gives names it as its source, and so do its events.
pub proof fn law_gpu_points_name_their_source(
    k: Knowledge,
    processes: bool,
    d: DeviceReadings,
    p: Point<Number>,
    m: XidMessage,
    uuid: Seq<char>,
    with_event: Set<Seq<char>>,
)
    ensures
        device_points(k, processes, d).contains(p) ==> p.source == "nvml"@,
        m is Event ==> event_point(m)[0].source == "nvml"@ && event_point(m)[0].unit
            == "{event}"@,
        !with_event.contains(uuid) ==> quiet_point(uuid, with_event)[0].source == "nvml"@
            && quiet_point(uuid, with_event)[0].unit == "{event}"@,
        unwatched_point(uuid)[0].source == "nvml"@ && unwatched_point(uuid)[0].unit == "{event}"@
            && unwatched_point(uuid)[0].error_code == Some("NVML_XID_NOT_SUPPORTED"@),
{
    reveal(reading_points);
    reveal(state_points);
    reveal(process_points);
    if device_points(k, processes, d).contains(p) {
        lemma_parts(k, processes, d, p);
        let id = gpu_id(d);
        let i = d.index;
        if processes && process_points(k, d.processes, id, i).contains(p) {
            let points = process_points(k, d.processes, id, i);
            let j = choose|j: int| 0 <= j < points.len() && points[j] == p;
            match d.processes {
                ProcessReading::Processes(ps) => {
                    if queried(k, property_of(Query::Processes)) {
                        assert(points[j] == process_point(ps@[j], id, i));
                    }
                },
                _ => {},
            }
        }
    }
}

/// What is read of a GPU is measured, and the memory of a process that is not
/// known is unsupported.
pub proof fn law_gpu_numbers_are_measured(
    k: Knowledge,
    processes: bool,
    d: DeviceReadings,
    p: Point<Number>,
    process: ProcessMemory,
)
    ensures
        device_points(k, processes, d).contains(p) && p.value is Some ==> p.quality
            == Quality::Measured,
        process.used is None ==> process_point(process, gpu_id(d), d.index).quality
            == Quality::Unsupported && process_point(process, gpu_id(d), d.index).error_code
            == Some("NVML_MEMORY_UNAVAILABLE"@),
{
    reveal(reading_points);
    reveal(state_points);
    reveal(process_points);
    if device_points(k, processes, d).contains(p) {
        lemma_parts(k, processes, d, p);
        let id = gpu_id(d);
        let i = d.index;
        if processes && process_points(k, d.processes, id, i).contains(p) {
            let points = process_points(k, d.processes, id, i);
            let j = choose|j: int| 0 <= j < points.len() && points[j] == p;
            match d.processes {
                ProcessReading::Processes(ps) => {
                    if queried(k, property_of(Query::Processes)) {
                        assert(points[j] == process_point(ps@[j], id, i));
                    }
                },
                _ => {},
            }
        }
    }
}

} // verus!
