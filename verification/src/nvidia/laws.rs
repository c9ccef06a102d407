//! What holds of all points of the GPUs, and of the rules for them.

use super::capabilities::{
    after_unsupported, candidates, is_specific, policy_of, profile_refusal,
    property_of as rule_property, queried, resolution, selects, winner, winners, with_capabilities,
    with_capability, with_files, with_profiles, CapabilityPolicy, Found, Hardware, HardwareProfile,
    Knowledge, ProfileCapability, ProfileFile, Progress, Ruling, Selection,
};
use super::collector::{
    device_points, each_device, fault_point, gpu_id, in_domain, metric_of, number_of,
    nvidia_points, process_point, process_points, property_of, reading_points, state_name,
    state_points, state_value, unit_of, unsupported_point, DeviceReadings, NvmlFault, NvmlState,
    ProcessMemory, ProcessReading, Query, Reading, StateReading,
};
use super::smi::{of_gpu, smi_fields, smi_point, smi_points, smi_row, smi_rows, SmiOutput};
use super::xid::{
    event_point, event_points, gpus_with_event, quiet_point, quiet_points, unwatched_point,
    unwatched_points, watched_after, xid_count, xid_points, Watched, XidMessage,
};
use crate::catalogue::is_metric;
use crate::rows::{flat, lemma_apart_reordered, lemma_flat_reordered};
use crate::schema::{
    all_sound, gauge_of, lemma_flat_sound, lemma_gauge_sound, lemma_joined_sound,
    lemma_unavailable_sound, lemma_with_sound, sound, valued_where, Number, Point, Quality,
};
use crate::series::Series;
use crate::table::elements_of;
use crate::text::{decimal, is_float, lines_of, uppercase};
use vstd::prelude::*;

verus! {

proof fn lemma_of_gpu(p: Point<Number>, id: Seq<char>, index: nat)
    requires
        sound(p),
    ensures
        sound(of_gpu(p, id, index)),
{
    lemma_with_sound(p, "gpu.id"@, id);
    lemma_with_sound(p.with("gpu.id"@, id), "gpu.index"@, decimal(index));
}

proof fn lemma_in_domain(p: Point<Number>, q: Query)
    requires
        sound(p),
    ensures
        sound(in_domain(p, q)),
{
    lemma_with_sound(p, "clock.domain"@, "graphics"@);
    lemma_with_sound(p, "clock.domain"@, "memory"@);
}

proof fn lemma_fault(q: Query, f: NvmlFault)
    ensures
        sound(fault_point(q, f)),
{
    lemma_unavailable_sound::<Number>(
        metric_of(q),
        unit_of(q),
        if f.unsupported {
            Quality::Unsupported
        } else {
            Quality::Error
        },
        "nvml"@,
        uppercase("NVML_"@ + f.name@),
    );
}

proof fn lemma_unsupported(q: Query, id: Seq<char>, index: u32)
    ensures
        sound(of_gpu(unsupported_point(q), id, index as nat)),
        sound(of_gpu(in_domain(unsupported_point(q), q), id, index as nat)),
{
    let p = unsupported_point(q);
    lemma_unavailable_sound::<Number>(
        metric_of(q),
        unit_of(q),
        Quality::Unsupported,
        "nvml"@,
        "NVML_NOTSUPPORTED"@,
    );
    lemma_in_domain(p, q);
    lemma_of_gpu(p, id, index as nat);
    lemma_of_gpu(in_domain(p, q), id, index as nat);
}

proof fn lemma_reading(k: Knowledge, q: Query, r: Reading, id: Seq<char>, index: u32)
    ensures
        all_sound(reading_points(k, q, r, id, index)),
{
    reveal(reading_points);
    lemma_unsupported(q, id, index);
    match r {
        Reading::NotQueried => {},
        Reading::Failed(f) => {
            lemma_fault(q, f);
            lemma_in_domain(fault_point(q, f), q);
            lemma_of_gpu(in_domain(fault_point(q, f), q), id, index as nat);
        },
        Reading::Number(n) => {
            let p = gauge_of(
                metric_of(q),
                number_of(q, n),
                unit_of(q),
                Quality::Measured,
                "nvml"@,
            );
            lemma_gauge_sound(
                metric_of(q),
                number_of(q, n),
                unit_of(q),
                Quality::Measured,
                "nvml"@,
            );
            lemma_in_domain(p, q);
            lemma_of_gpu(in_domain(p, q), id, index as nat);
        },
    }
}

proof fn lemma_state(k: Knowledge, r: StateReading, id: Seq<char>, index: u32)
    ensures
        all_sound(state_points(k, r, id, index)),
{
    reveal(state_points);
    let q = Query::PerformanceState;
    lemma_unsupported(q, id, index);
    match r {
        StateReading::NotQueried => {},
        StateReading::Failed(f) => {
            lemma_fault(q, f);
            lemma_of_gpu(fault_point(q, f), id, index as nat);
        },
        StateReading::State(s) => {
            let value = Number::Level(state_value(s));
            let p = gauge_of(metric_of(q), value, unit_of(q), Quality::Measured, "nvml"@);
            lemma_gauge_sound(metric_of(q), value, unit_of(q), Quality::Measured, "nvml"@);
            lemma_with_sound(p, "nvidia.performance_state"@, state_name(s));
            lemma_of_gpu(p.with("nvidia.performance_state"@, state_name(s)), id, index as nat);
        },
    }
}

proof fn lemma_process(p: ProcessMemory, id: Seq<char>, index: u32)
    ensures
        sound(process_point(p, id, index)),
{
    let q = Query::Processes;
    let point = match p.used {
        Some(bytes) => gauge_of(
            metric_of(q),
            Number::Count(bytes),
            unit_of(q),
            Quality::Measured,
            "nvml"@,
        ),
        None => crate::schema::unavailable_of(
            metric_of(q),
            unit_of(q),
            Quality::Unsupported,
            "nvml"@,
            "NVML_MEMORY_UNAVAILABLE"@,
        ),
    };
    lemma_with_sound(point, "process.pid"@, decimal(p.pid as nat));
    lemma_of_gpu(point.with("process.pid"@, decimal(p.pid as nat)), id, index as nat);
}

proof fn lemma_processes(k: Knowledge, r: ProcessReading, id: Seq<char>, index: u32)
    ensures
        all_sound(process_points(k, r, id, index)),
{
    reveal(process_points);
    lemma_unsupported(Query::Processes, id, index);
    match r {
        ProcessReading::NotQueried => {},
        ProcessReading::Failed(f) => {
            lemma_fault(Query::Processes, f);
            lemma_of_gpu(fault_point(Query::Processes, f), id, index as nat);
        },
        ProcessReading::Processes(ps) => {
            let points = process_points(k, r, id, index);
            if queried(k, property_of(Query::Processes)) {
                assert forall|i: int| 0 <= i < points.len() implies sound(#[trigger] points[i]) by {
                    lemma_process(ps@[i], id, index);
                }
            }
        },
    }
}

proof fn lemma_device(k: Knowledge, processes: bool, d: DeviceReadings)
    ensures
        all_sound(device_points(k, processes, d)),
{
    let id = gpu_id(d);
    let i = d.index;
    lemma_reading(k, Query::Utilization, d.utilization, id, i);
    lemma_reading(k, Query::MemoryController, d.memory_controller, id, i);
    lemma_reading(k, Query::Temperature, d.temperature, id, i);
    lemma_reading(k, Query::Power, d.power, id, i);
    lemma_reading(k, Query::GraphicsClock, d.graphics_clock, id, i);
    lemma_reading(k, Query::MemoryClock, d.memory_clock, id, i);
    lemma_reading(k, Query::Throttle, d.throttle, id, i);
    lemma_state(k, d.performance_state, id, i);
    lemma_reading(k, Query::Encoder, d.encoder, id, i);
    lemma_reading(k, Query::Decoder, d.decoder, id, i);
    lemma_processes(k, d.processes, id, i);
    let a = reading_points(k, Query::Utilization, d.utilization, id, i);
    let b = reading_points(k, Query::MemoryController, d.memory_controller, id, i);
    let c = reading_points(k, Query::Temperature, d.temperature, id, i);
    let e = reading_points(k, Query::Power, d.power, id, i);
    let f = reading_points(k, Query::GraphicsClock, d.graphics_clock, id, i);
    let g = reading_points(k, Query::MemoryClock, d.memory_clock, id, i);
    let h = reading_points(k, Query::Throttle, d.throttle, id, i);
    let j = state_points(k, d.performance_state, id, i);
    let l = reading_points(k, Query::Encoder, d.encoder, id, i);
    let m = reading_points(k, Query::Decoder, d.decoder, id, i);
    let n = if processes {
        process_points(k, d.processes, id, i)
    } else {
        seq![]
    };
    lemma_joined_sound(a, b);
    lemma_joined_sound(a + b, c);
    lemma_joined_sound(a + b + c, e);
    lemma_joined_sound(a + b + c + e, f);
    lemma_joined_sound(a + b + c + e + f, g);
    lemma_joined_sound(a + b + c + e + f + g, h);
    lemma_joined_sound(a + b + c + e + f + g + h, j);
    lemma_joined_sound(a + b + c + e + f + g + h + j, l);
    lemma_joined_sound(a + b + c + e + f + g + h + j + l, m);
    lemma_joined_sound(a + b + c + e + f + g + h + j + l + m, n);
}

proof fn lemma_field(name: Seq<char>, unit: Seq<char>, field: Seq<char>, id: Seq<char>, index: nat)
    requires
        is_metric(name),
    ensures
        sound(smi_point(name, unit, field)),
        sound(of_gpu(smi_point(name, unit, field), id, index)),
{
    lemma_of_gpu(smi_point(name, unit, field), id, index);
}

proof fn lemma_row(row: Seq<char>, index: nat)
    ensures
        all_sound(smi_row(row, index)),
{
    let f = smi_fields(row);
    let clock = "nvidia.gpu.clock.frequency"@;
    lemma_field("nvidia.gpu.utilization"@, "%"@, f[1], f[0], index);
    lemma_field("nvidia.gpu.memory_controller.utilization"@, "%"@, f[2], f[0], index);
    lemma_field("nvidia.gpu.temperature"@, "Cel"@, f[3], f[0], index);
    lemma_field("nvidia.gpu.power.draw"@, "W"@, f[4], f[0], index);
    lemma_field(clock, "MHz"@, f[5], f[0], index);
    lemma_field(clock, "MHz"@, f[6], f[0], index);
    let graphics = smi_point(clock, "MHz"@, f[5]);
    let memory = smi_point(clock, "MHz"@, f[6]);
    lemma_with_sound(graphics, "clock.domain"@, "graphics"@);
    lemma_with_sound(memory, "clock.domain"@, "memory"@);
    lemma_of_gpu(graphics.with("clock.domain"@, "graphics"@), f[0], index);
    lemma_of_gpu(memory.with("clock.domain"@, "memory"@), f[0], index);
}

proof fn lemma_rows(rows: Seq<Seq<char>>)
    ensures
        all_sound(smi_rows(rows)),
    decreases rows.len(),
{
    if rows.len() > 0 {
        lemma_rows(rows.drop_last());
        let index = (rows.len() - 1) as nat;
        lemma_row(rows.last(), index);
        lemma_joined_sound(smi_rows(rows.drop_last()), smi_row(rows.last(), index));
    }
}

proof fn lemma_xid(w: Watched, ms: Seq<XidMessage>)
    ensures
        all_sound(xid_points(w, ms)),
{
    let v = watched_after(w, ms);
    let with_event = gpus_with_event(ms);
    let f = event_points();
    let g = quiet_points(with_event);
    let h = unwatched_points();
    assert forall|count: u64, uuid: Seq<char>| sound(#[trigger] xid_count(count, uuid)) by {}
    assert forall|m: XidMessage| all_sound(#[trigger] f(m)) by {
        assert(f(m) == event_point(m));
        match m {
            XidMessage::Event { uuid, code } => {
                lemma_with_sound(xid_count(1, uuid@), "nvidia.xid.code"@, code@);
            },
            _ => {},
        }
    }
    assert forall|uuid: Seq<char>| all_sound(#[trigger] g(uuid)) by {
        assert(g(uuid) == quiet_point(uuid, with_event));
    }
    assert forall|uuid: Seq<char>| all_sound(#[trigger] h(uuid)) by {
        assert(h(uuid) == unwatched_point(uuid));
    }
    let a = flat(ms, f);
    let b = flat(elements_of::<String>(v.ready), g);
    let c = flat(elements_of::<String>(v.unsupported), h);
    lemma_flat_sound(ms, f);
    lemma_flat_sound(elements_of::<String>(v.ready), g);
    lemma_flat_sound(elements_of::<String>(v.unsupported), h);
    lemma_joined_sound(a, b);
    lemma_joined_sound(a + b, c);
}

/// Every GPU point names a metric and attributes of the catalogue; a point
/// without a value gives a reason, and one with a value gives none.
pub proof fn law_gpu_points_are_sound(k: Knowledge, processes: bool, w: Watched, state: NvmlState)
    ensures
        all_sound(nvidia_points(k, processes, w, state)),
{
    match state {
        NvmlState::Missing(output) => {
            match output {
                SmiOutput::Written(raw) => {
                    lemma_rows(lines_of(raw@));
                },
                _ => {},
            }
            assert(all_sound(smi_points(output)));
        },
        NvmlState::CountFailed => {},
        NvmlState::Devices { devices, messages } => {
            let f = each_device(k, processes);
            assert forall|d: DeviceReadings| all_sound(#[trigger] f(d)) by {
                assert(f(d) == device_points(k, processes, d));
                lemma_device(k, processes, d);
            }
            lemma_flat_sound(devices@, f);
            lemma_xid(w, messages@);
            lemma_joined_sound(flat(devices@, f), xid_points(w, messages@));
        },
    }
}

/// A disabled property is not queried and gives no points, whatever a GPU would
/// say of it.
pub proof fn law_disabled_properties_give_no_points(
    k: Knowledge,
    q: Query,
    reading: Reading,
    state: StateReading,
    processes: ProcessReading,
    id: Seq<char>,
    index: u32,
)
    requires
        policy_of(k, property_of(q)) == CapabilityPolicy::Disabled,
    ensures
        !queried(k, property_of(q)),
        reading_points(k, q, reading, id, index) == Seq::<Point<Number>>::empty(),
        q == Query::PerformanceState ==> state_points(k, state, id, index) == Seq::<
            Point<Number>,
        >::empty(),
        q == Query::Processes ==> process_points(k, processes, id, index) == Seq::<
            Point<Number>,
        >::empty(),
{
    reveal(reading_points);
    reveal(state_points);
    reveal(process_points);
}

proof fn lemma_not_supported(q: Query, f: NvmlFault)
    requires
        f.unsupported,
        f.name@ == "NotSupported"@,
    ensures
        fault_point(q, f) == unsupported_point(q),
{
    reveal_strlit("NVML_");
    reveal_strlit("NotSupported");
    reveal_strlit("NVML_NOTSUPPORTED");
    assert(uppercase("NVML_"@ + f.name@) =~= "NVML_NOTSUPPORTED"@);
}

/// A property that NVML does not support stays represented: once it is known to
/// be unsupported and is not queried any more, a GPU gives the same point of it,
/// without a value, that the query gave.
pub proof fn law_unsupported_properties_stay_represented(
    k: Knowledge,
    q: Query,
    f: NvmlFault,
    reading: Reading,
    state: StateReading,
    processes: ProcessReading,
    id: Seq<char>,
    index: u32,
)
    requires
        policy_of(k, property_of(q)) == CapabilityPolicy::Auto,
        f.unsupported,
        f.name@ == "NotSupported"@,
    ensures
        ({
            let later = after_unsupported(k, property_of(q));
            let points = reading_points(later, q, reading, id, index);
            &&& !queried(later, property_of(q))
            &&& points == reading_points(k, q, Reading::Failed(f), id, index)
            &&& points.len() == 1
            &&& points[0].value is None && points[0].quality == Quality::Unsupported
            &&& points[0].error_code == Some("NVML_NOTSUPPORTED"@)
            &&& q == Query::PerformanceState ==> state_points(later, state, id, index)
                == state_points(k, StateReading::Failed(f), id, index)
            &&& q == Query::Processes ==> process_points(later, processes, id, index)
                == process_points(k, ProcessReading::Failed(f), id, index)
        }),
{
    reveal(reading_points);
    reveal(state_points);
    reveal(process_points);
    lemma_not_supported(q, f);
}

/// A GPU gives a number of a property only where the property is queried and the
/// query gave one, or where the field that stands in for it writes a number.
pub proof fn law_gpu_numbers_come_from_readings(
    k: Knowledge,
    q: Query,
    reading: Reading,
    state: StateReading,
    processes: ProcessReading,
    process: ProcessMemory,
    id: Seq<char>,
    index: u32,
    name: Seq<char>,
    unit: Seq<char>,
    field: Seq<char>,
)
    ensures
        forall|i: int|
            0 <= i < reading_points(k, q, reading, id, index).len() ==> valued_where(
                #[trigger] reading_points(k, q, reading, id, index)[i],
                metric_of(q),
                reading is Number && queried(k, property_of(q)),
            ),
        forall|i: int|
            0 <= i < state_points(k, state, id, index).len() ==> valued_where(
                #[trigger] state_points(k, state, id, index)[i],
                metric_of(Query::PerformanceState),
                state is State && queried(k, property_of(Query::PerformanceState)),
            ),
        processes !is Processes || !queried(k, property_of(Query::Processes)) ==> forall|i: int|
            0 <= i < process_points(k, processes, id, index).len() ==> (
            #[trigger] process_points(k, processes, id, index)[i]).value is None,
        valued_where(
            process_point(process, id, index),
            metric_of(Query::Processes),
            process.used is Some,
        ),
        valued_where(smi_point(name, unit, field), name, is_float(field)),
{
    reveal(reading_points);
    reveal(state_points);
    reveal(process_points);
}

// --------------------------------------------------------------------------
// Rules
// --------------------------------------------------------------------------

/// What a capability of a matching profile says of a property, and whether the
/// selector of the profile is a specific one.
pub struct Entry {
    pub property: Series,
    pub specific: bool,
    pub found: Found,
}

pub open spec fn entry_of(c: ProfileCapability, specific: bool, id: Seq<char>) -> Entry {
    Entry {
        property: rule_property(c),
        specific,
        found: Found { rule: Ruling { policy: c.policy, reason: c.reason@ }, profile: id },
    }
}

pub open spec fn entries_of(cs: Seq<ProfileCapability>, specific: bool, id: Seq<char>) -> Seq<
    Entry,
> {
    cs.map_values(|c: ProfileCapability| entry_of(c, specific, id))
}

/// What a profile says of the hardware.
pub open spec fn profile_entries(h: Hardware) -> spec_fn(HardwareProfile) -> Seq<Entry> {
    |p: HardwareProfile|
        if selects(p.selector, h) {
            entries_of(p.capability@, is_specific(p.selector), p.id@)
        } else {
            seq![]
        }
}

/// What a file says of the hardware.
pub open spec fn file_entries(h: Hardware) -> spec_fn(ProfileFile) -> Seq<Entry> {
    |f: ProfileFile| flat(f.hardware_profile@, profile_entries(h))
}

/// What some files say of the hardware.
pub open spec fn entries(fs: Seq<ProfileFile>, h: Hardware) -> Seq<Entry> {
    flat(fs, file_entries(h))
}

/// Some entry is a specific one about a property.
pub open spec fn has_specific(es: Seq<Entry>, k: Series) -> bool {
    exists|i: int| 0 <= i < es.len() && (#[trigger] es[i]).property == k && es[i].specific
}

/// Some entry is about a property.
pub open spec fn has_entry(es: Seq<Entry>, k: Series) -> bool {
    exists|i: int| 0 <= i < es.len() && (#[trigger] es[i]).property == k
}

/// No two entries are about the same property and equally specific.
pub open spec fn distinct(es: Seq<Entry>) -> bool {
    forall|i: int, j: int|
        0 <= i < j < es.len() ==> !((#[trigger] es[i]).property == (#[trigger] es[j]).property
            && es[i].specific == es[j].specific)
}

/// The profiles of a file.
pub open spec fn file_profiles() -> spec_fn(ProfileFile) -> Seq<HardwareProfile> {
    |f: ProfileFile| f.hardware_profile@
}

/// Nothing is wrong with any of the profiles, and no two have the same name.
pub open spec fn well_formed(ps: Seq<HardwareProfile>) -> bool {
    &&& forall|i: int|
        0 <= i < ps.len() ==> profile_refusal(#[trigger] ps[i], Set::empty()) is None
    &&& forall|i: int, j: int|
        0 <= i < j < ps.len() ==> (#[trigger] ps[i]).id@ != (#[trigger] ps[j]).id@
}

/// Every file holds profiles, which are well formed, and what the matching ones
/// say does not compete.
pub open spec fn acceptable(fs: Seq<ProfileFile>, h: Hardware) -> bool {
    &&& forall|i: int| 0 <= i < fs.len() ==> (#[trigger] fs[i]).hardware_profile@.len() > 0
    &&& well_formed(flat(fs, file_profiles()))
    &&& distinct(entries(fs, h))
}

spec fn slot(m: Selection, k: Series, specific: bool) -> Option<Found> {
    if specific {
        candidates(m, k).specific
    } else {
        candidates(m, k).general
    }
}

/// A selection holds just what some entries say, each in its place.
spec fn tallies(m: Selection, es: Seq<Entry>) -> bool {
    &&& forall|i: int|
        0 <= i < es.len() ==> m.contains_key((#[trigger] es[i]).property) && slot(
            m,
            es[i].property,
            es[i].specific,
        ) == Some(es[i].found)
    &&& forall|k: Series, specific: bool|
        (#[trigger] slot(m, k, specific)) is Some ==> exists|i: int|
            0 <= i < es.len() && (#[trigger] es[i]).property == k && es[i].specific == specific
    &&& forall|k: Series| #[trigger] m.contains_key(k) ==> has_entry(es, k)
    &&& distinct(es)
}

proof fn lemma_tally_capability(
    m: Selection,
    es: Seq<Entry>,
    c: ProfileCapability,
    specific: bool,
    id: Seq<char>,
)
    requires
        tallies(m, es),
        with_capability(m, c, specific, id) is Ok,
    ensures
        tallies(with_capability(m, c, specific, id)->Ok_0, es.push(entry_of(c, specific, id))),
{
    let n = with_capability(m, c, specific, id)->Ok_0;
    let e = entry_of(c, specific, id);
    let fs = es.push(e);
    assert(slot(m, e.property, specific) is None);
    assert(slot(n, e.property, specific) == Some(e.found));
    assert forall|k: Series, s: bool| k != e.property || s != specific implies #[trigger] slot(
        n,
        k,
        s,
    ) == slot(m, k, s) by {}
    assert(fs[es.len() as int] == e);
    assert forall|i: int| 0 <= i < fs.len() implies n.contains_key((#[trigger] fs[i]).property)
        && slot(n, fs[i].property, fs[i].specific) == Some(fs[i].found) by {
        if i < es.len() {
            assert(fs[i] == es[i]);
        }
    }
    assert forall|k: Series, s: bool| (#[trigger] slot(n, k, s)) is Some implies exists|i: int|
        0 <= i < fs.len() && (#[trigger] fs[i]).property == k && fs[i].specific == s by {
        if k == e.property && s == specific {
            assert(fs[es.len() as int].property == k);
        } else {
            assert(slot(m, k, s) is Some);
            let i = choose|i: int|
                0 <= i < es.len() && (#[trigger] es[i]).property == k && es[i].specific == s;
            assert(fs[i] == es[i]);
        }
    }
    assert forall|k: Series| #[trigger] n.contains_key(k) implies has_entry(fs, k) by {
        if k == e.property {
            assert(fs[es.len() as int].property == k);
        } else {
            assert(m.contains_key(k));
            let i = choose|i: int| 0 <= i < es.len() && (#[trigger] es[i]).property == k;
            assert(fs[i] == es[i]);
        }
    }
    assert forall|i: int, j: int| 0 <= i < j < fs.len() implies !((#[trigger] fs[i]).property
        == (#[trigger] fs[j]).property && fs[i].specific == fs[j].specific) by {
        assert(fs[i] == es[i]);
        if j < es.len() {
            assert(fs[j] == es[j]);
        }
    }
}

proof fn lemma_prefix_distinct(es: Seq<Entry>, more: Seq<Entry>)
    requires
        distinct(es + more),
    ensures
        distinct(es),
{
    assert forall|i: int, j: int| 0 <= i < j < es.len() implies !((#[trigger] es[i]).property
        == (#[trigger] es[j]).property && es[i].specific == es[j].specific) by {
        assert((es + more)[i] == es[i]);
        assert((es + more)[j] == es[j]);
    }
}

proof fn lemma_tally_capabilities(
    m: Selection,
    es: Seq<Entry>,
    cs: Seq<ProfileCapability>,
    specific: bool,
    id: Seq<char>,
)
    requires
        tallies(m, es),
    ensures
        with_capabilities(m, cs, specific, id) is Ok <==> distinct(
            es + entries_of(cs, specific, id),
        ),
        with_capabilities(m, cs, specific, id) matches Ok(n) ==> tallies(
            n,
            es + entries_of(cs, specific, id),
        ),
    decreases cs.len(),
{
    let more = entries_of(cs, specific, id);
    if cs.len() == 0 {
        assert(es + more =~= es);
    } else {
        let rest = cs.drop_last();
        let e = entry_of(cs.last(), specific, id);
        let before = es + entries_of(rest, specific, id);
        lemma_tally_capabilities(m, es, rest, specific, id);
        assert(es + more =~= before + seq![e]);
        assert(es + more =~= before.push(e));
        match with_capabilities(m, rest, specific, id) {
            Ok(n) => {
                if slot(n, e.property, specific) is None {
                    lemma_tally_capability(n, before, cs.last(), specific, id);
                } else {
                    let i = choose|i: int|
                        0 <= i < before.len() && (#[trigger] before[i]).property == e.property
                            && before[i].specific == specific;
                    assert((es + more)[i] == before[i]);
                    assert((es + more)[before.len() as int] == e);
                    assert(!distinct(es + more));
                }
            },
            Err(_) => {
                if distinct(es + more) {
                    lemma_prefix_distinct(before, seq![e]);
                }
            },
        }
    }
}

/// A set holds just the names of some profiles.
spec fn registers(ids: Set<Seq<char>>, ps: Seq<HardwareProfile>) -> bool {
    forall|id: Seq<char>| #[trigger]
        ids.contains(id) <==> exists|i: int| 0 <= i < ps.len() && (#[trigger] ps[i]).id@ == id
}

proof fn lemma_more_profiles(ids: Set<Seq<char>>, ps: Seq<HardwareProfile>, p: HardwareProfile)
    requires
        registers(ids, ps),
    ensures
        registers(ids.insert(p.id@), ps.push(p)),
        well_formed(ps.push(p)) <==> well_formed(ps) && profile_refusal(p, ids) is None,
{
    let qs = ps.push(p);
    assert(qs[ps.len() as int] == p);
    assert forall|id: Seq<char>| ids.insert(p.id@).contains(id) implies exists|i: int|
        0 <= i < qs.len() && (#[trigger] qs[i]).id@ == id by {
        if id == p.id@ {
            assert(qs[ps.len() as int].id@ == id);
        } else {
            assert(ids.contains(id));
            let i = choose|i: int| 0 <= i < ps.len() && (#[trigger] ps[i]).id@ == id;
            assert(qs[i] == ps[i]);
        }
    }
    assert forall|i: int| 0 <= i < qs.len() implies ids.insert(p.id@).contains(
        (#[trigger] qs[i]).id@,
    ) by {
        if i < ps.len() {
            assert(qs[i] == ps[i]);
            assert(ids.contains(ps[i].id@));
        }
    }
    assert(registers(ids.insert(p.id@), qs)) by {
        assert forall|id: Seq<char>| #[trigger] ids.insert(p.id@).contains(id) <==> exists|i: int|
            0 <= i < qs.len() && (#[trigger] qs[i]).id@ == id by {
            if exists|i: int| 0 <= i < qs.len() && (#[trigger] qs[i]).id@ == id {
                let i = choose|i: int| 0 <= i < qs.len() && (#[trigger] qs[i]).id@ == id;
                assert(ids.insert(p.id@).contains(qs[i].id@));
            }
        }
    }
    if well_formed(qs) {
        assert forall|i: int| 0 <= i < ps.len() implies profile_refusal(
            #[trigger] ps[i],
            Set::empty(),
        ) is None by {
            assert(qs[i] == ps[i]);
        }
        assert forall|i: int, j: int| 0 <= i < j < ps.len() implies (#[trigger] ps[i]).id@ != (
        #[trigger] ps[j]).id@ by {
            assert(qs[i] == ps[i]);
            assert(qs[j] == ps[j]);
        }
        assert(profile_refusal(qs[ps.len() as int], Set::empty()) is None);
        if ids.contains(p.id@) {
            let i = choose|i: int| 0 <= i < ps.len() && (#[trigger] ps[i]).id@ == p.id@;
            assert(qs[i] == ps[i]);
            assert(qs[i].id@ != qs[ps.len() as int].id@);
        }
    }
    if well_formed(ps) && profile_refusal(p, ids) is None {
        assert forall|i: int| 0 <= i < qs.len() implies profile_refusal(
            #[trigger] qs[i],
            Set::empty(),
        ) is None by {
            if i < ps.len() {
                assert(qs[i] == ps[i]);
            }
        }
        assert forall|i: int, j: int| 0 <= i < j < qs.len() implies (#[trigger] qs[i]).id@ != (
        #[trigger] qs[j]).id@ by {
            assert(qs[i] == ps[i]);
            if j < ps.len() {
                assert(qs[j] == ps[j]);
            } else {
                assert(ids.contains(ps[i].id@));
            }
        }
    }
}

proof fn lemma_tally_profiles(
    s: Progress,
    es: Seq<Entry>,
    qs: Seq<HardwareProfile>,
    ps: Seq<HardwareProfile>,
    h: Hardware,
)
    requires
        tallies(s.selection, es),
        registers(s.ids, qs),
        well_formed(qs),
    ensures
        with_profiles(s, ps, h) is Ok <==> well_formed(qs + ps) && distinct(
            es + flat(ps, profile_entries(h)),
        ),
        with_profiles(s, ps, h) matches Ok(t) ==> tallies(
            t.selection,
            es + flat(ps, profile_entries(h)),
        ) && registers(t.ids, qs + ps),
    decreases ps.len(),
{
    let f = profile_entries(h);
    if ps.len() == 0 {
        assert(es + flat(ps, f) =~= es);
        assert(qs + ps =~= qs);
    } else {
        let p = ps.last();
        let rest = ps.drop_last();
        let before = es + flat(rest, f);
        lemma_tally_profiles(s, es, qs, rest, h);
        assert(es + flat(ps, f) =~= before + f(p));
        assert(qs + ps =~= (qs + rest).push(p));
        match with_profiles(s, rest, h) {
            Ok(t) => {
                lemma_more_profiles(t.ids, qs + rest, p);
                if selects(p.selector, h) {
                    lemma_tally_capabilities(
                        t.selection,
                        before,
                        p.capability@,
                        is_specific(p.selector),
                        p.id@,
                    );
                } else {
                    assert(before + f(p) =~= before);
                }
            },
            Err(_) => {
                if well_formed(qs + ps) && distinct(es + flat(ps, f)) {
                    lemma_prefix_distinct(before, f(p));
                    lemma_prefix_well_formed(qs + rest, p);
                }
            },
        }
    }
}

proof fn lemma_prefix_well_formed(ps: Seq<HardwareProfile>, p: HardwareProfile)
    requires
        well_formed(ps.push(p)),
    ensures
        well_formed(ps),
{
    let ids = Set::new(
        |id: Seq<char>| exists|i: int| 0 <= i < ps.len() && (#[trigger] ps[i]).id@ == id,
    );
    lemma_more_profiles(ids, ps, p);
}

proof fn lemma_longer_well_formed(ps: Seq<HardwareProfile>, more: Seq<HardwareProfile>)
    requires
        well_formed(ps + more),
    ensures
        well_formed(ps),
    decreases more.len(),
{
    if more.len() == 0 {
        assert(ps + more =~= ps);
    } else {
        assert(ps + more =~= (ps + more.drop_last()).push(more.last()));
        lemma_prefix_well_formed(ps + more.drop_last(), more.last());
        lemma_longer_well_formed(ps, more.drop_last());
    }
}

proof fn lemma_tally_files(fs: Seq<ProfileFile>, h: Hardware)
    ensures
        with_files(fs, h) is Ok <==> acceptable(fs, h),
        with_files(fs, h) matches Ok(s) ==> tallies(s.selection, entries(fs, h)) && registers(
            s.ids,
            flat(fs, file_profiles()),
        ),
    decreases fs.len(),
{
    if fs.len() > 0 {
        let rest = fs.drop_last();
        let file = fs.last();
        let qs = flat(rest, file_profiles());
        lemma_tally_files(rest, h);
        assert(fs[fs.len() - 1] == file);
        match with_files(rest, h) {
            Ok(s) => {
                lemma_tally_profiles(s, entries(rest, h), qs, file.hardware_profile@, h);
                assert forall|i: int| 0 <= i < rest.len() implies fs[i] == #[trigger] rest[i] by {}
                if with_files(fs, h) is Ok {
                    assert forall|i: int| 0 <= i < fs.len() implies (
                    #[trigger] fs[i]).hardware_profile@.len() > 0 by {
                        if i < rest.len() {
                            assert(rest[i] == fs[i]);
                        }
                    }
                }
            },
            Err(_) => {
                if acceptable(fs, h) {
                    assert forall|i: int| 0 <= i < rest.len() implies (
                    #[trigger] rest[i]).hardware_profile@.len() > 0 by {
                        assert(rest[i] == fs[i]);
                    }
                    lemma_longer_well_formed(qs, file.hardware_profile@);
                    lemma_prefix_distinct(entries(rest, h), file_entries(h)(file));
                }
            },
        }
    }
}

/// Profiles are accepted exactly where each file holds some, nothing is wrong
/// with any of them, no two share a name, and no two that match the hardware
/// are equally specific about the same property.
pub proof fn law_profiles_are_accepted_unless_they_compete(fs: Seq<ProfileFile>, h: Hardware)
    ensures
        resolution(fs, h) is Ok <==> acceptable(fs, h),
{
    lemma_tally_files(fs, h);
}

/// Profiles that are accepted decide every property that a matching one is
/// about, and no other. A specific selector decides over a general one,
/// wherever the two stand, and no two that are equally specific compete.
pub proof fn law_most_specific_profile_decides(fs: Seq<ProfileFile>, h: Hardware)
    requires
        resolution(fs, h) is Ok,
    ensures
        ({
            let es = entries(fs, h);
            let rules = resolution(fs, h)->Ok_0;
            &&& forall|k: Series| #[trigger] rules.contains_key(k) <==> has_entry(es, k)
            &&& forall|i: int|
                0 <= i < es.len() && ((#[trigger] es[i]).specific || !has_specific(
                    es,
                    es[i].property,
                )) ==> rules[es[i].property] == es[i].found.rule
            &&& distinct(es)
        }),
{
    lemma_tally_files(fs, h);
    let es = entries(fs, h);
    let m = with_files(fs, h)->Ok_0.selection;
    let rules = winners(m);
    assert forall|k: Series| has_entry(es, k) implies #[trigger] rules.contains_key(k) by {
        let i = choose|i: int| 0 <= i < es.len() && (#[trigger] es[i]).property == k;
        assert(m.contains_key(es[i].property));
    }
    assert forall|i: int|
        0 <= i < es.len() && ((#[trigger] es[i]).specific || !has_specific(
            es,
            es[i].property,
        )) implies rules[es[i].property] == es[i].found.rule by {
        let k = es[i].property;
        assert(m.contains_key(k));
        assert(rules[k] == winner(m[k]));
        if !es[i].specific && slot(m, k, true) is Some {
            let j = choose|j: int|
                0 <= j < es.len() && (#[trigger] es[j]).property == k && es[j].specific == true;
            assert(has_specific(es, k));
        }
    }
}

spec fn competing_entries() -> spec_fn(Entry, Entry) -> bool {
    |a: Entry, b: Entry| a.property == b.property && a.specific == b.specific
}

spec fn same_names() -> spec_fn(HardwareProfile, HardwareProfile) -> bool {
    |a: HardwareProfile, b: HardwareProfile| a.id@ == b.id@
}

proof fn lemma_entries_reordered(fs: Seq<ProfileFile>, gs: Seq<ProfileFile>, h: Hardware)
    requires
        fs.to_multiset() == gs.to_multiset(),
        acceptable(fs, h),
    ensures
        acceptable(gs, h),
        forall|e: Entry| #[trigger] entries(fs, h).contains(e) ==> entries(gs, h).contains(e),
{
    broadcast use vstd::seq_lib::group_to_multiset_ensures;

    let es = entries(fs, h);
    let ps = flat(fs, file_profiles());
    let qs = flat(gs, file_profiles());
    lemma_flat_reordered(fs, gs, file_entries(h));
    lemma_flat_reordered(fs, gs, file_profiles());
    let compete = competing_entries();
    assert forall|i: int, j: int| 0 <= i < j < es.len() implies !compete(
        #[trigger] es[i],
        #[trigger] es[j],
    ) by {}
    lemma_apart_reordered(es, entries(gs, h), compete);
    assert(distinct(entries(gs, h))) by {
        let ds = entries(gs, h);
        assert forall|i: int, j: int| 0 <= i < j < ds.len() implies !((#[trigger] ds[i]).property
            == (#[trigger] ds[j]).property && ds[i].specific == ds[j].specific) by {
            assert(!compete(ds[i], ds[j]));
        }
    }
    let same = same_names();
    assert forall|i: int, j: int| 0 <= i < j < ps.len() implies !same(
        #[trigger] ps[i],
        #[trigger] ps[j],
    ) by {}
    lemma_apart_reordered(ps, qs, same);
    assert(well_formed(qs)) by {
        assert forall|i: int| 0 <= i < qs.len() implies profile_refusal(
            #[trigger] qs[i],
            Set::empty(),
        ) is None by {
            assert(qs.contains(qs[i]));
            assert(ps.to_multiset().count(qs[i]) > 0);
            let j = choose|j: int| 0 <= j < ps.len() && ps[j] == qs[i];
            assert(profile_refusal(ps[j], Set::empty()) is None);
        }
        assert forall|i: int, j: int| 0 <= i < j < qs.len() implies (#[trigger] qs[i]).id@ != (
        #[trigger] qs[j]).id@ by {
            assert(!same(qs[i], qs[j]));
        }
    }
    assert forall|i: int| 0 <= i < gs.len() implies (#[trigger] gs[i]).hardware_profile@.len()
        > 0 by {
        assert(gs.contains(gs[i]));
        assert(fs.to_multiset().count(gs[i]) > 0);
        let j = choose|j: int| 0 <= j < fs.len() && fs[j] == gs[i];
        assert(fs[j].hardware_profile@.len() > 0);
    }
    assert forall|e: Entry| #[trigger] es.contains(e) implies entries(gs, h).contains(e) by {
        assert(es.to_multiset().count(e) > 0);
    }
}

proof fn lemma_rule_of_entry(fs: Seq<ProfileFile>, h: Hardware, k: Series)
    requires
        resolution(fs, h) is Ok,
        has_entry(entries(fs, h), k),
    ensures
        exists|i: int|
            0 <= i < entries(fs, h).len() && (#[trigger] entries(fs, h)[i]).property == k && (
            entries(fs, h)[i].specific || !has_specific(entries(fs, h), k)),
{
    let es = entries(fs, h);
    if has_specific(es, k) {
        let i = choose|i: int|
            0 <= i < es.len() && (#[trigger] es[i]).property == k && es[i].specific;
        assert(es[i].property == k);
    } else {
        let i = choose|i: int| 0 <= i < es.len() && (#[trigger] es[i]).property == k;
        assert(es[i].property == k);
    }
}

/// A rule for a property is also the rule for it with the files in another
/// order.
proof fn lemma_rule_reordered(
    fs: Seq<ProfileFile>,
    gs: Seq<ProfileFile>,
    h: Hardware,
    k: Series,
)
    requires
        fs.to_multiset() == gs.to_multiset(),
        acceptable(fs, h),
        acceptable(gs, h),
        resolution(fs, h) is Ok,
        resolution(gs, h) is Ok,
        resolution(fs, h)->Ok_0.contains_key(k),
    ensures
        resolution(gs, h)->Ok_0.contains_key(k),
        resolution(gs, h)->Ok_0[k] == resolution(fs, h)->Ok_0[k],
{
    let es = entries(fs, h);
    let ds = entries(gs, h);
    lemma_entries_reordered(fs, gs, h);
    lemma_entries_reordered(gs, fs, h);
    law_most_specific_profile_decides(fs, h);
    law_most_specific_profile_decides(gs, h);
    lemma_rule_of_entry(fs, h, k);
    let i = choose|i: int|
        0 <= i < es.len() && (#[trigger] es[i]).property == k && (es[i].specific || !has_specific(
            es,
            k,
        ));
    assert(es.contains(es[i]));
    let j = choose|j: int| 0 <= j < ds.len() && ds[j] == es[i];
    assert(ds[j].property == k);
    if has_specific(ds, k) && !ds[j].specific {
        let l = choose|l: int|
            0 <= l < ds.len() && (#[trigger] ds[l]).property == k && ds[l].specific;
        assert(ds.contains(ds[l]));
        let m = choose|m: int| 0 <= m < es.len() && es[m] == ds[l];
        assert(es[m].property == k && es[m].specific);
        assert(has_specific(es, k));
    }
    assert(resolution(gs, h)->Ok_0[ds[j].property] == ds[j].found.rule);
}

/// The order of the files is no precedence: the same files in another order are
/// accepted as well, and give the same rules.
pub proof fn law_file_order_does_not_decide(
    fs: Seq<ProfileFile>,
    gs: Seq<ProfileFile>,
    h: Hardware,
)
    requires
        fs.to_multiset() == gs.to_multiset(),
    ensures
        resolution(fs, h) is Ok <==> resolution(gs, h) is Ok,
        resolution(fs, h) is Ok ==> resolution(fs, h) == resolution(gs, h),
{
    law_profiles_are_accepted_unless_they_compete(fs, h);
    law_profiles_are_accepted_unless_they_compete(gs, h);
    if acceptable(gs, h) {
        lemma_entries_reordered(gs, fs, h);
    }
    if acceptable(fs, h) {
        lemma_entries_reordered(fs, gs, h);
        let a = resolution(fs, h)->Ok_0;
        let b = resolution(gs, h)->Ok_0;
        assert forall|k: Series| #[trigger] a.contains_key(k) implies b.contains_key(k) && a[k]
            == b[k] by {
            lemma_rule_reordered(fs, gs, h, k);
        }
        assert forall|k: Series| #[trigger] b.contains_key(k) implies a.contains_key(k) by {
            lemma_rule_reordered(gs, fs, h, k);
        }
        assert(a.dom() =~= b.dom());
        assert(a =~= b);
    }
}

} // verus!
