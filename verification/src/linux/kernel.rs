//! Processor, uptime, memory, pressure and paging points.

use super::parse::{
    cpu_times_of, cpu_total_in_range, first_number, first_number_of, key_values_of, meminfo_of,
    parse_cpu_times, parse_key_values, parse_meminfo, parse_pressure, pressure_of, trimmed,
    trimmed_of, CpuTimes,
};
use super::points::{
    change_of, flag, flag_of, gauge, missing, optional_counter, reading, unavailable,
};
use crate::arith::{add_up, minus, multiply, plus, subtract, times};
use crate::catalogue::is_metric;
use crate::rows::{flat, lemma_flat};
use crate::schema::{delta_of, emit, views, MetricPoint, Number, Point, Quality, Value};
use crate::table::Table;
use crate::text::{all_digits, only_digits, optional, same, strip_prefix, strip_prefix_of};
use vstd::prelude::*;

verus! {

// --------------------------------------------------------------------------
// Processors
// --------------------------------------------------------------------------

/// A directory entry of `/sys/devices/system/cpu`.
pub struct CpuEntry {
    /// The name of the entry.
    pub name: String,
    /// The content of its `online` file.
    pub online: Option<String>,
    /// The bits of the number in its `cpufreq/scaling_cur_freq` file.
    pub frequency: Option<u64>,
}

/// The share of the time since `earlier` in which the processors worked.
pub open spec fn utilization(current: CpuTimes, earlier: Option<CpuTimes>) -> Point<Number> {
    match earlier {
        None => missing(
            "system.cpu.utilization"@,
            "1"@,
            Quality::Stale,
            "BASELINE_INITIALIZING"@,
        ),
        Some(past) => {
            let total = minus(current.total, past.total);
            let idle = minus(current.idle, past.idle);
            if total == 0 {
                missing("system.cpu.utilization"@, "1"@, Quality::Stale, "ZERO_INTERVAL"@)
            } else {
                reading(
                    "system.cpu.utilization"@,
                    Number::Ratio { part: minus(total, idle), whole: total },
                    "1"@,
                    Quality::Derived,
                )
            }
        },
    }
}

/// A number of tasks, or the reason why it is not known.
pub open spec fn tasks_point(name: Seq<char>, value: Option<u64>) -> Point<Number> {
    match value {
        Some(v) => reading(name, Number::Count(v), "{task}"@, Quality::Measured),
        None => missing(name, "{task}"@, Quality::Error, "PROC_STAT_FIELD_MISSING"@),
    }
}

/// The points of the processor statistics.
pub open spec fn cpu_points(stat: Option<Seq<char>>, earlier: Option<CpuTimes>) -> Seq<
    Point<Number>,
> {
    match cpu_now(stat) {
        Some(current) => seq![
            utilization(current, earlier),
            tasks_point("system.cpu.tasks.runnable"@, current.runnable),
            tasks_point("system.cpu.tasks.blocked"@, current.blocked),
            change_of(
                "system.cpu.context_switches"@,
                "{context_switch}"@,
                "procfs"@,
                current.context_switches,
                match earlier {
                    Some(past) => past.context_switches,
                    None => None,
                },
                "PROC_STAT_FIELD_MISSING"@,
            ),
        ],
        None => seq![
            missing("system.cpu.utilization"@, "1"@, Quality::Error, "PROC_STAT_READ_FAILED"@),
            missing(
                "system.cpu.context_switches"@,
                "{context_switch}"@,
                Quality::Error,
                "PROC_STAT_READ_FAILED"@,
            ),
        ],
    }
}

/// The counters that a processor statistics text gives, if it does.
pub open spec fn cpu_now(stat: Option<Seq<char>>) -> Option<CpuTimes> {
    match stat {
        Some(raw) => match cpu_times_of(raw) {
            Ok(current) => Some(current),
            Err(_) => None,
        },
        None => None,
    }
}

/// The total of the processor statistics, if any, is in range.
pub open spec fn stat_in_range(stat: Option<Seq<char>>) -> bool {
    stat matches Some(raw) ==> cpu_total_in_range(raw)
}

/// The point of the load average.
pub open spec fn load_point(loadavg: Option<Seq<char>>) -> Point<Number> {
    match first_number_of(loadavg) {
        Some(number) => reading(
            "system.cpu.load_average.1m"@,
            Number::Text(number),
            "1"@,
            Quality::Measured,
        ),
        None => missing(
            "system.cpu.load_average.1m"@,
            "1"@,
            Quality::Error,
            "PROC_LOADAVG_READ_FAILED"@,
        ),
    }
}

/// A processor is online unless its `online` file says otherwise; one that
/// cannot be taken offline has no such file.
pub open spec fn cpu_online(e: CpuEntry) -> bool {
    match trimmed_of(optional(e.online)) {
        Some(v) => v == "1"@,
        None => true,
    }
}

/// The points of one directory entry; only `cpu` and a number names a
/// processor.
pub open spec fn cpu_entry_points(e: CpuEntry) -> Seq<Point<Number>> {
    match strip_prefix_of(e.name@, "cpu"@) {
        Some(id) => if id.len() > 0 && all_digits(id) {
            let online = reading("system.cpu.online"@, flag_of(cpu_online(e)), "1"@, Quality::Measured).with(
                "cpu.logical_number"@,
                id,
            );
            if cpu_online(e) && e.frequency is Some {
                seq![
                    online,
                    reading(
                        "system.cpu.frequency"@,
                        Number::Times { bits: e.frequency->0, factor: 1000 },
                        "Hz"@,
                        Quality::Measured,
                    ).with("cpu.logical_number"@, id),
                ]
            } else {
                seq![online]
            }
        } else {
            seq![]
        },
        None => seq![],
    }
}

pub open spec fn cpu_entries_points() -> spec_fn(CpuEntry) -> Seq<Point<Number>> {
    |e: CpuEntry| cpu_entry_points(e)
}

fn utilization_point(current: &CpuTimes, earlier: &Option<CpuTimes>) -> (r: MetricPoint<Value>)
    ensures
        r@ == utilization(*current, *earlier),
{
    match earlier {
        None => unavailable(
            "system.cpu.utilization",
            "1",
            Quality::Stale,
            "BASELINE_INITIALIZING",
        ),
        Some(past) => {
            let total = subtract(current.total, past.total);
            let idle = subtract(current.idle, past.idle);
            if total == 0 {
                unavailable("system.cpu.utilization", "1", Quality::Stale, "ZERO_INTERVAL")
            } else {
                gauge(
                    "system.cpu.utilization",
                    Value::Ratio { part: subtract(total, idle), whole: total },
                    "1",
                    Quality::Derived,
                )
            }
        },
    }
}

fn tasks_gauge(name: &str, value: Option<u64>) -> (r: MetricPoint<Value>)
    requires
        is_metric(name@),
    ensures
        r@ == tasks_point(name@, value),
{
    match value {
        Some(v) => gauge(name, Value::Count(v), "{task}", Quality::Measured),
        None => unavailable(name, "{task}", Quality::Error, "PROC_STAT_FIELD_MISSING"),
    }
}

/// Adds the points of the processor statistics and returns the counters to
/// compare the next ones with.
pub fn collect_stat(
    earlier: Option<CpuTimes>,
    stat: &Option<String>,
    points: &mut Vec<MetricPoint<Value>>,
) -> (r: Option<CpuTimes>)
    requires
        stat_in_range(optional(*stat)),
    ensures
        views(final(points)@) == views(old(points)@) + cpu_points(optional(*stat), earlier),
        r == (match cpu_now(optional(*stat)) {
            Some(current) => Some(current),
            None => earlier,
        }),
{
    let now: Option<CpuTimes> = match stat {
        Some(raw) => match parse_cpu_times(raw.as_str()) {
            Ok(current) => Some(current),
            Err(_) => None,
        },
        None => None,
    };
    match now {
        Some(current) => {
            emit(points, utilization_point(&current, &earlier));
            emit(points, tasks_gauge("system.cpu.tasks.runnable", current.runnable));
            emit(points, tasks_gauge("system.cpu.tasks.blocked", current.blocked));
            let switches = match earlier {
                Some(past) => past.context_switches,
                None => None,
            };
            emit(
                points,
                optional_counter(
                    "system.cpu.context_switches",
                    "{context_switch}",
                    "procfs",
                    current.context_switches,
                    switches,
                    "PROC_STAT_FIELD_MISSING",
                ),
            );
            Some(current)
        },
        None => {
            emit(
                points,
                unavailable("system.cpu.utilization", "1", Quality::Error, "PROC_STAT_READ_FAILED"),
            );
            emit(
                points,
                unavailable(
                    "system.cpu.context_switches",
                    "{context_switch}",
                    Quality::Error,
                    "PROC_STAT_READ_FAILED",
                ),
            );
            earlier
        },
    }
}

/// Adds the point of the load average.
pub fn collect_load(loadavg: &Option<String>, points: &mut Vec<MetricPoint<Value>>)
    ensures
        views(final(points)@) == views(old(points)@).push(load_point(optional(*loadavg))),
{
    let point = match first_number(loadavg) {
        Some(number) => gauge(
            "system.cpu.load_average.1m",
            Value::Text(number),
            "1",
            Quality::Measured,
        ),
        None => unavailable(
            "system.cpu.load_average.1m",
            "1",
            Quality::Error,
            "PROC_LOADAVG_READ_FAILED",
        ),
    };
    emit(points, point);
}

fn collect_cpu_entry(e: &CpuEntry, points: &mut Vec<MetricPoint<Value>>)
    ensures
        views(final(points)@) == views(old(points)@) + cpu_entry_points(*e),
{
    match strip_prefix(e.name.as_str(), "cpu") {
        Some(id) => {
            if !id.as_str().is_empty() && only_digits(id.as_str()) {
                let online = match trimmed(&e.online) {
                    Some(v) => same(v.as_str(), "1"),
                    None => true,
                };
                emit(
                    points,
                    gauge("system.cpu.online", flag(online), "1", Quality::Measured).with_attribute(
                        "cpu.logical_number",
                        id.as_str(),
                    ),
                );
                if online {
                    match e.frequency {
                        Some(bits) => {
                            emit(
                                points,
                                gauge(
                                    "system.cpu.frequency",
                                    Value::Times { bits, factor: 1000 },
                                    "Hz",
                                    Quality::Measured,
                                ).with_attribute("cpu.logical_number", id.as_str()),
                            );
                        },
                        None => {},
                    }
                }
            }
        },
        None => {},
    }
}

/// Adds the points of each processor.
pub fn collect_cpu_sysfs(entries: &Vec<CpuEntry>, points: &mut Vec<MetricPoint<Value>>)
    ensures
        views(final(points)@) == views(old(points)@) + flat(entries@, cpu_entries_points()),
{
    let ghost start = views(points@);
    let mut i: usize = 0;
    while i < entries.len()
        invariant
            i <= entries@.len(),
            views(points@) == start + flat(entries@.take(i as int), cpu_entries_points()),
        decreases entries@.len() - i,
    {
        proof {
            lemma_flat(entries@, i as int, cpu_entries_points());
        }
        collect_cpu_entry(&entries[i], points);
        i += 1;
    }
    assert(entries@.take(i as int) =~= entries@);
}

// --------------------------------------------------------------------------
// Uptime
// --------------------------------------------------------------------------

/// The point of the uptime.
pub open spec fn uptime_point(uptime: Option<Seq<char>>) -> Point<Number> {
    match first_number_of(uptime) {
        Some(number) => reading("system.uptime"@, Number::Text(number), "s"@, Quality::Measured),
        None => missing("system.uptime"@, "s"@, Quality::Error, "PROC_UPTIME_READ_FAILED"@),
    }
}

/// Adds the point of the uptime.
pub fn collect_uptime(uptime: &Option<String>, points: &mut Vec<MetricPoint<Value>>)
    ensures
        views(final(points)@) == views(old(points)@).push(uptime_point(optional(*uptime))),
{
    let point = match first_number(uptime) {
        Some(number) => gauge("system.uptime", Value::Text(number), "s", Quality::Measured),
        None => unavailable("system.uptime", "s", Quality::Error, "PROC_UPTIME_READ_FAILED"),
    };
    emit(points, point);
}

// --------------------------------------------------------------------------
// Memory
// --------------------------------------------------------------------------

/// The number at `key`, if there is one.
pub open spec fn entry(values: Map<Seq<char>, u64>, key: Seq<char>) -> Option<u64> {
    if values.contains_key(key) {
        Some(values[key])
    } else {
        None
    }
}

/// The bytes of as many huge pages as `key` counts, where both that count and
/// the size of a page are known.
pub open spec fn huge_pages(values: Map<Seq<char>, u64>, key: Seq<char>) -> Option<u64> {
    match (entry(values, key), entry(values, "Hugepagesize"@)) {
        (Some(count), Some(size)) => Some(times(count, size)),
        _ => None,
    }
}

/// Huge pages are configured.
pub open spec fn has_huge_pages(values: Map<Seq<char>, u64>) -> bool {
    entry(values, "HugePages_Total"@) matches Some(total) && total > 0
}

/// What can be allocated when swap, or free huge pages where huge pages are
/// configured, count too; nothing where a part of it is not known.
pub open spec fn with_swap_of(values: Map<Seq<char>, u64>) -> Option<u64> {
    let extra = if has_huge_pages(values) {
        huge_pages(values, "HugePages_Free"@)
    } else {
        entry(values, "SwapFree"@)
    };
    match (entry(values, "MemAvailable"@), extra) {
        (Some(memory), Some(more)) => Some(plus(memory, more)),
        _ => None,
    }
}

/// An amount of memory, or the reason why it is not known.
pub open spec fn memory_point(
    name: Seq<char>,
    value: Option<u64>,
    present: Quality,
    absent: Quality,
) -> Point<Number> {
    match value {
        Some(v) => reading(name, Number::Count(v), "By"@, present),
        None => missing(name, "By"@, absent, "MEMINFO_FIELD_MISSING"@),
    }
}

/// A field of the memory information.
pub open spec fn field_point(
    values: Map<Seq<char>, u64>,
    key: Seq<char>,
    name: Seq<char>,
) -> Point<Number> {
    memory_point(name, entry(values, key), Quality::Measured, Quality::Error)
}

/// The points of the memory information.
pub open spec fn memory_points(values: Map<Seq<char>, u64>) -> Seq<Point<Number>> {
    seq![
        field_point(values, "MemTotal"@, "system.memory.linux.total"@),
        field_point(values, "MemAvailable"@, "system.memory.linux.available"@),
        field_point(values, "MemFree"@, "system.memory.linux.free"@),
        field_point(values, "Cached"@, "system.memory.cached"@),
        field_point(values, "Buffers"@, "system.memory.buffers"@),
        field_point(values, "Active"@, "system.memory.active"@),
        field_point(values, "Inactive"@, "system.memory.inactive"@),
        field_point(values, "Dirty"@, "system.memory.dirty"@),
        field_point(values, "Writeback"@, "system.memory.writeback"@),
        field_point(values, "SReclaimable"@, "system.memory.slab.reclaimable"@),
        field_point(values, "SUnreclaim"@, "system.memory.slab.unreclaimable"@),
        field_point(values, "SwapTotal"@, "system.memory.swap.total"@),
        field_point(values, "SwapFree"@, "system.memory.swap.free"@),
        memory_point(
            "spark.uma.allocatable_without_swap"@,
            entry(values, "MemAvailable"@),
            Quality::Derived,
            Quality::Error,
        ),
        memory_point(
            "spark.uma.allocatable_with_swap"@,
            with_swap_of(values),
            Quality::Derived,
            Quality::Error,
        ),
        memory_point(
            "system.memory.hugepages.total"@,
            huge_pages(values, "HugePages_Total"@),
            Quality::Derived,
            Quality::Unsupported,
        ),
        memory_point(
            "system.memory.hugepages.free"@,
            huge_pages(values, "HugePages_Free"@),
            Quality::Derived,
            Quality::Unsupported,
        ),
        memory_point(
            "system.memory.hugepages.reserved"@,
            huge_pages(values, "HugePages_Rsvd"@),
            Quality::Derived,
            Quality::Unsupported,
        ),
    ]
}

fn get(values: &Table<String, u64>, key: &str) -> (r: Option<u64>)
    ensures
        r == entry(values@, key@),
{
    match values.at(key) {
        Some(v) => Some(*v),
        None => None,
    }
}

fn huge_page_bytes(values: &Table<String, u64>, key: &str) -> (r: Option<u64>)
    ensures
        r == huge_pages(values@, key@),
{
    match (get(values, key), get(values, "Hugepagesize")) {
        (Some(count), Some(size)) => Some(multiply(count, size)),
        _ => None,
    }
}

/// What can be allocated when swap, or free huge pages where huge pages are
/// configured, count too; nothing where a part of it is not known.
pub fn allocatable_with_swap(values: &Table<String, u64>) -> (r: Option<u64>)
    ensures
        r == with_swap_of(values@),
{
    let configured = match get(values, "HugePages_Total") {
        Some(total) => total > 0,
        None => false,
    };
    let extra = if configured {
        huge_page_bytes(values, "HugePages_Free")
    } else {
        get(values, "SwapFree")
    };
    match (get(values, "MemAvailable"), extra) {
        (Some(memory), Some(more)) => Some(add_up(memory, more)),
        _ => None,
    }
}

fn memory_gauge(name: &str, value: Option<u64>, present: Quality, absent: Quality) -> (r:
    MetricPoint<Value>)
    requires
        is_metric(name@),
    ensures
        r@ == memory_point(name@, value, present, absent),
{
    match value {
        Some(v) => gauge(name, Value::Count(v), "By", present),
        None => unavailable(name, "By", absent, "MEMINFO_FIELD_MISSING"),
    }
}

fn memory_field(values: &Table<String, u64>, key: &str, name: &str) -> (r: MetricPoint<Value>)
    requires
        is_metric(name@),
    ensures
        r@ == field_point(values@, key@, name@),
{
    memory_gauge(name, get(values, key), Quality::Measured, Quality::Error)
}

/// The points of the memory information, none if it could not be read.
pub open spec fn meminfo_points(meminfo: Option<Seq<char>>) -> Seq<Point<Number>> {
    match meminfo {
        Some(raw) => memory_points(meminfo_of(raw)),
        None => seq![],
    }
}

/// Adds the points of the memory information.
pub fn collect_memory(meminfo: &Option<String>, points: &mut Vec<MetricPoint<Value>>)
    ensures
        views(final(points)@) == views(old(points)@) + meminfo_points(optional(*meminfo)),
{
    let values = match meminfo {
        Some(raw) => parse_meminfo(raw.as_str()),
        None => {
            return;
        },
    };
    let p = points;
    emit(p, memory_field(&values, "MemTotal", "system.memory.linux.total"));
    emit(p, memory_field(&values, "MemAvailable", "system.memory.linux.available"));
    emit(p, memory_field(&values, "MemFree", "system.memory.linux.free"));
    emit(p, memory_field(&values, "Cached", "system.memory.cached"));
    emit(p, memory_field(&values, "Buffers", "system.memory.buffers"));
    emit(p, memory_field(&values, "Active", "system.memory.active"));
    emit(p, memory_field(&values, "Inactive", "system.memory.inactive"));
    emit(p, memory_field(&values, "Dirty", "system.memory.dirty"));
    emit(p, memory_field(&values, "Writeback", "system.memory.writeback"));
    emit(p, memory_field(&values, "SReclaimable", "system.memory.slab.reclaimable"));
    emit(p, memory_field(&values, "SUnreclaim", "system.memory.slab.unreclaimable"));
    emit(p, memory_field(&values, "SwapTotal", "system.memory.swap.total"));
    emit(p, memory_field(&values, "SwapFree", "system.memory.swap.free"));
    emit(
        p,
        memory_gauge(
            "spark.uma.allocatable_without_swap",
            get(&values, "MemAvailable"),
            Quality::Derived,
            Quality::Error,
        ),
    );
    emit(
        p,
        memory_gauge(
            "spark.uma.allocatable_with_swap",
            allocatable_with_swap(&values),
            Quality::Derived,
            Quality::Error,
        ),
    );
    emit(
        p,
        memory_gauge(
            "system.memory.hugepages.total",
            huge_page_bytes(&values, "HugePages_Total"),
            Quality::Derived,
            Quality::Unsupported,
        ),
    );
    emit(
        p,
        memory_gauge(
            "system.memory.hugepages.free",
            huge_page_bytes(&values, "HugePages_Free"),
            Quality::Derived,
            Quality::Unsupported,
        ),
    );
    emit(
        p,
        memory_gauge(
            "system.memory.hugepages.reserved",
            huge_page_bytes(&values, "HugePages_Rsvd"),
            Quality::Derived,
            Quality::Unsupported,
        ),
    );
}

/// Where huge pages are configured, swap does not count as allocatable.
pub proof fn law_huge_pages_replace_swap(values: Map<Seq<char>, u64>, swap: u64)
    requires
        has_huge_pages(values),
    ensures
        with_swap_of(values.insert("SwapFree"@, swap)) == with_swap_of(values),
{
    reveal_strlit("SwapFree");
    reveal_strlit("HugePages_Total");
    reveal_strlit("HugePages_Free");
    reveal_strlit("Hugepagesize");
    reveal_strlit("MemAvailable");
    assert("SwapFree"@.len() == 8);
    assert("MemAvailable"@.len() == 12);
    assert("Hugepagesize"@.len() == 12);
    assert("HugePages_Free"@.len() == 14);
    assert("HugePages_Total"@.len() == 15);
}

// --------------------------------------------------------------------------
// Pressure
// --------------------------------------------------------------------------

/// What reading a pressure file gave.
pub enum PressureFile {
    Content(String),
    /// The kernel has no such file.
    NotFound,
    Unreadable,
}

/// The point of one class of pressure.
pub open spec fn pressure_point(file: PressureFile, class: Seq<char>, name: Seq<char>) -> Point<
    Number,
> {
    match file {
        PressureFile::Content(raw) => if pressure_of(raw@).contains_key(class) {
            reading(name, Number::Text(pressure_of(raw@)[class]), "%"@, Quality::Measured)
        } else {
            missing(name, "%"@, Quality::Error, "PSI_FIELD_MISSING"@)
        },
        PressureFile::NotFound => missing(name, "%"@, Quality::Unsupported, "PSI_READ_FAILED"@),
        PressureFile::Unreadable => missing(name, "%"@, Quality::Error, "PSI_READ_FAILED"@),
    }
}

/// The points of a pressure domain.
pub open spec fn pressure_points(domain: Seq<char>, file: PressureFile) -> Seq<Point<Number>> {
    if domain == "cpu"@ {
        seq![pressure_point(file, "some"@, "spark.pressure.cpu.some"@)]
    } else if domain == "memory"@ {
        seq![
            pressure_point(file, "some"@, "spark.pressure.memory.some"@),
            pressure_point(file, "full"@, "spark.pressure.memory.full"@),
        ]
    } else if domain == "io"@ {
        seq![
            pressure_point(file, "some"@, "spark.pressure.io.some"@),
            pressure_point(file, "full"@, "spark.pressure.io.full"@),
        ]
    } else {
        seq![]
    }
}

fn pressure_gauge(file: &PressureFile, class: &str, name: &str) -> (r: MetricPoint<Value>)
    requires
        is_metric(name@),
    ensures
        r@ == pressure_point(*file, class@, name@),
{
    match file {
        PressureFile::Content(raw) => {
            let parsed = parse_pressure(raw.as_str());
            match parsed.at(class) {
                Some(number) => gauge(name, Value::Text(number.clone()), "%", Quality::Measured),
                None => unavailable(name, "%", Quality::Error, "PSI_FIELD_MISSING"),
            }
        },
        PressureFile::NotFound => unavailable(name, "%", Quality::Unsupported, "PSI_READ_FAILED"),
        PressureFile::Unreadable => unavailable(name, "%", Quality::Error, "PSI_READ_FAILED"),
    }
}

/// Adds the points of a pressure domain.
pub fn collect_pressure(domain: &str, file: &PressureFile, points: &mut Vec<MetricPoint<Value>>)
    ensures
        views(final(points)@) == views(old(points)@) + pressure_points(domain@, *file),
{
    if same(domain, "cpu") {
        emit(points, pressure_gauge(file, "some", "spark.pressure.cpu.some"));
    } else if same(domain, "memory") {
        emit(points, pressure_gauge(file, "some", "spark.pressure.memory.some"));
        emit(points, pressure_gauge(file, "full", "spark.pressure.memory.full"));
    } else if same(domain, "io") {
        emit(points, pressure_gauge(file, "some", "spark.pressure.io.some"));
        emit(points, pressure_gauge(file, "full", "spark.pressure.io.full"));
    }
}

// --------------------------------------------------------------------------
// Paging
// --------------------------------------------------------------------------

/// The pages that reclaim has scanned, in the background and directly, as far
/// as a paging text counts them; nothing where it counts neither.
pub open spec fn scanned_pages(values: Map<Seq<char>, u64>) -> Option<int> {
    match (entry(values, "pgscan_kswapd"@), entry(values, "pgscan_direct"@)) {
        (Some(background), Some(direct)) => Some(background + direct),
        (Some(background), None) => Some(background as int),
        (None, Some(direct)) => Some(direct as int),
        (None, None) => None,
    }
}

/// The pages that reclaim has scanned fit in the range of the counters.
pub open spec fn reclaim_in_range(vmstat: Option<Seq<char>>) -> bool {
    vmstat matches Some(raw) ==> (scanned_pages(key_values_of(raw)) matches Some(n) ==> n
        <= u64::MAX)
}

/// The counters of a paging text and the reclaim counter made of two of them,
/// which is there only where one of them is.
pub open spec fn vmstat_of(raw: Seq<char>) -> Map<Seq<char>, u64> {
    let values = key_values_of(raw);
    match scanned_pages(values) {
        Some(n) => values.insert("spark_reclaim_pages"@, n as u64),
        None => values.remove("spark_reclaim_pages"@),
    }
}

/// How far a paging counter has gone up, each step worth `multiplier`.
pub open spec fn vmstat_point(
    current: Map<Seq<char>, u64>,
    earlier: Map<Seq<char>, u64>,
    key: Seq<char>,
    name: Seq<char>,
    unit: Seq<char>,
    multiplier: u64,
) -> Point<Number> {
    match (entry(current, key), entry(earlier, key)) {
        (None, _) => missing(name, unit, Quality::Unsupported, "VMSTAT_FIELD_MISSING"@),
        (Some(_), None) => missing(name, unit, Quality::Stale, "BASELINE_INITIALIZING"@),
        (Some(value), Some(past)) => delta_of(
            name,
            Number::Count(times(minus(value, past), multiplier)),
            unit,
            "procfs"@,
        ),
    }
}

/// The points of the paging counters.
pub open spec fn vmstat_points(
    vmstat: Option<Seq<char>>,
    earlier: Map<Seq<char>, u64>,
    page: u64,
) -> Seq<Point<Number>> {
    match vmstat {
        None => seq![
            missing(
                "system.memory.page_faults.major"@,
                "{fault}"@,
                Quality::Error,
                "PROC_VMSTAT_READ_FAILED"@,
            ),
            missing("system.memory.paging"@, "By"@, Quality::Error, "PROC_VMSTAT_READ_FAILED"@),
            missing(
                "system.memory.oom_kills"@,
                "{event}"@,
                Quality::Error,
                "PROC_VMSTAT_READ_FAILED"@,
            ),
        ],
        Some(raw) => {
            let c = vmstat_of(raw);
            let e = earlier;
            seq![
                vmstat_point(c, e, "pgmajfault"@, "system.memory.page_faults.major"@, "{fault}"@, 1),
                vmstat_point(c, e, "pswpin"@, "system.memory.paging"@, "By"@, page).with(
                    "direction"@,
                    "in"@,
                ),
                vmstat_point(c, e, "pswpout"@, "system.memory.paging"@, "By"@, page).with(
                    "direction"@,
                    "out"@,
                ),
                vmstat_point(c, e, "oom_kill"@, "system.memory.oom_kills"@, "{event}"@, 1),
                vmstat_point(c, e, "spark_reclaim_pages"@, "system.memory.reclaim"@, "By"@, page),
            ]
        },
    }
}

/// Whether the pages that reclaim has scanned fit in the range of the counters.
pub fn reclaim_fits(vmstat: &Option<String>) -> (r: bool)
    ensures
        r == reclaim_in_range(optional(*vmstat)),
{
    match vmstat {
        Some(raw) => {
            let values = parse_key_values(raw.as_str());
            match (get(&values, "pgscan_kswapd"), get(&values, "pgscan_direct")) {
                (Some(background), Some(direct)) => background.checked_add(direct).is_some(),
                _ => true,
            }
        },
        None => true,
    }
}

fn reclaim_pages(values: &Table<String, u64>) -> (r: Option<u64>)
    requires
        scanned_pages(values@) matches Some(n) ==> n <= u64::MAX,
    ensures
        match r {
            Some(n) => scanned_pages(values@) == Some(n as int),
            None => scanned_pages(values@) is None,
        },
{
    match (get(values, "pgscan_kswapd"), get(values, "pgscan_direct")) {
        (Some(background), Some(direct)) => Some(background + direct),
        (Some(background), None) => Some(background),
        (None, Some(direct)) => Some(direct),
        (None, None) => None,
    }
}

fn vmstat_counter(
    current: &Table<String, u64>,
    earlier: &Table<String, u64>,
    key: &str,
    name: &str,
    unit: &str,
    multiplier: u64,
) -> (r: MetricPoint<Value>)
    requires
        is_metric(name@),
    ensures
        r@ == vmstat_point(current@, earlier@, key@, name@, unit@, multiplier),
{
    match get(current, key) {
        None => unavailable(name, unit, Quality::Unsupported, "VMSTAT_FIELD_MISSING"),
        Some(value) => match get(earlier, key) {
            None => unavailable(name, unit, Quality::Stale, "BASELINE_INITIALIZING"),
            Some(past) => MetricPoint::counter_delta(
                name,
                Value::Count(multiply(subtract(value, past), multiplier)),
                unit,
                "procfs",
            ),
        },
    }
}

/// Adds the points of the paging counters and keeps the counters to compare
/// the next ones with.
pub fn collect_vmstat(
    earlier: &mut Table<String, u64>,
    vmstat: &Option<String>,
    page: u64,
    points: &mut Vec<MetricPoint<Value>>,
)
    requires
        reclaim_in_range(optional(*vmstat)),
    ensures
        views(final(points)@) == views(old(points)@) + vmstat_points(
            optional(*vmstat),
            old(earlier)@,
            page,
        ),
        final(earlier)@ == (match *vmstat {
            Some(raw) => vmstat_of(raw@),
            None => old(earlier)@,
        }),
{
    let p = points;
    let raw = match vmstat {
        Some(raw) => raw,
        None => {
            let code = "PROC_VMSTAT_READ_FAILED";
            emit(
                p,
                unavailable("system.memory.page_faults.major", "{fault}", Quality::Error, code),
            );
            emit(p, unavailable("system.memory.paging", "By", Quality::Error, code));
            emit(p, unavailable("system.memory.oom_kills", "{event}", Quality::Error, code));
            return;
        },
    };
    let mut c = parse_key_values(raw.as_str());
    match reclaim_pages(&c) {
        Some(reclaim) => {
            c.insert("spark_reclaim_pages".to_owned(), reclaim);
        },
        None => {
            c.remove(&"spark_reclaim_pages".to_owned());
        },
    }
    emit(
        p,
        vmstat_counter(&c, earlier, "pgmajfault", "system.memory.page_faults.major", "{fault}", 1),
    );
    emit(
        p,
        vmstat_counter(&c, earlier, "pswpin", "system.memory.paging", "By", page).with_attribute(
            "direction",
            "in",
        ),
    );
    emit(
        p,
        vmstat_counter(&c, earlier, "pswpout", "system.memory.paging", "By", page).with_attribute(
            "direction",
            "out",
        ),
    );
    emit(p, vmstat_counter(&c, earlier, "oom_kill", "system.memory.oom_kills", "{event}", 1));
    emit(
        p,
        vmstat_counter(&c, earlier, "spark_reclaim_pages", "system.memory.reclaim", "By", page),
    );
    *earlier = c;
}

} // verus!
