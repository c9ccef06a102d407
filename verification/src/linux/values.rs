//! What the points of a Linux host say.

use super::inventory::{
    inventory_of, pretty_name, with_disk, with_network_device, with_sensor_file, with_zone, Disk,
    InventoryFiles, NetworkDevice, Properties, SensorFile, ThermalZone,
};
use super::kernel::{
    cpu_entry_points, cpu_now, cpu_points, load_point, meminfo_points, pressure_points,
    uptime_point, utilization, vmstat_of, vmstat_points, CpuEntry, PressureFile,
};
use super::network::{interface_points, is_hardware, InterfaceFiles};
use super::parse::{
    block_of, cpu_times_of, field_of, key_value_entry, key_values_of, meminfo_entry, meminfo_of,
    network_entry, network_of, number_behind, page_size_of, pressure_of, row_with, BlockCounters,
    CpuTimes, NetworkCounters,
};
use super::storage::{
    block_entry_points, block_now, is_pseudo, mount_entry, mount_points, unescaped,
    BlockEntry, FilesystemStatistics,
};
use super::system::{
    after_core, after_network, after_storage, CoreFiles, Counters, NetworkFiles, StorageFiles,
};
use super::thermal::{channel_points, greatest, ChannelFile, SensorChip};
use crate::doubles::{at_least, is_nan, less};
use crate::rows::{behind, numbers_of, sum_of};
use crate::schema::{InstrumentKind, Number, Point, Quality};
use crate::text::{
    all_digits, decimal, fields_of, has_prefix, is_float, lines_of, optional, split_once_of, split_text_of,
    strip_prefix_of, trim_of, u64_of, Class,
};
use vstd::prelude::*;

verus! {

/// A number, or the largest one where it is out of range.
pub open spec fn capped(n: int) -> u64 {
    if n <= 0xffff_ffff_ffff_ffff {
        n as u64
    } else {
        0xffff_ffff_ffff_ffff
    }
}

/// A point of a gauge with a value.
pub open spec fn tells(p: Point<Number>, name: Seq<char>, unit: Seq<char>, value: Number) -> bool {
    p.name == name && p.unit == unit && p.instrument == InstrumentKind::Gauge && p.value == Some(
        value,
    )
}

/// A point of a counter that went from one number to another: it says by how
/// much it went up, or zero where it went down, and has no value where the
/// counter was not known before.
pub open spec fn tells_growth(
    p: Point<Number>,
    name: Seq<char>,
    unit: Seq<char>,
    now: int,
    then: Option<int>,
) -> bool {
    p.name == name && p.unit == unit && match then {
        None => p.value is None && p.quality == Quality::Stale,
        Some(t) => p.instrument == InstrumentKind::CounterDelta && p.quality == Quality::Derived
            && p.value == Some(
            Number::Count(
                (if now >= t {
                    now - t
                } else {
                    0
                }) as u64,
            ),
        ),
    }
}

/// A point of a counter each of whose steps is worth `worth`.
pub open spec fn tells_steps(
    p: Point<Number>,
    name: Seq<char>,
    unit: Seq<char>,
    now: u64,
    then: u64,
    worth: u64,
) -> bool {
    p.name == name && p.unit == unit && p.instrument == InstrumentKind::CounterDelta && p.value
        == Some(
        Number::Count(
            capped(
                (if now >= then {
                    now - then
                } else {
                    0
                }) * worth,
            ),
        ),
    )
}

// --------------------------------------------------------------------------
// Processors
// --------------------------------------------------------------------------

/// The utilization is the share of the time that was not idle: with the idle
/// time it makes up the whole. All of it where nothing was idle, and none of it
/// where all was.
pub proof fn law_busy_and_idle_make_up_the_whole(current: CpuTimes, past: CpuTimes)
    requires
        past.total < current.total,
        past.idle <= current.idle,
        current.idle - past.idle <= current.total - past.total,
    ensures
        ({
            let p = utilization(current, Some(past));
            let idle = current.idle - past.idle;
            &&& p.name == "system.cpu.utilization"@ && p.unit == "1"@
            &&& p.quality == Quality::Derived
            &&& p.value matches Some(Number::Ratio { part, whole }) && {
                &&& whole == current.total - past.total
                &&& part + idle == whole
                &&& idle == 0 ==> part == whole
                &&& idle == whole ==> part == 0
            }
        }),
{
}

/// With the same time behind them, a host that was idle for longer was not
/// used more.
pub proof fn law_idle_time_is_not_use(
    total: u64,
    past: CpuTimes,
    idle: u64,
    more_idle: u64,
    a: CpuTimes,
    b: CpuTimes,
)
    requires
        a.total == total && b.total == total && past.total < total,
        a.idle == idle && b.idle == more_idle && idle <= more_idle,
    ensures
        utilization(a, Some(past)).value matches Some(Number::Ratio { part: x, whole: m })
            && utilization(b, Some(past)).value matches Some(Number::Ratio { part: y, whole: n })
            && y <= x && m == n && x <= m,
{
}

/// The points of a processor statistics text, one after the other: the share of
/// use, the runnable tasks, the blocked tasks and the context switches since
/// the last text, each of its own row.
pub proof fn law_stat_points_tell_their_rows(raw: Seq<char>, earlier: Option<CpuTimes>)
    requires
        cpu_now(Some(raw)) is Some,
    ensures
        ({
            let points = cpu_points(Some(raw), earlier);
            let rows = lines_of(raw);
            &&& points.len() == 4
            &&& points[0] == utilization(cpu_now(Some(raw))->0, earlier)
            &&& field_of(rows, "procs_running "@) matches Some(n) ==> tells(
                points[1],
                "system.cpu.tasks.runnable"@,
                "{task}"@,
                Number::Count(n),
            )
            &&& field_of(rows, "procs_blocked "@) matches Some(n) ==> tells(
                points[2],
                "system.cpu.tasks.blocked"@,
                "{task}"@,
                Number::Count(n),
            )
            &&& field_of(rows, "ctxt "@) matches Some(n) ==> tells_growth(
                points[3],
                "system.cpu.context_switches"@,
                "{context_switch}"@,
                n as int,
                match earlier {
                    Some(past) => match past.context_switches {
                        Some(t) => Some(t as int),
                        None => None,
                    },
                    None => None,
                },
            )
        }),
{
}

/// A field is the number in the first row that has one behind its name.
pub proof fn law_fields_are_in_their_rows(rows: Seq<Seq<char>>, name: Seq<char>, i: int)
    requires
        0 <= i < rows.len(),
        number_behind(rows[i], name) is Some,
        forall|j: int| 0 <= j < i ==> number_behind(#[trigger] rows[j], name) is None,
    ensures
        field_of(rows, name) == number_behind(rows[i], name),
    decreases rows.len(),
{
    if i > 0 {
        assert(rows.skip(1)[i - 1] == rows[i]);
        assert forall|j: int| 0 <= j < i - 1 implies number_behind(
            #[trigger] rows.skip(1)[j],
            name,
        ) is None by {
            assert(rows.skip(1)[j] == rows[j + 1]);
        }
        law_fields_are_in_their_rows(rows.skip(1), name, i - 1);
    }
}

/// The times of the aggregate row: all fields add up to the total, and the
/// fourth and the fifth, idle and waiting, to the idle time.
pub proof fn law_times_add_up(raw: Seq<char>, row: Seq<char>, v: Seq<u64>)
    requires
        row_with(lines_of(raw), "cpu "@) == Some(row),
        numbers_of(behind(fields_of(row), 1)) == Some(v),
    ensures
        v.len() < 4 ==> cpu_times_of(raw) is Err,
        v.len() >= 4 ==> (cpu_times_of(raw) matches Ok(t) && {
            &&& sum_of(v) <= 0xffff_ffff_ffff_ffff ==> t.total == sum_of(v)
            &&& v.len() == 4 ==> t.idle == v[3]
            &&& v.len() > 4 ==> t.idle == capped(v[3] + v[4])
            &&& t.context_switches == field_of(lines_of(raw), "ctxt "@)
            &&& t.runnable == field_of(lines_of(raw), "procs_running "@)
            &&& t.blocked == field_of(lines_of(raw), "procs_blocked "@)
        }),
{
}

/// A row with a prefix is the first one that starts with it.
pub proof fn law_the_first_row_counts(rows: Seq<Seq<char>>, prefix: Seq<char>, i: int)
    requires
        0 <= i < rows.len(),
        has_prefix(rows[i], prefix),
        forall|j: int| 0 <= j < i ==> !has_prefix(#[trigger] rows[j], prefix),
    ensures
        row_with(rows, prefix) == Some(rows[i]),
    decreases rows.len(),
{
    if i > 0 {
        assert(rows.skip(1)[i - 1] == rows[i]);
        assert forall|j: int| 0 <= j < i - 1 implies !has_prefix(
            #[trigger] rows.skip(1)[j],
            prefix,
        ) by {
            assert(rows.skip(1)[j] == rows[j + 1]);
        }
        law_the_first_row_counts(rows.skip(1), prefix, i - 1);
    }
}

/// A processor directory gives whether the processor is online, under its
/// number, and its frequency in hertz where it is.
pub proof fn law_processors_are_online_or_not(e: CpuEntry, id: Seq<char>)
    requires
        strip_prefix_of(e.name@, "cpu"@) == Some(id),
        id.len() > 0,
        all_digits(id),
    ensures
        ({
            let points = cpu_entry_points(e);
            let online = optional(e.online) is None || trim_of(optional(e.online)->0) == "1"@;
            &&& tells(
                points[0],
                "system.cpu.online"@,
                "1"@,
                Number::Count(
                    if online {
                        1
                    } else {
                        0
                    },
                ),
            )
            &&& points[0].attributes == Map::<Seq<char>, Seq<char>>::empty().insert(
                "cpu.logical_number"@,
                id,
            )
            &&& points.len() == (if online && e.frequency is Some {
                2int
            } else {
                1int
            })
            &&& points.len() == 2 ==> tells(
                points[1],
                "system.cpu.frequency"@,
                "Hz"@,
                Number::Times { bits: e.frequency->0, factor: 1000 },
            ) && points[1].attributes == points[0].attributes
        }),
{
}

/// The load and the uptime are the first numbers of their files.
pub proof fn law_single_numbers_are_told(raw: Seq<char>)
    requires
        fields_of(raw).len() > 0,
        is_float(fields_of(raw)[0]),
    ensures
        tells(
            load_point(Some(raw)),
            "system.cpu.load_average.1m"@,
            "1"@,
            Number::Text(fields_of(raw)[0]),
        ),
        tells(uptime_point(Some(raw)), "system.uptime"@, "s"@, Number::Text(fields_of(raw)[0])),
{
}

// --------------------------------------------------------------------------
// Memory and pressure
// --------------------------------------------------------------------------

/// Each memory point tells its own field, in bytes; huge pages tell as many
/// bytes as their pages have.
pub proof fn law_memory_points_tell_their_fields(raw: Seq<char>)
    ensures
        ({
            let v = meminfo_of(raw);
            let points = meminfo_points(Some(raw));
            &&& points.len() == 18
            &&& v.contains_key("MemTotal"@) ==> tells(
                points[0],
                "system.memory.linux.total"@,
                "By"@,
                Number::Count(v["MemTotal"@]),
            )
            &&& v.contains_key("MemAvailable"@) ==> tells(
                points[1],
                "system.memory.linux.available"@,
                "By"@,
                Number::Count(v["MemAvailable"@]),
            )
            &&& v.contains_key("MemFree"@) ==> tells(
                points[2],
                "system.memory.linux.free"@,
                "By"@,
                Number::Count(v["MemFree"@]),
            )
            &&& v.contains_key("Cached"@) ==> tells(
                points[3],
                "system.memory.cached"@,
                "By"@,
                Number::Count(v["Cached"@]),
            )
            &&& v.contains_key("Buffers"@) ==> tells(
                points[4],
                "system.memory.buffers"@,
                "By"@,
                Number::Count(v["Buffers"@]),
            )
            &&& v.contains_key("Active"@) ==> tells(
                points[5],
                "system.memory.active"@,
                "By"@,
                Number::Count(v["Active"@]),
            )
            &&& v.contains_key("Inactive"@) ==> tells(
                points[6],
                "system.memory.inactive"@,
                "By"@,
                Number::Count(v["Inactive"@]),
            )
            &&& v.contains_key("Dirty"@) ==> tells(
                points[7],
                "system.memory.dirty"@,
                "By"@,
                Number::Count(v["Dirty"@]),
            )
            &&& v.contains_key("Writeback"@) ==> tells(
                points[8],
                "system.memory.writeback"@,
                "By"@,
                Number::Count(v["Writeback"@]),
            )
            &&& v.contains_key("SReclaimable"@) ==> tells(
                points[9],
                "system.memory.slab.reclaimable"@,
                "By"@,
                Number::Count(v["SReclaimable"@]),
            )
            &&& v.contains_key("SUnreclaim"@) ==> tells(
                points[10],
                "system.memory.slab.unreclaimable"@,
                "By"@,
                Number::Count(v["SUnreclaim"@]),
            )
            &&& v.contains_key("SwapTotal"@) ==> tells(
                points[11],
                "system.memory.swap.total"@,
                "By"@,
                Number::Count(v["SwapTotal"@]),
            )
            &&& v.contains_key("SwapFree"@) ==> tells(
                points[12],
                "system.memory.swap.free"@,
                "By"@,
                Number::Count(v["SwapFree"@]),
            )
            &&& v.contains_key("MemAvailable"@) ==> tells(
                points[13],
                "spark.uma.allocatable_without_swap"@,
                "By"@,
                Number::Count(v["MemAvailable"@]),
            )
            &&& v.contains_key("HugePages_Total"@) && v.contains_key("Hugepagesize"@) ==> tells(
                points[15],
                "system.memory.hugepages.total"@,
                "By"@,
                Number::Count(capped(v["HugePages_Total"@] * v["Hugepagesize"@])),
            )
            &&& v.contains_key("HugePages_Free"@) && v.contains_key("Hugepagesize"@) ==> tells(
                points[16],
                "system.memory.hugepages.free"@,
                "By"@,
                Number::Count(capped(v["HugePages_Free"@] * v["Hugepagesize"@])),
            )
            &&& v.contains_key("HugePages_Rsvd"@) && v.contains_key("Hugepagesize"@) ==> tells(
                points[17],
                "system.memory.hugepages.reserved"@,
                "By"@,
                Number::Count(capped(v["HugePages_Rsvd"@] * v["Hugepagesize"@])),
            )
        }),
{
}

/// What can be allocated with swap is the available memory and the free swap;
/// where huge pages are configured, it is the available memory and the free
/// huge pages.
pub proof fn law_allocatable_memory_adds_up(raw: Seq<char>)
    requires
        meminfo_of(raw).contains_key("MemAvailable"@),
    ensures
        ({
            let v = meminfo_of(raw);
            let p = meminfo_points(Some(raw))[14];
            let pages = v.contains_key("HugePages_Total"@) && v["HugePages_Total"@] > 0;
            &&& p.name == "spark.uma.allocatable_with_swap"@
            &&& !pages && v.contains_key("SwapFree"@) ==> tells(
                p,
                "spark.uma.allocatable_with_swap"@,
                "By"@,
                Number::Count(capped(v["MemAvailable"@] + v["SwapFree"@])),
            )
            &&& pages && v.contains_key("HugePages_Free"@) && v.contains_key("Hugepagesize"@)
                ==> tells(
                p,
                "spark.uma.allocatable_with_swap"@,
                "By"@,
                Number::Count(
                    capped(
                        v["MemAvailable"@] + capped(v["HugePages_Free"@] * v["Hugepagesize"@]),
                    ),
                ),
            )
        }),
{
}

/// A memory line gives its number, in bytes where it counts kilobytes.
pub proof fn law_memory_lines_count_bytes(
    line: Seq<char>,
    key: Seq<char>,
    rest: Seq<char>,
    n: u64,
)
    requires
        split_once_of(line, Class::Only(':')) == Some((key, rest)),
        fields_of(rest).len() > 0,
        u64_of(fields_of(rest)[0]) == Some(n),
    ensures
        fields_of(rest).len() > 1 && fields_of(rest)[1] == "kB"@ ==> meminfo_entry(line) == Some(
            (key, capped(n * 1024)),
        ),
        fields_of(rest).len() == 1 || fields_of(rest)[1] != "kB"@ ==> meminfo_entry(line) == Some(
            (key, n),
        ),
{
}

/// Each pressure domain tells its own classes: some tasks waiting, and all of
/// them, which processors have not.
pub proof fn law_pressure_points_tell_their_classes(raw: String)
    ensures
        ({
            let file = PressureFile::Content(raw);
            let v = pressure_of(raw@);
            let cpu = pressure_points("cpu"@, file);
            let memory = pressure_points("memory"@, file);
            let io = pressure_points("io"@, file);
            &&& cpu.len() == 1 && memory.len() == 2 && io.len() == 2
            &&& v.contains_key("some"@) ==> tells(
                cpu[0],
                "spark.pressure.cpu.some"@,
                "%"@,
                Number::Text(v["some"@]),
            ) && tells(
                memory[0],
                "spark.pressure.memory.some"@,
                "%"@,
                Number::Text(v["some"@]),
            ) && tells(io[0], "spark.pressure.io.some"@, "%"@, Number::Text(v["some"@]))
            &&& v.contains_key("full"@) ==> tells(
                memory[1],
                "spark.pressure.memory.full"@,
                "%"@,
                Number::Text(v["full"@]),
            ) && tells(io[1], "spark.pressure.io.full"@, "%"@, Number::Text(v["full"@]))
        }),
{
    reveal_strlit("cpu");
    reveal_strlit("memory");
    reveal_strlit("io");
    assert("cpu"@.len() == 3 && "memory"@.len() == 6 && "io"@.len() == 2);
}

/// A paging counter tells how far it went up, in bytes where it counts pages;
/// reclaim adds the pages scanned in the background and directly.
pub proof fn law_paging_points_tell_their_rows(
    raw: Seq<char>,
    earlier: Map<Seq<char>, u64>,
    page: u64,
)
    requires
        !key_values_of(raw).contains_key("spark_reclaim_pages"@),
    ensures
        ({
            let v = key_values_of(raw);
            let points = vmstat_points(Some(raw), earlier, page);
            &&& points.len() == 5
            &&& v.contains_key("pgmajfault"@) && earlier.contains_key("pgmajfault"@) ==> tells_steps(
                points[0],
                "system.memory.page_faults.major"@,
                "{fault}"@,
                v["pgmajfault"@],
                earlier["pgmajfault"@],
                1,
            )
            &&& v.contains_key("pswpin"@) && earlier.contains_key("pswpin"@) ==> tells_steps(
                points[1],
                "system.memory.paging"@,
                "By"@,
                v["pswpin"@],
                earlier["pswpin"@],
                page,
            )
            &&& v.contains_key("pswpout"@) && earlier.contains_key("pswpout"@) ==> tells_steps(
                points[2],
                "system.memory.paging"@,
                "By"@,
                v["pswpout"@],
                earlier["pswpout"@],
                page,
            )
            &&& v.contains_key("oom_kill"@) && earlier.contains_key("oom_kill"@) ==> tells_steps(
                points[3],
                "system.memory.oom_kills"@,
                "{event}"@,
                v["oom_kill"@],
                earlier["oom_kill"@],
                1,
            )
            &&& points[1].attributes == Map::<Seq<char>, Seq<char>>::empty().insert(
                "direction"@,
                "in"@,
            )
            &&& points[2].attributes == Map::<Seq<char>, Seq<char>>::empty().insert(
                "direction"@,
                "out"@,
            )
            &&& v.contains_key("pgscan_kswapd"@) && v.contains_key("pgscan_direct"@)
                && v["pgscan_kswapd"@] + v["pgscan_direct"@] <= 0xffff_ffff_ffff_ffff
                && earlier.contains_key("spark_reclaim_pages"@) ==> tells_steps(
                points[4],
                "system.memory.reclaim"@,
                "By"@,
                (v["pgscan_kswapd"@] + v["pgscan_direct"@]) as u64,
                earlier["spark_reclaim_pages"@],
                page,
            )
            &&& v.contains_key("pgscan_kswapd"@) && !v.contains_key("pgscan_direct"@)
                && earlier.contains_key("spark_reclaim_pages"@) ==> tells_steps(
                points[4],
                "system.memory.reclaim"@,
                "By"@,
                v["pgscan_kswapd"@],
                earlier["spark_reclaim_pages"@],
                page,
            )
            &&& !v.contains_key("pgscan_kswapd"@) && v.contains_key("pgscan_direct"@)
                && earlier.contains_key("spark_reclaim_pages"@) ==> tells_steps(
                points[4],
                "system.memory.reclaim"@,
                "By"@,
                v["pgscan_direct"@],
                earlier["spark_reclaim_pages"@],
                page,
            )
        }),
        forall|k: Seq<char>|
            k != "spark_reclaim_pages"@ ==> #[trigger] vmstat_of(raw).contains_key(k)
                == key_values_of(raw).contains_key(k) && vmstat_of(raw)[k] == key_values_of(raw)[k],
{
    reveal_strlit("pgmajfault");
    reveal_strlit("pswpin");
    reveal_strlit("pswpout");
    reveal_strlit("oom_kill");
    reveal_strlit("spark_reclaim_pages");
    assert("pgmajfault"@.len() == 10);
    assert("pswpin"@.len() == 6);
    assert("pswpout"@.len() == 7);
    assert("oom_kill"@.len() == 8);
    assert("spark_reclaim_pages"@.len() == 19);
}

/// A paging row gives its number under its name.
pub proof fn law_paging_rows_are_read(line: Seq<char>)
    ensures
        fields_of(line).len() >= 2 && u64_of(fields_of(line)[1]) is Some ==> key_value_entry(line)
            == Some((fields_of(line)[0], u64_of(fields_of(line)[1])->0)),
        fields_of(line).len() < 2 || u64_of(fields_of(line)[1]) is None ==> key_value_entry(line)
            is None,
{
}

/// A page has the size that the system reports.
pub proof fn law_page_sizes_are_reported(n: i64)
    ensures
        n >= 0 ==> page_size_of(Some(n)) == n,
        n < 0 ==> page_size_of(Some(n)) == 4096,
        page_size_of(None) == 4096,
{
}

// --------------------------------------------------------------------------
// Network
// --------------------------------------------------------------------------

/// The attributes of a counter of an interface in one direction.
pub open spec fn in_direction(interface: Seq<char>, direction: Seq<char>) -> Map<
    Seq<char>,
    Seq<char>,
> {
    Map::empty().insert("network.interface.name"@, interface).insert(
        "network.io.direction"@,
        direction,
    )
}

/// Each counter of a hardware interface tells how far it went up itself, in its
/// own direction and under the name of the interface.
#[verifier::rlimit(40)]
pub proof fn law_interface_points_tell_their_counters(
    interface: Seq<char>,
    now: NetworkCounters,
    earlier: Map<Seq<char>, NetworkCounters>,
    files: Map<Seq<char>, InterfaceFiles>,
)
    requires
        is_hardware(interface, files),
    ensures
        ({
            let points = interface_points((interface, now), earlier, files);
            let before = |f: spec_fn(NetworkCounters) -> int|
                if earlier.contains_key(interface) {
                    Some(f(earlier[interface]))
                } else {
                    None
                };
            &&& points.len() >= 10
            &&& tells_growth(
                points[0],
                "system.network.io"@,
                "By"@,
                now.rx_bytes as int,
                before(|c: NetworkCounters| c.rx_bytes as int),
            )
            &&& points[0].attributes == in_direction(interface, "receive"@)
            &&& tells_growth(
                points[1],
                "system.network.io"@,
                "By"@,
                now.tx_bytes as int,
                before(|c: NetworkCounters| c.tx_bytes as int),
            )
            &&& points[1].attributes == in_direction(interface, "transmit"@)
            &&& tells_growth(
                points[2],
                "system.network.packet.count"@,
                "{packet}"@,
                now.rx_packets as int,
                before(|c: NetworkCounters| c.rx_packets as int),
            )
            &&& points[2].attributes == in_direction(interface, "receive"@)
            &&& tells_growth(
                points[3],
                "system.network.packet.count"@,
                "{packet}"@,
                now.tx_packets as int,
                before(|c: NetworkCounters| c.tx_packets as int),
            )
            &&& points[3].attributes == in_direction(interface, "transmit"@)
            &&& tells_growth(
                points[4],
                "system.network.errors"@,
                "{error}"@,
                now.rx_errors as int,
                before(|c: NetworkCounters| c.rx_errors as int),
            )
            &&& points[4].attributes == in_direction(interface, "receive"@)
            &&& tells_growth(
                points[5],
                "system.network.errors"@,
                "{error}"@,
                now.tx_errors as int,
                before(|c: NetworkCounters| c.tx_errors as int),
            )
            &&& points[5].attributes == in_direction(interface, "transmit"@)
            &&& tells_growth(
                points[6],
                "system.network.packet.dropped"@,
                "{packet}"@,
                now.rx_dropped as int,
                before(|c: NetworkCounters| c.rx_dropped as int),
            )
            &&& points[6].attributes == in_direction(interface, "receive"@)
            &&& tells_growth(
                points[8],
                "system.network.packet.dropped"@,
                "{packet}"@,
                now.tx_dropped as int,
                before(|c: NetworkCounters| c.tx_dropped as int),
            )
            &&& points[8].attributes == in_direction(interface, "transmit"@)
        }),
{
}

/// The carrier changes of an interface are those that its file counts, its link
/// is up where its state says so, and its speed is told in bits per second.
pub proof fn law_links_tell_their_files(
    interface: Seq<char>,
    now: NetworkCounters,
    earlier: Map<Seq<char>, NetworkCounters>,
    files: Map<Seq<char>, InterfaceFiles>,
)
    requires
        is_hardware(interface, files),
    ensures
        ({
            let points = interface_points((interface, now), earlier, files);
            let f = files[interface];
            let named = Map::<Seq<char>, Seq<char>>::empty().insert(
                "network.interface.name"@,
                interface,
            );
            &&& f.carrier_changes matches Some(s) ==> (u64_of(trim_of(s@)) matches Some(n)
                ==> tells_growth(
                points[7],
                "system.network.carrier_changes"@,
                "{event}"@,
                n as int,
                if earlier.contains_key(interface) && earlier[interface].carrier_changes is Some {
                    Some(earlier[interface].carrier_changes->0 as int)
                } else {
                    None
                },
            ))
            &&& points[7].attributes == in_direction(interface, "bidirectional"@)
            &&& f.operstate matches Some(s) ==> tells(
                points[9],
                "system.network.link.up"@,
                "1"@,
                Number::Count(
                    if trim_of(s@) == "up"@ {
                        1
                    } else {
                        0
                    },
                ),
            )
            &&& points[9].attributes == named
            &&& f.speed is Some && less(0, f.speed->0) ==> points.len() == 11 && tells(
                points[10],
                "system.network.link.speed"@,
                "bit/s"@,
                Number::Times { bits: f.speed->0, factor: 1_000_000 },
            ) && points[10].attributes == named
        }),
{
}

/// Only interfaces with a device are told, and not the loopback.
pub proof fn law_only_hardware_interfaces_are_told(
    interface: Seq<char>,
    now: NetworkCounters,
    earlier: Map<Seq<char>, NetworkCounters>,
    files: Map<Seq<char>, InterfaceFiles>,
)
    ensures
        interface_points((interface, now), earlier, files).len() > 0 <==> interface != "lo"@
            && files.contains_key(interface) && files[interface].device,
{
}

/// An interface line lists received bytes, packets, errors and drops first, and
/// sent ones from the ninth number on.
pub proof fn law_interface_lines_are_read(
    line: Seq<char>,
    name: Seq<char>,
    values: Seq<char>,
    v: Seq<u64>,
)
    requires
        split_once_of(line, Class::Only(':')) == Some((name, values)),
        numbers_of(fields_of(values)) == Some(v),
    ensures
        v.len() < 16 ==> network_entry(line) is None,
        v.len() >= 16 ==> (network_entry(line) matches Some((interface, c)) && {
            &&& interface == trim_of(name)
            &&& c.rx_bytes == v[0] && c.rx_packets == v[1] && c.rx_errors == v[2] && c.rx_dropped
                == v[3]
            &&& c.tx_bytes == v[8] && c.tx_packets == v[9] && c.tx_errors == v[10] && c.tx_dropped
                == v[11]
        }),
{
}

/// What is kept of the interfaces for the next time are the counters just read.
pub proof fn law_interfaces_are_kept(
    raw: String,
    files: NetworkFiles,
    earlier: Counters,
    interface: Seq<char>,
)
    requires
        files.counters == Some(raw),
    ensures
        ({
            let kept = after_network(files, earlier);
            &&& kept.network.contains_key(interface) == network_of(raw@).contains_key(interface)
            &&& kept.network.contains_key(interface) ==> {
                let a = kept.network[interface];
                let b = network_of(raw@)[interface];
                &&& a.rx_bytes == b.rx_bytes && a.tx_bytes == b.tx_bytes
                &&& a.rx_packets == b.rx_packets && a.tx_packets == b.tx_packets
                &&& a.rx_errors == b.rx_errors && a.tx_errors == b.tx_errors
                &&& a.rx_dropped == b.rx_dropped && a.tx_dropped == b.tx_dropped
            }
            &&& kept.cpu == earlier.cpu && kept.block == earlier.block && kept.vmstat
                == earlier.vmstat
        }),
{
}

// --------------------------------------------------------------------------
// Storage
// --------------------------------------------------------------------------

/// Each counter of a block device tells how far it went up itself, in its own
/// direction; sectors have 512 bytes.
#[verifier::rlimit(40)]
pub proof fn law_device_points_tell_their_counters(
    e: BlockEntry,
    raw: String,
    now: BlockCounters,
    earlier: Map<Seq<char>, BlockCounters>,
)
    requires
        e.stat == Some(raw),
        block_of(raw@) == Some(now),
        !has_prefix(e.name@, "loop"@),
        !has_prefix(e.name@, "ram"@),
    ensures
        ({
            let points = block_entry_points(e, earlier);
            let before = |f: spec_fn(BlockCounters) -> int|
                if earlier.contains_key(e.name@) {
                    Some(f(earlier[e.name@]))
                } else {
                    None
                };
            &&& points.len() == 8
            &&& tells_growth(
                points[0],
                "system.disk.io"@,
                "By"@,
                capped(now.sectors_read * 512) as int,
                before(|c: BlockCounters| capped(c.sectors_read * 512) as int),
            )
            &&& points[0].attributes == Map::<Seq<char>, Seq<char>>::empty().insert(
                "device"@,
                e.name@,
            ).insert("direction"@, "read"@)
            &&& tells_growth(
                points[1],
                "system.disk.io"@,
                "By"@,
                capped(now.sectors_written * 512) as int,
                before(|c: BlockCounters| capped(c.sectors_written * 512) as int),
            )
            &&& points[1].attributes == Map::<Seq<char>, Seq<char>>::empty().insert(
                "device"@,
                e.name@,
            ).insert("direction"@, "write"@)
            &&& tells_growth(
                points[2],
                "system.disk.operation.count"@,
                "{operation}"@,
                now.reads as int,
                before(|c: BlockCounters| c.reads as int),
            )
            &&& points[2].attributes == Map::<Seq<char>, Seq<char>>::empty().insert(
                "device"@,
                e.name@,
            ).insert("direction"@, "read"@)
            &&& tells_growth(
                points[3],
                "system.disk.operation.count"@,
                "{operation}"@,
                now.writes as int,
                before(|c: BlockCounters| c.writes as int),
            )
            &&& points[3].attributes == Map::<Seq<char>, Seq<char>>::empty().insert(
                "device"@,
                e.name@,
            ).insert("direction"@, "write"@)
            &&& tells_growth(
                points[4],
                "system.disk.operation_time"@,
                "ms"@,
                now.read_ms as int,
                before(|c: BlockCounters| c.read_ms as int),
            )
            &&& points[4].attributes == Map::<Seq<char>, Seq<char>>::empty().insert(
                "device"@,
                e.name@,
            ).insert("direction"@, "read"@)
            &&& tells_growth(
                points[5],
                "system.disk.operation_time"@,
                "ms"@,
                now.write_ms as int,
                before(|c: BlockCounters| c.write_ms as int),
            )
            &&& points[5].attributes == Map::<Seq<char>, Seq<char>>::empty().insert(
                "device"@,
                e.name@,
            ).insert("direction"@, "write"@)
            &&& tells_growth(
                points[6],
                "system.disk.operation_time"@,
                "ms"@,
                now.busy_ms as int,
                before(|c: BlockCounters| c.busy_ms as int),
            )
            &&& points[6].attributes == Map::<Seq<char>, Seq<char>>::empty().insert(
                "device"@,
                e.name@,
            ).insert("direction"@, "busy"@)
            &&& tells_growth(
                points[7],
                "system.disk.queue_time"@,
                "ms"@,
                now.queue_ms as int,
                before(|c: BlockCounters| c.queue_ms as int),
            )
            &&& points[7].attributes == Map::<Seq<char>, Seq<char>>::empty().insert(
                "device"@,
                e.name@,
            ).insert("direction"@, "weighted"@)
        }),
{
}

/// Loop and memory devices are not told.
pub proof fn law_virtual_devices_are_not_told(
    e: BlockEntry,
    earlier: Map<Seq<char>, BlockCounters>,
)
    requires
        has_prefix(e.name@, "loop"@) || has_prefix(e.name@, "ram"@),
    ensures
        block_entry_points(e, earlier) == Seq::<Point<Number>>::empty(),
{
}

/// A device statistics text lists reads, sectors read and the time of it, then
/// writes, sectors written and the time of it, and the busy and queued time.
pub proof fn law_device_texts_are_read(raw: Seq<char>, v: Seq<u64>)
    requires
        numbers_of(fields_of(raw)) == Some(v),
    ensures
        v.len() < 11 ==> block_of(raw) is None,
        v.len() >= 11 ==> (block_of(raw) matches Some(c) && {
            &&& c.reads == v[0] && c.sectors_read == v[2] && c.read_ms == v[3]
            &&& c.writes == v[4] && c.sectors_written == v[6] && c.write_ms == v[7]
            &&& c.busy_ms == v[9] && c.queue_ms == v[10]
        }),
{
}

/// The space of a filesystem: its limit is all of its blocks, what is used all
/// but the free ones, and what is available what is left to users; of its
/// inodes those that are not free are used. A filesystem is read-only or not.
pub proof fn law_filesystem_points_tell_their_space(
    m: (Seq<char>, Seq<char>, Seq<char>),
    statistics: Map<Seq<char>, FilesystemStatistics>,
)
    requires
        statistics.contains_key(m.0),
    ensures
        ({
            let points = mount_points(m, statistics);
            let s = statistics[m.0];
            let total = capped(s.blocks * s.fragment_size) as int;
            let free = capped(s.blocks_free * s.fragment_size) as int;
            let available = capped(s.blocks_available * s.fragment_size) as int;
            let used = if total >= free {
                total - free
            } else {
                0
            };
            &&& points.len() == 7
            &&& tells(
                points[0],
                "system.filesystem.limit"@,
                "By"@,
                Number::Count((total) as u64),
            )
            &&& points[0].attributes == Map::<Seq<char>, Seq<char>>::empty()
                .insert("mountpoint"@, m.0)
                .insert("filesystem.type"@, m.1)
                .insert("filesystem.device"@, m.2)
            &&& tells(
                points[1],
                "system.filesystem.usage"@,
                "By"@,
                Number::Count((used) as u64),
            )
            &&& points[1].attributes == Map::<Seq<char>, Seq<char>>::empty()
                .insert("state"@, "used"@)
                .insert("mountpoint"@, m.0)
                .insert("filesystem.type"@, m.1)
                .insert("filesystem.device"@, m.2)
            &&& tells(
                points[2],
                "system.filesystem.usage"@,
                "By"@,
                Number::Count((available) as u64),
            )
            &&& points[2].attributes == Map::<Seq<char>, Seq<char>>::empty()
                .insert("state"@, "available"@)
                .insert("mountpoint"@, m.0)
                .insert("filesystem.type"@, m.1)
                .insert("filesystem.device"@, m.2)
            &&& tells(
                points[3],
                "system.filesystem.inodes"@,
                "{inode}"@,
                Number::Count((s.files as int) as u64),
            )
            &&& points[3].attributes == Map::<Seq<char>, Seq<char>>::empty()
                .insert("state"@, "total"@)
                .insert("mountpoint"@, m.0)
                .insert("filesystem.type"@, m.1)
                .insert("filesystem.device"@, m.2)
            &&& tells(
                points[4],
                "system.filesystem.inodes"@,
                "{inode}"@,
                Number::Count(
                    (if s.files >= s.files_free {
                        s.files - s.files_free
                    } else {
                        0
                    }) as u64,
                ),
            )
            &&& points[4].attributes == Map::<Seq<char>, Seq<char>>::empty()
                .insert("state"@, "used"@)
                .insert("mountpoint"@, m.0)
                .insert("filesystem.type"@, m.1)
                .insert("filesystem.device"@, m.2)
            &&& tells(
                points[5],
                "system.filesystem.inodes"@,
                "{inode}"@,
                Number::Count((s.files_free as int) as u64),
            )
            &&& points[5].attributes == Map::<Seq<char>, Seq<char>>::empty()
                .insert("state"@, "available"@)
                .insert("mountpoint"@, m.0)
                .insert("filesystem.type"@, m.1)
                .insert("filesystem.device"@, m.2)
            &&& tells(
                points[6],
                "system.filesystem.read_only"@,
                "1"@,
                Number::Count(
                    if s.read_only {
                        1
                    } else {
                        0
                    },
                ),
            )
            &&& points[6].attributes == Map::<Seq<char>, Seq<char>>::empty().insert(
                "mountpoint"@,
                m.0,
            ).insert("filesystem.type"@, m.1).insert("filesystem.device"@, m.2)
        }),
{
}

/// A line of the mount table gives its mount point, filesystem and device,
/// exactly if the filesystem holds files of its own and is on a device or names
/// its device otherwise.
pub proof fn law_measured_mounts_are_read(line: Seq<char>, left: Seq<char>, right: Seq<char>)
    requires
        split_text_of(line, " - "@) == Some((left, right)),
        fields_of(left).len() > 4,
        fields_of(right).len() > 1,
    ensures
        ({
            let filesystem = fields_of(right)[0];
            let device = fields_of(right)[1];
            mount_entry(line) == (if !is_pseudo(filesystem) && (has_prefix(device, "/dev/"@)
                || filesystem == "btrfs"@ || filesystem == "cifs"@ || filesystem == "nfs"@
                || filesystem == "nfs4"@ || filesystem == "zfs"@) {
                Some((unescaped(fields_of(left)[4]), (filesystem, unescaped(device))))
            } else {
                None
            })
        }),
{
}

/// The filesystems of disks hold files of their own, whatever is mounted where.
pub proof fn law_disk_filesystems_are_measured(line: Seq<char>, left: Seq<char>, right: Seq<char>)
    requires
        split_text_of(line, " - "@) == Some((left, right)),
        fields_of(left).len() > 4,
        fields_of(right).len() > 1,
        has_prefix(fields_of(right)[1], "/dev/"@),
        fields_of(right)[0] == "ext4"@ || fields_of(right)[0] == "xfs"@ || fields_of(right)[0]
            == "vfat"@,
    ensures
        mount_entry(line) == Some(
            (
                unescaped(fields_of(left)[4]),
                (fields_of(right)[0], unescaped(fields_of(right)[1])),
            ),
        ),
{
    reveal_strlit("ext4");
    reveal_strlit("xfs");
    reveal_strlit("vfat");
    reveal_strlit("autofs");
    reveal_strlit("bpf");
    reveal_strlit("cgroup");
    reveal_strlit("cgroup2");
    reveal_strlit("configfs");
    reveal_strlit("debugfs");
    reveal_strlit("devpts");
    reveal_strlit("devtmpfs");
    reveal_strlit("fusectl");
    reveal_strlit("hugetlbfs");
    reveal_strlit("mqueue");
    reveal_strlit("proc");
    reveal_strlit("pstore");
    reveal_strlit("securityfs");
    reveal_strlit("squashfs");
    reveal_strlit("sysfs");
    reveal_strlit("tracefs");
    let f = fields_of(right)[0];
    assert(f[0] == 'e' && f.len() == 4 || f[0] == 'x' && f.len() == 3 || f[0] == 'v' && f.len()
        == 4);
    assert("autofs"@[0] == 'a' && "bpf"@[0] == 'b' && "cgroup"@[0] == 'c' && "cgroup2"@[0] == 'c');
    assert("configfs"@[0] == 'c' && "debugfs"@[0] == 'd' && "devpts"@[0] == 'd');
    assert("devtmpfs"@[0] == 'd' && "fusectl"@[0] == 'f' && "hugetlbfs"@[0] == 'h');
    assert("mqueue"@[0] == 'm' && "proc"@[0] == 'p' && "pstore"@[0] == 'p');
    assert("securityfs"@[0] == 's' && "squashfs"@[0] == 's' && "sysfs"@[0] == 's');
    assert("tracefs"@[0] == 't');
}

// --------------------------------------------------------------------------
// Temperatures
// --------------------------------------------------------------------------

/// The input of a channel gives its temperature in degrees, of its chip and
/// under its label, with the limits that the channel has.
pub proof fn law_channels_tell_their_temperature(chip: Seq<char>, f: ChannelFile, milli: u64)
    requires
        super::thermal::channel_of(f.filename@) is Some,
        f.milli == Some(milli),
    ensures
        ({
            let points = channel_points(chip, f);
            let a = points[0].attributes;
            &&& points.len() == 1
            &&& tells(
                points[0],
                "system.temperature"@,
                "Cel"@,
                Number::Per { bits: milli, divisor: 1000 },
            )
            &&& points[0].quality == Quality::Measured
            &&& a.contains_key("sensor"@) && a["sensor"@] == chip
            &&& a.contains_key("channel"@)
            &&& f.label matches Some(label) ==> a["channel"@] == trim_of(label@)
            &&& a.contains_key("temperature.limit.max_celsius"@) == f.max is Some
            &&& f.max matches Some(limit) ==> a["temperature.limit.max_celsius"@] == limit@
            &&& a.contains_key("temperature.limit.critical_celsius"@) == f.crit is Some
            &&& f.crit matches Some(limit) ==> a["temperature.limit.critical_celsius"@] == limit@
        }),
{
    reveal_strlit("sensor");
    reveal_strlit("channel");
    reveal_strlit("temperature.limit.max_celsius");
    reveal_strlit("temperature.limit.critical_celsius");
    assert("sensor"@.len() == 6);
    assert("channel"@.len() == 7);
    assert("temperature.limit.max_celsius"@.len() == 29);
    assert("temperature.limit.critical_celsius"@.len() == 34);
}

proof fn lemma_greatest_in(start: Option<u64>, files: Seq<ChannelFile>)
    requires
        start matches Some(s) ==> !is_nan(s),
        forall|i: int|
            0 <= i < files.len() && super::thermal::temperature_of(#[trigger] files[i]) is Some
                ==> !is_nan(super::thermal::temperature_of(files[i])->0),
    ensures
        ({
            let g = super::thermal::greatest_in(start, files);
            &&& start is Some ==> g is Some
            &&& g matches Some(n) ==> {
                &&& !is_nan(n)
                &&& start matches Some(s) ==> at_least(n, s)
                &&& forall|i: int|
                    0 <= i < files.len() && super::thermal::temperature_of(
                        #[trigger] files[i],
                    ) is Some ==> at_least(n, super::thermal::temperature_of(files[i])->0)
            }
            &&& g is None ==> forall|i: int|
                0 <= i < files.len() ==> super::thermal::temperature_of(#[trigger] files[i]) is None
        }),
    decreases files.len(),
{
    if files.len() > 0 {
        let rest = files.drop_last();
        assert forall|i: int|
            0 <= i < rest.len() && super::thermal::temperature_of(
                #[trigger] rest[i],
            ) is Some implies !is_nan(super::thermal::temperature_of(rest[i])->0) by {
            assert(rest[i] == files[i]);
        }
        lemma_greatest_in(start, rest);
        assert forall|i: int| 0 <= i < rest.len() implies #[trigger] files[i] == rest[i] by {}
        assert(files.last() == files[files.len() - 1]);
        let g = super::thermal::greatest_in(start, files);
        let h = super::thermal::greatest_in(start, rest);
        let t = super::thermal::temperature_of(files.last());
        if h is Some && t is Some {
            crate::doubles::law_the_greater_is_not_less(h->0, t->0);
            assert(g == Some(crate::doubles::greater_of(h->0, t->0)));
        }
        assert forall|i: int|
            0 <= i < files.len() && super::thermal::temperature_of(
                #[trigger] files[i],
            ) is Some && g is Some implies at_least(
            g->0,
            super::thermal::temperature_of(files[i])->0,
        ) by {
            if i < rest.len() {
                assert(files[i] == rest[i]);
            }
        }
    }
}

/// The greatest temperature of the chips is not below any temperature of them.
pub proof fn law_the_greatest_temperature_is_not_exceeded(
    chips: Seq<SensorChip>,
    c: int,
    i: int,
)
    requires
        forall|a: int, b: int|
            0 <= a < chips.len() && 0 <= b < chips[a].files@.len()
                && super::thermal::temperature_of(#[trigger] chips[a].files@[b]) is Some
                ==> !is_nan(super::thermal::temperature_of(chips[a].files@[b])->0),
    ensures
        greatest(chips) matches Some(n) ==> !is_nan(n),
        0 <= c < chips.len() && 0 <= i < chips[c].files@.len() && super::thermal::temperature_of(
            chips[c].files@[i],
        ) is Some ==> (greatest(chips) matches Some(n) && at_least(
            n,
            super::thermal::temperature_of(chips[c].files@[i])->0,
        )),
    decreases chips.len(),
{
    if chips.len() > 0 {
        let rest = chips.drop_last();
        assert forall|a: int, b: int|
            0 <= a < rest.len() && 0 <= b < rest[a].files@.len()
                && super::thermal::temperature_of(
                #[trigger] rest[a].files@[b],
            ) is Some implies !is_nan(super::thermal::temperature_of(rest[a].files@[b])->0) by {
            assert(rest[a] == chips[a]);
        }
        law_the_greatest_temperature_is_not_exceeded(rest, c, i);
        let last = chips.last();
        assert(last == chips[chips.len() - 1]);
        assert forall|b: int|
            0 <= b < last.files@.len() && super::thermal::temperature_of(
                #[trigger] last.files@[b],
            ) is Some implies !is_nan(super::thermal::temperature_of(last.files@[b])->0) by {
            assert(last.files@[b] == chips[chips.len() - 1].files@[b]);
        }
        lemma_greatest_in(greatest(rest), last.files@);
        if 0 <= c < rest.len() {
            assert(rest[c] == chips[c]);
        }
    }
}

// --------------------------------------------------------------------------
// Counters between two collections
// --------------------------------------------------------------------------

/// What is kept for the next collection is what was just read, or what was kept
/// before where nothing could be read.
pub proof fn law_readings_are_kept(host: CoreFiles, storage: StorageFiles, earlier: Counters)
    ensures
        ({
            let kept = after_core(host, earlier);
            &&& cpu_now(optional(host.stat)) is Some ==> kept.cpu == cpu_now(optional(host.stat))
            &&& host.stat is None ==> kept.cpu == earlier.cpu
            &&& host.vmstat matches Some(raw) ==> kept.vmstat == vmstat_of(raw@)
            &&& host.vmstat is None ==> kept.vmstat == earlier.vmstat
            &&& kept.network == earlier.network && kept.block == earlier.block
        }),
        ({
            let kept = after_storage(storage, earlier);
            &&& storage.devices is None ==> kept.block == earlier.block
            &&& kept.cpu == earlier.cpu && kept.network == earlier.network && kept.vmstat
                == earlier.vmstat
        }),
{
}

/// The counters of a device are kept as its text gives them.
pub proof fn law_devices_are_kept(entries: Seq<BlockEntry>, i: int, raw: String)
    requires
        0 <= i < entries.len(),
        entries[i].stat == Some(raw),
        block_of(raw@) is Some,
        !has_prefix(entries[i].name@, "loop"@) && !has_prefix(entries[i].name@, "ram"@),
        forall|j: int| i < j < entries.len() ==> (#[trigger] entries[j]).name@ != entries[i].name@,
    ensures
        block_now(entries).contains_key(entries[i].name@),
        block_now(entries)[entries[i].name@] == block_of(raw@)->0,
    decreases entries.len(),
{
    if i < entries.len() - 1 {
        let rest = entries.drop_last();
        assert(rest[i] == entries[i]);
        assert(entries[entries.len() - 1] == entries.last());
        assert forall|j: int| i < j < rest.len() implies (#[trigger] rest[j]).name@
            != rest[i].name@ by {
            assert(rest[j] == entries[j]);
        }
        law_devices_are_kept(rest, i, raw);
    } else {
        assert(entries.last() == entries[i]);
    }
}

// --------------------------------------------------------------------------
// Inventory
// --------------------------------------------------------------------------

/// A disk has its model and firmware in the inventory, and its capacity in
/// bytes, 512 for each sector.
pub proof fn law_disks_are_listed(m: Properties, d: Disk)
    requires
        !has_prefix(d.id@, "loop"@) && !has_prefix(d.id@, "ram"@),
    ensures
        ({
            let prefix = "host.disk."@ + d.id@;
            let n = with_disk(m, d);
            &&& d.model matches Some(s) ==> n.contains_key(prefix + ".model"@) && n[prefix
                + ".model"@] == trim_of(s@)
            &&& d.firmware matches Some(s) ==> n.contains_key(prefix + ".firmware"@) && n[prefix
                + ".firmware"@] == trim_of(s@)
            &&& d.size matches Some(s) ==> (u64_of(trim_of(s@)) matches Some(sectors)
                ==> n.contains_key(prefix + ".capacity_bytes"@) && n[prefix + ".capacity_bytes"@]
                == decimal(capped(sectors * 512) as nat))
        }),
{
    reveal_strlit(".model");
    reveal_strlit(".firmware");
    reveal_strlit(".capacity_bytes");
    let prefix = "host.disk."@ + d.id@;
    assert((prefix + ".model"@).len() == prefix.len() + 6);
    assert((prefix + ".firmware"@).len() == prefix.len() + 9);
    assert((prefix + ".capacity_bytes"@).len() == prefix.len() + 15);
}

/// A hardware network device has its name and its driver in the inventory; what
/// has no device is not listed.
pub proof fn law_network_devices_are_listed(m: Properties, d: NetworkDevice)
    ensures
        ({
            let prefix = "host.network."@ + d.id@;
            let n = with_network_device(m, d);
            &&& !d.device ==> n == m
            &&& d.device ==> n.contains_key(prefix + ".name"@) && n[prefix + ".name"@] == d.id@
            &&& d.device ==> (d.driver matches Some(s) ==> n.contains_key(prefix + ".driver"@)
                && n[prefix + ".driver"@] == s@)
        }),
{
    reveal_strlit(".name");
    reveal_strlit(".driver");
    let prefix = "host.network."@ + d.id@;
    assert((prefix + ".name"@).len() == prefix.len() + 5);
    assert((prefix + ".driver"@).len() == prefix.len() + 7);
}

/// A thermal zone has its type in the inventory.
pub proof fn law_thermal_zones_are_listed(m: Properties, z: ThermalZone)
    ensures
        has_prefix(z.id@, "thermal_zone"@) && z.kind is Some ==> with_zone(m, z) == m.insert(
            "linux.thermal."@ + z.id@ + ".type"@,
            trim_of(z.kind->0@),
        ),
        !has_prefix(z.id@, "thermal_zone"@) || z.kind is None ==> with_zone(m, z) == m,
{
}

/// The inventory of a host names its total memory in bytes, its releases and
/// its processors, where their files say so.
pub proof fn law_hosts_are_listed(files: InventoryFiles)
    ensures
        ({
            let n = inventory_of(files);
            &&& files.meminfo matches Some(raw) ==> (meminfo_of(raw@).contains_key("MemTotal"@)
                ==> n.contains_key("host.memory.total_bytes"@) && n["host.memory.total_bytes"@]
                == decimal(meminfo_of(raw@)["MemTotal"@] as nat))
            &&& files.dgx_release matches Some(raw) ==> (trim_of(raw@).len() > 0
                ==> n.contains_key("host.os.release"@) && n["host.os.release"@] == trim_of(raw@))
            &&& files.cpu_online matches Some(raw) ==> (trim_of(raw@).len() > 0
                ==> n.contains_key("host.cpu.online"@) && n["host.cpu.online"@] == trim_of(raw@))
            &&& files.os_release matches Some(raw) ==> (pretty_name(
                lines_of(raw@),
            ) matches Some(name) ==> (name.len() > 0 ==> n.contains_key("host.os.pretty_name"@)
                && n["host.os.pretty_name"@] == name))
        }),
{
    reveal_strlit("host.memory.total_bytes");
    reveal_strlit("host.os.release");
    reveal_strlit("host.cpu.online");
    reveal_strlit("host.os.pretty_name");
    assert("host.memory.total_bytes"@.len() == 23);
    assert("host.os.release"@.len() == 15 && "host.os.release"@[5] == 'o');
    assert("host.cpu.online"@.len() == 15 && "host.cpu.online"@[5] == 'c');
    assert("host.os.pretty_name"@.len() == 19);
}

/// A property of a temperature channel is listed under its chip and channel:
/// a label as it stands, a limit in degrees.
pub proof fn law_sensor_files_are_listed(
    m: Properties,
    id: Seq<char>,
    f: SensorFile,
    rest: Seq<char>,
    channel: Seq<char>,
    property: Seq<char>,
    raw: String,
)
    requires
        strip_prefix_of(f.filename@, "temp"@) == Some(rest),
        split_once_of(rest, Class::Only('_')) == Some((channel, property)),
        all_digits(channel),
        property == "label"@ || property == "min"@ || property == "max"@ || property == "crit"@
            || property == "emergency"@ || property == "lcrit"@,
        f.content == Some(raw),
    ensures
        ({
            let key = "linux.hwmon."@ + id + ".temp"@ + channel + "."@ + property;
            let n = with_sensor_file(m, id, f);
            &&& property == "label"@ ==> n == m.insert(key, trim_of(raw@))
            &&& property != "label"@ && f.celsius is Some ==> n == m.insert(key, f.celsius->0@)
            &&& property != "label"@ && f.celsius is None ==> n == m.insert(key, trim_of(raw@))
        }),
{
}

} // verus!
