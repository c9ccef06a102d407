//! What holds of all points of a Linux host.

use super::kernel::{
    cpu_entries_points, cpu_entry_points, cpu_now, cpu_points, entry, field_point, has_huge_pages,
    huge_pages, load_point, meminfo_points, memory_point, memory_points, pressure_point,
    pressure_points, uptime_point, utilization, vmstat_of, vmstat_points, with_swap_of, CpuEntry,
    PressureFile,
};
use super::network::{
    carrier_changes_of, each_interface, interface_points, is_hardware, network_points,
    InterfaceFiles,
};
use super::parse::{
    first_number_of, key_values_of, lemma_field_of, meminfo_of, number_behind, pressure_of,
    BlockCounters, CpuTimes, NetworkCounters,
};
use super::points::{change, missing};
use super::storage::{
    block_entry_points, block_points, each_block_entry, each_mount, mount_points,
    mounts_to_measure, BlockEntry, FilesystemStatistics,
};
use super::system::{
    core_points, storage_points, CoreFiles, Counters, NetworkFiles, StorageFiles,
};
use super::thermal::{
    chip_points, channel_points, each_channel, each_chip, temperature_points, ChannelFile,
    SensorChip,
};
use crate::catalogue::is_metric;
use crate::doubles::{less, ZERO};
use crate::rows::flat;
use crate::schema::{
    all_sound, lemma_flat_sound, lemma_joined_sound, sound, valued_where, Number, Point, Quality,
};
use crate::table::items_of;
use crate::text::{lines_of, optional};
use vstd::prelude::*;

verus! {

proof fn lemma_cpu_entries(entries: Seq<CpuEntry>)
    ensures
        all_sound(flat(entries, cpu_entries_points())),
{
    let f = cpu_entries_points();
    assert forall|e: CpuEntry| all_sound(#[trigger] f(e)) by {
        assert(f(e) == cpu_entry_points(e));
    }
    lemma_flat_sound(entries, f);
}

proof fn lemma_network(
    raw: Option<Seq<char>>,
    earlier: Map<Seq<char>, NetworkCounters>,
    files: Map<Seq<char>, InterfaceFiles>,
)
    ensures
        all_sound(network_points(raw, earlier, files)),
{
    let f = each_interface(earlier, files);
    assert forall|e: (Seq<char>, NetworkCounters)| all_sound(#[trigger] f(e)) by {
        assert(f(e) == interface_points(e, earlier, files));
    }
    match raw {
        Some(s) => {
            lemma_flat_sound(
                items_of::<String, NetworkCounters>(super::parse::network_of(s)),
                f,
            );
        },
        None => {},
    }
}

proof fn lemma_block(entries: Option<Vec<BlockEntry>>, earlier: Map<Seq<char>, BlockCounters>)
    ensures
        all_sound(block_points(entries, earlier)),
{
    let f = each_block_entry(earlier);
    assert forall|e: BlockEntry| all_sound(#[trigger] f(e)) by {
        assert(f(e) == block_entry_points(e, earlier));
    }
    match entries {
        Some(v) => {
            lemma_flat_sound(v@, f);
        },
        None => {},
    }
}

proof fn lemma_filesystems(
    mounts: Seq<(Seq<char>, Seq<char>, Seq<char>)>,
    statistics: Map<Seq<char>, FilesystemStatistics>,
)
    ensures
        all_sound(flat(mounts, each_mount(statistics))),
{
    let f = each_mount(statistics);
    assert forall|m: (Seq<char>, Seq<char>, Seq<char>)| all_sound(#[trigger] f(m)) by {
        assert(f(m) == mount_points(m, statistics));
    }
    lemma_flat_sound(mounts, f);
}

proof fn lemma_temperatures(chips: Seq<SensorChip>)
    ensures
        all_sound(temperature_points(chips)),
{
    let f = each_chip();
    assert forall|c: SensorChip| all_sound(#[trigger] f(c)) by {
        let g = each_channel(super::thermal::chip_name(c));
        assert forall|x: ChannelFile| all_sound(#[trigger] g(x)) by {
            assert(g(x) == channel_points(super::thermal::chip_name(c), x));
        }
        lemma_flat_sound(c.files@, g);
        assert(f(c) == chip_points(c));
    }
    lemma_flat_sound(chips, f);
}

proof fn lemma_stat(stat: Option<Seq<char>>, earlier: Option<CpuTimes>)
    ensures
        all_sound(cpu_points(stat, earlier)),
{
}

proof fn lemma_numbers(loadavg: Option<Seq<char>>, uptime: Option<Seq<char>>)
    ensures
        sound(load_point(loadavg)),
        sound(uptime_point(uptime)),
{
}

proof fn lemma_field(values: Map<Seq<char>, u64>, key: Seq<char>, name: Seq<char>)
    requires
        is_metric(name),
    ensures
        sound(field_point(values, key, name)),
{
}

proof fn lemma_memory_point(name: Seq<char>, value: Option<u64>, absent: Quality)
    requires
        is_metric(name),
        absent == Quality::Error || absent == Quality::Unsupported,
    ensures
        sound(memory_point(name, value, Quality::Derived, absent)),
{
}

proof fn lemma_memory(values: Map<Seq<char>, u64>)
    ensures
        all_sound(memory_points(values)),
{
    lemma_field(values, "MemTotal"@, "system.memory.linux.total"@);
    lemma_field(values, "MemAvailable"@, "system.memory.linux.available"@);
    lemma_field(values, "MemFree"@, "system.memory.linux.free"@);
    lemma_field(values, "Cached"@, "system.memory.cached"@);
    lemma_field(values, "Buffers"@, "system.memory.buffers"@);
    lemma_field(values, "Active"@, "system.memory.active"@);
    lemma_field(values, "Inactive"@, "system.memory.inactive"@);
    lemma_field(values, "Dirty"@, "system.memory.dirty"@);
    lemma_field(values, "Writeback"@, "system.memory.writeback"@);
    lemma_field(values, "SReclaimable"@, "system.memory.slab.reclaimable"@);
    lemma_field(values, "SUnreclaim"@, "system.memory.slab.unreclaimable"@);
    lemma_field(values, "SwapTotal"@, "system.memory.swap.total"@);
    lemma_field(values, "SwapFree"@, "system.memory.swap.free"@);
    lemma_memory_point(
        "spark.uma.allocatable_without_swap"@,
        entry(values, "MemAvailable"@),
        Quality::Error,
    );
    lemma_memory_point(
        "spark.uma.allocatable_with_swap"@,
        with_swap_of(values),
        Quality::Error,
    );
    let absent = Quality::Unsupported;
    lemma_memory_point(
        "system.memory.hugepages.total"@,
        huge_pages(values, "HugePages_Total"@),
        absent,
    );
    lemma_memory_point(
        "system.memory.hugepages.free"@,
        huge_pages(values, "HugePages_Free"@),
        absent,
    );
    lemma_memory_point(
        "system.memory.hugepages.reserved"@,
        huge_pages(values, "HugePages_Rsvd"@),
        absent,
    );
}

proof fn lemma_pressure(domain: Seq<char>, file: PressureFile)
    ensures
        all_sound(pressure_points(domain, file)),
{
}

proof fn lemma_vmstat(vmstat: Option<Seq<char>>, earlier: Map<Seq<char>, u64>, page: u64)
    ensures
        all_sound(vmstat_points(vmstat, earlier, page)),
{
}

/// Every point of a host names a metric and attributes of the catalogue; a point
/// without a value gives a reason, and one with a value gives none.
pub proof fn law_host_points_are_sound(
    host: CoreFiles,
    network: NetworkFiles,
    storage: StorageFiles,
    earlier: Counters,
)
    ensures
        all_sound(core_points(host, earlier)),
        all_sound(
            network_points(optional(network.counters), earlier.network, network.interfaces@),
        ),
        all_sound(storage_points(storage, earlier)),
{
    lemma_stat(optional(host.stat), earlier.cpu);
    lemma_numbers(optional(host.loadavg), optional(host.uptime));
    match host.meminfo {
        Some(raw) => {
            lemma_memory(super::parse::meminfo_of(raw@));
        },
        None => {},
    }
    lemma_pressure("cpu"@, host.cpu_pressure);
    lemma_pressure("memory"@, host.memory_pressure);
    lemma_pressure("io"@, host.io_pressure);
    lemma_vmstat(optional(host.vmstat), earlier.vmstat, host.page_size);
    lemma_cpu_entries(host.cpus@);
    lemma_temperatures(host.chips@);
    let a = cpu_points(optional(host.stat), earlier.cpu);
    let b = seq![load_point(optional(host.loadavg))];
    let c = flat(host.cpus@, cpu_entries_points());
    let d = seq![uptime_point(optional(host.uptime))];
    let e = meminfo_points(optional(host.meminfo));
    let f = pressure_points("cpu"@, host.cpu_pressure);
    let g = pressure_points("memory"@, host.memory_pressure);
    let h = pressure_points("io"@, host.io_pressure);
    let i = vmstat_points(optional(host.vmstat), earlier.vmstat, host.page_size);
    let j = temperature_points(host.chips@);
    lemma_joined_sound(a, b);
    lemma_joined_sound(a + b, c);
    lemma_joined_sound(a + b + c, d);
    lemma_joined_sound(a + b + c + d, e);
    lemma_joined_sound(a + b + c + d + e, f);
    lemma_joined_sound(a + b + c + d + e + f, g);
    lemma_joined_sound(a + b + c + d + e + f + g, h);
    lemma_joined_sound(a + b + c + d + e + f + g + h, i);
    lemma_joined_sound(a + b + c + d + e + f + g + h + i, j);
    lemma_network(optional(network.counters), earlier.network, network.interfaces@);
    lemma_block(storage.devices, earlier.block);
    lemma_filesystems(mounts_to_measure(optional(storage.mountinfo)), storage.statistics@);
    lemma_joined_sound(
        block_points(storage.devices, earlier.block),
        flat(mounts_to_measure(optional(storage.mountinfo)), each_mount(storage.statistics@)),
    );
}

/// The first reading of the processors gives no utilization, and a later one a
/// share of the time between the two: nothing at all where no time has passed,
/// and never more than the whole.
pub proof fn law_utilization_is_a_share(stat: Option<Seq<char>>, earlier: Option<CpuTimes>)
    requires
        cpu_now(stat) is Some,
    ensures
        cpu_points(stat, earlier)[0] == utilization(cpu_now(stat)->0, earlier),
        earlier is None ==> cpu_points(stat, earlier)[0].value is None,
        match cpu_points(stat, earlier)[0].value {
            Some(value) => value matches Number::Ratio { part, whole } && part <= whole && 0 < whole,
            None => true,
        },
{
}

/// A counter that is seen for the first time gives no value, and afterwards
/// what it went up by; one that went down gives zero.
pub proof fn law_counters_start_with_a_baseline(
    name: Seq<char>,
    unit: Seq<char>,
    source: Seq<char>,
    earlier: u64,
    value: u64,
)
    ensures
        change(name, unit, source, earlier, None).value is None,
        change(name, unit, source, earlier, None).quality == Quality::Stale,
        value >= earlier ==> change(name, unit, source, value, Some(earlier)).value == Some(
            Number::Count((value - earlier) as u64),
        ),
        value < earlier ==> change(name, unit, source, value, Some(earlier)).value == Some(
            Number::Count(0),
        ),
{
}

// --------------------------------------------------------------------------
// What a source lacks
// --------------------------------------------------------------------------

/// Some row of a text has a number behind `name`.
pub open spec fn has_number(raw: Seq<char>, name: Seq<char>) -> bool {
    exists|i: int|
        0 <= i < lines_of(raw).len() && number_behind(#[trigger] lines_of(raw)[i], name) is Some
}

/// The processor statistics give a number of runnable tasks, blocked tasks or
/// context switches only where a row has that number. Without the aggregate row
/// nothing has a value.
pub proof fn law_stat_numbers_come_from_rows(raw: Seq<char>, earlier: Option<CpuTimes>)
    ensures
        ({
            let points = cpu_points(Some(raw), earlier);
            match cpu_now(Some(raw)) {
                Some(_) => {
                    &&& points.len() == 4
                    &&& points[0].value is Some ==> earlier is Some
                    &&& valued_where(
                        points[1],
                        "system.cpu.tasks.runnable"@,
                        has_number(raw, "procs_running "@),
                    )
                    &&& valued_where(
                        points[2],
                        "system.cpu.tasks.blocked"@,
                        has_number(raw, "procs_blocked "@),
                    )
                    &&& valued_where(
                        points[3],
                        "system.cpu.context_switches"@,
                        has_number(raw, "ctxt "@) && earlier is Some
                            && earlier->0.context_switches is Some,
                    )
                },
                None => forall|i: int|
                    0 <= i < points.len() ==> (#[trigger] points[i]).value is None,
            }
        }),
        forall|i: int|
            0 <= i < cpu_points(None, earlier).len() ==> (#[trigger] cpu_points(
                None,
                earlier,
            )[i]).value is None,
{
    lemma_field_of(lines_of(raw), "procs_running "@);
    lemma_field_of(lines_of(raw), "procs_blocked "@);
    lemma_field_of(lines_of(raw), "ctxt "@);
}

/// A text whose row of runnable tasks, blocked tasks or context switches is
/// missing gives no counter to compare the next one with either.
pub proof fn law_missing_stat_rows_set_no_baseline(raw: Seq<char>)
    requires
        cpu_now(Some(raw)) is Some,
    ensures
        cpu_now(Some(raw))->0.context_switches is Some == has_number(raw, "ctxt "@),
        cpu_now(Some(raw))->0.runnable is Some == has_number(raw, "procs_running "@),
        cpu_now(Some(raw))->0.blocked is Some == has_number(raw, "procs_blocked "@),
{
    lemma_field_of(lines_of(raw), "procs_running "@);
    lemma_field_of(lines_of(raw), "procs_blocked "@);
    lemma_field_of(lines_of(raw), "ctxt "@);
}

proof fn lemma_vmstat_keys()
    ensures
        "pgmajfault"@ != "spark_reclaim_pages"@,
        "pswpin"@ != "spark_reclaim_pages"@,
        "pswpout"@ != "spark_reclaim_pages"@,
        "oom_kill"@ != "spark_reclaim_pages"@,
{
    reveal_strlit("pgmajfault");
    reveal_strlit("pswpin");
    reveal_strlit("pswpout");
    reveal_strlit("oom_kill");
    reveal_strlit("spark_reclaim_pages");
    assert("pgmajfault"@.len() == 10);
    assert("pswpin"@.len() == 6);
    assert("pswpout"@.len() == 7);
    assert("oom_kill"@.len() == 8);
    assert("spark_reclaim_pages"@.len() == 19);
}

/// Reclaim is counted by one of its two rows at least.
pub open spec fn counts_reclaim(raw: Seq<char>) -> bool {
    key_values_of(raw).contains_key("pgscan_kswapd"@) || key_values_of(raw).contains_key(
        "pgscan_direct"@,
    )
}

/// The paging counters give a number only where the text has its row, and the
/// text before it had: reclaim only where one of its two rows is there. A text
/// that could not be read gives no number at all.
pub proof fn law_paging_numbers_come_from_rows(
    raw: Seq<char>,
    earlier: Map<Seq<char>, u64>,
    page: u64,
)
    ensures
        ({
            let v = key_values_of(raw);
            let points = vmstat_points(Some(raw), earlier, page);
            &&& points.len() == 5
            &&& valued_where(
                points[0],
                "system.memory.page_faults.major"@,
                v.contains_key("pgmajfault"@) && earlier.contains_key("pgmajfault"@),
            )
            &&& valued_where(
                points[1],
                "system.memory.paging"@,
                v.contains_key("pswpin"@) && earlier.contains_key("pswpin"@),
            )
            &&& valued_where(
                points[2],
                "system.memory.paging"@,
                v.contains_key("pswpout"@) && earlier.contains_key("pswpout"@),
            )
            &&& valued_where(
                points[3],
                "system.memory.oom_kills"@,
                v.contains_key("oom_kill"@) && earlier.contains_key("oom_kill"@),
            )
            &&& valued_where(
                points[4],
                "system.memory.reclaim"@,
                counts_reclaim(raw) && earlier.contains_key("spark_reclaim_pages"@),
            )
            &&& !counts_reclaim(raw) ==> points[4] == missing(
                "system.memory.reclaim"@,
                "By"@,
                Quality::Unsupported,
                "VMSTAT_FIELD_MISSING"@,
            )
        }),
        vmstat_of(raw).contains_key("spark_reclaim_pages"@) == counts_reclaim(raw),
        forall|i: int|
            0 <= i < vmstat_points(None, earlier, page).len() ==> (#[trigger] vmstat_points(
                None,
                earlier,
                page,
            )[i]).value is None,
{
    lemma_vmstat_keys();
}

/// The memory information gives a number only where it has every field that the
/// number is made of.
pub proof fn law_memory_numbers_come_from_fields(raw: Seq<char>)
    ensures
        ({
            let v = meminfo_of(raw);
            let points = meminfo_points(Some(raw));
            let size = v.contains_key("Hugepagesize"@);
            let available = v.contains_key("MemAvailable"@);
            &&& points.len() == 18
            &&& valued_where(
                points[0],
                "system.memory.linux.total"@,
                v.contains_key("MemTotal"@),
            )
            &&& valued_where(points[1], "system.memory.linux.available"@, available)
            &&& valued_where(points[2], "system.memory.linux.free"@, v.contains_key("MemFree"@))
            &&& valued_where(points[3], "system.memory.cached"@, v.contains_key("Cached"@))
            &&& valued_where(points[4], "system.memory.buffers"@, v.contains_key("Buffers"@))
            &&& valued_where(points[5], "system.memory.active"@, v.contains_key("Active"@))
            &&& valued_where(points[6], "system.memory.inactive"@, v.contains_key("Inactive"@))
            &&& valued_where(points[7], "system.memory.dirty"@, v.contains_key("Dirty"@))
            &&& valued_where(points[8], "system.memory.writeback"@, v.contains_key("Writeback"@))
            &&& valued_where(
                points[9],
                "system.memory.slab.reclaimable"@,
                v.contains_key("SReclaimable"@),
            )
            &&& valued_where(
                points[10],
                "system.memory.slab.unreclaimable"@,
                v.contains_key("SUnreclaim"@),
            )
            &&& valued_where(
                points[11],
                "system.memory.swap.total"@,
                v.contains_key("SwapTotal"@),
            )
            &&& valued_where(points[12], "system.memory.swap.free"@, v.contains_key("SwapFree"@))
            &&& valued_where(points[13], "spark.uma.allocatable_without_swap"@, available)
            &&& valued_where(
                points[14],
                "spark.uma.allocatable_with_swap"@,
                available && if has_huge_pages(v) {
                    v.contains_key("HugePages_Free"@) && size
                } else {
                    v.contains_key("SwapFree"@)
                },
            )
            &&& valued_where(
                points[15],
                "system.memory.hugepages.total"@,
                v.contains_key("HugePages_Total"@) && size,
            )
            &&& valued_where(
                points[16],
                "system.memory.hugepages.free"@,
                v.contains_key("HugePages_Free"@) && size,
            )
            &&& valued_where(
                points[17],
                "system.memory.hugepages.reserved"@,
                v.contains_key("HugePages_Rsvd"@) && size,
            )
        }),
        meminfo_points(None) == Seq::<Point<Number>>::empty(),
{
}

/// A hardware interface gives a number only where its source has one: its
/// counters where they were there the time before, the changes of its carrier
/// where its file writes them, now and the time before, and the state of its
/// link where that can be read.
pub proof fn law_network_numbers_come_from_files(
    interface: Seq<char>,
    counters: NetworkCounters,
    earlier: Map<Seq<char>, NetworkCounters>,
    files: Map<Seq<char>, InterfaceFiles>,
)
    ensures
        ({
            let points = interface_points((interface, counters), earlier, files);
            if is_hardware(interface, files) {
                &&& points.len() >= 10
                &&& forall|i: int|
                    0 <= i < 9 && i != 7 ==> (#[trigger] points[i]).value is Some
                        == earlier.contains_key(interface)
                &&& valued_where(
                    points[7],
                    "system.network.carrier_changes"@,
                    carrier_changes_of(files, interface) is Some && earlier.contains_key(interface)
                        && earlier[interface].carrier_changes is Some,
                )
                &&& valued_where(
                    points[9],
                    "system.network.link.up"@,
                    files[interface].operstate is Some,
                )
                &&& points.len() == 11 <==> (files[interface].speed is Some && less(
                    ZERO,
                    files[interface].speed->0,
                ))
                &&& points.len() <= 11
            } else {
                points == Seq::<Point<Number>>::empty()
            }
        }),
        files.contains_key(interface) && files[interface].carrier_changes is None
            ==> carrier_changes_of(files, interface) is None,
        network_points(None, earlier, files) == Seq::<Point<Number>>::empty(),
{
}

/// What else a host gives a number of, it gives only where that could be read:
/// the load, the uptime, the pressure of a class, the counters of a device, the
/// space of a filesystem and the temperature of a channel.
pub proof fn law_unread_files_give_no_numbers(
    file: Option<Seq<char>>,
    pressure: PressureFile,
    class: Seq<char>,
    name: Seq<char>,
    device: BlockEntry,
    devices: Map<Seq<char>, BlockCounters>,
    mount: (Seq<char>, Seq<char>, Seq<char>),
    statistics: Map<Seq<char>, FilesystemStatistics>,
    chip: Seq<char>,
    channel: ChannelFile,
)
    ensures
        valued_where(
            load_point(file),
            "system.cpu.load_average.1m"@,
            first_number_of(file) is Some,
        ),
        valued_where(uptime_point(file), "system.uptime"@, first_number_of(file) is Some),
        valued_where(
            pressure_point(pressure, class, name),
            name,
            pressure matches PressureFile::Content(raw) && pressure_of(raw@).contains_key(class),
        ),
        device.stat is None ==> block_entry_points(device, devices) == Seq::<
            Point<Number>,
        >::empty(),
        !statistics.contains_key(mount.0) ==> mount_points(mount, statistics) == Seq::<
            Point<Number>,
        >::empty(),
        channel.milli is None ==> channel_points(chip, channel) == Seq::<Point<Number>>::empty(),
{
}

} // verus!
