//! What the points of a host say where something cannot be read, and where
//! their numbers come from.

use super::kernel::{
    cpu_entry_points, cpu_points, load_point, meminfo_points, pressure_points, uptime_point,
    utilization, vmstat_points, CpuEntry, PressureFile,
};
use super::network::{interface_points, is_hardware, InterfaceFiles};
use super::parse::{
    cpu_times_of, key_values_of, meminfo_of, pressure_entry, pressure_of, BlockCounters, CpuTimes,
    NetworkCounters,
};
use super::points::{change, change_of, flag_of, missing, reading};
use super::storage::{block_entry_points, mount_points, BlockEntry, FilesystemStatistics};
use super::values::tells;
use crate::schema::{InstrumentKind, Number, Point, Quality};
use crate::text::{fields_of, has_prefix, is_float, strip_prefix_of, trim_of, u64_of};
use vstd::prelude::*;

verus! {

/// A point without a number, for a reason.
pub open spec fn lacks(
    p: Point<Number>,
    name: Seq<char>,
    unit: Seq<char>,
    quality: Quality,
    code: Seq<char>,
) -> bool {
    &&& p.name == name
    &&& p.unit == unit
    &&& p.value is None
    &&& p.quality == quality
    &&& p.error_code == Some(code)
}

// --------------------------------------------------------------------------
// Points
// --------------------------------------------------------------------------

/// A number is told as a gauge, from the system files for temperatures, disks
/// and links and from the process files otherwise; what could not be had is told
/// as that, without a number.
pub proof fn law_readings_name_their_source(
    name: Seq<char>,
    value: Number,
    unit: Seq<char>,
    quality: Quality,
    code: Seq<char>,
)
    ensures
        tells(reading(name, value, unit, quality), name, unit, value),
        reading(name, value, unit, quality).quality == quality,
        has_prefix(name, "system.temperature"@) || has_prefix(name, "system.disk"@) || has_prefix(
            name,
            "system.network.link"@,
        ) ==> reading(name, value, unit, quality).source == "sysfs"@,
        !has_prefix(name, "system.temperature"@) && !has_prefix(name, "system.disk"@)
            && !has_prefix(name, "system.network.link"@) ==> reading(
            name,
            value,
            unit,
            quality,
        ).source == "procfs"@,
        lacks(missing(name, unit, quality, code), name, unit, quality, code),
        missing(name, unit, quality, code).source == "procfs"@,
{
}

/// A counter says by how much it went up since it was last read; one that went
/// down counts as unchanged, one that is first read waits for the next reading,
/// and one that cannot be read is an error.
pub proof fn law_counters_tell_their_growth(
    name: Seq<char>,
    unit: Seq<char>,
    source: Seq<char>,
    value: u64,
    earlier: u64,
    code: Seq<char>,
)
    ensures
        ({
            let p = change(name, unit, source, value, Some(earlier));
            &&& p.name == name && p.unit == unit && p.source == source
            &&& p.instrument == InstrumentKind::CounterDelta && p.quality == Quality::Derived
            &&& value >= earlier ==> p.value == Some(Number::Count((value - earlier) as u64))
            &&& value < earlier ==> p.value == Some(Number::Count(0))
        }),
        lacks(
            change(name, unit, source, value, None),
            name,
            unit,
            Quality::Stale,
            "BASELINE_INITIALIZING"@,
        ),
        change_of(name, unit, source, Some(value), Some(earlier), code) == change(
            name,
            unit,
            source,
            value,
            Some(earlier),
        ),
        change_of(name, unit, source, Some(value), None, code) == change(
            name,
            unit,
            source,
            value,
            None,
        ),
        lacks(
            change_of(name, unit, source, None, Some(earlier), code),
            name,
            unit,
            Quality::Error,
            code,
        ),
        flag_of(true) == Number::Count(1),
        flag_of(false) == Number::Count(0),
{
}

// --------------------------------------------------------------------------
// Processors
// --------------------------------------------------------------------------

/// Without processor statistics the use and the context switches are errors;
/// with them a missing row is an error of its own.
pub proof fn law_missing_statistics_are_told(raw: Seq<char>, earlier: Option<CpuTimes>)
    ensures
        ({
            let points = cpu_points(None, earlier);
            &&& points.len() == 2
            &&& lacks(
                points[0],
                "system.cpu.utilization"@,
                "1"@,
                Quality::Error,
                "PROC_STAT_READ_FAILED"@,
            )
            &&& lacks(
                points[1],
                "system.cpu.context_switches"@,
                "{context_switch}"@,
                Quality::Error,
                "PROC_STAT_READ_FAILED"@,
            )
        }),
        cpu_times_of(raw) is Err ==> cpu_points(Some(raw), earlier) == cpu_points(None, earlier),
        cpu_times_of(raw) matches Ok(now) ==> ({
            let points = cpu_points(Some(raw), earlier);
            &&& points.len() == 4
            &&& points[0] == utilization(now, earlier)
            &&& now.runnable is None ==> lacks(
                points[1],
                "system.cpu.tasks.runnable"@,
                "{task}"@,
                Quality::Error,
                "PROC_STAT_FIELD_MISSING"@,
            )
            &&& now.runnable matches Some(n) ==> tells(
                points[1],
                "system.cpu.tasks.runnable"@,
                "{task}"@,
                Number::Count(n),
            ) && points[1].quality == Quality::Measured
            &&& now.blocked is None ==> lacks(
                points[2],
                "system.cpu.tasks.blocked"@,
                "{task}"@,
                Quality::Error,
                "PROC_STAT_FIELD_MISSING"@,
            )
            &&& now.blocked matches Some(n) ==> tells(
                points[2],
                "system.cpu.tasks.blocked"@,
                "{task}"@,
                Number::Count(n),
            ) && points[2].quality == Quality::Measured
            &&& now.context_switches is None ==> lacks(
                points[3],
                "system.cpu.context_switches"@,
                "{context_switch}"@,
                Quality::Error,
                "PROC_STAT_FIELD_MISSING"@,
            )
        }),
{
}

/// The use of the processors waits for a second reading, and for time to pass
/// between the two.
pub proof fn law_use_needs_an_interval(now: CpuTimes, then: CpuTimes)
    ensures
        lacks(
            utilization(now, None),
            "system.cpu.utilization"@,
            "1"@,
            Quality::Stale,
            "BASELINE_INITIALIZING"@,
        ),
        now.total <= then.total ==> lacks(
            utilization(now, Some(then)),
            "system.cpu.utilization"@,
            "1"@,
            Quality::Stale,
            "ZERO_INTERVAL"@,
        ),
        now.total > then.total ==> utilization(now, Some(then)).value is Some && utilization(
            now,
            Some(then),
        ).quality == Quality::Derived && utilization(now, Some(then)).unit == "1"@,
{
}

/// A load average or an uptime that is no number, or cannot be read, is an
/// error.
pub proof fn law_missing_numbers_are_told(raw: Seq<char>)
    ensures
        lacks(
            load_point(None),
            "system.cpu.load_average.1m"@,
            "1"@,
            Quality::Error,
            "PROC_LOADAVG_READ_FAILED"@,
        ),
        lacks(
            uptime_point(None),
            "system.uptime"@,
            "s"@,
            Quality::Error,
            "PROC_UPTIME_READ_FAILED"@,
        ),
        fields_of(raw).len() == 0 || !is_float(fields_of(raw)[0]) ==> load_point(Some(raw))
            == load_point(None) && uptime_point(Some(raw)) == uptime_point(None),
        load_point(Some(raw)).value is Some ==> load_point(Some(raw)).quality == Quality::Measured,
        uptime_point(Some(raw)).value is Some ==> uptime_point(Some(raw)).quality
            == Quality::Measured,
{
}

// --------------------------------------------------------------------------
// Memory
// --------------------------------------------------------------------------

/// A field of the memory information that is missing is an error, one of the
/// huge pages is unsupported; without any information there are no points.
/// What is read is measured, and what is added up is derived.
pub proof fn law_missing_memory_is_told(raw: Seq<char>, i: int)
    requires
        0 <= i < 18,
    ensures
        meminfo_points(None) == Seq::<Point<Number>>::empty(),
        ({
            let points = meminfo_points(Some(raw));
            let p = points[i];
            &&& points.len() == 18
            &&& p.unit == "By"@
            &&& i < 15 && p.value is None ==> p.quality == Quality::Error
            &&& i >= 15 && p.value is None ==> p.quality == Quality::Unsupported
            &&& p.value is None ==> p.error_code == Some("MEMINFO_FIELD_MISSING"@)
            &&& i < 13 && p.value is Some ==> p.quality == Quality::Measured
            &&& i >= 13 && p.value is Some ==> p.quality == Quality::Derived
            &&& !meminfo_of(raw).contains_key("MemTotal"@) ==> points[0].value is None
            &&& !meminfo_of(raw).contains_key("MemAvailable"@) ==> points[1].value is None
                && points[13].value is None && points[14].value is None
            &&& !meminfo_of(raw).contains_key("Hugepagesize"@) ==> points[15].value is None
                && points[16].value is None && points[17].value is None
        }),
{
}

/// A kernel without pressure files does not support them, files that cannot be
/// read are errors, and so is a class that a file lacks. No other domain has
/// points.
pub proof fn law_missing_pressure_is_told(file: PressureFile, domain: Seq<char>)
    ensures
        file is NotFound || file is Unreadable ==> ({
            let quality = if file is NotFound {
                Quality::Unsupported
            } else {
                Quality::Error
            };
            let cpu = pressure_points("cpu"@, file);
            let memory = pressure_points("memory"@, file);
            let io = pressure_points("io"@, file);
            &&& cpu.len() == 1 && memory.len() == 2 && io.len() == 2
            &&& lacks(cpu[0], "spark.pressure.cpu.some"@, "%"@, quality, "PSI_READ_FAILED"@)
            &&& lacks(memory[0], "spark.pressure.memory.some"@, "%"@, quality, "PSI_READ_FAILED"@)
            &&& lacks(memory[1], "spark.pressure.memory.full"@, "%"@, quality, "PSI_READ_FAILED"@)
            &&& lacks(io[0], "spark.pressure.io.some"@, "%"@, quality, "PSI_READ_FAILED"@)
            &&& lacks(io[1], "spark.pressure.io.full"@, "%"@, quality, "PSI_READ_FAILED"@)
        }),
        file matches PressureFile::Content(raw) ==> (!pressure_of(raw@).contains_key("some"@)
            ==> lacks(
            pressure_points("cpu"@, file)[0],
            "spark.pressure.cpu.some"@,
            "%"@,
            Quality::Error,
            "PSI_FIELD_MISSING"@,
        ) && lacks(
            pressure_points("memory"@, file)[0],
            "spark.pressure.memory.some"@,
            "%"@,
            Quality::Error,
            "PSI_FIELD_MISSING"@,
        ) && lacks(
            pressure_points("io"@, file)[0],
            "spark.pressure.io.some"@,
            "%"@,
            Quality::Error,
            "PSI_FIELD_MISSING"@,
        )),
        file matches PressureFile::Content(raw) ==> (!pressure_of(raw@).contains_key("full"@)
            ==> lacks(
            pressure_points("memory"@, file)[1],
            "spark.pressure.memory.full"@,
            "%"@,
            Quality::Error,
            "PSI_FIELD_MISSING"@,
        ) && lacks(
            pressure_points("io"@, file)[1],
            "spark.pressure.io.full"@,
            "%"@,
            Quality::Error,
            "PSI_FIELD_MISSING"@,
        )),
        domain != "cpu"@ && domain != "memory"@ && domain != "io"@ ==> pressure_points(
            domain,
            file,
        ).len() == 0,
{
    lemma_domains_differ();
}

proof fn lemma_domains_differ()
    ensures
        "cpu"@ != "memory"@,
        "cpu"@ != "io"@,
        "memory"@ != "io"@,
{
    reveal_strlit("cpu");
    reveal_strlit("memory");
    reveal_strlit("io");
    assert("cpu"@.len() == 3 && "memory"@.len() == 6 && "io"@.len() == 2);
}

/// A line of a pressure file gives, under the class that it begins with, what
/// stands behind `avg10=` in the first field that begins so, where that is a
/// number.
pub proof fn law_pressure_lines_are_read(line: Seq<char>, number: Seq<char>)
    requires
        fields_of(line).len() > 1,
        fields_of(line)[1] == "avg10="@ + number,
    ensures
        is_float(number) ==> pressure_entry(line) == Some((fields_of(line)[0], number)),
        !is_float(number) ==> pressure_entry(line) is None,
{
    let f = fields_of(line).skip(1);
    let prefix = "avg10="@;
    assert(f[0] == prefix + number);
    assert((prefix + number).take(prefix.len() as int) =~= prefix);
    assert((prefix + number).skip(prefix.len() as int) =~= number);
    assert(strip_prefix_of(f[0], prefix) == Some(number));
}

/// Without paging counters their points are errors; a counter that is missing
/// is unsupported, and one that is first read waits for the next reading.
pub proof fn law_missing_paging_is_told(raw: Seq<char>, earlier: Map<Seq<char>, u64>, page: u64)
    ensures
        ({
            let points = vmstat_points(None, earlier, page);
            &&& points.len() == 3
            &&& lacks(
                points[0],
                "system.memory.page_faults.major"@,
                "{fault}"@,
                Quality::Error,
                "PROC_VMSTAT_READ_FAILED"@,
            )
            &&& lacks(
                points[1],
                "system.memory.paging"@,
                "By"@,
                Quality::Error,
                "PROC_VMSTAT_READ_FAILED"@,
            )
            &&& lacks(
                points[2],
                "system.memory.oom_kills"@,
                "{event}"@,
                Quality::Error,
                "PROC_VMSTAT_READ_FAILED"@,
            )
        }),
        ({
            let points = vmstat_points(Some(raw), earlier, page);
            let v = key_values_of(raw);
            &&& unread(v, earlier, "pgmajfault"@, points[0], "{fault}"@)
            &&& unread(v, earlier, "pswpin"@, points[1], "By"@)
            &&& unread(v, earlier, "pswpout"@, points[2], "By"@)
            &&& unread(v, earlier, "oom_kill"@, points[3], "{event}"@)
            &&& !v.contains_key("pgscan_kswapd"@) && !v.contains_key("pgscan_direct"@) ==> lacks(
                points[4],
                "system.memory.reclaim"@,
                "By"@,
                Quality::Unsupported,
                "VMSTAT_FIELD_MISSING"@,
            )
        }),
{
    reveal_strlit("spark_reclaim_pages");
    reveal_strlit("pgmajfault");
    reveal_strlit("pswpin");
    reveal_strlit("pswpout");
    reveal_strlit("oom_kill");
    assert("spark_reclaim_pages"@.len() == 19 && "pgmajfault"@.len() == 10);
    assert("pswpin"@.len() == 6 && "pswpout"@.len() == 7 && "oom_kill"@.len() == 8);
}

/// A counter that has no number says why.
pub open spec fn unread(
    values: Map<Seq<char>, u64>,
    earlier: Map<Seq<char>, u64>,
    key: Seq<char>,
    p: Point<Number>,
    unit: Seq<char>,
) -> bool {
    &&& !values.contains_key(key) ==> lacks(
        p,
        p.name,
        unit,
        Quality::Unsupported,
        "VMSTAT_FIELD_MISSING"@,
    )
    &&& values.contains_key(key) && !earlier.contains_key(key) ==> lacks(
        p,
        p.name,
        unit,
        Quality::Stale,
        "BASELINE_INITIALIZING"@,
    )
}

// --------------------------------------------------------------------------
// Networks
// --------------------------------------------------------------------------

/// A link whose state cannot be read is an error, and so are carrier changes
/// that cannot be; a speed that is not positive, or not known, is not told.
pub proof fn law_missing_links_are_told(
    interface: Seq<char>,
    now: NetworkCounters,
    earlier: Map<Seq<char>, NetworkCounters>,
    files: Map<Seq<char>, InterfaceFiles>,
)
    requires
        is_hardware(interface, files),
    ensures
        ({
            let points = interface_points((interface, now), earlier, files);
            let f = files[interface];
            &&& f.operstate is None ==> lacks(
                points[9],
                "system.network.link.up"@,
                "1"@,
                Quality::Error,
                "OPERSTATE_READ_FAILED"@,
            )
            &&& f.operstate is Some ==> points[9].quality == Quality::Measured
            &&& f.carrier_changes is None ==> lacks(
                points[7],
                "system.network.carrier_changes"@,
                "{event}"@,
                Quality::Error,
                "CARRIER_CHANGES_READ_FAILED"@,
            )
            &&& f.carrier_changes matches Some(s) ==> (u64_of(trim_of(s@)) is None ==> lacks(
                points[7],
                "system.network.carrier_changes"@,
                "{event}"@,
                Quality::Error,
                "CARRIER_CHANGES_READ_FAILED"@,
            ))
            &&& f.speed is None ==> points.len() == 10
            &&& f.speed is Some && !crate::doubles::less(0, f.speed->0) ==> points.len() == 10
        }),
{
}

// --------------------------------------------------------------------------
// Sources
// --------------------------------------------------------------------------

/// The counters of block devices come from the system files, those of interfaces
/// and of paging from the process files.
pub proof fn law_counters_name_their_source(
    e: BlockEntry,
    devices: Map<Seq<char>, BlockCounters>,
    interface: Seq<char>,
    now: NetworkCounters,
    interfaces: Map<Seq<char>, NetworkCounters>,
    files: Map<Seq<char>, InterfaceFiles>,
    raw: Seq<char>,
    earlier: Map<Seq<char>, u64>,
    page: u64,
    i: int,
)
    ensures
        0 <= i < block_entry_points(e, devices).len() && block_entry_points(e, devices)[i].value
            is Some ==> block_entry_points(e, devices)[i].source == "sysfs"@,
        is_hardware(interface, files) && 0 <= i < 9 && interface_points(
            (interface, now),
            interfaces,
            files,
        )[i].value is Some ==> interface_points((interface, now), interfaces, files)[i].source
            == "procfs"@,
        0 <= i < vmstat_points(Some(raw), earlier, page).len() ==> vmstat_points(
            Some(raw),
            earlier,
            page,
        )[i].source == "procfs"@,
{
}

/// The context switches come from the process files.
pub proof fn law_context_switches_name_their_source(stat: Option<Seq<char>>, then: Option<CpuTimes>)
    ensures
        cpu_points(stat, then).len() == 4 ==> cpu_points(stat, then)[3].source == "procfs"@,
{
}

// --------------------------------------------------------------------------
// Qualities
// --------------------------------------------------------------------------

/// What is used of a filesystem is derived, and the rest that is told of it is
/// measured.
pub proof fn law_filesystems_are_measured(
    m: (Seq<char>, Seq<char>, Seq<char>),
    statistics: Map<Seq<char>, FilesystemStatistics>,
    i: int,
)
    requires
        statistics.contains_key(m.0),
        0 <= i < 7,
    ensures
        mount_points(m, statistics)[i].quality == (if i == 1 || i == 4 {
            Quality::Derived
        } else {
            Quality::Measured
        }),
{
}

/// What is told of a processor, of a pressure and of the speed of a link is
/// measured.
pub proof fn law_files_are_measured(
    e: CpuEntry,
    file: PressureFile,
    domain: Seq<char>,
    interface: Seq<char>,
    now: NetworkCounters,
    earlier: Map<Seq<char>, NetworkCounters>,
    files: Map<Seq<char>, InterfaceFiles>,
    i: int,
)
    ensures
        0 <= i < cpu_entry_points(e).len() ==> cpu_entry_points(e)[i].quality == Quality::Measured,
        0 <= i < pressure_points(domain, file).len() && pressure_points(domain, file)[i].value
            is Some ==> pressure_points(domain, file)[i].quality == Quality::Measured,
        is_hardware(interface, files) && 10 <= i < interface_points(
            (interface, now),
            earlier,
            files,
        ).len() ==> interface_points((interface, now), earlier, files)[i].quality
            == Quality::Measured,
{
}

} // verus!
