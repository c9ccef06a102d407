//! The host collector, which compares counters from one collection to the
//! next.

use super::kernel::{
    collect_cpu_sysfs, collect_load, collect_memory, collect_pressure, collect_stat, collect_uptime,
    collect_vmstat, cpu_entries_points, cpu_now, cpu_points, load_point, meminfo_points,
    pressure_points, reclaim_in_range, stat_in_range, uptime_point, vmstat_of, vmstat_points,
    CpuEntry, PressureFile,
};
use super::network::{collect_network, network_now, network_points, InterfaceFiles};
use super::parse::{BlockCounters, CpuTimes, NetworkCounters};
use super::storage::{
    block_now, block_points, collect_block, collect_filesystem, each_mount, mounts_to_measure,
    BlockEntry, FilesystemStatistics,
};
use super::thermal::{collect_temperatures, temperature_points, SensorChip};
use crate::rows::flat;
use crate::schema::{emit_all, no_points, views, MetricPoint, Number, Point, Value};
use crate::table::Table;
use crate::text::optional;
use vstd::prelude::*;

verus! {

/// The files behind the processor, memory, pressure, paging and temperature
/// points.
pub struct CoreFiles {
    /// The content of `/proc/stat`.
    pub stat: Option<String>,
    /// The content of `/proc/loadavg`.
    pub loadavg: Option<String>,
    /// The entries of `/sys/devices/system/cpu`.
    pub cpus: Vec<CpuEntry>,
    /// The content of `/proc/uptime`.
    pub uptime: Option<String>,
    /// The content of `/proc/meminfo`.
    pub meminfo: Option<String>,
    /// The content of `/proc/pressure/cpu`.
    pub cpu_pressure: PressureFile,
    /// The content of `/proc/pressure/memory`.
    pub memory_pressure: PressureFile,
    /// The content of `/proc/pressure/io`.
    pub io_pressure: PressureFile,
    /// The content of `/proc/vmstat`.
    pub vmstat: Option<String>,
    /// The memory page size.
    pub page_size: u64,
    /// The entries of `/sys/class/hwmon`.
    pub chips: Vec<SensorChip>,
}

/// The files behind the network points.
pub struct NetworkFiles {
    /// The content of `/proc/net/dev`.
    pub counters: Option<String>,
    /// The files of each interface.
    pub interfaces: Table<String, InterfaceFiles>,
}

/// The files behind the storage points.
pub struct StorageFiles {
    /// The entries of `/sys/block`.
    pub devices: Option<Vec<BlockEntry>>,
    /// The content of `/proc/self/mountinfo`.
    pub mountinfo: Option<String>,
    /// What the system reports of each mount point.
    pub statistics: Table<String, FilesystemStatistics>,
}

/// The counters of the last collection.
#[verifier::ext_equal]
pub struct Counters {
    pub cpu: Option<CpuTimes>,
    pub network: Map<Seq<char>, NetworkCounters>,
    pub block: Map<Seq<char>, BlockCounters>,
    pub vmstat: Map<Seq<char>, u64>,
}

/// Collects the points of a Linux host.
#[allow(clippy::struct_field_names)]
pub struct SystemCollector {
    previous_cpu: Option<CpuTimes>,
    previous_network: Table<String, NetworkCounters>,
    previous_block: Table<String, BlockCounters>,
    previous_vmstat: Table<String, u64>,
}

impl View for SystemCollector {
    type V = Counters;

    closed spec fn view(&self) -> Counters {
        Counters {
            cpu: self.previous_cpu,
            network: self.previous_network@,
            block: self.previous_block@,
            vmstat: self.previous_vmstat@,
        }
    }
}

/// The totals in the files are in the range of the counters.
pub open spec fn in_range(files: CoreFiles) -> bool {
    stat_in_range(optional(files.stat)) && reclaim_in_range(optional(files.vmstat))
}

/// The processor, uptime, memory, pressure, paging and temperature points.
pub open spec fn core_points(files: CoreFiles, earlier: Counters) -> Seq<Point<Number>> {
    cpu_points(optional(files.stat), earlier.cpu) + seq![load_point(optional(files.loadavg))]
        + flat(files.cpus@, cpu_entries_points()) + seq![uptime_point(optional(files.uptime))]
        + meminfo_points(optional(files.meminfo)) + pressure_points("cpu"@, files.cpu_pressure)
        + pressure_points("memory"@, files.memory_pressure) + pressure_points(
        "io"@,
        files.io_pressure,
    ) + vmstat_points(optional(files.vmstat), earlier.vmstat, files.page_size)
        + temperature_points(files.chips@)
}

/// The counters after collecting the core points.
pub open spec fn after_core(files: CoreFiles, earlier: Counters) -> Counters {
    Counters {
        cpu: match cpu_now(optional(files.stat)) {
            Some(current) => Some(current),
            None => earlier.cpu,
        },
        vmstat: match files.vmstat {
            Some(raw) => vmstat_of(raw@),
            None => earlier.vmstat,
        },
        ..earlier
    }
}

/// The counters after collecting the network points.
pub open spec fn after_network(files: NetworkFiles, earlier: Counters) -> Counters {
    Counters {
        network: match files.counters {
            Some(raw) => network_now(raw@, files.interfaces@),
            None => earlier.network,
        },
        ..earlier
    }
}

/// The block device and filesystem points.
pub open spec fn storage_points(files: StorageFiles, earlier: Counters) -> Seq<Point<Number>> {
    block_points(files.devices, earlier.block) + flat(
        mounts_to_measure(optional(files.mountinfo)),
        each_mount(files.statistics@),
    )
}

/// The counters after collecting the storage points.
pub open spec fn after_storage(files: StorageFiles, earlier: Counters) -> Counters {
    Counters {
        block: match files.devices {
            Some(v) => block_now(v@),
            None => earlier.block,
        },
        ..earlier
    }
}

impl Default for SystemCollector {
    /// A collector that has not collected anything yet.
    fn default() -> (r: Self)
        ensures
            r@ == (Counters {
                cpu: None,
                network: Map::empty(),
                block: Map::empty(),
                vmstat: Map::empty(),
            }),
    {
        SystemCollector {
            previous_cpu: None,
            previous_network: Table::new(),
            previous_block: Table::new(),
            previous_vmstat: Table::new(),
        }
    }
}

impl SystemCollector {
    /// Collects all points of the host.
    #[must_use]
    pub fn collect(
        &mut self,
        host: &CoreFiles,
        network: &NetworkFiles,
        storage: &StorageFiles,
    ) -> (r: Vec<MetricPoint<Value>>)
        requires
            in_range(*host),
        ensures
            views(r@) == core_points(*host, old(self)@) + network_points(
                optional(network.counters),
                old(self)@.network,
                network.interfaces@,
            ) + storage_points(*storage, old(self)@),
            final(self)@ == after_storage(
                *storage,
                after_network(*network, after_core(*host, old(self)@)),
            ),
    {
        let mut points = self.collect_core(host);
        let more = self.collect_network_points(network);
        emit_all(&mut points, more);
        let more = self.collect_storage(storage);
        emit_all(&mut points, more);
        points
    }

    /// Collects the processor, uptime, memory, pressure, paging and temperature
    /// points.
    #[must_use]
    pub fn collect_core(&mut self, host: &CoreFiles) -> (r: Vec<MetricPoint<Value>>)
        requires
            in_range(*host),
        ensures
            views(r@) == core_points(*host, old(self)@),
            final(self)@ == after_core(*host, old(self)@),
    {
        let mut points: Vec<MetricPoint<Value>> = no_points();
        self.previous_cpu = collect_stat(self.previous_cpu, &host.stat, &mut points);
        collect_load(&host.loadavg, &mut points);
        collect_cpu_sysfs(&host.cpus, &mut points);
        collect_uptime(&host.uptime, &mut points);
        collect_memory(&host.meminfo, &mut points);
        collect_pressure("cpu", &host.cpu_pressure, &mut points);
        collect_pressure("memory", &host.memory_pressure, &mut points);
        collect_pressure("io", &host.io_pressure, &mut points);
        collect_vmstat(&mut self.previous_vmstat, &host.vmstat, host.page_size, &mut points);
        collect_temperatures(&host.chips, &mut points);
        points
    }

    /// Collects the network points.
    #[must_use]
    pub fn collect_network_points(&mut self, network: &NetworkFiles) -> (r: Vec<MetricPoint<Value>>)
        ensures
            views(r@) == network_points(
                optional(network.counters),
                old(self)@.network,
                network.interfaces@,
            ),
            final(self)@ == after_network(*network, old(self)@),
    {
        let mut points: Vec<MetricPoint<Value>> = no_points();
        collect_network(
            &mut self.previous_network,
            &network.counters,
            &network.interfaces,
            &mut points,
        );
        points
    }

    /// Collects the block device and filesystem points.
    #[must_use]
    pub fn collect_storage(&mut self, storage: &StorageFiles) -> (r: Vec<MetricPoint<Value>>)
        ensures
            views(r@) == storage_points(*storage, old(self)@),
            final(self)@ == after_storage(*storage, old(self)@),
    {
        let mut points: Vec<MetricPoint<Value>> = no_points();
        collect_block(&mut self.previous_block, &storage.devices, &mut points);
        collect_filesystem(&storage.mountinfo, &storage.statistics, &mut points);
        points
    }
}

} // verus!
