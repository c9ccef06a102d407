//! The finite names of schema v1.

pub mod laws;

use crate::text::same;
use vstd::prelude::*;

verus! {

/// A name of the finite v1 metric catalogue.
pub open spec fn is_metric(name: Seq<char>) -> bool {
    ||| name == "nvidia.gpu.clock.frequency"@
    ||| name == "nvidia.gpu.decoder.utilization"@
    ||| name == "nvidia.gpu.encoder.utilization"@
    ||| name == "nvidia.gpu.memory_controller.utilization"@
    ||| name == "nvidia.gpu.power.draw"@
    ||| name == "nvidia.gpu.performance_state"@
    ||| name == "nvidia.gpu.process.memory.allocation"@
    ||| name == "nvidia.gpu.temperature"@
    ||| name == "nvidia.gpu.throttle"@
    ||| name == "nvidia.gpu.utilization"@
    ||| name == "nvidia.gpu.xid.count"@
    ||| name == "spark.agent.collection.duration"@
    ||| name == "spark.agent.collection.errors"@
    ||| name == "spark.agent.collector.age"@
    ||| name == "spark.agent.events.dropped"@
    ||| name == "spark.agent.nats.reconnects"@
    ||| name == "spark.llm.available"@
    ||| name == "spark.llm.collection.errors"@
    ||| name == "spark.llm.context.capacity"@
    ||| name == "spark.llm.requests.queued"@
    ||| name == "spark.llm.requests.running"@
    ||| name == "spark.llm.tokens.generation.rate"@
    ||| name == "spark.llm.tokens.input"@
    ||| name == "spark.llm.tokens.output"@
    ||| name == "spark.llm.tokens.prefill.rate"@
    ||| name == "spark.llm.response.age"@
    ||| name == "spark.llm.uptime"@
    ||| name == "spark.pressure.cpu.some"@
    ||| name == "spark.pressure.io.full"@
    ||| name == "spark.pressure.io.some"@
    ||| name == "spark.pressure.memory.full"@
    ||| name == "spark.pressure.memory.some"@
    ||| name == "spark.service.active"@
    ||| name == "spark.service.restarts"@
    ||| name == "spark.uma.allocatable_with_swap"@
    ||| name == "spark.uma.allocatable_without_swap"@
    ||| name == "system.cpu.context_switches"@
    ||| name == "system.cpu.frequency"@
    ||| name == "system.cpu.load_average.1m"@
    ||| name == "system.cpu.tasks.blocked"@
    ||| name == "system.cpu.tasks.runnable"@
    ||| name == "system.cpu.online"@
    ||| name == "system.cpu.utilization"@
    ||| name == "system.disk.io"@
    ||| name == "system.disk.operation.count"@
    ||| name == "system.disk.operation_time"@
    ||| name == "system.disk.queue_time"@
    ||| name == "system.filesystem.inodes"@
    ||| name == "system.filesystem.limit"@
    ||| name == "system.filesystem.read_only"@
    ||| name == "system.filesystem.usage"@
    ||| name == "system.memory.active"@
    ||| name == "system.memory.buffers"@
    ||| name == "system.memory.cached"@
    ||| name == "system.memory.cgroup.events"@
    ||| name == "system.memory.dirty"@
    ||| name == "system.memory.hugepages.free"@
    ||| name == "system.memory.hugepages.reserved"@
    ||| name == "system.memory.hugepages.total"@
    ||| name == "system.memory.inactive"@
    ||| name == "system.memory.linux.available"@
    ||| name == "system.memory.linux.free"@
    ||| name == "system.memory.linux.total"@
    ||| name == "system.memory.oom_kills"@
    ||| name == "system.memory.page_faults.major"@
    ||| name == "system.memory.paging"@
    ||| name == "system.memory.reclaim"@
    ||| name == "system.memory.slab.reclaimable"@
    ||| name == "system.memory.slab.unreclaimable"@
    ||| name == "system.memory.swap.free"@
    ||| name == "system.memory.swap.total"@
    ||| name == "system.memory.writeback"@
    ||| name == "system.network.errors"@
    ||| name == "system.network.carrier_changes"@
    ||| name == "system.network.io"@
    ||| name == "system.network.link.speed"@
    ||| name == "system.network.link.up"@
    ||| name == "system.network.packet.count"@
    ||| name == "system.network.packet.dropped"@
    ||| name == "system.temperature"@
    ||| name == "system.uptime"@
}

/// Whether `name` is in the v1 metric catalogue.
#[must_use]
pub fn metric_name_allowed(name: &str) -> (r: bool)
    ensures
        r == is_metric(name@),
{
    same(name, "nvidia.gpu.clock.frequency")
        || same(name, "nvidia.gpu.decoder.utilization")
        || same(name, "nvidia.gpu.encoder.utilization")
        || same(name, "nvidia.gpu.memory_controller.utilization")
        || same(name, "nvidia.gpu.power.draw")
        || same(name, "nvidia.gpu.performance_state")
        || same(name, "nvidia.gpu.process.memory.allocation")
        || same(name, "nvidia.gpu.temperature")
        || same(name, "nvidia.gpu.throttle")
        || same(name, "nvidia.gpu.utilization")
        || same(name, "nvidia.gpu.xid.count")
        || same(name, "spark.agent.collection.duration")
        || same(name, "spark.agent.collection.errors")
        || same(name, "spark.agent.collector.age")
        || same(name, "spark.agent.events.dropped")
        || same(name, "spark.agent.nats.reconnects")
        || same(name, "spark.llm.available")
        || same(name, "spark.llm.collection.errors")
        || same(name, "spark.llm.context.capacity")
        || same(name, "spark.llm.requests.queued")
        || same(name, "spark.llm.requests.running")
        || same(name, "spark.llm.tokens.generation.rate")
        || same(name, "spark.llm.tokens.input")
        || same(name, "spark.llm.tokens.output")
        || same(name, "spark.llm.tokens.prefill.rate")
        || same(name, "spark.llm.response.age")
        || same(name, "spark.llm.uptime")
        || same(name, "spark.pressure.cpu.some")
        || same(name, "spark.pressure.io.full")
        || same(name, "spark.pressure.io.some")
        || same(name, "spark.pressure.memory.full")
        || same(name, "spark.pressure.memory.some")
        || same(name, "spark.service.active")
        || same(name, "spark.service.restarts")
        || same(name, "spark.uma.allocatable_with_swap")
        || same(name, "spark.uma.allocatable_without_swap")
        || same(name, "system.cpu.context_switches")
        || same(name, "system.cpu.frequency")
        || same(name, "system.cpu.load_average.1m")
        || same(name, "system.cpu.tasks.blocked")
        || same(name, "system.cpu.tasks.runnable")
        || same(name, "system.cpu.online")
        || same(name, "system.cpu.utilization")
        || same(name, "system.disk.io")
        || same(name, "system.disk.operation.count")
        || same(name, "system.disk.operation_time")
        || same(name, "system.disk.queue_time")
        || same(name, "system.filesystem.inodes")
        || same(name, "system.filesystem.limit")
        || same(name, "system.filesystem.read_only")
        || same(name, "system.filesystem.usage")
        || same(name, "system.memory.active")
        || same(name, "system.memory.buffers")
        || same(name, "system.memory.cached")
        || same(name, "system.memory.cgroup.events")
        || same(name, "system.memory.dirty")
        || same(name, "system.memory.hugepages.free")
        || same(name, "system.memory.hugepages.reserved")
        || same(name, "system.memory.hugepages.total")
        || same(name, "system.memory.inactive")
        || same(name, "system.memory.linux.available")
        || same(name, "system.memory.linux.free")
        || same(name, "system.memory.linux.total")
        || same(name, "system.memory.oom_kills")
        || same(name, "system.memory.page_faults.major")
        || same(name, "system.memory.paging")
        || same(name, "system.memory.reclaim")
        || same(name, "system.memory.slab.reclaimable")
        || same(name, "system.memory.slab.unreclaimable")
        || same(name, "system.memory.swap.free")
        || same(name, "system.memory.swap.total")
        || same(name, "system.memory.writeback")
        || same(name, "system.network.errors")
        || same(name, "system.network.carrier_changes")
        || same(name, "system.network.io")
        || same(name, "system.network.link.speed")
        || same(name, "system.network.link.up")
        || same(name, "system.network.packet.count")
        || same(name, "system.network.packet.dropped")
        || same(name, "system.temperature")
        || same(name, "system.uptime")
}

/// The v1 metric catalogue.
pub fn metric_catalogue_v1() -> (r: Vec<&'static str>)
    ensures
        r@.len() == 81,
        forall|i: int| 0 <= i < r@.len() ==> is_metric(#[trigger] r@[i]@),
        forall|name: Seq<char>|
            is_metric(name) ==> exists|i: int| 0 <= i < r@.len() && #[trigger] r@[i]@ == name,
{
    let r = vec![
        "nvidia.gpu.clock.frequency",
        "nvidia.gpu.decoder.utilization",
        "nvidia.gpu.encoder.utilization",
        "nvidia.gpu.memory_controller.utilization",
        "nvidia.gpu.power.draw",
        "nvidia.gpu.performance_state",
        "nvidia.gpu.process.memory.allocation",
        "nvidia.gpu.temperature",
        "nvidia.gpu.throttle",
        "nvidia.gpu.utilization",
        "nvidia.gpu.xid.count",
        "spark.agent.collection.duration",
        "spark.agent.collection.errors",
        "spark.agent.collector.age",
        "spark.agent.events.dropped",
        "spark.agent.nats.reconnects",
        "spark.llm.available",
        "spark.llm.collection.errors",
        "spark.llm.context.capacity",
        "spark.llm.requests.queued",
        "spark.llm.requests.running",
        "spark.llm.tokens.generation.rate",
        "spark.llm.tokens.input",
        "spark.llm.tokens.output",
        "spark.llm.tokens.prefill.rate",
        "spark.llm.response.age",
        "spark.llm.uptime",
        "spark.pressure.cpu.some",
        "spark.pressure.io.full",
        "spark.pressure.io.some",
        "spark.pressure.memory.full",
        "spark.pressure.memory.some",
        "spark.service.active",
        "spark.service.restarts",
        "spark.uma.allocatable_with_swap",
        "spark.uma.allocatable_without_swap",
        "system.cpu.context_switches",
        "system.cpu.frequency",
        "system.cpu.load_average.1m",
        "system.cpu.tasks.blocked",
        "system.cpu.tasks.runnable",
        "system.cpu.online",
        "system.cpu.utilization",
        "system.disk.io",
        "system.disk.operation.count",
        "system.disk.operation_time",
        "system.disk.queue_time",
        "system.filesystem.inodes",
        "system.filesystem.limit",
        "system.filesystem.read_only",
        "system.filesystem.usage",
        "system.memory.active",
        "system.memory.buffers",
        "system.memory.cached",
        "system.memory.cgroup.events",
        "system.memory.dirty",
        "system.memory.hugepages.free",
        "system.memory.hugepages.reserved",
        "system.memory.hugepages.total",
        "system.memory.inactive",
        "system.memory.linux.available",
        "system.memory.linux.free",
        "system.memory.linux.total",
        "system.memory.oom_kills",
        "system.memory.page_faults.major",
        "system.memory.paging",
        "system.memory.reclaim",
        "system.memory.slab.reclaimable",
        "system.memory.slab.unreclaimable",
        "system.memory.swap.free",
        "system.memory.swap.total",
        "system.memory.writeback",
        "system.network.errors",
        "system.network.carrier_changes",
        "system.network.io",
        "system.network.link.speed",
        "system.network.link.up",
        "system.network.packet.count",
        "system.network.packet.dropped",
        "system.temperature",
        "system.uptime",
    ];
    proof {
        assert(r@[0]@ == "nvidia.gpu.clock.frequency"@);
        assert(r@[1]@ == "nvidia.gpu.decoder.utilization"@);
        assert(r@[2]@ == "nvidia.gpu.encoder.utilization"@);
        assert(r@[3]@ == "nvidia.gpu.memory_controller.utilization"@);
        assert(r@[4]@ == "nvidia.gpu.power.draw"@);
        assert(r@[5]@ == "nvidia.gpu.performance_state"@);
        assert(r@[6]@ == "nvidia.gpu.process.memory.allocation"@);
        assert(r@[7]@ == "nvidia.gpu.temperature"@);
        assert(r@[8]@ == "nvidia.gpu.throttle"@);
        assert(r@[9]@ == "nvidia.gpu.utilization"@);
        assert(r@[10]@ == "nvidia.gpu.xid.count"@);
        assert(r@[11]@ == "spark.agent.collection.duration"@);
        assert(r@[12]@ == "spark.agent.collection.errors"@);
        assert(r@[13]@ == "spark.agent.collector.age"@);
        assert(r@[14]@ == "spark.agent.events.dropped"@);
        assert(r@[15]@ == "spark.agent.nats.reconnects"@);
        assert(r@[16]@ == "spark.llm.available"@);
        assert(r@[17]@ == "spark.llm.collection.errors"@);
        assert(r@[18]@ == "spark.llm.context.capacity"@);
        assert(r@[19]@ == "spark.llm.requests.queued"@);
        assert(r@[20]@ == "spark.llm.requests.running"@);
        assert(r@[21]@ == "spark.llm.tokens.generation.rate"@);
        assert(r@[22]@ == "spark.llm.tokens.input"@);
        assert(r@[23]@ == "spark.llm.tokens.output"@);
        assert(r@[24]@ == "spark.llm.tokens.prefill.rate"@);
        assert(r@[25]@ == "spark.llm.response.age"@);
        assert(r@[26]@ == "spark.llm.uptime"@);
        assert(r@[27]@ == "spark.pressure.cpu.some"@);
        assert(r@[28]@ == "spark.pressure.io.full"@);
        assert(r@[29]@ == "spark.pressure.io.some"@);
        assert(r@[30]@ == "spark.pressure.memory.full"@);
        assert(r@[31]@ == "spark.pressure.memory.some"@);
        assert(r@[32]@ == "spark.service.active"@);
        assert(r@[33]@ == "spark.service.restarts"@);
        assert(r@[34]@ == "spark.uma.allocatable_with_swap"@);
        assert(r@[35]@ == "spark.uma.allocatable_without_swap"@);
        assert(r@[36]@ == "system.cpu.context_switches"@);
        assert(r@[37]@ == "system.cpu.frequency"@);
        assert(r@[38]@ == "system.cpu.load_average.1m"@);
        assert(r@[39]@ == "system.cpu.tasks.blocked"@);
        assert(r@[40]@ == "system.cpu.tasks.runnable"@);
        assert(r@[41]@ == "system.cpu.online"@);
        assert(r@[42]@ == "system.cpu.utilization"@);
        assert(r@[43]@ == "system.disk.io"@);
        assert(r@[44]@ == "system.disk.operation.count"@);
        assert(r@[45]@ == "system.disk.operation_time"@);
        assert(r@[46]@ == "system.disk.queue_time"@);
        assert(r@[47]@ == "system.filesystem.inodes"@);
        assert(r@[48]@ == "system.filesystem.limit"@);
        assert(r@[49]@ == "system.filesystem.read_only"@);
        assert(r@[50]@ == "system.filesystem.usage"@);
        assert(r@[51]@ == "system.memory.active"@);
        assert(r@[52]@ == "system.memory.buffers"@);
        assert(r@[53]@ == "system.memory.cached"@);
        assert(r@[54]@ == "system.memory.cgroup.events"@);
        assert(r@[55]@ == "system.memory.dirty"@);
        assert(r@[56]@ == "system.memory.hugepages.free"@);
        assert(r@[57]@ == "system.memory.hugepages.reserved"@);
        assert(r@[58]@ == "system.memory.hugepages.total"@);
        assert(r@[59]@ == "system.memory.inactive"@);
        assert(r@[60]@ == "system.memory.linux.available"@);
        assert(r@[61]@ == "system.memory.linux.free"@);
        assert(r@[62]@ == "system.memory.linux.total"@);
        assert(r@[63]@ == "system.memory.oom_kills"@);
        assert(r@[64]@ == "system.memory.page_faults.major"@);
        assert(r@[65]@ == "system.memory.paging"@);
        assert(r@[66]@ == "system.memory.reclaim"@);
        assert(r@[67]@ == "system.memory.slab.reclaimable"@);
        assert(r@[68]@ == "system.memory.slab.unreclaimable"@);
        assert(r@[69]@ == "system.memory.swap.free"@);
        assert(r@[70]@ == "system.memory.swap.total"@);
        assert(r@[71]@ == "system.memory.writeback"@);
        assert(r@[72]@ == "system.network.errors"@);
        assert(r@[73]@ == "system.network.carrier_changes"@);
        assert(r@[74]@ == "system.network.io"@);
        assert(r@[75]@ == "system.network.link.speed"@);
        assert(r@[76]@ == "system.network.link.up"@);
        assert(r@[77]@ == "system.network.packet.count"@);
        assert(r@[78]@ == "system.network.packet.dropped"@);
        assert(r@[79]@ == "system.temperature"@);
        assert(r@[80]@ == "system.uptime"@);
    }
    r
}

/// A name of the finite v1 attribute catalogue.
pub open spec fn is_attribute(name: Seq<char>) -> bool {
    ||| name == "aggregation"@
    ||| name == "cgroup.memory.event"@
    ||| name == "cgroup.scope"@
    ||| name == "channel"@
    ||| name == "clock.domain"@
    ||| name == "collector.domain"@
    ||| name == "cpu.logical_number"@
    ||| name == "device"@
    ||| name == "direction"@
    ||| name == "gpu.id"@
    ||| name == "gpu.index"@
    ||| name == "filesystem.device"@
    ||| name == "filesystem.type"@
    ||| name == "llm.backend"@
    ||| name == "llm.endpoint.id"@
    ||| name == "llm.model.id"@
    ||| name == "mountpoint"@
    ||| name == "network.interface.name"@
    ||| name == "network.io.direction"@
    ||| name == "nvidia.performance_state"@
    ||| name == "nvidia.xid.code"@
    ||| name == "process.pid"@
    ||| name == "sensor"@
    ||| name == "state"@
    ||| name == "systemd.active_enter_timestamp_monotonic_us"@
    ||| name == "systemd.substate"@
    ||| name == "systemd.unit"@
    ||| name == "temperature.limit.critical_celsius"@
    ||| name == "temperature.limit.max_celsius"@
}

/// Whether `name` is in the v1 attribute catalogue.
#[must_use]
pub fn attribute_name_allowed(name: &str) -> (r: bool)
    ensures
        r == is_attribute(name@),
{
    same(name, "aggregation")
        || same(name, "cgroup.memory.event")
        || same(name, "cgroup.scope")
        || same(name, "channel")
        || same(name, "clock.domain")
        || same(name, "collector.domain")
        || same(name, "cpu.logical_number")
        || same(name, "device")
        || same(name, "direction")
        || same(name, "gpu.id")
        || same(name, "gpu.index")
        || same(name, "filesystem.device")
        || same(name, "filesystem.type")
        || same(name, "llm.backend")
        || same(name, "llm.endpoint.id")
        || same(name, "llm.model.id")
        || same(name, "mountpoint")
        || same(name, "network.interface.name")
        || same(name, "network.io.direction")
        || same(name, "nvidia.performance_state")
        || same(name, "nvidia.xid.code")
        || same(name, "process.pid")
        || same(name, "sensor")
        || same(name, "state")
        || same(name, "systemd.active_enter_timestamp_monotonic_us")
        || same(name, "systemd.substate")
        || same(name, "systemd.unit")
        || same(name, "temperature.limit.critical_celsius")
        || same(name, "temperature.limit.max_celsius")
}

/// The v1 attribute catalogue.
pub fn attribute_catalogue_v1() -> (r: Vec<&'static str>)
    ensures
        r@.len() == 29,
        forall|i: int| 0 <= i < r@.len() ==> is_attribute(#[trigger] r@[i]@),
        forall|name: Seq<char>|
            is_attribute(name) ==> exists|i: int| 0 <= i < r@.len() && #[trigger] r@[i]@ == name,
{
    let r = vec![
        "aggregation",
        "cgroup.memory.event",
        "cgroup.scope",
        "channel",
        "clock.domain",
        "collector.domain",
        "cpu.logical_number",
        "device",
        "direction",
        "gpu.id",
        "gpu.index",
        "filesystem.device",
        "filesystem.type",
        "llm.backend",
        "llm.endpoint.id",
        "llm.model.id",
        "mountpoint",
        "network.interface.name",
        "network.io.direction",
        "nvidia.performance_state",
        "nvidia.xid.code",
        "process.pid",
        "sensor",
        "state",
        "systemd.active_enter_timestamp_monotonic_us",
        "systemd.substate",
        "systemd.unit",
        "temperature.limit.critical_celsius",
        "temperature.limit.max_celsius",
    ];
    proof {
        assert(r@[0]@ == "aggregation"@);
        assert(r@[1]@ == "cgroup.memory.event"@);
        assert(r@[2]@ == "cgroup.scope"@);
        assert(r@[3]@ == "channel"@);
        assert(r@[4]@ == "clock.domain"@);
        assert(r@[5]@ == "collector.domain"@);
        assert(r@[6]@ == "cpu.logical_number"@);
        assert(r@[7]@ == "device"@);
        assert(r@[8]@ == "direction"@);
        assert(r@[9]@ == "gpu.id"@);
        assert(r@[10]@ == "gpu.index"@);
        assert(r@[11]@ == "filesystem.device"@);
        assert(r@[12]@ == "filesystem.type"@);
        assert(r@[13]@ == "llm.backend"@);
        assert(r@[14]@ == "llm.endpoint.id"@);
        assert(r@[15]@ == "llm.model.id"@);
        assert(r@[16]@ == "mountpoint"@);
        assert(r@[17]@ == "network.interface.name"@);
        assert(r@[18]@ == "network.io.direction"@);
        assert(r@[19]@ == "nvidia.performance_state"@);
        assert(r@[20]@ == "nvidia.xid.code"@);
        assert(r@[21]@ == "process.pid"@);
        assert(r@[22]@ == "sensor"@);
        assert(r@[23]@ == "state"@);
        assert(r@[24]@ == "systemd.active_enter_timestamp_monotonic_us"@);
        assert(r@[25]@ == "systemd.substate"@);
        assert(r@[26]@ == "systemd.unit"@);
        assert(r@[27]@ == "temperature.limit.critical_celsius"@);
        assert(r@[28]@ == "temperature.limit.max_celsius"@);
    }
    r
}

/// A collector that points come from.
pub open spec fn is_source(source: Seq<char>) -> bool {
    ||| source == "agent"@
    ||| source == "cgroupfs"@
    ||| source == "config"@
    ||| source == "http"@
    ||| source == "nvidia-smi"@
    ||| source == "nvml"@
    ||| source == "procfs"@
    ||| source == "prometheus"@
    ||| source == "sysfs"@
    ||| source == "systemd"@
}

/// Whether points come from a source.
pub fn source_allowed(source: &str) -> (r: bool)
    ensures
        r == is_source(source@),
{
    same(source, "agent") || same(source, "cgroupfs") || same(source, "config") || same(
        source,
        "http",
    ) || same(source, "nvidia-smi") || same(source, "nvml") || same(source, "procfs") || same(
        source,
        "prometheus",
    ) || same(source, "sysfs") || same(source, "systemd")
}

} // verus!
