//! What the catalogue holds.

use super::{is_attribute, is_metric, is_source};
use vstd::prelude::*;

verus! {

/// A text is one of some texts.
pub open spec fn among(s: Seq<char>, all: Seq<Seq<char>>) -> bool {
    exists|i: int| 0 <= i < all.len() && #[trigger] all[i] == s
}

/// The metrics of GPUs.
pub open spec fn gpu_metrics() -> Seq<Seq<char>> {
    seq![
        "nvidia.gpu.clock.frequency"@,
        "nvidia.gpu.decoder.utilization"@,
        "nvidia.gpu.encoder.utilization"@,
        "nvidia.gpu.memory_controller.utilization"@,
        "nvidia.gpu.performance_state"@,
        "nvidia.gpu.power.draw"@,
        "nvidia.gpu.process.memory.allocation"@,
        "nvidia.gpu.temperature"@,
        "nvidia.gpu.throttle"@,
        "nvidia.gpu.utilization"@,
        "nvidia.gpu.xid.count"@,
    ]
}

/// The metrics of the agent.
pub open spec fn agent_metrics() -> Seq<Seq<char>> {
    seq![
        "spark.agent.collection.duration"@,
        "spark.agent.collection.errors"@,
        "spark.agent.collector.age"@,
        "spark.agent.events.dropped"@,
        "spark.agent.nats.reconnects"@,
    ]
}

/// The metrics of language models.
pub open spec fn llm_metrics() -> Seq<Seq<char>> {
    seq![
        "spark.llm.available"@,
        "spark.llm.collection.errors"@,
        "spark.llm.context.capacity"@,
        "spark.llm.requests.queued"@,
        "spark.llm.requests.running"@,
        "spark.llm.response.age"@,
        "spark.llm.tokens.generation.rate"@,
        "spark.llm.tokens.input"@,
        "spark.llm.tokens.output"@,
        "spark.llm.tokens.prefill.rate"@,
        "spark.llm.uptime"@,
    ]
}

/// The metrics of pressure stalls.
pub open spec fn pressure_metrics() -> Seq<Seq<char>> {
    seq![
        "spark.pressure.cpu.some"@,
        "spark.pressure.io.full"@,
        "spark.pressure.io.some"@,
        "spark.pressure.memory.full"@,
        "spark.pressure.memory.some"@,
    ]
}

/// The metrics of services.
pub open spec fn service_metrics() -> Seq<Seq<char>> {
    seq![
        "spark.service.active"@,
        "spark.service.restarts"@,
    ]
}

/// The metrics of memory.
pub open spec fn memory_metrics() -> Seq<Seq<char>> {
    seq![
        "spark.uma.allocatable_with_swap"@,
        "spark.uma.allocatable_without_swap"@,
        "system.memory.active"@,
        "system.memory.buffers"@,
        "system.memory.cached"@,
        "system.memory.cgroup.events"@,
        "system.memory.dirty"@,
        "system.memory.hugepages.free"@,
        "system.memory.hugepages.reserved"@,
        "system.memory.hugepages.total"@,
        "system.memory.inactive"@,
        "system.memory.linux.available"@,
        "system.memory.linux.free"@,
        "system.memory.linux.total"@,
        "system.memory.oom_kills"@,
        "system.memory.page_faults.major"@,
        "system.memory.paging"@,
        "system.memory.reclaim"@,
        "system.memory.slab.reclaimable"@,
        "system.memory.slab.unreclaimable"@,
        "system.memory.swap.free"@,
        "system.memory.swap.total"@,
        "system.memory.writeback"@,
    ]
}

/// The metrics of processors.
pub open spec fn cpu_metrics() -> Seq<Seq<char>> {
    seq![
        "system.cpu.context_switches"@,
        "system.cpu.frequency"@,
        "system.cpu.load_average.1m"@,
        "system.cpu.online"@,
        "system.cpu.tasks.blocked"@,
        "system.cpu.tasks.runnable"@,
        "system.cpu.utilization"@,
        "system.uptime"@,
    ]
}

/// The metrics of storage.
pub open spec fn storage_metrics() -> Seq<Seq<char>> {
    seq![
        "system.disk.io"@,
        "system.disk.operation.count"@,
        "system.disk.operation_time"@,
        "system.disk.queue_time"@,
        "system.filesystem.inodes"@,
        "system.filesystem.limit"@,
        "system.filesystem.read_only"@,
        "system.filesystem.usage"@,
    ]
}

/// The metrics of networks.
pub open spec fn network_metrics() -> Seq<Seq<char>> {
    seq![
        "system.network.carrier_changes"@,
        "system.network.errors"@,
        "system.network.io"@,
        "system.network.link.speed"@,
        "system.network.link.up"@,
        "system.network.packet.count"@,
        "system.network.packet.dropped"@,
    ]
}

/// The metrics of temperatures.
pub open spec fn thermal_metrics() -> Seq<Seq<char>> {
    seq![
        "system.temperature"@,
    ]
}

/// The catalogue holds the metrics of each kind and no others.
pub proof fn law_metrics_are_of_their_kinds(name: Seq<char>)
    ensures
        is_metric(name) <==> among(name, gpu_metrics())
            || among(name, agent_metrics())
            || among(name, llm_metrics())
            || among(name, pressure_metrics())
            || among(name, service_metrics())
            || among(name, memory_metrics())
            || among(name, cpu_metrics())
            || among(name, storage_metrics())
            || among(name, network_metrics())
            || among(name, thermal_metrics()),
{
    let gpu = gpu_metrics();
    assert(gpu[0] == "nvidia.gpu.clock.frequency"@);
    assert(gpu[1] == "nvidia.gpu.decoder.utilization"@);
    assert(gpu[2] == "nvidia.gpu.encoder.utilization"@);
    assert(gpu[3] == "nvidia.gpu.memory_controller.utilization"@);
    assert(gpu[4] == "nvidia.gpu.performance_state"@);
    assert(gpu[5] == "nvidia.gpu.power.draw"@);
    assert(gpu[6] == "nvidia.gpu.process.memory.allocation"@);
    assert(gpu[7] == "nvidia.gpu.temperature"@);
    assert(gpu[8] == "nvidia.gpu.throttle"@);
    assert(gpu[9] == "nvidia.gpu.utilization"@);
    assert(gpu[10] == "nvidia.gpu.xid.count"@);
    let agent = agent_metrics();
    assert(agent[0] == "spark.agent.collection.duration"@);
    assert(agent[1] == "spark.agent.collection.errors"@);
    assert(agent[2] == "spark.agent.collector.age"@);
    assert(agent[3] == "spark.agent.events.dropped"@);
    assert(agent[4] == "spark.agent.nats.reconnects"@);
    let llm = llm_metrics();
    assert(llm[0] == "spark.llm.available"@);
    assert(llm[1] == "spark.llm.collection.errors"@);
    assert(llm[2] == "spark.llm.context.capacity"@);
    assert(llm[3] == "spark.llm.requests.queued"@);
    assert(llm[4] == "spark.llm.requests.running"@);
    assert(llm[5] == "spark.llm.response.age"@);
    assert(llm[6] == "spark.llm.tokens.generation.rate"@);
    assert(llm[7] == "spark.llm.tokens.input"@);
    assert(llm[8] == "spark.llm.tokens.output"@);
    assert(llm[9] == "spark.llm.tokens.prefill.rate"@);
    assert(llm[10] == "spark.llm.uptime"@);
    let pressure = pressure_metrics();
    assert(pressure[0] == "spark.pressure.cpu.some"@);
    assert(pressure[1] == "spark.pressure.io.full"@);
    assert(pressure[2] == "spark.pressure.io.some"@);
    assert(pressure[3] == "spark.pressure.memory.full"@);
    assert(pressure[4] == "spark.pressure.memory.some"@);
    let service = service_metrics();
    assert(service[0] == "spark.service.active"@);
    assert(service[1] == "spark.service.restarts"@);
    let memory = memory_metrics();
    assert(memory[0] == "spark.uma.allocatable_with_swap"@);
    assert(memory[1] == "spark.uma.allocatable_without_swap"@);
    assert(memory[2] == "system.memory.active"@);
    assert(memory[3] == "system.memory.buffers"@);
    assert(memory[4] == "system.memory.cached"@);
    assert(memory[5] == "system.memory.cgroup.events"@);
    assert(memory[6] == "system.memory.dirty"@);
    assert(memory[7] == "system.memory.hugepages.free"@);
    assert(memory[8] == "system.memory.hugepages.reserved"@);
    assert(memory[9] == "system.memory.hugepages.total"@);
    assert(memory[10] == "system.memory.inactive"@);
    assert(memory[11] == "system.memory.linux.available"@);
    assert(memory[12] == "system.memory.linux.free"@);
    assert(memory[13] == "system.memory.linux.total"@);
    assert(memory[14] == "system.memory.oom_kills"@);
    assert(memory[15] == "system.memory.page_faults.major"@);
    assert(memory[16] == "system.memory.paging"@);
    assert(memory[17] == "system.memory.reclaim"@);
    assert(memory[18] == "system.memory.slab.reclaimable"@);
    assert(memory[19] == "system.memory.slab.unreclaimable"@);
    assert(memory[20] == "system.memory.swap.free"@);
    assert(memory[21] == "system.memory.swap.total"@);
    assert(memory[22] == "system.memory.writeback"@);
    let cpu = cpu_metrics();
    assert(cpu[0] == "system.cpu.context_switches"@);
    assert(cpu[1] == "system.cpu.frequency"@);
    assert(cpu[2] == "system.cpu.load_average.1m"@);
    assert(cpu[3] == "system.cpu.online"@);
    assert(cpu[4] == "system.cpu.tasks.blocked"@);
    assert(cpu[5] == "system.cpu.tasks.runnable"@);
    assert(cpu[6] == "system.cpu.utilization"@);
    assert(cpu[7] == "system.uptime"@);
    let storage = storage_metrics();
    assert(storage[0] == "system.disk.io"@);
    assert(storage[1] == "system.disk.operation.count"@);
    assert(storage[2] == "system.disk.operation_time"@);
    assert(storage[3] == "system.disk.queue_time"@);
    assert(storage[4] == "system.filesystem.inodes"@);
    assert(storage[5] == "system.filesystem.limit"@);
    assert(storage[6] == "system.filesystem.read_only"@);
    assert(storage[7] == "system.filesystem.usage"@);
    let network = network_metrics();
    assert(network[0] == "system.network.carrier_changes"@);
    assert(network[1] == "system.network.errors"@);
    assert(network[2] == "system.network.io"@);
    assert(network[3] == "system.network.link.speed"@);
    assert(network[4] == "system.network.link.up"@);
    assert(network[5] == "system.network.packet.count"@);
    assert(network[6] == "system.network.packet.dropped"@);
    let thermal = thermal_metrics();
    assert(thermal[0] == "system.temperature"@);
}

/// The attributes that points and events may have.
pub open spec fn attribute_names() -> Seq<Seq<char>> {
    seq![
        "aggregation"@,
        "cgroup.memory.event"@,
        "cgroup.scope"@,
        "channel"@,
        "clock.domain"@,
        "collector.domain"@,
        "cpu.logical_number"@,
        "device"@,
        "direction"@,
        "filesystem.device"@,
        "filesystem.type"@,
        "gpu.id"@,
        "gpu.index"@,
        "llm.backend"@,
        "llm.endpoint.id"@,
        "llm.model.id"@,
        "mountpoint"@,
        "network.interface.name"@,
        "network.io.direction"@,
        "nvidia.performance_state"@,
        "nvidia.xid.code"@,
        "process.pid"@,
        "sensor"@,
        "state"@,
        "systemd.active_enter_timestamp_monotonic_us"@,
        "systemd.substate"@,
        "systemd.unit"@,
        "temperature.limit.critical_celsius"@,
        "temperature.limit.max_celsius"@,
    ]
}

/// The catalogue holds these attributes and no others.
pub proof fn law_attributes_are_listed(name: Seq<char>)
    ensures
        is_attribute(name) <==> among(name, attribute_names()),
{
    let all = attribute_names();
    assert(all[0] == "aggregation"@);
    assert(all[1] == "cgroup.memory.event"@);
    assert(all[2] == "cgroup.scope"@);
    assert(all[3] == "channel"@);
    assert(all[4] == "clock.domain"@);
    assert(all[5] == "collector.domain"@);
    assert(all[6] == "cpu.logical_number"@);
    assert(all[7] == "device"@);
    assert(all[8] == "direction"@);
    assert(all[9] == "filesystem.device"@);
    assert(all[10] == "filesystem.type"@);
    assert(all[11] == "gpu.id"@);
    assert(all[12] == "gpu.index"@);
    assert(all[13] == "llm.backend"@);
    assert(all[14] == "llm.endpoint.id"@);
    assert(all[15] == "llm.model.id"@);
    assert(all[16] == "mountpoint"@);
    assert(all[17] == "network.interface.name"@);
    assert(all[18] == "network.io.direction"@);
    assert(all[19] == "nvidia.performance_state"@);
    assert(all[20] == "nvidia.xid.code"@);
    assert(all[21] == "process.pid"@);
    assert(all[22] == "sensor"@);
    assert(all[23] == "state"@);
    assert(all[24] == "systemd.active_enter_timestamp_monotonic_us"@);
    assert(all[25] == "systemd.substate"@);
    assert(all[26] == "systemd.unit"@);
    assert(all[27] == "temperature.limit.critical_celsius"@);
    assert(all[28] == "temperature.limit.max_celsius"@);
}

/// The sources of points.
pub open spec fn source_names() -> Seq<Seq<char>> {
    seq![
        "agent"@,
        "cgroupfs"@,
        "config"@,
        "http"@,
        "nvidia-smi"@,
        "nvml"@,
        "procfs"@,
        "prometheus"@,
        "sysfs"@,
        "systemd"@,
    ]
}

/// The catalogue holds these sources and no others.
pub proof fn law_sources_are_listed(name: Seq<char>)
    ensures
        is_source(name) <==> among(name, source_names()),
{
    let all = source_names();
    assert(all[0] == "agent"@);
    assert(all[1] == "cgroupfs"@);
    assert(all[2] == "config"@);
    assert(all[3] == "http"@);
    assert(all[4] == "nvidia-smi"@);
    assert(all[5] == "nvml"@);
    assert(all[6] == "procfs"@);
    assert(all[7] == "prometheus"@);
    assert(all[8] == "sysfs"@);
    assert(all[9] == "systemd"@);
}

} // verus!
