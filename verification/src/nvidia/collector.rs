//! GPU points and inventory from NVML.

use super::capabilities::{
    after_unsupported, notices, notices_text, policy_of, queried, same_lifecycle, sourced,
    CapabilityError, CapabilityKey, CapabilityPolicy, CapabilityRuntime, HardwareIdentity,
    Knowledge, ProfileSource,
};
use super::smi::{collect_smi_fallback, decorate, of_gpu, smi_points, SmiOutput};
use super::xid::{watched_after, xid_points, Watched, XidMessage, XidMonitor};
use crate::catalogue::is_metric;
use crate::rows::{flat, lemma_flat};
use crate::schema::{
    emit, emit_all, gauge_of, no_points, unavailable_of, views, Attributes, MetricPoint, Number,
    Point, Quality, Value,
};
use crate::series::Series;
use crate::table::{lemma_items_of, map_of, keyed, Table};
use crate::text::{
    concat, decimal, i32_text, lowercase, optional, same, signed_decimal, split, split_of, texts,
    to_lowercase, to_uppercase, u64_text, uppercase, Class,
};
use vstd::prelude::*;

verus! {

// --------------------------------------------------------------------------
// Readings
// --------------------------------------------------------------------------

/// An error of NVML: its name, and whether it says that the property is not
/// supported.
pub struct NvmlFault {
    pub unsupported: bool,
    pub name: String,
}

/// What querying a property gave.
pub enum Reading {
    NotQueried,
    Failed(NvmlFault),
    Number(u64),
}

/// The performance state of a GPU.
#[derive(Debug, Clone, Copy, PartialEq, Eq, Structural)]
pub enum PerformanceState {
    Zero,
    One,
    Two,
    Three,
    Four,
    Five,
    Six,
    Seven,
    Eight,
    Nine,
    Ten,
    Eleven,
    Twelve,
    Thirteen,
    Fourteen,
    Fifteen,
    Unknown,
}

/// What querying the performance state gave.
pub enum StateReading {
    NotQueried,
    Failed(NvmlFault),
    State(PerformanceState),
}

/// The GPU memory that a process has allocated, where that is known.
#[derive(Debug, Clone, Copy, PartialEq, Eq, Structural)]
pub struct ProcessMemory {
    pub pid: u32,
    pub used: Option<u64>,
}

/// What querying the processes of a GPU gave.
pub enum ProcessReading {
    NotQueried,
    Failed(NvmlFault),
    Processes(Vec<ProcessMemory>),
}

/// The readings of a GPU.
pub struct DeviceReadings {
    pub index: u32,
    pub uuid: Option<String>,
    /// In percent.
    pub utilization: Reading,
    /// In percent.
    pub memory_controller: Reading,
    /// In degrees Celsius.
    pub temperature: Reading,
    /// In milliwatts.
    pub power: Reading,
    /// In MHz.
    pub graphics_clock: Reading,
    /// In MHz.
    pub memory_clock: Reading,
    /// The bits of the throttle reasons.
    pub throttle: Reading,
    pub performance_state: StateReading,
    /// In percent.
    pub encoder: Reading,
    /// In percent.
    pub decoder: Reading,
    pub processes: ProcessReading,
}

/// What NVML gave.
pub enum NvmlState {
    /// There is no NVML; the output of `nvidia-smi` stands in.
    Missing(SmiOutput),
    /// The GPUs could not be counted.
    CountFailed,
    /// The readings of the GPUs and the messages of the event workers since
    /// the last collection.
    Devices { devices: Vec<DeviceReadings>, messages: Vec<XidMessage> },
}

/// A property of a GPU.
#[derive(Debug, Clone, Copy, PartialEq, Eq, Structural)]
pub enum Query {
    Utilization,
    MemoryController,
    Temperature,
    Power,
    GraphicsClock,
    MemoryClock,
    Throttle,
    PerformanceState,
    Encoder,
    Decoder,
    Processes,
}

/// The metric of a property.
pub open spec fn metric_of(q: Query) -> Seq<char> {
    match q {
        Query::Utilization => "nvidia.gpu.utilization"@,
        Query::MemoryController => "nvidia.gpu.memory_controller.utilization"@,
        Query::Temperature => "nvidia.gpu.temperature"@,
        Query::Power => "nvidia.gpu.power.draw"@,
        Query::GraphicsClock => "nvidia.gpu.clock.frequency"@,
        Query::MemoryClock => "nvidia.gpu.clock.frequency"@,
        Query::Throttle => "nvidia.gpu.throttle"@,
        Query::PerformanceState => "nvidia.gpu.performance_state"@,
        Query::Encoder => "nvidia.gpu.encoder.utilization"@,
        Query::Decoder => "nvidia.gpu.decoder.utilization"@,
        Query::Processes => "nvidia.gpu.process.memory.allocation"@,
    }
}

/// The unit of a property.
pub open spec fn unit_of(q: Query) -> Seq<char> {
    match q {
        Query::Temperature => "Cel"@,
        Query::Power => "W"@,
        Query::GraphicsClock => "MHz"@,
        Query::MemoryClock => "MHz"@,
        Query::Throttle => "1"@,
        Query::PerformanceState => "1"@,
        Query::Processes => "By"@,
        _ => "%"@,
    }
}

/// The attributes that set a property apart from others of its metric.
pub open spec fn domain_of(q: Query) -> Seq<(Seq<char>, Seq<char>)> {
    match q {
        Query::GraphicsClock => seq![("clock.domain"@, "graphics"@)],
        Query::MemoryClock => seq![("clock.domain"@, "memory"@)],
        _ => seq![],
    }
}

/// The property as a capability.
pub open spec fn property_of(q: Query) -> Series {
    Series { source: "nvml"@, metric: metric_of(q), attributes: domain_of(q) }
}

/// The number that a property reports; power is reported in watts.
pub open spec fn number_of(q: Query, n: u64) -> Number {
    match q {
        Query::Power => Number::Ratio { part: n, whole: 1000 },
        _ => Number::Count(n),
    }
}

/// The value of a performance state.
pub open spec fn state_value(s: PerformanceState) -> i8 {
    match s {
        PerformanceState::Zero => 0,
        PerformanceState::One => 1,
        PerformanceState::Two => 2,
        PerformanceState::Three => 3,
        PerformanceState::Four => 4,
        PerformanceState::Five => 5,
        PerformanceState::Six => 6,
        PerformanceState::Seven => 7,
        PerformanceState::Eight => 8,
        PerformanceState::Nine => 9,
        PerformanceState::Ten => 10,
        PerformanceState::Eleven => 11,
        PerformanceState::Twelve => 12,
        PerformanceState::Thirteen => 13,
        PerformanceState::Fourteen => 14,
        PerformanceState::Fifteen => 15,
        PerformanceState::Unknown => (-1) as i8,
    }
}

/// The name of a performance state.
pub open spec fn state_name(s: PerformanceState) -> Seq<char> {
    match s {
        PerformanceState::Zero => "Zero"@,
        PerformanceState::One => "One"@,
        PerformanceState::Two => "Two"@,
        PerformanceState::Three => "Three"@,
        PerformanceState::Four => "Four"@,
        PerformanceState::Five => "Five"@,
        PerformanceState::Six => "Six"@,
        PerformanceState::Seven => "Seven"@,
        PerformanceState::Eight => "Eight"@,
        PerformanceState::Nine => "Nine"@,
        PerformanceState::Ten => "Ten"@,
        PerformanceState::Eleven => "Eleven"@,
        PerformanceState::Twelve => "Twelve"@,
        PerformanceState::Thirteen => "Thirteen"@,
        PerformanceState::Fourteen => "Fourteen"@,
        PerformanceState::Fifteen => "Fifteen"@,
        PerformanceState::Unknown => "Unknown"@,
    }
}

// --------------------------------------------------------------------------
// Points
// --------------------------------------------------------------------------

/// The point of a failed query.
pub open spec fn fault_point(q: Query, f: NvmlFault) -> Point<Number> {
    unavailable_of(
        metric_of(q),
        unit_of(q),
        if f.unsupported {
            Quality::Unsupported
        } else {
            Quality::Error
        },
        "nvml"@,
        uppercase("NVML_"@ + f.name@),
    )
}

/// The point of a property that is known to be unsupported.
pub open spec fn unsupported_point(q: Query) -> Point<Number> {
    unavailable_of(
        metric_of(q),
        unit_of(q),
        Quality::Unsupported,
        "nvml"@,
        "NVML_NOTSUPPORTED"@,
    )
}

/// A point with the attributes that set its property apart.
pub open spec fn in_domain(p: Point<Number>, q: Query) -> Point<Number> {
    match q {
        Query::GraphicsClock => p.with("clock.domain"@, "graphics"@),
        Query::MemoryClock => p.with("clock.domain"@, "memory"@),
        _ => p,
    }
}

/// The points of a reading. A disabled property has none; one that is known to
/// be unsupported says so, whatever was read.
#[verifier::opaque]
pub open spec fn reading_points(k: Knowledge, q: Query, r: Reading, id: Seq<char>, index: u32) -> Seq<
    Point<Number>,
> {
    if policy_of(k, property_of(q)) == CapabilityPolicy::Disabled {
        seq![]
    } else if !queried(k, property_of(q)) {
        seq![of_gpu(in_domain(unsupported_point(q), q), id, index as nat)]
    } else {
        match r {
            Reading::NotQueried => seq![],
            Reading::Failed(f) => seq![of_gpu(in_domain(fault_point(q, f), q), id, index as nat)],
            Reading::Number(n) => seq![
                of_gpu(
                    in_domain(
                        gauge_of(
                            metric_of(q),
                            number_of(q, n),
                            unit_of(q),
                            Quality::Measured,
                            "nvml"@,
                        ),
                        q,
                    ),
                    id,
                    index as nat,
                ),
            ],
        }
    }
}

/// The points of the performance state.
#[verifier::opaque]
pub open spec fn state_points(k: Knowledge, r: StateReading, id: Seq<char>, index: u32) -> Seq<
    Point<Number>,
> {
    let q = Query::PerformanceState;
    if policy_of(k, property_of(q)) == CapabilityPolicy::Disabled {
        seq![]
    } else if !queried(k, property_of(q)) {
        seq![of_gpu(unsupported_point(q), id, index as nat)]
    } else {
        match r {
            StateReading::NotQueried => seq![],
            StateReading::Failed(f) => seq![of_gpu(fault_point(q, f), id, index as nat)],
            StateReading::State(s) => seq![
                of_gpu(
                    gauge_of(
                        metric_of(q),
                        Number::Level(state_value(s)),
                        unit_of(q),
                        Quality::Measured,
                        "nvml"@,
                    ).with("nvidia.performance_state"@, state_name(s)),
                    id,
                    index as nat,
                ),
            ],
        }
    }
}

/// The point of a process.
pub open spec fn process_point(p: ProcessMemory, id: Seq<char>, index: u32) -> Point<Number> {
    let q = Query::Processes;
    let point = match p.used {
        Some(bytes) => gauge_of(
            metric_of(q),
            Number::Count(bytes),
            unit_of(q),
            Quality::Measured,
            "nvml"@,
        ),
        None => unavailable_of(
            metric_of(q),
            unit_of(q),
            Quality::Unsupported,
            "nvml"@,
            "NVML_MEMORY_UNAVAILABLE"@,
        ),
    };
    of_gpu(point.with("process.pid"@, decimal(p.pid as nat)), id, index as nat)
}

/// The points of the processes.
#[verifier::opaque]
pub open spec fn process_points(k: Knowledge, r: ProcessReading, id: Seq<char>, index: u32) -> Seq<
    Point<Number>,
> {
    let q = Query::Processes;
    if policy_of(k, property_of(q)) == CapabilityPolicy::Disabled {
        seq![]
    } else if !queried(k, property_of(q)) {
        seq![of_gpu(unsupported_point(q), id, index as nat)]
    } else {
        match r {
            ProcessReading::NotQueried => seq![],
            ProcessReading::Failed(f) => seq![of_gpu(fault_point(q, f), id, index as nat)],
            ProcessReading::Processes(ps) => ps@.map_values(
                |p: ProcessMemory| process_point(p, id, index),
            ),
        }
    }
}

/// The identifier of a GPU, or its index.
pub open spec fn gpu_id(d: DeviceReadings) -> Seq<char> {
    match optional(d.uuid) {
        Some(uuid) => uuid,
        None => "index-"@ + decimal(d.index as nat),
    }
}

/// The points of a GPU.
pub open spec fn device_points(k: Knowledge, processes: bool, d: DeviceReadings) -> Seq<
    Point<Number>,
> {
    let id = gpu_id(d);
    let i = d.index;
    reading_points(k, Query::Utilization, d.utilization, id, i) + reading_points(
        k,
        Query::MemoryController,
        d.memory_controller,
        id,
        i,
    ) + reading_points(k, Query::Temperature, d.temperature, id, i) + reading_points(
        k,
        Query::Power,
        d.power,
        id,
        i,
    ) + reading_points(k, Query::GraphicsClock, d.graphics_clock, id, i) + reading_points(
        k,
        Query::MemoryClock,
        d.memory_clock,
        id,
        i,
    ) + reading_points(k, Query::Throttle, d.throttle, id, i) + state_points(
        k,
        d.performance_state,
        id,
        i,
    ) + reading_points(k, Query::Encoder, d.encoder, id, i) + reading_points(
        k,
        Query::Decoder,
        d.decoder,
        id,
        i,
    ) + (if processes {
        process_points(k, d.processes, id, i)
    } else {
        seq![]
    })
}

pub open spec fn each_device(k: Knowledge, processes: bool) -> spec_fn(DeviceReadings) -> Seq<
    Point<Number>,
> {
    |d: DeviceReadings| device_points(k, processes, d)
}

/// The points that NVML, or what stands in for it, gives.
pub open spec fn nvidia_points(k: Knowledge, processes: bool, w: Watched, state: NvmlState) -> Seq<
    Point<Number>,
> {
    match state {
        NvmlState::Missing(output) => smi_points(output),
        NvmlState::CountFailed => seq![
            unavailable_of(
                "nvidia.gpu.utilization"@,
                "%"@,
                Quality::Unsupported,
                "nvml"@,
                "NVML_DEVICE_COUNT_FAILED"@,
            ),
        ],
        NvmlState::Devices { devices, messages } => flat(devices@, each_device(k, processes))
            + xid_points(w, messages@),
    }
}

// --------------------------------------------------------------------------
// What turned out to be unsupported
// --------------------------------------------------------------------------

/// What is known after a query may have found a property unsupported.
pub open spec fn noted(k: Knowledge, q: Query, unsupported: bool) -> Knowledge {
    if unsupported {
        after_unsupported(k, property_of(q))
    } else {
        k
    }
}

/// NVML says that the property is not supported.
pub open spec fn says_unsupported(r: Reading) -> bool {
    r matches Reading::Failed(f) && f.unsupported
}

/// What is known after the readings of a GPU.
pub open spec fn after_device(k: Knowledge, d: DeviceReadings) -> Knowledge {
    let k = noted(k, Query::Utilization, says_unsupported(d.utilization));
    let k = noted(k, Query::MemoryController, says_unsupported(d.memory_controller));
    let k = noted(k, Query::Temperature, says_unsupported(d.temperature));
    let k = noted(k, Query::Power, says_unsupported(d.power));
    let k = noted(k, Query::GraphicsClock, says_unsupported(d.graphics_clock));
    let k = noted(k, Query::MemoryClock, says_unsupported(d.memory_clock));
    let k = noted(k, Query::Throttle, says_unsupported(d.throttle));
    let k = noted(
        k,
        Query::PerformanceState,
        d.performance_state matches StateReading::Failed(f) && f.unsupported,
    );
    let k = noted(k, Query::Encoder, says_unsupported(d.encoder));
    let k = noted(k, Query::Decoder, says_unsupported(d.decoder));
    noted(k, Query::Processes, d.processes matches ProcessReading::Failed(f) && f.unsupported)
}

/// What is known after the readings of some GPUs.
pub open spec fn after_devices(k: Knowledge, ds: Seq<DeviceReadings>) -> Knowledge
    decreases ds.len(),
{
    if ds.len() == 0 {
        k
    } else {
        after_device(after_devices(k, ds.drop_last()), ds.last())
    }
}

// --------------------------------------------------------------------------
// Inventory
// --------------------------------------------------------------------------

/// A GPU that NVML lists.
pub struct GpuIdentity {
    pub index: u32,
    pub name: Option<String>,
    pub uuid: Option<String>,
}

/// The GPUs that NVML counts and lists.
pub struct GpuList {
    pub count: u32,
    pub gpus: Vec<GpuIdentity>,
}

/// What NVML says of the host; nothing where there is no NVML.
pub struct NvmlInventory {
    pub driver: Option<String>,
    pub cuda: Option<i32>,
    pub gpus: Option<GpuList>,
}

/// A product name of which one word is GB10.
pub open spec fn names_gb10(name: Seq<char>) -> bool {
    exists|i: int|
        0 <= i < split_of(name, Class::NonAlphanumeric).len() && lowercase(
            #[trigger] split_of(name, Class::NonAlphanumeric)[i],
        ) == "gb10"@
}

/// Whether a product name is that of a GB10.
pub fn is_gb10(name: &str) -> (r: bool)
    ensures
        r == names_gb10(name@),
{
    let parts = split(name, Class::NonAlphanumeric);
    let ghost all = texts(parts@);
    let mut i: usize = 0;
    while i < parts.len()
        invariant
            i <= parts@.len(),
            all == texts(parts@),
            all == split_of(name@, Class::NonAlphanumeric),
            forall|j: int| 0 <= j < i ==> lowercase(#[trigger] all[j]) != "gb10"@,
        decreases parts@.len() - i,
    {
        assert(all[i as int] == parts@[i as int]@);
        let part = to_lowercase(parts[i].as_str());
        if same(part.as_str(), "gb10") {
            return true;
        }
        i += 1;
    }
    false
}

/// The quotient of two numbers, rounded towards zero.
pub open spec fn quotient(a: int, b: int) -> int {
    if a >= 0 {
        a / b
    } else {
        -((-a) / b)
    }
}

/// The remainder that goes with [`quotient`].
pub open spec fn remainder(a: int, b: int) -> int {
    a - b * quotient(a, b)
}

/// `nvml_wrapper::cuda_driver_version_major`: the thousands of a version.
pub assume_specification[ nvml_wrapper::cuda_driver_version_major ](version: i32) -> (r: i32)
    ensures
        r == quotient(version as int, 1000),
;

/// `nvml_wrapper::cuda_driver_version_minor`: the tens below the thousands of
/// a version.
pub assume_specification[ nvml_wrapper::cuda_driver_version_minor ](version: i32) -> (r: i32)
    ensures
        r == quotient(remainder(version as int, 1000), 10),
;

/// A CUDA version as major and minor number.
pub open spec fn cuda_text(version: i32) -> Seq<char> {
    signed_decimal(quotient(version as int, 1000)) + "."@ + signed_decimal(
        quotient(remainder(version as int, 1000), 10),
    )
}

pub type Properties = Map<Seq<char>, Seq<char>>;

/// `m` with the attributes of a GPU. A GB10 has unified memory of a known
/// bandwidth.
pub open spec fn with_gpu(m: Properties, g: GpuIdentity) -> Properties {
    let prefix = "nvidia.gpu."@ + decimal(g.index as nat);
    let named = match optional(g.name) {
        Some(name) => {
            let n = if names_gb10(name) {
                m.insert("spark.memory.architecture"@, "unified"@).insert(
                    "spark.memory.bandwidth.capability_gbps"@,
                    "273"@,
                )
            } else {
                m
            };
            n.insert(prefix + ".name"@, name)
        },
        None => m,
    };
    match optional(g.uuid) {
        Some(uuid) => named.insert(prefix + ".uuid"@, uuid),
        None => named,
    }
}

pub open spec fn with_gpus(m: Properties, gs: Seq<GpuIdentity>) -> Properties
    decreases gs.len(),
{
    if gs.len() == 0 {
        m
    } else {
        with_gpu(with_gpus(m, gs.drop_last()), gs.last())
    }
}

/// The inventory attributes that NVML gives.
pub open spec fn nvml_inventory(n: NvmlInventory) -> Properties {
    let a = match optional(n.driver) {
        Some(version) => Map::empty().insert("nvidia.driver.version"@, version),
        None => Map::empty(),
    };
    let b = match n.cuda {
        Some(version) => a.insert("nvidia.cuda.driver_compatibility"@, cuda_text(version)),
        None => a,
    };
    match n.gpus {
        Some(list) => with_gpus(
            b.insert("nvidia.gpu.count"@, decimal(list.count as nat)),
            list.gpus@,
        ),
        None => b,
    }
}

fn inventory_gpu(m: &mut Attributes, g: &GpuIdentity)
    ensures
        final(m)@ == with_gpu(old(m)@, *g),
{
    let number = u64_text(g.index as u64);
    let prefix = concat("nvidia.gpu.", number.as_str());
    match &g.name {
        Some(name) => {
            if is_gb10(name.as_str()) {
                m.insert("spark.memory.architecture".to_owned(), "unified".to_owned());
                m.insert("spark.memory.bandwidth.capability_gbps".to_owned(), "273".to_owned());
            }
            m.insert(concat(prefix.as_str(), ".name"), name.clone());
        },
        None => {},
    }
    match &g.uuid {
        Some(uuid) => {
            m.insert(concat(prefix.as_str(), ".uuid"), uuid.clone());
        },
        None => {},
    }
}

fn inventory_nvml(n: &NvmlInventory) -> (r: Attributes)
    ensures
        r@ == nvml_inventory(*n),
{
    let mut m: Attributes = Table::new();
    match &n.driver {
        Some(version) => {
            m.insert("nvidia.driver.version".to_owned(), version.clone());
        },
        None => {},
    }
    match n.cuda {
        Some(version) => {
            let major = i32_text(nvml_wrapper::cuda_driver_version_major(version));
            let minor = i32_text(nvml_wrapper::cuda_driver_version_minor(version));
            let text = concat(major.as_str(), ".");
            m.insert(
                "nvidia.cuda.driver_compatibility".to_owned(),
                concat(text.as_str(), minor.as_str()),
            );
        },
        None => {},
    }
    match &n.gpus {
        Some(list) => {
            m.insert("nvidia.gpu.count".to_owned(), u64_text(list.count as u64));
            let ghost start = m@;
            let gs = &list.gpus;
            let mut i: usize = 0;
            while i < gs.len()
                invariant
                    i <= gs@.len(),
                    m@ == with_gpus(start, gs@.take(i as int)),
                decreases gs@.len() - i,
            {
                assert(gs@.take(i + 1).drop_last() =~= gs@.take(i as int));
                inventory_gpu(&mut m, &gs[i]);
                i += 1;
            }
            assert(gs@.take(i as int) =~= gs@);
        },
        None => {},
    }
    m
}

// --------------------------------------------------------------------------
// Execution
// --------------------------------------------------------------------------

impl Query {
    fn metric(&self) -> (r: &'static str)
        ensures
            r@ == metric_of(*self),
            is_metric(r@),
    {
        match self {
            Query::Utilization => "nvidia.gpu.utilization",
            Query::MemoryController => "nvidia.gpu.memory_controller.utilization",
            Query::Temperature => "nvidia.gpu.temperature",
            Query::Power => "nvidia.gpu.power.draw",
            Query::GraphicsClock => "nvidia.gpu.clock.frequency",
            Query::MemoryClock => "nvidia.gpu.clock.frequency",
            Query::Throttle => "nvidia.gpu.throttle",
            Query::PerformanceState => "nvidia.gpu.performance_state",
            Query::Encoder => "nvidia.gpu.encoder.utilization",
            Query::Decoder => "nvidia.gpu.decoder.utilization",
            Query::Processes => "nvidia.gpu.process.memory.allocation",
        }
    }

    fn unit(&self) -> (r: &'static str)
        ensures
            r@ == unit_of(*self),
    {
        match self {
            Query::Temperature => "Cel",
            Query::Power => "W",
            Query::GraphicsClock => "MHz",
            Query::MemoryClock => "MHz",
            Query::Throttle => "1",
            Query::PerformanceState => "1",
            Query::Processes => "By",
            _ => "%",
        }
    }

    /// The property as a capability.
    pub fn key(&self) -> (r: CapabilityKey)
        ensures
            r@ == property_of(*self),
    {
        let mut attributes: Attributes = Table::new();
        let domain = match self {
            Query::GraphicsClock => Some("graphics"),
            Query::MemoryClock => Some("memory"),
            _ => None,
        };
        match domain {
            Some(d) => {
                attributes.insert("clock.domain".to_owned(), d.to_owned());
            },
            None => {},
        }
        proof {
            let s = domain_of(*self);
            lemma_items_of::<String, Seq<char>>(s);
            assert forall|k: Seq<char>| map_of(s).contains_key(k) == attributes@.contains_key(
                k,
            ) by {
                if s.len() == 1 && k == "clock.domain"@ {
                    assert(keyed(s, 0, k));
                }
            }
            assert forall|k: Seq<char>| map_of(s).contains_key(k) implies map_of(s)[k]
                == attributes@[k] by {
                assert(s.len() == 1);
                assert(s[0].0 == k);
            }
            assert(map_of(s) =~= attributes@);
        }
        CapabilityKey::new("nvml", self.metric(), attributes)
    }
}

/// The value of a performance state.
pub fn performance_state_value(state: PerformanceState) -> (r: i8)
    ensures
        r == state_value(state),
{
    match state {
        PerformanceState::Zero => 0,
        PerformanceState::One => 1,
        PerformanceState::Two => 2,
        PerformanceState::Three => 3,
        PerformanceState::Four => 4,
        PerformanceState::Five => 5,
        PerformanceState::Six => 6,
        PerformanceState::Seven => 7,
        PerformanceState::Eight => 8,
        PerformanceState::Nine => 9,
        PerformanceState::Ten => 10,
        PerformanceState::Eleven => 11,
        PerformanceState::Twelve => 12,
        PerformanceState::Thirteen => 13,
        PerformanceState::Fourteen => 14,
        PerformanceState::Fifteen => 15,
        PerformanceState::Unknown => -1,
    }
}

fn performance_state_name(state: PerformanceState) -> (r: &'static str)
    ensures
        r@ == state_name(state),
{
    match state {
        PerformanceState::Zero => "Zero",
        PerformanceState::One => "One",
        PerformanceState::Two => "Two",
        PerformanceState::Three => "Three",
        PerformanceState::Four => "Four",
        PerformanceState::Five => "Five",
        PerformanceState::Six => "Six",
        PerformanceState::Seven => "Seven",
        PerformanceState::Eight => "Eight",
        PerformanceState::Nine => "Nine",
        PerformanceState::Ten => "Ten",
        PerformanceState::Eleven => "Eleven",
        PerformanceState::Twelve => "Twelve",
        PerformanceState::Thirteen => "Thirteen",
        PerformanceState::Fourteen => "Fourteen",
        PerformanceState::Fifteen => "Fifteen",
        PerformanceState::Unknown => "Unknown",
    }
}

/// The point of a failed query.
pub fn nvml_unavailable(q: Query, f: &NvmlFault) -> (r: MetricPoint<Value>)
    ensures
        r@ == fault_point(q, *f),
{
    let quality = if f.unsupported {
        Quality::Unsupported
    } else {
        Quality::Error
    };
    let name = concat("NVML_", f.name.as_str());
    let code = to_uppercase(name.as_str());
    MetricPoint::unavailable(q.metric(), q.unit(), quality, "nvml", code.as_str())
}

fn cached_unsupported(q: Query) -> (r: MetricPoint<Value>)
    ensures
        r@ == unsupported_point(q),
{
    MetricPoint::unavailable(
        q.metric(),
        q.unit(),
        Quality::Unsupported,
        "nvml",
        "NVML_NOTSUPPORTED",
    )
}

fn separate(point: MetricPoint<Value>, q: Query) -> (r: MetricPoint<Value>)
    ensures
        r@ == in_domain(point@, q),
{
    match q {
        Query::GraphicsClock => point.with_attribute("clock.domain", "graphics"),
        Query::MemoryClock => point.with_attribute("clock.domain", "memory"),
        _ => point,
    }
}

/// Collects GPU points and inventory.
pub struct NvidiaCollector {
    include_process_allocations: bool,
    capabilities: CapabilityRuntime,
    xid: XidMonitor,
}

/// The content of an [`NvidiaCollector`].
#[verifier::ext_equal]
pub struct Gpus {
    pub include_processes: bool,
    pub knowledge: Knowledge,
    pub watched: Watched,
}

impl View for NvidiaCollector {
    type V = Gpus;

    closed spec fn view(&self) -> Gpus {
        Gpus {
            include_processes: self.include_process_allocations,
            knowledge: self.capabilities@,
            watched: self.xid@,
        }
    }
}

/// Whether a property of the GPUs is to be queried.
pub open spec fn wanted(g: Gpus, q: Query) -> bool {
    queried(g.knowledge, property_of(q)) && (q == Query::Processes ==> g.include_processes)
}

/// A collector after collecting what NVML gave.
pub open spec fn after_collection(g: Gpus, state: NvmlState) -> Gpus {
    match state {
        NvmlState::Devices { devices, messages } => Gpus {
            knowledge: after_devices(g.knowledge, devices@),
            watched: watched_after(g.watched, messages@),
            ..g
        },
        _ => g,
    }
}

impl NvidiaCollector {
    /// A collector for some hardware, with the hardware profiles at `source`.
    pub fn new(
        include_process_allocations: bool,
        source: &ProfileSource,
        identity: HardwareIdentity,
    ) -> (r: Result<Self, CapabilityError>)
        ensures
            match sourced(*source, identity@) {
                Ok(rules) => r matches Ok(collector) && collector@ == (Gpus {
                    include_processes: include_process_allocations,
                    knowledge: Knowledge {
                        hardware: identity@,
                        rules,
                        unsupported: Set::empty(),
                    },
                    watched: Watched { ready: Set::empty(), unsupported: Set::empty() },
                }),
                Err(e) => r matches Err(error) && error@ == e,
            },
    {
        match CapabilityRuntime::load(source, identity) {
            Ok(capabilities) => Ok(
                NvidiaCollector {
                    include_process_allocations,
                    capabilities,
                    xid: XidMonitor::new(),
                },
            ),
            Err(e) => Err(e),
        }
    }

    /// Loads the hardware profiles anew. What is refused changes nothing.
    pub fn reload_capabilities(&mut self, source: &ProfileSource, identity: HardwareIdentity) -> (r:
        Result<(), CapabilityError>)
        ensures
            match sourced(*source, identity@) {
                Ok(rules) => r is Ok && final(self)@ == (Gpus {
                    knowledge: Knowledge {
                        hardware: identity@,
                        rules,
                        unsupported: Set::empty(),
                    },
                    ..old(self)@
                }),
                Err(e) => (r matches Err(error) && error@ == e) && final(self)@ == old(self)@,
            },
    {
        self.capabilities.reload(source, identity)
    }

    /// Takes note of the hardware at hand.
    pub fn update_identity(&mut self, identity: HardwareIdentity)
        ensures
            final(self)@ == (Gpus {
                knowledge: if same_lifecycle(identity@, old(self)@.knowledge.hardware) {
                    old(self)@.knowledge
                } else {
                    Knowledge {
                        hardware: identity@,
                        unsupported: Set::empty(),
                        ..old(self)@.knowledge
                    }
                },
                ..old(self)@
            }),
    {
        self.capabilities.update_identity(identity);
    }

    /// Whether a property of the GPUs is to be queried.
    pub fn wants(&self, q: Query) -> (r: bool)
        ensures
            r == wanted(self@, q),
    {
        self.capabilities.should_query(&q.key()) && (q != Query::Processes
            || self.include_process_allocations)
    }

    /// The stable attributes of the GPUs, and the properties that are not
    /// queried.
    #[must_use]
    pub fn inventory(&self, nvml: &NvmlInventory) -> (r: Attributes)
        ensures
            r@ == nvml_inventory(*nvml).union_prefer_right(
                notices_text(notices(self@.knowledge.rules, self@.knowledge.unsupported)),
            ),
    {
        let mut m = inventory_nvml(nvml);
        let capabilities = self.capabilities.inventory_attributes();
        m.extend(&capabilities);
        m
    }

    fn collect_reading(
        &self,
        q: Query,
        r: &Reading,
        id: &str,
        index: u32,
        points: &mut Vec<MetricPoint<Value>>,
    )
        ensures
            views(final(points)@) == views(old(points)@) + reading_points(
                self@.knowledge,
                q,
                *r,
                id@,
                index,
            ),
    {
        proof {
            reveal(reading_points);
        }
        let key = q.key();
        if self.capabilities.policy(&key) == CapabilityPolicy::Disabled {
            return;
        }
        if !self.capabilities.should_query(&key) {
            emit(points, decorate(separate(cached_unsupported(q), q), id, index as u64));
            return;
        }
        let point = match r {
            Reading::NotQueried => {
                return;
            },
            Reading::Failed(f) => nvml_unavailable(q, f),
            Reading::Number(n) => {
                let value = match q {
                    Query::Power => Value::Ratio { part: *n, whole: 1000 },
                    _ => Value::Count(*n),
                };
                MetricPoint::gauge(q.metric(), value, q.unit(), Quality::Measured, "nvml")
            },
        };
        emit(points, decorate(separate(point, q), id, index as u64));
    }

    fn collect_state(
        &self,
        r: &StateReading,
        id: &str,
        index: u32,
        points: &mut Vec<MetricPoint<Value>>,
    )
        ensures
            views(final(points)@) == views(old(points)@) + state_points(
                self@.knowledge,
                *r,
                id@,
                index,
            ),
    {
        proof {
            reveal(state_points);
        }
        let q = Query::PerformanceState;
        let key = q.key();
        if self.capabilities.policy(&key) == CapabilityPolicy::Disabled {
            return;
        }
        if !self.capabilities.should_query(&key) {
            emit(points, decorate(cached_unsupported(q), id, index as u64));
            return;
        }
        let point = match r {
            StateReading::NotQueried => {
                return;
            },
            StateReading::Failed(f) => nvml_unavailable(q, f),
            StateReading::State(s) => MetricPoint::gauge(
                q.metric(),
                Value::Level(performance_state_value(*s)),
                q.unit(),
                Quality::Measured,
                "nvml",
            ).with_attribute("nvidia.performance_state", performance_state_name(*s)),
        };
        emit(points, decorate(point, id, index as u64));
    }

    fn collect_processes(
        &self,
        r: &ProcessReading,
        id: &str,
        index: u32,
        points: &mut Vec<MetricPoint<Value>>,
    )
        ensures
            views(final(points)@) == views(old(points)@) + process_points(
                self@.knowledge,
                *r,
                id@,
                index,
            ),
    {
        proof {
            reveal(process_points);
        }
        let q = Query::Processes;
        let key = q.key();
        if self.capabilities.policy(&key) == CapabilityPolicy::Disabled {
            return;
        }
        if !self.capabilities.should_query(&key) {
            emit(points, decorate(cached_unsupported(q), id, index as u64));
            return;
        }
        match r {
            ProcessReading::NotQueried => {},
            ProcessReading::Failed(f) => {
                emit(points, decorate(nvml_unavailable(q, f), id, index as u64));
            },
            ProcessReading::Processes(ps) => {
                let ghost start = views(points@);
                let ghost all = ps@.map_values(|p: ProcessMemory| process_point(p, id@, index));
                let mut i: usize = 0;
                while i < ps.len()
                    invariant
                        i <= ps@.len(),
                        q == Query::Processes,
                        all == ps@.map_values(|p: ProcessMemory| process_point(p, id@, index)),
                        views(points@) == start + all.take(i as int),
                    decreases ps@.len() - i,
                {
                    let point = match ps[i].used {
                        Some(bytes) => MetricPoint::gauge(
                            q.metric(),
                            Value::Count(bytes),
                            q.unit(),
                            Quality::Measured,
                            "nvml",
                        ),
                        None => MetricPoint::unavailable(
                            q.metric(),
                            q.unit(),
                            Quality::Unsupported,
                            "nvml",
                            "NVML_MEMORY_UNAVAILABLE",
                        ),
                    };
                    let pid = u64_text(ps[i].pid as u64);
                    emit(
                        points,
                        decorate(
                            point.with_attribute("process.pid", pid.as_str()),
                            id,
                            index as u64,
                        ),
                    );
                    assert(all[i as int] == process_point(ps@[i as int], id@, index));
                    assert(views(points@) =~= start + all.take(i + 1));
                    i += 1;
                }
                assert(all.take(i as int) =~= all);
            },
        }
    }

    fn collect_device(&self, d: &DeviceReadings, points: &mut Vec<MetricPoint<Value>>)
        ensures
            views(final(points)@) == views(old(points)@) + device_points(
                self@.knowledge,
                self@.include_processes,
                *d,
            ),
    {
        let id = match &d.uuid {
            Some(uuid) => uuid.clone(),
            None => {
                let number = u64_text(d.index as u64);
                concat("index-", number.as_str())
            },
        };
        let id = id.as_str();
        self.collect_reading(Query::Utilization, &d.utilization, id, d.index, points);
        self.collect_reading(Query::MemoryController, &d.memory_controller, id, d.index, points);
        self.collect_reading(Query::Temperature, &d.temperature, id, d.index, points);
        self.collect_reading(Query::Power, &d.power, id, d.index, points);
        self.collect_reading(Query::GraphicsClock, &d.graphics_clock, id, d.index, points);
        self.collect_reading(Query::MemoryClock, &d.memory_clock, id, d.index, points);
        self.collect_reading(Query::Throttle, &d.throttle, id, d.index, points);
        self.collect_state(&d.performance_state, id, d.index, points);
        self.collect_reading(Query::Encoder, &d.encoder, id, d.index, points);
        self.collect_reading(Query::Decoder, &d.decoder, id, d.index, points);
        if self.include_process_allocations {
            self.collect_processes(&d.processes, id, d.index, points);
        }
    }

    fn note(&mut self, q: Query, unsupported: bool)
        ensures
            final(self)@ == (Gpus {
                knowledge: noted(old(self)@.knowledge, q, unsupported),
                ..old(self)@
            }),
    {
        if unsupported {
            self.capabilities.observe_definitive_unsupported(&q.key());
        }
    }

    fn note_reading(&mut self, q: Query, r: &Reading)
        ensures
            final(self)@ == (Gpus {
                knowledge: noted(old(self)@.knowledge, q, says_unsupported(*r)),
                ..old(self)@
            }),
    {
        let unsupported = match r {
            Reading::Failed(f) => f.unsupported,
            _ => false,
        };
        self.note(q, unsupported);
    }

    fn note_device(&mut self, d: &DeviceReadings)
        ensures
            final(self)@ == (Gpus {
                knowledge: after_device(old(self)@.knowledge, *d),
                ..old(self)@
            }),
    {
        self.note_reading(Query::Utilization, &d.utilization);
        self.note_reading(Query::MemoryController, &d.memory_controller);
        self.note_reading(Query::Temperature, &d.temperature);
        self.note_reading(Query::Power, &d.power);
        self.note_reading(Query::GraphicsClock, &d.graphics_clock);
        self.note_reading(Query::MemoryClock, &d.memory_clock);
        self.note_reading(Query::Throttle, &d.throttle);
        let state = match &d.performance_state {
            StateReading::Failed(f) => f.unsupported,
            _ => false,
        };
        self.note(Query::PerformanceState, state);
        self.note_reading(Query::Encoder, &d.encoder);
        self.note_reading(Query::Decoder, &d.decoder);
        let processes = match &d.processes {
            ProcessReading::Failed(f) => f.unsupported,
            _ => false,
        };
        self.note(Query::Processes, processes);
    }

    /// Collects the points of the GPUs and takes note of what NVML does not
    /// support.
    #[must_use]
    pub fn collect(&mut self, state: &NvmlState) -> (r: Vec<MetricPoint<Value>>)
        ensures
            views(r@) == nvidia_points(
                old(self)@.knowledge,
                old(self)@.include_processes,
                old(self)@.watched,
                *state,
            ),
            final(self)@ == after_collection(old(self)@, *state),
    {
        match state {
            NvmlState::Missing(output) => collect_smi_fallback(output),
            NvmlState::CountFailed => {
                let mut points: Vec<MetricPoint<Value>> = no_points();
                emit(
                    &mut points,
                    MetricPoint::unavailable(
                        "nvidia.gpu.utilization",
                        "%",
                        Quality::Unsupported,
                        "nvml",
                        "NVML_DEVICE_COUNT_FAILED",
                    ),
                );
                points
            },
            NvmlState::Devices { devices, messages } => {
                let ghost start = self@;
                let ghost each = each_device(start.knowledge, start.include_processes);
                let mut points: Vec<MetricPoint<Value>> = no_points();
                let mut i: usize = 0;
                while i < devices.len()
                    invariant
                        i <= devices@.len(),
                        self@ == start,
                        each == each_device(start.knowledge, start.include_processes),
                        views(points@) == flat(devices@.take(i as int), each),
                    decreases devices@.len() - i,
                {
                    proof {
                        lemma_flat(devices@, i as int, each);
                    }
                    self.collect_device(&devices[i], &mut points);
                    i += 1;
                }
                assert(devices@.take(i as int) =~= devices@);
                let mut k: usize = 0;
                while k < devices.len()
                    invariant
                        k <= devices@.len(),
                        self@ == (Gpus {
                            knowledge: after_devices(start.knowledge, devices@.take(k as int)),
                            ..start
                        }),
                    decreases devices@.len() - k,
                {
                    assert(devices@.take(k + 1).drop_last() =~= devices@.take(k as int));
                    self.note_device(&devices[k]);
                    k += 1;
                }
                assert(devices@.take(k as int) =~= devices@);
                let events = self.xid.collect(messages);
                emit_all(&mut points, events);
                points
            },
        }
    }
}

} // verus!
