use spark_signals::catalogue::{attribute_name_allowed, metric_name_allowed};
use spark_signals::nvidia::capabilities::{
    load_directory, CapabilityError, CapabilityKey, CapabilityPolicy, CapabilityRuntime,
    HardwareIdentity, HardwareProfile, HardwareSelector, ProfileCapability, ProfileFile,
    ProfileSource,
};
use spark_signals::nvidia::collector::{
    is_gb10, performance_state_value, DeviceReadings, GpuIdentity, GpuList, NvidiaCollector,
    NvmlFault, NvmlInventory, NvmlState, PerformanceState, ProcessMemory, ProcessReading, Query,
    Reading, StateReading,
};
use spark_signals::nvidia::smi::{parse_smi_csv, parse_smi_value, SmiOutput};
use spark_signals::nvidia::xid::{XidMessage, XidMonitor};
use spark_signals::schema::{Attributes, MetricPoint, Quality, Value};
use spark_signals::table::{Group, Table};

fn attributes(pairs: &[(&str, &str)]) -> Attributes {
    let mut table = Table::new();
    for (key, value) in pairs {
        table.insert((*key).to_owned(), (*value).to_owned());
    }
    table
}

fn attribute<'a>(point: &'a MetricPoint<Value>, key: &str) -> Option<&'a str> {
    point.attributes.at(key).map(String::as_str)
}

fn group(names: &[&str]) -> Group<String> {
    let mut set = Group::new();
    for name in names {
        set.insert((*name).to_owned());
    }
    set
}

fn gb10_identity() -> HardwareIdentity {
    HardwareIdentity {
        gpu_products: group(&["NVIDIA GB10"]),
        pci_device_ids: Group::new(),
        driver_version: Some("fixture-driver".to_owned()),
    }
}

fn memory_clock_key() -> CapabilityKey {
    CapabilityKey::new(
        "nvml",
        "nvidia.gpu.clock.frequency",
        attributes(&[("clock.domain", "memory")]),
    )
}

fn graphics_clock_key() -> CapabilityKey {
    CapabilityKey::new(
        "nvml",
        "nvidia.gpu.clock.frequency",
        attributes(&[("clock.domain", "graphics")]),
    )
}

fn capability(attribute: (&str, &str), policy: CapabilityPolicy) -> ProfileCapability {
    ProfileCapability {
        metric: "nvidia.gpu.clock.frequency".to_owned(),
        source: "nvml".to_owned(),
        attributes: attributes(&[attribute]),
        policy,
        reason: "fixture".to_owned(),
    }
}

fn profile(
    id: &str,
    product: Option<&str>,
    pci: Option<&str>,
    capability: Vec<ProfileCapability>,
) -> HardwareProfile {
    HardwareProfile {
        id: id.to_owned(),
        selector: HardwareSelector {
            gpu_product: product.map(str::to_owned),
            pci_device_id: pci.map(str::to_owned),
        },
        capability,
    }
}

fn file(path: &str, profile: HardwareProfile) -> ProfileFile {
    ProfileFile { path: path.to_owned(), hardware_profile: vec![profile] }
}

fn memory_profile(id: &str, policy: CapabilityPolicy) -> HardwareProfile {
    profile(
        id,
        Some("NVIDIA GB10"),
        None,
        vec![capability(("clock.domain", "memory"), policy)],
    )
}

fn profile_directory() -> ProfileSource {
    ProfileSource::Files(vec![file("gb10.toml", memory_profile("gb10", CapabilityPolicy::Disabled))])
}

fn refused(files: Vec<ProfileFile>) -> CapabilityError {
    match load_directory(&files, &gb10_identity()) {
        Ok(_) => panic!("accepted"),
        Err(error) => error,
    }
}

#[test]
fn gb10_profile_matches_and_disables_only_memory_clock() {
    let runtime = CapabilityRuntime::load(&profile_directory(), gb10_identity())
        .ok()
        .unwrap();
    assert_eq!(
        runtime.policy(&memory_clock_key()),
        CapabilityPolicy::Disabled
    );
    assert_eq!(
        runtime.policy(&graphics_clock_key()),
        CapabilityPolicy::Auto
    );
}

#[test]
fn disabled_call_is_not_invoked_and_graphics_remains_measured() {
    let runtime = CapabilityRuntime::load(&profile_directory(), gb10_identity())
        .ok()
        .unwrap();
    let mut calls = 0;
    if runtime.should_query(&memory_clock_key()) {
        calls += 1;
    }
    let graphics_measured = if runtime.should_query(&graphics_clock_key()) {
        calls += 1;
        Some(1_000_u32)
    } else {
        None
    };
    assert_eq!(calls, 1);
    assert_eq!(graphics_measured, Some(1_000));
}

#[test]
fn auto_definitive_unsupported_is_probed_once_but_transient_errors_are_not_cached() {
    let mut runtime = CapabilityRuntime::load(&ProfileSource::Unconfigured, gb10_identity())
        .ok()
        .unwrap();
    let key = memory_clock_key();
    assert!(runtime.should_query(&key));
    runtime.observe_definitive_unsupported(&key);
    assert!(!runtime.should_query(&key));

    let transient = graphics_clock_key();
    assert!(runtime.should_query(&transient));
    assert!(runtime.should_query(&transient));
}

#[test]
fn invalid_reload_preserves_previous_configuration_and_valid_reload_changes_it() {
    let mut runtime = CapabilityRuntime::load(&profile_directory(), gb10_identity())
        .ok()
        .unwrap();
    assert!(runtime.reload(&ProfileSource::Unreadable, gb10_identity()).is_err());
    assert_eq!(
        runtime.policy(&memory_clock_key()),
        CapabilityPolicy::Disabled
    );
    runtime
        .reload(&ProfileSource::Unconfigured, gb10_identity())
        .unwrap();
    assert_eq!(runtime.policy(&memory_clock_key()), CapabilityPolicy::Auto);
}

#[test]
fn rejects_unknown_and_ambiguous_entries() {
    let unknown = profile(
        "bad",
        Some("NVIDIA GB10"),
        None,
        vec![capability(("arbitrary.label", "memory"), CapabilityPolicy::Disabled)],
    );
    assert!(load_directory(&vec![file("unknown.toml", unknown)], &gb10_identity()).is_err());
    let ambiguous: Vec<ProfileFile> = ["a.toml", "b.toml"]
        .into_iter()
        .map(|name| file(name, memory_profile(name, CapabilityPolicy::Disabled)))
        .collect();
    assert!(load_directory(&ambiguous, &gb10_identity()).is_err());
}

#[test]
fn every_fault_of_a_profile_is_named() {
    let good = || vec![capability(("clock.domain", "memory"), CapabilityPolicy::Disabled)];
    let gb10 = Some("NVIDIA GB10");
    let none = ProfileFile { path: "empty.toml".to_owned(), hardware_profile: Vec::new() };
    assert!(matches!(refused(vec![none]), CapabilityError::NoProfiles { path } if path == "empty.toml"));
    let one = |p| refused(vec![file("x.toml", p)]);
    assert!(matches!(one(profile("", gb10, None, good())), CapabilityError::ProfileId { .. }));
    assert!(matches!(one(profile("a", None, None, good())), CapabilityError::SelectorMissing));
    assert!(matches!(one(profile("a", Some(""), None, good())), CapabilityError::SelectorEmpty));
    assert!(matches!(one(profile("a", gb10, None, Vec::new())), CapabilityError::NoCapabilities { .. }));
    let mut metric = good();
    metric[0].metric = "unknown".to_owned();
    assert!(matches!(one(profile("a", gb10, None, metric)), CapabilityError::UnknownMetric { .. }));
    let mut source = good();
    source[0].source = "procfs".to_owned();
    assert!(matches!(one(profile("a", gb10, None, source)), CapabilityError::UnknownSource { .. }));
    let empty = vec![capability(("clock.domain", ""), CapabilityPolicy::Auto)];
    assert!(matches!(one(profile("a", gb10, None, empty)), CapabilityError::InvalidAttribute));
    let mut reason = good();
    reason[0].reason = "x".repeat(257);
    assert!(matches!(one(profile("a", gb10, None, reason)), CapabilityError::InvalidReason));
    let twice = refused(vec![
        file("a.toml", profile("same", Some("other"), None, good())),
        file("b.toml", profile("same", gb10, None, good())),
    ]);
    assert!(matches!(twice, CapabilityError::ProfileId { id } if id == "same"));
}

#[test]
fn the_most_specific_selector_wins_in_any_order() {
    let identity = || HardwareIdentity {
        gpu_products: group(&["NVIDIA GB10"]),
        pci_device_ids: group(&["2e1210de"]),
        driver_version: None,
    };
    let general = || memory_profile("general", CapabilityPolicy::Disabled);
    let specific = || {
        profile(
            "specific",
            Some("NVIDIA GB10"),
            Some("2E1210DE"),
            vec![capability(("clock.domain", "memory"), CapabilityPolicy::Enabled)],
        )
    };
    for files in [
        vec![file("a", general()), file("b", specific())],
        vec![file("a", specific()), file("b", general())],
    ] {
        let resolved = load_directory(&files, &identity()).ok().unwrap();
        let rule = resolved.rule(&memory_clock_key()).unwrap();
        assert_eq!(rule.policy, CapabilityPolicy::Enabled);
    }
    let again = memory_profile("again", CapabilityPolicy::Auto);
    let files = vec![file("a", general()), file("b", specific()), file("c", again)];
    assert!(matches!(
        load_directory(&files, &identity()),
        Err(CapabilityError::Ambiguous { first, second, .. }) if first == "general" && second == "again"
    ));
}

#[test]
fn inventory_lists_what_is_not_queried() {
    let mut runtime = CapabilityRuntime::load(&profile_directory(), gb10_identity())
        .ok()
        .unwrap();
    runtime.observe_definitive_unsupported(&graphics_clock_key());
    runtime.observe_definitive_unsupported(&memory_clock_key());
    let found = runtime.inventory_attributes();
    let get = |key: &str| found.at(key).map(String::as_str);
    assert_eq!(found.len(), 10);
    assert_eq!(get("spark.capability.0.attributes"), Some("clock.domain=memory"));
    assert_eq!(get("spark.capability.0.state"), Some("disabled"));
    assert_eq!(get("spark.capability.0.reason"), Some("fixture"));
    assert_eq!(get("spark.capability.1.attributes"), Some("clock.domain=graphics"));
    assert_eq!(get("spark.capability.1.state"), Some("unsupported"));
    assert_eq!(get("spark.capability.1.reason"), Some("NVML_NOTSUPPORTED"));
}

#[test]
fn changed_hardware_is_probed_again() {
    let mut runtime = CapabilityRuntime::load(&ProfileSource::Unconfigured, gb10_identity())
        .ok()
        .unwrap();
    let key = memory_clock_key();
    runtime.observe_definitive_unsupported(&key);
    runtime.update_identity(gb10_identity());
    assert!(!runtime.should_query(&key));
    let mut updated = gb10_identity();
    updated.driver_version = Some("next-driver".to_owned());
    runtime.update_identity(updated);
    assert!(runtime.should_query(&key));
}

#[test]
fn lifecycle_key_quotes_the_identity() {
    let identity = HardwareIdentity {
        gpu_products: group(&["b \"x\"", "a"]),
        pci_device_ids: group(&["2e12"]),
        driver_version: None,
    };
    assert_eq!(
        identity.lifecycle_key(),
        "products={\"a\", \"b \\\"x\\\"\"};pci={\"2e12\"};driver="
    );
    assert_eq!(
        gb10_identity().lifecycle_key(),
        "products={\"NVIDIA GB10\"};pci={};driver=fixture-driver"
    );
}

#[test]
fn smi_na_is_unsupported_not_zero() {
    let point = parse_smi_value("nvidia.gpu.clock.frequency", "MHz", "[N/A]");
    assert!(point.value.is_none());
    assert_eq!(point.quality, Quality::Unsupported);
}

#[test]
fn parses_gb10_named_query_fixture_without_inventing_memory_clock() {
    let points = parse_smi_csv("GPU-GB10-FIXTURE, 12, 0, 44, 11.5, 2405, [N/A]\n");
    assert_eq!(points.len(), 6);
    let memory_clock = points
        .iter()
        .find(|point| {
            point.name == "nvidia.gpu.clock.frequency"
                && point
                    .attributes
                    .at("clock.domain")
                    .is_some_and(|v| v == "memory")
        })
        .unwrap();
    assert!(memory_clock.value.is_none());
    assert_eq!(memory_clock.quality, Quality::Unsupported);
    assert!(points
        .iter()
        .all(|point| attribute(point, "gpu.id") == Some("GPU-GB10-FIXTURE")));
}

#[test]
fn smi_rows_keep_their_number() {
    let points = parse_smi_csv("broken\nGPU-1, 1, 2, 3, 4, 5, 6\n");
    assert_eq!(points.len(), 6);
    assert_eq!(attribute(&points[0], "gpu.index"), Some("1"));
    assert!(matches!(&points[3].value, Some(Value::Text(text)) if text == "4"));
}

#[test]
fn detects_only_gb10_inventory_identity() {
    assert!(is_gb10("NVIDIA GB10"));
    assert!(!is_gb10("NVIDIA H100 NVL"));
}

#[test]
fn gb10_is_found_as_a_word_in_any_case() {
    assert!(is_gb10("nvidia-gb10/x"));
    assert!(!is_gb10("NVIDIA GB100"));
}

#[test]
fn xid_events_are_counted_per_gpu() {
    let mut monitor = XidMonitor::new();
    let ready = |uuid: &str| XidMessage::Ready { uuid: uuid.to_owned() };
    let first = monitor.collect(&vec![
        ready("b"),
        ready("a"),
        XidMessage::Unsupported { uuid: "c".to_owned() },
        XidMessage::Event { uuid: "b".to_owned(), code: "79".to_owned() },
    ]);
    assert_eq!(first.len(), 3);
    assert!(matches!(first[0].value, Some(Value::Count(1))));
    assert_eq!(attribute(&first[0], "nvidia.xid.code"), Some("79"));
    assert_eq!(attribute(&first[1], "gpu.id"), Some("a"));
    assert!(matches!(first[1].value, Some(Value::Count(0))));
    assert_eq!(first[2].error_code.as_deref(), Some("NVML_XID_NOT_SUPPORTED"));
    let second = monitor.collect(&Vec::new());
    assert_eq!(second.len(), 3);
    assert_eq!(attribute(&second[1], "gpu.id"), Some("b"));
}

fn readings() -> DeviceReadings {
    DeviceReadings {
        index: 0,
        uuid: None,
        utilization: Reading::Number(12),
        memory_controller: Reading::Number(3),
        temperature: Reading::Number(44),
        power: Reading::Number(11_500),
        graphics_clock: Reading::Number(2405),
        memory_clock: Reading::Failed(NvmlFault {
            unsupported: true,
            name: "NotSupported".to_owned(),
        }),
        throttle: Reading::Failed(NvmlFault { unsupported: false, name: "Timeout".to_owned() }),
        performance_state: StateReading::State(PerformanceState::Eight),
        encoder: Reading::Number(0),
        decoder: Reading::NotQueried,
        processes: ProcessReading::Processes(vec![
            ProcessMemory { pid: 7, used: Some(1024) },
            ProcessMemory { pid: 8, used: None },
        ]),
    }
}

fn devices() -> NvmlState {
    NvmlState::Devices { devices: vec![readings()], messages: Vec::new() }
}

#[test]
fn nvml_readings_become_points() {
    let mut collector = NvidiaCollector::new(true, &ProfileSource::Unconfigured, gb10_identity())
        .ok()
        .unwrap();
    let points = collector.collect(&devices());
    assert_eq!(points.len(), 11);
    assert_eq!(attribute(&points[0], "gpu.id"), Some("index-0"));
    assert!(matches!(points[3].value, Some(Value::Ratio { part: 11_500, whole: 1000 })));
    assert_eq!(points[5].quality, Quality::Unsupported);
    assert_eq!(points[5].error_code.as_deref(), Some("NVML_NOTSUPPORTED"));
    assert_eq!(attribute(&points[5], "clock.domain"), Some("memory"));
    assert_eq!(points[6].quality, Quality::Error);
    assert_eq!(points[6].error_code.as_deref(), Some("NVML_TIMEOUT"));
    assert!(matches!(points[7].value, Some(Value::Level(8))));
    assert_eq!(attribute(&points[7], "nvidia.performance_state"), Some("Eight"));
    assert_eq!(attribute(&points[9], "process.pid"), Some("7"));
    assert_eq!(points[10].error_code.as_deref(), Some("NVML_MEMORY_UNAVAILABLE"));
    assert!(!collector.wants(Query::MemoryClock));
    assert!(collector.wants(Query::Throttle));
    let mut later = readings();
    later.memory_clock = Reading::NotQueried;
    let again = collector.collect(&NvmlState::Devices {
        devices: vec![later],
        messages: Vec::new(),
    });
    assert_eq!(again.len(), 11);
    assert_eq!(again[5].name, "nvidia.gpu.clock.frequency");
    assert!(again[5].value.is_none());
    assert_eq!(again[5].unit, "MHz");
    assert_eq!(again[5].quality, Quality::Unsupported);
    assert_eq!(again[5].source, "nvml");
    assert_eq!(again[5].error_code.as_deref(), Some("NVML_NOTSUPPORTED"));
    assert_eq!(attribute(&again[5], "clock.domain"), Some("memory"));
    assert_eq!(attribute(&again[5], "gpu.id"), Some("index-0"));
    assert_eq!(attribute(&again[5], "gpu.index"), Some("0"));
}

#[test]
fn unsupported_states_and_processes_stay_represented() {
    let mut collector = NvidiaCollector::new(true, &ProfileSource::Unconfigured, gb10_identity())
        .ok()
        .unwrap();
    let fault = || NvmlFault { unsupported: true, name: "NotSupported".to_owned() };
    let mut first = readings();
    first.performance_state = StateReading::Failed(fault());
    first.processes = ProcessReading::Failed(fault());
    let mut later = readings();
    later.performance_state = StateReading::NotQueried;
    later.processes = ProcessReading::NotQueried;
    for device in [first, later] {
        let points = collector.collect(&NvmlState::Devices {
            devices: vec![device],
            messages: Vec::new(),
        });
        for name in ["nvidia.gpu.performance_state", "nvidia.gpu.process.memory.allocation"] {
            let found: Vec<_> = points.iter().filter(|point| point.name == name).collect();
            assert_eq!(found.len(), 1);
            assert!(found[0].value.is_none());
            assert_eq!(found[0].quality, Quality::Unsupported);
            assert_eq!(found[0].error_code.as_deref(), Some("NVML_NOTSUPPORTED"));
        }
    }
    assert!(!collector.wants(Query::PerformanceState));
    assert!(!collector.wants(Query::Processes));
}

#[test]
fn disabled_properties_and_processes_are_left_out() {
    let mut collector = NvidiaCollector::new(false, &profile_directory(), gb10_identity())
        .ok()
        .unwrap();
    assert!(!collector.wants(Query::MemoryClock));
    assert!(!collector.wants(Query::Processes));
    assert!(collector.wants(Query::GraphicsClock));
    assert_eq!(collector.collect(&devices()).len(), 8);
    assert!(collector
        .reload_capabilities(&ProfileSource::Unreadable, gb10_identity())
        .is_err());
    assert!(!collector.wants(Query::MemoryClock));
    collector
        .reload_capabilities(&ProfileSource::Unconfigured, gb10_identity())
        .unwrap();
    assert!(collector.wants(Query::MemoryClock));
    let mut other = gb10_identity();
    other.driver_version = None;
    let _ = collector.collect(&devices());
    assert!(!collector.wants(Query::MemoryClock));
    collector.update_identity(other);
    assert!(collector.wants(Query::MemoryClock));
}

#[test]
fn hosts_without_nvml_fall_back() {
    let mut collector = NvidiaCollector::new(false, &ProfileSource::Unconfigured, gb10_identity())
        .ok()
        .unwrap();
    let mut code = |state: NvmlState| collector.collect(&state)[0].error_code.clone();
    assert_eq!(code(NvmlState::CountFailed).as_deref(), Some("NVML_DEVICE_COUNT_FAILED"));
    assert_eq!(
        code(NvmlState::Missing(SmiOutput::NotRun)).as_deref(),
        Some("NVML_AND_NVSMI_UNAVAILABLE")
    );
    assert_eq!(
        code(NvmlState::Missing(SmiOutput::Failed)).as_deref(),
        Some("NVSMI_QUERY_FAILED")
    );
    assert_eq!(
        code(NvmlState::Missing(SmiOutput::Written("g, 1, 2, 3, 4, 5, 6".to_owned()))),
        None
    );
}

#[test]
fn nvml_inventory_names_versions_and_gpus() {
    let collector = NvidiaCollector::new(false, &profile_directory(), gb10_identity())
        .ok()
        .unwrap();
    let found = collector.inventory(&NvmlInventory {
        driver: Some("580.1".to_owned()),
        cuda: Some(13_020),
        gpus: Some(GpuList {
            count: 1,
            gpus: vec![GpuIdentity {
                index: 0,
                name: Some("NVIDIA GB10".to_owned()),
                uuid: Some("GPU-1".to_owned()),
            }],
        }),
    });
    let get = |key: &str| found.at(key).map(String::as_str);
    assert_eq!(get("nvidia.driver.version"), Some("580.1"));
    assert_eq!(get("nvidia.cuda.driver_compatibility"), Some("13.2"));
    assert_eq!(get("nvidia.gpu.count"), Some("1"));
    assert_eq!(get("nvidia.gpu.0.name"), Some("NVIDIA GB10"));
    assert_eq!(get("nvidia.gpu.0.uuid"), Some("GPU-1"));
    assert_eq!(get("spark.memory.architecture"), Some("unified"));
    assert_eq!(get("spark.memory.bandwidth.capability_gbps"), Some("273"));
    assert_eq!(get("spark.capability.0.state"), Some("disabled"));
}

#[test]
fn negative_cuda_versions_round_towards_zero() {
    let collector = NvidiaCollector::new(false, &ProfileSource::Unconfigured, gb10_identity())
        .ok()
        .unwrap();
    let found = collector.inventory(&NvmlInventory { driver: None, cuda: Some(-1990), gpus: None });
    assert_eq!(
        found.at("nvidia.cuda.driver_compatibility").map(String::as_str),
        Some("-1.-99")
    );
}

#[test]
fn unknown_performance_states_are_below_zero() {
    assert_eq!(performance_state_value(PerformanceState::Zero), 0);
    assert_eq!(performance_state_value(PerformanceState::Fifteen), 15);
    assert_eq!(performance_state_value(PerformanceState::Unknown), -1);
}

#[test]
fn gpu_points_stay_within_the_catalogue() {
    let mut collector = NvidiaCollector::new(true, &ProfileSource::Unconfigured, gb10_identity())
        .ok()
        .unwrap();
    for point in collector.collect(&devices()) {
        assert!(metric_name_allowed(&point.name));
        for index in 0..point.attributes.len() {
            assert!(attribute_name_allowed(point.attributes.key_at(index)));
        }
        assert_eq!(point.value.is_some(), point.error_code.is_none());
    }
}

#[test]
fn enabled_properties_are_queried_again() {
    let source = ProfileSource::Files(vec![file(
        "gb10.toml",
        memory_profile("gb10", CapabilityPolicy::Enabled),
    )]);
    let mut runtime = CapabilityRuntime::load(&source, gb10_identity()).ok().unwrap();
    runtime.observe_definitive_unsupported(&memory_clock_key());
    assert!(runtime.should_query(&memory_clock_key()));
    assert_eq!(runtime.inventory_attributes().len(), 0);
}

#[test]
fn profiles_for_other_hardware_do_not_compete() {
    let other = |id: &str| {
        profile(
            id,
            Some("NVIDIA H100"),
            None,
            vec![capability(("clock.domain", "memory"), CapabilityPolicy::Disabled)],
        )
    };
    let files = vec![
        file("a.toml", other("a")),
        file("b.toml", other("b")),
        file("c.toml", memory_profile("c", CapabilityPolicy::Enabled)),
    ];
    let resolved = load_directory(&files, &gb10_identity()).ok().unwrap();
    assert_eq!(
        resolved.rule(&memory_clock_key()).map(|rule| rule.policy),
        Some(CapabilityPolicy::Enabled)
    );
    assert!(resolved.rule(&graphics_clock_key()).is_none());
}
