use spark_signals::linux::inventory::{
    inventory, Disk, InventoryFiles, NetworkDevice, SensorChipFiles, SensorFile, ThermalZone,
};
use spark_signals::linux::kernel::{
    allocatable_with_swap, collect_cpu_sysfs, collect_memory, collect_pressure, reclaim_fits,
    CpuEntry, PressureFile,
};
use spark_signals::linux::network::InterfaceFiles;
use spark_signals::linux::parse::{
    cpu_total_fits, first_number, page_size, parse_block, parse_cpu_times, parse_key_values,
    parse_meminfo, parse_network, parse_pressure, StatError,
};
use spark_signals::linux::storage::{
    decode_mount_field, mounts, parse_mountinfo, BlockEntry, FilesystemStatistics,
};
use spark_signals::linux::system::{CoreFiles, NetworkFiles, StorageFiles, SystemCollector};
use spark_signals::linux::thermal::{collect_temperatures, ChannelFile, SensorChip};
use spark_signals::schema::{InstrumentKind, MetricPoint, Quality, Value};
use spark_signals::table::Table;

fn some(text: &str) -> Option<String> {
    Some(text.to_owned())
}

fn core_files() -> CoreFiles {
    CoreFiles {
        stat: None,
        loadavg: None,
        cpus: Vec::new(),
        uptime: None,
        meminfo: None,
        cpu_pressure: PressureFile::NotFound,
        memory_pressure: PressureFile::NotFound,
        io_pressure: PressureFile::NotFound,
        vmstat: None,
        page_size: 4096,
        chips: Vec::new(),
    }
}

fn find<'a>(points: &'a [MetricPoint<Value>], name: &str) -> Vec<&'a MetricPoint<Value>> {
    points.iter().filter(|point| point.name == name).collect()
}

fn attribute<'a>(point: &'a MetricPoint<Value>, key: &str) -> Option<&'a str> {
    point.attributes.at(key).map(String::as_str)
}

#[test]
fn parses_cpu_counters() {
    let times =
        parse_cpu_times("cpu  10 2 3 80 5 0 0 0\nctxt 42\nprocs_running 3\nprocs_blocked 1\n")
            .unwrap();
    assert_eq!(times.total, 100);
    assert_eq!(times.idle, 85);
    assert_eq!(times.context_switches, Some(42));
}

#[test]
fn cpu_rows_without_counters_are_refused() {
    assert_eq!(parse_cpu_times("cpu0 1 2 3 4\n"), Err(StatError::RowMissing));
    assert_eq!(parse_cpu_times("cpu 1 x 3 4\n"), Err(StatError::NotANumber));
    assert_eq!(parse_cpu_times("cpu 1 2 3\n"), Err(StatError::RowTooShort));
    let times = parse_cpu_times("cpu 1 2 3 4\nctxt x\nctxt 7\n").unwrap();
    assert_eq!(times.total, 10);
    assert_eq!(times.idle, 4);
    assert_eq!(times.context_switches, Some(7));
    assert_eq!(times.blocked, None);
}

#[test]
fn cpu_totals_out_of_range_are_noticed() {
    assert!(cpu_total_fits("cpu 1 2 3 4\n"));
    assert!(cpu_total_fits("nothing"));
    assert!(!cpu_total_fits("cpu 18446744073709551615 1 0 0\n"));
}

#[test]
fn parses_meminfo_units_and_counts() {
    let values = parse_meminfo("MemTotal: 100 kB\nHugePages_Total: 4\nHugepagesize: 2048 kB\n");
    assert_eq!(*values.at("MemTotal").unwrap(), 102_400);
    assert_eq!(*values.at("HugePages_Total").unwrap(), 4);
    assert_eq!(*values.at("Hugepagesize").unwrap(), 2_097_152);
}

#[test]
fn parses_psi_average() {
    let values = parse_pressure(
        "some avg10=0.25 avg60=0.10 avg300=0.01 total=12\nfull avg10=0.02 avg60=0.01 avg300=0.00 total=2\n",
    );
    let some: f64 = values.at("some").unwrap().parse().unwrap();
    let full: f64 = values.at("full").unwrap().parse().unwrap();
    assert!((some - 0.25).abs() < f64::EPSILON);
    assert!((full - 0.02).abs() < f64::EPSILON);
}

#[test]
fn parses_network_counters() {
    let values = parse_network(
        "Inter-| Receive | Transmit\n face |bytes packets errs drop fifo frame compressed multicast|bytes packets errs drop fifo colls carrier compressed\n eth0: 10 2 1 3 0 0 0 0 20 4 2 5 0 0 0 0\n",
    );
    assert_eq!(values.at("eth0").unwrap().rx_bytes, 10);
    assert_eq!(values.at("eth0").unwrap().tx_dropped, 5);
}

#[test]
fn explicit_hugepages_replace_swap_in_allocatable_capacity() {
    let values = parse_meminfo(
        "MemAvailable: 100 kB\nSwapFree: 1000 kB\nHugePages_Total: 4\nHugePages_Free: 2\nHugepagesize: 2048 kB\n",
    );
    assert_eq!(
        allocatable_with_swap(&values),
        Some(100 * 1024 + 2 * 2048 * 1024)
    );
}

#[test]
fn swap_counts_without_hugepages() {
    let values = parse_meminfo("MemAvailable: 100 kB\nSwapFree: 1000 kB\n");
    assert_eq!(allocatable_with_swap(&values), Some(1100 * 1024));
    assert_eq!(allocatable_with_swap(&parse_meminfo("SwapFree: 1 kB\n")), None);
}

#[test]
fn parses_physical_mounts_and_decodes_spaces() {
    let mounts = parse_mountinfo(
        "36 25 259:2 / / rw - ext4 /dev/nvme0n1p2 rw\n37 25 0:4 / /proc rw - proc proc rw\n38 25 8:1 / /media/My\\040Disk rw - xfs /dev/sda1 rw\n39 25 7:1 / /snap/tool/1 ro - squashfs /dev/loop1 ro\n",
    );
    assert_eq!(mounts.len(), 2);
    assert!(mounts.iter().any(|mount| mount.0 == "/media/My Disk"));
}

#[test]
fn mount_fields_decode_all_escapes() {
    assert_eq!(decode_mount_field("a\\011b\\012c\\134d"), "a\tb\nc\\d");
    let root = mounts(&None);
    assert_eq!(root.len(), 1);
    assert_eq!(root[0], ("/".to_owned(), "unknown".to_owned(), "unknown".to_owned()));
}

#[test]
fn network_filesystems_without_a_device_matter() {
    let mounts = parse_mountinfo("1 2 0:5 / /data rw - nfs4 host:/data rw\n1 2 0:6 / /tmp rw - tmpfs tmpfs rw\n");
    assert_eq!(mounts.len(), 1);
    assert_eq!(mounts[0].0, "/data");
    assert_eq!(mounts[0].2, "host:/data");
}

#[test]
fn parses_block_counters() {
    let counters = parse_block(" 1 2 3 4 5 6 7 8 9 10 11\n").unwrap();
    assert_eq!(counters.reads, 1);
    assert_eq!(counters.sectors_read, 3);
    assert_eq!(counters.queue_ms, 11);
    assert!(parse_block("1 2 3").is_none());
    assert!(parse_block("1 2 3 4 5 6 7 8 9 10 x").is_none());
}

#[test]
fn single_numbers_are_read() {
    assert_eq!(first_number(&some("0.52 0.58 0.59 1/467 1\n")).as_deref(), Some("0.52"));
    assert_eq!(first_number(&some("up 3\n")), None);
    assert_eq!(first_number(&None), None);
    assert_eq!(page_size(Some(65536)), 65536);
    assert_eq!(page_size(Some(-1)), 4096);
    assert_eq!(page_size(None), 4096);
    assert_eq!(*parse_key_values("pswpin 5\nbad\n").at("pswpin").unwrap(), 5);
}

#[test]
fn cpu_points_compare_two_collections() {
    let mut collector = SystemCollector::default();
    let mut files = core_files();
    files.stat = some("cpu 10 0 0 90\nctxt 100\nprocs_running 3\nprocs_blocked 1\n");
    let first = collector.collect_core(&files);
    let utilization = find(&first, "system.cpu.utilization")[0];
    assert!(utilization.value.is_none());
    assert_eq!(utilization.quality, Quality::Stale);
    assert_eq!(utilization.error_code.as_deref(), Some("BASELINE_INITIALIZING"));
    files.stat = some("cpu 30 0 0 170\nctxt 142\nprocs_running 2\nprocs_blocked 0\n");
    let second = collector.collect_core(&files);
    let utilization = find(&second, "system.cpu.utilization")[0];
    assert!(matches!(utilization.value, Some(Value::Ratio { part: 20, whole: 100 })));
    assert_eq!(utilization.quality, Quality::Derived);
    let switches = find(&second, "system.cpu.context_switches")[0];
    assert!(matches!(switches.value, Some(Value::Count(42))));
    assert_eq!(switches.instrument, InstrumentKind::CounterDelta);
    let third = collector.collect_core(&files);
    let utilization = find(&third, "system.cpu.utilization")[0];
    assert_eq!(utilization.error_code.as_deref(), Some("ZERO_INTERVAL"));
    files.stat = None;
    let failed = collector.collect_core(&files);
    assert_eq!(
        find(&failed, "system.cpu.utilization")[0].error_code.as_deref(),
        Some("PROC_STAT_READ_FAILED")
    );
}

#[test]
fn cpu_directories_give_one_point_per_processor() {
    let entry = |name: &str, online: Option<&str>, bits: Option<u64>| CpuEntry {
        name: name.to_owned(),
        online: online.map(str::to_owned),
        frequency: bits,
    };
    let mut points = Vec::new();
    collect_cpu_sysfs(
        &vec![
            entry("cpu0", None, Some(7)),
            entry("cpu12", Some("0\n"), Some(7)),
            entry("cpufreq", None, None),
            entry("cpu", None, None),
        ],
        &mut points,
    );
    assert_eq!(points.len(), 3);
    assert_eq!(attribute(&points[0], "cpu.logical_number"), Some("0"));
    assert!(matches!(points[1].value, Some(Value::Times { bits: 7, factor: 1000 })));
    assert_eq!(attribute(&points[2], "cpu.logical_number"), Some("12"));
    assert!(matches!(points[2].value, Some(Value::Count(0))));
}

#[test]
fn memory_points_name_missing_fields() {
    let mut points = Vec::new();
    collect_memory(
        &some("MemTotal: 8 kB\nMemAvailable: 4 kB\nHugePages_Total: 2\nHugepagesize: 2048 kB\n"),
        &mut points,
    );
    assert_eq!(points.len(), 18);
    assert!(matches!(points[0].value, Some(Value::Count(8192))));
    assert_eq!(points[2].name, "system.memory.linux.free");
    assert_eq!(points[2].quality, Quality::Error);
    let total = find(&points, "system.memory.hugepages.total")[0];
    assert!(matches!(total.value, Some(Value::Count(4_194_304))));
    let free = find(&points, "system.memory.hugepages.free")[0];
    assert_eq!(free.quality, Quality::Unsupported);
    assert_eq!(free.error_code.as_deref(), Some("MEMINFO_FIELD_MISSING"));
}

#[test]
fn pressure_distinguishes_missing_and_unreadable_files() {
    let mut points = Vec::new();
    collect_pressure("memory", &PressureFile::Content("some avg10=1.5\n".to_owned()), &mut points);
    collect_pressure("cpu", &PressureFile::NotFound, &mut points);
    collect_pressure("io", &PressureFile::Unreadable, &mut points);
    collect_pressure("other", &PressureFile::NotFound, &mut points);
    assert_eq!(points.len(), 5);
    assert!(matches!(&points[0].value, Some(Value::Text(text)) if text == "1.5"));
    assert_eq!(points[1].error_code.as_deref(), Some("PSI_FIELD_MISSING"));
    assert_eq!(points[2].quality, Quality::Unsupported);
    assert_eq!(points[3].quality, Quality::Error);
    assert_eq!(points[4].error_code.as_deref(), Some("PSI_READ_FAILED"));
}

#[test]
fn paging_counters_become_bytes() {
    let mut collector = SystemCollector::default();
    let mut files = core_files();
    files.vmstat = some("pgmajfault 3\npswpin 10\npswpout 4\npgscan_kswapd 5\npgscan_direct 6\n");
    assert!(reclaim_fits(&files.vmstat));
    let _ = collector.collect_core(&files);
    files.vmstat = some("pgmajfault 5\npswpin 12\npswpout 4\npgscan_kswapd 6\npgscan_direct 6\n");
    let points = collector.collect_core(&files);
    let paging = find(&points, "system.memory.paging");
    assert_eq!(paging.len(), 2);
    assert!(matches!(paging[0].value, Some(Value::Count(8192))));
    assert_eq!(attribute(paging[0], "direction"), Some("in"));
    assert_eq!(attribute(paging[1], "direction"), Some("out"));
    let reclaim = find(&points, "system.memory.reclaim")[0];
    assert!(matches!(reclaim.value, Some(Value::Count(4096))));
    let kills = find(&points, "system.memory.oom_kills")[0];
    assert_eq!(kills.error_code.as_deref(), Some("VMSTAT_FIELD_MISSING"));
    assert!(!reclaim_fits(&some("pgscan_kswapd 18446744073709551615\npgscan_direct 1\n")));
}

#[test]
fn network_points_cover_hardware_interfaces_only() {
    let heading = "a\nb\n";
    let row = |name: &str, bytes: u64| {
        format!("{name}: {bytes} 2 1 3 0 0 0 0 20 4 2 5 0 0 0 0\n")
    };
    let mut interfaces = Table::new();
    let files = |speed: Option<u64>| InterfaceFiles {
        carrier_changes: Some("3\n".to_owned()),
        device: true,
        operstate: Some("up\n".to_owned()),
        speed,
    };
    interfaces.insert("eth0".to_owned(), files(Some(1000.0_f64.to_bits())));
    interfaces.insert("lo".to_owned(), files(None));
    let mut network = NetworkFiles {
        counters: Some(format!("{heading}{}{}{}", row("lo", 1), row("eth0", 10), row("veth", 1))),
        interfaces,
    };
    let mut collector = SystemCollector::default();
    let first = collector.collect_network_points(&network);
    assert_eq!(first.len(), 11);
    assert!(first[0].value.is_none());
    network.counters = Some(format!("{heading}{}", row("eth0", 25)));
    let second = collector.collect_network_points(&network);
    assert!(matches!(second[0].value, Some(Value::Count(15))));
    assert_eq!(attribute(&second[0], "network.io.direction"), Some("receive"));
    assert_eq!(second[7].name, "system.network.carrier_changes");
    assert!(matches!(second[7].value, Some(Value::Count(0))));
    let speed = find(&second, "system.network.link.speed")[0];
    assert!(matches!(speed.value, Some(Value::Times { factor: 1_000_000, .. })));
    assert_eq!(speed.source, "sysfs");
    network.interfaces.insert("eth0".to_owned(), files(Some((-1.0_f64).to_bits())));
    assert_eq!(collector.collect_network_points(&network).len(), 10);
}

#[test]
fn storage_points_cover_devices_and_mounts() {
    let entry = |name: &str, sectors: u64| BlockEntry {
        name: name.to_owned(),
        stat: Some(format!("1 0 {sectors} 4 5 0 7 8 0 10 11")),
    };
    let mut statistics = Table::new();
    statistics.insert(
        "/".to_owned(),
        FilesystemStatistics {
            fragment_size: 4096,
            blocks: 10,
            blocks_available: 3,
            blocks_free: 4,
            files: 100,
            files_free: 60,
            read_only: true,
        },
    );
    let mut storage = StorageFiles {
        devices: Some(vec![entry("loop0", 1), entry("nvme0n1", 2)]),
        mountinfo: None,
        statistics,
    };
    let mut collector = SystemCollector::default();
    let first = collector.collect_storage(&storage);
    assert_eq!(first.len(), 15);
    assert!(first[0].value.is_none());
    storage.devices = Some(vec![entry("nvme0n1", 5)]);
    let second = collector.collect_storage(&storage);
    assert!(matches!(second[0].value, Some(Value::Count(1536))));
    assert_eq!(attribute(&second[0], "device"), Some("nvme0n1"));
    assert!(matches!(second[8].value, Some(Value::Count(40960))));
    let usage = find(&second, "system.filesystem.usage");
    assert!(matches!(usage[0].value, Some(Value::Count(24576))));
    assert_eq!(usage[0].quality, Quality::Derived);
    assert!(matches!(usage[1].value, Some(Value::Count(12288))));
    let inodes = find(&second, "system.filesystem.inodes");
    assert!(matches!(inodes[1].value, Some(Value::Count(40))));
    assert_eq!(attribute(inodes[1], "state"), Some("used"));
    let read_only = find(&second, "system.filesystem.read_only")[0];
    assert!(matches!(read_only.value, Some(Value::Count(1))));
    storage.devices = None;
    assert_eq!(collector.collect_storage(&storage).len(), 7);
}

#[test]
fn temperatures_end_with_their_maximum() {
    let channel = |filename: &str, milli: f64| ChannelFile {
        filename: filename.to_owned(),
        milli: Some(milli.to_bits()),
        label: None,
        max: Some("90".to_owned()),
        crit: None,
    };
    let chips = vec![
        SensorChip {
            directory: "hwmon0".to_owned(),
            name: Some("nvme\n".to_owned()),
            files: vec![channel("temp1_input", 41_000.0), channel("temp1_max", 1.0)],
        },
        SensorChip {
            directory: "hwmon1".to_owned(),
            name: None,
            files: vec![channel("temp3_input", 55_000.0)],
        },
    ];
    let mut points = Vec::new();
    collect_temperatures(&chips, &mut points);
    assert_eq!(points.len(), 3);
    assert_eq!(attribute(&points[0], "sensor"), Some("nvme"));
    assert_eq!(attribute(&points[0], "channel"), Some("temp1"));
    assert_eq!(attribute(&points[0], "temperature.limit.max_celsius"), Some("90"));
    assert_eq!(attribute(&points[1], "sensor"), Some("hwmon1"));
    assert!(
        matches!(points[2].value, Some(Value::Per { bits, divisor: 1000 }) if bits == 55_000.0_f64.to_bits())
    );
    assert_eq!(attribute(&points[2], "aggregation"), Some("maximum"));
    assert_eq!(points[2].quality, Quality::Derived);
    let mut none = Vec::new();
    collect_temperatures(&Vec::new(), &mut none);
    assert!(none.is_empty());
}

#[test]
fn collecting_everything_joins_the_parts() {
    let mut collector = SystemCollector::default();
    let network = NetworkFiles { counters: None, interfaces: Table::new() };
    let storage = StorageFiles { devices: None, mountinfo: some(""), statistics: Table::new() };
    let points = collector.collect(&core_files(), &network, &storage);
    assert_eq!(points.len(), 2 + 1 + 1 + 5 + 3);
    assert!(points.iter().all(|point| point.value.is_none() == point.error_code.is_some()));
}

#[test]
fn inventory_names_hardware() {
    let files = InventoryFiles {
        chips: vec![SensorChipFiles {
            id: "hwmon0".to_owned(),
            name: some("nvme\n"),
            files: vec![
                SensorFile {
                    filename: "temp1_label".to_owned(),
                    content: some("Composite\n"),
                    celsius: None,
                },
                SensorFile {
                    filename: "temp1_crit".to_owned(),
                    content: some("84850\n"),
                    celsius: some("84.85"),
                },
                SensorFile {
                    filename: "temp1_input".to_owned(),
                    content: some("41000\n"),
                    celsius: some("41"),
                },
            ],
        }],
        zones: vec![
            ThermalZone { id: "thermal_zone0".to_owned(), kind: some("acpitz\n") },
            ThermalZone { id: "cooling_device0".to_owned(), kind: some("fan\n") },
        ],
        disks: vec![
            Disk { id: "loop0".to_owned(), model: some("x"), firmware: None, size: some("1") },
            Disk { id: "sda".to_owned(), model: some("M \n"), firmware: None, size: some("10\n") },
        ],
        network: vec![NetworkDevice {
            id: "eth0".to_owned(),
            device: true,
            driver: some("mlx5"),
        }],
        meminfo: some("MemTotal: 2 kB\n"),
        dgx_release: some("  \n"),
        os_release: some("NAME=x\nPRETTY_NAME=\"Spark OS\"\n"),
        cpu_online: some("0-19\n"),
    };
    let found = inventory(&files);
    let get = |key: &str| found.at(key).map(String::as_str);
    assert_eq!(get("linux.hwmon.hwmon0.name"), Some("nvme"));
    assert_eq!(get("linux.hwmon.hwmon0.temp1.label"), Some("Composite"));
    assert_eq!(get("linux.hwmon.hwmon0.temp1.crit"), Some("84.85"));
    assert_eq!(get("linux.hwmon.hwmon0.temp1.input"), None);
    assert_eq!(get("linux.thermal.thermal_zone0.type"), Some("acpitz"));
    assert_eq!(get("host.disk.sda.model"), Some("M"));
    assert_eq!(get("host.disk.sda.capacity_bytes"), Some("5120"));
    assert_eq!(get("host.disk.loop0.model"), None);
    assert_eq!(get("host.network.eth0.driver"), Some("mlx5"));
    assert_eq!(get("host.memory.total_bytes"), Some("2048"));
    assert_eq!(get("host.os.release"), None);
    assert_eq!(get("host.os.pretty_name"), Some("Spark OS"));
    assert_eq!(get("host.cpu.online"), Some("0-19"));
    assert_eq!(found.len(), 11);
}

#[test]
fn missing_stat_rows_give_no_numbers() {
    let mut collector = SystemCollector::default();
    let mut files = core_files();
    files.stat = some("cpu 10 0 0 90\nprocs_running x\n");
    let first = collector.collect_core(&files);
    for name in [
        "system.cpu.tasks.runnable",
        "system.cpu.tasks.blocked",
        "system.cpu.context_switches",
    ] {
        let point = find(&first, name)[0];
        assert!(point.value.is_none());
        assert_eq!(point.quality, Quality::Error);
        assert_eq!(point.error_code.as_deref(), Some("PROC_STAT_FIELD_MISSING"));
    }
    files.stat = some("cpu 20 0 0 180\nctxt 7\nprocs_running 0\n");
    let second = collector.collect_core(&files);
    let switches = find(&second, "system.cpu.context_switches")[0];
    assert_eq!(switches.error_code.as_deref(), Some("BASELINE_INITIALIZING"));
    let runnable = find(&second, "system.cpu.tasks.runnable")[0];
    assert!(matches!(runnable.value, Some(Value::Count(0))));
    files.stat = some("cpu 30 0 0 270\nctxt 9\n");
    let third = collector.collect_core(&files);
    let switches = find(&third, "system.cpu.context_switches")[0];
    assert!(matches!(switches.value, Some(Value::Count(2))));
}

#[test]
fn reclaim_without_rows_gives_no_number() {
    let mut collector = SystemCollector::default();
    let mut files = core_files();
    files.vmstat = some("pgmajfault 3\nspark_reclaim_pages 9\n");
    assert!(reclaim_fits(&files.vmstat));
    for _ in 0..2 {
        let points = collector.collect_core(&files);
        let reclaim = find(&points, "system.memory.reclaim")[0];
        assert!(reclaim.value.is_none());
        assert_eq!(reclaim.quality, Quality::Unsupported);
        assert_eq!(reclaim.error_code.as_deref(), Some("VMSTAT_FIELD_MISSING"));
    }
    files.vmstat = some("pgscan_direct 6\n");
    let points = collector.collect_core(&files);
    let reclaim = find(&points, "system.memory.reclaim")[0];
    assert_eq!(reclaim.error_code.as_deref(), Some("BASELINE_INITIALIZING"));
    files.vmstat = some("pgscan_direct 8\n");
    let points = collector.collect_core(&files);
    let reclaim = find(&points, "system.memory.reclaim")[0];
    assert!(matches!(reclaim.value, Some(Value::Count(8192))));
}

#[test]
fn unread_vmstat_gives_no_number() {
    let points = SystemCollector::default().collect_core(&core_files());
    let faults = find(&points, "system.memory.page_faults.major")[0];
    assert_eq!(faults.error_code.as_deref(), Some("PROC_VMSTAT_READ_FAILED"));
    assert!(find(&points, "system.memory.reclaim").is_empty());
    assert!(points.iter().all(|point| point.value.is_none()));
}

#[test]
fn huge_pages_need_their_size_and_swap_its_field() {
    let mut points = Vec::new();
    collect_memory(&some("MemAvailable: 4 kB\nHugePages_Total: 2\nHugePages_Free: 1\n"), &mut points);
    let total = find(&points, "system.memory.hugepages.total")[0];
    assert!(total.value.is_none());
    assert_eq!(total.quality, Quality::Unsupported);
    let allocatable = find(&points, "spark.uma.allocatable_with_swap")[0];
    assert!(allocatable.value.is_none());
    assert_eq!(allocatable.error_code.as_deref(), Some("MEMINFO_FIELD_MISSING"));
    let without = find(&points, "spark.uma.allocatable_without_swap")[0];
    assert!(matches!(without.value, Some(Value::Count(4096))));
    assert_eq!(allocatable_with_swap(&parse_meminfo("MemAvailable: 4 kB\n")), None);
    assert_eq!(
        allocatable_with_swap(&parse_meminfo(
            "MemAvailable: 4 kB\nHugePages_Total: 0\nSwapFree: 0 kB\n"
        )),
        Some(4096)
    );
}

#[test]
fn unread_interface_files_give_no_numbers() {
    let mut interfaces = Table::new();
    let files = |carrier_changes: Option<&str>, operstate: Option<&str>| InterfaceFiles {
        carrier_changes: carrier_changes.map(str::to_owned),
        device: true,
        operstate: operstate.map(str::to_owned),
        speed: None,
    };
    interfaces.insert("eth0".to_owned(), files(Some("many\n"), None));
    let mut network = NetworkFiles {
        counters: some("a\nb\neth0: 1 2 1 3 0 0 0 0 20 4 2 5 0 0 0 0\n"),
        interfaces,
    };
    let mut collector = SystemCollector::default();
    for _ in 0..2 {
        let points = collector.collect_network_points(&network);
        let carrier = find(&points, "system.network.carrier_changes")[0];
        assert!(carrier.value.is_none());
        assert_eq!(carrier.error_code.as_deref(), Some("CARRIER_CHANGES_READ_FAILED"));
        assert_eq!(attribute(carrier, "network.interface.name"), Some("eth0"));
        let link = find(&points, "system.network.link.up")[0];
        assert!(link.value.is_none());
        assert_eq!(link.quality, Quality::Error);
        assert_eq!(link.error_code.as_deref(), Some("OPERSTATE_READ_FAILED"));
    }
    network.interfaces.insert("eth0".to_owned(), files(Some("3\n"), Some("down\n")));
    let points = collector.collect_network_points(&network);
    let carrier = find(&points, "system.network.carrier_changes")[0];
    assert_eq!(carrier.error_code.as_deref(), Some("BASELINE_INITIALIZING"));
    let link = find(&points, "system.network.link.up")[0];
    assert!(matches!(link.value, Some(Value::Count(0))));
    network.interfaces.insert("eth0".to_owned(), files(Some("5\n"), Some("up\n")));
    let points = collector.collect_network_points(&network);
    let carrier = find(&points, "system.network.carrier_changes")[0];
    assert!(matches!(carrier.value, Some(Value::Count(2))));
}
