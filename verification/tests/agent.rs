use spark_signals::agent::envelope::{agent_points, saturate, Clock, CollectorAges, EnvelopeFactory};
use spark_signals::agent::events::{
    detect_system_events, error_count, limit_texts, service_events, xid_events, Reported,
};
use spark_signals::agent::inventory::{host_inventory, same_inventory, HostFiles};
use spark_signals::agent::naming::{
    sanitize_component, stable_jitter, subject, valid_subject_component,
};
use spark_signals::agent::publish::{
    publish_latest, publish_state, Publication, Publisher, PublisherAction, PublisherEvent,
};
use spark_signals::agent::schedule::{next_tick, Batch, Cadence};
use spark_signals::linux::inventory::InventoryFiles;
use spark_signals::schema::{MetricPoint, Node, Quality, Severity, Signal, Value};
use spark_signals::table::Table;

fn gauge(name: &str, value: f64) -> MetricPoint<u64> {
    MetricPoint::gauge(name, value.to_bits(), "1", Quality::Measured, "procfs")
}

fn summary(signals: &[Signal]) -> Vec<(Severity, String)> {
    signals
        .iter()
        .map(|signal| match signal {
            Signal::HealthEvent { severity, code, .. } => (*severity, code.clone()),
            _ => panic!("not a health event"),
        })
        .collect()
}

fn raised(severity: Severity, code: &str) -> Vec<(Severity, String)> {
    vec![(severity, code.to_owned())]
}

#[test]
fn validates_subject_components() {
    assert!(valid_subject_component("spark-885a").is_ok());
    assert!(valid_subject_component("home.wildcard").is_err());
    assert!(valid_subject_component(">").is_err());
}

#[test]
fn sampling_jitter_is_stable_and_bounded() {
    let interval: u128 = 2000;
    assert_eq!(
        stable_jitter("spark-885a", interval),
        stable_jitter("spark-885a", interval)
    );
    assert!(stable_jitter("spark-885a", interval) < 500);
}

#[test]
fn jitter_depends_on_the_node() {
    assert_eq!(stable_jitter("", 2000), 103);
    assert_eq!(
        stable_jitter("a", 2000),
        1_469_598_103_934_665_603_u64
            .wrapping_mul(1_099_511_628_211)
            .wrapping_add(97)
            % 500
    );
    assert_eq!(stable_jitter("a", 0), 0);
    assert!(stable_jitter("a", 400) < 100);
    assert!(stable_jitter("a", u128::MAX) < 500);
}

#[test]
fn host_names_become_components() {
    assert_eq!(sanitize_component("spark.local host"), "spark-local-host");
    assert_eq!(sanitize_component("\u{e9}"), "-");
    assert_eq!(sanitize_component(""), "unknown");
    assert!(valid_subject_component(&sanitize_component("a b.c>")).is_ok());
    assert_eq!(valid_subject_component(""), Err("must contain only ASCII letters, digits, '_' or '-'".to_owned()));
    assert_eq!(subject("home", "spark-1", Batch::System.suffix()), "spark.v1.home.spark-1.sample.system");
}

#[test]
fn samples_are_due_at_their_ticks() {
    let cadence = Cadence { interval: 2, medium: 5, slow: 30 };
    assert!(cadence.ordered());
    let due: Vec<u64> = (1..=10).filter(|tick| cadence.medium_due(*tick)).collect();
    assert_eq!(due, [1, 3, 6, 9]);
    let slow: Vec<u64> = (1..=30).filter(|tick| cadence.slow_due(*tick)).collect();
    assert_eq!(slow, [15, 30]);
    assert!(!Cadence { interval: 6, medium: 5, slow: 30 }.ordered());
    assert_eq!(next_tick(1), 2);
    assert_eq!(next_tick(u64::MAX), u64::MAX);
    assert_eq!(Batch::Storage.valid_for_ms(&cadence), 15_000);
    assert_eq!(Batch::Nvidia.valid_for_ms(&cadence), 6_000);
    assert_eq!(Batch::Status.valid_for_ms(&cadence), 10_000);
}

#[test]
fn envelopes_are_numbered_and_dated() {
    let mut factory = EnvelopeFactory {
        node: Node {
            site: "home".to_owned(),
            id: "spark-1".to_owned(),
            host_name: "spark-1".to_owned(),
        },
        boot_id: "boot".to_owned(),
        sequence: 0,
    };
    let clock = Clock { unix_millis: 1_784_592_000_123, elapsed_ns: 5 };
    let status = || Signal::AgentStatus { online: true, version: "1".to_owned() };
    let first = factory.build(status(), 7, 10_000, &clock);
    assert_eq!(first.schema, "spark.signal/v1");
    assert_eq!(first.sequence, 1);
    assert_eq!(first.observed_at, "2026-07-21T00:00:00.123Z");
    assert_eq!(first.monotonic_ns, 5);
    assert_eq!(first.collection_duration_ms, 7);
    assert_eq!(first.valid_for_ms, 10_000);
    let second = factory.build(status(), u128::MAX, 1, &clock);
    assert_eq!(second.sequence, 2);
    assert_eq!(second.collection_duration_ms, u64::MAX);
    assert_eq!(saturate(3), 3);
}

#[test]
fn ages_count_from_the_last_value() {
    let mut ages = CollectorAges::new(100);
    let failing: MetricPoint<u64> = MetricPoint::unavailable(
        "system.cpu.utilization",
        "1",
        Quality::Error,
        "procfs",
        "PROC_STAT_READ_FAILED",
    );
    let point = ages.observe("system", &vec![failing], 350);
    assert!(matches!(point.value, Some(Value::Seconds(250))));
    let point = ages.observe("system", &vec![gauge("system.cpu.utilization", 0.5)], 400);
    assert!(matches!(point.value, Some(Value::Seconds(0))));
    let point = ages.observe("system", &Vec::new(), 460);
    assert!(matches!(point.value, Some(Value::Seconds(60))));
    assert_eq!(
        point.attributes.at("collector.domain").map(String::as_str),
        Some("system")
    );
}

#[test]
fn the_agent_reports_itself() {
    let points = agent_points(1_500, 2, 3, 4);
    assert_eq!(points.len(), 4);
    assert!(matches!(points[0].value, Some(Value::Seconds(1_500))));
    assert!(matches!(points[1].value, Some(Value::Count(2))));
    assert!(matches!(points[2].value, Some(Value::Count(3))));
    assert!(matches!(points[3].value, Some(Value::Count(4))));
}

#[test]
fn carriers_and_filesystems_raise_events_on_change() {
    let mut states = Table::new();
    let numbers = Table::new();
    let mut raised_by = |point| summary(&detect_system_events(&vec![point], &numbers, &mut states));
    let link = |up| gauge("system.network.link.up", up).with_attribute("network.interface.name", "eth0");
    assert!(raised_by(link(1.0)).is_empty());
    assert_eq!(raised_by(link(0.0)), raised(Severity::Warning, "NETWORK_CARRIER_LOST"));
    assert!(raised_by(link(0.0)).is_empty());
    assert_eq!(raised_by(link(1.0)), raised(Severity::Info, "NETWORK_CARRIER_RESTORED"));
    let disk = |locked| gauge("system.filesystem.read_only", locked).with_attribute("mountpoint", "/");
    assert_eq!(raised_by(disk(1.0)), raised(Severity::Critical, "FILESYSTEM_READ_ONLY"));
    assert_eq!(raised_by(disk(0.0)), raised(Severity::Info, "FILESYSTEM_WRITABLE"));
    let kills = |count| gauge("system.memory.oom_kills", count);
    assert!(raised_by(kills(0.0)).is_empty());
    assert_eq!(raised_by(kills(2.0)), raised(Severity::Critical, "MEMORY_OOM_KILL"));
    assert_eq!(raised_by(kills(2.0)), raised(Severity::Critical, "MEMORY_OOM_KILL"));
}

#[test]
fn temperatures_raise_events_at_their_limits() {
    let point = |celsius| {
        gauge("system.temperature", celsius)
            .with_attribute("sensor", "nvme")
            .with_attribute("channel", "temp1")
            .with_attribute("temperature.limit.max_celsius", "80")
            .with_attribute("temperature.limit.critical_celsius", "90")
    };
    assert_eq!(limit_texts(&vec![point(1.0)]), ["90", "80"]);
    let mut numbers = Table::new();
    numbers.insert("80".to_owned(), 80.0_f64.to_bits());
    numbers.insert("90".to_owned(), 90.0_f64.to_bits());
    let mut states = Table::new();
    let mut raised_by =
        |celsius| summary(&detect_system_events(&vec![point(celsius)], &numbers, &mut states));
    assert!(raised_by(41.0).is_empty());
    assert_eq!(raised_by(80.0), raised(Severity::Warning, "THERMAL_WARNING"));
    assert_eq!(raised_by(95.0), raised(Severity::Critical, "THERMAL_CRITICAL"));
    assert!(raised_by(96.0).is_empty());
    assert_eq!(raised_by(40.0), raised(Severity::Info, "THERMAL_RECOVERED"));
}

#[test]
fn services_raise_events_on_change_only() {
    let mut states = Table::new();
    let mut raised_by = |active| {
        let point = gauge("spark.service.active", active).with_attribute("systemd.unit", "x.service");
        summary(&service_events(&vec![point], &mut states))
    };
    assert!(raised_by(0.0).is_empty());
    assert_eq!(raised_by(1.0), raised(Severity::Info, "SERVICE_STATE_CHANGED"));
    assert!(raised_by(1.0).is_empty());
    assert_eq!(raised_by(0.0), raised(Severity::Error, "SERVICE_STATE_CHANGED"));
}

#[test]
fn gpu_errors_raise_events() {
    let points = vec![gauge("nvidia.gpu.xid.count", 0.0), gauge("nvidia.gpu.xid.count", 1.0)];
    assert_eq!(
        summary(&xid_events(&points)),
        raised(Severity::Critical, "NVIDIA_XID")
    );
}

#[test]
fn collectors_and_connections_are_reported_once() {
    let mut reported = Reported { had_errors: false, reconnects: 0, dropped: 0 };
    assert!(reported.collectors(false).is_empty());
    assert_eq!(
        summary(&reported.collectors(true)),
        raised(Severity::Warning, "COLLECTOR_DEGRADED")
    );
    assert!(reported.collectors(true).is_empty());
    assert_eq!(
        summary(&reported.collectors(false)),
        raised(Severity::Info, "COLLECTOR_RECOVERED")
    );
    assert!(reported.connection(0, 5).is_empty());
    assert_eq!(
        summary(&reported.connection(1, 5)),
        vec![
            (Severity::Info, "NATS_RECONNECTED".to_owned()),
            (Severity::Warning, "EVENTS_DROPPED".to_owned()),
        ]
    );
    assert_eq!(
        summary(&reported.connection(2, 5)),
        raised(Severity::Info, "NATS_RECONNECTED")
    );
    let mut failing = gauge("system.cpu.utilization", 1.0);
    failing.quality = Quality::Error;
    assert_eq!(error_count(&vec![failing, gauge("system.cpu.utilization", 1.0)]), 1);
}

fn publication(sequence: u64, subject: &str) -> Publication {
    Publication { sequence, subject: subject.to_owned(), payload: vec![1] }
}

#[test]
fn publications_are_sent_once_in_order() {
    let mut state = Table::new();
    for (sequence, subject) in [(1, "z"), (2, "a"), (3, "m"), (4, "z")] {
        publish_state(&mut state, publication(sequence, subject));
    }
    let mut publisher = Publisher::new();
    assert_eq!(publisher.next(PublisherEvent::Established), PublisherAction::SendState);
    let places = |publisher: &Publisher| {
        let pending = publisher.pending(&state);
        (0..pending.len())
            .map(|i| (pending.element_at(i).sequence, pending.element_at(i).subject.clone()))
            .collect::<Vec<_>>()
    };
    assert_eq!(
        places(&publisher),
        [(2, "a".to_owned()), (3, "m".to_owned()), (4, "z".to_owned())]
    );
    assert_eq!(
        publisher.next(PublisherEvent::Sent { subject: "a".to_owned(), sequence: 2 }),
        PublisherAction::Wait
    );
    assert_eq!(places(&publisher), [(3, "m".to_owned()), (4, "z".to_owned())]);
    assert_eq!(publisher.next(PublisherEvent::ClientConnected), PublisherAction::SendState);
    assert_eq!(places(&publisher).len(), 3);
    assert_eq!(
        publisher.next(PublisherEvent::ClientConnected),
        PublisherAction::CountAndSendState
    );
    assert_eq!(publish_latest(&state, &Table::new()).len(), 3);
}

#[test]
fn the_publisher_reacts_to_its_client() {
    let mut publisher = Publisher::new();
    let mut reaction = |event| publisher.next(event);
    assert_eq!(reaction(PublisherEvent::Unavailable), PublisherAction::RetryLater);
    assert_eq!(reaction(PublisherEvent::StateChanged), PublisherAction::SendState);
    assert_eq!(reaction(PublisherEvent::EventQueued), PublisherAction::SendEvent);
    assert_eq!(reaction(PublisherEvent::AgentEnded), PublisherAction::Stop);
    assert_eq!(reaction(PublisherEvent::ClientSlow), PublisherAction::Warn);
    assert_eq!(reaction(PublisherEvent::ClientOther), PublisherAction::Wait);
    assert_eq!(reaction(PublisherEvent::ClientEnded), PublisherAction::Connect);
    assert_eq!(reaction(PublisherEvent::SendFailed), PublisherAction::Connect);
}

#[test]
fn host_inventories_are_compared() {
    let hardware = InventoryFiles {
        chips: Vec::new(),
        zones: Vec::new(),
        disks: Vec::new(),
        network: Vec::new(),
        meminfo: None,
        dgx_release: None,
        os_release: None,
        cpu_online: None,
    };
    let mut host = HostFiles {
        kernel: Some("6.11.0\n".to_owned()),
        product: None,
        board: Some(" \n".to_owned()),
        cpuinfo: Some("processor\t: 0\nmodel name\t: Cortex-X925\n".to_owned()),
        processors: Some(20),
    };
    let first = host_inventory(&hardware, &host);
    assert_eq!(first.len(), 4);
    assert_eq!(first.at("host.board.name").map(String::as_str), Some(""));
    assert_eq!(first.at("host.kernel.version").map(String::as_str), Some("6.11.0"));
    assert_eq!(first.at("host.cpu.model").map(String::as_str), Some("Cortex-X925"));
    assert_eq!(first.at("host.cpu.logical.count").map(String::as_str), Some("20"));
    assert!(same_inventory(&first, &host_inventory(&hardware, &host)));
    host.kernel = Some("6.12.0\n".to_owned());
    assert!(!same_inventory(&first, &host_inventory(&hardware, &host)));
    host.processors = None;
    assert_eq!(host_inventory(&hardware, &host).at("host.cpu.logical.count"), None);
}

#[test]
fn subjects_tell_nodes_apart() {
    let suffix = Batch::Network.suffix();
    assert_ne!(subject("a", "b-c", suffix), subject("a-b", "c", suffix));
    assert_ne!(subject("a", "b", suffix), subject("a", "b", Batch::Storage.suffix()));
}
