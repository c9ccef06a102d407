use spark_signals::bridge::record::quality_name;
use spark_signals::catalogue::{
    attribute_catalogue_v1, attribute_name_allowed, metric_catalogue_v1, metric_name_allowed,
    source_allowed,
};
use spark_signals::schema::{
    admissible, attributes_valid, decode_v1, Attributes, DecodeError, Envelope, InstrumentKind,
    MetricPoint, Node, Quality, Severity, Signal, MAX_ATTRIBUTES_PER_SIGNAL_ITEM,
    MAX_ATTRIBUTE_VALUE_BYTES, MAX_SIGNAL_BYTES, SCHEMA_V1,
};
use spark_signals::table::{Group, Table};

fn envelope(signal: Signal) -> Envelope {
    Envelope {
        schema: SCHEMA_V1.to_owned(),
        node: Node {
            site: "test".to_owned(),
            id: "node".to_owned(),
            host_name: "node".to_owned(),
        },
        boot_id: "fixture".to_owned(),
        sequence: 1,
        observed_at: "2026-07-19T00:00:00Z".to_owned(),
        monotonic_ns: 1,
        collection_duration_ms: 1,
        valid_for_ms: 1,
        signal,
    }
}

fn utilization() -> MetricPoint<u64> {
    MetricPoint::gauge(
        "system.cpu.utilization",
        0.5_f64.to_bits(),
        "1",
        Quality::Measured,
        "fixture",
    )
}

fn decoded(signal: Signal) -> Result<u64, DecodeError> {
    decode_v1(b"{}", Some(envelope(signal))).map(|envelope| envelope.sequence)
}

#[test]
fn unavailable_value_serializes_as_null() {
    let point: MetricPoint<u64> = MetricPoint::unavailable(
        "system.cpu.utilization",
        "1",
        Quality::Stale,
        "procfs",
        "BASELINE_INITIALIZING",
    );
    assert!(point.value.is_none());
    assert_eq!(quality_name(&point.quality), "stale");
}

#[test]
fn rejects_oversized_messages_before_decoding() {
    let payload = vec![b' '; MAX_SIGNAL_BYTES + 1];
    assert!(!admissible(&payload));
    assert!(matches!(
        decode_v1(&payload, None),
        Err(DecodeError::Oversized)
    ));
}

#[test]
fn rejects_unknown_metric_attributes() {
    let mut point = utilization();
    point
        .attributes
        .insert("unbounded.label".to_owned(), "x".to_owned());
    assert_eq!(
        decoded(Signal::MetricBatch { points: vec![point] }),
        Err(DecodeError::UnknownAttribute)
    );
}

#[test]
fn decodes_what_the_catalogue_knows() {
    let point = utilization().with_attribute("state", "user");
    assert_eq!(decoded(Signal::MetricBatch { points: vec![point] }), Ok(1));
    assert_eq!(
        decoded(Signal::AgentStatus { online: true, version: "1".to_owned() }),
        Ok(1)
    );
}

#[test]
fn every_reason_for_refusal_is_given() {
    assert!(matches!(decode_v1(b"x", None), Err(DecodeError::Malformed)));
    let mut other = envelope(Signal::AgentStatus { online: true, version: String::new() });
    other.schema = "spark.signal/v2".to_owned();
    assert!(matches!(
        decode_v1(b"{}", Some(other)),
        Err(DecodeError::UnsupportedSchema)
    ));
    let mut point = utilization();
    point.name = "unknown".to_owned();
    assert_eq!(
        decoded(Signal::MetricBatch { points: vec![utilization(), point] }),
        Err(DecodeError::UnknownMetric)
    );
    let mut attributes: Attributes = Table::new();
    attributes.insert("x".to_owned(), "y".repeat(MAX_ATTRIBUTE_VALUE_BYTES + 1));
    assert_eq!(
        decoded(Signal::HealthEvent {
            severity: Severity::Info,
            code: "C".to_owned(),
            message: String::new(),
            attributes,
        }),
        Err(DecodeError::UnknownAttribute)
    );
}

#[test]
fn attributes_are_bounded() {
    let mut attributes: Attributes = Table::new();
    attributes.insert("gpu.id".to_owned(), "x".repeat(MAX_ATTRIBUTE_VALUE_BYTES));
    assert!(attributes_valid(&attributes));
    attributes.insert("gpu.id".to_owned(), "\u{e9}".repeat(129));
    assert!(!attributes_valid(&attributes));
    let mut many: Attributes = Table::new();
    for name in attribute_catalogue_v1().iter().take(MAX_ATTRIBUTES_PER_SIGNAL_ITEM) {
        many.insert((*name).to_owned(), "1".to_owned());
    }
    assert!(attributes_valid(&many));
    many.insert(
        attribute_catalogue_v1()[MAX_ATTRIBUTES_PER_SIGNAL_ITEM].to_owned(),
        "1".to_owned(),
    );
    assert!(!attributes_valid(&many));
}

#[test]
fn catalogues_list_what_they_allow() {
    let metrics = metric_catalogue_v1();
    assert!(metrics.iter().all(|name| metric_name_allowed(name)));
    assert!(metric_name_allowed("spark.llm.tokens.input"));
    assert!(!metric_name_allowed("spark.llm.tokens"));
    let attributes = attribute_catalogue_v1();
    assert!(attributes.iter().all(|name| attribute_name_allowed(name)));
    assert!(!attribute_name_allowed("unbounded.label"));
    assert!(source_allowed("nvml"));
    assert!(!source_allowed("arbitrary"));
}

#[test]
fn points_carry_what_they_are_made_of() {
    let delta = MetricPoint::counter_delta("system.memory.oom_kills", 7_u64, "{event}", "procfs")
        .with_attribute("state", "a")
        .with_attribute("state", "b");
    assert_eq!(delta.instrument, InstrumentKind::CounterDelta);
    assert_eq!(delta.quality, Quality::Derived);
    assert_eq!(delta.value, Some(7));
    assert_eq!(delta.attributes.len(), 1);
    assert_eq!(delta.attributes.at("state").map(String::as_str), Some("b"));
    let other: MetricPoint<u64> = delta.with_value(None);
    assert!(other.value.is_none());
    assert_eq!(other.unit, "{event}");
}

#[test]
fn tables_keep_keys_in_order() {
    let mut table: Table<String, u64> = Table::new();
    assert!(table.insert("b".to_owned(), 1).is_none());
    assert!(table.insert("a".to_owned(), 2).is_none());
    assert!(table.insert("Z".to_owned(), 3).is_none());
    assert_eq!(table.insert("b".to_owned(), 4), Some(1));
    assert_eq!(table.len(), 3);
    assert_eq!(table.key_at(0), "Z");
    assert_eq!(table.key_at(1), "a");
    assert_eq!(*table.value_at(2), 4);
    assert_eq!(table.remove(&"a".to_owned()), Some(2));
    assert!(table.get(&"a".to_owned()).is_none());
    let mut more: Table<String, u64> = Table::new();
    more.insert("b".to_owned(), 9);
    table.extend(&more);
    assert_eq!(table.at("b"), Some(&9));
    let mut group: Group<String> = Group::new();
    assert!(group.insert("x".to_owned()));
    assert!(!group.insert("x".to_owned()));
    assert!(group.has("x"));
    assert!(group.remove(&"x".to_owned()));
    assert_eq!(group.len(), 0);
}
