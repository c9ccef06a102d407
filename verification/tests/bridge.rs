use base64::prelude::BASE64_STANDARD;
use base64::Engine;
use spark_signals::bridge::maple::{
    exporter_config, load_credential, load_maple_exporter_config, maple_exporter_config,
    reject_otel_override_environment, reject_otel_overrides_with, validate_credential,
    validate_credential_location, validate_credential_metadata, validate_credential_path,
    validate_maple_credential, validate_maple_credential_metadata, validate_parent_metadata,
    validate_root_owned_parent_chain, CredentialContent, CredentialFile, DirectoryMetadata,
    FileMetadata, MapleCredential, MapleOptions, MAPLE_CREDENTIAL_SCHEMA, MAPLE_PROTOCOL,
    MAX_MAPLE_CREDENTIAL_BYTES,
};
use spark_signals::bridge::plugins::{
    select, OtlpProtocol, OtlpTargetPlugin, Preparation, TargetError, TargetOptions,
};
use spark_signals::bridge::privileges::{holds_root, reached_account, Identity};
use spark_signals::bridge::record::{
    attributes_json, emit_health, event_domain, quality_name, Instruments, LogLevel, Recorded,
    OTEL_SEMCONV_REVISION,
};
use spark_signals::bridge::unavailable_log::{
    convert, safe_identifier, LogSeverity, LogValue, UnavailableLog, UnavailableLogEmitter,
};
use spark_signals::schema::{
    Attributes, Envelope, InstrumentKind, MetricPoint, Node, Quality, Severity, Signal, SCHEMA_V1,
};
use spark_signals::table::Table;

const TEST_NODE: &str = "spark-885a";
const TEST_ENDPOINT: &str = "http://maple.invalid:4318";
const TEST_SCHEMA: &str = "maple-test/v1";
const TEST_PRODUCER: &str = "test-producer";

fn fixture_credential() -> MapleCredential {
    MapleCredential {
        schema: MAPLE_CREDENTIAL_SCHEMA.to_owned(),
        endpoint: TEST_ENDPOINT.to_owned(),
        password: "fixture-input".to_owned(),
        producer: "spark-signals".to_owned(),
        protocol: MAPLE_PROTOCOL.to_owned(),
        username: "maple-spark-signals-01".to_owned(),
    }
}

fn fixture() -> MapleCredential {
    let mut credential = fixture_credential();
    credential.schema = TEST_SCHEMA.to_owned();
    credential.producer = TEST_PRODUCER.to_owned();
    credential.username = format!("maple-{}-fixture", TEST_PRODUCER);
    credential
}

fn fixture_envelope() -> Envelope {
    Envelope {
        schema: SCHEMA_V1.to_owned(),
        node: Node {
            site: "home".to_owned(),
            id: TEST_NODE.to_owned(),
            host_name: TEST_NODE.to_owned(),
        },
        boot_id: "00000000-0000-0000-0000-000000000000".to_owned(),
        sequence: 42,
        observed_at: "2026-07-21T00:00:00Z".to_owned(),
        monotonic_ns: 1,
        collection_duration_ms: 1,
        valid_for_ms: 6_000,
        signal: Signal::MetricBatch { points: Vec::new() },
    }
}

fn unavailable_memory_clock() -> MetricPoint<u64> {
    MetricPoint::unavailable(
        "nvidia.gpu.clock.frequency",
        "MHz",
        Quality::Unsupported,
        "nvml",
        "NVML_NOTSUPPORTED",
    )
    .with_attribute("clock.domain", "memory")
    .with_attribute("gpu.id", "GPU-GB10-FIXTURE")
    .with_attribute("gpu.index", "0")
}

fn string_attribute<'a>(log: &'a UnavailableLog, name: &str) -> Option<&'a str> {
    log.attributes.iter().find_map(|(key, value)| {
        (key.as_str() == name)
            .then_some(value)
            .and_then(|value| {
                if let LogValue::Text(value) = value {
                    Some(value.as_str())
                } else {
                    None
                }
            })
    })
}

fn nothing_given() -> Preparation {
    Preparation {
        environment: Vec::new(),
        credential: CredentialFile::default(),
    }
}

fn found(size: u64, credential: Option<MapleCredential>) -> CredentialFile {
    CredentialFile {
        parents: vec![Some(DirectoryMetadata {
            symlink: false,
            directory: true,
            owner: 0,
            mode: 0o040_755,
        })],
        metadata: Some(FileMetadata {
            regular_file: true,
            owner: 0,
            mode: 0o100_600,
            size: 512,
        }),
        content: Some(CredentialContent { size, credential }),
    }
}

fn maple_options() -> TargetOptions {
    TargetOptions {
        maple: MapleOptions {
            credential: Some("/run/credential.json".to_owned()),
            credential_schema: Some(TEST_SCHEMA.to_owned()),
            producer: Some(TEST_PRODUCER.to_owned()),
        },
    }
}

#[test]
fn classifies_health_event_domains() {
    assert_eq!(event_domain("NVIDIA_XID"), "nvidia");
    assert_eq!(event_domain("SERVICE_STATE_CHANGED"), "service");
    assert_eq!(event_domain("NATS_RECONNECTED"), "nats");
    assert_eq!(event_domain("COLLECTOR_DEGRADED"), "agent");
}

#[test]
fn semantic_convention_revision_is_pinned() {
    assert_eq!(OTEL_SEMCONV_REVISION, "1.41.1");
}

#[test]
fn validates_maple_contract_and_builds_signal_endpoints() {
    let credential = fixture_credential();
    validate_maple_credential(&credential, "spark-signals").unwrap();
    let config = maple_exporter_config(&credential);
    assert_eq!(config.metrics_endpoint, format!("{}/v1/metrics", TEST_ENDPOINT));
    assert_eq!(config.logs_endpoint, format!("{}/v1/logs", TEST_ENDPOINT));
    let encoded = config
        .headers
        .at("authorization")
        .unwrap()
        .strip_prefix("Basic ")
        .expect("Basic authorization scheme");
    let decoded = BASE64_STANDARD.decode(encoded).expect("base64 header");
    assert_eq!(
        decoded,
        format!("{}:{}", credential.username, credential.password).as_bytes()
    );
}

#[test]
fn rejects_wrong_maple_producer_endpoint_or_protocol() {
    let mut credential = fixture_credential();
    credential.producer = "another-producer".to_owned();
    assert!(validate_maple_credential(&credential, "spark-signals").is_err());
    credential.producer = "spark-signals".to_owned();
    credential.endpoint = "file:///tmp/not-an-otlp-endpoint".to_owned();
    assert!(validate_maple_credential(&credential, "spark-signals").is_err());
    credential.endpoint = TEST_ENDPOINT.to_owned();
    credential.protocol = "grpc".to_owned();
    assert!(validate_maple_credential(&credential, "spark-signals").is_err());
}

#[test]
fn enforces_root_owned_regular_mode_0600_credential() {
    assert!(validate_maple_credential_metadata(true, 0, 0o100_600, 512).is_ok());
    assert!(validate_maple_credential_metadata(true, 1000, 0o100_600, 512).is_err());
    assert!(validate_maple_credential_metadata(true, 0, 0o100_640, 512).is_err());
    assert!(validate_maple_credential_metadata(false, 0, 0o100_600, 512).is_err());
}

#[test]
fn validates_contract_and_builds_signal_endpoints_and_authentication() {
    let credential = fixture();
    validate_credential(&credential, TEST_SCHEMA, TEST_PRODUCER).unwrap();
    let config = exporter_config(&credential);
    assert_eq!(
        config.metrics_endpoint.as_deref(),
        Some("http://maple.invalid:4318/v1/metrics")
    );
    assert_eq!(
        config.logs_endpoint.as_deref(),
        Some("http://maple.invalid:4318/v1/logs")
    );
    let encoded = config
        .headers
        .at("authorization")
        .unwrap()
        .strip_prefix("Basic ")
        .unwrap();
    assert_eq!(
        BASE64_STANDARD.decode(encoded).unwrap(),
        format!("{}:{}", credential.username, credential.password).as_bytes()
    );
}

#[test]
fn rejects_schema_producer_endpoint_protocol_username_and_password_errors() {
    let schema = TEST_SCHEMA;
    let producer = TEST_PRODUCER;
    let mut credential = fixture();
    credential.schema.clear();
    assert!(validate_credential(&credential, schema, producer).is_err());
    credential = fixture();
    credential.producer = "other".to_owned();
    assert!(validate_credential(&credential, schema, producer).is_err());
    credential = fixture();
    credential.endpoint = "file:///tmp/invalid".to_owned();
    assert!(validate_credential(&credential, schema, producer).is_err());
    credential = fixture();
    credential.protocol = "grpc".to_owned();
    assert!(validate_credential(&credential, schema, producer).is_err());
    credential = fixture();
    credential.username.push(':');
    assert!(validate_credential(&credential, schema, producer).is_err());
    credential = fixture();
    credential.password.push('\n');
    assert!(validate_credential(&credential, schema, producer).is_err());
}

#[test]
fn enforces_file_and_parent_metadata() {
    assert!(validate_credential_metadata(true, 0, 0o100_600, 512).is_ok());
    assert!(validate_credential_metadata(true, 1000, 0o100_600, 512).is_err());
    assert!(validate_credential_metadata(true, 0, 0o100_640, 512).is_err());
    assert!(validate_credential_metadata(false, 0, 0o100_600, 512).is_err());
    assert!(validate_credential_metadata(true, 0, 0o100_600, 0).is_err());
    assert!(
        validate_credential_metadata(true, 0, 0o100_600, MAX_MAPLE_CREDENTIAL_BYTES + 1).is_err()
    );
    assert!(validate_parent_metadata(false, true, 0, 0o040_755).is_ok());
    assert!(validate_parent_metadata(true, true, 0, 0o040_755).is_err());
    assert!(validate_parent_metadata(false, false, 0, 0o100_600).is_err());
    assert!(validate_parent_metadata(false, true, 1000, 0o040_755).is_err());
    assert!(validate_parent_metadata(false, true, 0, 0o040_775).is_err());
}

#[test]
fn every_fault_of_a_credential_is_told_apart() {
    let fault = |change: fn(&mut MapleCredential)| {
        let mut credential = fixture();
        change(&mut credential);
        validate_credential(&credential, TEST_SCHEMA, TEST_PRODUCER)
    };
    assert_eq!(fault(|c| c.schema.clear()), Err(TargetError::WrongSchema));
    assert_eq!(fault(|c| c.producer.clear()), Err(TargetError::WrongProducer));
    assert_eq!(fault(|c| c.endpoint.push('/')), Err(TargetError::WrongEndpoint));
    assert_eq!(
        fault(|c| c.endpoint = "https://".to_owned()),
        Err(TargetError::WrongEndpoint)
    );
    assert_eq!(fault(|c| c.protocol.clear()), Err(TargetError::WrongProtocol));
    assert_eq!(fault(|c| c.username.clear()), Err(TargetError::WrongUsername));
    assert_eq!(
        fault(|c| c.username = format!("maple-{}-", TEST_PRODUCER)),
        Err(TargetError::WrongUsername)
    );
    assert_eq!(fault(|c| c.password.clear()), Err(TargetError::WrongPassword));
    assert_eq!(fault(|_| ()), Ok(()));
}

#[test]
fn every_fault_of_a_credential_file_is_told_apart() {
    let wrong = |regular, owner, mode, size| validate_credential_metadata(regular, owner, mode, size);
    assert_eq!(wrong(false, 1, 0o777, 0), Err(TargetError::NotARegularFile));
    assert_eq!(wrong(true, 1, 0o777, 0), Err(TargetError::NotOwnedByRoot));
    assert_eq!(wrong(true, 0, 0o777, 0), Err(TargetError::WrongMode));
    assert_eq!(wrong(true, 0, 0o600, 0), Err(TargetError::WrongSize));
    assert_eq!(wrong(true, 0, 0o600, MAX_MAPLE_CREDENTIAL_BYTES), Ok(()));
    assert_eq!(
        validate_credential_path("relative/file"),
        Err(TargetError::PathNotAbsolute)
    );
    assert_eq!(validate_credential_path("/absolute"), Ok(()));
    let root = |mode| Some(DirectoryMetadata { symlink: false, directory: true, owner: 0, mode });
    assert_eq!(
        validate_root_owned_parent_chain(&vec![root(0o755), root(0o700)]),
        Ok(())
    );
    assert_eq!(
        validate_root_owned_parent_chain(&vec![root(0o755), None]),
        Err(TargetError::ParentNotInspected)
    );
    assert_eq!(
        validate_root_owned_parent_chain(&vec![root(0o757), None]),
        Err(TargetError::ParentNotRootControlled)
    );
    assert_eq!(
        validate_parent_metadata(true, true, 0, 0o755),
        Err(TargetError::ParentNotADirectory)
    );
}

#[test]
fn rejects_all_conflicting_otlp_override_classes() {
    for key in [
        "OTEL_EXPORTER_OTLP_ENDPOINT",
        "OTEL_EXPORTER_OTLP_METRICS_PROTOCOL",
        "OTEL_EXPORTER_OTLP_LOGS_HEADERS",
    ] {
        assert!(reject_otel_overrides_with(|candidate| candidate == key).is_err());
    }
    assert!(reject_otel_overrides_with(|_| false).is_ok());
}

#[test]
fn environments_are_searched_for_overrides() {
    let set = |name: &str| vec!["PATH".to_owned(), name.to_owned()];
    assert_eq!(
        reject_otel_override_environment(&set("OTEL_EXPORTER_OTLP_LOGS_PROTOCOL")),
        Err(TargetError::Overridden)
    );
    assert_eq!(
        reject_otel_override_environment(&set("OTEL_EXPORTER_OTLP_TIMEOUT")),
        Ok(())
    );
}

#[test]
fn rejects_unknown_plugin() {
    let options = TargetOptions::default();
    assert!(select("unknown", &options).is_err());
}

#[test]
fn selects_standard_without_backend_configuration() {
    let options = TargetOptions::default();
    let target = select("standard", &options)
        .ok()
        .unwrap()
        .prepare(&nothing_given())
        .ok()
        .unwrap();
    assert_eq!(target.plugin_name, "standard");
    assert_eq!(target.protocol, OtlpProtocol::HttpProtobuf);
    assert!(target.metrics_endpoint.is_none());
    assert!(target.logs_endpoint.is_none());
    assert_eq!(target.headers.len(), 0);
}

#[test]
fn maple_selection_rejects_missing_settings() {
    let options = TargetOptions::default();
    assert!(select("maple", &options).is_err());
}

#[test]
fn selection_faults_are_told_apart() {
    let fault = |name: &str, options: &TargetOptions| select(name, options).err();
    let mut options = maple_options();
    assert_eq!(fault("standard", &options), Some(TargetError::ForeignSettings));
    assert_eq!(fault("maple", &options), None);
    options.maple.producer = None;
    assert_eq!(fault("maple", &options), Some(TargetError::ProducerMissing));
    options.maple.credential_schema = None;
    assert_eq!(fault("maple", &options), Some(TargetError::SchemaMissing));
    options.maple.credential = None;
    assert_eq!(fault("maple", &options), Some(TargetError::CredentialMissing));
    assert_eq!(fault("other", &options), Some(TargetError::UnknownPlugin));
}

#[test]
fn maple_targets_come_from_their_credential() {
    let options = maple_options();
    let plugin = select("maple", &options).ok().unwrap();
    assert_eq!(plugin.name(), "maple");
    let prepare = |environment: Vec<String>, credential| {
        plugin.prepare(&Preparation { environment, credential })
    };
    let content = |size| found(size, Some(fixture()));
    let target = prepare(Vec::new(), content(100)).ok().unwrap();
    assert_eq!(target.plugin_name, "maple");
    assert_eq!(
        target.headers.at("authorization").map(String::as_str),
        Some("Basic bWFwbGUtdGVzdC1wcm9kdWNlci1maXh0dXJlOmZpeHR1cmUtaW5wdXQ=")
    );
    assert_eq!(
        prepare(Vec::new(), content(MAX_MAPLE_CREDENTIAL_BYTES + 1)).err(),
        Some(TargetError::TooLarge)
    );
    assert_eq!(
        prepare(Vec::new(), found(1, None)).err(),
        Some(TargetError::NotDecoded)
    );
    assert_eq!(
        prepare(Vec::new(), CredentialFile::default()).err(),
        Some(TargetError::ParentNotInspected)
    );
    assert_eq!(
        prepare(vec!["OTEL_EXPORTER_OTLP_HEADERS".to_owned()], content(1)).err(),
        Some(TargetError::Overridden)
    );
}

#[test]
fn preserves_validated_metric_identity_attributes() {
    let log = convert(&fixture_envelope(), &unavailable_memory_clock()).unwrap();
    assert_eq!(log.severity, LogSeverity::Info);
    assert_eq!(
        string_attribute(&log, "metric.name"),
        Some("nvidia.gpu.clock.frequency")
    );
    assert_eq!(string_attribute(&log, "clock.domain"), Some("memory"));
    assert_eq!(string_attribute(&log, "gpu.id"), Some("GPU-GB10-FIXTURE"));
    assert_eq!(string_attribute(&log, "gpu.index"), Some("0"));
    assert_eq!(
        string_attribute(&log, "measurement.quality"),
        Some("unsupported")
    );
    assert_eq!(string_attribute(&log, "measurement.source"), Some("nvml"));
    assert_eq!(
        string_attribute(&log, "error.code"),
        Some("NVML_NOTSUPPORTED")
    );
    assert_eq!(string_attribute(&log, "spark.node.id"), Some(TEST_NODE));
}

#[test]
fn rejects_unvalidated_attributes_and_sources() {
    let mut point = unavailable_memory_clock();
    point
        .attributes
        .insert("secret.prompt".to_owned(), "do not export".to_owned());
    let log = convert(&fixture_envelope(), &point).unwrap();
    assert!(log
        .attributes
        .iter()
        .all(|(key, _)| key.as_str() != "secret.prompt"));
    point.source = "arbitrary-secret-source".to_owned();
    assert!(convert(&fixture_envelope(), &point).is_none());
}

#[test]
fn operational_unavailable_metrics_remain_errors() {
    let mut point = unavailable_memory_clock();
    point.quality = Quality::Error;
    point.error_code = Some("NVML_TIMEOUT".to_owned());
    let log = convert(&fixture_envelope(), &point).unwrap();
    assert_eq!(log.severity, LogSeverity::Error);
}

#[test]
fn repeated_failures_are_suppressed_until_recovery() {
    let mut emitter = UnavailableLogEmitter::new();
    let mut point = unavailable_memory_clock();
    point.quality = Quality::Error;
    point.error_code = Some("NVML_TIMEOUT".to_owned());

    assert!(emitter.observe_unavailable(&point));

    point.error_code = Some("NVML_GPU_LOST".to_owned());
    assert!(!emitter.observe_unavailable(&point));

    emitter.observe_available(&point);
    assert!(emitter.observe_unavailable(&point));
}

#[test]
fn sequence_numbers_are_logged_as_signed_numbers() {
    let mut envelope = fixture_envelope();
    let sequence = |log: &UnavailableLog| {
        log.attributes.iter().find_map(|(key, value)| match value {
            LogValue::Int(value) if key == "spark.signal.sequence" => Some(*value),
            _ => None,
        })
    };
    let log = convert(&envelope, &unavailable_memory_clock()).unwrap();
    assert_eq!(sequence(&log), Some(42));
    envelope.sequence = u64::MAX;
    let log = convert(&envelope, &unavailable_memory_clock()).unwrap();
    assert_eq!(sequence(&log), Some(i64::MAX));
    assert_eq!(log.severity_text, "INFO");
    envelope.node.site = "a b".to_owned();
    assert!(convert(&envelope, &unavailable_memory_clock()).is_none());
    assert!(safe_identifier("a.b_c-d:e"));
    assert!(!safe_identifier(""));
}

#[test]
fn points_are_recorded_once() {
    let mut instruments = Instruments::new();
    let envelope = fixture_envelope();
    assert!(matches!(
        instruments.record(&envelope, &unavailable_memory_clock()),
        Recorded::Log(_)
    ));
    assert!(matches!(
        instruments.record(&envelope, &unavailable_memory_clock()),
        Recorded::Nothing
    ));
    let available = unavailable_memory_clock().with_value(Some(2.5_f64.to_bits()));
    match instruments.record(&envelope, &available) {
        Recorded::Value(measurement) => {
            assert_eq!(measurement.instrument, InstrumentKind::Gauge);
            assert_eq!(measurement.value, 2.5_f64.to_bits());
            assert_eq!(measurement.attributes.len(), 10);
            assert_eq!(
                measurement.attributes[0],
                ("host.name".to_owned(), TEST_NODE.to_owned())
            );
        }
        _ => panic!("not recorded"),
    }
    assert!(matches!(
        instruments.record(&envelope, &unavailable_memory_clock()),
        Recorded::Log(_)
    ));
}

#[test]
fn negative_deltas_are_not_recorded() {
    let mut instruments = Instruments::new();
    let mut record = |value: f64| {
        let point =
            MetricPoint::counter_delta("spark.llm.tokens.input", value.to_bits(), "{token}", "http");
        matches!(
            instruments.record(&fixture_envelope(), &point),
            Recorded::Value(_)
        )
    };
    assert!(record(0.0));
    assert!(record(3.0));
    assert!(!record(-1.0));
    assert!(!record(f64::NAN));
}

#[test]
fn health_records_name_their_domain() {
    let mut attributes: Attributes = Table::new();
    attributes.insert("systemd.unit".to_owned(), "a \"b\"".to_owned());
    attributes.insert("gpu.id".to_owned(), "1".to_owned());
    let record = emit_health(&Severity::Critical, "SERVICE_X", &attributes);
    assert_eq!(record.level, LogLevel::Error);
    assert_eq!(record.domain, "service");
    assert_eq!(
        record.attributes,
        "{\"gpu.id\":\"1\",\"systemd.unit\":\"a \\\"b\\\"\"}"
    );
    assert_eq!(attributes_json(&Table::new()), "{}");
    assert_eq!(
        emit_health(&Severity::Warning, "X", &attributes).level,
        LogLevel::Warn
    );
    assert_eq!(emit_health(&Severity::Info, "X", &attributes).level, LogLevel::Info);
    assert_eq!(quality_name(&Quality::Estimated), "estimated");
}

#[test]
fn privileges_are_dropped_to_the_account() {
    let identity = |user, group| Identity { user, group };
    assert!(holds_root(&identity(0, 5)));
    assert!(!holds_root(&identity(5, 0)));
    assert!(reached_account(&identity(5, 6), &identity(5, 6)));
    assert!(!reached_account(&identity(5, 0), &identity(5, 6)));
    assert!(!reached_account(&identity(4, 6), &identity(5, 6)));
    assert!(!reached_account(&identity(0, 6), &identity(0, 6)));
}

#[test]
fn credentials_are_loaded_only_from_a_protected_place() {
    let load = |path: &str, change: fn(&mut CredentialFile)| {
        let mut file = found(100, Some(fixture()));
        change(&mut file);
        load_credential(path, TEST_SCHEMA, TEST_PRODUCER, &file)
            .map(|credential| credential.endpoint.clone())
    };
    let path = "/run/credential.json";
    assert_eq!(load(path, |_| ()), Ok(TEST_ENDPOINT.to_owned()));
    assert_eq!(load("credential.json", |_| ()), Err(TargetError::PathNotAbsolute));
    assert_eq!(load(path, |f| f.parents.clear()), Err(TargetError::ParentNotInspected));
    assert_eq!(load(path, |f| f.parents.push(None)), Err(TargetError::ParentNotInspected));
    assert_eq!(
        load(path, |f| f.parents[0].as_mut().unwrap().symlink = true),
        Err(TargetError::ParentNotADirectory)
    );
    assert_eq!(
        load(path, |f| f.parents[0].as_mut().unwrap().mode = 0o040_777),
        Err(TargetError::ParentNotRootControlled)
    );
    assert_eq!(load(path, |f| f.metadata = None), Err(TargetError::NotRead));
    assert_eq!(
        load(path, |f| f.metadata.as_mut().unwrap().mode = 0o100_644),
        Err(TargetError::WrongMode)
    );
    assert_eq!(load(path, |f| f.content = None), Err(TargetError::NotRead));
    assert_eq!(
        load(path, |f| f.content.as_mut().unwrap().size = MAX_MAPLE_CREDENTIAL_BYTES + 1),
        Err(TargetError::TooLarge)
    );
    assert_eq!(
        load(path, |f| f.content.as_mut().unwrap().credential = None),
        Err(TargetError::NotDecoded)
    );
    let file = found(1, Some(fixture()));
    assert_eq!(
        load_credential(path, TEST_SCHEMA, "other", &file).err(),
        Some(TargetError::WrongProducer)
    );
    assert_eq!(validate_credential_location(path, &file.parents), Ok(()));
    assert_eq!(
        validate_credential_location("/", &Vec::new()),
        Err(TargetError::ParentNotInspected)
    );
}

#[test]
fn exporter_settings_come_from_a_loaded_credential() {
    let file = found(1, Some(fixture_credential()));
    let config = load_maple_exporter_config("/run/c.json", "spark-signals", &file).ok().unwrap();
    assert_eq!(config.metrics_endpoint, "http://maple.invalid:4318/v1/metrics");
    assert_eq!(config.logs_endpoint, "http://maple.invalid:4318/v1/logs");
    assert_eq!(
        config.headers.at("authorization").map(String::as_str),
        Some("Basic bWFwbGUtc3Bhcmstc2lnbmFscy0wMTpmaXh0dXJlLWlucHV0")
    );
    assert_eq!(
        load_maple_exporter_config("c.json", "spark-signals", &file).err(),
        Some(TargetError::PathNotAbsolute)
    );
}

#[test]
fn only_the_overriding_variables_are_asked_for() {
    assert!(reject_otel_overrides_with(|key| {
        assert!(key.starts_with("OTEL_EXPORTER_OTLP_"));
        assert!(["ENDPOINT", "PROTOCOL", "HEADERS"].iter().any(|end| key.ends_with(end)));
        false
    })
    .is_ok());
}
