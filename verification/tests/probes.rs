use spark_signals::probes::config::{
    default_metrics_path, endpoint_url, parse_auth_header, resolved_names, AuthHeaderError,
    Backend, LlmEndpointConfig, MetricNames, ServiceConfig,
};
use spark_signals::probes::llm::{metric_value, parse_prometheus, Exchange, LlmProbe, Reply};
use spark_signals::probes::service::{
    control_group, parse_properties, parse_u64_properties, ServiceFiles, ServiceProbe,
};
use spark_signals::schema::{InstrumentKind, MetricPoint, Quality, Value};
use spark_signals::table::Table;

fn endpoint() -> LlmEndpointConfig {
    LlmEndpointConfig {
        id: "x".to_owned(),
        backend: Backend::Sglang,
        base_url: "http://localhost".to_owned(),
        served_model_id: None,
        context_capacity: None,
        auth_header_file: None,
        tls_ca_file: None,
        metrics_path: "/metrics".to_owned(),
        metric_names: MetricNames::default(),
    }
}

fn sum(samples: &[String]) -> f64 {
    samples
        .iter()
        .map(|sample| sample.parse::<f64>().unwrap())
        .sum()
}

fn find<'a>(points: &'a [MetricPoint<Value>], name: &str) -> &'a MetricPoint<Value> {
    points.iter().find(|point| point.name == name).unwrap()
}

#[test]
fn parses_and_sums_prometheus_series() {
    let values = parse_prometheus(
        "# HELP ignored\nsglang:num_running_reqs{model_name=\"a\"} 2\nsglang:num_running_reqs{model_name=\"b\"} 3\nsglang:prompt_tokens_total 1.2e3\n",
    );
    let total = |name: &str| sum(&values.at(name).unwrap().values);
    assert!((total("sglang:num_running_reqs") - 5.0).abs() < f64::EPSILON);
    assert!((total("sglang:prompt_tokens_total") - 1200.0).abs() < f64::EPSILON);
}

#[test]
fn prometheus_rows_without_a_number_are_ignored() {
    let values = parse_prometheus("a x\nb\n\nc NaN 17\n");
    assert_eq!(values.len(), 1);
    assert_eq!(values.at("c").unwrap().values, ["NaN"]);
}

#[test]
fn custom_metric_names_override_defaults() {
    let config = LlmEndpointConfig {
        id: "x".to_owned(),
        backend: Backend::Sglang,
        base_url: "http://localhost".to_owned(),
        served_model_id: None,
        context_capacity: None,
        auth_header_file: None,
        tls_ca_file: None,
        metrics_path: "/metrics".to_owned(),
        metric_names: MetricNames {
            running: Some("custom_running".to_owned()),
            ..MetricNames::default()
        },
    };
    assert_eq!(
        resolved_names(&config).running.as_deref(),
        Some("custom_running")
    );
}

#[test]
fn backends_have_default_names() {
    assert_eq!(
        resolved_names(&endpoint()).queued.as_deref(),
        Some("sglang:num_queue_reqs")
    );
    let mut openai = endpoint();
    openai.backend = Backend::Openai;
    assert!(resolved_names(&openai).running.is_none());
    assert_eq!(Backend::Vllm.as_str(), "vllm");
    assert_eq!(default_metrics_path(), "/metrics");
}

#[test]
fn endpoints_have_urls() {
    let mut config = endpoint();
    config.base_url = "http://localhost:30000/".to_owned();
    assert_eq!(endpoint_url(&config), "http://localhost:30000/metrics");
    config.backend = Backend::Openai;
    assert_eq!(endpoint_url(&config), "http://localhost:30000/v1/models");
}

#[test]
fn parses_cgroup_event_counters() {
    let values = parse_u64_properties("low 1\nhigh 2\noom_kill 3\n");
    assert_eq!(values.at("high"), Some(&2));
    assert_eq!(values.at("oom_kill"), Some(&3));
}

#[test]
fn authentication_headers_are_checked() {
    assert_eq!(
        parse_auth_header(" Authorization : Bearer x:y \n"),
        Ok(("Authorization".to_owned(), "Bearer x:y".to_owned()))
    );
    assert_eq!(parse_auth_header("Bearer"), Err(AuthHeaderError::NotAHeader));
    assert_eq!(parse_auth_header("a b: c"), Err(AuthHeaderError::InvalidName));
    assert_eq!(parse_auth_header("a: b\u{7}c"), Err(AuthHeaderError::InvalidValue));
}

#[test]
fn services_report_their_state() {
    let properties = "ActiveState=active\nSubState=running\nMainPID=0\nNRestarts=2\nControlGroup=/system.slice/x.service\n";
    assert_eq!(control_group(properties).as_deref(), Some("system.slice/x.service"));
    assert_eq!(
        parse_properties(properties).at("SubState").map(String::as_str),
        Some("running")
    );
    let mut probe = ServiceProbe::default();
    let configs = vec![ServiceConfig { name: "x.service".to_owned() }];
    let mut files = vec![ServiceFiles {
        properties: Some(properties.to_owned()),
        memory_events: Some("high 2\noom_kill 1\n".to_owned()),
        memory_stat: Some("pgscan 10\n".to_owned()),
    }];
    let first = probe.collect(&configs, &files);
    assert_eq!(first.len(), 5);
    assert!(matches!(first[0].value, Some(Value::Count(1))));
    assert_eq!(first[0].attributes.len(), 2);
    assert!(matches!(&first[1].value, Some(Value::Text(text)) if text == "2"));
    assert_eq!(first[2].quality, Quality::Stale);
    files[0].memory_events = Some("high 5\noom_kill 1\n".to_owned());
    files[0].memory_stat = Some("pgscan 4\n".to_owned());
    let second = probe.collect(&configs, &files);
    assert_eq!(second[2].name, "system.memory.cgroup.events");
    assert!(matches!(second[2].value, Some(Value::Count(3))));
    assert_eq!(second[3].name, "system.memory.oom_kills");
    assert!(matches!(second[3].value, Some(Value::Count(0))));
    assert_eq!(second[4].name, "system.memory.reclaim");
    assert!(matches!(second[4].value, Some(Value::Count(0))));
    files[0].properties = None;
    let failed = probe.collect(&configs, &files);
    assert_eq!(failed[0].error_code.as_deref(), Some("SYSTEMD_QUERY_FAILED"));
}

fn answer(tokens: f64) -> Reply {
    let mut metrics = Table::new();
    metrics.insert("sglang:num_running_reqs".to_owned(), 2.0_f64.to_bits());
    metrics.insert("sglang:prompt_tokens_total".to_owned(), tokens.to_bits());
    Reply::Answered(metrics)
}

#[test]
fn servers_report_tokens_between_answers() {
    let mut probe = LlmProbe::new(vec![endpoint()], 0);
    assert_eq!(probe.endpoints().len(), 1);
    let first = probe.collect(&vec![Exchange { reply: answer(100.0), now: 5 }]);
    assert_eq!(first.len(), 11);
    assert_eq!(
        find(&first, "spark.llm.context.capacity").error_code.as_deref(),
        Some("CONTEXT_CAPACITY_NOT_CONFIGURED")
    );
    assert_eq!(find(&first, "spark.llm.tokens.input").quality, Quality::Stale);
    assert_eq!(
        find(&first, "spark.llm.tokens.output").error_code.as_deref(),
        Some("METRIC_NOT_EXPOSED")
    );
    let second = probe.collect(&vec![Exchange { reply: answer(160.0), now: 1_000_000_005 }]);
    assert!(matches!(
        find(&second, "spark.llm.tokens.input").value,
        Some(Value::Change { now, earlier })
            if now == 160.0_f64.to_bits() && earlier == 100.0_f64.to_bits()
    ));
    assert!(matches!(
        find(&second, "spark.llm.tokens.prefill.rate").value,
        Some(Value::Rate { nanos: 1_000_000_000, .. })
    ));
    let restarted = probe.collect(&vec![Exchange { reply: answer(3.0), now: 2_000_000_005 }]);
    assert_eq!(
        find(&restarted, "spark.llm.tokens.input").error_code.as_deref(),
        Some("BASELINE_INITIALIZING")
    );
    let down = probe.collect(&vec![Exchange { reply: Reply::Unreachable, now: 3_000_000_005 }]);
    assert_eq!(down.len(), 4);
    assert!(matches!(
        find(&down, "spark.llm.response.age").value,
        Some(Value::Seconds(1_000_000_000))
    ));
    assert_eq!(
        find(&down, "spark.llm.available").error_code.as_deref(),
        Some("ENDPOINT_UNREACHABLE")
    );
    assert_eq!(
        find(&down, "spark.llm.available").attributes.at("llm.backend").map(String::as_str),
        Some("sglang")
    );
}

#[test]
fn failures_of_servers_are_told_apart() {
    let mut probe = LlmProbe::new(vec![endpoint()], 0);
    let mut code = |reply| {
        let points = probe.collect(&vec![Exchange { reply, now: 1 }]);
        find(&points, "spark.llm.available").error_code.clone()
    };
    assert_eq!(code(Reply::Rejected).as_deref(), Some("ENDPOINT_HTTP_ERROR"));
    assert_eq!(code(Reply::Unreadable).as_deref(), Some("ENDPOINT_BODY_ERROR"));
}

#[test]
fn exposed_metrics_are_measured() {
    let mut metrics = Table::new();
    metrics.insert("m".to_owned(), 4_u64);
    let point = metric_value(&metrics, &Some("m".to_owned()), "spark.llm.uptime", "s");
    assert!(matches!(point.value, Some(Value::Bits(4))));
    assert_eq!(
        metric_value(&metrics, &None, "spark.llm.uptime", "s").quality,
        Quality::Unsupported
    );
}

fn service(properties: &str) -> Vec<MetricPoint<Value>> {
    ServiceProbe::default().collect(
        &vec![ServiceConfig { name: "x.service".to_owned() }],
        &vec![ServiceFiles {
            properties: Some(properties.to_owned()),
            memory_events: Some("high 2\n".to_owned()),
            memory_stat: None,
        }],
    )
}

#[test]
fn missing_properties_give_no_numbers() {
    let points = service("SubState=dead\n");
    assert_eq!(points.len(), 2);
    let active = find(&points, "spark.service.active");
    assert!(active.value.is_none());
    assert_eq!(active.quality, Quality::Error);
    assert_eq!(active.error_code.as_deref(), Some("SYSTEMD_PROPERTY_MISSING"));
    let restarts = find(&points, "spark.service.restarts");
    assert!(restarts.value.is_none());
    assert_eq!(restarts.quality, Quality::Unsupported);
    assert_eq!(restarts.error_code.as_deref(), Some("SYSTEMD_PROPERTY_MISSING"));
    let points = service("ActiveState=inactive\nNRestarts=[not set]\n");
    assert!(matches!(find(&points, "spark.service.active").value, Some(Value::Count(0))));
    let restarts = find(&points, "spark.service.restarts");
    assert!(restarts.value.is_none());
    assert_eq!(restarts.quality, Quality::Error);
    assert_eq!(restarts.error_code.as_deref(), Some("SYSTEMD_PROPERTY_INVALID"));
}

#[test]
fn missing_units_read_as_failed_queries() {
    let points = service(
        "LoadState=not-found\nActiveState=inactive\nNRestarts=0\nControlGroup=/system.slice/x.service\n",
    );
    assert_eq!(points.len(), 1);
    assert_eq!(points[0].name, "spark.service.active");
    assert!(points[0].value.is_none());
    assert_eq!(points[0].quality, Quality::Error);
    assert_eq!(points[0].error_code.as_deref(), Some("SYSTEMD_QUERY_FAILED"));
    let stopped = service("LoadState=loaded\nActiveState=inactive\nNRestarts=0\n");
    assert!(matches!(stopped[0].value, Some(Value::Count(0))));
}

#[test]
fn cgroup_counters_start_with_a_baseline() {
    let mut probe = ServiceProbe::default();
    let metric = "system.memory.cgroup.events";
    let first = probe.cgroup_delta("x.service", "high", 5, metric, "{event}");
    assert!(first.value.is_none());
    assert_eq!(first.quality, Quality::Stale);
    assert_eq!(first.error_code.as_deref(), Some("BASELINE_INITIALIZING"));
    assert_eq!(first.source, "cgroupfs");
    assert_eq!(first.attributes.len(), 2);
    assert!(probe.cgroup_delta("y.service", "high", 1, metric, "{event}").value.is_none());
    let second = probe.cgroup_delta("x.service", "high", 8, metric, "{event}");
    assert_eq!(second.instrument, InstrumentKind::CounterDelta);
    assert!(matches!(second.value, Some(Value::Count(3))));
    let third = probe.cgroup_delta("x.service", "high", 2, metric, "{event}");
    assert!(matches!(third.value, Some(Value::Count(0))));
}
