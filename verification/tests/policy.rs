use spark_signals::schema::{Attributes, MetricPoint, Quality};
use spark_signals::signal_policy::{
    load_policy_directory, PolicyEntry, PolicyError, PolicyFile, PolicySource, SignalEmitter,
    SignalPolicy, SignalSelector,
};
use spark_signals::table::Table;

fn attributes(pairs: &[(&str, &str)]) -> Attributes {
    let mut table = Table::new();
    for (key, value) in pairs {
        table.insert((*key).to_owned(), (*value).to_owned());
    }
    table
}

fn point(value: Option<f64>, quality: &Quality) -> MetricPoint<u64> {
    let mut point = value.map_or_else(
        || {
            MetricPoint::unavailable(
                "nvidia.gpu.clock.frequency",
                "MHz",
                quality.clone(),
                "nvml",
                "NVML_NOTSUPPORTED",
            )
        },
        |value| {
            MetricPoint::gauge(
                "nvidia.gpu.clock.frequency",
                value.to_bits(),
                "MHz",
                quality.clone(),
                "nvml",
            )
        },
    );
    point
        .attributes
        .insert("clock.domain".to_owned(), "memory".to_owned());
    point
}

fn entry(policy: SignalPolicy, selected: &[(&str, &str)], reason: &str) -> PolicyEntry {
    PolicyEntry {
        source: "nvml".to_owned(),
        metric: "nvidia.gpu.clock.frequency".to_owned(),
        attributes: attributes(selected),
        policy,
        reason: reason.to_owned(),
    }
}

fn file(entries: Vec<PolicyEntry>) -> PolicyFile {
    PolicyFile { signal_policy: entries }
}

fn emitter(policy: SignalPolicy, selected: &[(&str, &str)]) -> SignalEmitter {
    let files = vec![file(vec![entry(policy, selected, "TEST_POLICY")])];
    SignalEmitter::load(&PolicySource::Files(files)).ok().unwrap()
}

fn refused(entries: Vec<PolicyEntry>) -> PolicyError {
    match load_policy_directory(&vec![file(entries)]) {
        Ok(_) => panic!("accepted"),
        Err(error) => error,
    }
}

#[test]
fn disabled_suppresses_matching_points_only() {
    let mut emitter = emitter(SignalPolicy::Disabled, &[("clock.domain", "memory")]);
    let memory = point(Some(100.0), &Quality::Measured);
    let mut graphics = point(Some(200.0), &Quality::Measured);
    graphics
        .attributes
        .insert("clock.domain".to_owned(), "graphics".to_owned());
    assert_eq!(emitter.filter(vec![memory, graphics]).len(), 1);
}

#[test]
fn state_change_emits_first_and_changed_observations() {
    let mut emitter = emitter(SignalPolicy::StateChange, &[]);
    assert_eq!(
        emitter
            .filter(vec![point(Some(100.0), &Quality::Measured)])
            .len(),
        1
    );
    assert!(emitter
        .filter(vec![point(Some(100.0), &Quality::Measured)])
        .is_empty());
    assert_eq!(
        emitter
            .filter(vec![point(Some(101.0), &Quality::Measured)])
            .len(),
        1
    );
    assert_eq!(
        emitter
            .filter(vec![point(None, &Quality::Unsupported)])
            .len(),
        1
    );
}

#[test]
fn availability_change_suppresses_only_repeated_unavailable_observations() {
    let mut emitter = emitter(SignalPolicy::AvailabilityChange, &[]);
    assert_eq!(
        emitter
            .filter(vec![point(Some(100.0), &Quality::Measured)])
            .len(),
        1
    );
    assert_eq!(
        emitter
            .filter(vec![point(Some(100.0), &Quality::Measured)])
            .len(),
        1
    );
    assert_eq!(
        emitter
            .filter(vec![point(None, &Quality::Unsupported)])
            .len(),
        1
    );
    assert!(emitter
        .filter(vec![point(None, &Quality::Unsupported)])
        .is_empty());
    assert_eq!(
        emitter
            .filter(vec![point(Some(100.0), &Quality::Measured)])
            .len(),
        1
    );
}

#[test]
fn specific_rule_overrides_metric_wide_rule() {
    let files = vec![file(vec![
        entry(SignalPolicy::Disabled, &[], "ALL_CLOCKS"),
        entry(
            SignalPolicy::Enabled,
            &[("clock.domain", "graphics")],
            "GRAPHICS_REQUIRED",
        ),
    ])];
    let mut emitter = SignalEmitter::load(&PolicySource::Files(files)).ok().unwrap();
    let mut graphics = point(Some(200.0), &Quality::Measured);
    graphics
        .attributes
        .insert("clock.domain".to_owned(), "graphics".to_owned());
    assert_eq!(
        emitter
            .filter(vec![point(Some(100.0), &Quality::Measured), graphics])
            .len(),
        1
    );
}

#[test]
fn invalid_reload_preserves_active_policy() {
    let mut emitter = emitter(SignalPolicy::Disabled, &[]);
    assert!(SignalEmitter::load(&PolicySource::Unreadable).is_err());
    assert!(emitter
        .filter(vec![point(Some(100.0), &Quality::Measured)])
        .is_empty());
}

#[test]
fn rejects_unknown_and_ambiguous_rules() {
    let mut unknown = entry(SignalPolicy::Disabled, &[], "UNKNOWN");
    unknown.metric = "unknown.metric".to_owned();
    assert!(SignalEmitter::load(&PolicySource::Files(vec![file(vec![unknown])])).is_err());
    let files = ["a.toml", "b.toml"]
        .into_iter()
        .map(|name| file(vec![entry(SignalPolicy::Disabled, &[], name)]))
        .collect();
    assert!(SignalEmitter::load(&PolicySource::Files(files)).is_err());
}

#[test]
fn every_fault_of_a_rule_is_named() {
    let mut metric = entry(SignalPolicy::Disabled, &[], "R");
    metric.metric = "unknown.metric".to_owned();
    assert!(
        matches!(refused(vec![metric]), PolicyError::UnknownMetric { metric } if metric == "unknown.metric")
    );
    let mut source = entry(SignalPolicy::Disabled, &[], "R");
    source.source = "other".to_owned();
    assert!(matches!(refused(vec![source]), PolicyError::UnknownSource { source } if source == "other"));
    let value = entry(SignalPolicy::Disabled, &[("gpu.id", "")], "R");
    assert!(matches!(refused(vec![value]), PolicyError::InvalidAttribute));
    let reason = entry(SignalPolicy::Disabled, &[], "");
    assert!(matches!(refused(vec![reason]), PolicyError::InvalidReason));
    let overlapping = vec![
        entry(SignalPolicy::Disabled, &[("clock.domain", "memory")], "first"),
        entry(SignalPolicy::Enabled, &[("gpu.id", "a")], "second"),
    ];
    assert!(matches!(
        refused(overlapping),
        PolicyError::Ambiguous { first, second, .. } if first == "first" && second == "second"
    ));
}

#[test]
fn rules_that_never_meet_are_accepted() {
    let set = load_policy_directory(&vec![file(vec![
        entry(SignalPolicy::Disabled, &[("clock.domain", "memory")], "first"),
        entry(SignalPolicy::StateChange, &[("clock.domain", "graphics")], "second"),
    ])])
    .ok()
    .unwrap();
    let memory = point(Some(1.0), &Quality::Measured);
    assert_eq!(set.policy_for(&memory), SignalPolicy::Disabled);
    let mut other = point(Some(1.0), &Quality::Measured);
    other.source = "nvidia-smi".to_owned();
    assert_eq!(set.policy_for(&other), SignalPolicy::Enabled);
}

#[test]
fn unconfigured_rules_emit_everything() {
    let mut emitter = SignalEmitter::load(&PolicySource::Unconfigured).ok().unwrap();
    assert!(emitter.should_emit(&point(Some(1.0), &Quality::Measured)));
    assert!(emitter.should_emit(&point(Some(1.0), &Quality::Measured)));
}

#[test]
fn the_order_of_rules_does_not_decide() {
    let general = || entry(SignalPolicy::Disabled, &[], "ALL");
    let specific = || entry(SignalPolicy::StateChange, &[("clock.domain", "memory")], "ONE");
    for files in [
        vec![file(vec![general()]), file(vec![specific()])],
        vec![file(vec![specific()]), file(vec![general()])],
    ] {
        let set = load_policy_directory(&files).ok().unwrap();
        assert_eq!(
            set.policy_for(&point(Some(1.0), &Quality::Measured)),
            SignalPolicy::StateChange
        );
    }
}

#[test]
fn selectors_overlap_where_a_point_can_match_both() {
    let selector = |pairs: &[(&str, &str)]| SignalSelector {
        source: "nvml".to_owned(),
        metric: "nvidia.gpu.clock.frequency".to_owned(),
        attributes: attributes(pairs),
    };
    let memory = selector(&[("clock.domain", "memory")]);
    let graphics = selector(&[("clock.domain", "graphics")]);
    let gpu = selector(&[("gpu.id", "a")]);
    assert!(memory.can_overlap(&memory));
    assert!(memory.can_overlap(&gpu) && gpu.can_overlap(&memory));
    assert!(!memory.can_overlap(&graphics) && !graphics.can_overlap(&memory));
    assert!(!memory.can_overlap(&selector(&[])));
}
