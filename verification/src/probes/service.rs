//! System service points.

use super::config::ServiceConfig;
use crate::arith::{minus, subtract};
use crate::catalogue::is_metric;
use crate::linux::parse::entry_view;
use crate::rows::{gathered, lemma_gathered};
use crate::schema::{
    delta_of, emit, gauge_of, no_points, unavailable_of, views, MetricPoint, Number, Point,
    Quality, Value,
};
use crate::table::{items_of, Table};
use crate::text::{
    float, is_float, lines, lines_of, optional, parse_u64, same, split_once, split_once_of, texts,
    trim, trim_of, trim_start_char, trim_start_of, u64_of, Class,
};
use vstd::prelude::*;

verus! {

// --------------------------------------------------------------------------
// Parsers
// --------------------------------------------------------------------------

/// The property that one line of the form `Name=value` gives.
pub open spec fn property_entry(line: Seq<char>) -> Option<(Seq<char>, Seq<char>)> {
    split_once_of(line, Class::Only('='))
}

pub open spec fn property_entries() -> spec_fn(Seq<char>) -> Option<(Seq<char>, Seq<char>)> {
    |line: Seq<char>| property_entry(line)
}

pub open spec fn properties_of(raw: Seq<char>) -> Map<Seq<char>, Seq<char>> {
    gathered(lines_of(raw), property_entries())
}

/// Parses lines of the form `Name=value`.
pub fn parse_properties(raw: &str) -> (r: Table<String, String>)
    ensures
        r@ == properties_of(raw@),
{
    let rows = lines(raw);
    let ghost all = texts(rows@);
    let mut out: Table<String, String> = Table::new();
    let mut i: usize = 0;
    while i < rows.len()
        invariant
            i <= rows@.len(),
            all == texts(rows@),
            out@ == gathered(all.take(i as int), property_entries()),
        decreases rows@.len() - i,
    {
        proof {
            lemma_gathered(all, i as int, property_entries());
        }
        match split_once(rows[i].as_str(), Class::Only('=')) {
            Some((key, value)) => {
                out.insert(key, value);
            },
            None => {},
        }
        i += 1;
    }
    assert(all.take(i as int) =~= all);
    out
}

/// The counter that one line of the form `name number` gives.
pub open spec fn counter_entry(line: Seq<char>) -> Option<(Seq<char>, u64)> {
    match split_once_of(line, Class::Space) {
        None => None,
        Some((key, value)) => match u64_of(trim_of(value)) {
            None => None,
            Some(v) => Some((key, v)),
        },
    }
}

pub open spec fn counter_entries() -> spec_fn(Seq<char>) -> Option<(Seq<char>, u64)> {
    |line: Seq<char>| counter_entry(line)
}

pub open spec fn counters_of(raw: Seq<char>) -> Map<Seq<char>, u64> {
    gathered(lines_of(raw), counter_entries())
}

fn counter_line(line: &str) -> (r: Option<(String, u64)>)
    ensures
        entry_view(r) == counter_entry(line@),
{
    match split_once(line, Class::Space) {
        None => None,
        Some((key, value)) => {
            let number = trim(value.as_str());
            match parse_u64(number.as_str()) {
                None => None,
                Some(v) => Some((key, v)),
            }
        },
    }
}

/// Parses lines of the form `name number`.
pub fn parse_u64_properties(raw: &str) -> (r: Table<String, u64>)
    ensures
        r@ == counters_of(raw@),
{
    let rows = lines(raw);
    let ghost all = texts(rows@);
    let mut out: Table<String, u64> = Table::new();
    let mut i: usize = 0;
    while i < rows.len()
        invariant
            i <= rows@.len(),
            all == texts(rows@),
            out@ == gathered(all.take(i as int), counter_entries()),
        decreases rows@.len() - i,
    {
        proof {
            lemma_gathered(all, i as int, counter_entries());
        }
        match counter_line(rows[i].as_str()) {
            Some((key, value)) => {
                out.insert(key, value);
            },
            None => {},
        }
        i += 1;
    }
    assert(all.take(i as int) =~= all);
    out
}

// --------------------------------------------------------------------------
// Services
// --------------------------------------------------------------------------

/// What the service manager and the control group of a service say.
pub struct ServiceFiles {
    /// The properties of the unit, where the query succeeded.
    pub properties: Option<String>,
    /// The content of `memory.events` of its control group.
    pub memory_events: Option<String>,
    /// The content of `memory.stat` of its control group.
    pub memory_stat: Option<String>,
}

/// The value of a property, where the unit has it.
pub open spec fn property(values: Map<Seq<char>, Seq<char>>, name: Seq<char>) -> Option<Seq<char>> {
    if values.contains_key(name) {
        Some(values[name])
    } else {
        None
    }
}

/// The properties of a unit, where the query succeeded and there is such a
/// unit.
pub open spec fn known_properties(properties: Option<Seq<char>>) -> Option<
    Map<Seq<char>, Seq<char>>,
> {
    match properties {
        Some(raw) => if property(properties_of(raw), "LoadState"@) == Some("not-found"@) {
            None
        } else {
            Some(properties_of(raw))
        },
        None => None,
    }
}

/// A point with an attribute, unless the value is missing or zero.
pub open spec fn with_nonzero<W>(
    point: Point<W>,
    attribute: Seq<char>,
    value: Option<Seq<char>>,
) -> Point<W> {
    match value {
        Some(v) => if v == "0"@ {
            point
        } else {
            point.with(attribute, v)
        },
        None => point,
    }
}

/// Whether a service is active, where its state is known.
pub open spec fn activity(state: Option<Seq<char>>) -> Point<Number> {
    match state {
        Some(s) => gauge_of(
            "spark.service.active"@,
            Number::Count(
                if s == "active"@ {
                    1
                } else {
                    0
                },
            ),
            "1"@,
            Quality::Measured,
            "systemd"@,
        ),
        None => unavailable_of(
            "spark.service.active"@,
            "1"@,
            Quality::Error,
            "systemd"@,
            "SYSTEMD_PROPERTY_MISSING"@,
        ),
    }
}

/// Whether a service is active, with what else is known of its state.
pub open spec fn active_point(unit: Seq<char>, values: Map<Seq<char>, Seq<char>>) -> Point<Number> {
    let point = activity(property(values, "ActiveState"@)).with("systemd.unit"@, unit);
    let point = match property(values, "SubState"@) {
        Some(substate) => point.with("systemd.substate"@, substate),
        None => point,
    };
    with_nonzero(
        with_nonzero(point, "process.pid"@, property(values, "MainPID"@)),
        "systemd.active_enter_timestamp_monotonic_us"@,
        property(values, "ActiveEnterTimestampMonotonic"@),
    )
}

/// How often a service was restarted, or the reason why that is not known: not
/// every unit counts its restarts.
pub open spec fn restarts_point(unit: Seq<char>, values: Map<Seq<char>, Seq<char>>) -> Point<
    Number,
> {
    match property(values, "NRestarts"@) {
        Some(v) => if is_float(v) {
            gauge_of(
                "spark.service.restarts"@,
                Number::Text(v),
                "{restart}"@,
                Quality::Measured,
                "systemd"@,
            )
        } else {
            unavailable_of(
                "spark.service.restarts"@,
                "{restart}"@,
                Quality::Error,
                "systemd"@,
                "SYSTEMD_PROPERTY_INVALID"@,
            )
        },
        None => unavailable_of(
            "spark.service.restarts"@,
            "{restart}"@,
            Quality::Unsupported,
            "systemd"@,
            "SYSTEMD_PROPERTY_MISSING"@,
        ),
    }.with("systemd.unit"@, unit)
}

/// The control group of a service, where it has one: its path below the root
/// of the control group filesystem.
pub open spec fn control_group_of(values: Map<Seq<char>, Seq<char>>) -> Option<Seq<char>> {
    match property(values, "ControlGroup"@) {
        Some(v) => if v.len() == 0 {
            None
        } else {
            Some(trim_start_of(v, Class::Except('/')))
        },
        None => None,
    }
}

/// The control group that the properties of a unit name.
pub fn control_group(properties: &str) -> (r: Option<String>)
    ensures
        optional(r) == control_group_of(properties_of(properties@)),
{
    group_of(&parse_properties(properties))
}

// --------------------------------------------------------------------------
// Control groups
// --------------------------------------------------------------------------

/// The last counters, by unit and event.
pub type Baselines = Map<(Seq<char>, Seq<char>), u64>;

/// How far an event counter of a service has gone up.
pub open spec fn cgroup_change(
    b: Baselines,
    unit: Seq<char>,
    event: Seq<char>,
    value: u64,
    metric: Seq<char>,
    metric_unit: Seq<char>,
) -> Point<Number> {
    let point = if b.contains_key((unit, event)) {
        delta_of(
            metric,
            Number::Count(minus(value, b[(unit, event)])),
            metric_unit,
            "cgroupfs"@,
        )
    } else {
        unavailable_of(
            metric,
            metric_unit,
            Quality::Stale,
            "cgroupfs"@,
            "BASELINE_INITIALIZING"@,
        )
    };
    point.with("systemd.unit"@, unit).with("cgroup.scope"@, "service"@)
}

/// How far an event counter of a service has gone up, with the name of the
/// event.
pub open spec fn event_point(
    b: Baselines,
    unit: Seq<char>,
    event: Seq<char>,
    value: u64,
    metric: Seq<char>,
    metric_unit: Seq<char>,
) -> Point<Number> {
    cgroup_change(b, unit, event, value, metric, metric_unit).with("cgroup.memory.event"@, event)
}

/// The metric of a memory event.
pub open spec fn event_metric(event: Seq<char>) -> Seq<char> {
    if event == "oom_kill"@ {
        "system.memory.oom_kills"@
    } else {
        "system.memory.cgroup.events"@
    }
}

/// The counters after some events.
pub open spec fn after_events(b: Baselines, unit: Seq<char>, events: Seq<(Seq<char>, u64)>) -> Baselines
    decreases events.len(),
{
    if events.len() == 0 {
        b
    } else {
        after_events(b, unit, events.drop_last()).insert((unit, events.last().0), events.last().1)
    }
}

/// The points of some events.
pub open spec fn events_points(b: Baselines, unit: Seq<char>, events: Seq<(Seq<char>, u64)>) -> Seq<
    Point<Number>,
>
    decreases events.len(),
{
    if events.len() == 0 {
        seq![]
    } else {
        let (event, value) = events.last();
        events_points(b, unit, events.drop_last()).push(
            event_point(
                after_events(b, unit, events.drop_last()),
                unit,
                event,
                value,
                event_metric(event),
                "{event}"@,
            ),
        )
    }
}

/// The events that a file lists, in the order of their names.
pub open spec fn events_in(raw: Option<Seq<char>>) -> Seq<(Seq<char>, u64)> {
    match raw {
        Some(s) => items_of::<String, u64>(counters_of(s)),
        None => seq![],
    }
}

/// The pages that reclaim has scanned, where the statistics count them.
pub open spec fn scanned(raw: Option<Seq<char>>) -> Option<u64> {
    match raw {
        Some(s) => if counters_of(s).contains_key("pgscan"@) {
            Some(counters_of(s)["pgscan"@])
        } else {
            None
        },
        None => None,
    }
}

/// The points of a control group.
pub open spec fn cgroup_points(b: Baselines, unit: Seq<char>, files: ServiceFiles) -> Seq<
    Point<Number>,
> {
    let events = events_in(optional(files.memory_events));
    events_points(b, unit, events) + (match scanned(optional(files.memory_stat)) {
        Some(value) => seq![
            event_point(
                after_events(b, unit, events),
                unit,
                "pgscan"@,
                value,
                "system.memory.reclaim"@,
                "{page}"@,
            ),
        ],
        None => seq![],
    })
}

/// The counters after collecting a control group.
pub open spec fn after_cgroup(b: Baselines, unit: Seq<char>, files: ServiceFiles) -> Baselines {
    let c = after_events(b, unit, events_in(optional(files.memory_events)));
    match scanned(optional(files.memory_stat)) {
        Some(value) => c.insert((unit, "pgscan"@), value),
        None => c,
    }
}

/// The points of a service.
pub open spec fn service_points(b: Baselines, unit: Seq<char>, files: ServiceFiles) -> Seq<
    Point<Number>,
> {
    match known_properties(optional(files.properties)) {
        Some(values) => {
            seq![active_point(unit, values), restarts_point(unit, values)]
                + (if control_group_of(values) is Some {
                cgroup_points(b, unit, files)
            } else {
                seq![]
            })
        },
        None => seq![
            unavailable_of(
                "spark.service.active"@,
                "1"@,
                Quality::Error,
                "systemd"@,
                "SYSTEMD_QUERY_FAILED"@,
            ).with("systemd.unit"@, unit),
        ],
    }
}

/// The counters after collecting a service.
pub open spec fn after_service(b: Baselines, unit: Seq<char>, files: ServiceFiles) -> Baselines {
    match known_properties(optional(files.properties)) {
        Some(values) => if control_group_of(values) is Some {
            after_cgroup(b, unit, files)
        } else {
            b
        },
        None => b,
    }
}

/// The counters after collecting some services.
pub open spec fn after_services(
    b: Baselines,
    configs: Seq<ServiceConfig>,
    files: Seq<ServiceFiles>,
) -> Baselines
    decreases configs.len(),
{
    if configs.len() == 0 {
        b
    } else {
        after_service(
            after_services(b, configs.drop_last(), files.drop_last()),
            configs.last().name@,
            files.last(),
        )
    }
}

/// The points of some services.
pub open spec fn services_points(
    b: Baselines,
    configs: Seq<ServiceConfig>,
    files: Seq<ServiceFiles>,
) -> Seq<Point<Number>>
    decreases configs.len(),
{
    if configs.len() == 0 {
        seq![]
    } else {
        services_points(b, configs.drop_last(), files.drop_last()) + service_points(
            after_services(b, configs.drop_last(), files.drop_last()),
            configs.last().name@,
            files.last(),
        )
    }
}

/// Observes system services.
pub struct ServiceProbe {
    cgroup_baselines: Table<(String, String), u64>,
}

impl View for ServiceProbe {
    type V = Baselines;

    closed spec fn view(&self) -> Baselines {
        self.cgroup_baselines@
    }
}

impl Default for ServiceProbe {
    /// A probe that has not observed anything yet.
    fn default() -> (r: Self)
        ensures
            r@ == Map::<(Seq<char>, Seq<char>), u64>::empty(),
    {
        ServiceProbe { cgroup_baselines: Table::new() }
    }
}

fn attach_nonzero(point: MetricPoint<Value>, attribute: &str, value: Option<&String>) -> (r:
    MetricPoint<Value>)
    ensures
        r@ == with_nonzero(
            point@,
            attribute@,
            match value {
                Some(v) => Some(v@),
                None => None,
            },
        ),
{
    match value {
        Some(v) => if same(v.as_str(), "0") {
            point
        } else {
            point.with_attribute(attribute, v.as_str())
        },
        None => point,
    }
}

fn collect_active(unit: &str, values: &Table<String, String>) -> (r: MetricPoint<Value>)
    ensures
        r@ == active_point(unit@, values@),
{
    let point = match values.at("ActiveState") {
        Some(state) => MetricPoint::gauge(
            "spark.service.active",
            Value::Count(
                if same(state.as_str(), "active") {
                    1
                } else {
                    0
                },
            ),
            "1",
            Quality::Measured,
            "systemd",
        ),
        None => MetricPoint::unavailable(
            "spark.service.active",
            "1",
            Quality::Error,
            "systemd",
            "SYSTEMD_PROPERTY_MISSING",
        ),
    };
    let point = point.with_attribute("systemd.unit", unit);
    let point = match values.at("SubState") {
        Some(substate) => point.with_attribute("systemd.substate", substate.as_str()),
        None => point,
    };
    let point = attach_nonzero(point, "process.pid", values.at("MainPID"));
    attach_nonzero(
        point,
        "systemd.active_enter_timestamp_monotonic_us",
        values.at("ActiveEnterTimestampMonotonic"),
    )
}

fn collect_restarts(unit: &str, values: &Table<String, String>) -> (r: MetricPoint<Value>)
    ensures
        r@ == restarts_point(unit@, values@),
{
    let metric = "spark.service.restarts";
    let metric_unit = "{restart}";
    let point = match values.at("NRestarts") {
        Some(v) => if float(v.as_str()) {
            MetricPoint::gauge(
                metric,
                Value::Text(v.clone()),
                metric_unit,
                Quality::Measured,
                "systemd",
            )
        } else {
            MetricPoint::unavailable(
                metric,
                metric_unit,
                Quality::Error,
                "systemd",
                "SYSTEMD_PROPERTY_INVALID",
            )
        },
        None => MetricPoint::unavailable(
            metric,
            metric_unit,
            Quality::Unsupported,
            "systemd",
            "SYSTEMD_PROPERTY_MISSING",
        ),
    };
    point.with_attribute("systemd.unit", unit)
}

fn read_properties(properties: &Option<String>) -> (r: Option<Table<String, String>>)
    ensures
        match r {
            Some(values) => known_properties(optional(*properties)) == Some(values@),
            None => known_properties(optional(*properties)) is None,
        },
{
    match properties {
        Some(raw) => {
            let values = parse_properties(raw.as_str());
            let unknown = match values.at("LoadState") {
                Some(state) => same(state.as_str(), "not-found"),
                None => false,
            };
            if unknown {
                None
            } else {
                Some(values)
            }
        },
        None => None,
    }
}

fn group_of(values: &Table<String, String>) -> (r: Option<String>)
    ensures
        optional(r) == control_group_of(values@),
{
    match values.at("ControlGroup") {
        Some(v) => if v.as_str().is_empty() {
            None
        } else {
            Some(trim_start_char(v.as_str(), '/'))
        },
        None => None,
    }
}

impl ServiceProbe {
    /// How far an event counter of a service has gone up since the last time;
    /// the counter is kept to compare the next one with.
    pub fn cgroup_delta(
        &mut self,
        unit: &str,
        event: &str,
        value: u64,
        metric: &str,
        metric_unit: &str,
    ) -> (r: MetricPoint<Value>)
        requires
            is_metric(metric@),
        ensures
            r@ == cgroup_change(old(self)@, unit@, event@, value, metric@, metric_unit@),
            final(self)@ == old(self)@.insert((unit@, event@), value),
    {
        let key = (unit.to_owned(), event.to_owned());
        let previous = self.cgroup_baselines.insert(key, value);
        let point = match previous {
            None => MetricPoint::unavailable(
                metric,
                metric_unit,
                Quality::Stale,
                "cgroupfs",
                "BASELINE_INITIALIZING",
            ),
            Some(past) => MetricPoint::counter_delta(
                metric,
                Value::Count(subtract(value, past)),
                metric_unit,
                "cgroupfs",
            ),
        };
        point.with_attribute("systemd.unit", unit).with_attribute("cgroup.scope", "service")
    }

    fn collect_events(&mut self, unit: &str, raw: &str, points: &mut Vec<MetricPoint<Value>>)
        ensures
            views(final(points)@) == views(old(points)@) + events_points(
                old(self)@,
                unit@,
                events_in(Some(raw@)),
            ),
            final(self)@ == after_events(old(self)@, unit@, events_in(Some(raw@))),
    {
        let counters = parse_u64_properties(raw);
        let ghost start = self@;
        let ghost first = views(points@);
        let ghost events = items_of::<String, u64>(counters@);
        let n: usize = counters.len();
        let mut i: usize = 0;
        while i < n
            invariant
                i <= n == events.len(),
                events == items_of::<String, u64>(counters@),
                views(points@) == first + events_points(start, unit@, events.take(i as int)),
                self@ == after_events(start, unit@, events.take(i as int)),
            decreases n - i,
        {
            assert(events.take(i + 1).drop_last() =~= events.take(i as int));
            let event = counters.key_at(i);
            let value = *counters.value_at(i);
            let metric = if same(event.as_str(), "oom_kill") {
                "system.memory.oom_kills"
            } else {
                "system.memory.cgroup.events"
            };
            let point = self.cgroup_delta(unit, event.as_str(), value, metric, "{event}");
            emit(points, point.with_attribute("cgroup.memory.event", event.as_str()));
            i += 1;
        }
        assert(events.take(i as int) =~= events);
    }

    fn collect_cgroup(
        &mut self,
        unit: &str,
        files: &ServiceFiles,
        points: &mut Vec<MetricPoint<Value>>,
    )
        ensures
            views(final(points)@) == views(old(points)@) + cgroup_points(old(self)@, unit@, *files),
            final(self)@ == after_cgroup(old(self)@, unit@, *files),
    {
        match &files.memory_events {
            Some(raw) => {
                self.collect_events(unit, raw.as_str(), points);
            },
            None => {},
        }
        match &files.memory_stat {
            Some(raw) => {
                let counters = parse_u64_properties(raw.as_str());
                match counters.at("pgscan") {
                    Some(value) => {
                        let point = self.cgroup_delta(
                            unit,
                            "pgscan",
                            *value,
                            "system.memory.reclaim",
                            "{page}",
                        );
                        emit(points, point.with_attribute("cgroup.memory.event", "pgscan"));
                    },
                    None => {},
                }
            },
            None => {},
        }
    }

    fn collect_service(
        &mut self,
        unit: &str,
        files: &ServiceFiles,
        points: &mut Vec<MetricPoint<Value>>,
    )
        ensures
            views(final(points)@) == views(old(points)@) + service_points(
                old(self)@,
                unit@,
                *files,
            ),
            final(self)@ == after_service(old(self)@, unit@, *files),
    {
        match read_properties(&files.properties) {
            Some(values) => {
                emit(points, collect_active(unit, &values));
                emit(points, collect_restarts(unit, &values));
                if group_of(&values).is_some() {
                    self.collect_cgroup(unit, files, points);
                }
            },
            None => {
                emit(
                    points,
                    MetricPoint::unavailable(
                        "spark.service.active",
                        "1",
                        Quality::Error,
                        "systemd",
                        "SYSTEMD_QUERY_FAILED",
                    ).with_attribute("systemd.unit", unit),
                );
            },
        }
    }

    /// Collects the points of the configured services; `files` holds what was
    /// read of each.
    #[must_use]
    pub fn collect(&mut self, configs: &Vec<ServiceConfig>, files: &Vec<ServiceFiles>) -> (r: Vec<
        MetricPoint<Value>,
    >)
        requires
            files@.len() == configs@.len(),
        ensures
            views(r@) == services_points(old(self)@, configs@, files@),
            final(self)@ == after_services(old(self)@, configs@, files@),
    {
        let ghost start = self@;
        let mut points: Vec<MetricPoint<Value>> = no_points();
        let mut i: usize = 0;
        while i < configs.len()
            invariant
                i <= configs@.len() == files@.len(),
                views(points@) == services_points(
                    start,
                    configs@.take(i as int),
                    files@.take(i as int),
                ),
                self@ == after_services(start, configs@.take(i as int), files@.take(i as int)),
            decreases configs@.len() - i,
        {
            assert(configs@.take(i + 1).drop_last() =~= configs@.take(i as int));
            assert(files@.take(i + 1).drop_last() =~= files@.take(i as int));
            self.collect_service(configs[i].name.as_str(), &files[i], &mut points);
            i += 1;
        }
        assert(configs@.take(i as int) =~= configs@);
        assert(files@.take(i as int) =~= files@);
        points
    }
}

} // verus!
