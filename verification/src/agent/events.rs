//! Health events: what is raised when the state of the host changes.

use crate::doubles::{at_least, is_at_least, is_less, less, HALF, ZERO};
use crate::rows::{flat, lemma_flat};
use crate::schema::{
    views, Attributes, Message, MetricPoint, Point, Quality, Severity, Signal,
};
use crate::table::{Duplicate, Table};
use crate::text::{concat, float, is_float, same, texts};
use vstd::prelude::*;

verus! {

/// The contents of a list of signals.
pub open spec fn messages(v: Seq<Signal>) -> Seq<Message> {
    v.map_values(|s: Signal| s@)
}

fn raise(
    events: &mut Vec<Signal>,
    severity: Severity,
    code: &str,
    message: &str,
    attributes: Attributes,
)
    ensures
        messages(final(events)@) == messages(old(events)@).push(
            event(severity, code@, message@, attributes@),
        ),
{
    let ghost before = events@;
    let signal = Signal::HealthEvent {
        severity,
        code: code.to_owned(),
        message: message.to_owned(),
        attributes,
    };
    events.push(signal);
    assert(messages(events@) =~= messages(before).push(signal@));
}

fn no_events() -> (r: Vec<Signal>)
    ensures
        messages(r@) == Seq::<Message>::empty(),
{
    let r: Vec<Signal> = Vec::new();
    assert(messages(r@) =~= seq![]);
    r
}

/// A health event.
pub open spec fn event(
    severity: Severity,
    code: Seq<char>,
    message: Seq<char>,
    attributes: Map<Seq<char>, Seq<char>>,
) -> Message {
    Message::HealthEvent { severity, code, message, attributes }
}

// --------------------------------------------------------------------------
// Conditions of the host
// --------------------------------------------------------------------------

/// A condition that a point is about: how bad it is, from 0 to 2, and what to
/// say when that changes.
pub struct Condition {
    pub key: Seq<char>,
    pub level: u8,
    pub bad_code: Seq<char>,
    pub good_code: Seq<char>,
    pub bad_message: Seq<char>,
    pub good_message: Seq<char>,
}

/// The attribute of a point, or nothing.
pub open spec fn attribute_or_empty(p: Point<u64>, key: Seq<char>) -> Seq<char> {
    if p.attributes.contains_key(key) {
        p.attributes[key]
    } else {
        ""@
    }
}

/// The limit that an attribute gives, where `numbers` holds the numbers that
/// texts write.
pub open spec fn limit_of(p: Point<u64>, key: Seq<char>, numbers: Map<Seq<char>, u64>) -> Option<
    u64,
> {
    if p.attributes.contains_key(key) && numbers.contains_key(p.attributes[key]) {
        Some(numbers[p.attributes[key]])
    } else {
        None
    }
}

/// How bad a temperature is: at its critical limit, at its upper limit, or
/// fine.
pub open spec fn thermal_level(p: Point<u64>, numbers: Map<Seq<char>, u64>) -> u8 {
    let value = p.value->0;
    let critical = limit_of(p, "temperature.limit.critical_celsius"@, numbers);
    let maximum = limit_of(p, "temperature.limit.max_celsius"@, numbers);
    if critical is Some && at_least(value, critical->0) {
        2
    } else if maximum is Some && at_least(value, maximum->0) {
        1
    } else {
        0
    }
}

/// The condition that a point with a value is about.
pub open spec fn condition_of(p: Point<u64>, numbers: Map<Seq<char>, u64>) -> Option<Condition> {
    let value = p.value->0;
    if p.name == "system.network.link.up"@ {
        Some(
            Condition {
                key: "network:"@ + attribute_or_empty(p, "network.interface.name"@),
                level: if less(value, HALF) {
                    1
                } else {
                    0
                },
                bad_code: "NETWORK_CARRIER_LOST"@,
                good_code: "NETWORK_CARRIER_RESTORED"@,
                bad_message: "physical network carrier was lost"@,
                good_message: "physical network carrier was restored"@,
            },
        )
    } else if p.name == "system.filesystem.read_only"@ {
        Some(
            Condition {
                key: "filesystem:"@ + attribute_or_empty(p, "mountpoint"@),
                level: if less(HALF, value) {
                    2
                } else {
                    0
                },
                bad_code: "FILESYSTEM_READ_ONLY"@,
                good_code: "FILESYSTEM_WRITABLE"@,
                bad_message: "filesystem became read-only"@,
                good_message: "filesystem is writable again"@,
            },
        )
    } else if p.name == "system.temperature"@ && p.quality == Quality::Measured {
        let level = thermal_level(p, numbers);
        Some(
            Condition {
                key: "temperature:"@ + attribute_or_empty(p, "sensor"@) + ":"@
                    + attribute_or_empty(p, "channel"@),
                level,
                bad_code: if level == 2 {
                    "THERMAL_CRITICAL"@
                } else {
                    "THERMAL_WARNING"@
                },
                good_code: "THERMAL_RECOVERED"@,
                bad_message: if level == 2 {
                    "temperature reached its critical limit"@
                } else {
                    "temperature reached its maximum limit"@
                },
                good_message: "temperature returned below its configured limits"@,
            },
        )
    } else {
        None
    }
}

/// Kills for lack of memory are events in themselves.
pub open spec fn is_oom_kill(p: Point<u64>) -> bool {
    p.name == "system.memory.oom_kills"@ && less(ZERO, p.value->0)
}

/// The severity of a level.
pub open spec fn severity_of(level: u8) -> Severity {
    if level == 0 {
        Severity::Info
    } else if level == 1 {
        Severity::Warning
    } else {
        Severity::Critical
    }
}

/// A condition is worth an event where its level has changed; one that is
/// first seen fine is not.
pub open spec fn has_changed(states: Map<Seq<char>, u8>, c: Condition) -> bool {
    if states.contains_key(c.key) {
        states[c.key] != c.level
    } else {
        c.level != 0
    }
}

/// The events that a point raises.
pub open spec fn point_events(
    states: Map<Seq<char>, u8>,
    p: Point<u64>,
    numbers: Map<Seq<char>, u64>,
) -> Seq<Message> {
    if p.value is None {
        seq![]
    } else if is_oom_kill(p) {
        seq![
            event(
                Severity::Critical,
                "MEMORY_OOM_KILL"@,
                "one or more OOM kills were observed"@,
                p.attributes,
            ),
        ]
    } else {
        match condition_of(p, numbers) {
            Some(c) => if has_changed(states, c) {
                seq![
                    event(
                        severity_of(c.level),
                        if c.level == 0 {
                            c.good_code
                        } else {
                            c.bad_code
                        },
                        if c.level == 0 {
                            c.good_message
                        } else {
                            c.bad_message
                        },
                        p.attributes,
                    ),
                ]
            } else {
                seq![]
            },
            None => seq![],
        }
    }
}

/// The conditions after a point.
pub open spec fn after_point(
    states: Map<Seq<char>, u8>,
    p: Point<u64>,
    numbers: Map<Seq<char>, u64>,
) -> Map<Seq<char>, u8> {
    if p.value is None || is_oom_kill(p) {
        states
    } else {
        match condition_of(p, numbers) {
            Some(c) => states.insert(c.key, c.level),
            None => states,
        }
    }
}

/// The conditions after some points.
pub open spec fn after_points(
    states: Map<Seq<char>, u8>,
    ps: Seq<Point<u64>>,
    numbers: Map<Seq<char>, u64>,
) -> Map<Seq<char>, u8>
    decreases ps.len(),
{
    if ps.len() == 0 {
        states
    } else {
        after_point(after_points(states, ps.drop_last(), numbers), ps.last(), numbers)
    }
}

/// The events that some points raise.
pub open spec fn system_events(
    states: Map<Seq<char>, u8>,
    ps: Seq<Point<u64>>,
    numbers: Map<Seq<char>, u64>,
) -> Seq<Message>
    decreases ps.len(),
{
    if ps.len() == 0 {
        seq![]
    } else {
        system_events(states, ps.drop_last(), numbers) + point_events(
            after_points(states, ps.drop_last(), numbers),
            ps.last(),
            numbers,
        )
    }
}

/// What a point says of a condition.
struct Transition {
    key: String,
    level: u8,
    bad_code: &'static str,
    good_code: &'static str,
    bad_message: &'static str,
    good_message: &'static str,
}

impl View for Transition {
    type V = Condition;

    closed spec fn view(&self) -> Condition {
        Condition {
            key: self.key@,
            level: self.level,
            bad_code: self.bad_code@,
            good_code: self.good_code@,
            bad_message: self.bad_message@,
            good_message: self.good_message@,
        }
    }
}

fn get_or_empty(point: &MetricPoint<u64>, key: &str) -> (r: String)
    ensures
        r@ == attribute_or_empty(point@, key@),
{
    match point.attributes.at(key) {
        Some(v) => v.clone(),
        None => "".to_owned(),
    }
}

fn get_limit(point: &MetricPoint<u64>, key: &str, numbers: &Table<String, u64>) -> (r: Option<u64>)
    ensures
        r == limit_of(point@, key@, numbers@),
{
    match point.attributes.at(key) {
        Some(text) => match numbers.get(text) {
            Some(bits) => Some(*bits),
            None => None,
        },
        None => None,
    }
}

fn get_thermal_level(point: &MetricPoint<u64>, value: u64, numbers: &Table<String, u64>) -> (r: u8)
    requires
        point@.value == Some(value),
    ensures
        r == thermal_level(point@, numbers@),
{
    match get_limit(point, "temperature.limit.critical_celsius", numbers) {
        Some(limit) => {
            if is_at_least(value, limit) {
                return 2;
            }
        },
        None => {},
    }
    match get_limit(point, "temperature.limit.max_celsius", numbers) {
        Some(limit) => if is_at_least(value, limit) {
            1
        } else {
            0
        },
        None => 0,
    }
}

fn get_condition(point: &MetricPoint<u64>, value: u64, numbers: &Table<String, u64>) -> (r: Option<
    Transition,
>)
    requires
        point@.value == Some(value),
    ensures
        match condition_of(point@, numbers@) {
            Some(c) => r matches Some(t) && t@ == c,
            None => r is None,
        },
{
    let name = point.name.as_str();
    if same(name, "system.network.link.up") {
        let interface = get_or_empty(point, "network.interface.name");
        let level: u8 = if is_less(value, HALF) {
            1
        } else {
            0
        };
        Some(
            Transition {
                key: concat("network:", interface.as_str()),
                level,
                bad_code: "NETWORK_CARRIER_LOST",
                good_code: "NETWORK_CARRIER_RESTORED",
                bad_message: "physical network carrier was lost",
                good_message: "physical network carrier was restored",
            },
        )
    } else if same(name, "system.filesystem.read_only") {
        let mount = get_or_empty(point, "mountpoint");
        let level: u8 = if is_less(HALF, value) {
            2
        } else {
            0
        };
        Some(
            Transition {
                key: concat("filesystem:", mount.as_str()),
                level,
                bad_code: "FILESYSTEM_READ_ONLY",
                good_code: "FILESYSTEM_WRITABLE",
                bad_message: "filesystem became read-only",
                good_message: "filesystem is writable again",
            },
        )
    } else if same(name, "system.temperature") && point.quality == Quality::Measured {
        let level = get_thermal_level(point, value, numbers);
        let key = concat("temperature:", get_or_empty(point, "sensor").as_str());
        let key = concat(key.as_str(), ":");
        let key = concat(key.as_str(), get_or_empty(point, "channel").as_str());
        let bad_code = if level == 2 {
            "THERMAL_CRITICAL"
        } else {
            "THERMAL_WARNING"
        };
        let bad_message = if level == 2 {
            "temperature reached its critical limit"
        } else {
            "temperature reached its maximum limit"
        };
        Some(
            Transition {
                key,
                level,
                bad_code,
                good_code: "THERMAL_RECOVERED",
                bad_message,
                good_message: "temperature returned below its configured limits",
            },
        )
    } else {
        None
    }
}

fn detect_point_events(
    point: &MetricPoint<u64>,
    numbers: &Table<String, u64>,
    states: &mut Table<String, u8>,
    events: &mut Vec<Signal>,
)
    ensures
        messages(final(events)@) == messages(old(events)@) + point_events(
            old(states)@,
            point@,
            numbers@,
        ),
        final(states)@ == after_point(old(states)@, point@, numbers@),
{
    let value = match point.value {
        Some(value) => value,
        None => {
            return;
        },
    };
    if same(point.name.as_str(), "system.memory.oom_kills") && is_less(ZERO, value) {
        raise(
            events,
            Severity::Critical,
            "MEMORY_OOM_KILL",
            "one or more OOM kills were observed",
            point.attributes.duplicate(),
        );
        return;
    }
    let t = match get_condition(point, value, numbers) {
        Some(t) => t,
        None => {
            return;
        },
    };
    let changed = match states.insert(t.key, t.level) {
        Some(previous) => previous != t.level,
        None => t.level != 0,
    };
    if changed {
        let severity = if t.level == 0 {
            Severity::Info
        } else if t.level == 1 {
            Severity::Warning
        } else {
            Severity::Critical
        };
        let (code, message) = if t.level == 0 {
            (t.good_code, t.good_message)
        } else {
            (t.bad_code, t.bad_message)
        };
        raise(events, severity, code, message, point.attributes.duplicate());
    }
}

/// The events that some points raise. `numbers` holds the bits of the numbers
/// that limit texts write; a text that it lacks writes none.
pub fn detect_system_events(
    points: &Vec<MetricPoint<u64>>,
    numbers: &Table<String, u64>,
    states: &mut Table<String, u8>,
) -> (r: Vec<Signal>)
    ensures
        messages(r@) == system_events(old(states)@, views(points@), numbers@),
        final(states)@ == after_points(old(states)@, views(points@), numbers@),
{
    let ghost start = states@;
    let ghost all = views(points@);
    let mut events = no_events();
    let mut i: usize = 0;
    while i < points.len()
        invariant
            i <= points@.len(),
            all == views(points@),
            messages(events@) == system_events(start, all.take(i as int), numbers@),
            states@ == after_points(start, all.take(i as int), numbers@),
        decreases points@.len() - i,
    {
        assert(all.take(i + 1).drop_last() =~= all.take(i as int));
        assert(all.take(i + 1).last() == points@[i as int]@);
        detect_point_events(&points[i], numbers, states, &mut events);
        i += 1;
    }
    assert(all.take(i as int) =~= all);
    events
}

/// The limits of a point, as far as they are numbers.
pub open spec fn limit_texts_of(p: Point<u64>) -> Seq<Seq<char>> {
    limit_text(p, "temperature.limit.critical_celsius"@) + limit_text(
        p,
        "temperature.limit.max_celsius"@,
    )
}

/// A limit of a point, if it is a number.
pub open spec fn limit_text(p: Point<u64>, key: Seq<char>) -> Seq<Seq<char>> {
    if p.attributes.contains_key(key) && is_float(p.attributes[key]) {
        seq![p.attributes[key]]
    } else {
        seq![]
    }
}

pub open spec fn each_limit_text() -> spec_fn(Point<u64>) -> Seq<Seq<char>> {
    |p: Point<u64>| limit_texts_of(p)
}

fn add_limit_text(point: &MetricPoint<u64>, key: &str, list: &mut Vec<String>)
    ensures
        texts(final(list)@) == texts(old(list)@) + limit_text(point@, key@),
{
    let ghost before = list@;
    match point.attributes.at(key) {
        Some(text) => {
            if float(text.as_str()) {
                list.push(text.clone());
                assert(texts(list@) =~= texts(before) + seq![text@]);
            }
        },
        None => {},
    }
}

/// The limits of some points whose numbers decide about events.
pub fn limit_texts(points: &Vec<MetricPoint<u64>>) -> (r: Vec<String>)
    ensures
        texts(r@) == flat(views(points@), each_limit_text()),
{
    let ghost all = views(points@);
    let mut list: Vec<String> = Vec::new();
    let mut i: usize = 0;
    assert(texts(list@) =~= seq![]);
    while i < points.len()
        invariant
            i <= points@.len(),
            all == views(points@),
            texts(list@) == flat(all.take(i as int), each_limit_text()),
        decreases points@.len() - i,
    {
        proof {
            lemma_flat(all, i as int, each_limit_text());
            assert(all[i as int] == points@[i as int]@);
        }
        let ghost before = texts(list@);
        add_limit_text(&points[i], "temperature.limit.critical_celsius", &mut list);
        add_limit_text(&points[i], "temperature.limit.max_celsius", &mut list);
        assert(texts(list@) =~= before + limit_texts_of(all[i as int]));
        i += 1;
    }
    assert(all.take(i as int) =~= all);
    list
}

// --------------------------------------------------------------------------
// GPU errors
// --------------------------------------------------------------------------

/// The event of a point with critical GPU errors.
pub open spec fn xid_event(p: Point<u64>) -> Seq<Message> {
    if p.name == "nvidia.gpu.xid.count"@ && p.value is Some && less(ZERO, p.value->0) {
        seq![
            event(
                Severity::Critical,
                "NVIDIA_XID"@,
                "NVIDIA reported a critical Xid event"@,
                p.attributes,
            ),
        ]
    } else {
        seq![]
    }
}

pub open spec fn each_xid_event() -> spec_fn(Point<u64>) -> Seq<Message> {
    |p: Point<u64>| xid_event(p)
}

/// The events of points with critical GPU errors.
pub fn xid_events(points: &Vec<MetricPoint<u64>>) -> (r: Vec<Signal>)
    ensures
        messages(r@) == flat(views(points@), each_xid_event()),
{
    let ghost all = views(points@);
    let mut events = no_events();
    let mut i: usize = 0;
    while i < points.len()
        invariant
            i <= points@.len(),
            all == views(points@),
            messages(events@) == flat(all.take(i as int), each_xid_event()),
        decreases points@.len() - i,
    {
        proof {
            lemma_flat(all, i as int, each_xid_event());
            assert(all[i as int] == points@[i as int]@);
        }
        let point = &points[i];
        match point.value {
            Some(value) => {
                if same(point.name.as_str(), "nvidia.gpu.xid.count") && is_less(ZERO, value) {
                    raise(
                        &mut events,
                        Severity::Critical,
                        "NVIDIA_XID",
                        "NVIDIA reported a critical Xid event",
                        point.attributes.duplicate(),
                    );
                }
            },
            None => {},
        }
        i += 1;
    }
    assert(all.take(i as int) =~= all);
    events
}

// --------------------------------------------------------------------------
// Services
// --------------------------------------------------------------------------

/// The service that a point is about, and whether it is active.
pub open spec fn service_state(p: Point<u64>) -> Option<(Seq<char>, bool)> {
    if p.name == "spark.service.active"@ && p.value is Some && p.attributes.contains_key(
        "systemd.unit"@,
    ) {
        Some((p.attributes["systemd.unit"@], less(HALF, p.value->0)))
    } else {
        None
    }
}

/// The event of a service that became active or inactive.
pub open spec fn service_event(states: Map<Seq<char>, bool>, p: Point<u64>) -> Seq<Message> {
    match service_state(p) {
        Some((unit, active)) => if states.contains_key(unit) && states[unit] != active {
            seq![
                event(
                    if active {
                        Severity::Info
                    } else {
                        Severity::Error
                    },
                    "SERVICE_STATE_CHANGED"@,
                    if active {
                        "configured service became active"@
                    } else {
                        "configured service became inactive"@
                    },
                    Map::empty().insert("systemd.unit"@, unit),
                ),
            ]
        } else {
            seq![]
        },
        None => seq![],
    }
}

/// The states of the services after a point.
pub open spec fn after_service_point(states: Map<Seq<char>, bool>, p: Point<u64>) -> Map<
    Seq<char>,
    bool,
> {
    match service_state(p) {
        Some((unit, active)) => states.insert(unit, active),
        None => states,
    }
}

pub open spec fn after_service_points(states: Map<Seq<char>, bool>, ps: Seq<Point<u64>>) -> Map<
    Seq<char>,
    bool,
>
    decreases ps.len(),
{
    if ps.len() == 0 {
        states
    } else {
        after_service_point(after_service_points(states, ps.drop_last()), ps.last())
    }
}

/// The events of services that became active or inactive.
pub open spec fn service_events_of(states: Map<Seq<char>, bool>, ps: Seq<Point<u64>>) -> Seq<Message>
    decreases ps.len(),
{
    if ps.len() == 0 {
        seq![]
    } else {
        service_events_of(states, ps.drop_last()) + service_event(
            after_service_points(states, ps.drop_last()),
            ps.last(),
        )
    }
}

fn service_point_event(
    point: &MetricPoint<u64>,
    states: &mut Table<String, bool>,
    events: &mut Vec<Signal>,
)
    ensures
        messages(final(events)@) == messages(old(events)@) + service_event(old(states)@, point@),
        final(states)@ == after_service_point(old(states)@, point@),
{
    if !same(point.name.as_str(), "spark.service.active") {
        return;
    }
    let value = match point.value {
        Some(value) => value,
        None => {
            return;
        },
    };
    let unit = match point.attributes.at("systemd.unit") {
        Some(unit) => unit,
        None => {
            return;
        },
    };
    let active = is_less(HALF, value);
    let changed = match states.insert(unit.clone(), active) {
        Some(previous) => previous != active,
        None => false,
    };
    if changed {
        let mut attributes: Attributes = Table::new();
        attributes.insert("systemd.unit".to_owned(), unit.clone());
        let (severity, message) = if active {
            (Severity::Info, "configured service became active")
        } else {
            (Severity::Error, "configured service became inactive")
        };
        raise(events, severity, "SERVICE_STATE_CHANGED", message, attributes);
    }
}

/// The events of services that became active or inactive.
pub fn service_events(points: &Vec<MetricPoint<u64>>, states: &mut Table<String, bool>) -> (r: Vec<
    Signal,
>)
    ensures
        messages(r@) == service_events_of(old(states)@, views(points@)),
        final(states)@ == after_service_points(old(states)@, views(points@)),
{
    let ghost start = states@;
    let ghost all = views(points@);
    let mut events = no_events();
    let mut i: usize = 0;
    while i < points.len()
        invariant
            i <= points@.len(),
            all == views(points@),
            messages(events@) == service_events_of(start, all.take(i as int)),
            states@ == after_service_points(start, all.take(i as int)),
        decreases points@.len() - i,
    {
        assert(all.take(i + 1).drop_last() =~= all.take(i as int));
        assert(all.take(i + 1).last() == points@[i as int]@);
        service_point_event(&points[i], states, &mut events);
        i += 1;
    }
    assert(all.take(i as int) =~= all);
    events
}

// --------------------------------------------------------------------------
// Collectors and connection
// --------------------------------------------------------------------------

/// The number of points that report an error.
pub open spec fn errors_in(ps: Seq<Point<u64>>) -> nat
    decreases ps.len(),
{
    if ps.len() == 0 {
        0
    } else {
        errors_in(ps.drop_last()) + (if ps.last().quality == Quality::Error {
            1nat
        } else {
            0nat
        })
    }
}

/// The number of points that report an error.
pub fn error_count(points: &Vec<MetricPoint<u64>>) -> (r: u64)
    ensures
        r == errors_in(views(points@)),
{
    let ghost all = views(points@);
    let n: usize = points.len();
    let mut count: u64 = 0;
    let mut i: usize = 0;
    while i < n
        invariant
            i <= n == points@.len(),
            all == views(points@),
            count <= i,
            count == errors_in(all.take(i as int)),
        decreases n - i,
    {
        assert(all.take(i + 1).drop_last() =~= all.take(i as int));
        assert(all.take(i + 1).last() == points@[i as int]@);
        if points[i].quality == Quality::Error {
            count += 1;
        }
        i += 1;
    }
    assert(all.take(i as int) =~= all);
    count
}

/// What has been reported of the collectors and of the connection.
#[derive(Debug, Clone, Copy, PartialEq, Eq, Structural)]
pub struct Reported {
    pub had_errors: bool,
    pub reconnects: u64,
    pub dropped: u64,
}

/// The event of collectors that began or ceased to report errors.
pub open spec fn collector_event(r: Reported, has_errors: bool) -> Seq<Message> {
    if has_errors == r.had_errors {
        seq![]
    } else if has_errors {
        seq![
            event(
                Severity::Warning,
                "COLLECTOR_DEGRADED"@,
                "one or more collectors reported errors"@,
                Map::empty(),
            ),
        ]
    } else {
        seq![
            event(
                Severity::Info,
                "COLLECTOR_RECOVERED"@,
                "collectors recovered"@,
                Map::empty(),
            ),
        ]
    }
}

/// The events of a restored connection: one of the reconnection, and one of
/// the events that were dropped since.
pub open spec fn connection_events_of(r: Reported, reconnects: u64, dropped: u64) -> Seq<Message> {
    let restored = event(
        Severity::Info,
        "NATS_RECONNECTED"@,
        "NATS connection was restored"@,
        Map::empty(),
    );
    if reconnects <= r.reconnects {
        seq![]
    } else if dropped <= r.dropped {
        seq![restored]
    } else {
        seq![
            restored,
            event(
                Severity::Warning,
                "EVENTS_DROPPED"@,
                "health events were dropped while the publication queue was full"@,
                Map::empty(),
            ),
        ]
    }
}

/// What is reported after looking at the connection.
pub open spec fn after_connection(r: Reported, reconnects: u64, dropped: u64) -> Reported {
    if reconnects <= r.reconnects {
        r
    } else {
        Reported {
            reconnects,
            dropped: if dropped > r.dropped {
                dropped
            } else {
                r.dropped
            },
            ..r
        }
    }
}

impl Reported {
    /// The event of collectors that began or ceased to report errors.
    pub fn collectors(&mut self, has_errors: bool) -> (r: Vec<Signal>)
        ensures
            messages(r@) == collector_event(*old(self), has_errors),
            *final(self) == (Reported { had_errors: has_errors, ..*old(self) }),
    {
        let mut events = no_events();
        if has_errors != self.had_errors {
            self.had_errors = has_errors;
            let nothing: Attributes = Table::new();
            if has_errors {
                raise(
                    &mut events,
                    Severity::Warning,
                    "COLLECTOR_DEGRADED",
                    "one or more collectors reported errors",
                    nothing,
                );
            } else {
                raise(
                    &mut events,
                    Severity::Info,
                    "COLLECTOR_RECOVERED",
                    "collectors recovered",
                    nothing,
                );
            }
        }
        events
    }

    /// The events of a restored connection.
    pub fn connection(&mut self, reconnects: u64, dropped: u64) -> (r: Vec<Signal>)
        ensures
            messages(r@) == connection_events_of(*old(self), reconnects, dropped),
            *final(self) == after_connection(*old(self), reconnects, dropped),
    {
        let mut events = no_events();
        if reconnects > self.reconnects {
            self.reconnects = reconnects;
            raise(
                &mut events,
                Severity::Info,
                "NATS_RECONNECTED",
                "NATS connection was restored",
                Table::new(),
            );
            if dropped > self.dropped {
                self.dropped = dropped;
                raise(
                    &mut events,
                    Severity::Warning,
                    "EVENTS_DROPPED",
                    "health events were dropped while the publication queue was full",
                    Table::new(),
                );
            }
        }
        events
    }
}

// --------------------------------------------------------------------------
// Laws
// --------------------------------------------------------------------------

/// A condition that stays at its level raises nothing more, and one that
/// changes raises exactly one event; one that is first seen raises one unless
/// it is fine.
pub proof fn law_conditions_raise_events_on_change(
    states: Map<Seq<char>, u8>,
    p: Point<u64>,
    q: Point<u64>,
    numbers: Map<Seq<char>, u64>,
)
    requires
        p.value is Some,
        q.value is Some,
        condition_of(p, numbers) is Some,
        condition_of(q, numbers) is Some,
        condition_of(p, numbers)->0.key == condition_of(q, numbers)->0.key,
        !is_oom_kill(p),
        !is_oom_kill(q),
    ensures
        !states.contains_key(condition_of(p, numbers)->0.key) ==> point_events(
            states,
            p,
            numbers,
        ).len() == (if condition_of(p, numbers)->0.level == 0 {
            0int
        } else {
            1int
        }),
        point_events(after_point(states, p, numbers), q, numbers).len() == (if condition_of(
            p,
            numbers,
        )->0.level == condition_of(q, numbers)->0.level {
            0int
        } else {
            1int
        }),
{
}

/// A service raises an event exactly when its state differs from the one
/// before; the first observation raises none.
pub proof fn law_services_raise_events_on_change(
    states: Map<Seq<char>, bool>,
    p: Point<u64>,
    q: Point<u64>,
)
    requires
        service_state(p) matches Some((u, _)) && service_state(q) matches Some((v, _)) && u == v,
    ensures
        service_state(p) matches Some((u, _)) && !states.contains_key(u) ==> service_event(
            states,
            p,
        ).len() == 0,
        service_event(after_service_point(states, p), q).len() == (if service_state(p)
            == service_state(q) {
            0int
        } else {
            1int
        }),
{
}

} // verus!
