//! Envelopes and the points that the agent adds of itself.

use crate::arith::{add_up, minus, plus, subtract};
use crate::schema::{
    all_sound, emit, gauge_of, no_points, sound, views, Envelope, Letter, Message, MetricPoint,
    Node, Number, Origin, Point, Quality, Signal, Value, SCHEMA_V1,
};
use crate::table::{Duplicate, Table};
use vstd::prelude::*;

verus! {

/// The first millisecond of the calendar, since the Unix epoch.
pub const FIRST_MILLISECOND: i64 = -8_334_601_228_800_000;

/// The last millisecond of the calendar, since the Unix epoch.
pub const LAST_MILLISECOND: i64 = 8_210_266_876_799_999;

/// A number of milliseconds since the Unix epoch as an RFC 3339 time in UTC.
pub uninterp spec fn rfc3339_text(unix_millis: i64) -> Seq<char>;

/// `chrono::DateTime::to_rfc3339_opts` with milliseconds and `Z`, of the time
/// that `chrono::DateTime::from_timestamp_millis` gives. The text depends on
/// the number alone.
#[verifier::external_body]
fn write_rfc3339(unix_millis: i64) -> (r: String)
    requires
        FIRST_MILLISECOND <= unix_millis <= LAST_MILLISECOND,
    ensures
        r@ == rfc3339_text(unix_millis),
{
    chrono::DateTime::from_timestamp_millis(unix_millis)
        .map(|time| time.to_rfc3339_opts(chrono::SecondsFormat::Millis, true))
        .unwrap_or_default()
}

/// What the clocks show.
#[derive(Debug, Clone, Copy, PartialEq, Eq, Structural)]
pub struct Clock {
    /// Milliseconds since the Unix epoch.
    pub unix_millis: i64,
    /// Nanoseconds since the process started.
    pub elapsed_ns: u128,
}

/// `n`, or the largest number in range.
pub open spec fn saturated(n: u128) -> u64 {
    if n <= u64::MAX {
        n as u64
    } else {
        u64::MAX
    }
}

pub fn saturate(n: u128) -> (r: u64)
    ensures
        r == saturated(n),
{
    if n <= u64::MAX as u128 {
        n as u64
    } else {
        u64::MAX
    }
}

/// Wraps signals of a node in numbered envelopes.
pub struct EnvelopeFactory {
    pub node: Node,
    pub boot_id: String,
    pub sequence: u64,
}

/// The envelope that a factory makes of a signal.
pub open spec fn letter_of(
    node: Origin,
    boot_id: Seq<char>,
    sequence: u64,
    signal: Message,
    duration_ms: u128,
    valid_for_ms: u128,
    clock: Clock,
) -> Letter {
    Letter {
        schema: SCHEMA_V1@,
        node,
        boot_id,
        sequence: plus(sequence, 1),
        observed_at: rfc3339_text(clock.unix_millis),
        monotonic_ns: saturated(clock.elapsed_ns),
        collection_duration_ms: saturated(duration_ms),
        valid_for_ms: saturated(valid_for_ms),
        signal,
    }
}

impl EnvelopeFactory {
    /// Wraps a signal in the next envelope.
    pub fn build(&mut self, signal: Signal, duration_ms: u128, valid_for_ms: u128, clock: &Clock) -> (r:
        Envelope)
        requires
            FIRST_MILLISECOND <= clock.unix_millis <= LAST_MILLISECOND,
        ensures
            r@ == letter_of(
                old(self).node@,
                old(self).boot_id@,
                old(self).sequence,
                signal@,
                duration_ms,
                valid_for_ms,
                *clock,
            ),
            final(self).sequence == plus(old(self).sequence, 1),
            final(self).node == old(self).node,
            final(self).boot_id == old(self).boot_id,
    {
        self.sequence = add_up(self.sequence, 1);
        Envelope {
            schema: SCHEMA_V1.to_owned(),
            node: self.node.duplicate(),
            boot_id: self.boot_id.clone(),
            sequence: self.sequence,
            observed_at: write_rfc3339(clock.unix_millis),
            monotonic_ns: saturate(clock.elapsed_ns),
            collection_duration_ms: saturate(duration_ms),
            valid_for_ms: saturate(valid_for_ms),
            signal,
        }
    }
}

/// Envelopes of one factory are numbered upwards without gaps, until the
/// numbers run out, and each carries its signal as it is.
pub proof fn law_sequence_counts_up(
    node: Origin,
    boot_id: Seq<char>,
    sequence: u64,
    signal: Message,
    duration_ms: u128,
    valid_for_ms: u128,
    clock: Clock,
)
    ensures
        ({
            let letter = letter_of(
                node,
                boot_id,
                sequence,
                signal,
                duration_ms,
                valid_for_ms,
                clock,
            );
            &&& sequence < u64::MAX ==> letter.sequence == sequence + 1
            &&& sequence == u64::MAX ==> letter.sequence == u64::MAX
            &&& letter.signal == signal
            &&& letter.node == node
            &&& letter.schema == SCHEMA_V1@
        }),
{
}

// --------------------------------------------------------------------------
// Ages
// --------------------------------------------------------------------------

/// Remembers when each collector last had a value.
pub struct CollectorAges {
    started: u64,
    last_success: Table<String, u64>,
}

/// The content of [`CollectorAges`].
#[verifier::ext_equal]
pub struct Ages {
    pub started: u64,
    pub last_success: Map<Seq<char>, u64>,
}

impl View for CollectorAges {
    type V = Ages;

    closed spec fn view(&self) -> Ages {
        Ages { started: self.started, last_success: self.last_success@ }
    }
}

/// A point with a value of good quality.
pub open spec fn is_success(p: Point<u64>) -> bool {
    p.value is Some && (p.quality == Quality::Measured || p.quality == Quality::Derived
        || p.quality == Quality::Estimated)
}

/// Some point has a value of good quality.
pub open spec fn has_success(points: Seq<Point<u64>>) -> bool {
    exists|i: int| 0 <= i < points.len() && is_success(#[trigger] points[i])
}

/// The ages after a collection.
pub open spec fn after_observation(
    a: Ages,
    domain: Seq<char>,
    points: Seq<Point<u64>>,
    now: u64,
) -> Ages {
    if has_success(points) {
        Ages { last_success: a.last_success.insert(domain, now), ..a }
    } else {
        a
    }
}

/// How long ago a collector last had a value, or the start.
pub open spec fn age_of(a: Ages, domain: Seq<char>, now: u64) -> u64 {
    minus(
        now,
        if a.last_success.contains_key(domain) {
            a.last_success[domain]
        } else {
            a.started
        },
    )
}

/// The age of a collector after a collection.
pub open spec fn age_point(
    a: Ages,
    domain: Seq<char>,
    points: Seq<Point<u64>>,
    now: u64,
) -> Point<Number> {
    gauge_of(
        "spark.agent.collector.age"@,
        Number::Seconds(age_of(after_observation(a, domain, points, now), domain, now)),
        "s"@,
        Quality::Derived,
        "agent"@,
    ).with("collector.domain"@, domain)
}

fn any_success(points: &Vec<MetricPoint<u64>>) -> (r: bool)
    ensures
        r == has_success(views(points@)),
{
    let ghost all = views(points@);
    let mut i: usize = 0;
    while i < points.len()
        invariant
            i <= points@.len(),
            all == views(points@),
            forall|j: int| 0 <= j < i ==> !is_success(#[trigger] all[j]),
        decreases points@.len() - i,
    {
        assert(all[i as int] == points@[i as int]@);
        let q = points[i].quality;
        if points[i].value.is_some() && (q == Quality::Measured || q == Quality::Derived || q
            == Quality::Estimated) {
            return true;
        }
        i += 1;
    }
    false
}

impl CollectorAges {
    /// No collector has had a value; `now` is in nanoseconds since some fixed
    /// instant.
    pub fn new(now: u64) -> (r: Self)
        ensures
            r@ == (Ages { started: now, last_success: Map::empty() }),
    {
        CollectorAges { started: now, last_success: Table::new() }
    }

    /// The age of a collector after it gave some points.
    pub fn observe(&mut self, domain: &str, points: &Vec<MetricPoint<u64>>, now: u64) -> (r:
        MetricPoint<Value>)
        ensures
            r@ == age_point(old(self)@, domain@, views(points@), now),
            final(self)@ == after_observation(old(self)@, domain@, views(points@), now),
    {
        if any_success(points) {
            self.last_success.insert(domain.to_owned(), now);
        }
        let since = match self.last_success.at(domain) {
            Some(last) => *last,
            None => self.started,
        };
        MetricPoint::gauge(
            "spark.agent.collector.age",
            Value::Seconds(subtract(now, since)),
            "s",
            Quality::Derived,
            "agent",
        ).with_attribute("collector.domain", domain)
    }
}

// --------------------------------------------------------------------------
// The agent itself
// --------------------------------------------------------------------------

/// The points that the agent reports of itself.
pub open spec fn agent_points_of(duration_ns: u64, errors: u64, reconnects: u64, dropped: u64) -> Seq<
    Point<Number>,
> {
    seq![
        gauge_of(
            "spark.agent.collection.duration"@,
            Number::Seconds(duration_ns),
            "s"@,
            Quality::Measured,
            "agent"@,
        ),
        gauge_of(
            "spark.agent.collection.errors"@,
            Number::Count(errors),
            "{error}"@,
            Quality::Measured,
            "agent"@,
        ),
        gauge_of(
            "spark.agent.nats.reconnects"@,
            Number::Count(reconnects),
            "{reconnect}"@,
            Quality::Measured,
            "agent"@,
        ),
        gauge_of(
            "spark.agent.events.dropped"@,
            Number::Count(dropped),
            "{event}"@,
            Quality::Measured,
            "agent"@,
        ),
    ]
}

/// The points that the agent reports of itself.
pub fn agent_points(duration_ns: u64, errors: u64, reconnects: u64, dropped: u64) -> (r: Vec<
    MetricPoint<Value>,
>)
    ensures
        views(r@) == agent_points_of(duration_ns, errors, reconnects, dropped),
{
    let mut points: Vec<MetricPoint<Value>> = no_points();
    emit(
        &mut points,
        MetricPoint::gauge(
            "spark.agent.collection.duration",
            Value::Seconds(duration_ns),
            "s",
            Quality::Measured,
            "agent",
        ),
    );
    emit(
        &mut points,
        MetricPoint::gauge(
            "spark.agent.collection.errors",
            Value::Count(errors),
            "{error}",
            Quality::Measured,
            "agent",
        ),
    );
    emit(
        &mut points,
        MetricPoint::gauge(
            "spark.agent.nats.reconnects",
            Value::Count(reconnects),
            "{reconnect}",
            Quality::Measured,
            "agent",
        ),
    );
    emit(
        &mut points,
        MetricPoint::gauge(
            "spark.agent.events.dropped",
            Value::Count(dropped),
            "{event}",
            Quality::Measured,
            "agent",
        ),
    );
    points
}

/// Every point of the agent itself names a metric and attributes of the
/// catalogue.
pub proof fn law_agent_points_are_sound(
    duration_ns: u64,
    errors: u64,
    reconnects: u64,
    dropped: u64,
    a: Ages,
    domain: Seq<char>,
    points: Seq<Point<u64>>,
    now: u64,
)
    ensures
        all_sound(agent_points_of(duration_ns, errors, reconnects, dropped)),
        sound(age_point(a, domain, points, now)),
{
}

} // verus!
