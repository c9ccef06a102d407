//! Signal envelopes of schema v1: metric points, their quality, and the
//! checks that a received envelope has to pass.

use crate::catalogue::{attribute_name_allowed, is_attribute, is_metric, metric_name_allowed};
use crate::rows::{flat, lemma_flat_all};
use crate::table::{items_of, lemma_lists, lists, Duplicate, Table};
use crate::text::{byte_len, length_in_bytes, optional, same};
use vstd::prelude::*;

verus! {

/// The largest payload that a consumer decodes.
pub const MAX_SIGNAL_BYTES: usize = 65536;

/// The most attributes of one metric point or health event.
pub const MAX_ATTRIBUTES_PER_SIGNAL_ITEM: usize = 24;

/// The longest attribute value, in bytes.
pub const MAX_ATTRIBUTE_VALUE_BYTES: usize = 256;

/// The schema that every v1 envelope names.
pub const SCHEMA_V1: &'static str = "spark.signal/v1";

/// Attributes by name.
pub type Attributes = Table<String, String>;

/// How a metric value came about, or why there is none.
#[derive(Debug, Clone, Copy, PartialEq, Eq, Structural)]
pub enum Quality {
    Measured,
    Derived,
    Estimated,
    Unsupported,
    Error,
    Stale,
}

/// The instrument that a point belongs to.
#[derive(Debug, Clone, Copy, PartialEq, Eq, Structural)]
pub enum InstrumentKind {
    Gauge,
    CounterDelta,
    HistogramObservation,
}

/// The severity of a health event.
#[derive(Debug, Clone, Copy, PartialEq, Eq, Structural)]
pub enum Severity {
    Info,
    Warning,
    Error,
    Critical,
}

// --------------------------------------------------------------------------
// Values
// --------------------------------------------------------------------------

/// A collected value: the exact inputs from which the reported
/// double-precision number is computed.
pub enum Value {
    /// A whole number.
    Count(u64),
    /// A small signed level.
    Level(i8),
    /// One count divided by another.
    Ratio { part: u64, whole: u64 },
    /// A time span in nanoseconds, reported in seconds.
    Seconds(u64),
    /// The number that a text writes.
    Text(String),
    /// A number given by its bits.
    Bits(u64),
    /// A number, given by its bits, times a factor.
    Times { bits: u64, factor: u64 },
    /// A number, given by its bits, divided by a divisor.
    Per { bits: u64, divisor: u64 },
    /// The difference of two numbers given by their bits.
    Change { now: u64, earlier: u64 },
    /// Such a difference per second over a time span in nanoseconds.
    Rate { now: u64, earlier: u64, nanos: u64 },
}

/// What a [`Value`] is computed from.
pub enum Number {
    Count(u64),
    Level(i8),
    Ratio { part: u64, whole: u64 },
    Seconds(u64),
    Text(Seq<char>),
    Bits(u64),
    Times { bits: u64, factor: u64 },
    Per { bits: u64, divisor: u64 },
    Change { now: u64, earlier: u64 },
    Rate { now: u64, earlier: u64, nanos: u64 },
}

impl View for Value {
    type V = Number;

    open spec fn view(&self) -> Number {
        match *self {
            Value::Count(n) => Number::Count(n),
            Value::Level(n) => Number::Level(n),
            Value::Ratio { part, whole } => Number::Ratio { part, whole },
            Value::Seconds(n) => Number::Seconds(n),
            Value::Text(s) => Number::Text(s@),
            Value::Bits(b) => Number::Bits(b),
            Value::Times { bits, factor } => Number::Times { bits, factor },
            Value::Per { bits, divisor } => Number::Per { bits, divisor },
            Value::Change { now, earlier } => Number::Change { now, earlier },
            Value::Rate { now, earlier, nanos } => Number::Rate { now, earlier, nanos },
        }
    }
}

impl Duplicate for Value {
    fn duplicate(&self) -> (r: Self) {
        match self {
            Value::Count(n) => Value::Count(*n),
            Value::Level(n) => Value::Level(*n),
            Value::Ratio { part, whole } => Value::Ratio { part: *part, whole: *whole },
            Value::Seconds(n) => Value::Seconds(*n),
            Value::Text(s) => Value::Text(s.clone()),
            Value::Bits(b) => Value::Bits(*b),
            Value::Times { bits, factor } => Value::Times { bits: *bits, factor: *factor },
            Value::Per { bits, divisor } => Value::Per { bits: *bits, divisor: *divisor },
            Value::Change { now, earlier } => Value::Change { now: *now, earlier: *earlier },
            Value::Rate { now, earlier, nanos } => Value::Rate {
                now: *now,
                earlier: *earlier,
                nanos: *nanos,
            },
        }
    }
}

// --------------------------------------------------------------------------
// Metric points
// --------------------------------------------------------------------------

/// One observation of a metric. Collectors produce points over [`Value`];
/// points in an envelope carry the bits of the reported number.
pub struct MetricPoint<V> {
    pub name: String,
    pub instrument: InstrumentKind,
    /// Absent where there is no measurement.
    pub value: Option<V>,
    pub unit: String,
    pub quality: Quality,
    pub source: String,
    pub attributes: Attributes,
    pub error_code: Option<String>,
}

/// The content of a [`MetricPoint`].
#[verifier::ext_equal]
pub struct Point<W> {
    pub name: Seq<char>,
    pub instrument: InstrumentKind,
    pub value: Option<W>,
    pub unit: Seq<char>,
    pub quality: Quality,
    pub source: Seq<char>,
    pub attributes: Map<Seq<char>, Seq<char>>,
    pub error_code: Option<Seq<char>>,
}

/// The view of an optional value.
pub open spec fn optional_view<V: View>(v: Option<V>) -> Option<V::V> {
    match v {
        Some(x) => Some(x@),
        None => None,
    }
}

impl<V: View> View for MetricPoint<V> {
    type V = Point<V::V>;

    open spec fn view(&self) -> Point<V::V> {
        Point {
            name: self.name@,
            instrument: self.instrument,
            value: optional_view(self.value),
            unit: self.unit@,
            quality: self.quality,
            source: self.source@,
            attributes: self.attributes@,
            error_code: optional(self.error_code),
        }
    }
}

impl<W> Point<W> {
    /// The point with one more attribute, or another value for it.
    pub open spec fn with(self, key: Seq<char>, value: Seq<char>) -> Point<W> {
        Point { attributes: self.attributes.insert(key, value), ..self }
    }
}

/// A gauge with a value and no attributes.
pub open spec fn gauge_of<W>(
    name: Seq<char>,
    value: W,
    unit: Seq<char>,
    quality: Quality,
    source: Seq<char>,
) -> Point<W> {
    Point {
        name,
        instrument: InstrumentKind::Gauge,
        value: Some(value),
        unit,
        quality,
        source,
        attributes: Map::empty(),
        error_code: None,
    }
}

/// A counter delta, which is always derived.
pub open spec fn delta_of<W>(
    name: Seq<char>,
    value: W,
    unit: Seq<char>,
    source: Seq<char>,
) -> Point<W> {
    Point {
        instrument: InstrumentKind::CounterDelta,
        ..gauge_of(name, value, unit, Quality::Derived, source)
    }
}

/// A gauge without a value and with the reason for that.
pub open spec fn unavailable_of<W>(
    name: Seq<char>,
    unit: Seq<char>,
    quality: Quality,
    source: Seq<char>,
    code: Seq<char>,
) -> Point<W> {
    Point {
        name,
        instrument: InstrumentKind::Gauge,
        value: None,
        unit,
        quality,
        source,
        attributes: Map::empty(),
        error_code: Some(code),
    }
}

/// A point of the metric `name` that has a value exactly where one is known.
pub open spec fn valued_where<W>(p: Point<W>, name: Seq<char>, known: bool) -> bool {
    p.name == name && (p.value is Some) == known
}

/// A point with another value in place of its own.
pub open spec fn valued<W, X>(p: Point<W>, value: Option<X>) -> Point<X> {
    Point {
        name: p.name,
        instrument: p.instrument,
        value,
        unit: p.unit,
        quality: p.quality,
        source: p.source,
        attributes: p.attributes,
        error_code: p.error_code,
    }
}

impl<V: View> MetricPoint<V> {
    /// Creates a v1 catalogue gauge.
    #[must_use]
    pub fn gauge(name: &str, value: V, unit: &str, quality: Quality, source: &str) -> (r: Self)
        requires
            is_metric(name@),
        ensures
            r@ == gauge_of(name@, value@, unit@, quality, source@),
    {
        MetricPoint {
            name: name.to_owned(),
            instrument: InstrumentKind::Gauge,
            value: Some(value),
            unit: unit.to_owned(),
            quality,
            source: source.to_owned(),
            attributes: Table::new(),
            error_code: None,
        }
    }

    /// Creates a derived counter delta from the v1 catalogue.
    #[must_use]
    pub fn counter_delta(name: &str, value: V, unit: &str, source: &str) -> (r: Self)
        requires
            is_metric(name@),
        ensures
            r@ == delta_of(name@, value@, unit@, source@),
    {
        let mut point = Self::gauge(name, value, unit, Quality::Derived, source);
        point.instrument = InstrumentKind::CounterDelta;
        point
    }

    /// Adds an attribute, or replaces its value.
    #[must_use]
    pub fn with_attribute(self, key: &str, value: &str) -> (r: Self)
        ensures
            r@ == self@.with(key@, value@),
    {
        let mut point = self;
        point.attributes.insert(key.to_owned(), value.to_owned());
        point
    }

    /// Creates an unavailable v1 catalogue gauge without a value.
    #[must_use]
    pub fn unavailable(name: &str, unit: &str, quality: Quality, source: &str, code: &str) -> (r:
        Self)
        requires
            is_metric(name@),
        ensures
            r@ == unavailable_of::<V::V>(name@, unit@, quality, source@, code@),
    {
        MetricPoint {
            name: name.to_owned(),
            instrument: InstrumentKind::Gauge,
            value: None,
            unit: unit.to_owned(),
            quality,
            source: source.to_owned(),
            attributes: Table::new(),
            error_code: Some(code.to_owned()),
        }
    }

    /// The same point with another value.
    pub fn with_value<X: View>(self, value: Option<X>) -> (r: MetricPoint<X>)
        ensures
            r@ == valued(self@, optional_view(value)),
    {
        MetricPoint {
            name: self.name,
            instrument: self.instrument,
            value,
            unit: self.unit,
            quality: self.quality,
            source: self.source,
            attributes: self.attributes,
            error_code: self.error_code,
        }
    }
}

fn duplicate_optional(s: &Option<String>) -> (r: Option<String>)
    ensures
        optional(r) == optional(*s),
{
    match s {
        Some(x) => Some(x.clone()),
        None => None,
    }
}

impl<V: Duplicate> Duplicate for MetricPoint<V> {
    fn duplicate(&self) -> (r: Self) {
        MetricPoint {
            name: self.name.clone(),
            instrument: self.instrument,
            value: match &self.value {
                Some(v) => Some(v.duplicate()),
                None => None,
            },
            unit: self.unit.clone(),
            quality: self.quality,
            source: self.source.clone(),
            attributes: self.attributes.duplicate(),
            error_code: duplicate_optional(&self.error_code),
        }
    }
}

/// A point as the collectors make them: its metric and its attributes are of
/// the catalogue, and it has a value unless it says why there is none.
pub open spec fn sound<W>(p: Point<W>) -> bool {
    &&& is_metric(p.name)
    &&& forall|k: Seq<char>| #[trigger] p.attributes.contains_key(k) ==> is_attribute(k)
    &&& match p.quality {
        Quality::Measured | Quality::Derived | Quality::Estimated => p.value is Some
            && p.error_code is None,
        Quality::Unsupported | Quality::Error | Quality::Stale => p.value is None
            && p.error_code is Some,
    }
}

/// All points of a list are sound.
pub open spec fn all_sound<W>(points: Seq<Point<W>>) -> bool {
    forall|i: int| 0 <= i < points.len() ==> sound(#[trigger] points[i])
}

/// A gauge of good quality is sound.
pub proof fn lemma_gauge_sound<W>(
    name: Seq<char>,
    value: W,
    unit: Seq<char>,
    quality: Quality,
    source: Seq<char>,
)
    requires
        is_metric(name),
        quality == Quality::Measured || quality == Quality::Derived || quality
            == Quality::Estimated,
    ensures
        sound(gauge_of(name, value, unit, quality, source)),
{
}

/// A counter delta is sound.
pub proof fn lemma_delta_sound<W>(name: Seq<char>, value: W, unit: Seq<char>, source: Seq<char>)
    requires
        is_metric(name),
    ensures
        sound(delta_of(name, value, unit, source)),
{
}

/// A point without a value is sound where its quality says so.
pub proof fn lemma_unavailable_sound<W>(
    name: Seq<char>,
    unit: Seq<char>,
    quality: Quality,
    source: Seq<char>,
    code: Seq<char>,
)
    requires
        is_metric(name),
        quality == Quality::Unsupported || quality == Quality::Error || quality == Quality::Stale,
    ensures
        sound(unavailable_of::<W>(name, unit, quality, source, code)),
{
}

/// A point stays sound with an attribute of the catalogue.
pub proof fn lemma_with_sound<W>(p: Point<W>, key: Seq<char>, value: Seq<char>)
    requires
        sound(p),
        is_attribute(key),
    ensures
        sound(p.with(key, value)),
{
}

/// Two lists of sound points make one.
pub proof fn lemma_joined_sound<W>(a: Seq<Point<W>>, b: Seq<Point<W>>)
    requires
        all_sound(a),
        all_sound(b),
    ensures
        all_sound(a + b),
{
    assert forall|i: int| 0 <= i < (a + b).len() implies sound(#[trigger] (a + b)[i]) by {
        if i < a.len() {
            assert((a + b)[i] == a[i]);
        } else {
            assert((a + b)[i] == b[i - a.len()]);
        }
    }
}

/// Sound points of each element make a list of sound points.
pub proof fn lemma_flat_sound<A, W>(s: Seq<A>, f: spec_fn(A) -> Seq<Point<W>>)
    requires
        forall|a: A| all_sound(#[trigger] f(a)),
    ensures
        all_sound(flat(s, f)),
{
    let is_sound = |p: Point<W>| sound(p);
    assert forall|a: A, i: int| 0 <= i < f(a).len() implies is_sound(#[trigger] f(a)[i]) by {
        assert(all_sound(f(a)));
    }
    lemma_flat_all(s, f, is_sound);
    assert forall|i: int| 0 <= i < flat(s, f).len() implies sound(#[trigger] flat(s, f)[i]) by {
        assert(is_sound(flat(s, f)[i]));
    }
}

/// The contents of a list of points.
pub open spec fn views<V: View>(points: Seq<MetricPoint<V>>) -> Seq<Point<V::V>> {
    points.map_values(|p: MetricPoint<V>| p@)
}

/// Adds a point to a list.
pub fn emit<V: View>(points: &mut Vec<MetricPoint<V>>, point: MetricPoint<V>)
    ensures
        views(final(points)@) == views(old(points)@).push(point@),
{
    let ghost before = points@;
    points.push(point);
    assert(views(points@) =~= views(before).push(point@));
}

/// Adds a list of points to another.
pub fn emit_all<V: View>(points: &mut Vec<MetricPoint<V>>, more: Vec<MetricPoint<V>>)
    ensures
        views(final(points)@) == views(old(points)@) + views(more@),
{
    let ghost before = points@;
    let ghost added = more@;
    let mut rest = more;
    points.append(&mut rest);
    assert(views(points@) =~= views(before) + views(added));
}

/// An empty list of points.
pub fn no_points<V: View>() -> (r: Vec<MetricPoint<V>>)
    ensures
        views(r@) == Seq::<Point<V::V>>::empty(),
{
    let r: Vec<MetricPoint<V>> = Vec::new();
    assert(views(r@) =~= Seq::<Point<V::V>>::empty());
    r
}

// --------------------------------------------------------------------------
// Envelopes
// --------------------------------------------------------------------------

/// The node that a signal comes from.
pub struct Node {
    pub site: String,
    pub id: String,
    pub host_name: String,
}

/// The content of a [`Node`].
pub struct Origin {
    pub site: Seq<char>,
    pub id: Seq<char>,
    pub host_name: Seq<char>,
}

impl View for Node {
    type V = Origin;

    open spec fn view(&self) -> Origin {
        Origin { site: self.site@, id: self.id@, host_name: self.host_name@ }
    }
}

impl Duplicate for Node {
    fn duplicate(&self) -> (r: Self) {
        Node {
            site: self.site.clone(),
            id: self.id.clone(),
            host_name: self.host_name.clone(),
        }
    }
}

/// What an envelope carries.
pub enum Signal {
    MetricBatch { points: Vec<MetricPoint<u64>> },
    Inventory { attributes: Attributes },
    AgentStatus { online: bool, version: String },
    HealthEvent { severity: Severity, code: String, message: String, attributes: Attributes },
}

/// The content of a [`Signal`].
pub enum Message {
    MetricBatch { points: Seq<Point<u64>> },
    Inventory { attributes: Map<Seq<char>, Seq<char>> },
    AgentStatus { online: bool, version: Seq<char> },
    HealthEvent {
        severity: Severity,
        code: Seq<char>,
        message: Seq<char>,
        attributes: Map<Seq<char>, Seq<char>>,
    },
}

impl View for Signal {
    type V = Message;

    open spec fn view(&self) -> Message {
        match *self {
            Signal::MetricBatch { points } => Message::MetricBatch { points: views(points@) },
            Signal::Inventory { attributes } => Message::Inventory { attributes: attributes@ },
            Signal::AgentStatus { online, version } => Message::AgentStatus {
                online,
                version: version@,
            },
            Signal::HealthEvent { severity, code, message, attributes } => Message::HealthEvent {
                severity,
                code: code@,
                message: message@,
                attributes: attributes@,
            },
        }
    }
}

/// One self-contained signal.
pub struct Envelope {
    pub schema: String,
    pub node: Node,
    pub boot_id: String,
    pub sequence: u64,
    pub observed_at: String,
    pub monotonic_ns: u64,
    pub collection_duration_ms: u64,
    pub valid_for_ms: u64,
    pub signal: Signal,
}

/// The content of an [`Envelope`].
pub struct Letter {
    pub schema: Seq<char>,
    pub node: Origin,
    pub boot_id: Seq<char>,
    pub sequence: u64,
    pub observed_at: Seq<char>,
    pub monotonic_ns: u64,
    pub collection_duration_ms: u64,
    pub valid_for_ms: u64,
    pub signal: Message,
}

impl View for Envelope {
    type V = Letter;

    open spec fn view(&self) -> Letter {
        Letter {
            schema: self.schema@,
            node: self.node@,
            boot_id: self.boot_id@,
            sequence: self.sequence,
            observed_at: self.observed_at@,
            monotonic_ns: self.monotonic_ns,
            collection_duration_ms: self.collection_duration_ms,
            valid_for_ms: self.valid_for_ms,
            signal: self.signal@,
        }
    }
}

// --------------------------------------------------------------------------
// Decoding
// --------------------------------------------------------------------------

/// Why a payload is not an acceptable v1 envelope.
#[derive(Debug, Clone, Copy, PartialEq, Eq, Structural)]
pub enum DecodeError {
    Oversized,
    Malformed,
    UnsupportedSchema,
    UnknownMetric,
    UnknownAttribute,
}

/// Attributes within the limits of v1: few enough, each with a catalogue name
/// and a short enough value.
pub open spec fn valid_attributes(m: Map<Seq<char>, Seq<char>>) -> bool {
    &&& m.len() <= MAX_ATTRIBUTES_PER_SIGNAL_ITEM
    &&& forall|k: Seq<char>| #[trigger]
        m.contains_key(k) ==> is_attribute(k) && byte_len(m[k]) <= MAX_ATTRIBUTE_VALUE_BYTES
}

/// The first rule of v1 that a message breaks.
pub open spec fn fault_of(m: Message) -> Option<DecodeError> {
    match m {
        Message::MetricBatch { points } => if exists|i: int|
            0 <= i < points.len() && !is_metric((#[trigger] points[i]).name) {
            Some(DecodeError::UnknownMetric)
        } else if exists|i: int|
            0 <= i < points.len() && !valid_attributes((#[trigger] points[i]).attributes) {
            Some(DecodeError::UnknownAttribute)
        } else {
            None
        },
        Message::HealthEvent { attributes, .. } => if valid_attributes(attributes) {
            None
        } else {
            Some(DecodeError::UnknownAttribute)
        },
        Message::Inventory { .. } => None,
        Message::AgentStatus { .. } => None,
    }
}

/// The outcome of decoding a payload of `size` bytes that parses to `parsed`,
/// if it parses at all.
pub open spec fn decoded(size: nat, parsed: Option<Letter>) -> Result<Letter, DecodeError> {
    if size > MAX_SIGNAL_BYTES {
        Err(DecodeError::Oversized)
    } else {
        match parsed {
            None => Err(DecodeError::Malformed),
            Some(letter) => if letter.schema != SCHEMA_V1@ {
                Err(DecodeError::UnsupportedSchema)
            } else {
                match fault_of(letter.signal) {
                    Some(error) => Err(error),
                    None => Ok(letter),
                }
            },
        }
    }
}

/// The content of a decoding result.
pub open spec fn decoded_view(r: Result<Envelope, DecodeError>) -> Result<Letter, DecodeError> {
    match r {
        Ok(e) => Ok(e@),
        Err(e) => Err(e),
    }
}

/// Whether attributes are within the limits of v1.
pub fn attributes_valid(attributes: &Attributes) -> (r: bool)
    ensures
        r == valid_attributes(attributes@),
{
    let n: usize = attributes.len();
    if n > MAX_ATTRIBUTES_PER_SIGNAL_ITEM {
        return false;
    }
    let ghost items = items_of::<String, Seq<char>>(attributes@);
    let mut i: usize = 0;
    while i < n
        invariant
            i <= n == items.len(),
            items == items_of::<String, Seq<char>>(attributes@),
            lists::<String, Seq<char>>(items, attributes@),
            forall|j: int|
                0 <= j < i ==> is_attribute((#[trigger] items[j]).0) && byte_len(items[j].1)
                    <= MAX_ATTRIBUTE_VALUE_BYTES,
        decreases n - i,
    {
        let key = attributes.key_at(i);
        let value = attributes.value_at(i);
        if !attribute_name_allowed(key.as_str()) || length_in_bytes(value.as_str())
            > MAX_ATTRIBUTE_VALUE_BYTES {
            return false;
        }
        i += 1;
    }
    proof {
        lemma_lists::<String, Seq<char>>(items, attributes@);
        assert forall|k: Seq<char>| #[trigger] attributes@.contains_key(k) implies is_attribute(k)
            && byte_len(attributes@[k]) <= MAX_ATTRIBUTE_VALUE_BYTES by {
            let j = choose|j: int| 0 <= j < items.len() && (#[trigger] items[j]).0 == k;
            assert(items[j].1 == attributes@[k]);
        }
    }
    true
}

/// Attributes that a configured rule may name: known ones, with values that
/// are neither empty nor too long.
pub open spec fn rule_attributes_valid(m: Map<Seq<char>, Seq<char>>) -> bool {
    forall|k: Seq<char>| #[trigger]
        m.contains_key(k) ==> is_attribute(k) && m[k].len() > 0 && byte_len(m[k])
            <= MAX_ATTRIBUTE_VALUE_BYTES
}

/// Whether a configured rule may name some attributes.
pub fn rule_attributes_allowed(attributes: &Attributes) -> (r: bool)
    ensures
        r == rule_attributes_valid(attributes@),
{
    let n: usize = attributes.len();
    let ghost items = items_of::<String, Seq<char>>(attributes@);
    let mut i: usize = 0;
    while i < n
        invariant
            i <= n == items.len(),
            items == items_of::<String, Seq<char>>(attributes@),
            lists::<String, Seq<char>>(items, attributes@),
            forall|j: int|
                0 <= j < i ==> is_attribute((#[trigger] items[j]).0) && items[j].1.len() > 0
                    && byte_len(items[j].1) <= MAX_ATTRIBUTE_VALUE_BYTES,
        decreases n - i,
    {
        let key = attributes.key_at(i);
        let value = attributes.value_at(i);
        if !attribute_name_allowed(key.as_str()) || value.as_str().is_empty() || length_in_bytes(
            value.as_str(),
        ) > MAX_ATTRIBUTE_VALUE_BYTES {
            return false;
        }
        i += 1;
    }
    proof {
        lemma_lists::<String, Seq<char>>(items, attributes@);
        assert forall|k: Seq<char>| #[trigger] attributes@.contains_key(k) implies is_attribute(k)
            && attributes@[k].len() > 0 && byte_len(attributes@[k])
            <= MAX_ATTRIBUTE_VALUE_BYTES by {
            let j = choose|j: int| 0 <= j < items.len() && (#[trigger] items[j]).0 == k;
            assert(items[j].1 == attributes@[k]);
        }
    }
    true
}

/// A reason that a configured rule may give: neither empty nor too long.
pub open spec fn rule_reason_valid(reason: Seq<char>) -> bool {
    reason.len() > 0 && byte_len(reason) <= MAX_ATTRIBUTE_VALUE_BYTES
}

/// Whether a configured rule may give a reason.
pub fn rule_reason_allowed(reason: &str) -> (r: bool)
    ensures
        r == rule_reason_valid(reason@),
{
    !reason.is_empty() && length_in_bytes(reason) <= MAX_ATTRIBUTE_VALUE_BYTES
}

/// Whether a payload is small enough to be decoded at all.
pub fn admissible(payload: &[u8]) -> (r: bool)
    ensures
        r == (payload@.len() <= MAX_SIGNAL_BYTES),
{
    payload.len() <= MAX_SIGNAL_BYTES
}

/// Decodes and validates one v1 signal envelope. `parsed` is what the payload
/// parses to as an envelope, if it does; it need not be parsed where the
/// payload is not [`admissible`].
pub fn decode_v1(payload: &[u8], parsed: Option<Envelope>) -> (r: Result<Envelope, DecodeError>)
    ensures
        decoded_view(r) == decoded(payload@.len(), optional_view(parsed)),
{
    if !admissible(payload) {
        return Err(DecodeError::Oversized);
    }
    let envelope = match parsed {
        Some(envelope) => envelope,
        None => {
            return Err(DecodeError::Malformed);
        },
    };
    if !same(envelope.schema.as_str(), SCHEMA_V1) {
        return Err(DecodeError::UnsupportedSchema);
    }
    match fault(&envelope.signal) {
        Some(error) => Err(error),
        None => Ok(envelope),
    }
}

fn fault(signal: &Signal) -> (r: Option<DecodeError>)
    ensures
        r == fault_of(signal@),
{
    match signal {
        Signal::MetricBatch { points } => {
            let ghost vs = views(points@);
            let mut i: usize = 0;
            while i < points.len()
                invariant
                    i <= points@.len(),
                    vs == views(points@),
                    signal@ == (Message::MetricBatch { points: vs }),
                    forall|j: int| 0 <= j < i ==> is_metric((#[trigger] vs[j]).name),
                decreases points@.len() - i,
            {
                assert(vs[i as int].name == points@[i as int].name@);
                if !metric_name_allowed(points[i].name.as_str()) {
                    return Some(DecodeError::UnknownMetric);
                }
                i += 1;
            }
            let mut k: usize = 0;
            while k < points.len()
                invariant
                    k <= points@.len(),
                    vs == views(points@),
                    signal@ == (Message::MetricBatch { points: vs }),
                    forall|j: int| 0 <= j < vs.len() ==> is_metric((#[trigger] vs[j]).name),
                    forall|j: int| 0 <= j < k ==> valid_attributes((#[trigger] vs[j]).attributes),
                decreases points@.len() - k,
            {
                assert(vs[k as int].attributes == points@[k as int].attributes@);
                if !attributes_valid(&points[k].attributes) {
                    return Some(DecodeError::UnknownAttribute);
                }
                k += 1;
            }
            None
        },
        Signal::HealthEvent { attributes, .. } => if attributes_valid(attributes) {
            None
        } else {
            Some(DecodeError::UnknownAttribute)
        },
        Signal::Inventory { .. } => None,
        Signal::AgentStatus { .. } => None,
    }
}

/// An accepted envelope names only catalogue metrics and attributes, within
/// their limits.
pub proof fn law_accepted_batch_is_within_the_catalogue(size: nat, parsed: Option<Letter>)
    requires
        decoded(size, parsed) is Ok,
    ensures
        size <= MAX_SIGNAL_BYTES,
        parsed == Some(decoded(size, parsed)->Ok_0),
        parsed->0.schema == SCHEMA_V1@,
        parsed->0.signal matches Message::MetricBatch { points } ==> forall|i: int|
            0 <= i < points.len() ==> is_metric((#[trigger] points[i]).name) && valid_attributes(
                points[i].attributes,
            ),
        parsed->0.signal matches Message::HealthEvent { attributes, .. } ==> valid_attributes(
            attributes,
        ),
{
}

/// A point stays sound where a value takes the place of a value, or nothing
/// that of nothing.
pub proof fn law_values_keep_points_sound<W, X>(p: Point<W>, value: Option<X>)
    requires
        sound(p),
        value is Some == p.value is Some,
    ensures
        sound(valued(p, value)),
{
}

/// What the collectors make is accepted: an envelope of sound points decodes to
/// itself where it and its attributes are within their limits.
pub proof fn law_sound_points_are_accepted(size: nat, letter: Letter, points: Seq<Point<u64>>)
    requires
        size <= MAX_SIGNAL_BYTES,
        letter.schema == SCHEMA_V1@,
        letter.signal == (Message::MetricBatch { points }),
        all_sound(points),
        forall|i: int|
            0 <= i < points.len() ==> (#[trigger] points[i]).attributes.len()
                <= MAX_ATTRIBUTES_PER_SIGNAL_ITEM,
        forall|i: int, k: Seq<char>|
            0 <= i < points.len() && #[trigger] points[i].attributes.contains_key(k) ==> byte_len(
                points[i].attributes[k],
            ) <= MAX_ATTRIBUTE_VALUE_BYTES,
    ensures
        decoded(size, Some(letter)) == Ok::<Letter, DecodeError>(letter),
{
    assert forall|i: int| 0 <= i < points.len() implies is_metric((#[trigger] points[i]).name)
        && valid_attributes(points[i].attributes) by {
        assert(sound(points[i]));
    }
}

/// What is within the limits decodes to itself, whatever kind of signal it is:
/// inventories and statuses always, health events with known and short enough
/// attributes, and batches of such points of known metrics. A batch with an
/// unknown metric is refused for that, and what remains for its attributes.
pub proof fn law_every_kind_of_signal_is_decoded(size: nat, letter: Letter)
    requires
        size <= 65536,
        letter.schema == "spark.signal/v1"@,
    ensures
        letter.signal is Inventory || letter.signal is AgentStatus ==> decoded(size, Some(letter))
            == Ok::<Letter, DecodeError>(letter),
        letter.signal matches Message::HealthEvent { attributes, .. } ==> decoded(
            size,
            Some(letter),
        ) == (if attributes.len() <= 24 && forall|k: Seq<char>| #[trigger]
            attributes.contains_key(k) ==> is_attribute(k) && byte_len(attributes[k]) <= 256 {
            Ok::<Letter, DecodeError>(letter)
        } else {
            Err(DecodeError::UnknownAttribute)
        }),
        letter.signal matches Message::MetricBatch { points } ==> decoded(size, Some(letter)) == (
        if exists|i: int| 0 <= i < points.len() && !is_metric((#[trigger] points[i]).name) {
            Err::<Letter, DecodeError>(DecodeError::UnknownMetric)
        } else if forall|i: int|
            0 <= i < points.len() ==> (#[trigger] points[i]).attributes.len() <= 24 && forall|
                k: Seq<char>,
            | #[trigger]
                points[i].attributes.contains_key(k) ==> is_attribute(k) && byte_len(
                    points[i].attributes[k],
                ) <= 256 {
            Ok(letter)
        } else {
            Err(DecodeError::UnknownAttribute)
        }),
{
    match letter.signal {
        Message::MetricBatch { points } => {
            assert forall|i: int| 0 <= i < points.len() implies valid_attributes(
                (#[trigger] points[i]).attributes,
            ) == (points[i].attributes.len() <= 24 && forall|k: Seq<char>| #[trigger]
                points[i].attributes.contains_key(k) ==> is_attribute(k) && byte_len(
                    points[i].attributes[k],
                ) <= 256) by {}
        },
        _ => {},
    }
}

/// A payload that is too large is refused before anything else, then one that
/// does not parse, then one of another schema.
pub proof fn law_other_payloads_are_refused(size: nat, parsed: Option<Letter>)
    ensures
        size > 65536 ==> decoded(size, parsed) == Err::<Letter, DecodeError>(
            DecodeError::Oversized,
        ),
        size <= 65536 && parsed is None ==> decoded(size, parsed) == Err::<Letter, DecodeError>(
            DecodeError::Malformed,
        ),
        size <= 65536 && parsed is Some && parsed->0.schema != "spark.signal/v1"@ ==> decoded(
            size,
            parsed,
        ) == Err::<Letter, DecodeError>(DecodeError::UnsupportedSchema),
{
}

/// A gauge and a counter delta have their value and no reason for its absence;
/// a delta is derived. An unavailable point has a reason and no value. None has
/// attributes before they are added, and adding one changes nothing else.
pub proof fn law_points_are_made_as_asked<W>(
    name: Seq<char>,
    value: W,
    unit: Seq<char>,
    quality: Quality,
    source: Seq<char>,
    code: Seq<char>,
    p: Point<W>,
    key: Seq<char>,
    other: Seq<char>,
    attribute: Seq<char>,
)
    ensures
        ({
            let g = gauge_of(name, value, unit, quality, source);
            let d = delta_of(name, value, unit, source);
            let u = unavailable_of::<W>(name, unit, quality, source, code);
            &&& g.name == name && d.name == name && u.name == name
            &&& g.unit == unit && d.unit == unit && u.unit == unit
            &&& g.source == source && d.source == source && u.source == source
            &&& g.instrument == InstrumentKind::Gauge && u.instrument == InstrumentKind::Gauge
            &&& d.instrument == InstrumentKind::CounterDelta
            &&& g.value == Some(value) && d.value == Some(value) && u.value is None
            &&& g.quality == quality && u.quality == quality && d.quality == Quality::Derived
            &&& g.error_code is None && d.error_code is None && u.error_code == Some(code)
            &&& !g.attributes.contains_key(key) && !d.attributes.contains_key(key)
                && !u.attributes.contains_key(key)
        }),
        ({
            let w = p.with(key, attribute);
            &&& w.name == p.name && w.unit == p.unit && w.source == p.source
            &&& w.instrument == p.instrument && w.value == p.value && w.quality == p.quality
            &&& w.error_code == p.error_code
            &&& w.attributes.contains_key(key) && w.attributes[key] == attribute
            &&& other != key ==> w.attributes.contains_key(other) == p.attributes.contains_key(
                other,
            ) && w.attributes[other] == p.attributes[other]
        }),
{
}

} // verus!
