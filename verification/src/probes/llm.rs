//! Model server points.

use super::config::{
    backend_name, names_of, resolved_names, Backend, LlmEndpointConfig, MetricNames, Names,
};
use crate::arith::{minus, subtract};
use crate::catalogue::is_metric;
use crate::doubles::{at_least, is_at_least};
use crate::schema::{
    delta_of, emit, gauge_of, no_points, unavailable_of, views, MetricPoint, Number, Point,
    Quality, Value,
};
use crate::table::{Duplicate, Table};
use crate::text::{
    fields, fields_of, float, has_prefix, is_float, lines, lines_of, optional, split_once,
    split_once_of, starts_with, texts, trim, trim_of, Class,
};
use vstd::prelude::*;

verus! {

// --------------------------------------------------------------------------
// Metrics text
// --------------------------------------------------------------------------

/// The samples of a metric, in the order of the text, each as a text that
/// writes a number.
pub struct Samples {
    pub values: Vec<String>,
}

impl View for Samples {
    type V = Seq<Seq<char>>;

    open spec fn view(&self) -> Seq<Seq<char>> {
        texts(self.values@)
    }
}

/// The name before the labels of a series.
pub open spec fn series_name(s: Seq<char>) -> Seq<char> {
    match split_once_of(s, Class::Only('{')) {
        Some((name, _)) => name,
        None => s,
    }
}

/// The metric and the number of one line; empty lines, comments and lines
/// without a number give none.
pub open spec fn sample_of(line: Seq<char>) -> Option<(Seq<char>, Seq<char>)> {
    let f = fields_of(trim_of(line));
    if has_prefix(trim_of(line), "#"@) || f.len() < 2 || !is_float(f[1]) {
        None
    } else {
        Some((series_name(f[0]), f[1]))
    }
}

/// `m` with a sample added to its metric.
pub open spec fn with_sample(
    m: Map<Seq<char>, Seq<Seq<char>>>,
    name: Seq<char>,
    number: Seq<char>,
) -> Map<Seq<char>, Seq<Seq<char>>> {
    m.insert(
        name,
        (if m.contains_key(name) {
            m[name]
        } else {
            seq![]
        }).push(number),
    )
}

/// The samples of each metric in some lines.
pub open spec fn samples_of(rows: Seq<Seq<char>>) -> Map<Seq<char>, Seq<Seq<char>>>
    decreases rows.len(),
{
    if rows.len() == 0 {
        Map::empty()
    } else {
        match sample_of(rows.last()) {
            Some((name, number)) => with_sample(samples_of(rows.drop_last()), name, number),
            None => samples_of(rows.drop_last()),
        }
    }
}

/// The content of an optional sample.
pub open spec fn sample_view(v: Option<(String, String)>) -> Option<(Seq<char>, Seq<char>)> {
    crate::text::pair(v)
}

fn parse_sample(line: &str) -> (r: Option<(String, String)>)
    ensures
        sample_view(r) == sample_of(line@),
{
    let text = trim(line);
    if starts_with(text.as_str(), "#") {
        return None;
    }
    let f = fields(text.as_str());
    if f.len() < 2 {
        return None;
    }
    assert(texts(f@)[0] == f@[0]@);
    assert(texts(f@)[1] == f@[1]@);
    if !float(f[1].as_str()) {
        return None;
    }
    let name = match split_once(f[0].as_str(), Class::Only('{')) {
        Some((name, _)) => name,
        None => f[0].clone(),
    };
    Some((name, f[1].clone()))
}

fn add_sample(metrics: &mut Table<String, Samples>, name: String, number: String)
    ensures
        final(metrics)@ == with_sample(old(metrics)@, name@, number@),
{
    let ghost added = number@;
    let mut values = match metrics.remove(&name) {
        Some(s) => s.values,
        None => Vec::new(),
    };
    let ghost before = values@;
    values.push(number);
    assert(texts(values@) =~= texts(before).push(added));
    metrics.insert(name, Samples { values });
    proof {
        if !old(metrics)@.contains_key(name@) {
            assert(texts(before) =~= seq![]);
        }
        assert(metrics@ =~= with_sample(old(metrics)@, name@, added));
    }
}

/// Parses a metrics text: the samples of each metric, over all its series.
pub fn parse_prometheus(raw: &str) -> (r: Table<String, Samples>)
    ensures
        r@ == samples_of(lines_of(raw@)),
{
    let rows = lines(raw);
    let ghost all = texts(rows@);
    let mut out: Table<String, Samples> = Table::new();
    let mut i: usize = 0;
    while i < rows.len()
        invariant
            i <= rows@.len(),
            all == texts(rows@),
            out@ == samples_of(all.take(i as int)),
        decreases rows@.len() - i,
    {
        assert(all.take(i + 1).drop_last() =~= all.take(i as int));
        match parse_sample(rows[i].as_str()) {
            Some((name, number)) => {
                add_sample(&mut out, name, number);
            },
            None => {},
        }
        i += 1;
    }
    assert(all.take(i as int) =~= all);
    out
}

// --------------------------------------------------------------------------
// Endpoints
// --------------------------------------------------------------------------

/// What querying an endpoint gave.
pub enum Reply {
    /// The request failed.
    Unreachable,
    /// The answer was not a success.
    Rejected,
    /// The body of the answer could not be read.
    Unreadable,
    /// The sum of the samples of each metric in the body, by its bits.
    Answered(Table<String, u64>),
}

/// A reply and when it came, in nanoseconds since some fixed instant.
pub struct Exchange {
    pub reply: Reply,
    pub now: u64,
}

/// A counter value, by its bits, and when it was read.
#[derive(Debug, Clone, Copy, PartialEq, Eq, Structural)]
pub struct Baseline {
    pub value: u64,
    pub observed: u64,
}

impl View for Baseline {
    type V = Baseline;

    open spec fn view(&self) -> Baseline {
        *self
    }
}

/// What is remembered of the endpoints.
#[verifier::ext_equal]
pub struct Memory {
    pub baselines: Map<(Seq<char>, Seq<char>), Baseline>,
    pub last_success: Map<Seq<char>, u64>,
    pub started: u64,
}

/// A point of an endpoint.
pub open spec fn of_endpoint(p: Point<Number>, c: LlmEndpointConfig) -> Point<Number> {
    let point = p.with("llm.endpoint.id"@, c.id@).with("llm.backend"@, backend_name(c.backend));
    match optional(c.served_model_id) {
        Some(model) => point.with("llm.model.id"@, model),
        None => point,
    }
}

/// The configured context capacity.
pub open spec fn capacity_point(c: LlmEndpointConfig) -> Point<Number> {
    match c.context_capacity {
        Some(capacity) => gauge_of(
            "spark.llm.context.capacity"@,
            Number::Count(capacity),
            "{token}"@,
            Quality::Measured,
            "config"@,
        ),
        None => unavailable_of(
            "spark.llm.context.capacity"@,
            "{token}"@,
            Quality::Unsupported,
            "config"@,
            "CONTEXT_CAPACITY_NOT_CONFIGURED"@,
        ),
    }
}

/// The metric that a server exposes under a name.
pub open spec fn exposed(metrics: Map<Seq<char>, u64>, name: Option<Seq<char>>) -> Option<u64> {
    match name {
        Some(n) => if metrics.contains_key(n) {
            Some(metrics[n])
        } else {
            None
        },
        None => None,
    }
}

/// A metric that is not exposed.
pub open spec fn not_exposed(name: Seq<char>, unit: Seq<char>) -> Point<Number> {
    unavailable_of(name, unit, Quality::Unsupported, "prometheus"@, "METRIC_NOT_EXPOSED"@)
}

/// The point of an exposed metric.
pub open spec fn value_point(
    metrics: Map<Seq<char>, u64>,
    source: Option<Seq<char>>,
    name: Seq<char>,
    unit: Seq<char>,
) -> Point<Number> {
    match exposed(metrics, source) {
        Some(bits) => gauge_of(name, Number::Bits(bits), unit, Quality::Measured, "prometheus"@),
        None => not_exposed(name, unit),
    }
}

/// The total and the rate of a token counter. The first value and one below
/// the last set a baseline and give neither.
pub open spec fn token_points(
    past: Option<Baseline>,
    value: Option<u64>,
    now: u64,
    name: Seq<char>,
    rate: Seq<char>,
) -> Seq<Point<Number>> {
    match value {
        None => seq![not_exposed(name, "{token}"@), not_exposed(rate, "{token}/s"@)],
        Some(bits) => if past is Some && at_least(bits, past->0.value) {
            let earlier = past->0.value;
            let nanos = minus(now, past->0.observed);
            seq![
                delta_of(
                    name,
                    Number::Change { now: bits, earlier },
                    "{token}"@,
                    "prometheus"@,
                ),
                gauge_of(
                    rate,
                    if nanos > 0 {
                        Number::Rate { now: bits, earlier, nanos }
                    } else {
                        Number::Count(0)
                    },
                    "{token}/s"@,
                    Quality::Derived,
                    "prometheus"@,
                ),
            ]
        } else {
            let code = "BASELINE_INITIALIZING"@;
            seq![
                unavailable_of(name, "{token}"@, Quality::Stale, "prometheus"@, code),
                unavailable_of(rate, "{token}/s"@, Quality::Stale, "prometheus"@, code),
            ]
        },
    }
}

/// The last value of a token counter of an endpoint.
pub open spec fn baseline_of(m: Memory, id: Seq<char>, name: Seq<char>) -> Option<Baseline> {
    if m.baselines.contains_key((id, name)) {
        Some(m.baselines[(id, name)])
    } else {
        None
    }
}

/// The memory after reading a token counter.
pub open spec fn after_tokens(
    m: Memory,
    id: Seq<char>,
    name: Seq<char>,
    value: Option<u64>,
    now: u64,
) -> Memory {
    match value {
        Some(bits) => Memory {
            baselines: m.baselines.insert((id, name), Baseline { value: bits, observed: now }),
            ..m
        },
        None => m,
    }
}

/// The metrics of an answer; servers with the OpenAI interface give none.
pub open spec fn metrics_in(c: LlmEndpointConfig, answer: Map<Seq<char>, u64>) -> Map<
    Seq<char>,
    u64,
> {
    if c.backend == Backend::Openai {
        Map::empty()
    } else {
        answer
    }
}

/// The generation rate that a server gives itself, where it does.
pub open spec fn own_rate_points(metrics: Map<Seq<char>, u64>, names: Names) -> Seq<Point<Number>> {
    match exposed(metrics, names.generation_rate) {
        Some(bits) => seq![
            gauge_of(
                "spark.llm.tokens.generation.rate"@,
                Number::Bits(bits),
                "{token}/s"@,
                Quality::Measured,
                "prometheus"@,
            ),
        ],
        None => seq![],
    }
}

/// The points of an answer, before the endpoint is named in them.
pub open spec fn answer_points(
    m: Memory,
    id: Seq<char>,
    names: Names,
    metrics: Map<Seq<char>, u64>,
    now: u64,
) -> Seq<Point<Number>> {
    let input = exposed(metrics, names.input_tokens);
    let output = exposed(metrics, names.output_tokens);
    let in_name = "spark.llm.tokens.input"@;
    let out_name = "spark.llm.tokens.output"@;
    let later = after_tokens(m, id, in_name, input, now);
    seq![
        gauge_of("spark.llm.response.age"@, Number::Count(0), "s"@, Quality::Derived, "http"@),
        gauge_of(
            "spark.llm.collection.errors"@,
            Number::Count(0),
            "{error}"@,
            Quality::Measured,
            "http"@,
        ),
        gauge_of("spark.llm.available"@, Number::Count(1), "1"@, Quality::Measured, "http"@),
        value_point(metrics, names.uptime, "spark.llm.uptime"@, "s"@),
        value_point(metrics, names.running, "spark.llm.requests.running"@, "{request}"@),
        value_point(metrics, names.queued, "spark.llm.requests.queued"@, "{request}"@),
    ] + token_points(
        baseline_of(m, id, in_name),
        input,
        now,
        in_name,
        "spark.llm.tokens.prefill.rate"@,
    ) + token_points(
        baseline_of(later, id, out_name),
        output,
        now,
        out_name,
        "spark.llm.tokens.generation.rate"@,
    ) + own_rate_points(metrics, names)
}

/// The code of a failed exchange.
pub open spec fn failure_code(r: Reply) -> Seq<char> {
    match r {
        Reply::Unreachable => "ENDPOINT_UNREACHABLE"@,
        Reply::Rejected => "ENDPOINT_HTTP_ERROR"@,
        Reply::Unreadable => "ENDPOINT_BODY_ERROR"@,
        Reply::Answered(_) => ""@,
    }
}

/// How long ago the last success of an endpoint is, or the start of the probe.
pub open spec fn age_of(m: Memory, id: Seq<char>, now: u64) -> u64 {
    minus(
        now,
        if m.last_success.contains_key(id) {
            m.last_success[id]
        } else {
            m.started
        },
    )
}

/// The points of a failed exchange, before the endpoint is named in them.
pub open spec fn failure_points(m: Memory, id: Seq<char>, code: Seq<char>, now: u64) -> Seq<
    Point<Number>,
> {
    seq![
        gauge_of(
            "spark.llm.response.age"@,
            Number::Seconds(age_of(m, id, now)),
            "s"@,
            Quality::Derived,
            "http"@,
        ),
        gauge_of(
            "spark.llm.collection.errors"@,
            Number::Count(1),
            "{error}"@,
            Quality::Measured,
            "http"@,
        ),
        unavailable_of("spark.llm.available"@, "1"@, Quality::Error, "http"@, code),
    ]
}

/// The points of an exchange, before the endpoint is named in them.
pub open spec fn exchange_points(m: Memory, c: LlmEndpointConfig, e: Exchange) -> Seq<
    Point<Number>,
> {
    seq![capacity_point(c)] + (match e.reply {
        Reply::Answered(answer) => answer_points(
            m,
            c.id@,
            names_of(c),
            metrics_in(c, answer@),
            e.now,
        ),
        _ => failure_points(m, c.id@, failure_code(e.reply), e.now),
    })
}

/// The memory after an exchange.
pub open spec fn after_exchange(m: Memory, c: LlmEndpointConfig, e: Exchange) -> Memory {
    match e.reply {
        Reply::Answered(answer) => {
            let metrics = metrics_in(c, answer@);
            let n = names_of(c);
            let answered = Memory { last_success: m.last_success.insert(c.id@, e.now), ..m };
            after_tokens(
                after_tokens(
                    answered,
                    c.id@,
                    "spark.llm.tokens.input"@,
                    exposed(metrics, n.input_tokens),
                    e.now,
                ),
                c.id@,
                "spark.llm.tokens.output"@,
                exposed(metrics, n.output_tokens),
                e.now,
            )
        },
        _ => m,
    }
}

/// The memory after some exchanges.
pub open spec fn after_exchanges(m: Memory, cs: Seq<LlmEndpointConfig>, es: Seq<Exchange>) -> Memory
    decreases cs.len(),
{
    if cs.len() == 0 {
        m
    } else {
        after_exchange(
            after_exchanges(m, cs.drop_last(), es.drop_last()),
            cs.last(),
            es.last(),
        )
    }
}

/// The points of an endpoint.
pub open spec fn endpoint_points(m: Memory, c: LlmEndpointConfig, e: Exchange) -> Seq<
    Point<Number>,
> {
    exchange_points(m, c, e).map_values(|p: Point<Number>| of_endpoint(p, c))
}

/// The points of some endpoints.
pub open spec fn endpoints_points(m: Memory, cs: Seq<LlmEndpointConfig>, es: Seq<Exchange>) -> Seq<
    Point<Number>,
>
    decreases cs.len(),
{
    if cs.len() == 0 {
        seq![]
    } else {
        endpoints_points(m, cs.drop_last(), es.drop_last()) + endpoint_points(
            after_exchanges(m, cs.drop_last(), es.drop_last()),
            cs.last(),
            es.last(),
        )
    }
}

// --------------------------------------------------------------------------
// Execution
// --------------------------------------------------------------------------

/// Observes model servers.
pub struct LlmProbe {
    endpoints: Vec<LlmEndpointConfig>,
    baselines: Table<(String, String), Baseline>,
    started: u64,
    last_success: Table<String, u64>,
}

/// The content of an [`LlmProbe`].
pub struct Servers {
    pub endpoints: Seq<LlmEndpointConfig>,
    pub memory: Memory,
}

impl View for LlmProbe {
    type V = Servers;

    closed spec fn view(&self) -> Servers {
        Servers {
            endpoints: self.endpoints@,
            memory: Memory {
                baselines: self.baselines@,
                last_success: self.last_success@,
                started: self.started,
            },
        }
    }
}

fn name_endpoint(point: MetricPoint<Value>, c: &LlmEndpointConfig) -> (r: MetricPoint<Value>)
    ensures
        r@ == of_endpoint(point@, *c),
{
    let point = point.with_attribute("llm.endpoint.id", c.id.as_str()).with_attribute(
        "llm.backend",
        c.backend.as_str(),
    );
    match &c.served_model_id {
        Some(model) => point.with_attribute("llm.model.id", model.as_str()),
        None => point,
    }
}

/// Adds the named points of an endpoint to a list.
fn emit_named(
    points: &mut Vec<MetricPoint<Value>>,
    unnamed: Vec<MetricPoint<Value>>,
    c: &LlmEndpointConfig,
)
    ensures
        views(final(points)@) == views(old(points)@) + views(unnamed@).map_values(
            |p: Point<Number>| of_endpoint(p, *c),
        ),
{
    let ghost start = views(points@);
    let ghost all = views(unnamed@).map_values(|p: Point<Number>| of_endpoint(p, *c));
    let mut i: usize = 0;
    while i < unnamed.len()
        invariant
            i <= unnamed@.len(),
            all == views(unnamed@).map_values(|p: Point<Number>| of_endpoint(p, *c)),
            views(points@) == start + all.take(i as int),
        decreases unnamed@.len() - i,
    {
        emit(points, name_endpoint(unnamed[i].duplicate(), c));
        assert(all[i as int] == of_endpoint(unnamed@[i as int]@, *c));
        assert(views(points@) =~= start + all.take(i + 1));
        i += 1;
    }
    assert(all.take(i as int) =~= all);
}

fn capacity(c: &LlmEndpointConfig) -> (r: MetricPoint<Value>)
    ensures
        r@ == capacity_point(*c),
{
    match c.context_capacity {
        Some(capacity) => MetricPoint::gauge(
            "spark.llm.context.capacity",
            Value::Count(capacity),
            "{token}",
            Quality::Measured,
            "config",
        ),
        None => MetricPoint::unavailable(
            "spark.llm.context.capacity",
            "{token}",
            Quality::Unsupported,
            "config",
            "CONTEXT_CAPACITY_NOT_CONFIGURED",
        ),
    }
}

fn lookup(metrics: &Table<String, u64>, name: &Option<String>) -> (r: Option<u64>)
    ensures
        r == exposed(metrics@, optional(*name)),
{
    match name {
        Some(n) => match metrics.get(n) {
            Some(bits) => Some(*bits),
            None => None,
        },
        None => None,
    }
}

fn unexposed(name: &str, unit: &str) -> (r: MetricPoint<Value>)
    requires
        is_metric(name@),
    ensures
        r@ == not_exposed(name@, unit@),
{
    MetricPoint::unavailable(name, unit, Quality::Unsupported, "prometheus", "METRIC_NOT_EXPOSED")
}

/// The point of a metric that a server may expose.
pub fn metric_value(
    metrics: &Table<String, u64>,
    source_name: &Option<String>,
    output_name: &str,
    unit: &str,
) -> (r: MetricPoint<Value>)
    requires
        is_metric(output_name@),
    ensures
        r@ == value_point(metrics@, optional(*source_name), output_name@, unit@),
{
    match lookup(metrics, source_name) {
        Some(bits) => MetricPoint::gauge(
            output_name,
            Value::Bits(bits),
            unit,
            Quality::Measured,
            "prometheus",
        ),
        None => unexposed(output_name, unit),
    }
}

fn collect_tokens(
    past: Option<Baseline>,
    value: Option<u64>,
    now: u64,
    name: &str,
    rate: &str,
    points: &mut Vec<MetricPoint<Value>>,
)
    requires
        is_metric(name@),
        is_metric(rate@),
    ensures
        views(final(points)@) == views(old(points)@) + token_points(past, value, now, name@, rate@),
{
    let bits = match value {
        Some(bits) => bits,
        None => {
            emit(points, unexposed(name, "{token}"));
            emit(points, unexposed(rate, "{token}/s"));
            return;
        },
    };
    match past {
        Some(b) => {
            if is_at_least(bits, b.value) {
                let nanos = subtract(now, b.observed);
                emit(
                    points,
                    MetricPoint::counter_delta(
                        name,
                        Value::Change { now: bits, earlier: b.value },
                        "{token}",
                        "prometheus",
                    ),
                );
                let per_second = if nanos > 0 {
                    Value::Rate { now: bits, earlier: b.value, nanos }
                } else {
                    Value::Count(0)
                };
                emit(
                    points,
                    MetricPoint::gauge(
                        rate,
                        per_second,
                        "{token}/s",
                        Quality::Derived,
                        "prometheus",
                    ),
                );
                return;
            }
        },
        None => {},
    }
    let code = "BASELINE_INITIALIZING";
    emit(points, MetricPoint::unavailable(name, "{token}", Quality::Stale, "prometheus", code));
    emit(points, MetricPoint::unavailable(rate, "{token}/s", Quality::Stale, "prometheus", code));
}

impl LlmProbe {
    /// A probe for the configured endpoints; `now` is the time in nanoseconds
    /// since some fixed instant.
    pub fn new(configs: Vec<LlmEndpointConfig>, now: u64) -> (r: Self)
        ensures
            r@.endpoints == configs@,
            r@.memory == (Memory {
                baselines: Map::empty(),
                last_success: Map::empty(),
                started: now,
            }),
    {
        LlmProbe {
            endpoints: configs,
            baselines: Table::new(),
            started: now,
            last_success: Table::new(),
        }
    }

    /// The endpoints that are observed.
    pub fn endpoints(&self) -> (r: &Vec<LlmEndpointConfig>)
        ensures
            r@ == self@.endpoints,
    {
        &self.endpoints
    }

    fn swap_baseline(&mut self, id: &str, name: &str, value: Option<u64>, now: u64) -> (r: Option<
        Baseline,
    >)
        ensures
            final(self)@.memory == after_tokens(old(self)@.memory, id@, name@, value, now),
            final(self)@.endpoints == old(self)@.endpoints,
            value is Some ==> r == baseline_of(old(self)@.memory, id@, name@),
    {
        match value {
            Some(bits) => {
                let key = (id.to_owned(), name.to_owned());
                self.baselines.insert(key, Baseline { value: bits, observed: now })
            },
            None => None,
        }
    }

    #[verifier::rlimit(30)]
    fn collect_answer(
        &mut self,
        id: &str,
        names: &MetricNames,
        metrics: &Table<String, u64>,
        now: u64,
        points: &mut Vec<MetricPoint<Value>>,
    )
        ensures
            views(final(points)@) == views(old(points)@) + answer_points(
                old(self)@.memory,
                id@,
                names@,
                metrics@,
                now,
            ),
            final(self)@.endpoints == old(self)@.endpoints,
            final(self)@.memory == ({
                let m = old(self)@.memory;
                after_tokens(
                    after_tokens(
                        Memory { last_success: m.last_success.insert(id@, now), ..m },
                        id@,
                        "spark.llm.tokens.input"@,
                        exposed(metrics@, names@.input_tokens),
                        now,
                    ),
                    id@,
                    "spark.llm.tokens.output"@,
                    exposed(metrics@, names@.output_tokens),
                    now,
                )
            }),
    {
        let ghost start = views(points@);
        self.last_success.insert(id.to_owned(), now);
        let p = points;
        emit(
            p,
            MetricPoint::gauge(
                "spark.llm.response.age",
                Value::Count(0),
                "s",
                Quality::Derived,
                "http",
            ),
        );
        emit(
            p,
            MetricPoint::gauge(
                "spark.llm.collection.errors",
                Value::Count(0),
                "{error}",
                Quality::Measured,
                "http",
            ),
        );
        emit(
            p,
            MetricPoint::gauge(
                "spark.llm.available",
                Value::Count(1),
                "1",
                Quality::Measured,
                "http",
            ),
        );
        emit(p, metric_value(metrics, &names.uptime, "spark.llm.uptime", "s"));
        emit(p, metric_value(metrics, &names.running, "spark.llm.requests.running", "{request}"));
        emit(p, metric_value(metrics, &names.queued, "spark.llm.requests.queued", "{request}"));
        let input = lookup(metrics, &names.input_tokens);
        let past = self.swap_baseline(id, "spark.llm.tokens.input", input, now);
        collect_tokens(
            past,
            input,
            now,
            "spark.llm.tokens.input",
            "spark.llm.tokens.prefill.rate",
            p,
        );
        let output = lookup(metrics, &names.output_tokens);
        let past = self.swap_baseline(id, "spark.llm.tokens.output", output, now);
        collect_tokens(
            past,
            output,
            now,
            "spark.llm.tokens.output",
            "spark.llm.tokens.generation.rate",
            p,
        );
        match lookup(metrics, &names.generation_rate) {
            Some(bits) => {
                emit(
                    p,
                    MetricPoint::gauge(
                        "spark.llm.tokens.generation.rate",
                        Value::Bits(bits),
                        "{token}/s",
                        Quality::Measured,
                        "prometheus",
                    ),
                );
            },
            None => {},
        }
    }

    fn collect_failure(
        &self,
        id: &str,
        code: &str,
        now: u64,
        points: &mut Vec<MetricPoint<Value>>,
    )
        ensures
            views(final(points)@) == views(old(points)@) + failure_points(
                self@.memory,
                id@,
                code@,
                now,
            ),
    {
        let since = match self.last_success.at(id) {
            Some(last) => *last,
            None => self.started,
        };
        emit(
            points,
            MetricPoint::gauge(
                "spark.llm.response.age",
                Value::Seconds(subtract(now, since)),
                "s",
                Quality::Derived,
                "http",
            ),
        );
        emit(
            points,
            MetricPoint::gauge(
                "spark.llm.collection.errors",
                Value::Count(1),
                "{error}",
                Quality::Measured,
                "http",
            ),
        );
        emit(
            points,
            MetricPoint::unavailable("spark.llm.available", "1", Quality::Error, "http", code),
        );
    }

    fn collect_endpoint(
        &mut self,
        index: usize,
        e: &Exchange,
        points: &mut Vec<MetricPoint<Value>>,
    )
        requires
            index < old(self)@.endpoints.len(),
        ensures
            views(final(points)@) == views(old(points)@) + endpoint_points(
                old(self)@.memory,
                old(self)@.endpoints[index as int],
                *e,
            ),
            final(self)@.endpoints == old(self)@.endpoints,
            final(self)@.memory == after_exchange(
                old(self)@.memory,
                old(self)@.endpoints[index as int],
                *e,
            ),
    {
        let ghost config = self.endpoints@[index as int];
        let ghost memory = self@.memory;
        let mut unnamed: Vec<MetricPoint<Value>> = no_points();
        emit(&mut unnamed, capacity(&self.endpoints[index]));
        let id = self.endpoints[index].id.clone();
        match &e.reply {
            Reply::Answered(answer) => {
                let names = resolved_names(&self.endpoints[index]);
                if self.endpoints[index].backend == Backend::Openai {
                    let nothing: Table<String, u64> = Table::new();
                    self.collect_answer(id.as_str(), &names, &nothing, e.now, &mut unnamed);
                } else {
                    self.collect_answer(id.as_str(), &names, answer, e.now, &mut unnamed);
                }
            },
            Reply::Unreachable => {
                self.collect_failure(id.as_str(), "ENDPOINT_UNREACHABLE", e.now, &mut unnamed);
            },
            Reply::Rejected => {
                self.collect_failure(id.as_str(), "ENDPOINT_HTTP_ERROR", e.now, &mut unnamed);
            },
            Reply::Unreadable => {
                self.collect_failure(id.as_str(), "ENDPOINT_BODY_ERROR", e.now, &mut unnamed);
            },
        }
        assert(views(unnamed@) =~= exchange_points(memory, config, *e));
        emit_named(points, unnamed, &self.endpoints[index]);
    }

    /// Collects the points of the endpoints; `exchanges` holds what querying
    /// each of them gave.
    pub fn collect(&mut self, exchanges: &Vec<Exchange>) -> (r: Vec<MetricPoint<Value>>)
        requires
            exchanges@.len() == old(self)@.endpoints.len(),
        ensures
            views(r@) == endpoints_points(old(self)@.memory, old(self)@.endpoints, exchanges@),
            final(self)@.memory == after_exchanges(
                old(self)@.memory,
                old(self)@.endpoints,
                exchanges@,
            ),
            final(self)@.endpoints == old(self)@.endpoints,
    {
        let ghost start = self@.memory;
        let ghost cs = self@.endpoints;
        let mut points: Vec<MetricPoint<Value>> = no_points();
        let mut i: usize = 0;
        while i < exchanges.len()
            invariant
                i <= exchanges@.len() == cs.len(),
                self@.endpoints == cs,
                views(points@) == endpoints_points(
                    start,
                    cs.take(i as int),
                    exchanges@.take(i as int),
                ),
                self@.memory == after_exchanges(
                    start,
                    cs.take(i as int),
                    exchanges@.take(i as int),
                ),
            decreases exchanges@.len() - i,
        {
            assert(cs.take(i + 1).drop_last() =~= cs.take(i as int));
            assert(exchanges@.take(i + 1).drop_last() =~= exchanges@.take(i as int));
            self.collect_endpoint(i, &exchanges[i], &mut points);
            i += 1;
        }
        assert(cs.take(i as int) =~= cs);
        assert(exchanges@.take(i as int) =~= exchanges@);
        points
    }
}

} // verus!
