//! What holds of all points of the probes.

use super::config::{backend_name, names_of, LlmEndpointConfig, Names, ServiceConfig};
use super::llm::{
    after_exchanges, after_tokens, answer_points, baseline_of, capacity_point, endpoint_points,
    endpoints_points, exchange_points, exposed, failure_code, failure_points, metrics_in,
    not_exposed, of_endpoint, own_rate_points, token_points, value_point, Baseline, Exchange, Memory,
    Reply,
};
use super::service::{
    active_point, activity, after_events, after_service, after_services, cgroup_change,
    cgroup_points, control_group_of, event_metric, event_point, events_in, events_points,
    known_properties, properties_of, property, restarts_point, scanned, service_points,
    services_points, with_nonzero, Baselines, ServiceFiles,
};
use crate::arith::minus;
use crate::catalogue::is_metric;
use crate::doubles::at_least;
use crate::schema::{
    all_sound, gauge_of, lemma_delta_sound, lemma_gauge_sound, lemma_joined_sound,
    lemma_unavailable_sound, lemma_with_sound, sound, unavailable_of, valued_where, InstrumentKind,
    Number, Point, Quality,
};
use crate::text::{is_float, optional};
use vstd::prelude::*;

verus! {

// --------------------------------------------------------------------------
// Services
// --------------------------------------------------------------------------

proof fn lemma_event(
    b: Baselines,
    unit: Seq<char>,
    event: Seq<char>,
    value: u64,
    metric: Seq<char>,
    metric_unit: Seq<char>,
)
    requires
        is_metric(metric),
    ensures
        sound(event_point(b, unit, event, value, metric, metric_unit)),
{
}

proof fn lemma_events(b: Baselines, unit: Seq<char>, events: Seq<(Seq<char>, u64)>)
    ensures
        all_sound(events_points(b, unit, events)),
    decreases events.len(),
{
    if events.len() > 0 {
        let rest = events.drop_last();
        let (event, value) = events.last();
        lemma_events(b, unit, rest);
        lemma_event(
            after_events(b, unit, rest),
            unit,
            event,
            value,
            event_metric(event),
            "{event}"@,
        );
    }
}

proof fn lemma_active(unit: Seq<char>, values: Map<Seq<char>, Seq<char>>)
    ensures
        sound(active_point(unit, values)),
        sound(restarts_point(unit, values)),
{
    let bare = activity(property(values, "ActiveState"@));
    assert(sound(bare));
    let point = bare.with("systemd.unit"@, unit);
    lemma_with_sound(bare, "systemd.unit"@, unit);
    let point = match property(values, "SubState"@) {
        Some(substate) => {
            lemma_with_sound(point, "systemd.substate"@, substate);
            point.with("systemd.substate"@, substate)
        },
        None => point,
    };
    let pid = property(values, "MainPID"@);
    let with_pid = with_nonzero(point, "process.pid"@, pid);
    if pid is Some {
        lemma_with_sound(point, "process.pid"@, pid->0);
    }
    let entered = property(values, "ActiveEnterTimestampMonotonic"@);
    if entered is Some {
        lemma_with_sound(
            with_pid,
            "systemd.active_enter_timestamp_monotonic_us"@,
            entered->0,
        );
    }
}

proof fn lemma_service(b: Baselines, unit: Seq<char>, files: ServiceFiles)
    ensures
        all_sound(service_points(b, unit, files)),
{
    match known_properties(optional(files.properties)) {
        Some(values) => {
            lemma_active(unit, values);
            let first = seq![active_point(unit, values), restarts_point(unit, values)];
            let events = events_in(optional(files.memory_events));
            lemma_events(b, unit, events);
            let last: Seq<Point<Number>> = match scanned(optional(files.memory_stat)) {
                Some(value) => {
                    let c = after_events(b, unit, events);
                    lemma_event(
                        c,
                        unit,
                        "pgscan"@,
                        value,
                        "system.memory.reclaim"@,
                        "{page}"@,
                    );
                    seq![
                        event_point(
                            c,
                            unit,
                            "pgscan"@,
                            value,
                            "system.memory.reclaim"@,
                            "{page}"@,
                        ),
                    ]
                },
                None => seq![],
            };
            lemma_joined_sound(events_points(b, unit, events), last);
            assert(cgroup_points(b, unit, files) == events_points(b, unit, events) + last);
            lemma_joined_sound(
                first,
                if control_group_of(values) is Some {
                    cgroup_points(b, unit, files)
                } else {
                    seq![]
                },
            );
        },
        None => {},
    }
}

/// Every point of the services names a metric and attributes of the catalogue; a
/// point without a value gives a reason, and one with a value gives none.
pub proof fn law_service_points_are_sound(
    b: Baselines,
    configs: Seq<ServiceConfig>,
    files: Seq<ServiceFiles>,
)
    requires
        configs.len() == files.len(),
    ensures
        all_sound(services_points(b, configs, files)),
    decreases configs.len(),
{
    if configs.len() > 0 {
        law_service_points_are_sound(b, configs.drop_last(), files.drop_last());
        let c = after_services(b, configs.drop_last(), files.drop_last());
        lemma_service(c, configs.last().name@, files.last());
        lemma_joined_sound(
            services_points(b, configs.drop_last(), files.drop_last()),
            service_points(c, configs.last().name@, files.last()),
        );
    }
}

/// A service gives a number only where its properties have it: its activity
/// where they name its state, its restarts where they write a number of them,
/// and its memory events where a file of its control group counts them. A unit that does not exist reads as a failed query, and a failed query
/// gives no number and changes no counter.
pub proof fn law_service_numbers_come_from_properties(
    b: Baselines,
    unit: Seq<char>,
    files: ServiceFiles,
)
    ensures
        ({
            let points = service_points(b, unit, files);
            match known_properties(optional(files.properties)) {
                Some(values) => {
                    &&& points.len() >= 2
                    &&& valued_where(
                        points[0],
                        "spark.service.active"@,
                        values.contains_key("ActiveState"@),
                    )
                    &&& valued_where(
                        points[1],
                        "spark.service.restarts"@,
                        values.contains_key("NRestarts"@) && is_float(values["NRestarts"@]),
                    )
                    &&& files.memory_events is None && files.memory_stat is None ==> points.len()
                        == 2 && after_service(b, unit, files) == b
                },
                None => {
                    &&& points.len() == 1
                    &&& valued_where(points[0], "spark.service.active"@, false)
                    &&& points[0].quality == Quality::Error
                    &&& points[0].error_code == Some("SYSTEMD_QUERY_FAILED"@)
                    &&& after_service(b, unit, files) == b
                },
            }
        }),
        files.properties is None ==> known_properties(optional(files.properties)) is None,
        files.properties matches Some(raw) ==> (property(properties_of(raw@), "LoadState"@) == Some(
            "not-found"@,
        ) ==> known_properties(optional(files.properties)) is None),
{
}

/// A counter of a control group that is seen for the first time gives no value,
/// and afterwards what it went up by, or zero if it went down; it is then what
/// the next one is compared with, and no other counter changes.
pub proof fn law_cgroup_counters_start_with_a_baseline(
    b: Baselines,
    unit: Seq<char>,
    event: Seq<char>,
    value: u64,
    metric: Seq<char>,
    metric_unit: Seq<char>,
)
    ensures
        ({
            let p = cgroup_change(b, unit, event, value, metric, metric_unit);
            let key = (unit, event);
            &&& !b.contains_key(key) ==> p.value is None && p.quality == Quality::Stale
                && p.error_code == Some("BASELINE_INITIALIZING"@)
            &&& b.contains_key(key) ==> p.instrument == InstrumentKind::CounterDelta && p.value
                == Some(
                Number::Count(
                    if value >= b[key] {
                        (value - b[key]) as u64
                    } else {
                        0
                    },
                ),
            )
            &&& p.name == metric && p.unit == metric_unit && p.source == "cgroupfs"@
            &&& p.attributes == Map::<Seq<char>, Seq<char>>::empty().insert(
                "systemd.unit"@,
                unit,
            ).insert("cgroup.scope"@, "service"@)
            &&& event_point(b, unit, event, value, metric, metric_unit) == p.with(
                "cgroup.memory.event"@,
                event,
            )
            &&& after_events(b, unit, seq![(event, value)]) == b.insert(key, value)
            &&& forall|other: (Seq<char>, Seq<char>)|
                other != key ==> #[trigger] b.insert(key, value).contains_key(other)
                    == b.contains_key(other) && b.insert(key, value)[other] == b[other]
        }),
{
    let events = seq![(event, value)];
    assert(events.drop_last() =~= Seq::<(Seq<char>, u64)>::empty());
    assert(after_events(b, unit, events.drop_last()) == b);
    assert(events.last() == (event, value));
}

// --------------------------------------------------------------------------
// Model servers
// --------------------------------------------------------------------------

proof fn lemma_value(
    metrics: Map<Seq<char>, u64>,
    source: Option<Seq<char>>,
    name: Seq<char>,
    unit: Seq<char>,
)
    requires
        is_metric(name),
    ensures
        sound(value_point(metrics, source, name, unit)),
{
}

proof fn lemma_pair(a: Point<Number>, b: Point<Number>)
    requires
        sound(a),
        sound(b),
    ensures
        all_sound(seq![a, b]),
{
}

proof fn lemma_tokens(
    past: Option<Baseline>,
    value: Option<u64>,
    now: u64,
    name: Seq<char>,
    rate: Seq<char>,
)
    requires
        is_metric(name),
        is_metric(rate),
    ensures
        all_sound(token_points(past, value, now, name, rate)),
{
    let points = token_points(past, value, now, name, rate);
    lemma_missing(name, "{token}"@);
    lemma_missing(rate, "{token}/s"@);
    match value {
        Some(bits) => if past is Some && at_least(bits, past->0.value) {
            lemma_delta_sound(
                name,
                Number::Change { now: bits, earlier: past->0.value },
                "{token}"@,
                "prometheus"@,
            );
            let nanos = minus(now, past->0.observed);
            lemma_gauge_sound(
                rate,
                if nanos > 0 {
                    Number::Rate { now: bits, earlier: past->0.value, nanos }
                } else {
                    Number::Count(0)
                },
                "{token}/s"@,
                Quality::Derived,
                "prometheus"@,
            );
        },
        None => {},
    }
    lemma_pair(points[0], points[1]);
    assert(points =~= seq![points[0], points[1]]);
}

/// The two ways in which a token metric can be missing.
proof fn lemma_missing(name: Seq<char>, unit: Seq<char>)
    requires
        is_metric(name),
    ensures
        sound(not_exposed(name, unit)),
        sound(
            unavailable_of::<Number>(
                name,
                unit,
                Quality::Stale,
                "prometheus"@,
                "BASELINE_INITIALIZING"@,
            ),
        ),
{
    lemma_unavailable_sound::<Number>(
        name,
        unit,
        Quality::Stale,
        "prometheus"@,
        "BASELINE_INITIALIZING"@,
    );
}

proof fn lemma_answer(
    m: Memory,
    id: Seq<char>,
    names: Names,
    metrics: Map<Seq<char>, u64>,
    now: u64,
)
    ensures
        all_sound(answer_points(m, id, names, metrics, now)),
{
    let input = exposed(metrics, names.input_tokens);
    let output = exposed(metrics, names.output_tokens);
    let in_name = "spark.llm.tokens.input"@;
    let out_name = "spark.llm.tokens.output"@;
    let later = after_tokens(m, id, in_name, input, now);
    lemma_value(metrics, names.uptime, "spark.llm.uptime"@, "s"@);
    lemma_value(metrics, names.running, "spark.llm.requests.running"@, "{request}"@);
    lemma_value(metrics, names.queued, "spark.llm.requests.queued"@, "{request}"@);
    let age = gauge_of(
        "spark.llm.response.age"@,
        Number::Count(0),
        "s"@,
        Quality::Derived,
        "http"@,
    );
    let errors = gauge_of(
        "spark.llm.collection.errors"@,
        Number::Count(0),
        "{error}"@,
        Quality::Measured,
        "http"@,
    );
    let available = gauge_of(
        "spark.llm.available"@,
        Number::Count(1),
        "1"@,
        Quality::Measured,
        "http"@,
    );
    assert(sound(age));
    assert(sound(errors));
    assert(sound(available));
    let a = seq![
        age,
        errors,
        available,
        value_point(metrics, names.uptime, "spark.llm.uptime"@, "s"@),
        value_point(metrics, names.running, "spark.llm.requests.running"@, "{request}"@),
        value_point(metrics, names.queued, "spark.llm.requests.queued"@, "{request}"@),
    ];
    let prefill = "spark.llm.tokens.prefill.rate"@;
    let generation = "spark.llm.tokens.generation.rate"@;
    lemma_tokens(baseline_of(m, id, in_name), input, now, in_name, prefill);
    lemma_tokens(baseline_of(later, id, out_name), output, now, out_name, generation);
    let b = token_points(baseline_of(m, id, in_name), input, now, in_name, prefill);
    let c = token_points(baseline_of(later, id, out_name), output, now, out_name, generation);
    let d = own_rate_points(metrics, names);
    lemma_joined_sound(a, b);
    lemma_joined_sound(a + b, c);
    lemma_joined_sound(a + b + c, d);
}

proof fn lemma_failure(m: Memory, id: Seq<char>, code: Seq<char>, now: u64)
    ensures
        all_sound(failure_points(m, id, code, now)),
{
}

proof fn lemma_of_endpoint(p: Point<Number>, c: LlmEndpointConfig)
    requires
        sound(p),
    ensures
        sound(of_endpoint(p, c)),
{
    let a = p.with("llm.endpoint.id"@, c.id@);
    lemma_with_sound(p, "llm.endpoint.id"@, c.id@);
    let b = a.with("llm.backend"@, backend_name(c.backend));
    lemma_with_sound(a, "llm.backend"@, backend_name(c.backend));
    match optional(c.served_model_id) {
        Some(model) => {
            lemma_with_sound(b, "llm.model.id"@, model);
        },
        None => {},
    }
}

proof fn lemma_endpoint(m: Memory, c: LlmEndpointConfig, e: Exchange)
    ensures
        all_sound(endpoint_points(m, c, e)),
{
    let first = seq![capacity_point(c)];
    match e.reply {
        Reply::Answered(answer) => {
            lemma_answer(m, c.id@, names_of(c), metrics_in(c, answer@), e.now);
            lemma_joined_sound(
                first,
                answer_points(m, c.id@, names_of(c), metrics_in(c, answer@), e.now),
            );
        },
        _ => {
            lemma_failure(m, c.id@, failure_code(e.reply), e.now);
            lemma_joined_sound(
                first,
                failure_points(m, c.id@, failure_code(e.reply), e.now),
            );
        },
    }
    let bare = exchange_points(m, c, e);
    let points = endpoint_points(m, c, e);
    assert forall|i: int| 0 <= i < points.len() implies sound(#[trigger] points[i]) by {
        lemma_of_endpoint(bare[i], c);
    }
}

/// Every point of the model servers names a metric and attributes of the
/// catalogue; a point without a value gives a reason, and one with a value gives
/// none.
pub proof fn law_llm_points_are_sound(
    m: Memory,
    cs: Seq<LlmEndpointConfig>,
    es: Seq<Exchange>,
)
    requires
        cs.len() == es.len(),
    ensures
        all_sound(endpoints_points(m, cs, es)),
    decreases cs.len(),
{
    if cs.len() > 0 {
        law_llm_points_are_sound(m, cs.drop_last(), es.drop_last());
        let n = after_exchanges(m, cs.drop_last(), es.drop_last());
        lemma_endpoint(n, cs.last(), es.last());
        lemma_joined_sound(
            endpoints_points(m, cs.drop_last(), es.drop_last()),
            endpoint_points(n, cs.last(), es.last()),
        );
    }
}

/// The first value of a token counter, and one below the last, give neither a
/// total nor a rate; they set the baseline for the next.
pub proof fn law_baselines_give_no_values(
    m: Memory,
    id: Seq<char>,
    value: u64,
    now: u64,
    name: Seq<char>,
    rate: Seq<char>,
)
    requires
        baseline_of(m, id, name) matches Some(past) ==> !at_least(value, past.value),
    ensures
        ({
            let points = token_points(baseline_of(m, id, name), Some(value), now, name, rate);
            &&& points.len() == 2
            &&& points[0].value is None && points[0].quality == Quality::Stale
            &&& points[1].value is None && points[1].quality == Quality::Stale
        }),
        baseline_of(after_tokens(m, id, name, Some(value), now), id, name) == Some(
            Baseline { value, observed: now },
        ),
{
}

/// An endpoint is represented whatever it replies: its availability is always
/// among its points, without a value and with an error where it failed.
pub proof fn law_endpoints_stay_represented(m: Memory, c: LlmEndpointConfig, e: Exchange)
    ensures
        exists|i: int|
            0 <= i < endpoint_points(m, c, e).len() && (#[trigger] endpoint_points(m, c, e)[i]).name
                == "spark.llm.available"@ && endpoint_points(m, c, e)[i].value is Some == (
            e.reply is Answered) && endpoint_points(m, c, e)[i].quality == (if e.reply is Answered {
                Quality::Measured
            } else {
                Quality::Error
            }),
{
    assert(endpoint_points(m, c, e)[3] == of_endpoint(exchange_points(m, c, e)[3], c));
}

/// A server that answers gives a number of a metric only where it exposes that
/// metric, and one that fails gives none but the age of its last answer, the
/// failure itself and the configured capacity.
pub proof fn law_server_numbers_come_from_metrics(
    metrics: Map<Seq<char>, u64>,
    source: Option<Seq<char>>,
    past: Option<Baseline>,
    now: u64,
    name: Seq<char>,
    rate: Seq<char>,
    unit: Seq<char>,
    m: Memory,
    c: LlmEndpointConfig,
    e: Exchange,
)
    ensures
        valued_where(
            value_point(metrics, source, name, unit),
            name,
            exposed(metrics, source) is Some,
        ),
        ({
            let points = token_points(past, exposed(metrics, source), now, name, rate);
            let known = exposed(metrics, source) matches Some(value) && past is Some && at_least(
                value,
                past->0.value,
            );
            &&& points.len() == 2
            &&& valued_where(points[0], name, known)
            &&& valued_where(points[1], rate, known)
        }),
        valued_where(
            capacity_point(c),
            "spark.llm.context.capacity"@,
            c.context_capacity is Some,
        ),
        e.reply !is Answered ==> {
            let points = exchange_points(m, c, e);
            &&& points.len() == 4
            &&& points[0] == capacity_point(c)
            &&& valued_where(points[1], "spark.llm.response.age"@, true)
            &&& valued_where(points[2], "spark.llm.collection.errors"@, true)
            &&& valued_where(points[3], "spark.llm.available"@, false)
        },
{
}

} // verus!
