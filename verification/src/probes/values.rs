//! What the points of the probes say.

use super::config::{
    auth_header_of, backend_name, is_header_name, is_header_value, names_of, url_of,
    AuthHeaderError, Backend, LlmEndpointConfig, ServiceConfig,
};
use super::llm::{
    after_exchange, after_exchanges, endpoint_points, endpoints_points, sample_of, samples_of,
    token_points, Baseline, Exchange, Memory, Reply,
};
use super::service::{
    after_cgroup, after_events, after_services, cgroup_points, counter_entry, events_points,
    property_entry, properties_of, service_points, services_points, Baselines, ServiceFiles,
};
use crate::doubles::at_least;
use crate::linux::values::tells;
use crate::schema::{InstrumentKind, Number, Point, Quality};
use crate::text::{
    fields_of, has_prefix, is_float, split_once_of, trim_end_of, trim_of, u64_of, Class,
};
use vstd::prelude::*;

verus! {

// --------------------------------------------------------------------------
// Tokens
// --------------------------------------------------------------------------

/// The total of a token counter says how far it went up, and its rate is that
/// of the same two numbers over the time between them. A counter that did not
/// change has equal ends in both.
pub proof fn law_rates_are_changes_over_time(
    past: Baseline,
    value: u64,
    now: u64,
    name: Seq<char>,
    rate: Seq<char>,
)
    requires
        at_least(value, past.value),
    ensures
        ({
            let points = token_points(Some(past), Some(value), now, name, rate);
            &&& points.len() == 2
            &&& points[0].name == name && points[0].unit == "{token}"@
            &&& points[0].instrument == InstrumentKind::CounterDelta
            &&& points[0].value == Some(Number::Change { now: value, earlier: past.value })
            &&& points[1].name == rate && points[1].unit == "{token}/s"@
            &&& points[1].instrument == InstrumentKind::Gauge
            &&& now > past.observed ==> points[1].value == Some(
                Number::Rate {
                    now: value,
                    earlier: past.value,
                    nanos: (now - past.observed) as u64,
                },
            )
            &&& now <= past.observed ==> points[1].value == Some(Number::Count(0))
        }),
{
}

/// Between two answers of a server that follow each other, its token counters
/// say how far they went up from the one to the other: what it read under its
/// input name as input tokens and the prefill rate, what it read under its
/// output name as output tokens and the generation rate.
pub proof fn law_tokens_count_between_answers(
    m: Memory,
    c: LlmEndpointConfig,
    a: Exchange,
    b: Exchange,
    first: crate::table::Table<String, u64>,
    second: crate::table::Table<String, u64>,
    input: Seq<char>,
    output: Seq<char>,
)
    requires
        a.reply == Reply::Answered(first),
        b.reply == Reply::Answered(second),
        c.backend != Backend::Openai,
        names_of(c).input_tokens == Some(input),
        names_of(c).output_tokens == Some(output),
        first@.contains_key(input) && second@.contains_key(input),
        first@.contains_key(output) && second@.contains_key(output),
        at_least(second@[input], first@[input]),
        at_least(second@[output], first@[output]),
        a.now < b.now,
    ensures
        ({
            let points = endpoint_points(after_exchange(m, c, a), c, b);
            let nanos = (b.now - a.now) as u64;
            &&& points.len() >= 11
            &&& points[7].name == "spark.llm.tokens.input"@ && points[7].value == Some(
                Number::Change { now: second@[input], earlier: first@[input] },
            )
            &&& points[8].name == "spark.llm.tokens.prefill.rate"@ && points[8].value == Some(
                Number::Rate { now: second@[input], earlier: first@[input], nanos },
            )
            &&& points[9].name == "spark.llm.tokens.output"@ && points[9].value == Some(
                Number::Change { now: second@[output], earlier: first@[output] },
            )
            &&& points[10].name == "spark.llm.tokens.generation.rate"@ && points[10].value == Some(
                Number::Rate { now: second@[output], earlier: first@[output], nanos },
            )
        }),
{
    reveal_strlit("spark.llm.tokens.input");
    reveal_strlit("spark.llm.tokens.output");
    assert("spark.llm.tokens.input"@.len() == 22);
    assert("spark.llm.tokens.output"@.len() == 23);
}

/// A failed exchange changes nothing that is remembered, and an answer nothing
/// of other endpoints.
pub proof fn law_endpoints_are_remembered_apart(
    m: Memory,
    c: LlmEndpointConfig,
    e: Exchange,
    other: Seq<char>,
    name: Seq<char>,
)
    requires
        other != c.id@,
    ensures
        ({
            let n = after_exchange(m, c, e);
            &&& e.reply !is Answered ==> n == m
            &&& n.started == m.started
            &&& n.last_success.contains_key(other) == m.last_success.contains_key(other)
                && n.last_success[other] == m.last_success[other]
            &&& n.baselines.contains_key((other, name)) == m.baselines.contains_key((other, name))
                && n.baselines[(other, name)] == m.baselines[(other, name)]
            &&& e.reply is Answered ==> n.last_success.contains_key(c.id@)
                && n.last_success[c.id@] == e.now
        }),
{
}

// --------------------------------------------------------------------------
// Endpoints
// --------------------------------------------------------------------------

/// A server that answers is available, without an error and with a fresh
/// response; its running and queued requests and its uptime are what it exposes
/// under their names, and a generation rate of its own is told behind the rest.
pub proof fn law_answers_are_told(
    m: Memory,
    c: LlmEndpointConfig,
    e: Exchange,
    answer: crate::table::Table<String, u64>,
)
    requires
        e.reply == Reply::Answered(answer),
        c.backend != Backend::Openai,
    ensures
        ({
            let points = endpoint_points(m, c, e);
            let names = names_of(c);
            &&& points.len() >= 11
            &&& tells(points[1], "spark.llm.response.age"@, "s"@, Number::Count(0))
            &&& tells(points[2], "spark.llm.collection.errors"@, "{error}"@, Number::Count(0))
            &&& tells(points[3], "spark.llm.available"@, "1"@, Number::Count(1))
            &&& names.running matches Some(k) ==> (answer@.contains_key(k) ==> tells(
                points[5],
                "spark.llm.requests.running"@,
                "{request}"@,
                Number::Bits(answer@[k]),
            ))
            &&& names.queued matches Some(k) ==> (answer@.contains_key(k) ==> tells(
                points[6],
                "spark.llm.requests.queued"@,
                "{request}"@,
                Number::Bits(answer@[k]),
            ))
            &&& names.uptime matches Some(k) ==> (answer@.contains_key(k) ==> tells(
                points[4],
                "spark.llm.uptime"@,
                "s"@,
                Number::Bits(answer@[k]),
            ))
            &&& names.generation_rate matches Some(k) ==> (answer@.contains_key(k) ==> points.len()
                == 12 && tells(
                points[11],
                "spark.llm.tokens.generation.rate"@,
                "{token}/s"@,
                Number::Bits(answer@[k]),
            ))
        }),
{
}

/// A server that fails is not available, for the reason of its failure, and its
/// response is as old as its last answer, or as the probe where it never
/// answered.
pub proof fn law_failures_are_told(m: Memory, c: LlmEndpointConfig, e: Exchange)
    requires
        e.reply !is Answered,
    ensures
        ({
            let points = endpoint_points(m, c, e);
            let since = if m.last_success.contains_key(c.id@) {
                m.last_success[c.id@]
            } else {
                m.started
            };
            &&& points.len() == 4
            &&& tells(
                points[1],
                "spark.llm.response.age"@,
                "s"@,
                Number::Seconds(
                    (if e.now >= since {
                        e.now - since
                    } else {
                        0
                    }) as u64,
                ),
            )
            &&& tells(points[2], "spark.llm.collection.errors"@, "{error}"@, Number::Count(1))
            &&& points[3].name == "spark.llm.available"@ && points[3].value is None
                && points[3].quality == Quality::Error
            &&& e.reply is Unreachable ==> points[3].error_code == Some("ENDPOINT_UNREACHABLE"@)
            &&& e.reply is Rejected ==> points[3].error_code == Some("ENDPOINT_HTTP_ERROR"@)
            &&& e.reply is Unreadable ==> points[3].error_code == Some("ENDPOINT_BODY_ERROR"@)
        }),
{
}

/// Every point of an endpoint names it, its kind and its model, and the first
/// tells its configured capacity.
pub proof fn law_endpoints_are_named(m: Memory, c: LlmEndpointConfig, e: Exchange, i: int)
    requires
        0 <= i < endpoint_points(m, c, e).len(),
    ensures
        ({
            let p = endpoint_points(m, c, e)[i];
            &&& p.attributes.contains_key("llm.endpoint.id"@) && p.attributes["llm.endpoint.id"@]
                == c.id@
            &&& p.attributes.contains_key("llm.backend"@) && p.attributes["llm.backend"@]
                == backend_name(c.backend)
            &&& c.served_model_id matches Some(model) ==> p.attributes.contains_key(
                "llm.model.id"@,
            ) && p.attributes["llm.model.id"@] == model@
        }),
        c.context_capacity matches Some(n) ==> tells(
            endpoint_points(m, c, e)[0],
            "spark.llm.context.capacity"@,
            "{token}"@,
            Number::Count(n),
        ),
{
    reveal_strlit("llm.endpoint.id");
    reveal_strlit("llm.backend");
    reveal_strlit("llm.model.id");
    assert("llm.endpoint.id"@.len() == 15);
    assert("llm.backend"@.len() == 11);
    assert("llm.model.id"@.len() == 12);
}

/// The points of all endpoints are those of each, in their order, each seeing
/// what was remembered after the ones before it.
pub proof fn law_endpoints_follow_each_other(
    m: Memory,
    cs: Seq<LlmEndpointConfig>,
    es: Seq<Exchange>,
    c: LlmEndpointConfig,
    e: Exchange,
)
    requires
        cs.len() == es.len(),
    ensures
        endpoints_points(m, cs.push(c), es.push(e)) == endpoints_points(m, cs, es)
            + endpoint_points(after_exchanges(m, cs, es), c, e),
        after_exchanges(m, cs.push(c), es.push(e)) == after_exchange(
            after_exchanges(m, cs, es),
            c,
            e,
        ),
        endpoints_points(m, Seq::empty(), Seq::empty()) == Seq::<Point<Number>>::empty(),
        after_exchanges(m, Seq::empty(), Seq::empty()) == m,
{
    assert(cs.push(c).drop_last() =~= cs);
    assert(es.push(e).drop_last() =~= es);
}

// --------------------------------------------------------------------------
// Names, addresses and headers
// --------------------------------------------------------------------------

/// A configured name is used, and otherwise the one of the kind of server.
pub proof fn law_configured_names_come_first(c: LlmEndpointConfig)
    ensures
        c.backend == Backend::Sglang && c.metric_names.running is None ==> names_of(c).running
            == Some("sglang:num_running_reqs"@),
        c.backend == Backend::Sglang && c.metric_names.queued is None ==> names_of(c).queued
            == Some("sglang:num_queue_reqs"@),
        c.backend == Backend::Sglang && c.metric_names.input_tokens is None
            ==> names_of(c).input_tokens == Some("sglang:prompt_tokens_total"@),
        c.backend == Backend::Sglang && c.metric_names.output_tokens is None
            ==> names_of(c).output_tokens == Some("sglang:generation_tokens_total"@),
        c.backend == Backend::Sglang && c.metric_names.generation_rate is None
            ==> names_of(c).generation_rate == Some("sglang:gen_throughput"@),
        c.backend == Backend::Vllm && c.metric_names.running is None ==> names_of(c).running
            == Some("vllm:num_requests_running"@),
        c.backend == Backend::Vllm && c.metric_names.queued is None ==> names_of(c).queued
            == Some("vllm:num_requests_waiting"@),
        c.backend == Backend::Vllm && c.metric_names.input_tokens is None
            ==> names_of(c).input_tokens == Some("vllm:prompt_tokens_total"@),
        c.backend == Backend::Vllm && c.metric_names.output_tokens is None
            ==> names_of(c).output_tokens == Some("vllm:generation_tokens_total"@),
        c.backend == Backend::Vllm && c.metric_names.generation_rate is None
            ==> names_of(c).generation_rate == None::<Seq<char>>,
        c.backend == Backend::LlamaCpp && c.metric_names.running is None ==> names_of(c).running
            == Some("llamacpp:requests_processing"@),
        c.backend == Backend::LlamaCpp && c.metric_names.queued is None ==> names_of(c).queued
            == Some("llamacpp:requests_deferred"@),
        c.backend == Backend::LlamaCpp && c.metric_names.input_tokens is None
            ==> names_of(c).input_tokens == Some("llamacpp:prompt_tokens_total"@),
        c.backend == Backend::LlamaCpp && c.metric_names.output_tokens is None
            ==> names_of(c).output_tokens == Some("llamacpp:tokens_predicted_total"@),
        c.backend == Backend::LlamaCpp && c.metric_names.generation_rate is None
            ==> names_of(c).generation_rate == Some("llamacpp:predicted_tokens_seconds"@),
        c.backend == Backend::Openai && c.metric_names.running is None ==> names_of(c).running
            == None::<Seq<char>>,
        c.backend == Backend::Openai && c.metric_names.queued is None ==> names_of(c).queued
            == None::<Seq<char>>,
        c.backend == Backend::Openai && c.metric_names.input_tokens is None
            ==> names_of(c).input_tokens == None::<Seq<char>>,
        c.backend == Backend::Openai && c.metric_names.output_tokens is None
            ==> names_of(c).output_tokens == None::<Seq<char>>,
        c.backend == Backend::Openai && c.metric_names.generation_rate is None
            ==> names_of(c).generation_rate == None::<Seq<char>>,
        c.backend == Backend::Custom && c.metric_names.running is None ==> names_of(c).running
            == None::<Seq<char>>,
        c.backend == Backend::Custom && c.metric_names.queued is None ==> names_of(c).queued
            == None::<Seq<char>>,
        c.backend == Backend::Custom && c.metric_names.input_tokens is None
            ==> names_of(c).input_tokens == None::<Seq<char>>,
        c.backend == Backend::Custom && c.metric_names.output_tokens is None
            ==> names_of(c).output_tokens == None::<Seq<char>>,
        c.backend == Backend::Custom && c.metric_names.generation_rate is None
            ==> names_of(c).generation_rate == None::<Seq<char>>,
        c.metric_names.running matches Some(name) ==> names_of(c).running == Some(name@),
        c.metric_names.queued matches Some(name) ==> names_of(c).queued == Some(name@),
        c.metric_names.input_tokens matches Some(name) ==> names_of(c).input_tokens == Some(name@),
        c.metric_names.output_tokens matches Some(name) ==> names_of(c).output_tokens
            == Some(name@),
        c.metric_names.generation_rate matches Some(name) ==> names_of(c).generation_rate
            == Some(name@),
        c.metric_names.uptime matches Some(name) ==> names_of(c).uptime == Some(name@),
        c.metric_names.uptime is None ==> names_of(c).uptime is None,
{
}

/// An endpoint is queried below its base, which may end in slashes: at its
/// metrics path, or where the interface of OpenAI lists the models.
pub proof fn law_endpoints_are_queried_below_their_base(c: LlmEndpointConfig)
    ensures
        c.backend != Backend::Openai ==> url_of(c) == trim_end_of(c.base_url@, Class::Only('/'))
            + c.metrics_path@,
        c.backend == Backend::Openai ==> url_of(c) == trim_end_of(c.base_url@, Class::Only('/'))
            + "/v1/models"@,
{
}

/// A header file gives its trimmed name and value exactly if both can stand in
/// a header.
pub proof fn law_headers_are_checked(raw: Seq<char>, name: Seq<char>, value: Seq<char>)
    requires
        split_once_of(trim_of(raw), Class::Only(':')) == Some((name, value)),
    ensures
        auth_header_of(raw) is Ok <==> is_header_name(trim_of(name)) && is_header_value(
            trim_of(value),
        ),
        auth_header_of(raw) matches Ok(h) ==> h == (trim_of(name), trim_of(value)),
        auth_header_of(raw) == Err::<(Seq<char>, Seq<char>), AuthHeaderError>(
            AuthHeaderError::InvalidName,
        ) <==> !is_header_name(trim_of(name)),
{
}

/// A sample line gives the number behind its series, under the name before the
/// labels; comments give none.
pub proof fn law_sample_lines_are_read(line: Seq<char>)
    ensures
        has_prefix(trim_of(line), "#"@) ==> sample_of(line) is None,
        ({
            let f = fields_of(trim_of(line));
            !has_prefix(trim_of(line), "#"@) && f.len() >= 2 && is_float(f[1]) ==> (sample_of(
                line,
            ) matches Some((name, number)) && number == f[1] && (split_once_of(
                f[0],
                Class::Only('{'),
            ) is None ==> name == f[0]) && (split_once_of(
                f[0],
                Class::Only('{'),
            ) matches Some((before, _)) ==> name == before))
        }),
{
}

/// Each sample line adds its number to those of its metric, behind the others,
/// and to no other metric.
pub proof fn law_samples_are_gathered(rows: Seq<Seq<char>>, line: Seq<char>, other: Seq<char>)
    ensures
        samples_of(Seq::empty()) == Map::<Seq<char>, Seq<Seq<char>>>::empty(),
        sample_of(line) is None ==> samples_of(rows.push(line)) == samples_of(rows),
        sample_of(line) matches Some((name, number)) ==> {
            let before = samples_of(rows);
            let after = samples_of(rows.push(line));
            &&& after.contains_key(name)
            &&& before.contains_key(name) ==> after[name] == before[name].push(number)
            &&& !before.contains_key(name) ==> after[name] == seq![number]
            &&& other != name ==> after.contains_key(other) == before.contains_key(other)
                && after[other] == before[other]
        },
{
    assert(rows.push(line).drop_last() =~= rows);
}

// --------------------------------------------------------------------------
// Services
// --------------------------------------------------------------------------

/// A service is active exactly where its properties say so; its restarts are
/// the number that they give, and its state, process and start are named.
pub proof fn law_services_tell_their_properties(
    b: Baselines,
    unit: Seq<char>,
    files: ServiceFiles,
    raw: String,
)
    requires
        files.properties == Some(raw),
        properties_of(raw@).contains_key("ActiveState"@),
        !properties_of(raw@).contains_key("LoadState"@) || properties_of(raw@)["LoadState"@]
            != "not-found"@,
    ensures
        ({
            let v = properties_of(raw@);
            let points = service_points(b, unit, files);
            let a = points[0].attributes;
            &&& points.len() >= 2
            &&& tells(
                points[0],
                "spark.service.active"@,
                "1"@,
                Number::Count(
                    if v["ActiveState"@] == "active"@ {
                        1
                    } else {
                        0
                    },
                ),
            )
            &&& a.contains_key("systemd.unit"@) && a["systemd.unit"@] == unit
            &&& a.contains_key("systemd.substate"@) == v.contains_key("SubState"@)
            &&& v.contains_key("SubState"@) ==> a["systemd.substate"@] == v["SubState"@]
            &&& a.contains_key("process.pid"@) == (v.contains_key("MainPID"@) && v["MainPID"@]
                != "0"@)
            &&& a.contains_key("process.pid"@) ==> a["process.pid"@] == v["MainPID"@]
            &&& a.contains_key("systemd.active_enter_timestamp_monotonic_us"@) == (v.contains_key(
                "ActiveEnterTimestampMonotonic"@,
            ) && v["ActiveEnterTimestampMonotonic"@] != "0"@)
            &&& a.contains_key("systemd.active_enter_timestamp_monotonic_us"@)
                ==> a["systemd.active_enter_timestamp_monotonic_us"@]
                == v["ActiveEnterTimestampMonotonic"@]
            &&& v.contains_key("NRestarts"@) && is_float(v["NRestarts"@]) ==> tells(
                points[1],
                "spark.service.restarts"@,
                "{restart}"@,
                Number::Text(v["NRestarts"@]),
            )
            &&& points[1].attributes == Map::<Seq<char>, Seq<char>>::empty().insert(
                "systemd.unit"@,
                unit,
            )
        }),
{
    reveal_strlit("systemd.unit");
    reveal_strlit("systemd.substate");
    reveal_strlit("process.pid");
    reveal_strlit("systemd.active_enter_timestamp_monotonic_us");
    assert("systemd.unit"@.len() == 12);
    assert("systemd.substate"@.len() == 16);
    assert("process.pid"@.len() == 11);
    assert("systemd.active_enter_timestamp_monotonic_us"@.len() == 43);
}

/// Of the memory events of a service, kills for lack of memory are told as
/// such, and the others by their names; each counter is then what its next one
/// is compared with.
pub proof fn law_memory_events_are_told(
    b: Baselines,
    unit: Seq<char>,
    events: Seq<(Seq<char>, u64)>,
    event: Seq<char>,
    value: u64,
)
    ensures
        ({
            let before = after_events(b, unit, events);
            let all = events_points(b, unit, events.push((event, value)));
            let p = all.last();
            &&& all.len() == events.len() + 1
            &&& all.drop_last() == events_points(b, unit, events)
            &&& event == "oom_kill"@ ==> p.name == "system.memory.oom_kills"@
            &&& event != "oom_kill"@ ==> p.name == "system.memory.cgroup.events"@
            &&& p.unit == "{event}"@
            &&& before.contains_key((unit, event)) ==> p.value == Some(
                Number::Count(
                    (if value >= before[(unit, event)] {
                        value - before[(unit, event)]
                    } else {
                        0
                    }) as u64,
                ),
            )
            &&& !before.contains_key((unit, event)) ==> p.value is None
            &&& p.attributes == Map::<Seq<char>, Seq<char>>::empty().insert(
                "systemd.unit"@,
                unit,
            ).insert("cgroup.scope"@, "service"@).insert("cgroup.memory.event"@, event)
            &&& after_events(b, unit, events.push((event, value))) == before.insert(
                (unit, event),
                value,
            )
        }),
        events_points(b, unit, Seq::empty()).len() == 0,
        after_events(b, unit, Seq::empty()) == b,
    decreases events.len(),
{
    let all = events_points(b, unit, events.push((event, value)));
    assert(events.push((event, value)).drop_last() =~= events);
    if events.len() > 0 {
        let (last_event, last_value) = events.last();
        law_memory_events_are_told(b, unit, events.drop_last(), last_event, last_value);
        assert(events.drop_last().push(events.last()) =~= events);
    }
    assert(all.drop_last() =~= events_points(b, unit, events));
}

/// The pages that reclaim of a service scanned are told behind its events, and
/// only for a service with a control group.
pub proof fn law_service_reclaim_is_told(
    b: Baselines,
    unit: Seq<char>,
    files: ServiceFiles,
    raw: String,
)
    requires
        files.memory_stat == Some(raw),
        super::service::counters_of(raw@).contains_key("pgscan"@),
        files.memory_events is None,
    ensures
        ({
            let points = cgroup_points(b, unit, files);
            let n = super::service::counters_of(raw@)["pgscan"@];
            &&& points.len() == 1
            &&& points[0].name == "system.memory.reclaim"@ && points[0].unit == "{page}"@
            &&& b.contains_key((unit, "pgscan"@)) ==> points[0].value == Some(
                Number::Count(
                    (if n >= b[(unit, "pgscan"@)] {
                        n - b[(unit, "pgscan"@)]
                    } else {
                        0
                    }) as u64,
                ),
            )
            &&& !b.contains_key((unit, "pgscan"@)) ==> points[0].value is None
            &&& after_cgroup(b, unit, files) == b.insert((unit, "pgscan"@), n)
        }),
{
}

/// The points of all services are those of each, in their order, each seeing
/// what was remembered after the ones before it.
pub proof fn law_services_follow_each_other(
    b: Baselines,
    configs: Seq<ServiceConfig>,
    files: Seq<ServiceFiles>,
    c: ServiceConfig,
    f: ServiceFiles,
)
    requires
        configs.len() == files.len(),
    ensures
        services_points(b, configs.push(c), files.push(f)) == services_points(b, configs, files)
            + service_points(after_services(b, configs, files), c.name@, f),
        services_points(b, Seq::empty(), Seq::empty()) == Seq::<Point<Number>>::empty(),
        after_services(b, Seq::empty(), Seq::empty()) == b,
{
    assert(configs.push(c).drop_last() =~= configs);
    assert(files.push(f).drop_last() =~= files);
}

/// A property line is cut at its first equals sign, and a counter line at its
/// first white space.
pub proof fn law_property_lines_are_read(line: Seq<char>, key: Seq<char>, value: Seq<char>)
    ensures
        split_once_of(line, Class::Only('=')) == Some((key, value)) ==> property_entry(line)
            == Some((key, value)),
        split_once_of(line, Class::Space) == Some((key, value)) && u64_of(trim_of(value)) is Some
            ==> counter_entry(line) == Some((key, u64_of(trim_of(value))->0)),
        split_once_of(line, Class::Space) == Some((key, value)) && u64_of(trim_of(value)) is None
            ==> counter_entry(line) is None,
{
}

} // verus!
