//! What the points of the probes say where something is not known, and where
//! their numbers come from.

use super::config::{auth_header_of, backend_name, AuthHeaderError, Backend, LlmEndpointConfig};
use super::llm::{
    after_exchange, capacity_point, endpoint_points, sample_of, token_points, value_point, Baseline,
    Exchange, Memory, Reply,
};
use super::service::{
    after_cgroup, after_service, cgroup_change, cgroup_points, control_group_of, counters_of,
    events_points, properties_of, service_points, Baselines, ServiceFiles,
};
use crate::doubles::at_least;
use crate::linux::absences::lacks;
use crate::linux::values::tells;
use crate::schema::{InstrumentKind, Number, Quality};
use crate::table::{lemma_lists, lists, Table};
use crate::text::laws::{free_of, made_of};
use crate::text::{fields_of, find, is_float, lemma_find, split_once_of, trim_of, Class};
use vstd::prelude::*;

verus! {

// --------------------------------------------------------------------------
// Model servers
// --------------------------------------------------------------------------

/// A token counter that is first read, or went down, waits for the next reading,
/// and so does its rate; one that is not exposed is unsupported.
pub proof fn law_missing_tokens_are_told(
    past: Baseline,
    value: u64,
    now: u64,
    name: Seq<char>,
    rate: Seq<char>,
)
    ensures
        ({
            let first = token_points(None, Some(value), now, name, rate);
            &&& first.len() == 2
            &&& lacks(first[0], name, "{token}"@, Quality::Stale, "BASELINE_INITIALIZING"@)
            &&& lacks(first[1], rate, "{token}/s"@, Quality::Stale, "BASELINE_INITIALIZING"@)
        }),
        !at_least(value, past.value) ==> token_points(Some(past), Some(value), now, name, rate)
            == token_points(None, Some(value), now, name, rate),
        ({
            let absent = token_points(Some(past), None, now, name, rate);
            &&& absent.len() == 2
            &&& lacks(absent[0], name, "{token}"@, Quality::Unsupported, "METRIC_NOT_EXPOSED"@)
            &&& lacks(absent[1], rate, "{token}/s"@, Quality::Unsupported, "METRIC_NOT_EXPOSED"@)
        }),
        at_least(value, past.value) ==> ({
            let points = token_points(Some(past), Some(value), now, name, rate);
            &&& points[0].quality == Quality::Derived && points[1].quality == Quality::Derived
            &&& points[0].source == "prometheus"@ && points[1].source == "prometheus"@
        }),
{
}

/// A metric that a server exposes under its name is measured; one without a
/// name, or that the server lacks, is unsupported.
pub proof fn law_exposed_metrics_are_told(
    metrics: Map<Seq<char>, u64>,
    key: Seq<char>,
    name: Seq<char>,
    unit: Seq<char>,
)
    ensures
        metrics.contains_key(key) ==> tells(
            value_point(metrics, Some(key), name, unit),
            name,
            unit,
            Number::Bits(metrics[key]),
        ) && value_point(metrics, Some(key), name, unit).quality == Quality::Measured,
        !metrics.contains_key(key) ==> lacks(
            value_point(metrics, Some(key), name, unit),
            name,
            unit,
            Quality::Unsupported,
            "METRIC_NOT_EXPOSED"@,
        ),
        lacks(
            value_point(metrics, None, name, unit),
            name,
            unit,
            Quality::Unsupported,
            "METRIC_NOT_EXPOSED"@,
        ),
{
}

/// A context capacity that is not configured is unsupported.
pub proof fn law_capacities_are_configured(c: LlmEndpointConfig)
    ensures
        c.context_capacity is None ==> lacks(
            capacity_point(c),
            "spark.llm.context.capacity"@,
            "{token}"@,
            Quality::Unsupported,
            "CONTEXT_CAPACITY_NOT_CONFIGURED"@,
        ),
        c.context_capacity matches Some(n) ==> tells(
            capacity_point(c),
            "spark.llm.context.capacity"@,
            "{token}"@,
            Number::Count(n),
        ) && capacity_point(c).quality == Quality::Measured,
        capacity_point(c).source == "config"@,
{
}

/// A server with the OpenAI interface is available when it answers; whatever it
/// answers, it exposes no metrics, and no counter of it is remembered.
pub proof fn law_openai_servers_expose_nothing(
    m: Memory,
    c: LlmEndpointConfig,
    e: Exchange,
    answer: Table<String, u64>,
    i: int,
)
    requires
        e.reply == Reply::Answered(answer),
        c.backend == Backend::Openai,
    ensures
        ({
            let points = endpoint_points(m, c, e);
            &&& points.len() == 11
            &&& tells(points[3], "spark.llm.available"@, "1"@, Number::Count(1))
            &&& 4 <= i < 11 ==> points[i].value is None && points[i].error_code == Some(
                "METRIC_NOT_EXPOSED"@,
            )
        }),
        after_exchange(m, c, e).baselines == m.baselines,
        after_exchange(m, c, e).last_success == m.last_success.insert(c.id@, e.now),
{
}

/// The kinds of model servers have names.
pub proof fn law_backends_have_names()
    ensures
        backend_name(Backend::Sglang) == "sglang"@,
        backend_name(Backend::Vllm) == "vllm"@,
        backend_name(Backend::LlamaCpp) == "llama_cpp"@,
        backend_name(Backend::Openai) == "openai"@,
        backend_name(Backend::Custom) == "custom"@,
{
}

/// What an answer tells of the server itself comes from the request, and the
/// rest from its metrics.
pub proof fn law_answers_name_their_source(m: Memory, c: LlmEndpointConfig, e: Exchange, i: int)
    requires
        0 <= i < endpoint_points(m, c, e).len(),
    ensures
        ({
            let p = endpoint_points(m, c, e)[i];
            &&& i == 0 ==> p.source == "config"@
            &&& 1 <= i <= 3 ==> p.source == "http"@
            &&& i > 3 ==> p.source == "prometheus"@
            &&& i == 1 ==> p.quality == Quality::Derived
            &&& i == 2 ==> p.quality == Quality::Measured
            &&& i == 3 && e.reply is Answered ==> p.quality == Quality::Measured
        }),
{
}

/// A file without a colon holds no header, and one with a wrong value is refused
/// for that.
pub proof fn law_other_headers_are_refused(raw: Seq<char>)
    ensures
        split_once_of(trim_of(raw), Class::Only(':')) is None ==> auth_header_of(raw) == Err::<
            (Seq<char>, Seq<char>),
            AuthHeaderError,
        >(AuthHeaderError::NotAHeader),
        auth_header_of(raw) == Err::<(Seq<char>, Seq<char>), AuthHeaderError>(
            AuthHeaderError::InvalidValue,
        ) ==> split_once_of(trim_of(raw), Class::Only(':')) is Some,
        free_of(trim_of(raw), Class::Only(':')) ==> auth_header_of(raw) is Err,
{
    lemma_find(trim_of(raw), Class::Only(':'));
}

/// A line without two fields, or whose second field is no number, gives no
/// sample.
pub proof fn law_other_lines_give_no_sample(line: Seq<char>)
    ensures
        fields_of(trim_of(line)).len() < 2 ==> sample_of(line) is None,
        fields_of(trim_of(line)).len() >= 2 && !is_float(fields_of(trim_of(line))[1]) ==> sample_of(
            line,
        ) is None,
{
}

// --------------------------------------------------------------------------
// Services
// --------------------------------------------------------------------------

/// A service that cannot be queried, or that there is none of, is an error; what
/// was counted of it stays.
pub proof fn law_unknown_services_are_told(b: Baselines, unit: Seq<char>, files: ServiceFiles)
    requires
        files.properties matches Some(raw) ==> properties_of(raw@).contains_key("LoadState"@)
            && properties_of(raw@)["LoadState"@] == "not-found"@,
    ensures
        ({
            let points = service_points(b, unit, files);
            &&& points.len() == 1
            &&& lacks(
                points[0],
                "spark.service.active"@,
                "1"@,
                Quality::Error,
                "SYSTEMD_QUERY_FAILED"@,
            )
            &&& points[0].attributes == map!["systemd.unit"@ => unit]
        }),
        after_service(b, unit, files) == b,
{
}

/// A service whose state is not known is an error; restarts that are no number
/// are an error, and those that are not counted are unsupported.
pub proof fn law_missing_properties_are_told(
    b: Baselines,
    unit: Seq<char>,
    files: ServiceFiles,
    raw: String,
)
    requires
        files.properties == Some(raw),
        !properties_of(raw@).contains_key("LoadState"@) || properties_of(raw@)["LoadState"@]
            != "not-found"@,
    ensures
        ({
            let v = properties_of(raw@);
            let points = service_points(b, unit, files);
            &&& points.len() >= 2
            &&& !v.contains_key("ActiveState"@) ==> lacks(
                points[0],
                "spark.service.active"@,
                "1"@,
                Quality::Error,
                "SYSTEMD_PROPERTY_MISSING"@,
            )
            &&& v.contains_key("ActiveState"@) ==> points[0].quality == Quality::Measured
            &&& !v.contains_key("NRestarts"@) ==> lacks(
                points[1],
                "spark.service.restarts"@,
                "{restart}"@,
                Quality::Unsupported,
                "SYSTEMD_PROPERTY_MISSING"@,
            )
            &&& v.contains_key("NRestarts"@) && !is_float(v["NRestarts"@]) ==> lacks(
                points[1],
                "spark.service.restarts"@,
                "{restart}"@,
                Quality::Error,
                "SYSTEMD_PROPERTY_INVALID"@,
            )
            &&& v.contains_key("NRestarts"@) && is_float(v["NRestarts"@]) ==> points[1].quality
                == Quality::Measured
            &&& points[0].source == "systemd"@ && points[1].source == "systemd"@
        }),
{
}

/// The counters of a control group are told, and remembered, exactly where the
/// service names one.
pub proof fn law_control_groups_are_told(
    b: Baselines,
    unit: Seq<char>,
    files: ServiceFiles,
    raw: String,
)
    requires
        files.properties == Some(raw),
        !properties_of(raw@).contains_key("LoadState"@) || properties_of(raw@)["LoadState"@]
            != "not-found"@,
    ensures
        ({
            let v = properties_of(raw@);
            let named = v.contains_key("ControlGroup"@) && v["ControlGroup"@].len() > 0;
            let points = service_points(b, unit, files);
            &&& named ==> points.skip(2) == cgroup_points(b, unit, files) && after_service(
                b,
                unit,
                files,
            ) == after_cgroup(b, unit, files)
            &&& !named ==> points.len() == 2 && after_service(b, unit, files) == b
        }),
{
    let v = properties_of(raw@);
    if v.contains_key("ControlGroup"@) && v["ControlGroup"@].len() > 0 {
        assert(service_points(b, unit, files).skip(2) =~= cgroup_points(b, unit, files));
    }
}

/// A text is a path behind some slashes.
pub open spec fn leads(slashes: Seq<char>, path: Seq<char>, s: Seq<char>) -> bool {
    made_of(slashes, Class::Only('/')) && s == slashes + path
}

/// The path of a control group is what it names, without the slashes that it
/// begins with.
pub proof fn law_control_groups_are_relative(values: Map<Seq<char>, Seq<char>>)
    requires
        values.contains_key("ControlGroup"@),
        values["ControlGroup"@].len() > 0,
    ensures
        control_group_of(values) matches Some(path) && (path.len() > 0 ==> path[0] != '/'),
        control_group_of(values) matches Some(path) && exists|slashes: Seq<char>|
            leads(slashes, path, values["ControlGroup"@]),
{
    let v = values["ControlGroup"@];
    let k = find(v, Class::Except('/')) as int;
    lemma_find(v, Class::Except('/'));
    let slashes = v.take(k);
    let path = v.skip(k);
    assert forall|i: int| 0 <= i < slashes.len() implies Class::Only('/').has(
        #[trigger] slashes[i],
    ) by {
        assert(!Class::Except('/').has(v[i]));
    }
    assert(v =~= slashes + path);
    assert(leads(slashes, path, v));
}

/// A counter of a control group that is first read waits for the next reading.
pub proof fn law_first_events_are_told(
    b: Baselines,
    unit: Seq<char>,
    event: Seq<char>,
    value: u64,
    metric: Seq<char>,
    metric_unit: Seq<char>,
)
    ensures
        !b.contains_key((unit, event)) ==> lacks(
            cgroup_change(b, unit, event, value, metric, metric_unit),
            metric,
            metric_unit,
            Quality::Stale,
            "BASELINE_INITIALIZING"@,
        ),
        b.contains_key((unit, event)) ==> ({
            let p = cgroup_change(b, unit, event, value, metric, metric_unit);
            p.instrument == InstrumentKind::CounterDelta && p.quality == Quality::Derived
        }),
        cgroup_change(b, unit, event, value, metric, metric_unit).source == "cgroupfs"@,
{
}

/// The events of a control group are those that its file lists.
pub proof fn law_listed_events_are_told(
    b: Baselines,
    unit: Seq<char>,
    files: ServiceFiles,
    raw: String,
    listing: Seq<(Seq<char>, u64)>,
)
    requires
        files.memory_events == Some(raw),
        files.memory_stat is None,
        lists::<String, u64>(listing, counters_of(raw@)),
    ensures
        cgroup_points(b, unit, files) == events_points(b, unit, listing),
{
    lemma_lists::<String, u64>(listing, counters_of(raw@));
}

} // verus!
