//! What holds of the agent's envelopes, events and publications.

use super::envelope::{
    after_observation, age_point, agent_points_of, has_success, letter_of, rfc3339_text, Ages,
    Clock,
};
use super::events::{
    after_connection, after_point, after_points, after_service_point, after_service_points,
    collector_event, connection_events_of, errors_in, limit_texts_of, point_events,
    service_event, service_events_of, system_events, xid_event, Reported,
};
use super::inventory::{host_inventory_of, model_in, HostFiles};
use super::naming::{hash_of, is_component, jitter_ceiling, jitter_of, sanitized, subject_of};
use super::publish::{
    after_event, due, is_due, reaction, Latest, PublisherAction, PublisherEvent, Session,
};
use super::schedule::{
    is_medium_due, is_ordered, is_slow_due, suffix_of, ticks_of, validity_of, Batch, Cadence,
};
use crate::doubles::{at_least, less};
use crate::linux::inventory::{inventory_of, InventoryFiles};
use crate::linux::values::{capped, tells};
use crate::schema::{Message, Number, Origin, Point, Quality, Severity};
use crate::text::{decimal, is_alphanumeric, is_float, trim_of};
use vstd::prelude::*;

verus! {

// --------------------------------------------------------------------------
// Envelopes
// --------------------------------------------------------------------------

/// An envelope tells the version of the schema, whose it is, when its signal was
/// observed, how long that took and how long it is valid; numbers that are out
/// of range become the largest one in range.
pub proof fn law_envelopes_tell_their_signal(
    node: Origin,
    boot_id: Seq<char>,
    sequence: u64,
    signal: Message,
    duration_ms: u128,
    valid_for_ms: u128,
    clock: Clock,
)
    ensures
        ({
            let l = letter_of(node, boot_id, sequence, signal, duration_ms, valid_for_ms, clock);
            &&& l.schema == "spark.signal/v1"@
            &&& l.node == node
            &&& l.boot_id == boot_id
            &&& l.sequence == capped(sequence + 1)
            &&& l.observed_at == rfc3339_text(clock.unix_millis)
            &&& l.monotonic_ns == capped(clock.elapsed_ns as int)
            &&& l.collection_duration_ms == capped(duration_ms as int)
            &&& l.valid_for_ms == capped(valid_for_ms as int)
            &&& l.signal == signal
        }),
{
}

/// The age of a collector counts from its last collection with a value of good
/// quality, or from the start; other collectors do not matter.
pub proof fn law_ages_count_from_the_last_value(
    a: Ages,
    domain: Seq<char>,
    points: Seq<Point<u64>>,
    other: Seq<char>,
    now: u64,
)
    ensures
        ({
            let p = age_point(a, domain, points, now);
            let b = after_observation(a, domain, points, now);
            &&& p.name == "spark.agent.collector.age"@ && p.unit == "s"@
            &&& p.attributes.contains_key("collector.domain"@)
                && p.attributes["collector.domain"@] == domain
            &&& has_success(points) ==> p.value == Some(Number::Seconds(0))
            &&& has_success(points) ==> b.last_success == a.last_success.insert(domain, now)
            &&& !has_success(points) ==> b == a
            &&& !has_success(points) && a.last_success.contains_key(domain)
                && a.last_success[domain] <= now ==> p.value == Some(
                Number::Seconds((now - a.last_success[domain]) as u64),
            )
            &&& !has_success(points) && !a.last_success.contains_key(domain) && a.started <= now
                ==> p.value == Some(Number::Seconds((now - a.started) as u64))
            &&& b.started == a.started
            &&& other != domain ==> b.last_success.contains_key(other)
                == a.last_success.contains_key(other)
            &&& other != domain && a.last_success.contains_key(other) ==> b.last_success[other]
                == a.last_success[other]
        }),
{
}

/// A collection has a value of good quality exactly if one of its points has
/// one that was measured, derived or estimated.
pub proof fn law_values_of_good_quality_count(points: Seq<Point<u64>>, i: int)
    requires
        0 <= i < points.len(),
        points[i].value is Some,
    ensures
        points[i].quality == Quality::Measured ==> has_success(points),
        points[i].quality == Quality::Derived ==> has_success(points),
        points[i].quality == Quality::Estimated ==> has_success(points),
        has_success(seq![points[i]]) <==> points[i].quality == Quality::Measured
            || points[i].quality == Quality::Derived || points[i].quality == Quality::Estimated,
{
    if has_success(seq![points[i]]) {
        let j = choose|j: int|
            0 <= j < 1 && super::envelope::is_success(#[trigger] seq![points[i]][j]);
        assert(seq![points[i]][j] == points[i]);
    } else {
        assert(seq![points[i]][0] == points[i]);
    }
}

/// The agent tells how long its last collection took, how many errors it had,
/// how often it reconnected and how many events it dropped.
pub proof fn law_the_agent_tells_its_numbers(
    duration_ns: u64,
    errors: u64,
    reconnects: u64,
    dropped: u64,
)
    ensures
        ({
            let ps = agent_points_of(duration_ns, errors, reconnects, dropped);
            &&& ps.len() == 4
            &&& tells(
                ps[0],
                "spark.agent.collection.duration"@,
                "s"@,
                Number::Seconds(duration_ns),
            )
            &&& tells(
                ps[1],
                "spark.agent.collection.errors"@,
                "{error}"@,
                Number::Count(errors),
            )
            &&& tells(
                ps[2],
                "spark.agent.nats.reconnects"@,
                "{reconnect}"@,
                Number::Count(reconnects),
            )
            &&& tells(
                ps[3],
                "spark.agent.events.dropped"@,
                "{event}"@,
                Number::Count(dropped),
            )
        }),
{
}

// --------------------------------------------------------------------------
// Health events
// --------------------------------------------------------------------------

/// An event with a severity, a code and a message.
pub open spec fn says(m: Message, severity: Severity, code: Seq<char>, message: Seq<char>) -> bool {
    m matches Message::HealthEvent { severity: s, code: c, message: t, .. } && s == severity && c
        == code && t == message
}

/// The attributes of an event.
pub open spec fn carries(m: Message, attributes: Map<Seq<char>, Seq<char>>) -> bool {
    m matches Message::HealthEvent { attributes: a, .. } && a == attributes
}

proof fn lemma_point_names()
    ensures
        "system.network.link.up"@ != "system.filesystem.read_only"@,
        "system.network.link.up"@ != "system.temperature"@,
        "system.network.link.up"@ != "system.memory.oom_kills"@,
        "system.filesystem.read_only"@ != "system.temperature"@,
        "system.filesystem.read_only"@ != "system.memory.oom_kills"@,
        "system.temperature"@ != "system.memory.oom_kills"@,
{
    reveal_strlit("system.network.link.up");
    reveal_strlit("system.filesystem.read_only");
    reveal_strlit("system.temperature");
    reveal_strlit("system.memory.oom_kills");
    assert("system.network.link.up"@.len() == 22);
    assert("system.filesystem.read_only"@.len() == 27);
    assert("system.temperature"@.len() == 18);
    assert("system.memory.oom_kills"@.len() == 23);
}

/// A link that has been seen up and is below one half raises the loss of its
/// carrier, one that has been seen down and is not raises its return, each link
/// for itself.
pub proof fn law_links_raise_their_carrier(
    states: Map<Seq<char>, u8>,
    p: Point<u64>,
    numbers: Map<Seq<char>, u64>,
)
    requires
        p.name == "system.network.link.up"@,
        p.value is Some,
        p.attributes.contains_key("network.interface.name"@),
    ensures
        ({
            let key = "network:"@ + p.attributes["network.interface.name"@];
            let down = less(p.value->0, 0x3fe0_0000_0000_0000);
            let events = point_events(states, p, numbers);
            &&& after_point(states, p, numbers) == states.insert(
                key,
                if down {
                    1
                } else {
                    0
                },
            )
            &&& down && (!states.contains_key(key) || states[key] == 0) ==> events.len() == 1
                && says(
                events[0],
                Severity::Warning,
                "NETWORK_CARRIER_LOST"@,
                "physical network carrier was lost"@,
            ) && carries(events[0], p.attributes)
            &&& !down && states.contains_key(key) && states[key] == 1 ==> events.len() == 1
                && says(
                events[0],
                Severity::Info,
                "NETWORK_CARRIER_RESTORED"@,
                "physical network carrier was restored"@,
            ) && carries(events[0], p.attributes)
            &&& !down && !states.contains_key(key) ==> events.len() == 0
            &&& down && states.contains_key(key) && states[key] == 1 ==> events.len() == 0
            &&& !down && states.contains_key(key) && states[key] == 0 ==> events.len() == 0
        }),
{
    lemma_point_names();
}

/// A filesystem that becomes read-only is critical, and raises another event
/// when it is writable again.
pub proof fn law_filesystems_raise_their_state(
    states: Map<Seq<char>, u8>,
    p: Point<u64>,
    numbers: Map<Seq<char>, u64>,
)
    requires
        p.name == "system.filesystem.read_only"@,
        p.value is Some,
        p.attributes.contains_key("mountpoint"@),
    ensures
        ({
            let key = "filesystem:"@ + p.attributes["mountpoint"@];
            let locked = less(0x3fe0_0000_0000_0000, p.value->0);
            let events = point_events(states, p, numbers);
            &&& after_point(states, p, numbers) == states.insert(
                key,
                if locked {
                    2
                } else {
                    0
                },
            )
            &&& locked && (!states.contains_key(key) || states[key] == 0) ==> events.len() == 1
                && says(
                events[0],
                Severity::Critical,
                "FILESYSTEM_READ_ONLY"@,
                "filesystem became read-only"@,
            ) && carries(events[0], p.attributes)
            &&& !locked && states.contains_key(key) && states[key] == 2 ==> events.len() == 1
                && says(
                events[0],
                Severity::Info,
                "FILESYSTEM_WRITABLE"@,
                "filesystem is writable again"@,
            ) && carries(events[0], p.attributes)
            &&& !locked && !states.contains_key(key) ==> events.len() == 0
            &&& locked && states.contains_key(key) && states[key] == 2 ==> events.len() == 0
            &&& !locked && states.contains_key(key) && states[key] == 0 ==> events.len() == 0
        }),
{
    lemma_point_names();
}

/// A measured temperature at its critical limit is critical, one at its maximum
/// limit alone a warning, and one below both is fine again; a limit that is no
/// number does not count.
pub proof fn law_temperatures_raise_their_limits(
    states: Map<Seq<char>, u8>,
    p: Point<u64>,
    numbers: Map<Seq<char>, u64>,
)
    requires
        p.name == "system.temperature"@,
        p.quality == Quality::Measured,
        p.value is Some,
        p.attributes.contains_key("sensor"@),
        p.attributes.contains_key("channel"@),
    ensures
        ({
            let key = "temperature:"@ + p.attributes["sensor"@] + ":"@ + p.attributes["channel"@];
            let critical = p.attributes.contains_key("temperature.limit.critical_celsius"@)
                && numbers.contains_key(p.attributes["temperature.limit.critical_celsius"@])
                && at_least(
                p.value->0,
                numbers[p.attributes["temperature.limit.critical_celsius"@]],
            );
            let high = p.attributes.contains_key("temperature.limit.max_celsius"@)
                && numbers.contains_key(p.attributes["temperature.limit.max_celsius"@])
                && at_least(
                p.value->0,
                numbers[p.attributes["temperature.limit.max_celsius"@]],
            );
            let events = point_events(states, p, numbers);
            let after = after_point(states, p, numbers);
            &&& critical ==> after == states.insert(key, 2)
            &&& !critical && high ==> after == states.insert(key, 1)
            &&& !critical && !high ==> after == states.insert(key, 0)
            &&& critical && (!states.contains_key(key) || states[key] != 2) ==> events.len() == 1
                && says(
                events[0],
                Severity::Critical,
                "THERMAL_CRITICAL"@,
                "temperature reached its critical limit"@,
            ) && carries(events[0], p.attributes)
            &&& !critical && high && (!states.contains_key(key) || states[key] != 1)
                ==> events.len() == 1 && says(
                events[0],
                Severity::Warning,
                "THERMAL_WARNING"@,
                "temperature reached its maximum limit"@,
            ) && carries(events[0], p.attributes)
            &&& !critical && !high && states.contains_key(key) && states[key] != 0
                ==> events.len() == 1 && says(
                events[0],
                Severity::Info,
                "THERMAL_RECOVERED"@,
                "temperature returned below its configured limits"@,
            ) && carries(events[0], p.attributes)
            &&& !critical && !high && !states.contains_key(key) ==> events.len() == 0
            &&& states.contains_key(key) && after.contains_key(key) && states[key] == after[key]
                ==> events.len() == 0
        }),
{
    lemma_point_names();
}

/// Kills for lack of memory are critical each time, and change no condition; a
/// point without a value, or of another metric, raises nothing.
pub proof fn law_kills_raise_each_time(
    states: Map<Seq<char>, u8>,
    p: Point<u64>,
    numbers: Map<Seq<char>, u64>,
)
    ensures
        p.name == "system.memory.oom_kills"@ && p.value is Some && less(0, p.value->0) ==> ({
            let events = point_events(states, p, numbers);
            &&& events.len() == 1
            &&& says(
                events[0],
                Severity::Critical,
                "MEMORY_OOM_KILL"@,
                "one or more OOM kills were observed"@,
            )
            &&& carries(events[0], p.attributes)
        }),
        p.name == "system.memory.oom_kills"@ && p.value is Some && !less(0, p.value->0)
            ==> point_events(states, p, numbers).len() == 0,
        p.name == "system.memory.oom_kills"@ ==> after_point(states, p, numbers) == states,
        p.value is None ==> point_events(states, p, numbers).len() == 0 && after_point(
            states,
            p,
            numbers,
        ) == states,
        p.name != "system.memory.oom_kills"@ && p.name != "system.network.link.up"@ && p.name
            != "system.filesystem.read_only"@ && p.name != "system.temperature"@ ==> point_events(
            states,
            p,
            numbers,
        ).len() == 0 && after_point(states, p, numbers) == states,
        p.name == "system.temperature"@ && p.quality != Quality::Measured ==> point_events(
            states,
            p,
            numbers,
        ).len() == 0 && after_point(states, p, numbers) == states,
{
    lemma_point_names();
}

/// The events of some points are those of the points in their order, each under
/// the conditions that the points before it leave.
pub proof fn law_points_are_looked_at_in_order(
    states: Map<Seq<char>, u8>,
    ps: Seq<Point<u64>>,
    p: Point<u64>,
    numbers: Map<Seq<char>, u64>,
)
    ensures
        system_events(states, ps.push(p), numbers) == system_events(states, ps, numbers)
            + point_events(after_points(states, ps, numbers), p, numbers),
        after_points(states, ps.push(p), numbers) == after_point(
            after_points(states, ps, numbers),
            p,
            numbers,
        ),
        system_events(states, Seq::empty(), numbers) == Seq::<Message>::empty(),
        after_points(states, Seq::empty(), numbers) == states,
{
    assert(ps.push(p).drop_last() =~= ps);
}

/// The limits of a temperature are read where they are numbers, the critical
/// one first.
pub proof fn law_limits_are_read(p: Point<u64>)
    ensures
        p.attributes.contains_key("temperature.limit.critical_celsius"@) && is_float(
            p.attributes["temperature.limit.critical_celsius"@],
        ) ==> limit_texts_of(p).contains(p.attributes["temperature.limit.critical_celsius"@]),
        p.attributes.contains_key("temperature.limit.max_celsius"@) && is_float(
            p.attributes["temperature.limit.max_celsius"@],
        ) ==> limit_texts_of(p).contains(p.attributes["temperature.limit.max_celsius"@]),
        limit_texts_of(p).len() <= 2,
        forall|i: int|
            0 <= i < limit_texts_of(p).len() ==> is_float(#[trigger] limit_texts_of(p)[i]),
{
    let all = limit_texts_of(p);
    if p.attributes.contains_key("temperature.limit.critical_celsius"@) && is_float(
        p.attributes["temperature.limit.critical_celsius"@],
    ) {
        assert(all[0] == p.attributes["temperature.limit.critical_celsius"@]);
    }
    if p.attributes.contains_key("temperature.limit.max_celsius"@) && is_float(
        p.attributes["temperature.limit.max_celsius"@],
    ) {
        assert(all.last() == p.attributes["temperature.limit.max_celsius"@]);
    }
}

/// A GPU point that counts critical errors raises one event, with what it says
/// of them; no other point does.
pub proof fn law_gpu_errors_raise_events(p: Point<u64>)
    ensures
        p.name == "nvidia.gpu.xid.count"@ && p.value is Some && less(0, p.value->0)
            ==> xid_event(p).len() == 1 && says(
            xid_event(p)[0],
            Severity::Critical,
            "NVIDIA_XID"@,
            "NVIDIA reported a critical Xid event"@,
        ) && carries(xid_event(p)[0], p.attributes),
        p.name != "nvidia.gpu.xid.count"@ || p.value is None || !less(0, p.value->0)
            ==> xid_event(p).len() == 0,
{
}

/// A service that was active and is so no longer is an error, one that becomes
/// active again is good news, and the first sight of one raises nothing.
pub proof fn law_services_raise_their_state(states: Map<Seq<char>, bool>, p: Point<u64>)
    ensures
        p.name == "spark.service.active"@ && p.value is Some && p.attributes.contains_key(
            "systemd.unit"@,
        ) ==> ({
            let unit = p.attributes["systemd.unit"@];
            let active = less(0x3fe0_0000_0000_0000, p.value->0);
            let events = service_event(states, p);
            &&& after_service_point(states, p) == states.insert(unit, active)
            &&& active && states.contains_key(unit) && !states[unit] ==> events.len() == 1 && says(
                events[0],
                Severity::Info,
                "SERVICE_STATE_CHANGED"@,
                "configured service became active"@,
            ) && carries(events[0], map!["systemd.unit"@ => unit])
            &&& !active && states.contains_key(unit) && states[unit] ==> events.len() == 1 && says(
                events[0],
                Severity::Error,
                "SERVICE_STATE_CHANGED"@,
                "configured service became inactive"@,
            ) && carries(events[0], map!["systemd.unit"@ => unit])
            &&& !states.contains_key(unit) ==> events.len() == 0
            &&& states.contains_key(unit) && states[unit] == active ==> events.len() == 0
        }),
        p.name != "spark.service.active"@ || p.value is None ==> service_event(states, p).len() == 0
            && after_service_point(states, p) == states,
{
}

/// The events of services follow the order of their points.
pub proof fn law_services_are_looked_at_in_order(
    states: Map<Seq<char>, bool>,
    ps: Seq<Point<u64>>,
    p: Point<u64>,
)
    ensures
        service_events_of(states, ps.push(p)) == service_events_of(states, ps) + service_event(
            after_service_points(states, ps),
            p,
        ),
        after_service_points(states, ps.push(p)) == after_service_point(
            after_service_points(states, ps),
            p,
        ),
        service_events_of(states, Seq::empty()) == Seq::<Message>::empty(),
        after_service_points(states, Seq::empty()) == states,
{
    assert(ps.push(p).drop_last() =~= ps);
}

/// Each point that reports an error counts once, wherever it stands, and no
/// other point counts.
pub proof fn law_errors_are_counted(a: Seq<Point<u64>>, b: Seq<Point<u64>>, p: Point<u64>)
    ensures
        errors_in(a + b) == errors_in(a) + errors_in(b),
        p.quality == Quality::Error ==> errors_in(seq![p]) == 1,
        p.quality != Quality::Error ==> errors_in(seq![p]) == 0,
        errors_in(Seq::empty()) == 0,
    decreases b.len(),
{
    reveal_with_fuel(errors_in, 2);
    if b.len() == 0 {
        assert(a + b =~= a);
    } else {
        assert((a + b).drop_last() =~= a + b.drop_last());
        law_errors_are_counted(a, b.drop_last(), p);
    }
    assert(seq![p].drop_last() =~= Seq::empty());
}

/// Collectors that begin to report errors raise a warning, those that cease to
/// raise good news, and nothing is raised while nothing changes.
pub proof fn law_collectors_raise_their_state(r: Reported)
    ensures
        !r.had_errors ==> collector_event(r, true).len() == 1 && says(
            collector_event(r, true)[0],
            Severity::Warning,
            "COLLECTOR_DEGRADED"@,
            "one or more collectors reported errors"@,
        ),
        r.had_errors ==> collector_event(r, false).len() == 1 && says(
            collector_event(r, false)[0],
            Severity::Info,
            "COLLECTOR_RECOVERED"@,
            "collectors recovered"@,
        ),
        collector_event(r, r.had_errors).len() == 0,
{
}

/// A connection that was restored since the last look is told once, and with it
/// that events were dropped, if more were than had been told.
pub proof fn law_connections_raise_their_return(r: Reported, reconnects: u64, dropped: u64)
    ensures
        ({
            let events = connection_events_of(r, reconnects, dropped);
            let after = after_connection(r, reconnects, dropped);
            &&& reconnects > r.reconnects ==> events.len() >= 1 && says(
                events[0],
                Severity::Info,
                "NATS_RECONNECTED"@,
                "NATS connection was restored"@,
            )
            &&& reconnects > r.reconnects && dropped > r.dropped ==> events.len() == 2 && says(
                events[1],
                Severity::Warning,
                "EVENTS_DROPPED"@,
                "health events were dropped while the publication queue was full"@,
            )
            &&& reconnects > r.reconnects && dropped <= r.dropped ==> events.len() == 1
            &&& reconnects <= r.reconnects ==> events.len() == 0
            &&& connection_events_of(after, reconnects, dropped).len() == 0
            &&& after.had_errors == r.had_errors
            &&& reconnects > r.reconnects ==> after.reconnects == reconnects && after.dropped
                >= dropped && after.dropped >= r.dropped && (after.dropped == dropped
                || after.dropped == r.dropped)
            &&& reconnects <= r.reconnects ==> after == r
        }),
{
}

// --------------------------------------------------------------------------
// Names
// --------------------------------------------------------------------------

/// A component holds letters, digits, `_` and `-`, and at least one of them.
pub proof fn law_components_are_plain(s: Seq<char>, i: int)
    requires
        0 <= i < s.len(),
    ensures
        is_component(s) ==> is_alphanumeric(s[i]) || s[i] == '_' || s[i] == '-',
        !is_alphanumeric(s[i]) && s[i] != '_' && s[i] != '-' ==> !is_component(s),
        !is_component(Seq::empty()),
        sanitized(s).len() == s.len(),
        is_alphanumeric(s[i]) || s[i] == '_' || s[i] == '-' ==> sanitized(s)[i] == s[i],
        !is_alphanumeric(s[i]) && s[i] != '_' && s[i] != '-' ==> sanitized(s)[i] == '-',
        sanitized(Seq::empty()) == "unknown"@,
        (forall|j: int|
            0 <= j < s.len() ==> is_alphanumeric(#[trigger] s[j]) || s[j] == '_' || s[j] == '-')
            ==> is_component(s),
{
}

/// A subject names the version, the site, the node and what is published, in
/// this order and with full stops between them.
pub proof fn law_subjects_name_their_node(site: Seq<char>, node: Seq<char>, suffix: Seq<char>)
    ensures
        subject_of(site, node, suffix) == "spark.v1."@ + site + "."@ + node + "."@ + suffix,
{
}

/// The hash of a text goes over its bytes: from a fixed number on, each byte is
/// added to a fixed multiple, of which the low 64 bits stay.
pub proof fn law_hashes_go_over_all_bytes(bytes: Seq<u8>, b: u8, high: int, low: int)
    requires
        hash_of(bytes) * 1_099_511_628_211 + b == high * 0x1_0000_0000_0000_0000 + low,
        0 <= low < 0x1_0000_0000_0000_0000,
    ensures
        hash_of(bytes.push(b)) == low,
        hash_of(Seq::empty()) == 1_469_598_103_934_665_603,
{
    assert(bytes.push(b).drop_last() =~= bytes);
    vstd::arithmetic::div_mod::lemma_fundamental_div_mod_converse(
        hash_of(bytes) * 1_099_511_628_211 + b,
        0x1_0000_0000_0000_0000,
        high,
        low,
    );
}

/// A node waits less than a quarter of its interval, and less than half a second;
/// only an interval under four milliseconds leaves no room at all.
pub proof fn law_nodes_do_not_wait_long(node: Seq<char>, interval_ms: u128)
    ensures
        jitter_of(node, interval_ms) < 500,
        interval_ms >= 4 ==> 4 * jitter_of(node, interval_ms) < interval_ms,
        interval_ms < 4 ==> jitter_of(node, interval_ms) == 0,
        interval_ms >= 2000 ==> jitter_ceiling(interval_ms) == 500,
        4 <= interval_ms < 2000 ==> 4 * jitter_ceiling(interval_ms) <= interval_ms < 4
            * jitter_ceiling(interval_ms) + 4,
{
}

// --------------------------------------------------------------------------
// Publications
// --------------------------------------------------------------------------

/// A publication is due exactly if its subject has not been sent, or has been
/// sent with a lower number.
pub proof fn law_publications_are_due_until_sent(
    state: Latest,
    sent: Map<Seq<char>, u64>,
    subject: Seq<char>,
)
    requires
        state.contains_key(subject),
    ensures
        !sent.contains_key(subject) ==> is_due(state, sent, subject),
        sent.contains_key(subject) ==> is_due(state, sent, subject) == (sent[subject]
            < state[subject].sequence),
        is_due(state, sent, subject) <==> due(state, sent).contains(
            (state[subject].sequence, subject),
        ),
{
}

/// What is not published is not due, and a place names the number of its
/// publication.
pub proof fn law_only_publications_are_due(
    state: Latest,
    sent: Map<Seq<char>, u64>,
    place: (u64, Seq<char>),
)
    requires
        due(state, sent).contains(place),
    ensures
        state.contains_key(place.1),
        state[place.1].sequence == place.0,
{
}

/// New publications and new connections have the state sent, a health event is
/// sent itself, a lost connection is made anew, and a failed one after a pause;
/// a reconnection is counted, the first connection is not.
pub proof fn law_the_publisher_reacts(s: Session, e: PublisherEvent)
    ensures
        e is Unavailable ==> reaction(s, e) == PublisherAction::RetryLater,
        e is Established || e is StateChanged ==> reaction(s, e) == PublisherAction::SendState,
        e is EventQueued ==> reaction(s, e) == PublisherAction::SendEvent,
        e is AgentEnded ==> reaction(s, e) == PublisherAction::Stop,
        e is ClientConnected && s.connected == 0 ==> reaction(s, e) == PublisherAction::SendState,
        e is ClientConnected && s.connected > 0 ==> reaction(s, e)
            == PublisherAction::CountAndSendState,
        e is ClientSlow ==> reaction(s, e) == PublisherAction::Warn,
        e is ClientOther || e is Sent ==> reaction(s, e) == PublisherAction::Wait,
        e is ClientEnded || e is SendFailed ==> reaction(s, e) == PublisherAction::Connect,
        e is Established ==> after_event(s, e).connected == 0,
        e is ClientConnected ==> after_event(s, e).connected == capped(s.connected + 1),
        e is Established || e is ClientConnected ==> after_event(s, e).sent == Map::<
            Seq<char>,
            u64,
        >::empty(),
        e matches PublisherEvent::Sent { subject, sequence } ==> after_event(s, e).sent
            == s.sent.insert(subject@, sequence) && after_event(s, e).connected == s.connected,
        e !is Established && e !is ClientConnected && e !is Sent ==> after_event(s, e) == s,
{
}

// --------------------------------------------------------------------------
// Schedule
// --------------------------------------------------------------------------

/// As many hot samples as a longer interval takes cover it, and one fewer do
/// not.
pub proof fn law_ticks_cover_their_interval(longer: u64, interval: u64)
    requires
        0 < interval <= longer,
    ensures
        ticks_of(longer, interval) * interval >= longer,
        (ticks_of(longer, interval) - 1) * interval < longer,
{
    let n = longer + interval - 1;
    let q = n / interval as int;
    assert(q * interval <= n < (q + 1) * interval && 0 <= q <= n) by (nonlinear_arith)
        requires
            q == n / interval as int,
            interval > 0,
            n >= 0,
    ;
    assert(q <= longer) by (nonlinear_arith)
        requires
            q * interval <= n,
            n == longer + interval - 1,
            0 < interval <= longer,
            q >= 0,
    ;
    assert(ticks_of(longer, interval) == q);
    assert((q + 1) * interval == q * interval + interval) by (nonlinear_arith);
    assert((q - 1) * interval == q * interval - interval) by (nonlinear_arith);
}

/// The first sample is a medium one; after it medium and slow samples come
/// again after as many hot samples as their interval takes, and not before.
pub proof fn law_samples_come_again(c: Cadence, tick: u64, n: int, k: u64)
    requires
        0 < c.interval,
        is_ordered(c),
        0 < n,
    ensures
        is_medium_due(c, 1),
        tick == n * ticks_of(c.medium, c.interval) ==> is_medium_due(c, tick),
        tick == n * ticks_of(c.slow, c.interval) ==> is_slow_due(c, tick),
        tick == n * ticks_of(c.medium, c.interval) + k && 0 < k < ticks_of(c.medium, c.interval)
            && tick != 1 ==> !is_medium_due(c, tick),
        tick == n * ticks_of(c.slow, c.interval) + k && 0 < k < ticks_of(c.slow, c.interval)
            ==> !is_slow_due(c, tick),
{
    let m = ticks_of(c.medium, c.interval) as int;
    let s = ticks_of(c.slow, c.interval) as int;
    law_ticks_cover_their_interval(c.medium, c.interval);
    law_ticks_cover_their_interval(c.slow, c.interval);
    assert(m > 0) by (nonlinear_arith)
        requires
            m * c.interval >= c.medium,
            c.medium > 0,
            c.interval > 0,
    ;
    assert(s > 0) by (nonlinear_arith)
        requires
            s * c.interval >= c.slow,
            c.slow > 0,
            c.interval > 0,
    ;
    vstd::arithmetic::div_mod::lemma_mod_multiples_basic(n, m);
    vstd::arithmetic::div_mod::lemma_mod_multiples_basic(n, s);
    if 0 < k < m {
        vstd::arithmetic::div_mod::lemma_fundamental_div_mod_converse(n * m + k, m, n, k as int);
    }
    if 0 < k < s {
        vstd::arithmetic::div_mod::lemma_fundamental_div_mod_converse(n * s + k, s, n, k as int);
    }
}

/// Intervals are in order exactly if none is shorter than the one before.
pub proof fn law_intervals_are_in_order(c: Cadence)
    ensures
        is_ordered(c) <==> c.interval <= c.medium && c.medium <= c.slow,
{
}

/// Each batch has a subject of its own.
pub proof fn law_batches_have_their_subjects()
    ensures
        suffix_of(Batch::Status) == "status.agent"@,
        suffix_of(Batch::Inventory) == "inventory"@,
        suffix_of(Batch::System) == "sample.system"@,
        suffix_of(Batch::Network) == "sample.network"@,
        suffix_of(Batch::Storage) == "sample.storage"@,
        suffix_of(Batch::Nvidia) == "sample.nvidia"@,
        suffix_of(Batch::Service) == "sample.service"@,
        suffix_of(Batch::Llm) == "sample.llm"@,
        suffix_of(Batch::Event) == "event.health"@,
{
}

/// A sample is valid for three of its intervals; what is not sampled at an
/// interval is valid for a fixed time.
pub proof fn law_batches_are_valid_for_a_while(c: Cadence)
    ensures
        validity_of(Batch::Status, c) == 10_000,
        validity_of(Batch::Inventory, c) == 120_000,
        validity_of(Batch::System, c) == 3 * (1000 * c.interval),
        validity_of(Batch::Network, c) == 3 * (1000 * c.interval),
        validity_of(Batch::Nvidia, c) == 3 * (1000 * c.interval),
        validity_of(Batch::Storage, c) == 3 * (1000 * c.medium),
        validity_of(Batch::Service, c) == 30_000,
        validity_of(Batch::Llm, c) == 30_000,
        validity_of(Batch::Event, c) == 60_000,
{
}

// --------------------------------------------------------------------------
// Inventory
// --------------------------------------------------------------------------

/// The inventory of a host lists what its files say, each file under its own
/// name, besides its hardware.
pub proof fn law_host_files_are_listed(hardware: InventoryFiles, host: HostFiles, key: Seq<char>)
    ensures
        ({
            let m = host_inventory_of(hardware, host);
            &&& host.kernel matches Some(s) ==> m.contains_key("host.kernel.version"@)
                && m["host.kernel.version"@] == trim_of(s@)
            &&& host.product matches Some(s) ==> m.contains_key("host.product.name"@)
                && m["host.product.name"@] == trim_of(s@)
            &&& host.board matches Some(s) ==> m.contains_key("host.board.name"@)
                && m["host.board.name"@] == trim_of(s@)
            &&& host.processors matches Some(n) ==> m.contains_key("host.cpu.logical.count"@)
                && m["host.cpu.logical.count"@] == decimal(n as nat)
            &&& host.cpuinfo matches Some(s) ==> (model_in(crate::text::lines_of(s@)) matches Some(
                model,
            ) ==> m.contains_key("host.cpu.model"@) && m["host.cpu.model"@] == model)
            &&& key != "host.kernel.version"@ && key != "host.product.name"@ && key
                != "host.board.name"@ && key != "host.cpu.model"@ && key
                != "host.cpu.logical.count"@ ==> m.contains_key(key) == inventory_of(
                hardware,
            ).contains_key(key)
            &&& key != "host.kernel.version"@ && key != "host.product.name"@ && key
                != "host.board.name"@ && key != "host.cpu.model"@ && key
                != "host.cpu.logical.count"@ && m.contains_key(key) ==> m[key] == inventory_of(
                hardware,
            )[key]
        }),
{
    reveal_strlit("host.kernel.version");
    reveal_strlit("host.product.name");
    reveal_strlit("host.board.name");
    reveal_strlit("host.cpu.model");
    reveal_strlit("host.cpu.logical.count");
    assert("host.kernel.version"@.len() == 19 && "host.product.name"@.len() == 17);
    assert("host.board.name"@.len() == 15 && "host.cpu.model"@.len() == 14);
    assert("host.cpu.logical.count"@.len() == 22);
}

/// The model of the processor is what follows the heading of the first line
/// that has it.
pub proof fn law_the_first_model_counts(
    before: Seq<Seq<char>>,
    model: Seq<char>,
    rest: Seq<Seq<char>>,
)
    requires
        model_in(before) is None,
    ensures
        model_in(before.push("model name\t: "@ + model) + rest) == Some(model),
    decreases before.len(),
{
    let rows = before.push("model name\t: "@ + model) + rest;
    let heading = "model name\t: "@;
    if before.len() == 0 {
        assert(rows[0] == heading + model);
        assert((heading + model).subrange(0, heading.len() as int) =~= heading);
        assert((heading + model).skip(heading.len() as int) =~= model);
        assert((heading + model).subrange(
            heading.len() as int,
            (heading + model).len() as int,
        ) =~= model);
    } else {
        assert(rows[0] == before[0]);
        assert(rows.skip(1) =~= before.skip(1).push(heading + model) + rest);
        law_the_first_model_counts(before.skip(1), model, rest);
    }
}

/// What the agent tells of itself names it as the source; its ages are derived
/// and the rest is measured.
pub proof fn law_the_agent_names_itself(
    duration_ns: u64,
    errors: u64,
    reconnects: u64,
    dropped: u64,
    a: Ages,
    domain: Seq<char>,
    points: Seq<Point<u64>>,
    now: u64,
    i: int,
)
    requires
        0 <= i < 4,
    ensures
        agent_points_of(duration_ns, errors, reconnects, dropped)[i].source == "agent"@,
        agent_points_of(duration_ns, errors, reconnects, dropped)[i].quality == Quality::Measured,
        age_point(a, domain, points, now).source == "agent"@,
        age_point(a, domain, points, now).quality == Quality::Derived,
{
}

} // verus!
