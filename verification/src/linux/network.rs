//! Network interface points.

use super::parse::{network_of, parse_network, trimmed, trimmed_of, NetworkCounters};
use super::points::{
    change, change_of, counter, flag, flag_of, gauge, missing, optional_counter, reading, unavailable,
};
use crate::catalogue::is_metric;
use crate::doubles::{is_less, less, ZERO};
use crate::rows::{flat, lemma_flat};
use crate::schema::{emit, views, MetricPoint, Number, Point, Quality, Value};
use crate::table::{items_of, lemma_lists, lists, Table};
use crate::text::{optional, parse_u64, same, u64_of};
use vstd::prelude::*;

verus! {

/// The files of an interface under `/sys/class/net`.
pub struct InterfaceFiles {
    /// The content of `carrier_changes`.
    pub carrier_changes: Option<String>,
    /// Whether there is a `device` entry, which only hardware has.
    pub device: bool,
    /// The content of `operstate`.
    pub operstate: Option<String>,
    /// The bits of the number in `speed`.
    pub speed: Option<u64>,
}

impl View for InterfaceFiles {
    type V = InterfaceFiles;

    open spec fn view(&self) -> InterfaceFiles {
        *self
    }
}

/// How often the carrier of an interface has changed, where its file says so.
pub open spec fn carrier_changes_of(
    files: Map<Seq<char>, InterfaceFiles>,
    interface: Seq<char>,
) -> Option<u64> {
    if files.contains_key(interface) {
        match trimmed_of(optional(files[interface].carrier_changes)) {
            Some(s) => u64_of(s),
            None => None,
        }
    } else {
        None
    }
}

/// The counters with the number of carrier changes.
pub open spec fn completed(
    counters: NetworkCounters,
    files: Map<Seq<char>, InterfaceFiles>,
    interface: Seq<char>,
) -> NetworkCounters {
    NetworkCounters { carrier_changes: carrier_changes_of(files, interface), ..counters }
}

/// The counters of every interface.
pub open spec fn network_now(raw: Seq<char>, files: Map<Seq<char>, InterfaceFiles>) -> Map<
    Seq<char>,
    NetworkCounters,
> {
    Map::new(
        |k: Seq<char>| network_of(raw).contains_key(k),
        |k: Seq<char>| completed(network_of(raw)[k], files, k),
    )
}

/// A hardware interface; the loopback interface is none.
pub open spec fn is_hardware(
    interface: Seq<char>,
    files: Map<Seq<char>, InterfaceFiles>,
) -> bool {
    interface != "lo"@ && files.contains_key(interface) && files[interface].device
}

/// A counter of an interface in one direction.
pub open spec fn interface_change(
    interface: Seq<char>,
    name: Seq<char>,
    direction: Seq<char>,
    unit: Seq<char>,
    value: u64,
    earlier: Option<u64>,
) -> Point<Number> {
    change(name, unit, "procfs"@, value, earlier).with("network.interface.name"@, interface).with(
        "network.io.direction"@,
        direction,
    )
}

/// The changes of the carrier of an interface, or the reason why they are not
/// known.
pub open spec fn carrier_change(
    interface: Seq<char>,
    value: Option<u64>,
    earlier: Option<u64>,
) -> Point<Number> {
    change_of(
        "system.network.carrier_changes"@,
        "{event}"@,
        "procfs"@,
        value,
        earlier,
        "CARRIER_CHANGES_READ_FAILED"@,
    ).with("network.interface.name"@, interface).with("network.io.direction"@, "bidirectional"@)
}

/// The changes of the counters of an interface.
pub open spec fn counter_points(
    interface: Seq<char>,
    now: NetworkCounters,
    then: Option<NetworkCounters>,
) -> Seq<Point<Number>> {
    let i = interface;
    let earlier = |f: spec_fn(NetworkCounters) -> u64|
        match then {
            Some(c) => Some(f(c)),
            None => None,
        };
    seq![
        interface_change(
            i,
            "system.network.io"@,
            "receive"@,
            "By"@,
            now.rx_bytes,
            earlier(|c: NetworkCounters| c.rx_bytes),
        ),
        interface_change(
            i,
            "system.network.io"@,
            "transmit"@,
            "By"@,
            now.tx_bytes,
            earlier(|c: NetworkCounters| c.tx_bytes),
        ),
        interface_change(
            i,
            "system.network.packet.count"@,
            "receive"@,
            "{packet}"@,
            now.rx_packets,
            earlier(|c: NetworkCounters| c.rx_packets),
        ),
        interface_change(
            i,
            "system.network.packet.count"@,
            "transmit"@,
            "{packet}"@,
            now.tx_packets,
            earlier(|c: NetworkCounters| c.tx_packets),
        ),
        interface_change(
            i,
            "system.network.errors"@,
            "receive"@,
            "{error}"@,
            now.rx_errors,
            earlier(|c: NetworkCounters| c.rx_errors),
        ),
        interface_change(
            i,
            "system.network.errors"@,
            "transmit"@,
            "{error}"@,
            now.tx_errors,
            earlier(|c: NetworkCounters| c.tx_errors),
        ),
        interface_change(
            i,
            "system.network.packet.dropped"@,
            "receive"@,
            "{packet}"@,
            now.rx_dropped,
            earlier(|c: NetworkCounters| c.rx_dropped),
        ),
        carrier_change(
            i,
            now.carrier_changes,
            match then {
                Some(c) => c.carrier_changes,
                None => None,
            },
        ),
        interface_change(
            i,
            "system.network.packet.dropped"@,
            "transmit"@,
            "{packet}"@,
            now.tx_dropped,
            earlier(|c: NetworkCounters| c.tx_dropped),
        ),
    ]
}

/// The state of the link of an interface, or the reason why it is not known,
/// and its speed where that is known.
pub open spec fn link_points(interface: Seq<char>, files: InterfaceFiles) -> Seq<Point<Number>> {
    let up = match trimmed_of(optional(files.operstate)) {
        Some(state) => reading(
            "system.network.link.up"@,
            flag_of(state == "up"@),
            "1"@,
            Quality::Measured,
        ),
        None => missing(
            "system.network.link.up"@,
            "1"@,
            Quality::Error,
            "OPERSTATE_READ_FAILED"@,
        ),
    }.with("network.interface.name"@, interface);
    match files.speed {
        Some(mbps) => if less(ZERO, mbps) {
            seq![
                up,
                reading(
                    "system.network.link.speed"@,
                    Number::Times { bits: mbps, factor: 1_000_000 },
                    "bit/s"@,
                    Quality::Measured,
                ).with("network.interface.name"@, interface),
            ]
        } else {
            seq![up]
        },
        None => seq![up],
    }
}

/// The points of one interface; only hardware interfaces have any.
pub open spec fn interface_points(
    e: (Seq<char>, NetworkCounters),
    earlier: Map<Seq<char>, NetworkCounters>,
    files: Map<Seq<char>, InterfaceFiles>,
) -> Seq<Point<Number>> {
    if is_hardware(e.0, files) {
        counter_points(
            e.0,
            completed(e.1, files, e.0),
            if earlier.contains_key(e.0) {
                Some(earlier[e.0])
            } else {
                None
            },
        ) + link_points(e.0, files[e.0])
    } else {
        seq![]
    }
}

pub open spec fn each_interface(
    earlier: Map<Seq<char>, NetworkCounters>,
    files: Map<Seq<char>, InterfaceFiles>,
) -> spec_fn((Seq<char>, NetworkCounters)) -> Seq<Point<Number>> {
    |e: (Seq<char>, NetworkCounters)| interface_points(e, earlier, files)
}

/// The points of all interfaces, in the order of their names.
pub open spec fn network_points(
    raw: Option<Seq<char>>,
    earlier: Map<Seq<char>, NetworkCounters>,
    files: Map<Seq<char>, InterfaceFiles>,
) -> Seq<Point<Number>> {
    match raw {
        Some(s) => flat(
            items_of::<String, NetworkCounters>(network_of(s)),
            each_interface(earlier, files),
        ),
        None => seq![],
    }
}

fn carrier_changes(files: &Table<String, InterfaceFiles>, interface: &str) -> (r: Option<u64>)
    ensures
        r == carrier_changes_of(files@, interface@),
{
    match files.at(interface) {
        Some(f) => match trimmed(&f.carrier_changes) {
            Some(s) => parse_u64(s.as_str()),
            None => None,
        },
        None => None,
    }
}

fn carrier_counter(interface: &str, value: Option<u64>, earlier: Option<u64>) -> (r: MetricPoint<
    Value,
>)
    ensures
        r@ == carrier_change(interface@, value, earlier),
{
    optional_counter(
        "system.network.carrier_changes",
        "{event}",
        "procfs",
        value,
        earlier,
        "CARRIER_CHANGES_READ_FAILED",
    ).with_attribute("network.interface.name", interface).with_attribute(
        "network.io.direction",
        "bidirectional",
    )
}

fn interface_counter(
    interface: &str,
    name: &str,
    direction: &str,
    unit: &str,
    value: u64,
    earlier: Option<u64>,
) -> (r: MetricPoint<Value>)
    requires
        is_metric(name@),
    ensures
        r@ == interface_change(interface@, name@, direction@, unit@, value, earlier),
{
    counter(name, unit, "procfs", value, earlier).with_attribute(
        "network.interface.name",
        interface,
    ).with_attribute("network.io.direction", direction)
}

#[verifier::rlimit(30)]
fn collect_counters(
    i: &str,
    now: &NetworkCounters,
    then: Option<NetworkCounters>,
    points: &mut Vec<MetricPoint<Value>>,
)
    ensures
        views(final(points)@) == views(old(points)@) + counter_points(i@, *now, then),
{
    let p = points;
    let io = "system.network.io";
    let count = "system.network.packet.count";
    let errors = "system.network.errors";
    let dropped = "system.network.packet.dropped";
    match then {
        Some(c) => {
            emit(p, interface_counter(i, io, "receive", "By", now.rx_bytes, Some(c.rx_bytes)));
            emit(p, interface_counter(i, io, "transmit", "By", now.tx_bytes, Some(c.tx_bytes)));
            emit(
                p,
                interface_counter(i, count, "receive", "{packet}", now.rx_packets, Some(c.rx_packets)),
            );
            emit(
                p,
                interface_counter(
                    i,
                    count,
                    "transmit",
                    "{packet}",
                    now.tx_packets,
                    Some(c.tx_packets),
                ),
            );
            emit(
                p,
                interface_counter(i, errors, "receive", "{error}", now.rx_errors, Some(c.rx_errors)),
            );
            emit(
                p,
                interface_counter(i, errors, "transmit", "{error}", now.tx_errors, Some(c.tx_errors)),
            );
            emit(
                p,
                interface_counter(
                    i,
                    dropped,
                    "receive",
                    "{packet}",
                    now.rx_dropped,
                    Some(c.rx_dropped),
                ),
            );
            emit(p, carrier_counter(i, now.carrier_changes, c.carrier_changes));
            emit(
                p,
                interface_counter(
                    i,
                    dropped,
                    "transmit",
                    "{packet}",
                    now.tx_dropped,
                    Some(c.tx_dropped),
                ),
            );
        },
        None => {
            emit(p, interface_counter(i, io, "receive", "By", now.rx_bytes, None));
            emit(p, interface_counter(i, io, "transmit", "By", now.tx_bytes, None));
            emit(p, interface_counter(i, count, "receive", "{packet}", now.rx_packets, None));
            emit(p, interface_counter(i, count, "transmit", "{packet}", now.tx_packets, None));
            emit(p, interface_counter(i, errors, "receive", "{error}", now.rx_errors, None));
            emit(p, interface_counter(i, errors, "transmit", "{error}", now.tx_errors, None));
            emit(p, interface_counter(i, dropped, "receive", "{packet}", now.rx_dropped, None));
            emit(p, carrier_counter(i, now.carrier_changes, None));
            emit(p, interface_counter(i, dropped, "transmit", "{packet}", now.tx_dropped, None));
        },
    }
}

fn collect_link(interface: &str, files: &InterfaceFiles, points: &mut Vec<MetricPoint<Value>>)
    ensures
        views(final(points)@) == views(old(points)@) + link_points(interface@, *files),
{
    let up = match trimmed(&files.operstate) {
        Some(state) => gauge(
            "system.network.link.up",
            flag(same(state.as_str(), "up")),
            "1",
            Quality::Measured,
        ),
        None => unavailable(
            "system.network.link.up",
            "1",
            Quality::Error,
            "OPERSTATE_READ_FAILED",
        ),
    };
    emit(points, up.with_attribute("network.interface.name", interface));
    match files.speed {
        Some(mbps) => {
            if is_less(ZERO, mbps) {
                emit(
                    points,
                    gauge(
                        "system.network.link.speed",
                        Value::Times { bits: mbps, factor: 1_000_000 },
                        "bit/s",
                        Quality::Measured,
                    ).with_attribute("network.interface.name", interface),
                );
            }
        },
        None => {},
    }
}

/// Adds the points of the network interfaces and keeps the counters to compare
/// the next ones with. `raw` is the content of `/proc/net/dev`; an interface
/// that `files` lacks has no files.
pub fn collect_network(
    earlier: &mut Table<String, NetworkCounters>,
    raw: &Option<String>,
    files: &Table<String, InterfaceFiles>,
    points: &mut Vec<MetricPoint<Value>>,
)
    ensures
        views(final(points)@) == views(old(points)@) + network_points(
            optional(*raw),
            old(earlier)@,
            files@,
        ),
        final(earlier)@ == (match *raw {
            Some(s) => network_now(s@, files@),
            None => old(earlier)@,
        }),
{
    let s = match raw {
        Some(s) => s,
        None => {
            return;
        },
    };
    let current = parse_network(s.as_str());
    let mut next: Table<String, NetworkCounters> = Table::new();
    let ghost start = views(points@);
    let ghost items = items_of::<String, NetworkCounters>(current@);
    let n: usize = current.len();
    let mut i: usize = 0;
    while i < n
        invariant
            i <= n == items.len(),
            items == items_of::<String, NetworkCounters>(current@),
            lists::<String, NetworkCounters>(items, current@),
            views(points@) == start + flat(
                items.take(i as int),
                each_interface(earlier@, files@),
            ),
            forall|j: int|
                0 <= j < i ==> next@.contains_key((#[trigger] items[j]).0) && next@[items[j].0]
                    == completed(current@[items[j].0], files@, items[j].0),
            forall|k: Seq<char>| #[trigger]
                next@.contains_key(k) ==> current@.contains_key(k) && next@[k] == completed(
                    current@[k],
                    files@,
                    k,
                ),
        decreases n - i,
    {
        proof {
            lemma_flat(items, i as int, each_interface(earlier@, files@));
            lemma_lists::<String, NetworkCounters>(items, current@);
        }
        let interface = current.key_at(i);
        let mut counters = *current.value_at(i);
        counters.carrier_changes = carrier_changes(files, interface.as_str());
        if !same(interface.as_str(), "lo") {
            match files.at(interface.as_str()) {
                Some(f) => {
                    if f.device {
                        let then = match earlier.get(interface) {
                            Some(c) => Some(*c),
                            None => None,
                        };
                        let ghost before = views(points@);
                        collect_counters(interface.as_str(), &counters, then, points);
                        collect_link(interface.as_str(), f, points);
                        assert(views(points@) =~= before + interface_points(
                            items[i as int],
                            earlier@,
                            files@,
                        ));
                    }
                },
                None => {},
            }
        }
        next.insert(interface.clone(), counters);
        assert(views(points@) =~= start + flat(
            items.take(i + 1),
            each_interface(earlier@, files@),
        ));
        i += 1;
    }
    proof {
        lemma_lists::<String, NetworkCounters>(items, current@);
        assert(items.take(i as int) =~= items);
        assert forall|k: Seq<char>| #[trigger] current@.contains_key(k) implies next@.contains_key(
            k,
        ) by {
            let j = choose|j: int| 0 <= j < items.len() && (#[trigger] items[j]).0 == k;
            assert(next@.contains_key(items[j].0));
        }
        assert(next@ =~= network_now(s@, files@));
    }
    *earlier = next;
}

} // verus!
