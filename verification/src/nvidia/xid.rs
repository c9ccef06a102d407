//! Critical Xid events of the GPUs.

use crate::rows::{flat, lemma_flat};
use crate::schema::{
    delta_of, emit, no_points, unavailable_of, views, MetricPoint, Number, Point, Quality, Value,
};
use crate::table::{elements_of, Group};
use vstd::prelude::*;

verus! {

/// What the event worker of a GPU reports.
pub enum XidMessage {
    /// Events of the GPU are watched.
    Ready { uuid: String },
    /// An event occurred.
    Event { uuid: String, code: String },
    /// Events of the GPU cannot be watched.
    Unsupported { uuid: String },
}

/// The GPUs whose events are watched, and those whose events cannot be.
pub struct XidMonitor {
    ready: Group<String>,
    unsupported: Group<String>,
}

/// The content of an [`XidMonitor`].
#[verifier::ext_equal]
pub struct Watched {
    pub ready: Set<Seq<char>>,
    pub unsupported: Set<Seq<char>>,
}

impl View for XidMonitor {
    type V = Watched;

    closed spec fn view(&self) -> Watched {
        Watched { ready: self.ready@, unsupported: self.unsupported@ }
    }
}

/// What is watched after some messages.
pub open spec fn watched_after(w: Watched, ms: Seq<XidMessage>) -> Watched
    decreases ms.len(),
{
    if ms.len() == 0 {
        w
    } else {
        let v = watched_after(w, ms.drop_last());
        match ms.last() {
            XidMessage::Ready { uuid } => Watched { ready: v.ready.insert(uuid@), ..v },
            XidMessage::Unsupported { uuid } => Watched {
                unsupported: v.unsupported.insert(uuid@),
                ..v
            },
            XidMessage::Event { .. } => v,
        }
    }
}

/// The GPUs with an event among some messages.
pub open spec fn gpus_with_event(ms: Seq<XidMessage>) -> Set<Seq<char>>
    decreases ms.len(),
{
    if ms.len() == 0 {
        Set::empty()
    } else {
        match ms.last() {
            XidMessage::Event { uuid, .. } => gpus_with_event(ms.drop_last()).insert(uuid@),
            _ => gpus_with_event(ms.drop_last()),
        }
    }
}

/// A number of events of a GPU.
pub open spec fn xid_count(count: u64, uuid: Seq<char>) -> Point<Number> {
    delta_of("nvidia.gpu.xid.count"@, Number::Count(count), "{event}"@, "nvml"@).with(
        "gpu.id"@,
        uuid,
    )
}

/// The point of a message: one for each event.
pub open spec fn event_point(m: XidMessage) -> Seq<Point<Number>> {
    match m {
        XidMessage::Event { uuid, code } => seq![
            xid_count(1, uuid@).with("nvidia.xid.code"@, code@),
        ],
        _ => seq![],
    }
}

pub open spec fn event_points() -> spec_fn(XidMessage) -> Seq<Point<Number>> {
    |m: XidMessage| event_point(m)
}

/// The point of a watched GPU without an event.
pub open spec fn quiet_point(uuid: Seq<char>, with_event: Set<Seq<char>>) -> Seq<Point<Number>> {
    if with_event.contains(uuid) {
        seq![]
    } else {
        seq![xid_count(0, uuid)]
    }
}

pub open spec fn quiet_points(with_event: Set<Seq<char>>) -> spec_fn(Seq<char>) -> Seq<
    Point<Number>,
> {
    |uuid: Seq<char>| quiet_point(uuid, with_event)
}

/// The point of a GPU whose events cannot be watched.
pub open spec fn unwatched_point(uuid: Seq<char>) -> Seq<Point<Number>> {
    seq![
        unavailable_of(
            "nvidia.gpu.xid.count"@,
            "{event}"@,
            Quality::Unsupported,
            "nvml"@,
            "NVML_XID_NOT_SUPPORTED"@,
        ).with("gpu.id"@, uuid),
    ]
}

pub open spec fn unwatched_points() -> spec_fn(Seq<char>) -> Seq<Point<Number>> {
    |uuid: Seq<char>| unwatched_point(uuid)
}

/// The events in their order, then the watched GPUs without one, then those
/// whose events cannot be watched.
pub open spec fn xid_points(w: Watched, ms: Seq<XidMessage>) -> Seq<Point<Number>> {
    let v = watched_after(w, ms);
    flat(ms, event_points()) + flat(
        elements_of::<String>(v.ready),
        quiet_points(gpus_with_event(ms)),
    ) + flat(elements_of::<String>(v.unsupported), unwatched_points())
}

fn count_point(count: u64, uuid: &str) -> (r: MetricPoint<Value>)
    ensures
        r@ == xid_count(count, uuid@),
{
    MetricPoint::counter_delta("nvidia.gpu.xid.count", Value::Count(count), "{event}", "nvml").with_attribute(
        "gpu.id",
        uuid,
    )
}

impl XidMonitor {
    /// A monitor that no worker has reported to.
    pub fn new() -> (r: Self)
        ensures
            r@ == (Watched { ready: Set::empty(), unsupported: Set::empty() }),
    {
        XidMonitor { ready: Group::new(), unsupported: Group::new() }
    }

    fn receive(&mut self, messages: &Vec<XidMessage>, points: &mut Vec<MetricPoint<Value>>) -> (r:
        Group<String>)
        ensures
            views(final(points)@) == views(old(points)@) + flat(messages@, event_points()),
            final(self)@ == watched_after(old(self)@, messages@),
            r@ == gpus_with_event(messages@),
    {
        let ghost start = self@;
        let ghost first = views(points@);
        let mut with_event: Group<String> = Group::new();
        let mut i: usize = 0;
        while i < messages.len()
            invariant
                i <= messages@.len(),
                views(points@) == first + flat(messages@.take(i as int), event_points()),
                self@ == watched_after(start, messages@.take(i as int)),
                with_event@ == gpus_with_event(messages@.take(i as int)),
            decreases messages@.len() - i,
        {
            proof {
                lemma_flat(messages@, i as int, event_points());
                assert(messages@.take(i + 1).drop_last() =~= messages@.take(i as int));
            }
            match &messages[i] {
                XidMessage::Ready { uuid } => {
                    self.ready.insert(uuid.clone());
                },
                XidMessage::Unsupported { uuid } => {
                    self.unsupported.insert(uuid.clone());
                },
                XidMessage::Event { uuid, code } => {
                    with_event.insert(uuid.clone());
                    emit(
                        points,
                        count_point(1, uuid.as_str()).with_attribute(
                            "nvidia.xid.code",
                            code.as_str(),
                        ),
                    );
                },
            }
            i += 1;
        }
        assert(messages@.take(i as int) =~= messages@);
        with_event
    }

    /// The points of the GPUs, given the messages since the last collection.
    pub fn collect(&mut self, messages: &Vec<XidMessage>) -> (r: Vec<MetricPoint<Value>>)
        ensures
            views(r@) == xid_points(old(self)@, messages@),
            final(self)@ == watched_after(old(self)@, messages@),
    {
        let mut points: Vec<MetricPoint<Value>> = no_points();
        let with_event = self.receive(messages, &mut points);
        let ghost first = views(points@);
        let ghost ready = elements_of::<String>(self.ready@);
        let ghost quiet = quiet_points(with_event@);
        let n: usize = self.ready.len();
        let mut i: usize = 0;
        while i < n
            invariant
                i <= n == ready.len(),
                ready == elements_of::<String>(self.ready@),
                quiet == quiet_points(with_event@),
                views(points@) == first + flat(ready.take(i as int), quiet),
            decreases n - i,
        {
            proof {
                lemma_flat(ready, i as int, quiet);
            }
            let uuid = self.ready.element_at(i);
            if !with_event.contains(uuid) {
                emit(&mut points, count_point(0, uuid.as_str()));
            }
            i += 1;
        }
        assert(ready.take(i as int) =~= ready);
        let ghost second = views(points@);
        let ghost unsupported = elements_of::<String>(self.unsupported@);
        let m: usize = self.unsupported.len();
        let mut k: usize = 0;
        while k < m
            invariant
                k <= m == unsupported.len(),
                unsupported == elements_of::<String>(self.unsupported@),
                views(points@) == second + flat(unsupported.take(k as int), unwatched_points()),
            decreases m - k,
        {
            proof {
                lemma_flat(unsupported, k as int, unwatched_points());
            }
            emit(
                &mut points,
                MetricPoint::unavailable(
                    "nvidia.gpu.xid.count",
                    "{event}",
                    Quality::Unsupported,
                    "nvml",
                    "NVML_XID_NOT_SUPPORTED",
                ).with_attribute("gpu.id", self.unsupported.element_at(k).as_str()),
            );
            k += 1;
        }
        assert(unsupported.take(k as int) =~= unsupported);
        points
    }
}

} // verus!
