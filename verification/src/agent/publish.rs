//! What is sent to the message broker, and in which order.

use crate::arith::{add_up, plus};
use crate::table::{elements_of, items_of, lemma_lists, lists, Group, Key, Table};
use crate::text::{before, lemma_before_irreflexive, lemma_before_total, lemma_before_transitive, precedes};
use vstd::prelude::*;

verus! {

/// A message for a subject.
pub struct Publication {
    pub sequence: u64,
    pub subject: String,
    pub payload: Vec<u8>,
}

/// The content of a [`Publication`].
pub struct Post {
    pub sequence: u64,
    pub subject: Seq<char>,
    pub payload: Seq<u8>,
}

impl View for Publication {
    type V = Post;

    open spec fn view(&self) -> Post {
        Post { sequence: self.sequence, subject: self.subject@, payload: self.payload@ }
    }
}

/// The latest publication of each subject.
pub type Latest = Map<Seq<char>, Post>;

/// Puts a publication in place of the last one of its subject.
pub fn publish_state(state: &mut Table<String, Publication>, publication: Publication)
    ensures
        final(state)@ == old(state)@.insert(publication@.subject, publication@),
{
    let subject = publication.subject.clone();
    state.insert(subject, publication);
}

// --------------------------------------------------------------------------
// Order
// --------------------------------------------------------------------------

/// The place of a publication in the order of sending: by number, then by
/// subject.
pub struct Place {
    pub sequence: u64,
    pub subject: String,
}

impl View for Place {
    type V = (u64, Seq<char>);

    open spec fn view(&self) -> (u64, Seq<char>) {
        (self.sequence, self.subject@)
    }
}

impl Key for Place {
    open spec fn before(a: (u64, Seq<char>), b: (u64, Seq<char>)) -> bool {
        a.0 < b.0 || a.0 == b.0 && before(a.1, b.1)
    }

    proof fn irreflexive(a: (u64, Seq<char>)) {
        lemma_before_irreflexive(a.1);
    }

    proof fn transitive(a: (u64, Seq<char>), b: (u64, Seq<char>), c: (u64, Seq<char>)) {
        if a.0 == b.0 && b.0 == c.0 {
            lemma_before_transitive(a.1, b.1, c.1);
        }
    }

    proof fn total(a: (u64, Seq<char>), b: (u64, Seq<char>)) {
        lemma_before_total(a.1, b.1);
    }

    fn precedes(&self, other: &Self) -> (r: bool) {
        self.sequence < other.sequence || self.sequence == other.sequence && precedes(
            self.subject.as_str(),
            other.subject.as_str(),
        )
    }
}

/// A subject has a publication that was not sent yet.
pub open spec fn is_due(state: Latest, sent: Map<Seq<char>, u64>, subject: Seq<char>) -> bool {
    state.contains_key(subject) && !(sent.contains_key(subject) && sent[subject]
        >= state[subject].sequence)
}

/// The places of the publications that were not sent yet.
pub open spec fn due(state: Latest, sent: Map<Seq<char>, u64>) -> Set<(u64, Seq<char>)> {
    Set::new(
        |p: (u64, Seq<char>)| is_due(state, sent, p.1) && state[p.1].sequence == p.0,
    )
}

/// Numbers never go down from one place to the next.
pub open spec fn in_order(places: Seq<(u64, Seq<char>)>) -> bool {
    forall|i: int, j: int|
        0 <= i < j < places.len() ==> (#[trigger] places[i]).0 <= (#[trigger] places[j]).0
}

/// The publications that were not sent yet, in the order of sending.
pub fn publish_latest(state: &Table<String, Publication>, sent: &Table<String, u64>) -> (r: Group<
    Place,
>)
    ensures
        r@ == due(state@, sent@),
        in_order(elements_of::<Place>(r@)),
{
    let ghost items = items_of::<String, Post>(state@);
    let n: usize = state.len();
    let mut out: Group<Place> = Group::new();
    let mut i: usize = 0;
    while i < n
        invariant
            i <= n == items.len(),
            items == items_of::<String, Post>(state@),
            lists::<String, Post>(items, state@),
            forall|p: (u64, Seq<char>)| #[trigger]
                out@.contains(p) ==> due(state@, sent@).contains(p),
            forall|j: int|
                0 <= j < i && is_due(state@, sent@, (#[trigger] items[j]).0) ==> out@.contains(
                    (items[j].1.sequence, items[j].0),
                ),
        decreases n - i,
    {
        let subject = state.key_at(i);
        let sequence = state.value_at(i).sequence;
        let already = match sent.get(subject) {
            Some(last) => *last >= sequence,
            None => false,
        };
        if !already {
            out.insert(Place { sequence, subject: subject.clone() });
        }
        i += 1;
    }
    proof {
        lemma_lists::<String, Post>(items, state@);
        assert forall|p: (u64, Seq<char>)| due(state@, sent@).contains(p) implies out@.contains(
            p,
        ) by {
            let j = choose|j: int| 0 <= j < items.len() && (#[trigger] items[j]).0 == p.1;
            assert(items[j].1 == state@[p.1]);
        }
        assert(out@ =~= due(state@, sent@));
    }
    let count: usize = out.len();
    assert(in_order(elements_of::<Place>(out@))) by {
        let places = elements_of::<Place>(out@);
        assert forall|i: int, j: int| 0 <= i < j < places.len() implies (#[trigger] places[i]).0
            <= (#[trigger] places[j]).0 by {
            assert(Place::before(places[i], places[j]));
        }
    }
    out
}

// --------------------------------------------------------------------------
// The publisher
// --------------------------------------------------------------------------

/// What happened to the publisher.
pub enum PublisherEvent {
    /// The credentials could not be loaded, or no connection could be made.
    Unavailable,
    /// A connection was made.
    Established,
    /// There are new publications.
    StateChanged,
    /// A health event is to be sent.
    EventQueued,
    /// The agent has ended.
    AgentEnded,
    /// The client reports that it is connected.
    ClientConnected,
    /// The client reports a slow consumer.
    ClientSlow,
    /// The client reports something else.
    ClientOther,
    /// The client reports nothing more.
    ClientEnded,
    /// A publication was sent.
    Sent { subject: String, sequence: u64 },
    /// Sending failed.
    SendFailed,
}

/// What the publisher does next.
#[derive(Debug, Clone, Copy, PartialEq, Eq, Structural)]
pub enum PublisherAction {
    /// Connect after a pause.
    RetryLater,
    /// Connect anew.
    Connect,
    /// Send what was not sent yet.
    SendState,
    /// Count a reconnection and send everything again.
    CountAndSendState,
    /// Send the health event.
    SendEvent,
    /// Say that a consumer is slow.
    Warn,
    /// Wait for the next event.
    Wait,
    /// End.
    Stop,
}

/// What the publisher remembers of its connection.
pub struct Publisher {
    sent: Table<String, u64>,
    connected: u64,
}

/// The content of a [`Publisher`].
#[verifier::ext_equal]
pub struct Session {
    pub sent: Map<Seq<char>, u64>,
    pub connected: u64,
}

impl View for Publisher {
    type V = Session;

    closed spec fn view(&self) -> Session {
        Session { sent: self.sent@, connected: self.connected }
    }
}

/// What the publisher does next.
pub open spec fn reaction(s: Session, e: PublisherEvent) -> PublisherAction {
    match e {
        PublisherEvent::Unavailable => PublisherAction::RetryLater,
        PublisherEvent::Established => PublisherAction::SendState,
        PublisherEvent::StateChanged => PublisherAction::SendState,
        PublisherEvent::EventQueued => PublisherAction::SendEvent,
        PublisherEvent::AgentEnded => PublisherAction::Stop,
        PublisherEvent::ClientConnected => if plus(s.connected, 1) > 1 {
            PublisherAction::CountAndSendState
        } else {
            PublisherAction::SendState
        },
        PublisherEvent::ClientSlow => PublisherAction::Warn,
        PublisherEvent::ClientOther => PublisherAction::Wait,
        PublisherEvent::ClientEnded => PublisherAction::Connect,
        PublisherEvent::Sent { .. } => PublisherAction::Wait,
        PublisherEvent::SendFailed => PublisherAction::Connect,
    }
}

/// What the publisher remembers after an event.
pub open spec fn after_event(s: Session, e: PublisherEvent) -> Session {
    match e {
        PublisherEvent::Established => Session { sent: Map::empty(), connected: 0 },
        PublisherEvent::ClientConnected => Session {
            sent: Map::empty(),
            connected: plus(s.connected, 1),
        },
        PublisherEvent::Sent { subject, sequence } => Session {
            sent: s.sent.insert(subject@, sequence),
            ..s
        },
        _ => s,
    }
}

impl Publisher {
    /// A publisher without a connection.
    pub fn new() -> (r: Self)
        ensures
            r@ == (Session { sent: Map::empty(), connected: 0 }),
    {
        Publisher { sent: Table::new(), connected: 0 }
    }

    /// Takes note of an event and says what to do next.
    pub fn next(&mut self, event: PublisherEvent) -> (r: PublisherAction)
        ensures
            r == reaction(old(self)@, event),
            final(self)@ == after_event(old(self)@, event),
    {
        match event {
            PublisherEvent::Unavailable => PublisherAction::RetryLater,
            PublisherEvent::Established => {
                self.sent = Table::new();
                self.connected = 0;
                PublisherAction::SendState
            },
            PublisherEvent::StateChanged => PublisherAction::SendState,
            PublisherEvent::EventQueued => PublisherAction::SendEvent,
            PublisherEvent::AgentEnded => PublisherAction::Stop,
            PublisherEvent::ClientConnected => {
                self.sent = Table::new();
                self.connected = add_up(self.connected, 1);
                if self.connected > 1 {
                    PublisherAction::CountAndSendState
                } else {
                    PublisherAction::SendState
                }
            },
            PublisherEvent::ClientSlow => PublisherAction::Warn,
            PublisherEvent::ClientOther => PublisherAction::Wait,
            PublisherEvent::ClientEnded => PublisherAction::Connect,
            PublisherEvent::Sent { subject, sequence } => {
                self.sent.insert(subject, sequence);
                PublisherAction::Wait
            },
            PublisherEvent::SendFailed => PublisherAction::Connect,
        }
    }

    /// The publications that were not sent yet, in the order of sending.
    pub fn pending(&self, state: &Table<String, Publication>) -> (r: Group<Place>)
        ensures
            r@ == due(state@, self@.sent),
            in_order(elements_of::<Place>(r@)),
    {
        publish_latest(state, &self.sent)
    }
}

/// A publication that was sent is not due again until its subject has one with
/// a higher number; after a connection or a reconnection the complete latest
/// state is due.
pub proof fn law_latest_is_sent_once_per_connection(
    s: Session,
    state: Latest,
    subject: String,
    reconnected: PublisherEvent,
)
    requires
        state.contains_key(subject@),
        reconnected is ClientConnected || reconnected is Established,
    ensures
        ({
            let event = PublisherEvent::Sent { subject, sequence: state[subject@].sequence };
            &&& !is_due(state, after_event(s, event).sent, subject@)
            &&& forall|newer: Post|
                newer.sequence > state[subject@].sequence ==> #[trigger] is_due(
                    state.insert(subject@, newer),
                    after_event(s, event).sent,
                    subject@,
                )
        }),
        forall|other: Seq<char>|
            state.contains_key(other) ==> #[trigger] due(
                state,
                after_event(s, reconnected).sent,
            ).contains((state[other].sequence, other)),
{
}

} // verus!
