//! Counters and events of a relay node.

use crate::metrics::newest_first;
use crate::metrics::clock_text;
use crate::metrics::format_timestamp;
use crate::metrics::push_scaled;
use crate::metrics::pushed;
use crate::metrics::scaled_text;
use crate::metrics::Direction;
use crate::metrics::Elapsed;
use crate::metrics::EventBuffer;
use crate::metrics::TuiEvent;
use crate::protocol::CircuitId;
use crate::protocol::MessageCommand;
use crate::protocol::StreamId;
use crate::text::dec_text;
use crate::text::push_dec;
use vstd::prelude::*;
use vstd::string::*;

verus! {

/// How many events are kept.
pub const EVENT_BUFFER_CAPACITY: usize = 200;

/// How many events a heartbeat reports.
pub const REPORTED_EVENTS: usize = 20;

/// What happens at a relay node.
#[derive(Debug)]
pub enum EventKind {
    ConnectionAccepted { peer: String },
    ConnectionClosed { peer: String },
    CircuitCreated { circuit_id: CircuitId },
    CircuitExtended { circuit_id: CircuitId, next_hop: String },
    CircuitDestroyed { circuit_id: CircuitId },
    RelayForward { circuit_id: CircuitId, command: MessageCommand, bytes: usize },
    RelayBackward { circuit_id: CircuitId, command: MessageCommand, bytes: usize },
    StreamOpened { circuit_id: CircuitId, stream_id: StreamId, destination: String },
    StreamClosed { circuit_id: CircuitId, stream_id: StreamId },
    StreamData {
        circuit_id: CircuitId,
        stream_id: StreamId,
        bytes: usize,
        direction: Direction,
    },
    Error { message: String },
}

/// The contents of an event.
pub enum EventContent {
    ConnectionAccepted { peer: Seq<char> },
    ConnectionClosed { peer: Seq<char> },
    CircuitCreated { circuit_id: CircuitId },
    CircuitExtended { circuit_id: CircuitId, next_hop: Seq<char> },
    CircuitDestroyed { circuit_id: CircuitId },
    RelayForward { circuit_id: CircuitId, command: MessageCommand, bytes: usize },
    RelayBackward { circuit_id: CircuitId, command: MessageCommand, bytes: usize },
    StreamOpened { circuit_id: CircuitId, stream_id: StreamId, destination: Seq<char> },
    StreamClosed { circuit_id: CircuitId, stream_id: StreamId },
    StreamData {
        circuit_id: CircuitId,
        stream_id: StreamId,
        bytes: usize,
        direction: Direction,
    },
    Error { message: Seq<char> },
}

impl View for EventKind {
    type V = EventContent;

    open spec fn view(&self) -> EventContent {
        match *self {
            EventKind::ConnectionAccepted { peer } => {
                EventContent::ConnectionAccepted { peer: peer@ }
            },
            EventKind::ConnectionClosed { peer } => EventContent::ConnectionClosed { peer: peer@ },
            EventKind::CircuitCreated { circuit_id } => EventContent::CircuitCreated { circuit_id },
            EventKind::CircuitExtended { circuit_id, next_hop } => {
                EventContent::CircuitExtended { circuit_id, next_hop: next_hop@ }
            },
            EventKind::CircuitDestroyed { circuit_id } => {
                EventContent::CircuitDestroyed { circuit_id }
            },
            EventKind::RelayForward { circuit_id, command, bytes } => {
                EventContent::RelayForward { circuit_id, command, bytes }
            },
            EventKind::RelayBackward { circuit_id, command, bytes } => {
                EventContent::RelayBackward { circuit_id, command, bytes }
            },
            EventKind::StreamOpened { circuit_id, stream_id, destination } => {
                EventContent::StreamOpened { circuit_id, stream_id, destination: destination@ }
            },
            EventKind::StreamClosed { circuit_id, stream_id } => {
                EventContent::StreamClosed { circuit_id, stream_id }
            },
            EventKind::StreamData { circuit_id, stream_id, bytes, direction } => {
                EventContent::StreamData { circuit_id, stream_id, bytes, direction }
            },
            EventKind::Error { message } => EventContent::Error { message: message@ },
        }
    }
}

/// The number of a circuit as events show it.
pub open spec fn cid_text(circuit_id: CircuitId) -> Seq<char> {
    "cid="@ + dec_text(circuit_id as nat)
}

/// The numbers of a circuit and of a stream as events show them.
pub open spec fn sid_text(circuit_id: CircuitId, stream_id: StreamId) -> Seq<char> {
    cid_text(circuit_id) + " sid="@ + dec_text(stream_id as nat)
}

/// A command and a number of bytes as events show them.
pub open spec fn cell_text(command: MessageCommand, bytes: usize) -> Seq<char> {
    command.text() + " ["@ + scaled_text(bytes as u64, Seq::empty()) + "]"@
}

impl EventContent {
    /// The event in plain text.
    pub open spec fn text(self) -> Seq<char> {
        match self {
            EventContent::ConnectionAccepted { peer } => "\u{2190} ACCEPT    from "@ + peer,
            EventContent::ConnectionClosed { peer } => "\u{2014} CLOSED    conn from "@ + peer,
            EventContent::CircuitCreated { circuit_id } => {
                "\u{2699} CREATE    "@ + cid_text(circuit_id)
            },
            EventContent::CircuitExtended { circuit_id, next_hop } => {
                "\u{2192} EXTEND    "@ + cid_text(circuit_id) + " \u{2192} "@ + next_hop
            },
            EventContent::CircuitDestroyed { circuit_id } => {
                "\u{2717} DESTROY   "@ + cid_text(circuit_id)
            },
            EventContent::RelayForward { circuit_id, command, bytes } => {
                "\u{2192} RELAY\u{2192}   "@ + cid_text(circuit_id) + " "@ + cell_text(
                    command,
                    bytes,
                )
            },
            EventContent::RelayBackward { circuit_id, command, bytes } => {
                "\u{2190} RELAY\u{2190}   "@ + cid_text(circuit_id) + " "@ + cell_text(
                    command,
                    bytes,
                )
            },
            EventContent::StreamOpened { circuit_id, stream_id, destination } => {
                "\u{2192} STREAM    "@ + sid_text(circuit_id, stream_id) + " \u{2192} "@
                    + destination
            },
            EventContent::StreamClosed { circuit_id, stream_id } => {
                "\u{2014} END       "@ + sid_text(circuit_id, stream_id)
            },
            EventContent::StreamData { circuit_id, stream_id, bytes, direction } => {
                "\u{2194} DATA      "@ + sid_text(circuit_id, stream_id) + " ["@ + scaled_text(
                    bytes as u64,
                    Seq::empty(),
                ) + "]"@
            },
            EventContent::Error { message } => "\u{2717} ERROR     "@ + message,
        }
    }
}

/// Appends the number of a circuit.
pub fn push_cid(s: &mut String, circuit_id: CircuitId)
    ensures
        final(s)@ == old(s)@ + cid_text(circuit_id),
{
    let ghost before = s@;
    s.append("cid=");
    push_dec(s, circuit_id as u64);
    proof {
        assert(s@ =~= before + cid_text(circuit_id));
    }
}

/// Appends the numbers of a circuit and of a stream.
pub fn push_sid(s: &mut String, circuit_id: CircuitId, stream_id: StreamId)
    ensures
        final(s)@ == old(s)@ + sid_text(circuit_id, stream_id),
{
    let ghost before = s@;
    push_cid(s, circuit_id);
    s.append(" sid=");
    push_dec(s, stream_id as u64);
    proof {
        assert(s@ =~= before + sid_text(circuit_id, stream_id));
    }
}

/// Appends a number of bytes in square brackets.
pub fn push_size(s: &mut String, bytes: usize)
    ensures
        final(s)@ == old(s)@ + "["@ + scaled_text(bytes as u64, Seq::empty()) + "]"@,
{
    s.append("[");
    push_scaled(s, bytes as u64, "");
    s.append("]");
    proof {
        reveal_strlit("");
        assert(""@ =~= Seq::<char>::empty());
    }
}

/// Appends a command and a number of bytes.
pub fn push_cell(s: &mut String, command: MessageCommand, bytes: usize)
    ensures
        final(s)@ == old(s)@ + cell_text(command, bytes),
{
    let ghost before = s@;
    s.append(command.to_string().as_str());
    s.append(" ");
    push_size(s, bytes);
    proof {
        reveal_strlit(" ");
        reveal_strlit("[");
        reveal_strlit(" [");
        assert(" ["@ =~= " "@ + "["@);
        assert(s@ =~= before + cell_text(command, bytes));
    }
}

/// An event in plain text, as heartbeats report it.
pub fn format_event_string(kind: &EventKind) -> (s: String)
    ensures
        s@ == kind@.text(),
{
    let mut s = String::new();
    match kind {
        EventKind::ConnectionAccepted { peer } => {
            s.append("\u{2190} ACCEPT    from ");
            s.append(peer.as_str());
        },
        EventKind::ConnectionClosed { peer } => {
            s.append("\u{2014} CLOSED    conn from ");
            s.append(peer.as_str());
        },
        EventKind::CircuitCreated { circuit_id } => {
            s.append("\u{2699} CREATE    ");
            push_cid(&mut s, *circuit_id);
        },
        EventKind::CircuitExtended { circuit_id, next_hop } => {
            s.append("\u{2192} EXTEND    ");
            push_cid(&mut s, *circuit_id);
            s.append(" \u{2192} ");
            s.append(next_hop.as_str());
        },
        EventKind::CircuitDestroyed { circuit_id } => {
            s.append("\u{2717} DESTROY   ");
            push_cid(&mut s, *circuit_id);
        },
        EventKind::RelayForward { circuit_id, command, bytes } => {
            s.append("\u{2192} RELAY\u{2192}   ");
            push_cid(&mut s, *circuit_id);
            s.append(" ");
            push_cell(&mut s, *command, *bytes);
        },
        EventKind::RelayBackward { circuit_id, command, bytes } => {
            s.append("\u{2190} RELAY\u{2190}   ");
            push_cid(&mut s, *circuit_id);
            s.append(" ");
            push_cell(&mut s, *command, *bytes);
        },
        EventKind::StreamOpened { circuit_id, stream_id, destination } => {
            s.append("\u{2192} STREAM    ");
            push_sid(&mut s, *circuit_id, *stream_id);
            s.append(" \u{2192} ");
            s.append(destination.as_str());
        },
        EventKind::StreamClosed { circuit_id, stream_id } => {
            s.append("\u{2014} END       ");
            push_sid(&mut s, *circuit_id, *stream_id);
        },
        EventKind::StreamData { circuit_id, stream_id, bytes, direction: _ } => {
            s.append("\u{2194} DATA      ");
            push_sid(&mut s, *circuit_id, *stream_id);
            s.append(" ");
            push_size(&mut s, *bytes);
            proof {
                reveal_strlit(" ");
                reveal_strlit("[");
                reveal_strlit(" [");
                assert(" ["@ =~= " "@ + "["@);
            }
        },
        EventKind::Error { message } => {
            s.append("\u{2717} ERROR     ");
            s.append(message.as_str());
        },
    }
    proof {
        assert(s@ =~= kind@.text());
    }
    s
}

/// The counters and the latest events of a relay node. The counters start over after the largest
/// number.
pub struct RelayMetrics {
    pub connections_accepted: u64,
    pub circuits_created: u64,
    pub circuits_destroyed: u64,
    pub bytes_forwarded: u64,
    pub bytes_received: u64,
    pub streams_opened: u64,
    pub events: EventBuffer<EventKind>,
    pub start_time: Elapsed,
}

/// The counters.
pub struct Counts {
    pub connections_accepted: u64,
    pub circuits_created: u64,
    pub circuits_destroyed: u64,
    pub bytes_forwarded: u64,
    pub bytes_received: u64,
    pub streams_opened: u64,
}

impl Counts {
    /// The counters after an event: an opened stream counts, and so do the bytes that go each
    /// way.
    pub open spec fn after(self, event: EventContent) -> Counts {
        match event {
            EventContent::StreamOpened { .. } => Counts {
                streams_opened: self.streams_opened.wrapping_add(1),
                ..self
            },
            EventContent::StreamData { bytes, direction: Direction::Forward, .. } => Counts {
                bytes_forwarded: self.bytes_forwarded.wrapping_add(bytes as u64),
                ..self
            },
            EventContent::StreamData { bytes, direction: Direction::Backward, .. } => Counts {
                bytes_received: self.bytes_received.wrapping_add(bytes as u64),
                ..self
            },
            EventContent::RelayBackward { bytes, .. } => Counts {
                bytes_received: self.bytes_received.wrapping_add(bytes as u64),
                ..self
            },
            _ => self,
        }
    }
}

/// The line that a heartbeat reports of an event.
pub open spec fn reported_text(event: TuiEvent<EventKind>) -> Seq<char> {
    "["@ + ("+"@ + clock_text(event.elapsed.secs)) + "] "@ + event.kind@.text()
}

impl RelayMetrics {
    /// The clock readings are valid ones.
    pub open spec fn wf(&self) -> bool {
        &&& self.events.wf()
        &&& self.start_time.wf()
        &&& self.events.capacity() == EVENT_BUFFER_CAPACITY
    }

    /// The counters.
    pub open spec fn counts(&self) -> Counts {
        Counts {
            connections_accepted: self.connections_accepted,
            circuits_created: self.circuits_created,
            circuits_destroyed: self.circuits_destroyed,
            bytes_forwarded: self.bytes_forwarded,
            bytes_received: self.bytes_received,
            streams_opened: self.streams_opened,
        }
    }

    /// Whether `after` holds one more event, with this content, noted when the clock shows `now`.
    pub open spec fn noted(&self, after: &RelayMetrics, now: Elapsed, content: EventContent) -> bool {
        &&& after.wf()
        &&& after.start_time == self.start_time
        &&& after.events.started() == self.events.started()
        &&& after.events@.len() > 0
        &&& after.events@ == pushed(
            self.events@,
            EVENT_BUFFER_CAPACITY as nat,
            after.events@.last(),
        )
        &&& after.events@.last().kind@ == content
        &&& after.events@.last().elapsed.runs(self.events.started(), now)
    }

    /// No counts and no events, when the clock shows `now`.
    pub fn new(now: Elapsed) -> (r: Self)
        requires
            now.wf(),
        ensures
            r.wf(),
            r.counts() == (Counts {
                connections_accepted: 0,
                circuits_created: 0,
                circuits_destroyed: 0,
                bytes_forwarded: 0,
                bytes_received: 0,
                streams_opened: 0,
            }),
            r.events@ == Seq::<TuiEvent<EventKind>>::empty(),
            r.events.started() == now,
            r.start_time == now,
    {
        Self {
            connections_accepted: 0,
            circuits_created: 0,
            circuits_destroyed: 0,
            bytes_forwarded: 0,
            bytes_received: 0,
            streams_opened: 0,
            events: EventBuffer::new(EVENT_BUFFER_CAPACITY, now),
            start_time: now,
        }
    }

    /// Adds an event.
    pub fn push_event(&mut self, now: Elapsed, kind: EventKind)
        requires
            old(self).wf(),
            now.wf(),
        ensures
            old(self).noted(final(self), now, kind@),
            final(self).counts() == old(self).counts(),
    {
        self.events.push(now, kind);
    }

    /// Adds an event and counts it.
    pub fn record(&mut self, now: Elapsed, kind: EventKind)
        requires
            old(self).wf(),
            now.wf(),
        ensures
            old(self).noted(final(self), now, kind@),
            final(self).counts() == old(self).counts().after(kind@),
    {
        match &kind {
            EventKind::StreamOpened { .. } => {
                self.streams_opened = self.streams_opened.wrapping_add(1);
            },
            EventKind::StreamData { bytes, direction, .. } => match direction {
                Direction::Forward => {
                    self.bytes_forwarded = self.bytes_forwarded.wrapping_add(*bytes as u64);
                },
                Direction::Backward => {
                    self.bytes_received = self.bytes_received.wrapping_add(*bytes as u64);
                },
            },
            EventKind::RelayBackward { bytes, .. } => {
                self.bytes_received = self.bytes_received.wrapping_add(*bytes as u64);
            },
            _ => {},
        }
        self.push_event(now, kind);
    }

    /// How long the node has run when the clock shows `now`.
    pub fn uptime(&self, now: Elapsed) -> (r: Elapsed)
        requires
            self.wf(),
            now.wf(),
        ensures
            r.runs(self.start_time, now),
    {
        now.since(self.start_time)
    }

    /// The number of connections accepted.
    pub fn get_connections(&self) -> (r: u64)
        ensures
            r == self.connections_accepted,
    {
        self.connections_accepted
    }

    /// The number of circuits created.
    pub fn get_circuits_created(&self) -> (r: u64)
        ensures
            r == self.circuits_created,
    {
        self.circuits_created
    }

    /// The number of circuits destroyed.
    pub fn get_circuits_destroyed(&self) -> (r: u64)
        ensures
            r == self.circuits_destroyed,
    {
        self.circuits_destroyed
    }

    /// The number of bytes sent on towards the destination.
    pub fn get_bytes_forwarded(&self) -> (r: u64)
        ensures
            r == self.bytes_forwarded,
    {
        self.bytes_forwarded
    }

    /// The number of bytes that came back.
    pub fn get_bytes_received(&self) -> (r: u64)
        ensures
            r == self.bytes_received,
    {
        self.bytes_received
    }

    /// The number of streams opened.
    pub fn get_streams_opened(&self) -> (r: u64)
        ensures
            r == self.streams_opened,
    {
        self.streams_opened
    }

    /// The latest events in plain text for a heartbeat, newest first.
    pub fn event_snapshot(&self) -> (r: Vec<String>)
        ensures
            r@.len() == (if self.events@.len() < REPORTED_EVENTS {
                self.events@.len()
            } else {
                REPORTED_EVENTS as nat
            }),
            forall|i: int|
                0 <= i < r@.len() ==> (#[trigger] r@[i])@ == reported_text(
                    self.events@[self.events@.len() - 1 - i],
                ),
            r@.len() == newest_first(self.events@, REPORTED_EVENTS as nat).len(),
            forall|i: int|
                0 <= i < r@.len() ==> (#[trigger] r@[i])@ == reported_text(
                    newest_first(self.events@, REPORTED_EVENTS as nat)[i],
                ),
    {
        let n = self.events.len();
        let mut r: Vec<String> = Vec::new();
        while r.len() < n && r.len() < REPORTED_EVENTS
            invariant
                n == self.events@.len(),
                r@.len() <= n,
                r@.len() <= REPORTED_EVENTS,
                forall|i: int|
                    0 <= i < r@.len() ==> (#[trigger] r@[i])@ == reported_text(
                        self.events@[n - 1 - i],
                    ),
            decreases n - r@.len(),
        {
            let event = self.events.get(n - 1 - r.len());
            let mut line = "[".to_owned();
            line.append(format_timestamp(event.elapsed).as_str());
            line.append("] ");
            line.append(format_event_string(&event.kind).as_str());
            r.push(line);
        }
        r
    }
}

/// Each event counts for what it is, and for nothing else: a stream that was opened counts once, and
/// of data every byte counts, those that went on to a destination on one counter and those that
/// came back on another, as long as the counters have room.
pub proof fn events_count_for_what_they_are(c: Counts, event: EventContent)
    requires
        c.streams_opened < u64::MAX,
        event is StreamData ==> c.bytes_forwarded + event->StreamData_bytes <= u64::MAX
            && c.bytes_received + event->StreamData_bytes <= u64::MAX,
        event is RelayBackward ==> c.bytes_received + event->RelayBackward_bytes <= u64::MAX,
    ensures
        ({
            let after = c.after(event);
            let out = event is StreamData && event->StreamData_direction == Direction::Forward;
            let back = event is StreamData && event->StreamData_direction == Direction::Backward;
            &&& after.connections_accepted == c.connections_accepted
            &&& after.circuits_created == c.circuits_created
            &&& after.circuits_destroyed == c.circuits_destroyed
            &&& after.streams_opened == c.streams_opened + (if event is StreamOpened {
                1int
            } else {
                0
            })
            &&& after.bytes_forwarded == c.bytes_forwarded + (if out {
                event->StreamData_bytes as int
            } else {
                0
            })
            &&& after.bytes_received == c.bytes_received + (if back {
                event->StreamData_bytes as int
            } else if event is RelayBackward {
                event->RelayBackward_bytes as int
            } else {
                0
            })
        }),
{
}

/// What is noted is the event itself, at the time that has gone by since the start, behind the events
/// that were there; the oldest one goes where there were two hundred.
pub proof fn notes_are_kept_in_order(
    before: RelayMetrics,
    after: RelayMetrics,
    now: Elapsed,
    content: EventContent,
)
    requires
        before.wf(),
        before.noted(&after, now, content),
    ensures
        after.events@.len() > 0,
        after.events@.len() <= 200,
        after.events@.last().kind@ == content,
        after.events@.last().elapsed.runs(before.events.started(), now),
        before.events@.len() < 200 ==> after.events@.drop_last() == before.events@,
        before.events@.len() == 200 ==> after.events@.drop_last() == before.events@.skip(1),
{
    crate::metrics::one_more_event(before.events@, 200, after.events@.last());
}

/// A heartbeat reports the latest events up to twenty, and all of them if there are no more.
pub proof fn heartbeats_report_the_latest_events(events: Seq<TuiEvent<EventKind>>)
    ensures
        newest_first(events, REPORTED_EVENTS as nat).len() == (if events.len() < 20 {
            events.len()
        } else {
            20
        }),
{
}

}
