//! Counters and events of a client.

use crate::metrics::pushed;
use crate::metrics::Direction;
use crate::metrics::Elapsed;
use crate::metrics::EventBuffer;
use crate::metrics::TuiEvent;
use crate::net::SocketAddr;
use crate::protocol::CircuitId;
use crate::protocol::StreamId;
use crate::text::dec_text;
use crate::text::push_dec;
use vstd::prelude::*;
use vstd::string::*;

verus! {

/// How many events are kept.
pub const EVENT_BUFFER_CAPACITY: usize = 200;

/// The path of a circuit of three hops, for display.
#[derive(Debug, Clone, Copy)]
pub struct CircuitInfo {
    pub circuit_id: CircuitId,
    pub entry_addr: SocketAddr,
    pub middle_addr: SocketAddr,
    pub exit_addr: SocketAddr,
    pub created_at: Elapsed,
}

/// The ports along a path, each with a colon in front and an arrow between two of them.
pub open spec fn ports_text(ports: Seq<u16>) -> Seq<char>
    decreases ports.len(),
{
    if ports.len() == 0 {
        Seq::empty()
    } else if ports.len() == 1 {
        ":"@ + dec_text(ports[0] as nat)
    } else {
        ports_text(ports.drop_last()) + " \u{2192} "@ + ":"@ + dec_text(ports.last() as nat)
    }
}

/// The ports along a path, each with a colon in front and an arrow between two of them.
pub fn ports_display(ports: &[u16]) -> (s: String)
    ensures
        s@ == ports_text(ports@),
{
    let mut s = String::new();
    let mut i: usize = 0;
    while i < ports.len()
        invariant
            i <= ports.len(),
            s@ == ports_text(ports@.take(i as int)),
        decreases ports.len() - i,
    {
        let ghost before = s@;
        if i > 0 {
            s.append(" \u{2192} ");
        }
        s.append(":");
        push_dec(&mut s, ports[i] as u64);
        proof {
            let more = ports@.take(i as int + 1);
            assert(more.drop_last() =~= ports@.take(i as int));
            assert(s@ =~= ports_text(more));
        }
        i += 1;
    }
    proof {
        assert(ports@.take(i as int) =~= ports@);
    }
    s
}

impl CircuitInfo {
    /// The ports along the path.
    pub fn path_display(&self) -> (s: String)
        ensures
            s@ == ports_text(
                seq![self.entry_addr.port, self.middle_addr.port, self.exit_addr.port],
            ),
    {
        let ports = [self.entry_addr.port, self.middle_addr.port, self.exit_addr.port];
        let s = ports_display(ports.as_slice());
        proof {
            assert(ports@ =~= seq![
                self.entry_addr.port,
                self.middle_addr.port,
                self.exit_addr.port,
            ]);
        }
        s
    }
}

/// What happens at a client.
#[derive(Debug)]
pub enum EventKind {
    CircuitBuilt { circuit_id: CircuitId, path: String },
    CircuitReplaced { old_id: CircuitId, new_id: CircuitId },
    CircuitClosed { circuit_id: CircuitId },
    Socks5Accept { addr: String, destination: String },
    StreamBegin { circuit_id: CircuitId, stream_id: StreamId, destination: String },
    StreamConnected { circuit_id: CircuitId, stream_id: StreamId },
    StreamData {
        circuit_id: CircuitId,
        stream_id: StreamId,
        bytes: usize,
        direction: Direction,
    },
    StreamEnd { circuit_id: CircuitId, stream_id: StreamId },
    Error { message: String },
}

/// The contents of an event.
pub enum EventContent {
    CircuitBuilt { circuit_id: CircuitId, path: Seq<char> },
    CircuitReplaced { old_id: CircuitId, new_id: CircuitId },
    CircuitClosed { circuit_id: CircuitId },
    Socks5Accept { addr: Seq<char>, destination: Seq<char> },
    StreamBegin { circuit_id: CircuitId, stream_id: StreamId, destination: Seq<char> },
    StreamConnected { circuit_id: CircuitId, stream_id: StreamId },
    StreamData {
        circuit_id: CircuitId,
        stream_id: StreamId,
        bytes: usize,
        direction: Direction,
    },
    StreamEnd { circuit_id: CircuitId, stream_id: StreamId },
    Error { message: Seq<char> },
}

impl View for EventKind {
    type V = EventContent;

    open spec fn view(&self) -> EventContent {
        match *self {
            EventKind::CircuitBuilt { circuit_id, path } => {
                EventContent::CircuitBuilt { circuit_id, path: path@ }
            },
            EventKind::CircuitReplaced { old_id, new_id } => {
                EventContent::CircuitReplaced { old_id, new_id }
            },
            EventKind::CircuitClosed { circuit_id } => EventContent::CircuitClosed { circuit_id },
            EventKind::Socks5Accept { addr, destination } => {
                EventContent::Socks5Accept { addr: addr@, destination: destination@ }
            },
            EventKind::StreamBegin { circuit_id, stream_id, destination } => {
                EventContent::StreamBegin { circuit_id, stream_id, destination: destination@ }
            },
            EventKind::StreamConnected { circuit_id, stream_id } => {
                EventContent::StreamConnected { circuit_id, stream_id }
            },
            EventKind::StreamData { circuit_id, stream_id, bytes, direction } => {
                EventContent::StreamData { circuit_id, stream_id, bytes, direction }
            },
            EventKind::StreamEnd { circuit_id, stream_id } => {
                EventContent::StreamEnd { circuit_id, stream_id }
            },
            EventKind::Error { message } => EventContent::Error { message: message@ },
        }
    }
}

/// The counters and the latest events of a client. The counters start over after the largest
/// number.
pub struct ClientMetrics {
    pub connections_accepted: u64,
    pub circuits_built: u64,
    pub circuits_replaced: u64,
    pub bytes_sent: u64,
    pub bytes_received: u64,
    pub events: EventBuffer<EventKind>,
    pub start_time: Elapsed,
}

/// The counters.
pub struct Counts {
    pub connections_accepted: u64,
    pub circuits_built: u64,
    pub circuits_replaced: u64,
    pub bytes_sent: u64,
    pub bytes_received: u64,
}

impl Counts {
    /// The counters after an event: built and replaced circuits count, and so do the bytes that
    /// go each way.
    pub open spec fn after(self, event: EventContent) -> Counts {
        match event {
            EventContent::CircuitBuilt { .. } => Counts {
                circuits_built: self.circuits_built.wrapping_add(1),
                ..self
            },
            EventContent::CircuitReplaced { .. } => Counts {
                circuits_replaced: self.circuits_replaced.wrapping_add(1),
                ..self
            },
            EventContent::StreamData { bytes, direction: Direction::Forward, .. } => Counts {
                bytes_sent: self.bytes_sent.wrapping_add(bytes as u64),
                ..self
            },
            EventContent::StreamData { bytes, direction: Direction::Backward, .. } => Counts {
                bytes_received: self.bytes_received.wrapping_add(bytes as u64),
                ..self
            },
            _ => self,
        }
    }
}

impl ClientMetrics {
    /// The clock readings are valid ones.
    pub open spec fn wf(&self) -> bool {
        &&& self.events.wf()
        &&& self.start_time.wf()
        &&& self.events.capacity() == EVENT_BUFFER_CAPACITY
    }

    /// The counters.
    pub open spec fn counts(&self) -> Counts {
        Counts {
            connections_accepted: self.connections_accepted,
            circuits_built: self.circuits_built,
            circuits_replaced: self.circuits_replaced,
            bytes_sent: self.bytes_sent,
            bytes_received: self.bytes_received,
        }
    }

    /// Whether `after` holds one more event, with this content, noted when the clock shows `now`.
    pub open spec fn noted(&self, after: &ClientMetrics, now: Elapsed, content: EventContent) -> bool {
        &&& after.wf()
        &&& after.start_time == self.start_time
        &&& after.events.started() == self.events.started()
        &&& after.events@.len() > 0
        &&& after.events@ == pushed(
            self.events@,
            EVENT_BUFFER_CAPACITY as nat,
            after.events@.last(),
        )
        &&& after.events@.last().kind@ == content
        &&& after.events@.last().elapsed.runs(self.events.started(), now)
    }

    /// No counts and no events, when the clock shows `now`.
    pub fn new(now: Elapsed) -> (r: Self)
        requires
            now.wf(),
        ensures
            r.wf(),
            r.counts() == (Counts {
                connections_accepted: 0,
                circuits_built: 0,
                circuits_replaced: 0,
                bytes_sent: 0,
                bytes_received: 0,
            }),
            r.events@ == Seq::<TuiEvent<EventKind>>::empty(),
            r.events.started() == now,
            r.start_time == now,
    {
        Self {
            connections_accepted: 0,
            circuits_built: 0,
            circuits_replaced: 0,
            bytes_sent: 0,
            bytes_received: 0,
            events: EventBuffer::new(EVENT_BUFFER_CAPACITY, now),
            start_time: now,
        }
    }

    /// Adds an event.
    pub fn push_event(&mut self, now: Elapsed, kind: EventKind)
        requires
            old(self).wf(),
            now.wf(),
        ensures
            old(self).noted(final(self), now, kind@),
            final(self).counts() == old(self).counts(),
    {
        self.events.push(now, kind);
    }

    /// Adds an event and counts it.
    pub fn record(&mut self, now: Elapsed, kind: EventKind)
        requires
            old(self).wf(),
            now.wf(),
        ensures
            old(self).noted(final(self), now, kind@),
            final(self).counts() == old(self).counts().after(kind@),
    {
        match &kind {
            EventKind::CircuitBuilt { .. } => {
                self.circuits_built = self.circuits_built.wrapping_add(1);
            },
            EventKind::CircuitReplaced { .. } => {
                self.circuits_replaced = self.circuits_replaced.wrapping_add(1);
            },
            EventKind::StreamData { bytes, direction, .. } => match direction {
                Direction::Forward => {
                    self.bytes_sent = self.bytes_sent.wrapping_add(*bytes as u64);
                },
                Direction::Backward => {
                    self.bytes_received = self.bytes_received.wrapping_add(*bytes as u64);
                },
            },
            _ => {},
        }
        self.push_event(now, kind);
    }

    /// Counts a connection.
    pub fn count_connection(&mut self)
        requires
            old(self).wf(),
        ensures
            final(self).wf(),
            final(self).events == old(self).events,
            final(self).start_time == old(self).start_time,
            final(self).counts() == (Counts {
                connections_accepted: old(self).connections_accepted.wrapping_add(1),
                ..old(self).counts()
            }),
    {
        self.connections_accepted = self.connections_accepted.wrapping_add(1);
    }

    /// How long the client has run when the clock shows `now`.
    pub fn uptime(&self, now: Elapsed) -> (r: Elapsed)
        requires
            self.wf(),
            now.wf(),
        ensures
            r.runs(self.start_time, now),
    {
        now.since(self.start_time)
    }

    /// The number of connections accepted.
    pub fn get_connections(&self) -> (r: u64)
        ensures
            r == self.connections_accepted,
    {
        self.connections_accepted
    }

    /// The number of bytes sent.
    pub fn get_bytes_sent(&self) -> (r: u64)
        ensures
            r == self.bytes_sent,
    {
        self.bytes_sent
    }

    /// The number of bytes that came back.
    pub fn get_bytes_received(&self) -> (r: u64)
        ensures
            r == self.bytes_received,
    {
        self.bytes_received
    }
}

/// Each event counts for what it is, and for nothing else: a circuit that was built or replaced
/// counts once, and of data every byte counts, those that went out on one counter and those that
/// came back on another, as long as the counters have room.
pub proof fn events_count_for_what_they_are(c: Counts, event: EventContent)
    requires
        c.circuits_built < u64::MAX,
        c.circuits_replaced < u64::MAX,
        event is StreamData ==> c.bytes_sent + event->StreamData_bytes <= u64::MAX
            && c.bytes_received + event->StreamData_bytes <= u64::MAX,
    ensures
        ({
            let after = c.after(event);
            let out = event is StreamData && event->StreamData_direction == Direction::Forward;
            let back = event is StreamData && event->StreamData_direction == Direction::Backward;
            &&& after.connections_accepted == c.connections_accepted
            &&& after.circuits_built == c.circuits_built + (if event is CircuitBuilt {
                1int
            } else {
                0
            })
            &&& after.circuits_replaced == c.circuits_replaced + (if event is CircuitReplaced {
                1int
            } else {
                0
            })
            &&& after.bytes_sent == c.bytes_sent + (if out {
                event->StreamData_bytes as int
            } else {
                0
            })
            &&& after.bytes_received == c.bytes_received + (if back {
                event->StreamData_bytes as int
            } else {
                0
            })
        }),
{
}

/// The ports of a path read in its order: one more hop goes behind an arrow.
pub proof fn ports_read_along_the_path(ports: Seq<u16>, next: u16)
    ensures
        ports_text(seq![next]) == ":"@ + dec_text(next as nat),
        ports.len() > 0 ==> ports_text(ports.push(next)) == ports_text(ports) + " \u{2192} "@
            + ":"@ + dec_text(next as nat),
{
    assert(ports.push(next).drop_last() =~= ports);
}

/// What is noted is the event itself, at the time that has gone by since the start, behind the events
/// that were there; the oldest one goes where there were two hundred.
pub proof fn notes_are_kept_in_order(
    before: ClientMetrics,
    after: ClientMetrics,
    now: Elapsed,
    content: EventContent,
)
    requires
        before.wf(),
        before.noted(&after, now, content),
    ensures
        after.events@.len() > 0,
        after.events@.len() <= 200,
        after.events@.last().kind@ == content,
        after.events@.last().elapsed.runs(before.events.started(), now),
        before.events@.len() < 200 ==> after.events@.drop_last() == before.events@,
        before.events@.len() == 200 ==> after.events@.drop_last() == before.events@.skip(1),
{
    crate::metrics::one_more_event(before.events@, 200, after.events@.last());
}

}
