//! Counters and events of the directory service.

use crate::metrics::pushed;
use crate::metrics::Elapsed;
use crate::metrics::EventBuffer;
use crate::metrics::TuiEvent;
use vstd::prelude::*;

verus! {

/// How many events are kept.
pub const EVENT_BUFFER_CAPACITY: usize = 200;

/// What happens at the directory service.
#[derive(Debug)]
pub enum EventKind {
    NodeRegistered { node_id: String, node_type: String, address: String },
    NodeRemoved { node_id: String },
    Heartbeat { node_id: String },
    PathRequested,
    StaleCleanup { removed: usize },
    StatsQueried,
    HealthCheck { ready: bool },
    Error { message: String },
}

/// The contents of an event.
pub enum EventContent {
    NodeRegistered { node_id: Seq<char>, node_type: Seq<char>, address: Seq<char> },
    NodeRemoved { node_id: Seq<char> },
    Heartbeat { node_id: Seq<char> },
    PathRequested,
    StaleCleanup { removed: usize },
    StatsQueried,
    HealthCheck { ready: bool },
    Error { message: Seq<char> },
}

impl View for EventKind {
    type V = EventContent;

    open spec fn view(&self) -> EventContent {
        match self {
            EventKind::NodeRegistered { node_id, node_type, address } => {
                EventContent::NodeRegistered {
                    node_id: node_id@,
                    node_type: node_type@,
                    address: address@,
                }
            },
            EventKind::NodeRemoved { node_id } => EventContent::NodeRemoved { node_id: node_id@ },
            EventKind::Heartbeat { node_id } => EventContent::Heartbeat { node_id: node_id@ },
            EventKind::PathRequested => EventContent::PathRequested,
            EventKind::StaleCleanup { removed } => EventContent::StaleCleanup { removed: *removed },
            EventKind::StatsQueried => EventContent::StatsQueried,
            EventKind::HealthCheck { ready } => EventContent::HealthCheck { ready: *ready },
            EventKind::Error { message } => EventContent::Error { message: message@ },
        }
    }
}

/// The counters and the latest events of the directory service. The counters start over after
/// the largest number.
pub struct DiscoveryMetrics {
    pub registrations: u64,
    pub removals: u64,
    pub heartbeats: u64,
    pub path_requests: u64,
    pub stale_cleaned: u64,
    pub events: EventBuffer<EventKind>,
    pub start_time: Elapsed,
}

/// The counters.
pub struct Counts {
    pub registrations: u64,
    pub removals: u64,
    pub heartbeats: u64,
    pub path_requests: u64,
    pub stale_cleaned: u64,
}

impl Counts {
    /// The counters after an event: a registration, a removal, a heartbeat and a path count once,
    /// and a cleanup counts the nodes that it dropped.
    pub open spec fn after(self, event: EventContent) -> Counts {
        match event {
            EventContent::NodeRegistered { .. } => Counts {
                registrations: self.registrations.wrapping_add(1),
                ..self
            },
            EventContent::NodeRemoved { .. } => Counts {
                removals: self.removals.wrapping_add(1),
                ..self
            },
            EventContent::Heartbeat { .. } => Counts {
                heartbeats: self.heartbeats.wrapping_add(1),
                ..self
            },
            EventContent::PathRequested => Counts {
                path_requests: self.path_requests.wrapping_add(1),
                ..self
            },
            EventContent::StaleCleanup { removed } => Counts {
                stale_cleaned: self.stale_cleaned.wrapping_add(removed as u64),
                ..self
            },
            _ => self,
        }
    }
}

impl DiscoveryMetrics {
    /// The clock readings are valid ones.
    pub open spec fn wf(&self) -> bool {
        &&& self.events.wf()
        &&& self.start_time.wf()
        &&& self.events.capacity() == EVENT_BUFFER_CAPACITY
    }

    /// The counters.
    pub open spec fn counts(&self) -> Counts {
        Counts {
            registrations: self.registrations,
            removals: self.removals,
            heartbeats: self.heartbeats,
            path_requests: self.path_requests,
            stale_cleaned: self.stale_cleaned,
        }
    }

    /// Whether `after` holds one more event, with this content, noted when the clock shows `now`.
    pub open spec fn noted(&self, after: &DiscoveryMetrics, now: Elapsed, content: EventContent) -> bool {
        &&& after.wf()
        &&& after.start_time == self.start_time
        &&& after.events.started() == self.events.started()
        &&& after.events@.len() > 0
        &&& after.events@ == pushed(
            self.events@,
            EVENT_BUFFER_CAPACITY as nat,
            after.events@.last(),
        )
        &&& after.events@.last().kind@ == content
        &&& after.events@.last().elapsed.runs(self.events.started(), now)
    }

    /// No counts and no events, when the clock shows `now`.
    pub fn new(now: Elapsed) -> (r: Self)
        requires
            now.wf(),
        ensures
            r.wf(),
            r.counts() == (Counts {
                registrations: 0,
                removals: 0,
                heartbeats: 0,
                path_requests: 0,
                stale_cleaned: 0,
            }),
            r.events@ == Seq::<TuiEvent<EventKind>>::empty(),
            r.events.started() == now,
            r.start_time == now,
    {
        Self {
            registrations: 0,
            removals: 0,
            heartbeats: 0,
            path_requests: 0,
            stale_cleaned: 0,
            events: EventBuffer::new(EVENT_BUFFER_CAPACITY, now),
            start_time: now,
        }
    }

    /// Adds an event.
    pub fn push_event(&mut self, now: Elapsed, kind: EventKind)
        requires
            old(self).wf(),
            now.wf(),
        ensures
            old(self).noted(final(self), now, kind@),
            final(self).counts() == old(self).counts(),
    {
        self.events.push(now, kind);
    }

    /// How long the service has run when the clock shows `now`.
    pub fn uptime(&self, now: Elapsed) -> (r: Elapsed)
        requires
            self.wf(),
            now.wf(),
        ensures
            r.runs(self.start_time, now),
    {
        now.since(self.start_time)
    }

    /// The number of registrations.
    pub fn get_registrations(&self) -> (r: u64)
        ensures
            r == self.registrations,
    {
        self.registrations
    }

    /// The number of removals.
    pub fn get_removals(&self) -> (r: u64)
        ensures
            r == self.removals,
    {
        self.removals
    }

    /// The number of heartbeats.
    pub fn get_heartbeats(&self) -> (r: u64)
        ensures
            r == self.heartbeats,
    {
        self.heartbeats
    }

    /// The number of paths given out.
    pub fn get_path_requests(&self) -> (r: u64)
        ensures
            r == self.path_requests,
    {
        self.path_requests
    }

    /// The number of nodes dropped for their silence.
    pub fn get_stale_cleaned(&self) -> (r: u64)
        ensures
            r == self.stale_cleaned,
    {
        self.stale_cleaned
    }
}

/// Each event counts for what it is, and for nothing else, as long as the counters have room.
pub proof fn events_count_for_what_they_are(c: Counts, event: EventContent)
    requires
        c.registrations < u64::MAX,
        c.removals < u64::MAX,
        c.heartbeats < u64::MAX,
        c.path_requests < u64::MAX,
        event is StaleCleanup ==> c.stale_cleaned + event->StaleCleanup_removed <= u64::MAX,
    ensures
        ({
            let after = c.after(event);
            &&& after.registrations == c.registrations + (if event is NodeRegistered {
                1int
            } else {
                0
            })
            &&& after.removals == c.removals + (if event is NodeRemoved {
                1int
            } else {
                0
            })
            &&& after.heartbeats == c.heartbeats + (if event is Heartbeat {
                1int
            } else {
                0
            })
            &&& after.path_requests == c.path_requests + (if event is PathRequested {
                1int
            } else {
                0
            })
            &&& after.stale_cleaned == c.stale_cleaned + (if event is StaleCleanup {
                event->StaleCleanup_removed as int
            } else {
                0
            })
        }),
{
}

}
