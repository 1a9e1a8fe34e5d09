//! What the directory service answers to its clients.

use crate::discovery::error::StatusCode;
use crate::discovery::metrics::Counts;
use crate::discovery::metrics::DiscoveryMetrics;
use crate::discovery::metrics::EventContent;
use crate::discovery::metrics::EventKind;
use crate::discovery::path::path_draws_fit;
use crate::discovery::path::path_for;
use crate::discovery::path::path_outcome;
use crate::discovery::path::sound_path;
use crate::discovery::path::Draws;
use crate::discovery::registry::beaten;
use crate::discovery::registry::changed;
use crate::discovery::registry::has_id;
use crate::discovery::registry::live;
use crate::discovery::registry::nodes_of_type;
use crate::discovery::registry::position;
use crate::discovery::registry::ready_means_a_node_of_each_type;
use crate::discovery::registry::registered;
use crate::discovery::registry::Change;
use crate::discovery::registry::NodeEntryView;
use crate::discovery::registry::NodeRegistry;
use crate::discovery::registry::RegistryStats;
use crate::metrics::Elapsed;
use crate::types::descriptors;
use crate::types::NodeDescriptor;
use crate::types::NodeMetrics;
use crate::types::NodeType;
use vstd::prelude::*;
use vstd::string::*;

verus! {

/// Why a request is refused.
#[derive(Debug)]
pub enum ServiceError {
    /// The request itself is wrong.
    Validation(String),
    /// The node that the request is about does not exist.
    NotFound(String),
    /// The registry has not the nodes that it takes.
    Unavailable(String),
}

impl ServiceError {
    /// The message of the error.
    pub open spec fn message(&self) -> Seq<char> {
        match self {
            ServiceError::Validation(m) => m@,
            ServiceError::NotFound(m) => m@,
            ServiceError::Unavailable(m) => m@,
        }
    }

    /// The HTTP status of the answer.
    pub open spec fn http_code(&self) -> u16 {
        match self {
            ServiceError::Validation(_) => 422,
            ServiceError::NotFound(_) => 404,
            ServiceError::Unavailable(_) => 503,
        }
    }

    /// The status code with which a remote call is refused.
    pub open spec fn call_code(&self) -> StatusCode {
        match self {
            ServiceError::Validation(_) => StatusCode::InvalidArgument,
            ServiceError::NotFound(_) => StatusCode::NotFound,
            ServiceError::Unavailable(_) => StatusCode::Unavailable,
        }
    }

    /// The HTTP status of the answer.
    pub fn http_status(&self) -> (r: u16)
        ensures
            r == (match self {
                ServiceError::Validation(_) => 422u16,
                ServiceError::NotFound(_) => 404,
                ServiceError::Unavailable(_) => 503,
            }),
            r == self.http_code(),
    {
        match self {
            ServiceError::Validation(_) => 422,
            ServiceError::NotFound(_) => 404,
            ServiceError::Unavailable(_) => 503,
        }
    }

    /// The status code and the message with which a remote call is refused.
    pub fn status(self) -> (r: (StatusCode, String))
        ensures
            r.1@ == self.message(),
            r.0 == (match self {
                ServiceError::Validation(_) => StatusCode::InvalidArgument,
                ServiceError::NotFound(_) => StatusCode::NotFound,
                ServiceError::Unavailable(_) => StatusCode::Unavailable,
            }),
            r.0 == self.call_code(),
    {
        match self {
            ServiceError::Validation(m) => (StatusCode::InvalidArgument, m),
            ServiceError::NotFound(m) => (StatusCode::NotFound, m),
            ServiceError::Unavailable(m) => (StatusCode::Unavailable, m),
        }
    }
}

/// The answer to a request for all nodes.
#[derive(Debug)]
pub struct NodesResponse {
    pub nodes: Vec<NodeDescriptor>,
    pub count: usize,
}

/// The answer to a health check.
#[derive(Debug)]
pub struct HealthResponse {
    pub status: String,
    pub ready: bool,
    pub message: Option<String>,
}

/// A request for a random path.
#[derive(Debug, Clone, Copy, PartialEq, Eq)]
pub struct RandomPathQuery {
    pub count: usize,
}

/// The number of hops where a request names none.
pub fn default_hop_count() -> (r: usize)
    ensures
        r == 3,
{
    3
}

impl RandomPathQuery {
    /// The request with this number of hops, or with the default one.
    pub fn new(count: Option<usize>) -> (r: Self)
        ensures
            r.count == (match count {
                Some(n) => n,
                None => 3,
            }),
    {
        match count {
            Some(n) => Self { count: n },
            None => Self { count: default_hop_count() },
        }
    }
}

/// What is said where the registry has not a node of each type.
pub open spec fn not_ready_text() -> Seq<char> {
    "Insufficient nodes to build circuits. Need at least 1 entry, 1 middle, and 1 exit node."@
}

fn not_ready_message() -> (s: String)
    ensures
        s@ == not_ready_text(),
{
    "Insufficient nodes to build circuits. Need at least 1 entry, 1 middle, and 1 exit node.".to_owned()
}

/// Why a node may not register.
pub open spec fn registration_complaint(node_id: Seq<char>, bandwidth: u64) -> Option<Seq<char>> {
    if node_id.len() == 0 {
        Some("Node ID cannot be empty"@)
    } else if bandwidth == 0 {
        Some("Bandwidth must be greater than 0"@)
    } else {
        None
    }
}

/// The registry and the metrics of the service.
pub struct AppState {
    pub registry: NodeRegistry,
    pub metrics: Option<DiscoveryMetrics>,
}

/// Where metrics are kept, they hold one more event, noted when the clock shows `now`, and the
/// counters are as given.
pub open spec fn recorded(
    before: Option<DiscoveryMetrics>,
    after: Option<DiscoveryMetrics>,
    now: Elapsed,
    content: EventContent,
    counts: Counts,
) -> bool {
    match (before, after) {
        (Some(b), Some(a)) => b.noted(&a, now, content) && a.counts() == counts,
        (None, None) => true,
        _ => false,
    }
}

/// Where metrics are kept, they hold one more event, noted when the clock shows `now`, and have
/// counted it.
pub open spec fn counted(
    before: Option<DiscoveryMetrics>,
    after: Option<DiscoveryMetrics>,
    now: Elapsed,
    content: EventContent,
) -> bool {
    recorded(before, after, now, content, counts_of(before).after(content))
}

/// The counters, where they are kept.
pub open spec fn counts_of(metrics: Option<DiscoveryMetrics>) -> Counts {
    metrics->0.counts()
}

impl AppState {
    /// The registry and the metrics are valid.
    pub open spec fn wf(&self) -> bool {
        &&& self.registry.wf()
        &&& self.metrics matches Some(m) ==> m.wf()
    }

    /// Whether there is a node of each type.
    pub open spec fn ready(&self) -> bool {
        &&& nodes_of_type(self.registry.entries(), NodeType::Entry).len() > 0
        &&& nodes_of_type(self.registry.entries(), NodeType::Middle).len() > 0
        &&& nodes_of_type(self.registry.entries(), NodeType::Exit).len() > 0
    }

    /// The service as it starts.
    pub fn new(allow_same_ip: bool, metrics: Option<DiscoveryMetrics>) -> (r: Self)
        requires
            metrics matches Some(m) ==> m.wf(),
        ensures
            r.wf(),
            r.registry.entries() == Seq::<NodeEntryView>::empty(),
            r.registry.same_ip_allowed() == allow_same_ip,
            r.metrics == metrics,
    {
        Self { registry: NodeRegistry::new(allow_same_ip), metrics }
    }

    /// Registers a node. `address` is its address as text, for the log.
    pub fn register_node(&mut self, descriptor: NodeDescriptor, address: String, now: Elapsed) -> (r:
        Result<(), ServiceError>)
        requires
            old(self).wf(),
            now.wf(),
        ensures
            final(self).wf(),
            final(self).registry.same_ip_allowed() == old(self).registry.same_ip_allowed(),
            match r {
                Ok(_) => {
                    &&& final(self).registry.entries() == changed(
                        old(self).registry.entries(),
                        Change::Register { descriptor: descriptor@, now },
                    )
                    &&& registration_complaint(descriptor@.node_id, descriptor.bandwidth) is None
                    &&& final(self).registry.entries() == registered(
                        old(self).registry.entries(),
                        descriptor@,
                        now,
                    )
                    &&& counted(
                        old(self).metrics,
                        final(self).metrics,
                        now,
                        EventContent::NodeRegistered {
                            node_id: descriptor@.node_id,
                            node_type: descriptor.node_type.text(),
                            address: address@,
                        },
                    )
                    &&& recorded(
                        old(self).metrics,
                        final(self).metrics,
                        now,
                        EventContent::NodeRegistered {
                            node_id: descriptor@.node_id,
                            node_type: descriptor.node_type.text(),
                            address: address@,
                        },
                        Counts {
                            registrations: counts_of(
                                old(self).metrics,
                            ).registrations.wrapping_add(1),
                            ..counts_of(old(self).metrics)
                        },
                    )
                },
                Err(e) => {
                    &&& e is Validation
                    &&& registration_complaint(descriptor@.node_id, descriptor.bandwidth) == Some(
                        e.message(),
                    )
                    &&& *final(self) == *old(self)
                },
            },
    {
        if descriptor.node_id.as_str().is_empty() {
            return Err(ServiceError::Validation("Node ID cannot be empty".to_owned()));
        }
        if descriptor.bandwidth == 0 {
            return Err(ServiceError::Validation("Bandwidth must be greater than 0".to_owned()));
        }
        let node_id = descriptor.node_id.clone();
        let node_type = descriptor.node_type.to_string();
        self.registry.register_node(descriptor, now);
        if let Some(m) = &mut self.metrics {
            m.registrations = m.registrations.wrapping_add(1);
            m.push_event(now, EventKind::NodeRegistered { node_id, node_type, address });
        }
        Ok(())
    }

    /// All nodes.
    pub fn get_all_nodes(&self) -> (r: NodesResponse)
        ensures
            descriptors(r.nodes@) == self.registry.entries().map_values(
                |e: NodeEntryView| e.descriptor,
            ),
            r.count == self.registry.entries().len(),
    {
        let nodes = self.registry.get_all_nodes();
        proof {
            assert(descriptors(nodes@).len() == nodes@.len());
        }
        let count = nodes.len();
        NodesResponse { nodes, count }
    }

    /// A path of at least three nodes, chosen by the numbers that `draws` gives.
    pub fn get_path(&mut self, query: RandomPathQuery, draws: &mut Draws, now: Elapsed) -> (r:
        Result<Vec<NodeDescriptor>, ServiceError>)
        requires
            old(self).wf(),
            old(draws).wf(),
            now.wf(),
        ensures
            final(self).wf(),
            final(draws).wf(),
            final(self).registry == old(self).registry,
            exists|new: Seq<u128>|
                {
                    &&& final(draws).taken() == old(draws).taken() + new
                    &&& path_draws_fit(
                        nodes_of_type(old(self).registry.entries(), NodeType::Entry),
                        nodes_of_type(old(self).registry.entries(), NodeType::Middle),
                        nodes_of_type(old(self).registry.entries(), NodeType::Exit),
                        old(self).registry.same_ip_allowed(),
                        hops(query.count),
                        new,
                    )
                    &&& #[trigger] path_for(
                        nodes_of_type(old(self).registry.entries(), NodeType::Entry),
                        nodes_of_type(old(self).registry.entries(), NodeType::Middle),
                        nodes_of_type(old(self).registry.entries(), NodeType::Exit),
                        old(self).registry.same_ip_allowed(),
                        hops(query.count),
                        new,
                    ) == (match r {
                        Ok(path) => Ok(descriptors(path@)),
                        Err(e) => Err(unprefixed(e.message())),
                    })
                },
            match r {
                Ok(path) => {
                    &&& path@.len() >= 3
                    &&& path@.len() == query.count || query.count < 3 && path@.len() == 3
                    &&& sound_path(
                        nodes_of_type(old(self).registry.entries(), NodeType::Entry),
                        nodes_of_type(old(self).registry.entries(), NodeType::Middle),
                        nodes_of_type(old(self).registry.entries(), NodeType::Exit),
                        old(self).registry.same_ip_allowed(),
                        hops(query.count),
                        descriptors(path@),
                    )
                    &&& counted(
                        old(self).metrics,
                        final(self).metrics,
                        now,
                        EventContent::PathRequested,
                    )
                    &&& recorded(
                        old(self).metrics,
                        final(self).metrics,
                        now,
                        EventContent::PathRequested,
                        Counts {
                            path_requests: counts_of(
                                old(self).metrics,
                            ).path_requests.wrapping_add(1),
                            ..counts_of(old(self).metrics)
                        },
                    )
                },
                Err(e) => {
                    &&& e is Unavailable
                    &&& e.message() == "Insufficient nodes: "@ + unprefixed(e.message())
                    &&& final(self).metrics == old(self).metrics
                },
            },
    {
        let count: usize = if query.count < 3 {
            3
        } else {
            query.count
        };
        let ghost before = draws.taken();
        let outcome = self.registry.get_path(count, draws);
        proof {
            let e = nodes_of_type(self.registry.entries(), NodeType::Entry);
            let m = nodes_of_type(self.registry.entries(), NodeType::Middle);
            let x = nodes_of_type(self.registry.entries(), NodeType::Exit);
            let allow = self.registry.same_ip_allowed();
            let new = choose|new: Seq<u128>|
                {
                    &&& draws.taken() == before + new
                    &&& path_draws_fit(e, m, x, allow, count as nat, new)
                    &&& path_outcome(outcome) == #[trigger] path_for(
                        e,
                        m,
                        x,
                        allow,
                        count as nat,
                        new,
                    )
                };
            assert(path_for(e, m, x, allow, hops(query.count), new) == path_outcome(outcome));
            reveal_strlit("Insufficient nodes: ");
            if outcome is Err {
                assert(unprefixed(outcome->Err_0.text()) =~= outcome->Err_0->InsufficientNodes_0@);
            }
        }
        match outcome {
            Ok(path) => {
                if let Some(m) = &mut self.metrics {
                    m.path_requests = m.path_requests.wrapping_add(1);
                    m.push_event(now, EventKind::PathRequested);
                }
                Ok(path)
            },
            Err(e) => {
                let message = e.to_string();
                Err(ServiceError::Unavailable(message))
            },
        }
    }

    /// A random path of at least three nodes.
    pub fn get_random_path(&mut self, query: RandomPathQuery, now: Elapsed) -> (r: Result<
        Vec<NodeDescriptor>,
        ServiceError,
    >)
        requires
            old(self).wf(),
            now.wf(),
        ensures
            final(self).wf(),
            final(self).registry == old(self).registry,
            exists|draws: Seq<u128>|
                {
                    &&& path_draws_fit(
                        nodes_of_type(old(self).registry.entries(), NodeType::Entry),
                        nodes_of_type(old(self).registry.entries(), NodeType::Middle),
                        nodes_of_type(old(self).registry.entries(), NodeType::Exit),
                        old(self).registry.same_ip_allowed(),
                        hops(query.count),
                        draws,
                    )
                    &&& #[trigger] path_for(
                        nodes_of_type(old(self).registry.entries(), NodeType::Entry),
                        nodes_of_type(old(self).registry.entries(), NodeType::Middle),
                        nodes_of_type(old(self).registry.entries(), NodeType::Exit),
                        old(self).registry.same_ip_allowed(),
                        hops(query.count),
                        draws,
                    ) == (match r {
                        Ok(path) => Ok(descriptors(path@)),
                        Err(e) => Err(unprefixed(e.message())),
                    })
                },
            match r {
                Ok(path) => {
                    &&& path@.len() >= 3
                    &&& path@.len() == query.count || query.count < 3 && path@.len() == 3
                    &&& sound_path(
                        nodes_of_type(old(self).registry.entries(), NodeType::Entry),
                        nodes_of_type(old(self).registry.entries(), NodeType::Middle),
                        nodes_of_type(old(self).registry.entries(), NodeType::Exit),
                        old(self).registry.same_ip_allowed(),
                        hops(query.count),
                        descriptors(path@),
                    )
                    &&& counted(
                        old(self).metrics,
                        final(self).metrics,
                        now,
                        EventContent::PathRequested,
                    )
                    &&& recorded(
                        old(self).metrics,
                        final(self).metrics,
                        now,
                        EventContent::PathRequested,
                        Counts {
                            path_requests: counts_of(
                                old(self).metrics,
                            ).path_requests.wrapping_add(1),
                            ..counts_of(old(self).metrics)
                        },
                    )
                },
                Err(e) => {
                    &&& e is Unavailable
                    &&& e.message() == "Insufficient nodes: "@ + unprefixed(e.message())
                    &&& final(self).metrics == old(self).metrics
                },
            },
    {
        let mut draws = Draws::random();
        self.get_path(query, &mut draws, now)
    }

    /// Notes a heartbeat and the metrics that came with it.
    pub fn update_heartbeat(&mut self, node_id: &str, metrics: NodeMetrics, now: Elapsed) -> (r:
        Result<(), ServiceError>)
        requires
            old(self).wf(),
            now.wf(),
        ensures
            final(self).wf(),
            final(self).registry.same_ip_allowed() == old(self).registry.same_ip_allowed(),
            match r {
                Ok(_) => {
                    let i = position(old(self).registry.entries(), node_id@);
                    &&& has_id(old(self).registry.entries(), node_id@)
                    &&& final(self).registry.entries() == changed(
                        old(self).registry.entries(),
                        Change::Report { id: node_id@, metrics: metrics@, now },
                    )
                    &&& final(self).registry.entries() == old(self).registry.entries().update(
                        i,
                        NodeEntryView {
                            metrics: Some(metrics@),
                            ..beaten(old(self).registry.entries()[i], now)
                        },
                    )
                    &&& counted(
                        old(self).metrics,
                        final(self).metrics,
                        now,
                        EventContent::Heartbeat { node_id: node_id@ },
                    )
                    &&& recorded(
                        old(self).metrics,
                        final(self).metrics,
                        now,
                        EventContent::Heartbeat { node_id: node_id@ },
                        Counts {
                            heartbeats: counts_of(old(self).metrics).heartbeats.wrapping_add(1),
                            ..counts_of(old(self).metrics)
                        },
                    )
                },
                Err(e) => {
                    &&& e is NotFound
                    &&& e.message() == "Node not found: "@ + node_id@
                    &&& !has_id(old(self).registry.entries(), node_id@)
                    &&& final(self).registry.entries() == old(self).registry.entries()
                    &&& final(self).metrics == old(self).metrics
                },
            },
    {
        match self.registry.update_heartbeat_with_metrics(node_id, metrics, now) {
            Ok(_) => {
                if let Some(m) = &mut self.metrics {
                    m.heartbeats = m.heartbeats.wrapping_add(1);
                    m.push_event(now, EventKind::Heartbeat { node_id: node_id.to_owned() });
                }
                Ok(())
            },
            Err(e) => Err(ServiceError::NotFound(e.to_string())),
        }
    }

    /// Removes a node.
    pub fn remove_node(&mut self, node_id: &str, now: Elapsed) -> (r: Result<(), ServiceError>)
        requires
            old(self).wf(),
            now.wf(),
        ensures
            final(self).wf(),
            final(self).registry.same_ip_allowed() == old(self).registry.same_ip_allowed(),
            match r {
                Ok(_) => {
                    &&& has_id(old(self).registry.entries(), node_id@)
                    &&& final(self).registry.entries() == changed(
                        old(self).registry.entries(),
                        Change::Remove { id: node_id@ },
                    )
                    &&& final(self).registry.entries() == old(self).registry.entries().remove(
                        position(old(self).registry.entries(), node_id@),
                    )
                    &&& counted(
                        old(self).metrics,
                        final(self).metrics,
                        now,
                        EventContent::NodeRemoved { node_id: node_id@ },
                    )
                    &&& recorded(
                        old(self).metrics,
                        final(self).metrics,
                        now,
                        EventContent::NodeRemoved { node_id: node_id@ },
                        Counts {
                            removals: counts_of(old(self).metrics).removals.wrapping_add(1),
                            ..counts_of(old(self).metrics)
                        },
                    )
                },
                Err(e) => {
                    &&& e is NotFound
                    &&& e.message() == "Node not found: "@ + node_id@
                    &&& !has_id(old(self).registry.entries(), node_id@)
                    &&& final(self).registry.entries() == old(self).registry.entries()
                    &&& final(self).metrics == old(self).metrics
                },
            },
    {
        match self.registry.remove_node(node_id) {
            Ok(_) => {
                if let Some(m) = &mut self.metrics {
                    m.removals = m.removals.wrapping_add(1);
                    m.push_event(now, EventKind::NodeRemoved { node_id: node_id.to_owned() });
                }
                Ok(())
            },
            Err(e) => Err(ServiceError::NotFound(e.to_string())),
        }
    }

    /// Figures about the registry.
    pub fn get_stats(&mut self, now: Elapsed) -> (r: RegistryStats)
        requires
            old(self).wf(),
            now.wf(),
        ensures
            final(self).wf(),
            final(self).registry == old(self).registry,
            recorded(
                old(self).metrics,
                final(self).metrics,
                now,
                EventContent::StatsQueried,
                counts_of(old(self).metrics),
            ),
            r.total_nodes == old(self).registry.entries().len(),
            r.entry_count == nodes_of_type(old(self).registry.entries(), NodeType::Entry).len(),
            r.middle_count == nodes_of_type(old(self).registry.entries(), NodeType::Middle).len(),
            r.exit_count == nodes_of_type(old(self).registry.entries(), NodeType::Exit).len(),
            r.oldest_node_age_secs is Some == (old(self).registry.entries().len() > 0),
            r.newest_node_age_secs is Some == (old(self).registry.entries().len() > 0),
            r.oldest_node_age_secs matches Some(age) ==> age
                == crate::discovery::registry::age_secs(
                crate::discovery::registry::oldest(old(self).registry.entries()),
                now,
            ),
            r.newest_node_age_secs matches Some(age) ==> age
                == crate::discovery::registry::age_secs(
                crate::discovery::registry::newest(old(self).registry.entries()),
                now,
            ),
    {
        let stats = self.registry.get_stats(now);
        if let Some(m) = &mut self.metrics {
            m.push_event(now, EventKind::StatsQueried);
        }
        stats
    }

    /// Tells whether circuits can be built, and what is missing.
    pub fn health_check(&mut self, now: Elapsed) -> (r: HealthResponse)
        requires
            old(self).wf(),
            now.wf(),
        ensures
            final(self).wf(),
            final(self).registry == old(self).registry,
            recorded(
                old(self).metrics,
                final(self).metrics,
                now,
                EventContent::HealthCheck { ready: old(self).ready() },
                counts_of(old(self).metrics),
            ),
            r.status@ == "ok"@,
            r.ready == old(self).ready(),
            match r.message {
                Some(m) => !old(self).ready() && m@ == not_ready_text(),
                None => old(self).ready(),
            },
    {
        let ready = self.registry.is_ready();
        if let Some(m) = &mut self.metrics {
            m.push_event(now, EventKind::HealthCheck { ready });
        }
        let message = if ready {
            None
        } else {
            Some(not_ready_message())
        };
        HealthResponse { status: "ok".to_owned(), ready, message }
    }

    /// Accepts if circuits can be built.
    pub fn readiness_check(&self) -> (r: Result<(), ServiceError>)
        ensures
            match r {
                Ok(_) => self.ready(),
                Err(e) => !self.ready() && e is Unavailable && e.message() == not_ready_text(),
            },
    {
        if self.registry.is_ready() {
            Ok(())
        } else {
            Err(ServiceError::Unavailable(not_ready_message()))
        }
    }

    /// Drops the nodes that have been silent for too long, and notes it if there were any.
    pub fn cleanup(&mut self, timeout_secs: u64, now: Elapsed) -> (removed: usize)
        requires
            old(self).wf(),
            now.wf(),
        ensures
            final(self).wf(),
            final(self).registry.entries() == live(
                old(self).registry.entries(),
                Elapsed { secs: timeout_secs, nanos: 0 },
                now,
            ),
            final(self).registry.same_ip_allowed() == old(self).registry.same_ip_allowed(),
            removed == old(self).registry.entries().len() - final(self).registry.entries().len(),
            forall|e: NodeEntryView| #[trigger]
                final(self).registry.entries().contains(e) <==> old(
                    self,
                ).registry.entries().contains(e) && (now.secs * 1_000_000_000 + now.nanos) - (
                e.last_heartbeat.secs * 1_000_000_000 + e.last_heartbeat.nanos) <= timeout_secs
                    * 1_000_000_000,
            removed > 0 ==> counted(
                old(self).metrics,
                final(self).metrics,
                now,
                EventContent::StaleCleanup { removed },
            ),
            if removed > 0 {
                recorded(
                    old(self).metrics,
                    final(self).metrics,
                    now,
                    EventContent::StaleCleanup { removed },
                    Counts {
                        stale_cleaned: counts_of(old(self).metrics).stale_cleaned.wrapping_add(
                            removed as u64,
                        ),
                        ..counts_of(old(self).metrics)
                    },
                )
            } else {
                final(self).metrics == old(self).metrics
            },
    {
        let removed = self.registry.cleanup_stale_nodes(Elapsed::from_secs(timeout_secs), now);
        if removed > 0 {
            if let Some(m) = &mut self.metrics {
                m.stale_cleaned = m.stale_cleaned.wrapping_add(removed as u64);
                m.push_event(now, EventKind::StaleCleanup { removed });
            }
        }
        removed
    }
}

/// The number of hops that is used where `count` are asked for: at least three.
pub open spec fn hops(count: usize) -> nat {
    if count < 3 {
        3
    } else {
        count as nat
    }
}

/// What stands behind the prefix of a complaint about too few nodes.
pub open spec fn unprefixed(message: Seq<char>) -> Seq<char> {
    message.skip("Insufficient nodes: "@.len() as int)
}

/// A node may register exactly if it has an identifier and some bandwidth.
pub proof fn nodes_need_a_name_and_bandwidth(node_id: Seq<char>, bandwidth: u64)
    ensures
        registration_complaint(node_id, bandwidth) is None <==> node_id.len() > 0 && bandwidth > 0,
{
}

/// The service is ready exactly when an entry, a middle node and an exit are registered.
pub proof fn ready_services_have_a_node_of_each_type(state: AppState)
    ensures
        state.ready() <==> ({
            let entries = state.registry.entries();
            &&& exists|a: int|
                0 <= a < entries.len() && (#[trigger] entries[a]).descriptor.node_type
                    == NodeType::Entry
            &&& exists|b: int|
                0 <= b < entries.len() && (#[trigger] entries[b]).descriptor.node_type
                    == NodeType::Middle
            &&& exists|c: int|
                0 <= c < entries.len() && (#[trigger] entries[c]).descriptor.node_type
                    == NodeType::Exit
        }),
{
    ready_means_a_node_of_each_type(state.registry.entries());
}

/// A path has as many hops as were asked for, and three where fewer were.
pub proof fn paths_have_three_hops_or_more(count: usize)
    ensures
        hops(count) >= 3,
        count >= 3 ==> hops(count) == count,
        count < 3 ==> hops(count) == 3,
{
}

/// What is noted is the event itself, at the time that has gone by since the start, behind the
/// events that were there; the oldest one goes where there were two hundred. Where no metrics are
/// kept, none appear.
pub proof fn notes_are_kept_in_order(
    before: Option<DiscoveryMetrics>,
    after: Option<DiscoveryMetrics>,
    now: Elapsed,
    content: EventContent,
    counts: Counts,
)
    requires
        recorded(before, after, now, content, counts),
        before is Some ==> before->0.wf(),
    ensures
        before is Some <==> after is Some,
        before is Some ==> ({
            let old_events = before->0.events@;
            let new_events = after->0.events@;
            &&& new_events.len() > 0
            &&& new_events.last().kind@ == content
            &&& new_events.last().elapsed.runs(before->0.events.started(), now)
            &&& old_events.len() < 200 ==> new_events.drop_last() == old_events
            &&& old_events.len() == 200 ==> new_events.drop_last() == old_events.skip(1)
            &&& after->0.registrations == counts.registrations
            &&& after->0.removals == counts.removals
            &&& after->0.heartbeats == counts.heartbeats
            &&& after->0.path_requests == counts.path_requests
            &&& after->0.stale_cleaned == counts.stale_cleaned
        }),
{
    if before is Some {
        crate::metrics::one_more_event(before->0.events@, 200, after->0.events@.last());
    }
}

/// A refusal says of what kind it is, over HTTP and in a remote call alike: a wrong request, a node
/// that does not exist, or nodes that are missing.
pub proof fn refusals_say_their_kind(e: ServiceError)
    ensures
        e is Validation <==> e.http_code() == 422,
        e is NotFound <==> e.http_code() == 404,
        e is Unavailable <==> e.http_code() == 503,
        e is Validation <==> e.call_code() == StatusCode::InvalidArgument,
        e is NotFound <==> e.call_code() == StatusCode::NotFound,
        e is Unavailable <==> e.call_code() == StatusCode::Unavailable,
{
}

}
