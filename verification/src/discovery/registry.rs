//! The registry of the nodes that the directory knows.

use crate::discovery::error::RegistryError;
use crate::discovery::path::choose_path;
use crate::discovery::path::chosen_paths_are_sound;
use crate::discovery::path::ids_distinct;
use crate::discovery::path::path_draws_fit;
use crate::discovery::path::path_for;
use crate::discovery::path::path_outcome;
use crate::discovery::path::shortage;
use crate::discovery::path::sound_path;
use crate::discovery::path::Draws;
use crate::metrics::Elapsed;
use crate::net::SocketAddr;
use crate::text::same;
use crate::types::descriptors;
use crate::types::NodeDescriptor;
use crate::types::NodeDescriptorView;
use crate::types::NodeMetrics;
use crate::types::NodeMetricsView;
use crate::types::NodeType;
use vstd::prelude::*;
use vstd::string::*;

verus! {

/// What the registry keeps of a node. The times are readings of a monotonic clock.
#[derive(Debug)]
pub struct NodeEntry {
    pub descriptor: NodeDescriptor,
    pub registered_at: Elapsed,
    pub last_heartbeat: Elapsed,
    pub metrics: Option<NodeMetrics>,
}

/// The contents of a registry entry.
#[verifier::ext_equal]
pub struct NodeEntryView {
    pub descriptor: NodeDescriptorView,
    pub registered_at: Elapsed,
    pub last_heartbeat: Elapsed,
    pub metrics: Option<NodeMetricsView>,
}

/// The view of optional metrics.
pub open spec fn opt_metrics(m: Option<NodeMetrics>) -> Option<NodeMetricsView> {
    match m {
        Some(metrics) => Some(metrics@),
        None => None,
    }
}

impl View for NodeEntry {
    type V = NodeEntryView;

    open spec fn view(&self) -> NodeEntryView {
        NodeEntryView {
            descriptor: self.descriptor@,
            registered_at: self.registered_at,
            last_heartbeat: self.last_heartbeat,
            metrics: opt_metrics(self.metrics),
        }
    }
}

impl NodeEntry {
    /// The entry of a node that has sent no metrics yet.
    fn new(descriptor: NodeDescriptor, registered_at: Elapsed, last_heartbeat: Elapsed) -> (r:
        Self)
        ensures
            r@ == NodeEntryView::fresh(descriptor@, registered_at, last_heartbeat),
    {
        Self { descriptor, registered_at, last_heartbeat, metrics: None }
    }
}

impl Clone for NodeEntry {
    fn clone(&self) -> (r: Self)
        ensures
            r@ == self@,
    {
        let metrics = match &self.metrics {
            Some(m) => Some(m.clone()),
            None => None,
        };
        Self {
            descriptor: self.descriptor.clone(),
            registered_at: self.registered_at,
            last_heartbeat: self.last_heartbeat,
            metrics,
        }
    }
}

impl NodeEntryView {
    /// The entry of a node that has sent no metrics yet.
    pub open spec fn fresh(
        descriptor: NodeDescriptorView,
        registered_at: Elapsed,
        last_heartbeat: Elapsed,
    ) -> NodeEntryView {
        NodeEntryView { descriptor, registered_at, last_heartbeat, metrics: None }
    }

    /// The identifier of the node.
    pub open spec fn id(self) -> Seq<char> {
        self.descriptor.node_id
    }
}

/// The contents of a sequence of entries.
pub open spec fn entry_views(v: Seq<NodeEntry>) -> Seq<NodeEntryView> {
    Seq::new(v.len(), |i: int| v[i]@)
}

/// Figures about the registry.
#[derive(Debug, Clone, Copy, PartialEq, Eq)]
pub struct RegistryStats {
    pub total_nodes: usize,
    pub entry_count: usize,
    pub middle_count: usize,
    pub exit_count: usize,
    pub oldest_node_age_secs: Option<u64>,
    pub newest_node_age_secs: Option<u64>,
}

impl RegistryStats {
    /// The figures in one record.
    pub fn new(
        total: usize,
        entry_c: usize,
        middle_c: usize,
        exit_c: usize,
        oldest: Option<u64>,
        newest: Option<u64>,
    ) -> (r: Self)
        ensures
            r == (RegistryStats {
                total_nodes: total,
                entry_count: entry_c,
                middle_count: middle_c,
                exit_count: exit_c,
                oldest_node_age_secs: oldest,
                newest_node_age_secs: newest,
            }),
    {
        Self {
            total_nodes: total,
            entry_count: entry_c,
            middle_count: middle_c,
            exit_count: exit_c,
            oldest_node_age_secs: oldest,
            newest_node_age_secs: newest,
        }
    }
}

// ---------------------------------------------------------------------------------------------
// What the operations do to the entries.
// ---------------------------------------------------------------------------------------------

/// No two entries belong to nodes with the same identifier.
pub open spec fn entry_ids_distinct(entries: Seq<NodeEntryView>) -> bool {
    forall|i: int, j: int|
        0 <= i < j < entries.len() ==> #[trigger] entries[i].id() != #[trigger] entries[j].id()
}

/// No two entries belong to nodes at the same address.
pub open spec fn addresses_distinct(entries: Seq<NodeEntryView>) -> bool {
    forall|i: int, j: int|
        0 <= i < j < entries.len() ==> #[trigger] entries[i].descriptor.address
            != #[trigger] entries[j].descriptor.address
}

/// The clock readings are valid ones.
pub open spec fn clocks_valid(entries: Seq<NodeEntryView>) -> bool {
    forall|i: int|
        0 <= i < entries.len() ==> (#[trigger] entries[i]).registered_at.wf()
            && entries[i].last_heartbeat.wf()
}

/// Whether a node with this identifier is registered.
pub open spec fn has_id(entries: Seq<NodeEntryView>, id: Seq<char>) -> bool {
    exists|i: int| 0 <= i < entries.len() && (#[trigger] entries[i]).id() == id
}

/// Where the node with this identifier stands.
pub open spec fn position(entries: Seq<NodeEntryView>, id: Seq<char>) -> int {
    choose|i: int| 0 <= i < entries.len() && (#[trigger] entries[i]).id() == id
}

/// The entry of the node with this identifier.
pub open spec fn lookup(entries: Seq<NodeEntryView>, id: Seq<char>) -> Option<NodeEntryView> {
    if has_id(entries, id) {
        Some(entries[position(entries, id)])
    } else {
        None
    }
}

/// The entries that stay when a node takes an address: its own, and those at other addresses.
pub open spec fn without_address(
    entries: Seq<NodeEntryView>,
    id: Seq<char>,
    address: SocketAddr,
) -> Seq<NodeEntryView> {
    entries.filter(|e: NodeEntryView| e.id() == id || e.descriptor.address != address)
}

/// The entries after a node has registered: nodes that held its address are gone; a node that was
/// there keeps its time of registration and its metrics.
pub open spec fn registered(
    entries: Seq<NodeEntryView>,
    descriptor: NodeDescriptorView,
    now: Elapsed,
) -> Seq<NodeEntryView> {
    let kept = without_address(entries, descriptor.node_id, descriptor.address);
    if has_id(kept, descriptor.node_id) {
        let i = position(kept, descriptor.node_id);
        kept.update(i, NodeEntryView { descriptor, last_heartbeat: now, ..kept[i] })
    } else {
        kept.push(NodeEntryView::fresh(descriptor, now, now))
    }
}

/// The entries after a node has been put in, in place of one with the same identifier.
pub open spec fn inserted(
    entries: Seq<NodeEntryView>,
    descriptor: NodeDescriptorView,
    now: Elapsed,
) -> Seq<NodeEntryView> {
    if has_id(entries, descriptor.node_id) {
        entries.update(
            position(entries, descriptor.node_id),
            NodeEntryView::fresh(descriptor, now, now),
        )
    } else {
        entries.push(NodeEntryView::fresh(descriptor, now, now))
    }
}

/// The entries after several nodes have been put in, one after the other.
pub open spec fn loaded(
    entries: Seq<NodeEntryView>,
    nodes: Seq<NodeDescriptorView>,
    now: Elapsed,
) -> Seq<NodeEntryView>
    decreases nodes.len(),
{
    if nodes.len() == 0 {
        entries
    } else {
        inserted(loaded(entries, nodes.drop_last(), now), nodes.last(), now)
    }
}

/// The entry after a heartbeat.
pub open spec fn beaten(entry: NodeEntryView, now: Elapsed) -> NodeEntryView {
    NodeEntryView { last_heartbeat: now, ..entry }
}

/// Whether a node has been silent for longer than `timeout`.
pub open spec fn stale(entry: NodeEntryView, timeout: Elapsed, now: Elapsed) -> bool {
    now.total() - entry.last_heartbeat.total() > timeout.total() && now.total()
        >= entry.last_heartbeat.total()
}

/// The entries of the nodes that have not been silent for longer than `timeout`.
pub open spec fn live(entries: Seq<NodeEntryView>, timeout: Elapsed, now: Elapsed) -> Seq<
    NodeEntryView,
> {
    entries.filter(|e: NodeEntryView| !stale(e, timeout, now))
}

/// The descriptors of the nodes of one type, in the order of the registry.
pub open spec fn nodes_of_type(entries: Seq<NodeEntryView>, node_type: NodeType) -> Seq<
    NodeDescriptorView,
> {
    entries.filter_map(
        |e: NodeEntryView|
            if e.descriptor.node_type == node_type {
                Some(e.descriptor)
            } else {
                None
            },
    )
}

/// The earliest time of registration among the entries.
pub open spec fn oldest(entries: Seq<NodeEntryView>) -> Elapsed
    decreases entries.len(),
{
    if entries.len() <= 1 {
        entries[0].registered_at
    } else {
        let before = oldest(entries.drop_last());
        if entries.last().registered_at.total() < before.total() {
            entries.last().registered_at
        } else {
            before
        }
    }
}

/// The latest time of registration among the entries.
pub open spec fn newest(entries: Seq<NodeEntryView>) -> Elapsed
    decreases entries.len(),
{
    if entries.len() <= 1 {
        entries[0].registered_at
    } else {
        let before = newest(entries.drop_last());
        if entries.last().registered_at.total() > before.total() {
            entries.last().registered_at
        } else {
            before
        }
    }
}

/// The whole seconds from `start` to `now`, none if `start` is later.
pub open spec fn age_secs(start: Elapsed, now: Elapsed) -> int {
    if now.total() >= start.total() {
        (now.total() - start.total()) / 1_000_000_000
    } else {
        0
    }
}

// ---------------------------------------------------------------------------------------------
// The registry.
// ---------------------------------------------------------------------------------------------

/// The nodes that have registered, each under its identifier.
#[derive(Debug)]
pub struct NodeRegistry {
    nodes: Vec<NodeEntry>,
    allow_same_ip: bool,
}

impl Default for NodeRegistry {
    fn default() -> (r: Self)
        ensures
            r.wf(),
            r.entries() == Seq::<NodeEntryView>::empty(),
            !r.same_ip_allowed(),
    {
        Self::new(false)
    }
}

impl NodeRegistry {
    /// The entries, in the order in which the nodes first registered.
    pub closed spec fn entries(&self) -> Seq<NodeEntryView> {
        entry_views(self.nodes@)
    }

    /// Whether nodes at the same address may stand in one path.
    pub closed spec fn same_ip_allowed(&self) -> bool {
        self.allow_same_ip
    }

    /// Each node is registered once.
    pub open spec fn wf(&self) -> bool {
        &&& entry_ids_distinct(self.entries())
        &&& clocks_valid(self.entries())
    }

    /// A registry without nodes.
    pub fn new(allow_same_ip: bool) -> (r: Self)
        ensures
            r.wf(),
            r.entries() == Seq::<NodeEntryView>::empty(),
            r.same_ip_allowed() == allow_same_ip,
    {
        let r = Self { nodes: Vec::new(), allow_same_ip };
        proof {
            assert(r.entries() =~= Seq::empty());
        }
        r
    }

    /// Where the node with this identifier stands.
    fn find(&self, node_id: &str) -> (r: Option<usize>)
        requires
            self.wf(),
        ensures
            match r {
                Some(i) => {
                    &&& i < self.nodes@.len()
                    &&& self.entries()[i as int].id() == node_id@
                    &&& has_id(self.entries(), node_id@)
                    &&& position(self.entries(), node_id@) == i
                },
                None => !has_id(self.entries(), node_id@),
            },
    {
        let mut i: usize = 0;
        while i < self.nodes.len()
            invariant
                i <= self.nodes@.len(),
                self.wf(),
                forall|j: int| 0 <= j < i ==> (#[trigger] self.entries()[j]).id() != node_id@,
            decreases self.nodes@.len() - i,
        {
            if same(self.nodes[i].descriptor.node_id.as_str(), node_id) {
                proof {
                    only_position(self.entries(), i as int);
                }
                return Some(i);
            }
            i += 1;
        }
        None
    }

    /// Takes out the nodes other than `node_id` that stand at `address`.
    fn vacate(&mut self, node_id: &str, address: SocketAddr)
        ensures
            final(self).entries() == without_address(old(self).entries(), node_id@, address),
            final(self).same_ip_allowed() == old(self).same_ip_allowed(),
    {
        let ghost all = self.entries();
        let ghost mut seen: int = 0;
        let mut i: usize = 0;
        proof {
            reveal(Seq::filter);
            assert(without_address(all.take(0), node_id@, address) + all.skip(0) =~= all);
        }
        while i < self.nodes.len()
            invariant
                0 <= seen <= all.len(),
                i <= self.nodes@.len(),
                self.same_ip_allowed() == old(self).same_ip_allowed(),
                i == without_address(all.take(seen), node_id@, address).len(),
                self.entries() == without_address(all.take(seen), node_id@, address) + all.skip(
                    seen,
                ),
            decreases self.nodes@.len() - i,
        {
            let ghost kept = without_address(all.take(seen), node_id@, address);
            proof {
                reveal(Seq::filter);
                assert(self.entries()[i as int] == all.skip(seen)[0]);
                assert(all.take(seen + 1).drop_last() =~= all.take(seen));
            }
            if same(self.nodes[i].descriptor.node_id.as_str(), node_id)
                || self.nodes[i].descriptor.address != address {
                i += 1;
                proof {
                    assert(kept.push(all[seen]) + all.skip(seen + 1) =~= kept + all.skip(seen));
                }
            } else {
                let ghost before = self.entries();
                let _removed = self.nodes.remove(i);
                proof {
                    assert(self.entries() =~= before.remove(i as int));
                    assert((kept + all.skip(seen)).remove(i as int) =~= kept + all.skip(seen + 1));
                }
            }
            proof {
                seen = seen + 1;
            }
        }
        proof {
            assert(all.take(seen) =~= all);
            assert(self.entries() =~= without_address(all, node_id@, address));
        }
    }

    /// Registers a node, or brings its descriptor up to date. Other nodes at its address go.
    pub fn register_node(&mut self, descriptor: NodeDescriptor, now: Elapsed)
        requires
            old(self).wf(),
            now.wf(),
        ensures
            final(self).wf(),
            final(self).entries() == registered(old(self).entries(), descriptor@, now),
            final(self).entries() == changed(
                old(self).entries(),
                Change::Register { descriptor: descriptor@, now },
            ),
            final(self).same_ip_allowed() == old(self).same_ip_allowed(),
    {
        proof {
            registering_keeps_ids_distinct(self.entries(), descriptor@, now);
        }
        let node_id = descriptor.node_id.clone();
        self.vacate(node_id.as_str(), descriptor.address);
        let ghost kept = self.entries();
        match self.find(node_id.as_str()) {
            None => {
                self.nodes.push(NodeEntry::new(descriptor, now, now));
                proof {
                    assert(self.entries() =~= kept.push(
                        NodeEntryView::fresh(descriptor@, now, now),
                    ));
                }
            },
            Some(i) => {
                self.nodes[i].descriptor = descriptor;
                self.nodes[i].last_heartbeat = now;
                proof {
                    assert(self.entries() =~= kept.update(
                        i as int,
                        NodeEntryView { descriptor: descriptor@, last_heartbeat: now, ..kept[i as int] },
                    ));
                }
            },
        }
    }

    /// Puts in the nodes of a saved list, as if they had registered now.
    pub fn load(&mut self, nodes: &Vec<NodeDescriptor>, now: Elapsed)
        requires
            old(self).wf(),
            now.wf(),
        ensures
            final(self).wf(),
            final(self).entries() == loaded(old(self).entries(), descriptors(nodes@), now),
            final(self).same_ip_allowed() == old(self).same_ip_allowed(),
    {
        let ghost start = self.entries();
        let ghost views = descriptors(nodes@);
        let mut i: usize = 0;
        proof {
            assert(views.take(0) =~= Seq::empty());
        }
        while i < nodes.len()
            invariant
                i <= nodes.len(),
                now.wf(),
                self.wf(),
                views == descriptors(nodes@),
                self.entries() == loaded(start, views.take(i as int), now),
                self.same_ip_allowed() == old(self).same_ip_allowed(),
            decreases nodes.len() - i,
        {
            let ghost before = self.entries();
            let node = nodes[i].clone();
            let node_id = node.node_id.clone();
            proof {
                assert(views.take(i as int + 1).drop_last() =~= views.take(i as int));
                assert(views.take(i as int + 1).last() == node@);
            }
            match self.find(node_id.as_str()) {
                Some(at) => {
                    self.nodes[at] = NodeEntry::new(node, now, now);
                    proof {
                        assert(self.entries() =~= inserted(before, node@, now));
                    }
                },
                None => {
                    self.nodes.push(NodeEntry::new(node, now, now));
                    proof {
                        assert(self.entries() =~= inserted(before, node@, now));
                    }
                },
            }
            proof {
                inserting_keeps_ids_distinct(before, node@, now);
            }
            i += 1;
        }
        proof {
            assert(views.take(i as int) =~= views);
        }
    }

    /// The descriptors of all nodes.
    pub fn get_all_nodes(&self) -> (r: Vec<NodeDescriptor>)
        ensures
            descriptors(r@) == self.entries().map_values(|e: NodeEntryView| e.descriptor),
    {
        let mut r: Vec<NodeDescriptor> = Vec::new();
        let mut i: usize = 0;
        while i < self.nodes.len()
            invariant
                i <= self.nodes@.len(),
                r@.len() == i,
                forall|j: int| 0 <= j < i ==> (#[trigger] r@[j])@ == self.entries()[j].descriptor,
            decreases self.nodes@.len() - i,
        {
            r.push(self.nodes[i].descriptor.clone());
            i += 1;
        }
        proof {
            assert(descriptors(r@) =~= self.entries().map_values(|e: NodeEntryView| e.descriptor));
        }
        r
    }

    /// The entries of all nodes.
    pub fn get_all_entries(&self) -> (r: &Vec<NodeEntry>)
        ensures
            entry_views(r@) == self.entries(),
    {
        &self.nodes
    }

    /// The descriptors of the nodes of one type.
    pub fn get_nodes_by_type(&self, node_type: NodeType) -> (r: Vec<NodeDescriptor>)
        ensures
            descriptors(r@) == nodes_of_type(self.entries(), node_type),
    {
        let mut r: Vec<NodeDescriptor> = Vec::new();
        let mut i: usize = 0;
        let ghost all = self.entries();
        proof {
            assert(descriptors(r@) =~= nodes_of_type(all.take(0), node_type));
        }
        while i < self.nodes.len()
            invariant
                i <= self.nodes@.len(),
                all == self.entries(),
                descriptors(r@) == nodes_of_type(all.take(i as int), node_type),
            decreases self.nodes@.len() - i,
        {
            let ghost before = r@;
            if self.nodes[i].descriptor.node_type == node_type {
                r.push(self.nodes[i].descriptor.clone());
            }
            proof {
                assert(all.take(i as int + 1).drop_last() =~= all.take(i as int));
                assert(descriptors(r@) =~= nodes_of_type(all.take(i as int + 1), node_type));
            }
            i += 1;
        }
        proof {
            assert(all.take(i as int) =~= all);
        }
        r
    }

    /// Chooses a path of `count` nodes by the numbers that `draws` gives: the exit first, then
    /// the entry, then the middle nodes.
    pub fn get_path(&self, count: usize, draws: &mut Draws) -> (r: Result<
        Vec<NodeDescriptor>,
        RegistryError,
    >)
        requires
            self.wf(),
            old(draws).wf(),
        ensures
            final(draws).wf(),
            r matches Err(e) ==> e is InsufficientNodes,
            exists|new: Seq<u128>|
                {
                    &&& final(draws).taken() == old(draws).taken() + new
                    &&& path_draws_fit(
                        nodes_of_type(self.entries(), NodeType::Entry),
                        nodes_of_type(self.entries(), NodeType::Middle),
                        nodes_of_type(self.entries(), NodeType::Exit),
                        self.same_ip_allowed(),
                        count as nat,
                        new,
                    )
                    &&& path_outcome(r) == #[trigger] path_for(
                        nodes_of_type(self.entries(), NodeType::Entry),
                        nodes_of_type(self.entries(), NodeType::Middle),
                        nodes_of_type(self.entries(), NodeType::Exit),
                        self.same_ip_allowed(),
                        count as nat,
                        new,
                    )
                },
            r matches Ok(path) ==> sound_path(
                nodes_of_type(self.entries(), NodeType::Entry),
                nodes_of_type(self.entries(), NodeType::Middle),
                nodes_of_type(self.entries(), NodeType::Exit),
                self.same_ip_allowed(),
                count as nat,
                descriptors(path@),
            ),
            r matches Ok(path) ==> path@.len() == count && forall|i: int|
                0 <= i < count ==> (#[trigger] path@[i]).node_type == (if i == 0 {
                    NodeType::Entry
                } else if i == count - 1 {
                    NodeType::Exit
                } else {
                    NodeType::Middle
                }),
    {
        let entries = self.get_nodes_by_type(NodeType::Entry);
        let middles = self.get_nodes_by_type(NodeType::Middle);
        let exits = self.get_nodes_by_type(NodeType::Exit);
        let ghost before = draws.taken();
        let ghost e = nodes_of_type(self.entries(), NodeType::Entry);
        let ghost m = nodes_of_type(self.entries(), NodeType::Middle);
        let ghost x = nodes_of_type(self.entries(), NodeType::Exit);
        let r = choose_path(entries, middles, exits, self.allow_same_ip, count, draws);
        proof {
            let new = choose|new: Seq<u128>|
                {
                    &&& draws.taken() == before + new
                    &&& path_draws_fit(e, m, x, self.allow_same_ip, count as nat, new)
                    &&& path_outcome(r) == #[trigger] path_for(
                        e,
                        m,
                        x,
                        self.allow_same_ip,
                        count as nat,
                        new,
                    )
                };
            assert(draws.taken() == before + new);
            assert(path_outcome(r) == path_for(
                e,
                m,
                x,
                self.same_ip_allowed(),
                count as nat,
                new,
            ));
            registered_ids_are_distinct(self.entries());
            if r is Ok {
                chosen_paths_are_sound(e, m, x, self.allow_same_ip, count as nat, new);
                let path = descriptors(r->Ok_0@);
                assert forall|i: int| 0 <= i < count implies (
                #[trigger] r->Ok_0@[i]).node_type == (if i == 0 {
                    NodeType::Entry
                } else if i == count - 1 {
                    NodeType::Exit
                } else {
                    NodeType::Middle
                }) by {
                    paths_run_over_registered_nodes(
                        self.entries(),
                        self.allow_same_ip,
                        count as nat,
                        path,
                        i,
                    );
                    assert(path[i] == r->Ok_0@[i]@);
                }
            }
        }
        r
    }

    /// Chooses a random path of `count` nodes: an entry node, `count - 2` middle nodes and an
    /// exit node.
    pub fn get_random_path(&self, count: usize) -> (r: Result<Vec<NodeDescriptor>, RegistryError>)
        requires
            self.wf(),
        ensures
            r matches Err(e) ==> e is InsufficientNodes,
            exists|draws: Seq<u128>|
                {
                    &&& path_draws_fit(
                        nodes_of_type(self.entries(), NodeType::Entry),
                        nodes_of_type(self.entries(), NodeType::Middle),
                        nodes_of_type(self.entries(), NodeType::Exit),
                        self.same_ip_allowed(),
                        count as nat,
                        draws,
                    )
                    &&& path_outcome(r) == #[trigger] path_for(
                        nodes_of_type(self.entries(), NodeType::Entry),
                        nodes_of_type(self.entries(), NodeType::Middle),
                        nodes_of_type(self.entries(), NodeType::Exit),
                        self.same_ip_allowed(),
                        count as nat,
                        draws,
                    )
                },
            r matches Ok(path) ==> sound_path(
                nodes_of_type(self.entries(), NodeType::Entry),
                nodes_of_type(self.entries(), NodeType::Middle),
                nodes_of_type(self.entries(), NodeType::Exit),
                self.same_ip_allowed(),
                count as nat,
                descriptors(path@),
            ),
            r matches Ok(path) ==> path@.len() == count && forall|i: int|
                0 <= i < count ==> (#[trigger] path@[i]).node_type == (if i == 0 {
                    NodeType::Entry
                } else if i == count - 1 {
                    NodeType::Exit
                } else {
                    NodeType::Middle
                }),
    {
        let mut draws = Draws::random();
        self.get_path(count, &mut draws)
    }

    /// Notes a sign of life of a node.
    pub fn update_heartbeat(&mut self, node_id: &str, now: Elapsed) -> (r: Result<
        (),
        RegistryError,
    >)
        requires
            old(self).wf(),
            now.wf(),
        ensures
            final(self).wf(),
            final(self).same_ip_allowed() == old(self).same_ip_allowed(),
            final(self).entries() == changed(
                old(self).entries(),
                Change::Heartbeat { id: node_id@, now },
            ),
            match r {
                Ok(_) => {
                    let i = position(old(self).entries(), node_id@);
                    &&& has_id(old(self).entries(), node_id@)
                    &&& final(self).entries() == old(self).entries().update(
                        i,
                        beaten(old(self).entries()[i], now),
                    )
                },
                Err(e) => {
                    &&& !has_id(old(self).entries(), node_id@)
                    &&& final(self).entries() == old(self).entries()
                    &&& e matches RegistryError::NodeNotFound(m) && m@ == node_id@
                },
            },
    {
        match self.find(node_id) {
            None => Err(RegistryError::NodeNotFound(node_id.to_owned())),
            Some(i) => {
                let ghost before = self.entries();
                self.nodes[i].last_heartbeat = now;
                proof {
                    assert(self.entries() =~= before.update(
                        i as int,
                        beaten(before[i as int], now),
                    ));
                }
                Ok(())
            },
        }
    }

    /// Notes a sign of life of a node, and the metrics that came with it.
    pub fn update_heartbeat_with_metrics(
        &mut self,
        node_id: &str,
        metrics: NodeMetrics,
        now: Elapsed,
    ) -> (r: Result<(), RegistryError>)
        requires
            old(self).wf(),
            now.wf(),
        ensures
            final(self).wf(),
            final(self).same_ip_allowed() == old(self).same_ip_allowed(),
            final(self).entries() == changed(
                old(self).entries(),
                Change::Report { id: node_id@, metrics: metrics@, now },
            ),
            match r {
                Ok(_) => {
                    let i = position(old(self).entries(), node_id@);
                    &&& has_id(old(self).entries(), node_id@)
                    &&& final(self).entries() == old(self).entries().update(
                        i,
                        NodeEntryView {
                            metrics: Some(metrics@),
                            ..beaten(old(self).entries()[i], now)
                        },
                    )
                },
                Err(e) => {
                    &&& !has_id(old(self).entries(), node_id@)
                    &&& final(self).entries() == old(self).entries()
                    &&& e matches RegistryError::NodeNotFound(m) && m@ == node_id@
                },
            },
    {
        match self.find(node_id) {
            None => Err(RegistryError::NodeNotFound(node_id.to_owned())),
            Some(i) => {
                let ghost before = self.entries();
                self.nodes[i].last_heartbeat = now;
                self.nodes[i].metrics = Some(metrics);
                proof {
                    assert(self.entries() =~= before.update(
                        i as int,
                        NodeEntryView { metrics: Some(metrics@), ..beaten(before[i as int], now) },
                    ));
                }
                Ok(())
            },
        }
    }

    /// Removes a node.
    pub fn remove_node(&mut self, node_id: &str) -> (r: Result<(), RegistryError>)
        requires
            old(self).wf(),
        ensures
            final(self).wf(),
            final(self).same_ip_allowed() == old(self).same_ip_allowed(),
            final(self).entries() == changed(
                old(self).entries(),
                Change::Remove { id: node_id@ },
            ),
            match r {
                Ok(_) => {
                    &&& has_id(old(self).entries(), node_id@)
                    &&& final(self).entries() == old(self).entries().remove(
                        position(old(self).entries(), node_id@),
                    )
                },
                Err(e) => {
                    &&& !has_id(old(self).entries(), node_id@)
                    &&& final(self).entries() == old(self).entries()
                    &&& e matches RegistryError::NodeNotFound(m) && m@ == node_id@
                },
            },
    {
        match self.find(node_id) {
            None => Err(RegistryError::NodeNotFound(node_id.to_owned())),
            Some(i) => {
                let ghost before = self.entries();
                let _removed = self.nodes.remove(i);
                proof {
                    assert(self.entries() =~= before.remove(i as int));
                }
                Ok(())
            },
        }
    }

    /// Removes the nodes that have been silent for longer than `timeout`, and counts them.
    pub fn cleanup_stale_nodes(&mut self, timeout: Elapsed, now: Elapsed) -> (removed: usize)
        requires
            old(self).wf(),
            timeout.wf(),
            now.wf(),
        ensures
            final(self).wf(),
            final(self).same_ip_allowed() == old(self).same_ip_allowed(),
            final(self).entries() == changed(
                old(self).entries(),
                Change::Cleanup { timeout, now },
            ),
            final(self).entries() == live(old(self).entries(), timeout, now),
            removed == old(self).entries().len() - final(self).entries().len(),
            forall|e: NodeEntryView| #[trigger]
                final(self).entries().contains(e) <==> old(self).entries().contains(e) && (now.secs
                    * 1_000_000_000 + now.nanos) - (e.last_heartbeat.secs * 1_000_000_000
                    + e.last_heartbeat.nanos) <= timeout.secs * 1_000_000_000 + timeout.nanos,
    {
        let ghost all = self.entries();
        let ghost mut seen: int = 0;
        let before_count = self.nodes.len();
        let mut i: usize = 0;
        proof {
            reveal(Seq::filter);
            assert(live(all.take(0), timeout, now) + all.skip(0) =~= all);
            live_entries(all, timeout, now);
        }
        while i < self.nodes.len()
            invariant
                timeout.wf(),
                now.wf(),
                clocks_valid(all),
                before_count == all.len(),
                0 <= seen <= all.len(),
                i <= self.nodes@.len(),
                self.same_ip_allowed() == old(self).same_ip_allowed(),
                i == live(all.take(seen), timeout, now).len(),
                self.entries() == live(all.take(seen), timeout, now) + all.skip(seen),
            decreases self.nodes@.len() - i,
        {
            let ghost kept = live(all.take(seen), timeout, now);
            proof {
                reveal(Seq::filter);
                assert(self.entries()[i as int] == all.skip(seen)[0]);
                assert(all.take(seen + 1).drop_last() =~= all.take(seen));
                assert(all[seen].last_heartbeat.wf());
            }
            let silent = now.since(self.nodes[i].last_heartbeat);
            if silent.secs > timeout.secs || (silent.secs == timeout.secs && silent.nanos
                > timeout.nanos) {
                let ghost before = self.entries();
                let _removed = self.nodes.remove(i);
                proof {
                    assert(self.entries() =~= before.remove(i as int));
                    assert((kept + all.skip(seen)).remove(i as int) =~= kept + all.skip(seen + 1));
                }
            } else {
                i += 1;
                proof {
                    assert(kept.push(all[seen]) + all.skip(seen + 1) =~= kept + all.skip(seen));
                }
            }
            proof {
                seen = seen + 1;
            }
        }
        proof {
            assert(all.take(seen) =~= all);
            assert(self.entries() =~= live(all, timeout, now));
            assert forall|e: NodeEntryView| #[trigger]
                self.entries().contains(e) <==> all.contains(e) && (now.secs * 1_000_000_000
                    + now.nanos) - (e.last_heartbeat.secs * 1_000_000_000
                    + e.last_heartbeat.nanos) <= timeout.secs * 1_000_000_000 + timeout.nanos by {
                cleanup_goes_by_the_clock(all, timeout, now, e);
            }
        }
        before_count - self.nodes.len()
    }

    /// Whether there is a node of each type.
    pub fn is_ready(&self) -> (r: bool)
        ensures
            r == (nodes_of_type(self.entries(), NodeType::Entry).len() > 0 && nodes_of_type(
                self.entries(),
                NodeType::Middle,
            ).len() > 0 && nodes_of_type(self.entries(), NodeType::Exit).len() > 0),
    {
        let entries = self.get_nodes_by_type(NodeType::Entry);
        let middles = self.get_nodes_by_type(NodeType::Middle);
        let exits = self.get_nodes_by_type(NodeType::Exit);
        proof {
            assert(descriptors(entries@).len() == entries@.len());
            assert(descriptors(middles@).len() == middles@.len());
            assert(descriptors(exits@).len() == exits@.len());
        }
        !entries.is_empty() && !middles.is_empty() && !exits.is_empty()
    }

    /// Figures about the registry, when the clock shows `now`.
    pub fn get_stats(&self, now: Elapsed) -> (r: RegistryStats)
        requires
            self.wf(),
            now.wf(),
        ensures
            r.total_nodes == self.entries().len(),
            r.entry_count == nodes_of_type(self.entries(), NodeType::Entry).len(),
            r.middle_count == nodes_of_type(self.entries(), NodeType::Middle).len(),
            r.exit_count == nodes_of_type(self.entries(), NodeType::Exit).len(),
            r.entry_count == self.entries().filter(
                |e: NodeEntryView| e.descriptor.node_type == NodeType::Entry,
            ).len(),
            r.middle_count == self.entries().filter(
                |e: NodeEntryView| e.descriptor.node_type == NodeType::Middle,
            ).len(),
            r.exit_count == self.entries().filter(
                |e: NodeEntryView| e.descriptor.node_type == NodeType::Exit,
            ).len(),
            self.entries().len() == 0 ==> r.oldest_node_age_secs is None
                && r.newest_node_age_secs is None,
            self.entries().len() > 0 ==> {
                &&& r.oldest_node_age_secs is Some
                &&& r.oldest_node_age_secs->0 == age_secs(oldest(self.entries()), now)
                &&& r.newest_node_age_secs is Some
                &&& r.newest_node_age_secs->0 == age_secs(newest(self.entries()), now)
            },
    {
        let mut entry_count: usize = 0;
        let mut middle_count: usize = 0;
        let mut exit_count: usize = 0;
        let mut first: Option<Elapsed> = None;
        let mut last: Option<Elapsed> = None;
        let ghost all = self.entries();
        let mut i: usize = 0;
        proof {
            assert(nodes_of_type(all.take(0), NodeType::Entry) =~= Seq::empty());
            assert(nodes_of_type(all.take(0), NodeType::Middle) =~= Seq::empty());
            assert(nodes_of_type(all.take(0), NodeType::Exit) =~= Seq::empty());
        }
        while i < self.nodes.len()
            invariant
                i <= self.nodes@.len(),
                all == self.entries(),
                clocks_valid(all),
                entry_count == nodes_of_type(all.take(i as int), NodeType::Entry).len(),
                middle_count == nodes_of_type(all.take(i as int), NodeType::Middle).len(),
                exit_count == nodes_of_type(all.take(i as int), NodeType::Exit).len(),
                entry_count + middle_count + exit_count == i,
                i == 0 ==> first is None && last is None,
                i > 0 ==> first == Some(oldest(all.take(i as int))) && first->0.wf(),
                i > 0 ==> last == Some(newest(all.take(i as int))) && last->0.wf(),
            decreases self.nodes@.len() - i,
        {
            let entry = &self.nodes[i];
            let at = entry.registered_at;
            proof {
                assert(all.take(i as int + 1).drop_last() =~= all.take(i as int));
                assert(all.take(i as int + 1).last() == entry@);
                assert(all[i as int].registered_at.wf());
            }
            match entry.descriptor.node_type {
                NodeType::Entry => {
                    entry_count += 1;
                },
                NodeType::Middle => {
                    middle_count += 1;
                },
                NodeType::Exit => {
                    exit_count += 1;
                },
            }
            first = match first {
                None => Some(at),
                Some(t) => if at.earlier_than(t) {
                    Some(at)
                } else {
                    Some(t)
                },
            };
            last = match last {
                None => Some(at),
                Some(t) => if t.earlier_than(at) {
                    Some(at)
                } else {
                    Some(t)
                },
            };
            i += 1;
        }
        proof {
            assert(all.take(i as int) =~= all);
        }
        proof {
            types_count_their_nodes(all, NodeType::Entry);
            types_count_their_nodes(all, NodeType::Middle);
            types_count_their_nodes(all, NodeType::Exit);
        }
        let oldest_age = match first {
            Some(t) => Some(now.since(t).secs),
            None => None,
        };
        let newest_age = match last {
            Some(t) => Some(now.since(t).secs),
            None => None,
        };
        RegistryStats::new(
            self.nodes.len(),
            entry_count,
            middle_count,
            exit_count,
            oldest_age,
            newest_age,
        )
    }
}

// ---------------------------------------------------------------------------------------------
// What holds of the entries.
// ---------------------------------------------------------------------------------------------

proof fn only_position(entries: Seq<NodeEntryView>, i: int)
    requires
        entry_ids_distinct(entries),
        0 <= i < entries.len(),
    ensures
        has_id(entries, entries[i].id()),
        position(entries, entries[i].id()) == i,
{
    let p = position(entries, entries[i].id());
    assert(has_id(entries, entries[i].id()));
    if p < i {
        assert(entries[p].id() != entries[i].id());
    } else if i < p {
        assert(entries[i].id() != entries[p].id());
    }
}

/// A filtered sequence of entries holds entries of the sequence, in their order.
proof fn filtered_entries(entries: Seq<NodeEntryView>, keep: spec_fn(NodeEntryView) -> bool)
    ensures
        forall|i: int|
            0 <= i < entries.filter(keep).len() ==> entries.contains(
                #[trigger] entries.filter(keep)[i],
            ) && keep(entries.filter(keep)[i]),
        forall|i: int|
            0 <= i < entries.len() && keep(entries[i]) ==> entries.filter(keep).contains(
                #[trigger] entries[i],
            ),
        entry_ids_distinct(entries) ==> entry_ids_distinct(entries.filter(keep)),
        addresses_distinct(entries) ==> addresses_distinct(entries.filter(keep)),
        clocks_valid(entries) ==> clocks_valid(entries.filter(keep)),
        entries.filter(keep).len() <= entries.len(),
    decreases entries.len(),
{
    reveal(Seq::filter);
    if entries.len() > 0 {
        let rest = entries.drop_last();
        filtered_entries(rest, keep);
        let before = rest.filter(keep);
        let after = entries.filter(keep);
        let n = entries.len() - 1;
        assert forall|i: int| 0 <= i < after.len() implies entries.contains(#[trigger] after[i])
            && keep(after[i]) by {
            if i < before.len() {
                assert(after[i] == before[i]);
                let k = choose|k: int| 0 <= k < rest.len() && rest[k] == before[i];
                assert(entries[k] == after[i]);
            } else {
                assert(after[i] == entries[n]);
            }
        }
        assert forall|i: int| 0 <= i < entries.len() && keep(entries[i]) implies after.contains(
            #[trigger] entries[i],
        ) by {
            if i < n {
                assert(rest[i] == entries[i]);
                let k = choose|k: int| 0 <= k < before.len() && before[k] == rest[i];
                assert(after[k] == entries[i]);
            } else {
                assert(after[after.len() - 1] == entries[i]);
            }
        }
        assert forall|i: int, j: int| 0 <= i < j < after.len() implies ({
            let a = #[trigger] after[i];
            let b = #[trigger] after[j];
            &&& entry_ids_distinct(entries) ==> a.id() != b.id()
            &&& addresses_distinct(entries) ==> a.descriptor.address != b.descriptor.address
        }) by {
            if j < before.len() {
                assert(after[i] == before[i] && after[j] == before[j]);
                if entry_ids_distinct(entries) {
                    assert(entry_ids_distinct(rest));
                    assert(before[i].id() != before[j].id());
                }
                if addresses_distinct(entries) {
                    assert(addresses_distinct(rest));
                    assert(before[i].descriptor.address != before[j].descriptor.address);
                }
            } else {
                assert(after[i] == before[i]);
                let k = choose|k: int| 0 <= k < rest.len() && rest[k] == before[i];
                assert(entries[k] == after[i]);
                assert(after[j] == entries[n]);
                assert(entries[k].id() == entries[k].id() && entries[n].id() == entries[n].id());
            }
        }
        assert forall|i: int| 0 <= i < after.len() && clocks_valid(entries) implies (
        #[trigger] after[i]).registered_at.wf() && after[i].last_heartbeat.wf() by {
            let k = choose|k: int| 0 <= k < entries.len() && entries[k] == after[i];
            assert(entries[k].registered_at.wf());
        }
    }
}

proof fn live_entries(entries: Seq<NodeEntryView>, timeout: Elapsed, now: Elapsed)
    requires
        entry_ids_distinct(entries),
        clocks_valid(entries),
    ensures
        entry_ids_distinct(live(entries, timeout, now)),
        clocks_valid(live(entries, timeout, now)),
{
    filtered_entries(entries, |e: NodeEntryView| !stale(e, timeout, now));
}

proof fn nodes_of_type_are_distinct(entries: Seq<NodeEntryView>, node_type: NodeType)
    requires
        entry_ids_distinct(entries),
    ensures
        ids_distinct(nodes_of_type(entries, node_type)),
        forall|i: int|
            0 <= i < nodes_of_type(entries, node_type).len() ==> exists|k: int|
                0 <= k < entries.len() && (#[trigger] entries[k]).descriptor
                    == #[trigger] nodes_of_type(entries, node_type)[i],
        forall|i: int|
            0 <= i < nodes_of_type(entries, node_type).len() ==> (#[trigger] nodes_of_type(
                entries,
                node_type,
            )[i]).node_type == node_type,
    decreases entries.len(),
{
    if entries.len() > 0 {
        let rest = entries.drop_last();
        nodes_of_type_are_distinct(rest, node_type);
        let before = nodes_of_type(rest, node_type);
        let after = nodes_of_type(entries, node_type);
        let n = entries.len() - 1;
        assert forall|i: int| 0 <= i < after.len() implies exists|k: int|
            0 <= k < entries.len() && (#[trigger] entries[k]).descriptor == #[trigger] after[i] by {
            if i < before.len() {
                assert(after[i] == before[i]);
                let k = choose|k: int|
                    0 <= k < rest.len() && (#[trigger] rest[k]).descriptor == before[i];
                assert(entries[k].descriptor == after[i]);
            } else {
                assert(entries[n].descriptor == after[i]);
            }
        }
        assert forall|i: int, j: int| 0 <= i < j < after.len() implies #[trigger] after[i].node_id
            != #[trigger] after[j].node_id by {
            if j < before.len() {
                assert(after[i] == before[i] && after[j] == before[j]);
                assert(before[i].node_id != before[j].node_id);
            } else {
                assert(after[i] == before[i]);
                let k = choose|k: int|
                    0 <= k < rest.len() && (#[trigger] rest[k]).descriptor == before[i];
                assert(entries[k].id() != entries[n].id());
            }
        }
    }
}

/// No two of the nodes of all types have the same identifier.
proof fn registered_ids_are_distinct(entries: Seq<NodeEntryView>)
    requires
        entry_ids_distinct(entries),
    ensures
        ids_distinct(
            nodes_of_type(entries, NodeType::Entry) + nodes_of_type(entries, NodeType::Middle)
                + nodes_of_type(entries, NodeType::Exit),
        ),
{
    let e = nodes_of_type(entries, NodeType::Entry);
    let m = nodes_of_type(entries, NodeType::Middle);
    let x = nodes_of_type(entries, NodeType::Exit);
    nodes_of_type_are_distinct(entries, NodeType::Entry);
    nodes_of_type_are_distinct(entries, NodeType::Middle);
    nodes_of_type_are_distinct(entries, NodeType::Exit);
    let all = e + m + x;
    assert forall|i: int| 0 <= i < all.len() implies {
        ||| i < e.len() && all[i] == e[i]
        ||| e.len() <= i < e.len() + m.len() && all[i] == m[i - e.len()]
        ||| e.len() + m.len() <= i && all[i] == x[i - e.len() - m.len()]
    } by {}
    assert forall|i: int, j: int| 0 <= i < j < all.len() implies #[trigger] all[i].node_id
        != #[trigger] all[j].node_id by {
        let a = choose|k: int| 0 <= k < entries.len() && (#[trigger] entries[k]).descriptor == all[i];
        let b = choose|k: int| 0 <= k < entries.len() && (#[trigger] entries[k]).descriptor == all[j];
        if all[i].node_type != all[j].node_type {
            assert(entries[a].id() == all[i].node_id && entries[b].id() == all[j].node_id);
            assert(a != b);
        }
    }
}

proof fn registering_keeps_ids_distinct(
    entries: Seq<NodeEntryView>,
    descriptor: NodeDescriptorView,
    now: Elapsed,
)
    requires
        entry_ids_distinct(entries),
    ensures
        entry_ids_distinct(without_address(entries, descriptor.node_id, descriptor.address)),
        clocks_valid(entries) ==> clocks_valid(
            without_address(entries, descriptor.node_id, descriptor.address),
        ),
        entry_ids_distinct(registered(entries, descriptor, now)),
        clocks_valid(entries) && now.wf() ==> clocks_valid(registered(entries, descriptor, now)),
{
    filtered_entries(
        entries,
        |e: NodeEntryView|
            e.id() == descriptor.node_id || e.descriptor.address != descriptor.address,
    );
    let kept = without_address(entries, descriptor.node_id, descriptor.address);
    let after = registered(entries, descriptor, now);
    if has_id(kept, descriptor.node_id) {
        let p = position(kept, descriptor.node_id);
        assert forall|i: int, j: int| 0 <= i < j < after.len() implies #[trigger] after[i].id()
            != #[trigger] after[j].id() by {
            assert(kept[i].id() != kept[j].id());
        }
        assert forall|i: int| 0 <= i < after.len() && clocks_valid(entries) && now.wf() implies (
        #[trigger] after[i]).registered_at.wf() && after[i].last_heartbeat.wf() by {
            assert(kept[i].registered_at.wf());
        }
    } else {
        assert forall|i: int, j: int| 0 <= i < j < after.len() implies #[trigger] after[i].id()
            != #[trigger] after[j].id() by {
            if j < kept.len() {
                assert(kept[i].id() != kept[j].id());
            } else {
                assert(kept[i].id() != descriptor.node_id);
            }
        }
        assert forall|i: int| 0 <= i < after.len() && clocks_valid(entries) && now.wf() implies (
        #[trigger] after[i]).registered_at.wf() && after[i].last_heartbeat.wf() by {
            if i < kept.len() {
                assert(kept[i].registered_at.wf());
            }
        }
    }
}

proof fn inserting_keeps_ids_distinct(
    entries: Seq<NodeEntryView>,
    descriptor: NodeDescriptorView,
    now: Elapsed,
)
    requires
        entry_ids_distinct(entries),
        clocks_valid(entries),
        now.wf(),
    ensures
        entry_ids_distinct(inserted(entries, descriptor, now)),
        clocks_valid(inserted(entries, descriptor, now)),
{
    let after = inserted(entries, descriptor, now);
    assert forall|i: int, j: int| 0 <= i < j < after.len() implies #[trigger] after[i].id()
        != #[trigger] after[j].id() by {
        if j < entries.len() {
            assert(entries[i].id() != entries[j].id());
        } else {
            assert(entries[i].id() != descriptor.node_id);
        }
    }
    assert forall|i: int| 0 <= i < after.len() implies (#[trigger] after[i]).registered_at.wf()
        && after[i].last_heartbeat.wf() by {
        if i < entries.len() {
            assert(entries[i].registered_at.wf());
        }
    }
}

/// An entry is found under the identifier of its node.
proof fn found_at(entries: Seq<NodeEntryView>, i: int)
    requires
        entry_ids_distinct(entries),
        0 <= i < entries.len(),
    ensures
        lookup(entries, entries[i].id()) == Some(entries[i]),
{
    only_position(entries, i);
}

proof fn lookup_in_filtered(
    entries: Seq<NodeEntryView>,
    keep: spec_fn(NodeEntryView) -> bool,
    id: Seq<char>,
)
    requires
        entry_ids_distinct(entries),
    ensures
        lookup(entries.filter(keep), id) == (match lookup(entries, id) {
            Some(e) => if keep(e) {
                Some(e)
            } else {
                None
            },
            None => None,
        }),
{
    filtered_entries(entries, keep);
    let kept = entries.filter(keep);
    if has_id(kept, id) {
        let p = position(kept, id);
        let k = choose|k: int| 0 <= k < entries.len() && entries[k] == kept[p];
        found_at(entries, k);
        assert(entries[k].id() == id);
    } else if has_id(entries, id) {
        let k = position(entries, id);
        if keep(entries[k]) {
            assert(kept.contains(entries[k]));
            let p = choose|p: int| 0 <= p < kept.len() && kept[p] == entries[k];
            assert(kept[p].id() == id);
        }
    }
}

/// A node that has just registered is found with its new descriptor and a fresh heartbeat. If it
/// was registered before, it keeps its time of registration and its metrics.
pub proof fn registered_node_is_found(
    entries: Seq<NodeEntryView>,
    descriptor: NodeDescriptorView,
    now: Elapsed,
)
    requires
        entry_ids_distinct(entries),
        clocks_valid(entries),
        now.wf(),
    ensures
        lookup(registered(entries, descriptor, now), descriptor.node_id) == Some(
            match lookup(entries, descriptor.node_id) {
                Some(e) => NodeEntryView { descriptor, last_heartbeat: now, ..e },
                None => NodeEntryView::fresh(descriptor, now, now),
            },
        ),
{
    let id = descriptor.node_id;
    let kept = without_address(entries, id, descriptor.address);
    let after = registered(entries, descriptor, now);
    lookup_in_filtered(
        entries,
        |e: NodeEntryView| e.id() == id || e.descriptor.address != descriptor.address,
        id,
    );
    registering_keeps_ids_distinct(entries, descriptor, now);
    if has_id(kept, id) {
        found_at(after, position(kept, id));
    } else {
        found_at(after, kept.len() as int);
    }
}

/// Registering a node touches no other node, except that a node at its address goes.
pub proof fn registering_touches_no_other_node(
    entries: Seq<NodeEntryView>,
    descriptor: NodeDescriptorView,
    now: Elapsed,
    id: Seq<char>,
)
    requires
        entry_ids_distinct(entries),
        clocks_valid(entries),
        now.wf(),
        id != descriptor.node_id,
    ensures
        lookup(registered(entries, descriptor, now), id) == (match lookup(entries, id) {
            Some(e) => if e.descriptor.address == descriptor.address {
                None
            } else {
                Some(e)
            },
            None => None,
        }),
{
    let kept = without_address(entries, descriptor.node_id, descriptor.address);
    let after = registered(entries, descriptor, now);
    lookup_in_filtered(
        entries,
        |e: NodeEntryView|
            e.id() == descriptor.node_id || e.descriptor.address != descriptor.address,
        id,
    );
    registering_keeps_ids_distinct(entries, descriptor, now);
    if has_id(kept, id) {
        let p = position(kept, id);
        assert(after[p] == kept[p]);
        found_at(after, p);
        found_at(kept, p);
    } else if has_id(after, id) {
        let p = position(after, id);
        if p < kept.len() {
            if has_id(kept, descriptor.node_id) && p == position(kept, descriptor.node_id) {
                assert(after[p].id() == descriptor.node_id);
            } else {
                assert(kept[p].id() == id);
            }
        }
    }
}

/// Registering keeps the addresses of the nodes distinct.
pub proof fn registering_keeps_addresses_distinct(
    entries: Seq<NodeEntryView>,
    descriptor: NodeDescriptorView,
    now: Elapsed,
)
    requires
        entry_ids_distinct(entries),
        addresses_distinct(entries),
    ensures
        addresses_distinct(registered(entries, descriptor, now)),
{
    let keep = |e: NodeEntryView|
        e.id() == descriptor.node_id || e.descriptor.address != descriptor.address;
    filtered_entries(entries, keep);
    let kept = without_address(entries, descriptor.node_id, descriptor.address);
    let after = registered(entries, descriptor, now);
    let p = if has_id(kept, descriptor.node_id) {
        position(kept, descriptor.node_id)
    } else {
        kept.len() as int
    };
    assert forall|i: int| 0 <= i < kept.len() && i != p implies (
    #[trigger] kept[i]).descriptor.address != descriptor.address by {
        assert(keep(kept[i]));
        if kept[i].id() == descriptor.node_id {
            assert(has_id(kept, descriptor.node_id));
            only_position(kept, i);
        }
    }
    assert forall|i: int, j: int| 0 <= i < j < after.len() implies #[trigger] after[i].descriptor.address
        != #[trigger] after[j].descriptor.address by {
        if i == p {
            assert(after[j] == kept[j]);
        } else if j == p {
            assert(after[i] == kept[i]);
        } else {
            assert(after[i] == kept[i] && after[j] == kept[j]);
            assert(kept[i].descriptor.address != kept[j].descriptor.address);
        }
    }
}

/// A heartbeat keeps the addresses of the nodes distinct, whether it comes with metrics or not.
pub proof fn heartbeats_keep_addresses_distinct(
    entries: Seq<NodeEntryView>,
    i: int,
    metrics: NodeMetricsView,
    now: Elapsed,
)
    requires
        addresses_distinct(entries),
        0 <= i < entries.len(),
    ensures
        addresses_distinct(entries.update(i, beaten(entries[i], now))),
        addresses_distinct(
            entries.update(
                i,
                NodeEntryView { metrics: Some(metrics), ..beaten(entries[i], now) },
            ),
        ),
{
    let bare = entries.update(i, beaten(entries[i], now));
    let full = entries.update(
        i,
        NodeEntryView { metrics: Some(metrics), ..beaten(entries[i], now) },
    );
    assert forall|a: int, b: int| 0 <= a < b < entries.len() implies #[trigger] bare[a].descriptor.address
        != #[trigger] bare[b].descriptor.address by {
        assert(entries[a].descriptor.address != entries[b].descriptor.address);
    }
    assert forall|a: int, b: int| 0 <= a < b < entries.len() implies #[trigger] full[a].descriptor.address
        != #[trigger] full[b].descriptor.address by {
        assert(entries[a].descriptor.address != entries[b].descriptor.address);
    }
}

/// A cleanup keeps the addresses of the nodes distinct.
pub proof fn cleanup_keeps_addresses_distinct(
    entries: Seq<NodeEntryView>,
    timeout: Elapsed,
    now: Elapsed,
)
    requires
        addresses_distinct(entries),
    ensures
        addresses_distinct(live(entries, timeout, now)),
{
    filtered_entries(entries, |e: NodeEntryView| !stale(e, timeout, now));
}

/// A registry that is filled from a list of nodes with distinct identifiers and addresses holds
/// these nodes, and their addresses are distinct. A list in which an address stands twice is
/// taken as it is.
pub proof fn loading_keeps_addresses_distinct(nodes: Seq<NodeDescriptorView>, now: Elapsed)
    requires
        ids_distinct(nodes),
        forall|i: int, j: int|
            0 <= i < j < nodes.len() ==> #[trigger] nodes[i].address != #[trigger] nodes[j].address,
    ensures
        loaded(Seq::empty(), nodes, now) == nodes.map_values(
            |n: NodeDescriptorView| NodeEntryView::fresh(n, now, now),
        ),
        entry_ids_distinct(loaded(Seq::empty(), nodes, now)),
        addresses_distinct(loaded(Seq::empty(), nodes, now)),
    decreases nodes.len(),
{
    let after = loaded(Seq::empty(), nodes, now);
    let fresh = nodes.map_values(|n: NodeDescriptorView| NodeEntryView::fresh(n, now, now));
    if nodes.len() > 0 {
        let rest = nodes.drop_last();
        assert forall|i: int, j: int| 0 <= i < j < rest.len() implies #[trigger] rest[i].node_id
            != #[trigger] rest[j].node_id && rest[i].address != rest[j].address by {
            assert(rest[i] == nodes[i] && rest[j] == nodes[j]);
            assert(nodes[i].node_id != nodes[j].node_id);
            assert(nodes[i].address != nodes[j].address);
        }
        loading_keeps_addresses_distinct(rest, now);
        let before = loaded(Seq::empty(), rest, now);
        assert forall|i: int| 0 <= i < before.len() implies (#[trigger] before[i]).id()
            != nodes.last().node_id by {
            assert(before[i].id() == nodes[i].node_id);
            assert(nodes[i].node_id != nodes[nodes.len() - 1].node_id);
        }
        assert(!has_id(before, nodes.last().node_id));
    }
    assert(after =~= fresh);
    assert forall|i: int, j: int| 0 <= i < j < after.len() implies #[trigger] after[i].id()
        != #[trigger] after[j].id() by {
        assert(nodes[i].node_id != nodes[j].node_id);
    }
    assert forall|i: int, j: int| 0 <= i < j < after.len() implies #[trigger] after[i].descriptor.address
        != #[trigger] after[j].descriptor.address by {
        assert(nodes[i].address != nodes[j].address);
    }
}

/// What can happen to a registry in use.
pub enum Change {
    Register { descriptor: NodeDescriptorView, now: Elapsed },
    Heartbeat { id: Seq<char>, now: Elapsed },
    Report { id: Seq<char>, metrics: NodeMetricsView, now: Elapsed },
    Remove { id: Seq<char> },
    Cleanup { timeout: Elapsed, now: Elapsed },
}

/// The entries after a change. A node that is not registered has no heartbeat and is not removed.
pub open spec fn changed(entries: Seq<NodeEntryView>, change: Change) -> Seq<NodeEntryView> {
    match change {
        Change::Register { descriptor, now } => registered(entries, descriptor, now),
        Change::Heartbeat { id, now } => if has_id(entries, id) {
            let i = position(entries, id);
            entries.update(i, beaten(entries[i], now))
        } else {
            entries
        },
        Change::Report { id, metrics, now } => if has_id(entries, id) {
            let i = position(entries, id);
            entries.update(i, NodeEntryView { metrics: Some(metrics), ..beaten(entries[i], now) })
        } else {
            entries
        },
        Change::Remove { id } => if has_id(entries, id) {
            entries.remove(position(entries, id))
        } else {
            entries
        },
        Change::Cleanup { timeout, now } => live(entries, timeout, now),
    }
}

/// The entries after several changes, one after the other.
pub open spec fn after_changes(entries: Seq<NodeEntryView>, changes: Seq<Change>) -> Seq<
    NodeEntryView,
>
    decreases changes.len(),
{
    if changes.len() == 0 {
        entries
    } else {
        changed(after_changes(entries, changes.drop_last()), changes.last())
    }
}

/// No two registered nodes ever share an identifier or an address, whatever has happened since the
/// registry was empty, or was filled from a list in which they are distinct.
pub proof fn addresses_are_always_distinct(entries: Seq<NodeEntryView>, changes: Seq<Change>)
    requires
        entry_ids_distinct(entries),
        addresses_distinct(entries),
    ensures
        entry_ids_distinct(after_changes(entries, changes)),
        addresses_distinct(after_changes(entries, changes)),
    decreases changes.len(),
{
    if changes.len() > 0 {
        addresses_are_always_distinct(entries, changes.drop_last());
        let before = after_changes(entries, changes.drop_last());
        let after = after_changes(entries, changes);
        match changes.last() {
            Change::Register { descriptor, now } => {
                registering_keeps_ids_distinct(before, descriptor, now);
                registering_keeps_addresses_distinct(before, descriptor, now);
            },
            Change::Heartbeat { id, now } => if has_id(before, id) {
                heartbeats_keep_addresses_distinct(
                    before,
                    position(before, id),
                    before[position(before, id)].metrics->0,
                    now,
                );
            },
            Change::Report { id, metrics, now } => if has_id(before, id) {
                heartbeats_keep_addresses_distinct(before, position(before, id), metrics, now);
            },
            Change::Remove { id } => if has_id(before, id) {
                let other = id.push('-');
                assert(other.len() != id.len());
                removed_node_is_gone(before, id, other);
            },
            Change::Cleanup { timeout, now } => {
                filtered_entries(before, |e: NodeEntryView| !stale(e, timeout, now));
            },
        }
        if changes.last() is Heartbeat || changes.last() is Report {
            assert forall|i: int, j: int| 0 <= i < j < after.len() implies #[trigger] after[i].id()
                != #[trigger] after[j].id() by {
                assert(before[i].id() != before[j].id());
            }
        }
    }
}

/// A removed node is gone, and every other node stays as it was.
pub proof fn removed_node_is_gone(entries: Seq<NodeEntryView>, id: Seq<char>, other: Seq<char>)
    requires
        entry_ids_distinct(entries),
        has_id(entries, id),
        other != id,
    ensures
        lookup(entries.remove(position(entries, id)), id) is None,
        lookup(entries.remove(position(entries, id)), other) == lookup(entries, other),
        entry_ids_distinct(entries.remove(position(entries, id))),
        addresses_distinct(entries) ==> addresses_distinct(entries.remove(position(entries, id))),
{
    let p = position(entries, id);
    let after = entries.remove(p);
    assert forall|i: int| 0 <= i < after.len() implies (#[trigger] after[i]).id() != id by {
        let k = if i < p { i } else { i + 1 };
        assert(after[i] == entries[k]);
        if k < p {
            assert(entries[k].id() != entries[p].id());
        } else {
            assert(entries[p].id() != entries[k].id());
        }
    }
    assert forall|i: int, j: int| 0 <= i < j < after.len() implies #[trigger] after[i].id()
        != #[trigger] after[j].id() by {
        let a = if i < p { i } else { i + 1 };
        let b = if j < p { j } else { j + 1 };
        assert(after[i] == entries[a] && after[j] == entries[b]);
        assert(entries[a].id() != entries[b].id());
    }
    if addresses_distinct(entries) {
        assert forall|i: int, j: int| 0 <= i < j < after.len() implies #[trigger] after[i].descriptor.address
            != #[trigger] after[j].descriptor.address by {
            let a = if i < p { i } else { i + 1 };
            let b = if j < p { j } else { j + 1 };
            assert(after[i] == entries[a] && after[j] == entries[b]);
            assert(entries[a].descriptor.address != entries[b].descriptor.address);
        }
    }
    if has_id(entries, other) {
        let k = position(entries, other);
        let i = if k < p { k } else { k - 1 };
        assert(after[i] == entries[k]);
        found_at(after, i);
        found_at(entries, k);
    } else if has_id(after, other) {
        let i = position(after, other);
        let k = if i < p { i } else { i + 1 };
        assert(after[i] == entries[k]);
    }
}

/// A node whose heartbeat has just been noted is not stale, whatever the timeout.
pub proof fn heartbeat_keeps_a_node_alive(entry: NodeEntryView, timeout: Elapsed, now: Elapsed)
    ensures
        !stale(beaten(entry, now), timeout, now),
{
}

/// A cleanup keeps the nodes that are not stale, as they were, and removes the others; a second
/// one at the same time removes nothing.
pub proof fn cleanup_keeps_live_nodes(
    entries: Seq<NodeEntryView>,
    timeout: Elapsed,
    now: Elapsed,
    id: Seq<char>,
)
    requires
        entry_ids_distinct(entries),
    ensures
        lookup(live(entries, timeout, now), id) == (match lookup(entries, id) {
            Some(e) => if stale(e, timeout, now) {
                None
            } else {
                Some(e)
            },
            None => None,
        }),
        live(live(entries, timeout, now), timeout, now) == live(entries, timeout, now),
{
    let keep = |e: NodeEntryView| !stale(e, timeout, now);
    lookup_in_filtered(entries, keep, id);
    filtered_entries(entries, keep);
    all_kept(live(entries, timeout, now), keep);
}

proof fn all_kept(entries: Seq<NodeEntryView>, keep: spec_fn(NodeEntryView) -> bool)
    requires
        forall|i: int| 0 <= i < entries.len() ==> keep(#[trigger] entries[i]),
    ensures
        entries.filter(keep) == entries,
    decreases entries.len(),
{
    reveal(Seq::filter);
    if entries.len() > 0 {
        let rest = entries.drop_last();
        assert forall|i: int| 0 <= i < rest.len() implies keep(#[trigger] rest[i]) by {
            assert(rest[i] == entries[i]);
        }
        all_kept(rest, keep);
        assert(rest.push(entries.last()) =~= entries);
    }
}

/// Each node is counted under one type.
pub proof fn type_counts_add_up(entries: Seq<NodeEntryView>)
    ensures
        nodes_of_type(entries, NodeType::Entry).len() + nodes_of_type(
            entries,
            NodeType::Middle,
        ).len() + nodes_of_type(entries, NodeType::Exit).len() == entries.len(),
    decreases entries.len(),
{
    if entries.len() > 0 {
        type_counts_add_up(entries.drop_last());
    }
}

/// The registry is ready exactly when it has the nodes for a path of three.
pub proof fn ready_means_three_hops(entries: Seq<NodeEntryView>)
    ensures
        (nodes_of_type(entries, NodeType::Entry).len() > 0 && nodes_of_type(
            entries,
            NodeType::Middle,
        ).len() > 0 && nodes_of_type(entries, NodeType::Exit).len() > 0) <==> shortage(
            nodes_of_type(entries, NodeType::Entry),
            nodes_of_type(entries, NodeType::Middle),
            nodes_of_type(entries, NodeType::Exit),
            3,
        ) is None,
{
}

/// A cleanup goes by the clock alone. When it shows `now`, an entry stays exactly if it was there
/// and no more than `timeout` has gone by since its last heartbeat, or that heartbeat is later
/// than `now`; of what type the node is makes no difference. The entries that stay keep their
/// order.
pub proof fn cleanup_goes_by_the_clock(
    entries: Seq<NodeEntryView>,
    timeout: Elapsed,
    now: Elapsed,
    entry: NodeEntryView,
)
    ensures
        live(entries, timeout, now).contains(entry) <==> entries.contains(entry) && (now.secs
            * 1_000_000_000 + now.nanos) - (entry.last_heartbeat.secs * 1_000_000_000
            + entry.last_heartbeat.nanos) <= timeout.secs * 1_000_000_000 + timeout.nanos,
        entry_ids_distinct(entries) ==> forall|i: int, j: int, a: int, b: int|
            0 <= i < entries.len() && 0 <= j < entries.len() && 0 <= a < b < live(
                entries,
                timeout,
                now,
            ).len() && #[trigger] entries[i] == #[trigger] live(entries, timeout, now)[a]
                && #[trigger] entries[j] == #[trigger] live(entries, timeout, now)[b] ==> i < j,
    decreases entries.len(),
{
    let keep = |e: NodeEntryView| !stale(e, timeout, now);
    filtered_entries(entries, keep);
    let after = live(entries, timeout, now);
    if after.contains(entry) {
        let k = choose|k: int| 0 <= k < after.len() && after[k] == entry;
        assert(keep(after[k]));
        assert(entries.contains(after[k]));
    }
    if entries.contains(entry) && keep(entry) {
        let k = choose|k: int| 0 <= k < entries.len() && entries[k] == entry;
        assert(after.contains(entries[k]));
    }
    if entries.len() > 0 && entry_ids_distinct(entries) {
        reveal(Seq::filter);
        let rest = entries.drop_last();
        cleanup_goes_by_the_clock(rest, timeout, now, entry);
        filtered_entries(rest, keep);
        let before = live(rest, timeout, now);
        let n = entries.len() - 1;
        assert forall|i: int, j: int, a: int, b: int|
            0 <= i < entries.len() && 0 <= j < entries.len() && 0 <= a < b < after.len()
                && #[trigger] entries[i] == #[trigger] after[a] && #[trigger] entries[j]
                == #[trigger] after[b] implies i < j by {
            assert(after[a] == before[a]);
            let p = choose|p: int| 0 <= p < rest.len() && rest[p] == before[a];
            assert(entries[p] == entries[i]);
            only_position(entries, p);
            only_position(entries, i);
            assert(i == p);
            if b < before.len() {
                assert(after[b] == before[b]);
                let q = choose|q: int| 0 <= q < rest.len() && rest[q] == before[b];
                only_position(entries, q);
                only_position(entries, j);
                assert(j == q);
                assert(rest[i] == before[a] && rest[j] == before[b]);
            } else {
                assert(after[b] == entries[n]);
                only_position(entries, n);
                only_position(entries, j);
            }
        }
    }
}

/// What a registration does, entry by entry. Afterwards the node has an entry with the new
/// descriptor and a heartbeat at `now`; it keeps the time of registration and the metrics of the
/// entry that it had, or has none of these from before. Of the other entries those at another
/// address stay as they were, and there are no others.
pub proof fn registering_changes_one_entry(
    entries: Seq<NodeEntryView>,
    descriptor: NodeDescriptorView,
    now: Elapsed,
    entry: NodeEntryView,
)
    requires
        entry_ids_distinct(entries),
        clocks_valid(entries),
        now.wf(),
    ensures
        entry.descriptor.node_id != descriptor.node_id ==> (registered(
            entries,
            descriptor,
            now,
        ).contains(entry) <==> entries.contains(entry) && entry.descriptor.address
            != descriptor.address),
        entry.descriptor.node_id == descriptor.node_id ==> (registered(
            entries,
            descriptor,
            now,
        ).contains(entry) <==> {
            &&& entry.descriptor == descriptor
            &&& entry.last_heartbeat == now
            &&& {
                ||| exists|k: int|
                    0 <= k < entries.len() && (#[trigger] entries[k]).descriptor.node_id
                        == descriptor.node_id && entry.registered_at == entries[k].registered_at
                        && entry.metrics == entries[k].metrics
                ||| (forall|k: int|
                    0 <= k < entries.len() ==> (#[trigger] entries[k]).descriptor.node_id
                        != descriptor.node_id) && entry.registered_at == now
                    && entry.metrics is None
            }
        }),
{
    let after = registered(entries, descriptor, now);
    let id = entry.descriptor.node_id;
    registering_keeps_ids_distinct(entries, descriptor, now);
    contained_is_looked_up(after, entry);
    contained_is_looked_up(entries, entry);
    if id == descriptor.node_id {
        registered_node_is_found(entries, descriptor, now);
        if has_id(entries, id) {
            let p = position(entries, id);
            assert(entries[p].id() == id);
            assert forall|k: int|
                0 <= k < entries.len() && (#[trigger] entries[k]).descriptor.node_id
                    == id implies k == p by {
                only_position(entries, k);
                assert(entries[k].id() == id);
            }
        } else {
            assert forall|k: int| 0 <= k < entries.len() implies (
            #[trigger] entries[k]).descriptor.node_id != id by {
                assert(entries[k].id() == entries[k].descriptor.node_id);
            }
        }
    } else {
        registering_touches_no_other_node(entries, descriptor, now, id);
    }
}

proof fn contained_is_looked_up(entries: Seq<NodeEntryView>, entry: NodeEntryView)
    requires
        entry_ids_distinct(entries),
    ensures
        entries.contains(entry) <==> lookup(entries, entry.descriptor.node_id) == Some(entry),
{
    if entries.contains(entry) {
        let k = choose|k: int| 0 <= k < entries.len() && entries[k] == entry;
        found_at(entries, k);
    }
    if lookup(entries, entry.descriptor.node_id) == Some(entry) {
        assert(entries[position(entries, entry.descriptor.node_id)] == entry);
    }
}

/// What a heartbeat does, entry by entry: the entry of the node, and no other, has its last
/// heartbeat at `now` afterwards, and nothing else in it has changed; a report also replaces the
/// metrics. A removal takes out the entry of the node and leaves the others.
pub proof fn heartbeats_and_removals_concern_one_entry(
    entries: Seq<NodeEntryView>,
    id: Seq<char>,
    metrics: NodeMetricsView,
    now: Elapsed,
    i: int,
)
    requires
        entry_ids_distinct(entries),
        0 <= i < entries.len(),
    ensures
        ({
            let beat = changed(entries, Change::Heartbeat { id, now });
            let report = changed(entries, Change::Report { id, metrics, now });
            let left = changed(entries, Change::Remove { id });
            &&& beat.len() == entries.len() && report.len() == entries.len()
            &&& entries[i].descriptor.node_id == id ==> {
                &&& beat[i] == NodeEntryView {
                    descriptor: entries[i].descriptor,
                    registered_at: entries[i].registered_at,
                    last_heartbeat: now,
                    metrics: entries[i].metrics,
                }
                &&& report[i] == NodeEntryView {
                    descriptor: entries[i].descriptor,
                    registered_at: entries[i].registered_at,
                    last_heartbeat: now,
                    metrics: Some(metrics),
                }
                &&& !left.contains(entries[i])
                &&& left.len() == entries.len() - 1
            }
            &&& entries[i].descriptor.node_id != id ==> beat[i] == entries[i] && report[i]
                == entries[i] && left.contains(entries[i])
        }),
{
    let left = changed(entries, Change::Remove { id });
    only_position(entries, i);
    if entries[i].descriptor.node_id == id {
        assert(entries[i].id() == id);
        let other = id.push('-');
        assert(other.len() != id.len());
        removed_node_is_gone(entries, id, other);
        contained_is_looked_up(left, entries[i]);
    } else if has_id(entries, id) {
        removed_node_is_gone(entries, id, entries[i].id());
        contained_is_looked_up(left, entries[i]);
        contained_is_looked_up(entries, entries[i]);
        assert(entries.contains(entries[i]));
    } else {
        assert(left.contains(entries[i]));
    }
}

/// The nodes of a type are the registered nodes whose descriptor names that type, all of them and
/// no others.
pub proof fn nodes_are_sorted_by_type(
    entries: Seq<NodeEntryView>,
    node_type: NodeType,
    node: NodeDescriptorView,
)
    ensures
        nodes_of_type(entries, node_type).contains(node) <==> node.node_type == node_type && exists|
            k: int,
        |
            0 <= k < entries.len() && (#[trigger] entries[k]).descriptor == node,
    decreases entries.len(),
{
    let after = nodes_of_type(entries, node_type);
    if entries.len() > 0 {
        let rest = entries.drop_last();
        let n = entries.len() - 1;
        nodes_are_sorted_by_type(rest, node_type, node);
        let before = nodes_of_type(rest, node_type);
        if after.contains(node) {
            let k = choose|k: int| 0 <= k < after.len() && after[k] == node;
            if k < before.len() {
                assert(before[k] == node);
                let m = choose|m: int|
                    0 <= m < rest.len() && (#[trigger] rest[m]).descriptor == node;
                assert(entries[m].descriptor == node);
            } else {
                assert(entries[n].descriptor == node);
            }
        }
        if node.node_type == node_type && exists|k: int|
            0 <= k < entries.len() && (#[trigger] entries[k]).descriptor == node {
            let k = choose|k: int|
                0 <= k < entries.len() && (#[trigger] entries[k]).descriptor == node;
            if k < n {
                assert(rest[k].descriptor == node);
                let m = choose|m: int| 0 <= m < before.len() && before[m] == node;
                assert(after[m] == node);
            } else {
                assert(after[after.len() - 1] == node);
            }
        }
    }
}

/// The registry is ready exactly when some registered node is an entry, some one a middle node and
/// some one an exit.
pub proof fn ready_means_a_node_of_each_type(entries: Seq<NodeEntryView>)
    ensures
        (nodes_of_type(entries, NodeType::Entry).len() > 0 && nodes_of_type(
            entries,
            NodeType::Middle,
        ).len() > 0 && nodes_of_type(entries, NodeType::Exit).len() > 0) <==> (exists|a: int|
            0 <= a < entries.len() && (#[trigger] entries[a]).descriptor.node_type
                == NodeType::Entry) && (exists|b: int|
            0 <= b < entries.len() && (#[trigger] entries[b]).descriptor.node_type
                == NodeType::Middle) && (exists|c: int|
            0 <= c < entries.len() && (#[trigger] entries[c]).descriptor.node_type
                == NodeType::Exit),
{
    some_node_of_type(entries, NodeType::Entry);
    some_node_of_type(entries, NodeType::Middle);
    some_node_of_type(entries, NodeType::Exit);
}

proof fn some_node_of_type(entries: Seq<NodeEntryView>, node_type: NodeType)
    ensures
        nodes_of_type(entries, node_type).len() > 0 <==> exists|k: int|
            0 <= k < entries.len() && (#[trigger] entries[k]).descriptor.node_type == node_type,
{
    let nodes = nodes_of_type(entries, node_type);
    if nodes.len() > 0 {
        nodes_are_sorted_by_type(entries, node_type, nodes[0]);
        assert(nodes.contains(nodes[0]));
    }
    if exists|k: int|
        0 <= k < entries.len() && (#[trigger] entries[k]).descriptor.node_type == node_type {
        let k = choose|k: int|
            0 <= k < entries.len() && (#[trigger] entries[k]).descriptor.node_type == node_type;
        nodes_are_sorted_by_type(entries, node_type, entries[k].descriptor);
        assert(nodes.contains(entries[k].descriptor));
    }
}

/// The oldest time of registration is that of some entry and no later than any other, the newest
/// one is that of some entry and no earlier than any other; and an age is the number of whole
/// seconds that have gone by, so that the oldest age is never less than the newest.
pub proof fn ages_span_the_registrations(entries: Seq<NodeEntryView>, now: Elapsed)
    requires
        entries.len() > 0,
    ensures
        exists|k: int|
            0 <= k < entries.len() && (#[trigger] entries[k]).registered_at == oldest(entries),
        exists|k: int|
            0 <= k < entries.len() && (#[trigger] entries[k]).registered_at == newest(entries),
        forall|i: int|
            0 <= i < entries.len() ==> {
                let at = (#[trigger] entries[i]).registered_at;
                let first = oldest(entries);
                let last = newest(entries);
                &&& first.secs * 1_000_000_000 + first.nanos <= at.secs * 1_000_000_000 + at.nanos
                &&& at.secs * 1_000_000_000 + at.nanos <= last.secs * 1_000_000_000 + last.nanos
                &&& age_secs(last, now) <= age_secs(at, now) <= age_secs(first, now)
                &&& 0 <= age_secs(at, now)
                &&& at.secs * 1_000_000_000 + at.nanos <= now.secs * 1_000_000_000 + now.nanos ==> (
                age_secs(at, now) * 1_000_000_000 <= (now.secs * 1_000_000_000 + now.nanos) - (
                at.secs * 1_000_000_000 + at.nanos) < (age_secs(at, now) + 1) * 1_000_000_000)
                &&& at.secs * 1_000_000_000 + at.nanos > now.secs * 1_000_000_000 + now.nanos
                    ==> age_secs(at, now) == 0
            },
    decreases entries.len(),
{
    if entries.len() > 1 {
        let rest = entries.drop_last();
        ages_span_the_registrations(rest, now);
        let n = entries.len() - 1;
        let a = choose|k: int| 0 <= k < rest.len() && (#[trigger] rest[k]).registered_at == oldest(
            rest,
        );
        let b = choose|k: int| 0 <= k < rest.len() && (#[trigger] rest[k]).registered_at == newest(
            rest,
        );
        assert(entries[a].registered_at == oldest(rest));
        assert(entries[b].registered_at == newest(rest));
        assert(entries[n] == entries.last());
        assert forall|i: int| 0 <= i < entries.len() implies {
            let at = (#[trigger] entries[i]).registered_at;
            &&& oldest(entries).total() <= at.total() <= newest(entries).total()
        } by {
            if i < n {
                assert(rest[i] == entries[i]);
            }
        }
    } else {
        assert(entries[0].registered_at == oldest(entries));
    }
}

/// A path over the registered nodes starts at an entry node and ends at an exit node, with middle
/// nodes in between, and all of them are registered.
pub proof fn paths_run_over_registered_nodes(
    entries: Seq<NodeEntryView>,
    allow_same_ip: bool,
    count: nat,
    path: Seq<NodeDescriptorView>,
    i: int,
)
    requires
        sound_path(
            nodes_of_type(entries, NodeType::Entry),
            nodes_of_type(entries, NodeType::Middle),
            nodes_of_type(entries, NodeType::Exit),
            allow_same_ip,
            count,
            path,
        ),
        0 <= i < count,
    ensures
        path.len() == count,
        exists|k: int| 0 <= k < entries.len() && (#[trigger] entries[k]).descriptor == path[i],
        path[i].node_type == (if i == 0 {
            NodeType::Entry
        } else if i == count - 1 {
            NodeType::Exit
        } else {
            NodeType::Middle
        }),
{
    nodes_are_sorted_by_type(entries, NodeType::Entry, path[i]);
    nodes_are_sorted_by_type(entries, NodeType::Middle, path[i]);
    nodes_are_sorted_by_type(entries, NodeType::Exit, path[i]);
}

/// A saved node that is put in is there afterwards as if it had just registered, in place of an
/// entry with its identifier, and no other entry changes.
pub proof fn loaded_nodes_are_fresh(
    entries: Seq<NodeEntryView>,
    descriptor: NodeDescriptorView,
    now: Elapsed,
    i: int,
)
    requires
        entry_ids_distinct(entries),
        0 <= i < entries.len(),
    ensures
        ({
            let after = inserted(entries, descriptor, now);
            let fresh = NodeEntryView {
                descriptor,
                registered_at: now,
                last_heartbeat: now,
                metrics: None,
            };
            &&& after.contains(fresh)
            &&& entries[i].descriptor.node_id != descriptor.node_id ==> after[i] == entries[i]
            &&& entries[i].descriptor.node_id == descriptor.node_id ==> after[i] == fresh
                && after.len() == entries.len()
            &&& has_id(entries, descriptor.node_id) ==> after.len() == entries.len()
            &&& !has_id(entries, descriptor.node_id) ==> after.len() == entries.len() + 1
        }),
{
    let after = inserted(entries, descriptor, now);
    let fresh = NodeEntryView::fresh(descriptor, now, now);
    only_position(entries, i);
    if has_id(entries, descriptor.node_id) {
        let p = position(entries, descriptor.node_id);
        assert(entries[p].id() == descriptor.node_id);
        assert(after[p] == fresh);
    } else {
        assert(after[entries.len() as int] == fresh);
        if entries[i].descriptor.node_id == descriptor.node_id {
            assert(entries[i].id() == descriptor.node_id);
        }
    }
}

/// A saved list is put in from its start to its end: the last node with an identifier counts.
pub proof fn lists_are_loaded_in_order(
    entries: Seq<NodeEntryView>,
    front: Seq<NodeDescriptorView>,
    last: NodeDescriptorView,
    now: Elapsed,
)
    ensures
        loaded(entries, Seq::empty(), now) == entries,
        loaded(entries, front.push(last), now) == inserted(loaded(entries, front, now), last, now),
{
    assert(front.push(last).drop_last() =~= front);
}

/// As many nodes count under a type as there are entries whose descriptor names that type.
pub proof fn types_count_their_nodes(entries: Seq<NodeEntryView>, node_type: NodeType)
    ensures
        nodes_of_type(entries, node_type).len() == entries.filter(
            |e: NodeEntryView| e.descriptor.node_type == node_type,
        ).len(),
    decreases entries.len(),
{
    reveal(Seq::filter);
    if entries.len() > 0 {
        types_count_their_nodes(entries.drop_last(), node_type);
    }
}

}
