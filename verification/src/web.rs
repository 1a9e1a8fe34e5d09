//! The dashboard in the browser.

use crate::discovery::view::EventEntry;
use crate::metrics::clock_text;
use crate::metrics::format_bytes;
use crate::metrics::push_clock;
use crate::metrics::push_scaled;
use crate::metrics::scaled_text;
use crate::metrics::Elapsed;
use crate::order::stable_sort;
use crate::order::stably_sorted;
use crate::order::text_before;
use crate::order::text_first;
use crate::order::text_order_is_total;
use crate::order::text_order_is_transitive;
use crate::order::Order;
use crate::text::chars_from;
use crate::text::chars_of;
use crate::text::dec;
use crate::text::dec2_text;
use crate::text::dec_text;
use crate::text::parsed_number;
use crate::text::push_dec2;
use crate::text::push_repeated;
use crate::text::repeated;
use crate::text::same;
use crate::text::texts;
use crate::types::NodeMetrics;
use crate::types::NodeMetricsView;
use vstd::prelude::*;
use vstd::string::*;

verus! {

/// How many events the activity log shows.
pub const LOG_LENGTH: usize = 20;

/// How many events of a relay its panel shows.
pub const RELAY_LOG_LENGTH: usize = 200;

/// How wide the bars are.
pub const BAR_WIDTH: usize = 10;

/// A node on the dashboard.
#[derive(Debug)]
pub struct NodeInfo {
    pub node_id: String,
    pub node_type: String,
    pub address: String,
    pub bandwidth: u64,
    pub metrics: Option<NodeMetrics>,
}

/// A node on the dashboard.
#[verifier::ext_equal]
pub struct NodeInfoView {
    pub node_id: Seq<char>,
    pub node_type: Seq<char>,
    pub address: Seq<char>,
    pub bandwidth: u64,
    pub metrics: Option<NodeMetricsView>,
}

impl View for NodeInfo {
    type V = NodeInfoView;

    open spec fn view(&self) -> NodeInfoView {
        NodeInfoView {
            node_id: self.node_id@,
            node_type: self.node_type@,
            address: self.address@,
            bandwidth: self.bandwidth,
            metrics: match self.metrics {
                Some(m) => Some(m@),
                None => None,
            },
        }
    }
}

/// The views of some nodes.
pub open spec fn infos(nodes: Seq<NodeInfo>) -> Seq<NodeInfoView> {
    Seq::new(nodes.len(), |i: int| nodes[i]@)
}

impl Clone for NodeInfo {
    fn clone(&self) -> (r: Self)
        ensures
            r@ == self@,
    {
        Self {
            node_id: self.node_id.clone(),
            node_type: self.node_type.clone(),
            address: self.address.clone(),
            bandwidth: self.bandwidth,
            metrics: match &self.metrics {
                Some(m) => Some(m.clone()),
                None => None,
            },
        }
    }
}

/// Which nodes the table shows.
#[derive(Debug, Clone, Copy, PartialEq, Eq, Structural)]
pub enum TabKind {
    All,
    Entry,
    Middle,
    Exit,
}

/// The column that the table is sorted by.
#[derive(Debug, Clone, Copy, PartialEq, Eq, Structural)]
pub enum SortCol {
    Id,
    Type,
    Addr,
    Bw,
}

/// A bandwidth for display, such as `1.5 KB/s`.
pub fn format_bandwidth(bps: u64) -> (s: String)
    ensures
        s@ == scaled_text(bps, "/s"@),
{
    let mut s = String::new();
    push_scaled(&mut s, bps, "/s");
    proof {
        assert(s@ =~= scaled_text(bps, "/s"@));
    }
    s
}

/// A time of running, as hours, minutes and seconds of two digits each.
pub open spec fn uptime_text(secs: u64) -> Seq<char> {
    dec2_text((secs / 3600) as nat) + ":"@ + dec2_text((secs % 3600 / 60) as nat) + ":"@
        + dec2_text((secs % 60) as nat)
}

/// A time of running, as hours, minutes and seconds of two digits each.
pub fn format_uptime(secs: u64) -> (s: String)
    ensures
        s@ == uptime_text(secs),
{
    let mut s = String::new();
    push_dec2(&mut s, secs / 3600);
    s.append(":");
    push_dec2(&mut s, secs % 3600 / 60);
    s.append(":");
    push_dec2(&mut s, secs % 60);
    proof {
        assert(s@ =~= uptime_text(secs));
    }
    s
}

/// The time of an event.
pub fn format_elapsed(elapsed: Elapsed) -> (s: String)
    ensures
        s@ == "+"@ + clock_text(elapsed.secs),
{
    let mut s = "+".to_owned();
    push_clock(&mut s, elapsed.secs);
    s
}

/// A bar of which `filled` parts are full. More than the whole bar makes it longer.
pub open spec fn bar_text(filled: nat) -> Seq<char> {
    repeated('\u{2588}', filled) + repeated(
        '\u{2591}',
        if filled < BAR_WIDTH {
            (BAR_WIDTH - filled) as nat
        } else {
            0
        },
    )
}

/// A bar of which `filled` parts are full.
pub fn bar(filled: usize) -> (s: String)
    ensures
        s@ == bar_text(filled as nat),
{
    let mut s = String::new();
    push_repeated(&mut s, '\u{2588}', filled);
    if filled < BAR_WIDTH {
        push_repeated(&mut s, '\u{2591}', BAR_WIDTH - filled);
    }
    proof {
        assert(s@ =~= bar_text(filled as nat));
    }
    s
}

/// Whether a tab shows a node of this type.
pub open spec fn shows(tab: TabKind, node_type: Seq<char>) -> bool {
    match tab {
        TabKind::All => true,
        TabKind::Entry => node_type == "Entry"@,
        TabKind::Middle => node_type == "Middle"@,
        TabKind::Exit => node_type == "Exit"@,
    }
}

/// The nodes that a tab shows, in the order in which they came.
pub fn filter_nodes(nodes: &Vec<NodeInfo>, tab: TabKind) -> (r: Vec<NodeInfo>)
    ensures
        infos(r@) == infos(nodes@).filter(|n: NodeInfoView| shows(tab, n.node_type)),
{
    let ghost all = infos(nodes@);
    let ghost wanted = |n: NodeInfoView| shows(tab, n.node_type);
    let mut r: Vec<NodeInfo> = Vec::new();
    let mut i: usize = 0;
    proof {
        reveal(Seq::filter);
        assert(infos(r@) =~= all.take(0).filter(wanted));
    }
    while i < nodes.len()
        invariant
            all == infos(nodes@),
            wanted == (|n: NodeInfoView| shows(tab, n.node_type)),
            i <= nodes@.len(),
            infos(r@) == all.take(i as int).filter(wanted),
        decreases nodes@.len() - i,
    {
        let node = &nodes[i];
        let show = match tab {
            TabKind::All => true,
            TabKind::Entry => same(node.node_type.as_str(), "Entry"),
            TabKind::Middle => same(node.node_type.as_str(), "Middle"),
            TabKind::Exit => same(node.node_type.as_str(), "Exit"),
        };
        let ghost before = r@;
        proof {
            reveal(Seq::filter);
            assert(all.take(i as int + 1).drop_last() =~= all.take(i as int));
            assert(all.take(i as int + 1).last() == node@);
        }
        if show {
            r.push(node.clone());
            proof {
                assert(infos(r@) =~= infos(before).push(node@));
            }
        }
        i += 1;
    }
    proof {
        assert(all.take(all.len() as int) =~= all);
    }
    r
}

/// The order of the table: by a column, upwards or downwards.
#[derive(Debug, Clone, Copy)]
pub struct ByColumn {
    pub col: SortCol,
    pub asc: bool,
}

/// Whether `a` is less than `b` in a column.
pub open spec fn less(col: SortCol, a: NodeInfoView, b: NodeInfoView) -> bool {
    match col {
        SortCol::Id => text_before(a.node_id, b.node_id),
        SortCol::Type => text_before(a.node_type, b.node_type),
        SortCol::Addr => text_before(a.address, b.address),
        SortCol::Bw => a.bandwidth < b.bandwidth,
    }
}

fn is_less(col: SortCol, a: &NodeInfo, b: &NodeInfo) -> (r: bool)
    ensures
        r == less(col, a@, b@),
{
    match col {
        SortCol::Id => text_first(a.node_id.as_str(), b.node_id.as_str()),
        SortCol::Type => text_first(a.node_type.as_str(), b.node_type.as_str()),
        SortCol::Addr => text_first(a.address.as_str(), b.address.as_str()),
        SortCol::Bw => a.bandwidth < b.bandwidth,
    }
}

proof fn less_is_transitive(col: SortCol, a: NodeInfoView, b: NodeInfoView, c: NodeInfoView)
    requires
        !less(col, b, a),
        !less(col, c, b),
    ensures
        !less(col, c, a),
{
    match col {
        SortCol::Id => text_order_is_transitive(a.node_id, b.node_id, c.node_id),
        SortCol::Type => text_order_is_transitive(a.node_type, b.node_type, c.node_type),
        SortCol::Addr => text_order_is_transitive(a.address, b.address, c.address),
        SortCol::Bw => {},
    }
}

proof fn less_is_asymmetric(col: SortCol, a: NodeInfoView, b: NodeInfoView)
    requires
        less(col, a, b),
    ensures
        !less(col, b, a),
{
    match col {
        SortCol::Id => text_order_is_total(a.node_id, b.node_id),
        SortCol::Type => text_order_is_total(a.node_type, b.node_type),
        SortCol::Addr => text_order_is_total(a.address, b.address),
        SortCol::Bw => {},
    }
}

impl Order<NodeInfo> for ByColumn {
    open spec fn before(self, a: NodeInfo, b: NodeInfo) -> bool {
        if self.asc {
            less(self.col, a@, b@)
        } else {
            less(self.col, b@, a@)
        }
    }

    fn comes_first(&self, a: &NodeInfo, b: &NodeInfo) -> (r: bool) {
        if self.asc {
            is_less(self.col, a, b)
        } else {
            is_less(self.col, b, a)
        }
    }

    proof fn asymmetric(self, a: NodeInfo, b: NodeInfo) {
        if self.asc {
            less_is_asymmetric(self.col, a@, b@);
        } else {
            less_is_asymmetric(self.col, b@, a@);
        }
    }

    proof fn transitive(self, a: NodeInfo, b: NodeInfo, c: NodeInfo) {
        if self.asc {
            less_is_transitive(self.col, a@, b@, c@);
        } else {
            less_is_transitive(self.col, c@, b@, a@);
        }
    }
}

/// Sorts the nodes by a column. Nodes on a level stay as they stood.
pub fn sort_nodes(nodes: Vec<NodeInfo>, col: SortCol, asc: bool) -> (r: Vec<NodeInfo>)
    ensures
        exists|places: Seq<int>| stably_sorted((ByColumn { col, asc }), nodes@, r@, places),
{
    let order = ByColumn { col, asc };
    stable_sort(&order, nodes)
}

/// The largest bandwidth, or one where there is no node.
pub fn max_bandwidth(nodes: &Vec<NodeInfo>) -> (r: u64)
    ensures
        nodes@.len() == 0 ==> r == 1,
        forall|i: int| 0 <= i < nodes@.len() ==> (#[trigger] nodes@[i]).bandwidth <= r,
        nodes@.len() > 0 ==> exists|i: int|
            0 <= i < nodes@.len() && (#[trigger] nodes@[i]).bandwidth == r,
{
    if nodes.len() == 0 {
        return 1;
    }
    let mut r: u64 = nodes[0].bandwidth;
    let ghost mut at: int = 0;
    let mut i: usize = 1;
    while i < nodes.len()
        invariant
            1 <= i <= nodes@.len(),
            forall|j: int| 0 <= j < i ==> (#[trigger] nodes@[j]).bandwidth <= r,
            0 <= at < nodes@.len(),
            nodes@[at].bandwidth == r,
        decreases nodes@.len() - i,
    {
        if nodes[i].bandwidth > r {
            r = nodes[i].bandwidth;
            proof {
                at = i as int;
            }
        }
        i += 1;
    }
    r
}

/// The sort after a click on a column's head.
pub open spec fn clicked_sort(col: SortCol, asc: bool, clicked: SortCol) -> (SortCol, bool) {
    if clicked == col {
        (col, !asc)
    } else {
        (clicked, true)
    }
}

/// The sort after a click on a column's head: a second click turns the direction.
pub fn toggle_sort(col: SortCol, asc: bool, clicked: SortCol) -> (r: (SortCol, bool))
    ensures
        r == (clicked, clicked == col ==> !asc),
        r == clicked_sort(col, asc, clicked),
{
    if clicked == col {
        (col, !asc)
    } else {
        (clicked, true)
    }
}

/// The mark behind a column's head.
pub fn sort_mark(col: SortCol, asc: bool, head: SortCol) -> (r: &'static str)
    ensures
        r@ == (if head != col {
            ""@
        } else if asc {
            " \u{25b2}"@
        } else {
            " \u{25bc}"@
        }),
{
    if head != col {
        ""
    } else if asc {
        " \u{25b2}"
    } else {
        " \u{25bc}"
    }
}

/// The selected node after a click on a row: a second click takes the selection back.
pub fn toggle_selection(selected: &Option<String>, clicked: String) -> (r: Option<String>)
    ensures
        match r {
            Some(id) => id@ == clicked@ && !(selected is Some && selected->0@ == clicked@),
            None => selected is Some && selected->0@ == clicked@,
        },
{
    if let Some(id) = selected {
        if same(id.as_str(), clicked.as_str()) {
            return None;
        }
    }
    Some(clicked)
}

/// The first of some nodes that has this identifier.
pub open spec fn node_with_id(nodes: Seq<NodeInfoView>, id: Seq<char>) -> Option<NodeInfoView>
    decreases nodes.len(),
{
    if nodes.len() == 0 {
        None
    } else if nodes[0].node_id == id {
        Some(nodes[0])
    } else {
        node_with_id(nodes.skip(1), id)
    }
}

/// Finds the node with this identifier.
pub fn find_node(nodes: &Vec<NodeInfo>, id: &str) -> (r: Option<NodeInfo>)
    ensures
        match r {
            Some(n) => node_with_id(infos(nodes@), id@) == Some(n@),
            None => node_with_id(infos(nodes@), id@) is None,
        },
{
    let ghost all = infos(nodes@);
    let mut i: usize = 0;
    proof {
        assert(all.skip(0) =~= all);
    }
    while i < nodes.len()
        invariant
            all == infos(nodes@),
            i <= nodes@.len(),
            node_with_id(all, id@) == node_with_id(all.skip(i as int), id@),
        decreases nodes@.len() - i,
    {
        if same(nodes[i].node_id.as_str(), id) {
            return Some(nodes[i].clone());
        }
        proof {
            assert(all.skip(i as int).skip(1) =~= all.skip(i as int + 1));
        }
        i += 1;
    }
    None
}

/// What the panel of the selected node shows.
#[derive(Debug)]
pub struct NodeDetails {
    pub bandwidth: String,
    pub uptime: String,
    pub connections: String,
    pub streams: String,
    pub created: String,
    pub destroyed: String,
    pub forwarded: String,
    pub received: String,
    pub events: Vec<String>,
}

/// What the panel of the selected node shows.
#[verifier::ext_equal]
pub struct NodeDetailsView {
    pub bandwidth: Seq<char>,
    pub uptime: Seq<char>,
    pub connections: Seq<char>,
    pub streams: Seq<char>,
    pub created: Seq<char>,
    pub destroyed: Seq<char>,
    pub forwarded: Seq<char>,
    pub received: Seq<char>,
    pub events: Seq<Seq<char>>,
}

impl View for NodeDetails {
    type V = NodeDetailsView;

    open spec fn view(&self) -> NodeDetailsView {
        NodeDetailsView {
            bandwidth: self.bandwidth@,
            uptime: self.uptime@,
            connections: self.connections@,
            streams: self.streams@,
            created: self.created@,
            destroyed: self.destroyed@,
            forwarded: self.forwarded@,
            received: self.received@,
            events: texts(self.events@),
        }
    }
}

/// What the panel shows of a node. The figures of a node that has reported none are left empty.
pub open spec fn details_of(node: NodeInfoView) -> NodeDetailsView {
    let bandwidth = scaled_text(node.bandwidth, "/s"@);
    match node.metrics {
        None => NodeDetailsView {
            bandwidth,
            uptime: Seq::empty(),
            connections: Seq::empty(),
            streams: Seq::empty(),
            created: Seq::empty(),
            destroyed: Seq::empty(),
            forwarded: Seq::empty(),
            received: Seq::empty(),
            events: Seq::empty(),
        },
        Some(m) => NodeDetailsView {
            bandwidth,
            uptime: uptime_text(m.uptime_secs),
            connections: dec_text(m.connections_accepted as nat),
            streams: dec_text(m.streams_opened as nat),
            created: dec_text(m.circuits_created as nat),
            destroyed: dec_text(m.circuits_destroyed as nat),
            forwarded: scaled_text(m.bytes_forwarded, Seq::empty()),
            received: scaled_text(m.bytes_received, Seq::empty()),
            events: latest_first(m.event_snapshot),
        },
    }
}

/// The last events of a node, the last one first.
pub open spec fn latest_first(events: Seq<Seq<char>>) -> Seq<Seq<char>> {
    Seq::new(
        if events.len() < RELAY_LOG_LENGTH {
            events.len()
        } else {
            RELAY_LOG_LENGTH as nat
        },
        |i: int| events[events.len() - 1 - i],
    )
}

/// The last events of a node, the last one first.
fn turn_events(events: &Vec<String>) -> (r: Vec<String>)
    ensures
        texts(r@) == latest_first(texts(events@)),
{
    let n = if events.len() < RELAY_LOG_LENGTH {
        events.len()
    } else {
        RELAY_LOG_LENGTH
    };
    let mut r: Vec<String> = Vec::new();
    while r.len() < n
        invariant
            n <= events@.len(),
            r@.len() <= n,
            forall|i: int|
                0 <= i < r@.len() ==> (#[trigger] r@[i])@ == events@[events@.len() - 1 - i]@,
        decreases n - r@.len(),
    {
        let event = events[events.len() - 1 - r.len()].clone();
        r.push(event);
    }
    proof {
        assert(texts(r@) =~= latest_first(texts(events@)));
    }
    r
}

/// What the panel shows of a node.
pub fn node_details(node: &NodeInfo) -> (r: NodeDetails)
    ensures
        r@ == details_of(node@),
{
    let bandwidth = format_bandwidth(node.bandwidth);
    let r = match &node.metrics {
        None => NodeDetails {
            bandwidth,
            uptime: String::new(),
            connections: String::new(),
            streams: String::new(),
            created: String::new(),
            destroyed: String::new(),
            forwarded: String::new(),
            received: String::new(),
            events: Vec::new(),
        },
        Some(m) => NodeDetails {
            bandwidth,
            uptime: format_uptime(m.uptime_secs),
            connections: dec(m.connections_accepted),
            streams: dec(m.streams_opened),
            created: dec(m.circuits_created),
            destroyed: dec(m.circuits_destroyed),
            forwarded: format_bytes(m.bytes_forwarded),
            received: format_bytes(m.bytes_received),
            events: turn_events(&m.event_snapshot),
        },
    };
    proof {
        assert(r@ =~= details_of(node@));
    }
    r
}

/// The start of an identifier.
pub open spec fn short_text(id: Seq<char>) -> Seq<char> {
    if id.len() <= 12 {
        id
    } else {
        id.take(12)
    }
}

/// The start of an identifier.
pub fn short_id(id: &str) -> (s: String)
    ensures
        s@ == short_text(id@),
{
    let chars = chars_of(id);
    if chars.len() <= 12 {
        id.to_owned()
    } else {
        let s = chars_from(&chars, 0, 12);
        proof {
            assert(s@ =~= id@.take(12));
        }
        s
    }
}

/// The style of a node type.
pub fn type_class(node_type: &str) -> (r: &'static str)
    ensures
        r@ == (if node_type@ == "Entry"@ {
            "type-badge type-entry"@
        } else if node_type@ == "Middle"@ {
            "type-badge type-middle"@
        } else if node_type@ == "Exit"@ {
            "type-badge type-exit"@
        } else {
            "type-badge type-"@
        }),
{
    if same(node_type, "Entry") {
        "type-badge type-entry"
    } else if same(node_type, "Middle") {
        "type-badge type-middle"
    } else if same(node_type, "Exit") {
        "type-badge type-exit"
    } else {
        "type-badge type-"
    }
}

/// The style of an event's label.
pub fn label_class(event_type: &str) -> (s: String)
    ensures
        s@ == "log-label ev-"@ + event_type@,
{
    let mut s = "log-label ev-".to_owned();
    s.append(event_type);
    s
}

/// Where `pattern` first stands in `s`.
pub open spec fn position_of(s: Seq<char>, pattern: Seq<char>) -> Option<nat>
    decreases s.len(),
{
    if pattern.is_prefix_of(s) {
        Some(0)
    } else if s.len() == 0 {
        None
    } else {
        match position_of(s.skip(1), pattern) {
            Some(n) => Some(n + 1),
            None => None,
        }
    }
}

/// Whether `pattern` stands in `s` at this place.
fn stands_at(s: &Vec<char>, pattern: &Vec<char>, at: usize) -> (r: bool)
    requires
        at <= s@.len(),
    ensures
        r == pattern@.is_prefix_of(s@.skip(at as int)),
{
    if pattern.len() > s.len() - at {
        return false;
    }
    let mut i: usize = 0;
    while i < pattern.len()
        invariant
            at <= s@.len(),
            pattern.len() <= s.len() - at,
            i <= pattern@.len(),
            forall|j: int| 0 <= j < i ==> s@[at + j] == pattern@[j],
        decreases pattern@.len() - i,
    {
        if s[at + i] != pattern[i] {
            proof {
                assert(s@.skip(at as int)[i as int] != pattern@[i as int]);
            }
            return false;
        }
        i += 1;
    }
    proof {
        assert(s@.skip(at as int).subrange(0, pattern@.len() as int) =~= pattern@);
    }
    true
}

/// Where `pattern` first stands in `s`.
fn find(s: &Vec<char>, pattern: &str) -> (r: Option<usize>)
    ensures
        match r {
            Some(n) => position_of(s@, pattern@) == Some(n as nat),
            None => position_of(s@, pattern@) is None,
        },
{
    let p = chars_of(pattern);
    let mut i: usize = 0;
    proof {
        assert(s@.skip(0) =~= s@);
    }
    while !stands_at(s, &p, i)
        invariant
            p@ == pattern@,
            i <= s@.len(),
            position_of(s@, pattern@) == (match position_of(s@.skip(i as int), pattern@) {
                Some(n) => Some((n + i) as nat),
                None => None,
            }),
        decreases s@.len() - i,
    {
        if i == s.len() {
            return None;
        }
        proof {
            assert(s@.skip(i as int).skip(1) =~= s@.skip(i as int + 1));
        }
        i += 1;
    }
    Some(i)
}

/// The style of a relay's event, by the first of these labels that stands in it.
pub open spec fn event_style(event: Seq<char>) -> Seq<char> {
    if position_of(event, "\u{2190} ACCEPT"@) is Some {
        "rel-accept"@
    } else if position_of(event, "\u{2699} CREATE"@) is Some {
        "rel-create"@
    } else if position_of(event, "\u{2192} EXTEND"@) is Some {
        "rel-extend"@
    } else if position_of(event, "\u{2717} DESTROY"@) is Some {
        "rel-destroy"@
    } else if position_of(event, "\u{2717} ERROR"@) is Some {
        "rel-error"@
    } else if position_of(event, "\u{2192} STREAM"@) is Some {
        "rel-stream"@
    } else if position_of(event, "\u{2014} END"@) is Some {
        "rel-end"@
    } else if position_of(event, "\u{2014} CLOSED"@) is Some {
        "rel-end"@
    } else if position_of(event, "\u{2194} DATA"@) is Some {
        "rel-data"@
    } else if position_of(event, "\u{2192} RELAY\u{2192}"@) is Some {
        "rel-fwd"@
    } else if position_of(event, "\u{2190} RELAY\u{2190}"@) is Some {
        "rel-bwd"@
    } else {
        "rel-default"@
    }
}

/// The style of a relay's event.
pub fn relay_event_color(ev: &str) -> (r: &'static str)
    ensures
        r@ == event_style(ev@),
{
    let event = chars_of(ev);
    if find(&event, "\u{2190} ACCEPT").is_some() {
        "rel-accept"
    } else if find(&event, "\u{2699} CREATE").is_some() {
        "rel-create"
    } else if find(&event, "\u{2192} EXTEND").is_some() {
        "rel-extend"
    } else if find(&event, "\u{2717} DESTROY").is_some() {
        "rel-destroy"
    } else if find(&event, "\u{2717} ERROR").is_some() {
        "rel-error"
    } else if find(&event, "\u{2192} STREAM").is_some() {
        "rel-stream"
    } else if find(&event, "\u{2014} END").is_some() {
        "rel-end"
    } else if find(&event, "\u{2014} CLOSED").is_some() {
        "rel-end"
    } else if find(&event, "\u{2194} DATA").is_some() {
        "rel-data"
    } else if find(&event, "\u{2192} RELAY\u{2192}").is_some() {
        "rel-fwd"
    } else if find(&event, "\u{2190} RELAY\u{2190}").is_some() {
        "rel-bwd"
    } else {
        "rel-default"
    }
}

/// Whether a character is white space.
pub open spec fn is_blank(c: char) -> bool {
    let n = c as u32;
    ||| 9 <= n <= 13
    ||| n == 32
    ||| n == 0x85
    ||| n == 0xa0
    ||| n == 0x1680
    ||| 0x2000 <= n <= 0x200a
    ||| n == 0x2028
    ||| n == 0x2029
    ||| n == 0x202f
    ||| n == 0x205f
    ||| n == 0x3000
}

fn check_blank(c: char) -> (r: bool)
    ensures
        r == is_blank(c),
{
    let n: u32 = c as u32;
    (9 <= n && n <= 13) || n == 32 || n == 0x85 || n == 0xa0 || n == 0x1680 || (0x2000 <= n && n
        <= 0x200a) || n == 0x2028 || n == 0x2029 || n == 0x202f || n == 0x205f || n == 0x3000
}

/// `s` without the white space at its start.
pub open spec fn without_blanks(s: Seq<char>) -> Seq<char>
    decreases s.len(),
{
    if s.len() > 0 && is_blank(s[0]) {
        without_blanks(s.skip(1))
    } else {
        s
    }
}

/// The characters of `v` from `start` on, without the white space at their start.
fn trim_from(v: &Vec<char>, start: usize) -> (r: Vec<char>)
    requires
        start <= v@.len(),
    ensures
        r@ == without_blanks(v@.skip(start as int)),
{
    let mut i: usize = start;
    while i < v.len() && check_blank(v[i])
        invariant
            start <= i <= v@.len(),
            without_blanks(v@.skip(i as int)) == without_blanks(v@.skip(start as int)),
        decreases v@.len() - i,
    {
        proof {
            assert(v@.skip(i as int).skip(1) =~= v@.skip(i as int + 1));
        }
        i += 1;
    }
    let r = chars_of(chars_from(v, i, v.len()).as_str());
    proof {
        assert(r@ =~= v@.skip(i as int));
    }
    r
}

/// The time, the label and the details of a relay's event such as
/// `[+0:00:05] \u{2699} CREATE    circuit 1`. Without a time all of it is the label, and without a
/// gap behind the label there are no details.
pub open spec fn event_parts(event: Seq<char>) -> (Seq<char>, Seq<char>, Seq<char>) {
    match position_of(event, "] "@) {
        None => (Seq::empty(), event, Seq::empty()),
        Some(n) => {
            let rest = without_blanks(event.skip(n as int + 2));
            match position_of(rest, "    "@) {
                None => (event.take(n as int + 1), rest, Seq::empty()),
                Some(m) => (
                    event.take(n as int + 1),
                    rest.take(m as int),
                    without_blanks(rest.skip(m as int)),
                ),
            }
        },
    }
}

/// A pattern stands within the text.
proof fn position_fits(s: Seq<char>, pattern: Seq<char>)
    ensures
        position_of(s, pattern) matches Some(n) ==> {
            &&& n + pattern.len() <= s.len()
            &&& s.subrange(n as int, n as int + pattern.len()) == pattern
        },
    decreases s.len(),
{
    if pattern.is_prefix_of(s) {
    } else if s.len() > 0 {
        position_fits(s.skip(1), pattern);
        if let Some(n) = position_of(s.skip(1), pattern) {
            let at = n as int;
            assert(s.subrange(at + 1, at + 1 + pattern.len()) =~= s.skip(1).subrange(
                at,
                at + pattern.len(),
            ));
        }
    }
}

/// The time, the label and the details of a relay's event.
pub fn split_relay_event(ev: &str) -> (r: (String, String, String))
    ensures
        (r.0@, r.1@, r.2@) == event_parts(ev@),
{
    let event = chars_of(ev);
    proof {
        reveal_strlit("] ");
        position_fits(event@, "] "@);
    }
    match find(&event, "] ") {
        None => (String::new(), ev.to_owned(), String::new()),
        Some(n) => {
            proof {
                assert(n + 2 <= event.len());
            }
            let time = chars_from(&event, 0, n + 1);
            let rest = trim_from(&event, n + 2);
            proof {
                assert(time@ =~= event@.take(n as int + 1));
                position_fits(rest@, "    "@);
            }
            match find(&rest, "    ") {
                None => {
                    let label = chars_from(&rest, 0, rest.len());
                    proof {
                        assert(label@ =~= rest@);
                    }
                    (time, label, String::new())
                },
                Some(m) => {
                    let label = chars_from(&rest, 0, m);
                    let detail = trim_from(&rest, m);
                    let text = chars_from(&detail, 0, detail.len());
                    proof {
                        assert(label@ =~= rest@.take(m as int));
                        assert(text@ =~= detail@);
                    }
                    (time, label, text)
                },
            }
        },
    }
}

/// The order of events: the earlier one first.
#[derive(Debug, Clone, Copy)]
pub struct ByTime {}

impl Order<EventEntry> for ByTime {
    open spec fn before(self, a: EventEntry, b: EventEntry) -> bool {
        a.elapsed.secs < b.elapsed.secs || (a.elapsed.secs == b.elapsed.secs && a.elapsed.nanos
            < b.elapsed.nanos)
    }

    fn comes_first(&self, a: &EventEntry, b: &EventEntry) -> (r: bool) {
        a.elapsed.secs < b.elapsed.secs || (a.elapsed.secs == b.elapsed.secs && a.elapsed.nanos
            < b.elapsed.nanos)
    }

    proof fn asymmetric(self, a: EventEntry, b: EventEntry) {
    }

    proof fn transitive(self, a: EventEntry, b: EventEntry, c: EventEntry) {
    }
}

/// The events after `latest`, as they stand.
pub open spec fn fresh_events(incoming: Seq<EventEntry>, latest: Elapsed) -> Seq<EventEntry> {
    incoming.filter(|e: EventEntry| later(e.elapsed, latest))
}

/// Whether the time `a` is after the time `b`.
pub open spec fn later(a: Elapsed, b: Elapsed) -> bool {
    a.secs > b.secs || (a.secs == b.secs && a.nanos > b.nanos)
}

/// The log and the time of its latest event after more events: of those that are new, the
/// earliest come first, and of the whole log as many as it shows are kept, from the start.
pub open spec fn merged(
    log: Seq<EventEntry>,
    latest: Elapsed,
    fresh: Seq<EventEntry>,
) -> (Seq<EventEntry>, Elapsed) {
    let all = log + fresh;
    (
        if all.len() <= LOG_LENGTH {
            all
        } else {
            all.take(LOG_LENGTH as int)
        },
        if fresh.len() > 0 {
            fresh.last().elapsed
        } else {
            latest
        },
    )
}

/// Takes the events that are new into the log.
pub fn merge_events(log: Vec<EventEntry>, latest: Elapsed, incoming: Vec<EventEntry>) -> (r: (
    Vec<EventEntry>,
    Elapsed,
))
    ensures
        exists|fresh: Seq<EventEntry>, places: Seq<int>|
            {
                &&& #[trigger] stably_sorted(
                    ByTime {  },
                    fresh_events(incoming@, latest),
                    fresh,
                    places,
                )
                &&& (r.0@, r.1) == merged(log@, latest, fresh)
            },
{
    let ghost all = incoming@;
    let ghost wanted = |e: EventEntry| later(e.elapsed, latest);
    let mut rest = incoming;
    let mut found: Vec<EventEntry> = Vec::new();
    let ghost mut n: int = 0;
    proof {
        reveal(Seq::filter);
        assert(all.skip(0) =~= all);
        assert(found@ =~= all.take(0).filter(wanted));
    }
    while rest.len() > 0
        invariant
            wanted == (|e: EventEntry| later(e.elapsed, latest)),
            0 <= n <= all.len(),
            rest@ == all.skip(n),
            found@ == all.take(n).filter(wanted),
        decreases rest@.len(),
    {
        let e = rest.remove(0);
        proof {
            reveal(Seq::filter);
            assert(e == all[n]);
            assert(all.take(n + 1).drop_last() =~= all.take(n));
            assert(rest@ =~= all.skip(n + 1));
            n = n + 1;
        }
        if e.elapsed.secs > latest.secs || (e.elapsed.secs == latest.secs && e.elapsed.nanos
            > latest.nanos) {
            found.push(e);
        }
    }
    proof {
        assert(all.take(n) =~= all);
    }
    let order = ByTime {  };
    let mut fresh = stable_sort(&order, found);
    let ghost sorted = fresh@;
    let newest = if fresh.len() > 0 {
        fresh[fresh.len() - 1].elapsed
    } else {
        latest
    };
    let mut shown = log;
    shown.append(&mut fresh);
    shown.truncate(LOG_LENGTH);
    proof {
        let places = choose|places: Seq<int>|
            stably_sorted(order, fresh_events(all, latest), sorted, places);
        assert(stably_sorted(ByTime {  }, fresh_events(all, latest), sorted, places));
        assert(shown@ =~= merged(log@, latest, sorted).0);
    }
    (shown, newest)
}

/// Splitting a relay's event loses nothing but white space: the parts stand in it one after the
/// other, and the time ends where the rest begins.
pub proof fn splitting_loses_only_blanks(event: Seq<char>)
    ensures
        exists|gap: Seq<char>, other: Seq<char>|
            all_blank(gap) && all_blank(other) && #[trigger] put_together(event, gap, other)
                == event,
{
    reveal_strlit("] ");
    let none = Seq::<char>::empty();
    match position_of(event, "] "@) {
        None => {
            assert(put_together(event, none, none) =~= event);
            assert(all_blank(none));
        },
        Some(n) => {
            let at = n as int;
            position_fits(event, "] "@);
            assert(event.subrange(at, at + 2)[1] == ' ');
            blanks_come_first(event.skip(at + 1));
            let tail = event.skip(at + 1);
            assert(tail.skip(1) =~= event.skip(at + 2));
            let rest = without_blanks(tail);
            let gap = tail.take(tail.len() - rest.len());
            assert(tail[0] == ' ');
            assert(rest == without_blanks(event.skip(at + 2)));
            assert(event =~= event.take(at + 1) + tail);
            assert(event =~= event.take(at + 1) + (gap + rest));
            match position_of(rest, "    "@) {
                None => {
                    assert(put_together(event, gap, none) =~= event);
                    assert(all_blank(none));
                },
                Some(m) => {
                    position_fits(rest, "    "@);
                    let end = rest.skip(m as int);
                    blanks_come_first(end);
                    let detail = without_blanks(end);
                    let other = end.take(end.len() - detail.len());
                    assert(rest =~= rest.take(m as int) + (other + detail));
                    assert(put_together(event, gap, other) =~= event);
                },
            }
        },
    }
}

/// The parts of an event with these gaps between them.
pub open spec fn put_together(event: Seq<char>, gap: Seq<char>, other: Seq<char>) -> Seq<char> {
    event_parts(event).0 + gap + event_parts(event).1 + other + event_parts(event).2
}

/// Whether all characters are white space.
pub open spec fn all_blank(s: Seq<char>) -> bool {
    forall|i: int| 0 <= i < s.len() ==> is_blank(#[trigger] s[i])
}

proof fn blanks_come_first(s: Seq<char>)
    ensures
        without_blanks(s).len() <= s.len(),
        all_blank(s.take(s.len() - without_blanks(s).len())),
        s == s.take(s.len() - without_blanks(s).len()) + without_blanks(s),
    decreases s.len(),
{
    if s.len() > 0 && is_blank(s[0]) {
        blanks_come_first(s.skip(1));
        let t = s.skip(1);
        let k = t.len() - without_blanks(t).len();
        assert(s.take(k + 1) =~= seq![s[0]] + t.take(k));
        assert(s =~= seq![s[0]] + t);
        assert(s =~= seq![s[0]] + (t.take(k) + without_blanks(t)));
        assert(s =~= s.take(k + 1) + without_blanks(t));
    } else {
        assert(s.take(0) + s =~= s);
    }
}

/// A sorted table is the same table: a node stands in it as often as before.
pub proof fn sorting_keeps_the_nodes(
    order: ByColumn,
    before: Seq<NodeInfo>,
    after: Seq<NodeInfo>,
    places: Seq<int>,
)
    requires
        stably_sorted(order, before, after, places),
    ensures
        after.to_multiset() == before.to_multiset(),
{
    crate::order::sorting_keeps_the_values(order, before, after, places);
}

/// A tab shows the nodes of its type, all of them and no others; the first tab shows every node.
pub proof fn tabs_show_their_nodes(nodes: Seq<NodeInfoView>, tab: TabKind, node: NodeInfoView)
    ensures
        nodes.filter(|n: NodeInfoView| shows(tab, n.node_type)).contains(node) <==> nodes.contains(
            node,
        ) && match tab {
            TabKind::All => true,
            TabKind::Entry => node.node_type == "Entry"@,
            TabKind::Middle => node.node_type == "Middle"@,
            TabKind::Exit => node.node_type == "Exit"@,
        },
    decreases nodes.len(),
{
    reveal(Seq::filter);
    let wanted = |n: NodeInfoView| shows(tab, n.node_type);
    let kept = nodes.filter(wanted);
    if nodes.len() > 0 {
        let front = nodes.drop_last();
        let last = nodes.last();
        tabs_show_their_nodes(front, tab, node);
        let before = front.filter(wanted);
        assert(nodes.contains(node) <==> front.contains(node) || node == last) by {
            if nodes.contains(node) {
                let i = choose|i: int| 0 <= i < nodes.len() && nodes[i] == node;
                if i < front.len() {
                    assert(front[i] == node);
                }
            }
            if front.contains(node) {
                let i = choose|i: int| 0 <= i < front.len() && front[i] == node;
                assert(nodes[i] == node);
            }
            assert(nodes[nodes.len() - 1] == last);
        }
        if wanted(last) {
            assert(kept == before.push(last));
            if kept.contains(node) {
                let i = choose|i: int| 0 <= i < kept.len() && kept[i] == node;
                if i < before.len() {
                    assert(before[i] == node);
                }
            }
            if before.contains(node) {
                let i = choose|i: int| 0 <= i < before.len() && before[i] == node;
                assert(kept[i] == node);
            }
            assert(kept[kept.len() - 1] == last);
        } else {
            assert(kept == before);
        }
    }
}

/// A table that is sorted by a column stands in the order of that column, upwards or downwards as
/// asked, and nodes on a level stand as they stood.
pub proof fn sorted_tables_go_by_their_column(
    col: SortCol,
    asc: bool,
    before: Seq<NodeInfo>,
    after: Seq<NodeInfo>,
    places: Seq<int>,
    i: int,
    j: int,
)
    requires
        stably_sorted((ByColumn { col, asc }), before, after, places),
        0 <= i < j < after.len(),
    ensures
        ({
            let (low, high) = if asc {
                (after[i], after[j])
            } else {
                (after[j], after[i])
            };
            &&& col == SortCol::Bw ==> low.bandwidth <= high.bandwidth
            &&& col == SortCol::Id ==> low.node_id@ == high.node_id@ || text_before(
                low.node_id@,
                high.node_id@,
            )
            &&& col == SortCol::Type ==> low.node_type@ == high.node_type@ || text_before(
                low.node_type@,
                high.node_type@,
            )
            &&& col == SortCol::Addr ==> low.address@ == high.address@ || text_before(
                low.address@,
                high.address@,
            )
            &&& col == SortCol::Bw && low.bandwidth == high.bandwidth ==> places[i] < places[j]
            &&& col == SortCol::Id && low.node_id@ == high.node_id@ ==> places[i] < places[j]
            &&& before[places[i]] == after[i]
            &&& before[places[j]] == after[j]
        }),
{
    crate::order::sorted_values_stand_in_order(
        ByColumn { col, asc },
        before,
        after,
        places,
        i,
        j,
    );
    let a = after[i];
    let b = after[j];
    text_order_is_total(a.node_id@, b.node_id@);
    text_order_is_total(b.node_id@, a.node_id@);
    text_order_is_total(a.node_type@, b.node_type@);
    text_order_is_total(a.address@, b.address@);
}

/// The node that is found under an identifier has that identifier and is one of the nodes, and none
/// is found only where no node has it.
pub proof fn nodes_are_found_by_their_identifier(nodes: Seq<NodeInfoView>, id: Seq<char>)
    ensures
        node_with_id(nodes, id) matches Some(n) ==> n.node_id == id && nodes.contains(n),
        node_with_id(nodes, id) is None <==> forall|i: int|
            0 <= i < nodes.len() ==> (#[trigger] nodes[i]).node_id != id,
    decreases nodes.len(),
{
    if nodes.len() > 0 && nodes[0].node_id != id {
        let rest = nodes.skip(1);
        nodes_are_found_by_their_identifier(rest, id);
        if let Some(n) = node_with_id(nodes, id) {
            let k = choose|k: int| 0 <= k < rest.len() && rest[k] == n;
            assert(nodes[k + 1] == n);
        } else {
            assert forall|i: int| 0 <= i < nodes.len() implies (#[trigger] nodes[i]).node_id
                != id by {
                if i > 0 {
                    assert(rest[i - 1] == nodes[i]);
                }
            }
        }
        if forall|i: int| 0 <= i < nodes.len() ==> (#[trigger] nodes[i]).node_id != id {
            assert forall|i: int| 0 <= i < rest.len() implies (#[trigger] rest[i]).node_id
                != id by {
                assert(rest[i] == nodes[i + 1]);
            }
        }
    } else if nodes.len() > 0 {
        assert(nodes.contains(nodes[0]));
    }
}

/// The log grows at its end: what it showed it still shows, where it stood, up to twenty events. The
/// events that are taken in are exactly those after the latest one, and the time of the latest event
/// never goes back.
pub proof fn logs_grow_at_their_end(
    log: Seq<EventEntry>,
    latest: Elapsed,
    incoming: Seq<EventEntry>,
    fresh: Seq<EventEntry>,
    places: Seq<int>,
)
    requires
        stably_sorted(ByTime {  }, fresh_events(incoming, latest), fresh, places),
        log.len() <= 20,
    ensures
        ({
            let (shown, time) = merged(log, latest, fresh);
            &&& shown.len() <= 20
            &&& log.len() <= shown.len()
            &&& forall|i: int| 0 <= i < log.len() ==> #[trigger] shown[i] == log[i]
            &&& log.len() + fresh.len() <= 20 ==> shown.len() == log.len() + fresh.len()
            &&& forall|i: int|
                log.len() <= i < shown.len() ==> (#[trigger] shown[i]) == fresh[i - log.len()]
            &&& forall|i: int|
                0 <= i < fresh.len() ==> (#[trigger] fresh[i]).elapsed.secs > latest.secs || (
                fresh[i].elapsed.secs == latest.secs && fresh[i].elapsed.nanos > latest.nanos)
            &&& fresh.len() > 0 ==> time.secs > latest.secs || (time.secs == latest.secs
                && time.nanos > latest.nanos)
            &&& fresh.len() == 0 ==> time == latest
        }),
{
    let wanted = |e: EventEntry| later(e.elapsed, latest);
    assert forall|i: int| 0 <= i < fresh.len() implies later(
        (#[trigger] fresh[i]).elapsed,
        latest,
    ) by {
        let p = places[i];
        assert(fresh[i] == fresh_events(incoming, latest)[p]);
        events_that_pass(incoming, wanted, p);
    }
    if fresh.len() > 0 {
        assert(later(fresh[fresh.len() - 1].elapsed, latest));
    }
}

proof fn events_that_pass(events: Seq<EventEntry>, wanted: spec_fn(EventEntry) -> bool, i: int)
    requires
        0 <= i < events.filter(wanted).len(),
    ensures
        wanted(events.filter(wanted)[i]),
    decreases events.len(),
{
    reveal(Seq::filter);
    if events.len() > 0 {
        let front = events.drop_last();
        if i < front.filter(wanted).len() {
            events_that_pass(front, wanted, i);
        }
    }
}

/// The panel of a node shows its events from the last one back, up to two hundred of them.
pub proof fn panels_show_the_last_events_first(events: Seq<Seq<char>>, i: int)
    requires
        0 <= i < latest_first(events).len(),
    ensures
        latest_first(events)[i] == events[events.len() - 1 - i],
        events.len() <= 200 ==> latest_first(events).len() == events.len(),
        events.len() > 200 ==> latest_first(events).len() == 200,
{
}

/// A click sorts by the column that was clicked. The first click on a column sorts upwards, and each
/// further click on it turns the direction.
pub proof fn clicks_turn_the_direction(col: SortCol, asc: bool, clicked: SortCol)
    ensures
        clicked_sort(col, asc, clicked).0 == clicked,
        clicked != col ==> clicked_sort(col, asc, clicked).1,
        clicked == col ==> clicked_sort(col, asc, clicked).1 != asc,
        ({
            let (c, a) = clicked_sort(col, asc, clicked);
            clicked_sort(c, a, clicked) == (clicked, !a)
        }),
{
}

/// A time of running shows the hours, the minutes and the seconds that make it up, each with at least
/// two digits.
pub proof fn uptimes_show_the_time(hours: u64, minutes: u64, seconds: u64)
    requires
        minutes < 60,
        seconds < 60,
        hours * 3600 + minutes * 60 + seconds <= u64::MAX,
    ensures
        uptime_text((hours * 3600 + minutes * 60 + seconds) as u64) == dec2_text(hours as nat)
            + ":"@ + dec2_text(minutes as nat) + ":"@ + dec2_text(seconds as nat),
{
    crate::metrics::parts_of_the_time(hours, minutes, seconds);
}

/// A bar has ten parts, of which the first ones are full, as many as are asked for.
pub proof fn bars_have_ten_parts(filled: nat, i: int)
    requires
        filled <= 10,
        0 <= i < 10,
    ensures
        bar_text(filled).len() == 10,
        bar_text(filled)[i] == (if i < filled {
            '\u{2588}'
        } else {
            '\u{2591}'
        }),
{
}

/// A short identifier is the start of the identifier, and all of it up to twelve characters.
pub proof fn short_identifiers_start_alike(id: Seq<char>)
    ensures
        id.len() <= 12 ==> short_text(id) == id,
        id.len() > 12 ==> short_text(id).len() == 12 && short_text(id) == id.take(12),
{
}

/// The label of a panel's event is found wherever it stands in the text, at its first place.
pub proof fn labels_are_found_where_they_stand(s: Seq<char>, pattern: Seq<char>, at: int)
    requires
        0 <= at,
        at + pattern.len() <= s.len(),
        s.subrange(at, at + pattern.len()) == pattern,
    ensures
        position_of(s, pattern) is Some,
        position_of(s, pattern)->0 <= at,
        position_of(s, pattern)->0 + pattern.len() <= s.len(),
        s.subrange(
            position_of(s, pattern)->0 as int,
            (position_of(s, pattern)->0 + pattern.len()) as int,
        ) == pattern,
    decreases s.len(),
{
    position_fits(s, pattern);
    if at == 0 {
        assert(s.subrange(0, pattern.len() as int) == pattern);
        assert(pattern.is_prefix_of(s));
    } else if !pattern.is_prefix_of(s) {
        assert(s.skip(1).subrange(at - 1, at - 1 + pattern.len()) =~= s.subrange(
            at,
            at + pattern.len(),
        ));
        labels_are_found_where_they_stand(s.skip(1), pattern, at - 1);
    }
}

/// The panel of a node shows the figures that it reported, each in its place, and none for a node that
/// has reported none.
pub proof fn panels_show_the_figures(node: NodeInfoView)
    ensures
        ({
            let d = details_of(node);
            &&& d.bandwidth == scaled_text(node.bandwidth, "/s"@)
            &&& node.metrics matches Some(m) ==> {
                &&& parsed_number(d.connections, u64::MAX as nat) == Some(
                    m.connections_accepted as nat,
                )
                &&& parsed_number(d.streams, u64::MAX as nat) == Some(m.streams_opened as nat)
                &&& parsed_number(d.created, u64::MAX as nat) == Some(m.circuits_created as nat)
                &&& parsed_number(d.destroyed, u64::MAX as nat) == Some(
                    m.circuits_destroyed as nat,
                )
                &&& d.forwarded == scaled_text(m.bytes_forwarded, Seq::empty())
                &&& d.received == scaled_text(m.bytes_received, Seq::empty())
                &&& d.uptime == uptime_text(m.uptime_secs)
            }
            &&& node.metrics is None ==> d.events.len() == 0 && d.connections.len() == 0
                && d.streams.len() == 0 && d.created.len() == 0 && d.destroyed.len() == 0
        }),
{
    if let Some(m) = node.metrics {
        crate::text::numerals_read_back(m.connections_accepted as nat, u64::MAX as nat);
        crate::text::numerals_read_back(m.streams_opened as nat, u64::MAX as nat);
        crate::text::numerals_read_back(m.circuits_created as nat, u64::MAX as nat);
        crate::text::numerals_read_back(m.circuits_destroyed as nat, u64::MAX as nat);
    }
}

/// Of the events that come in, exactly those after the latest one are new.
pub proof fn new_events_are_the_later_ones(
    incoming: Seq<EventEntry>,
    latest: Elapsed,
    event: EventEntry,
)
    ensures
        fresh_events(incoming, latest).contains(event) <==> incoming.contains(event) && (
        event.elapsed.secs > latest.secs || (event.elapsed.secs == latest.secs
            && event.elapsed.nanos > latest.nanos)),
    decreases incoming.len(),
{
    reveal(Seq::filter);
    let wanted = |e: EventEntry| later(e.elapsed, latest);
    let kept = incoming.filter(wanted);
    if incoming.len() > 0 {
        let front = incoming.drop_last();
        let last = incoming.last();
        new_events_are_the_later_ones(front, latest, event);
        let before = front.filter(wanted);
        assert(incoming.contains(event) <==> front.contains(event) || event == last) by {
            if incoming.contains(event) {
                let i = choose|i: int| 0 <= i < incoming.len() && incoming[i] == event;
                if i < front.len() {
                    assert(front[i] == event);
                }
            }
            if front.contains(event) {
                let i = choose|i: int| 0 <= i < front.len() && front[i] == event;
                assert(incoming[i] == event);
            }
            assert(incoming[incoming.len() - 1] == last);
        }
        if wanted(last) {
            assert(kept == before.push(last));
            if kept.contains(event) {
                let i = choose|i: int| 0 <= i < kept.len() && kept[i] == event;
                if i < before.len() {
                    assert(before[i] == event);
                }
            }
            if before.contains(event) {
                let i = choose|i: int| 0 <= i < before.len() && before[i] == event;
                assert(kept[i] == event);
            }
            assert(kept[kept.len() - 1] == last);
        } else {
            assert(kept == before);
        }
    }
}

/// The parts of a relay's event stand where they belong: the time is everything up to the first
/// closing bracket that a blank follows, the label starts with no blank and holds no gap of four
/// blanks, and the details start with no blank.
pub proof fn parts_of_events_stand_where_they_belong(event: Seq<char>)
    ensures
        ({
            let (time, label, detail) = event_parts(event);
            &&& position_of(event, "] "@) matches Some(n) ==> {
                &&& time == event.take(n as int + 1)
                &&& label.len() > 0 && position_of(label, "    "@) is None ==> !is_blank(label[0])
                &&& detail.len() > 0 ==> !is_blank(detail[0])
                &&& position_of(without_blanks(event.skip(n as int + 2)), "    "@) is None
                    ==> detail.len() == 0 && label == without_blanks(event.skip(n as int + 2))
                &&& position_of(without_blanks(event.skip(n as int + 2)), "    "@) matches Some(m)
                    ==> label.len() == m && label == without_blanks(event.skip(n as int + 2)).take(
                    m as int,
                )
            }
            &&& position_of(event, "] "@) is None ==> time.len() == 0 && label == event
                && detail.len() == 0
        }),
{
    if let Some(n) = position_of(event, "] "@) {
        let tail = event.skip(n as int + 2);
        starts_without_blank(tail);
        let rest = without_blanks(tail);
        if let Some(m) = position_of(rest, "    "@) {
            position_fits(rest, "    "@);
            starts_without_blank(rest.skip(m as int));
        }
    }
}

proof fn starts_without_blank(s: Seq<char>)
    ensures
        without_blanks(s).len() > 0 ==> !is_blank(without_blanks(s)[0]),
    decreases s.len(),
{
    if s.len() > 0 && is_blank(s[0]) {
        starts_without_blank(s.skip(1));
    }
}

}
