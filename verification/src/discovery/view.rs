//! The dashboards of the directory service, in the terminal and on the web.

use crate::discovery::metrics::DiscoveryMetrics;
use crate::discovery::metrics::EventContent;
use crate::discovery::metrics::EventKind;
use crate::discovery::registry::age_secs;
use crate::discovery::registry::entry_views;
use crate::discovery::registry::newest;
use crate::discovery::registry::nodes_of_type;
use crate::discovery::registry::oldest;
use crate::discovery::registry::opt_metrics;
use crate::discovery::registry::NodeEntryView;
use crate::discovery::registry::RegistryStats;
use crate::discovery::service::AppState;
use crate::display::show_time;
use crate::display::time_span;
use crate::display::EventLine;
use crate::display::EventLineView;
use crate::display::Span;
use crate::display::SpanView;
use crate::display::Tint;
use crate::metrics::newest_first;
use crate::metrics::duration_text;
use crate::metrics::format_bytes;
use crate::metrics::format_duration;
use crate::metrics::scaled_text;
use crate::metrics::Elapsed;
use crate::metrics::TuiEvent;
use crate::relay::view::lines_of;
use crate::text::after_last;
use crate::text::after_last_char;
use crate::text::counted;
use crate::text::dec_text;
use crate::text::push_dec;
use crate::text::same;
use crate::text::trim_start_char;
use crate::text::without_start;
use crate::types::NodeDescriptor;
use crate::types::NodeDescriptorView;
use crate::types::NodeMetrics;
use crate::types::NodeMetricsView;
use crate::types::NodeType;
use vstd::prelude::*;
use vstd::string::*;
use vstd::utf8::encode_utf8;
use vstd::utf8::is_char_boundary;

verus! {

/// How many events the web dashboard shows.
pub const WEB_EVENTS: usize = 50;

/// The counters for the web dashboard.
#[derive(Debug, Clone, Copy, PartialEq, Eq, Structural)]
pub struct MetricsSummary {
    pub registrations: u64,
    pub removals: u64,
    pub heartbeats: u64,
    pub path_requests: u64,
    pub stale_cleaned: u64,
    pub uptime_secs: u64,
}

/// An entry of the web dashboard's activity log.
#[derive(Debug)]
pub struct EventEntry {
    /// When the event happened, counted from the start of the service.
    pub elapsed: Elapsed,
    pub event_type: String,
    pub label: String,
    pub detail: String,
}

/// An entry of the web dashboard's activity log.
#[verifier::ext_equal]
pub struct EventEntryView {
    pub elapsed: Elapsed,
    pub event_type: Seq<char>,
    pub label: Seq<char>,
    pub detail: Seq<char>,
}

impl View for EventEntry {
    type V = EventEntryView;

    open spec fn view(&self) -> EventEntryView {
        EventEntryView {
            elapsed: self.elapsed,
            event_type: self.event_type@,
            label: self.label@,
            detail: self.detail@,
        }
    }
}

impl EventContent {
    /// The kind of the event for the web dashboard.
    pub open spec fn web_type(self) -> Seq<char> {
        match self {
            EventContent::NodeRegistered { .. } => "register"@,
            EventContent::NodeRemoved { .. } => "remove"@,
            EventContent::Heartbeat { .. } => "heartbeat"@,
            EventContent::PathRequested => "path"@,
            EventContent::StaleCleanup { .. } => "cleanup"@,
            EventContent::StatsQueried => "stats"@,
            EventContent::HealthCheck { .. } => "health"@,
            EventContent::Error { .. } => "error"@,
        }
    }

    /// The label of the event on the web dashboard.
    pub open spec fn web_label(self) -> Seq<char> {
        match self {
            EventContent::NodeRegistered { .. } => "+ REGISTER"@,
            EventContent::NodeRemoved { .. } => "- REMOVE"@,
            EventContent::Heartbeat { .. } => "\u{2665} HEARTBEAT"@,
            EventContent::PathRequested => "\u{2192} PATH"@,
            EventContent::StaleCleanup { .. } => "\u{2717} CLEANUP"@,
            EventContent::StatsQueried => "\u{2139} STATS"@,
            EventContent::HealthCheck { .. } => "\u{2139} HEALTH"@,
            EventContent::Error { .. } => "\u{2717} ERROR"@,
        }
    }

    /// The details of the event.
    pub open spec fn detail(self) -> Seq<char> {
        match self {
            EventContent::NodeRegistered { node_id, node_type, address } => {
                node_type + " "@ + node_id + " @ "@ + address
            },
            EventContent::NodeRemoved { node_id } => node_id,
            EventContent::Heartbeat { node_id } => node_id,
            EventContent::PathRequested => "random 3-hop path requested"@,
            EventContent::StaleCleanup { removed } => {
                dec_text(removed as nat) + " stale node(s) removed"@
            },
            EventContent::StatsQueried => "stats queried"@,
            EventContent::HealthCheck { ready } => if ready {
                "check: ready"@
            } else {
                "check: NOT ready"@
            },
            EventContent::Error { message } => message,
        }
    }

    /// The label of the event in the terminal.
    pub open spec fn label(self) -> SpanView {
        match self {
            EventContent::NodeRegistered { .. } => SpanView::strong("+ REGISTER "@, Tint::Green),
            EventContent::NodeRemoved { .. } => SpanView::strong("- REMOVE   "@, Tint::Red),
            EventContent::Heartbeat { .. } => {
                SpanView::tinted("\u{2665} HEARTBEAT "@, Tint::Cyan)
            },
            EventContent::PathRequested => {
                SpanView::strong("\u{2192} PATH      "@, Tint::Yellow)
            },
            EventContent::StaleCleanup { .. } => {
                SpanView::tinted("\u{2717} CLEANUP   "@, Tint::DarkGray)
            },
            EventContent::StatsQueried => SpanView::tinted("\u{2139} STATS     "@, Tint::Blue),
            EventContent::HealthCheck { .. } => {
                SpanView::tinted("\u{2139} HEALTH    "@, Tint::Blue)
            },
            EventContent::Error { .. } => SpanView::strong("\u{2717} ERROR     "@, Tint::Red),
        }
    }
}

/// The details of an event.
fn show_detail(kind: &EventKind) -> (s: String)
    ensures
        s@ == kind@.detail(),
{
    match kind {
        EventKind::NodeRegistered { node_id, node_type, address } => {
            let mut s = node_type.clone();
            s.append(" ");
            s.append(node_id.as_str());
            s.append(" @ ");
            s.append(address.as_str());
            s
        },
        EventKind::NodeRemoved { node_id } => node_id.clone(),
        EventKind::Heartbeat { node_id } => node_id.clone(),
        EventKind::PathRequested => "random 3-hop path requested".to_owned(),
        EventKind::StaleCleanup { removed } => {
            let mut s = String::new();
            push_dec(&mut s, *removed as u64);
            s.append(" stale node(s) removed");
            proof {
                assert(s@ =~= kind@.detail());
            }
            s
        },
        EventKind::StatsQueried => "stats queried".to_owned(),
        EventKind::HealthCheck { ready } => if *ready {
            "check: ready".to_owned()
        } else {
            "check: NOT ready".to_owned()
        },
        EventKind::Error { message } => message.clone(),
    }
}

/// The entry of the web dashboard's activity log for an event.
pub open spec fn entry_of(event: TuiEvent<EventKind>) -> EventEntryView {
    EventEntryView {
        elapsed: event.elapsed,
        event_type: event.kind@.web_type(),
        label: event.kind@.web_label(),
        detail: event.kind@.detail(),
    }
}

/// The entry of the web dashboard's activity log for an event.
pub fn event_to_entry(event: &TuiEvent<EventKind>) -> (r: EventEntry)
    ensures
        r@ == entry_of(*event),
{
    let (event_type, label) = match &event.kind {
        EventKind::NodeRegistered { .. } => ("register", "+ REGISTER"),
        EventKind::NodeRemoved { .. } => ("remove", "- REMOVE"),
        EventKind::Heartbeat { .. } => ("heartbeat", "\u{2665} HEARTBEAT"),
        EventKind::PathRequested => ("path", "\u{2192} PATH"),
        EventKind::StaleCleanup { .. } => ("cleanup", "\u{2717} CLEANUP"),
        EventKind::StatsQueried => ("stats", "\u{2139} STATS"),
        EventKind::HealthCheck { .. } => ("health", "\u{2139} HEALTH"),
        EventKind::Error { .. } => ("error", "\u{2717} ERROR"),
    };
    EventEntry {
        elapsed: event.elapsed,
        event_type: event_type.to_owned(),
        label: label.to_owned(),
        detail: show_detail(&event.kind),
    }
}

/// A node and what it reported last.
#[derive(Debug)]
pub struct NodeWithMetrics {
    pub descriptor: NodeDescriptor,
    pub metrics: Option<NodeMetrics>,
}

/// A node and what it reported last.
#[verifier::ext_equal]
pub struct NodeWithMetricsView {
    pub descriptor: NodeDescriptorView,
    pub metrics: Option<NodeMetricsView>,
}

impl View for NodeWithMetrics {
    type V = NodeWithMetricsView;

    open spec fn view(&self) -> NodeWithMetricsView {
        NodeWithMetricsView { descriptor: self.descriptor@, metrics: opt_metrics(self.metrics) }
    }
}

/// All that the web dashboard shows.
#[derive(Debug)]
pub struct DashboardResponse {
    pub nodes: Vec<NodeWithMetrics>,
    pub stats: RegistryStats,
    pub metrics: MetricsSummary,
    pub ready: bool,
    /// The latest events, newest first.
    pub events: Vec<EventEntry>,
}

/// The counters of the service when the clock shows `now`.
pub fn summarize(metrics: &DiscoveryMetrics, now: Elapsed) -> (r: MetricsSummary)
    requires
        metrics.wf(),
        now.wf(),
    ensures
        r == (MetricsSummary {
            registrations: metrics.registrations,
            removals: metrics.removals,
            heartbeats: metrics.heartbeats,
            path_requests: metrics.path_requests,
            stale_cleaned: metrics.stale_cleaned,
            uptime_secs: r.uptime_secs,
        }),
        r.uptime_secs == age_secs(metrics.start_time, now),
{
    let uptime = metrics.uptime(now);
    MetricsSummary {
        registrations: metrics.get_registrations(),
        removals: metrics.get_removals(),
        heartbeats: metrics.get_heartbeats(),
        path_requests: metrics.get_path_requests(),
        stale_cleaned: metrics.get_stale_cleaned(),
        uptime_secs: uptime.secs,
    }
}

/// The latest events for the web dashboard, newest first.
pub fn latest_entries(metrics: &DiscoveryMetrics) -> (r: Vec<EventEntry>)
    ensures
        r@.len() == (if metrics.events@.len() < WEB_EVENTS {
            metrics.events@.len()
        } else {
            WEB_EVENTS as nat
        }),
        forall|i: int|
            0 <= i < r@.len() ==> (#[trigger] r@[i])@ == entry_of(
                metrics.events@[metrics.events@.len() - 1 - i],
            ),
        r@.len() == newest_first(metrics.events@, WEB_EVENTS as nat).len(),
        forall|i: int|
            0 <= i < r@.len() ==> (#[trigger] r@[i])@ == entry_of(
                newest_first(metrics.events@, WEB_EVENTS as nat)[i],
            ),
{
    let n = metrics.events.len();
    let mut r: Vec<EventEntry> = Vec::new();
    while r.len() < n && r.len() < WEB_EVENTS
        invariant
            n == metrics.events@.len(),
            r@.len() <= n,
            r@.len() <= WEB_EVENTS,
            forall|i: int|
                0 <= i < r@.len() ==> (#[trigger] r@[i])@ == entry_of(metrics.events@[n - 1 - i]),
        decreases n - r@.len(),
    {
        r.push(event_to_entry(metrics.events.get(n - 1 - r.len())));
    }
    r
}

/// The node of an entry, and what it reported last.
pub open spec fn shown_node(entry: NodeEntryView) -> NodeWithMetricsView {
    NodeWithMetricsView { descriptor: entry.descriptor, metrics: entry.metrics }
}

impl AppState {
    /// All that the web dashboard shows, when the clock shows `now`.
    pub fn dashboard(&self, now: Elapsed) -> (r: DashboardResponse)
        requires
            self.wf(),
            now.wf(),
        ensures
            r.nodes@.len() == self.registry.entries().len(),
            forall|i: int|
                0 <= i < r.nodes@.len() ==> (#[trigger] r.nodes@[i])@ == shown_node(
                    self.registry.entries()[i],
                ),
            r.ready == self.ready(),
            r.stats.total_nodes == self.registry.entries().len(),
            r.stats.entry_count == nodes_of_type(self.registry.entries(), NodeType::Entry).len(),
            r.stats.middle_count == nodes_of_type(
                self.registry.entries(),
                NodeType::Middle,
            ).len(),
            r.stats.exit_count == nodes_of_type(self.registry.entries(), NodeType::Exit).len(),
            self.registry.entries().len() == 0 ==> r.stats.oldest_node_age_secs is None
                && r.stats.newest_node_age_secs is None,
            self.registry.entries().len() > 0 ==> {
                &&& r.stats.oldest_node_age_secs is Some
                &&& r.stats.oldest_node_age_secs->0 == age_secs(
                    oldest(self.registry.entries()),
                    now,
                )
                &&& r.stats.newest_node_age_secs is Some
                &&& r.stats.newest_node_age_secs->0 == age_secs(
                    newest(self.registry.entries()),
                    now,
                )
            },
            match self.metrics {
                Some(m) => {
                    &&& r.metrics == (MetricsSummary {
                        registrations: m.registrations,
                        removals: m.removals,
                        heartbeats: m.heartbeats,
                        path_requests: m.path_requests,
                        stale_cleaned: m.stale_cleaned,
                        uptime_secs: r.metrics.uptime_secs,
                    })
                    &&& r.metrics.uptime_secs == age_secs(m.start_time, now)
                    &&& r.events@.len() == (if m.events@.len() < WEB_EVENTS {
                        m.events@.len()
                    } else {
                        WEB_EVENTS as nat
                    })
                    &&& forall|i: int|
                        0 <= i < r.events@.len() ==> (#[trigger] r.events@[i])@ == entry_of(
                            m.events@[m.events@.len() - 1 - i],
                        )
                },
                None => {
                    &&& r.metrics == (MetricsSummary {
                        registrations: 0,
                        removals: 0,
                        heartbeats: 0,
                        path_requests: 0,
                        stale_cleaned: 0,
                        uptime_secs: 0,
                    })
                    &&& r.events@.len() == 0
                },
            },
    {
        let entries = self.registry.get_all_entries();
        let ghost all = self.registry.entries();
        let mut nodes: Vec<NodeWithMetrics> = Vec::new();
        let mut i: usize = 0;
        while i < entries.len()
            invariant
                entry_views(entries@) == all,
                i <= entries@.len(),
                nodes@.len() == i,
                forall|j: int| 0 <= j < i ==> (#[trigger] nodes@[j])@ == shown_node(all[j]),
            decreases entries@.len() - i,
        {
            proof {
                assert(all[i as int] == entries@[i as int]@);
            }
            let entry = entries[i].clone();
            nodes.push(NodeWithMetrics { descriptor: entry.descriptor, metrics: entry.metrics });
            i += 1;
        }
        proof {
            assert(all.len() == entries@.len());
        }
        let stats = self.registry.get_stats(now);
        let ready = self.registry.is_ready();
        match &self.metrics {
            Some(m) => DashboardResponse {
                nodes,
                stats,
                metrics: summarize(m, now),
                ready,
                events: latest_entries(m),
            },
            None => DashboardResponse {
                nodes,
                stats,
                metrics: MetricsSummary {
                    registrations: 0,
                    removals: 0,
                    heartbeats: 0,
                    path_requests: 0,
                    stale_cleaned: 0,
                    uptime_secs: 0,
                },
                ready,
                events: Vec::new(),
            },
        }
    }
}

/// The media type of a file, by what follows the last dot in its path.
pub open spec fn mime_text(path: Seq<char>) -> Seq<char> {
    let extension = after_last(path, '.');
    if extension == "html"@ {
        "text/html; charset=utf-8"@
    } else if extension == "js"@ || extension == "mjs"@ {
        "application/javascript"@
    } else if extension == "wasm"@ {
        "application/wasm"@
    } else if extension == "css"@ {
        "text/css"@
    } else if extension == "png"@ {
        "image/png"@
    } else if extension == "ico"@ {
        "image/x-icon"@
    } else if extension == "svg"@ {
        "image/svg+xml"@
    } else {
        "application/octet-stream"@
    }
}

/// The media type of a file, by what follows the last dot in its path.
pub fn mime_for_path(path: &str) -> (r: &'static str)
    ensures
        r@ == mime_text(path@),
{
    let extension = after_last_char(path, '.');
    let e = extension.as_str();
    if same(e, "html") {
        "text/html; charset=utf-8"
    } else if same(e, "js") || same(e, "mjs") {
        "application/javascript"
    } else if same(e, "wasm") {
        "application/wasm"
    } else if same(e, "css") {
        "text/css"
    } else if same(e, "png") {
        "image/png"
    } else if same(e, "ico") {
        "image/x-icon"
    } else if same(e, "svg") {
        "image/svg+xml"
    } else {
        "application/octet-stream"
    }
}

/// The file that a path of the web dashboard names: without the slashes in front, and the start
/// page for nothing.
pub fn asset_path(path: &str) -> (r: String)
    ensures
        r@ == (if without_start(path@, '/').len() == 0 {
            "index.html"@
        } else {
            without_start(path@, '/')
        }),
{
    let trimmed = trim_start_char(path, '/');
    if trimmed.as_str().is_empty() {
        "index.html".to_owned()
    } else {
        trimmed
    }
}

/// The bytes of an identifier cut to `max_len` bytes, with two dots after it. An identifier that
/// fits is left whole, and one that cannot be cut there keeps all its bytes.
pub open spec fn cut_id(id: Seq<u8>, max_len: int) -> Seq<u8> {
    if id.len() <= max_len {
        id
    } else if is_char_boundary(id, max_len) {
        id.subrange(0, max_len) + encode_utf8(".."@)
    } else {
        id + encode_utf8(".."@)
    }
}

/// An identifier cut to `max_len` bytes.
pub fn truncate_id(id: &str, max_len: usize) -> (r: String)
    requires
        encode_utf8(id@).len() <= usize::MAX,
    ensures
        encode_utf8(r@) == cut_id(encode_utf8(id@), max_len as int),
{
    if id.len() <= max_len {
        return id.to_owned();
    }
    let mut r = if id.is_char_boundary(max_len) {
        id.split_at(max_len).0.to_owned()
    } else {
        id.to_owned()
    };
    proof {
        crate::text::utf8_in_pieces(r@, ".."@);
    }
    r.append("..");
    r
}

/// The row of a node in the terminal.
#[derive(Debug)]
pub struct NodeRow {
    pub node_id: String,
    pub node_type: String,
    pub address: String,
    pub bandwidth: String,
}

/// The row of a node whose address reads `address`.
pub fn node_row(node: &NodeDescriptor, address: String) -> (r: NodeRow)
    requires
        encode_utf8(node@.node_id).len() <= usize::MAX,
    ensures
        encode_utf8(r.node_id@) == cut_id(encode_utf8(node@.node_id), 12),
        r.node_type@ == node@.node_type.text(),
        r.address@ == address@,
        r.bandwidth@ == scaled_text(node@.bandwidth, Seq::empty()),
{
    NodeRow {
        node_id: truncate_id(node.node_id.as_str(), 12),
        node_type: node.node_type.to_string(),
        address,
        bandwidth: format_bytes(node.bandwidth),
    }
}

/// The colour of a type of node, by its capitalized name.
pub fn type_tint(node_type: &str) -> (r: Tint)
    ensures
        r == (if node_type@ == "Entry"@ {
            Tint::Green
        } else if node_type@ == "Middle"@ {
            Tint::Yellow
        } else if node_type@ == "Exit"@ {
            Tint::Red
        } else {
            Tint::White
        }),
{
    if same(node_type, "Entry") {
        Tint::Green
    } else if same(node_type, "Middle") {
        Tint::Yellow
    } else if same(node_type, "Exit") {
        Tint::Red
    } else {
        Tint::White
    }
}

/// The line of the activity log for an event.
pub open spec fn event_line(event: TuiEvent<EventKind>) -> EventLineView {
    EventLineView {
        time: time_span(event.elapsed),
        label: event.kind@.label(),
        detail: if event.kind@ is Error {
            SpanView::tinted(event.kind@.detail(), Tint::Red)
        } else {
            SpanView::plain(event.kind@.detail())
        },
    }
}

/// The label of an event in the terminal.
fn show_label(kind: &EventKind) -> (r: Span)
    ensures
        r@ == kind@.label(),
{
    match kind {
        EventKind::NodeRegistered { .. } => Span::strong("+ REGISTER ".to_owned(), Tint::Green),
        EventKind::NodeRemoved { .. } => Span::strong("- REMOVE   ".to_owned(), Tint::Red),
        EventKind::Heartbeat { .. } => {
            Span::tinted("\u{2665} HEARTBEAT ".to_owned(), Tint::Cyan)
        },
        EventKind::PathRequested => Span::strong("\u{2192} PATH      ".to_owned(), Tint::Yellow),
        EventKind::StaleCleanup { .. } => {
            Span::tinted("\u{2717} CLEANUP   ".to_owned(), Tint::DarkGray)
        },
        EventKind::StatsQueried => Span::tinted("\u{2139} STATS     ".to_owned(), Tint::Blue),
        EventKind::HealthCheck { .. } => {
            Span::tinted("\u{2139} HEALTH    ".to_owned(), Tint::Blue)
        },
        EventKind::Error { .. } => Span::strong("\u{2717} ERROR     ".to_owned(), Tint::Red),
    }
}

/// The line of the activity log for an event.
pub fn format_event(event: &TuiEvent<EventKind>) -> (r: EventLine)
    ensures
        r@ == event_line(*event),
{
    let text = show_detail(&event.kind);
    let detail = match &event.kind {
        EventKind::Error { .. } => Span::tinted(text, Tint::Red),
        _ => Span::plain(text),
    };
    EventLine { time: show_time(event.elapsed), label: show_label(&event.kind), detail }
}

/// The lines of the activity log, oldest first.
pub fn collect_event_lines(metrics: &DiscoveryMetrics) -> (r: Vec<EventLine>)
    ensures
        lines_of(r@) == metrics.events@.map_values(|e: TuiEvent<EventKind>| event_line(e)),
{
    let n = metrics.events.len();
    let mut r: Vec<EventLine> = Vec::new();
    while r.len() < n
        invariant
            n == metrics.events@.len(),
            r@.len() <= n,
            forall|i: int| 0 <= i < r@.len() ==> (#[trigger] r@[i])@ == event_line(
                metrics.events@[i],
            ),
        decreases n - r@.len(),
    {
        r.push(format_event(metrics.events.get(r.len())));
    }
    proof {
        assert(lines_of(r@) =~= metrics.events@.map_values(
            |e: TuiEvent<EventKind>| event_line(e),
        ));
    }
    r
}

/// The header of the dashboard in the terminal.
pub fn build_header(
    metrics: &DiscoveryMetrics,
    bind_addr: &str,
    ready: bool,
    stats: &RegistryStats,
    uptime: Elapsed,
) -> (s: String)
    ensures
        s@ == " DISCOVERY  |  "@ + bind_addr@ + "  |  Up: "@ + duration_text(uptime.secs)
            + "  |  Ready: "@ + (if ready {
            "YES"@
        } else {
            "NO"@
        }) + "  |  Nodes: "@ + dec_text(stats.total_nodes as nat) + " (E:"@ + dec_text(
            stats.entry_count as nat,
        ) + " M:"@ + dec_text(stats.middle_count as nat) + " X:"@ + dec_text(
            stats.exit_count as nat,
        ) + ")  |  Regs: "@ + dec_text(metrics.registrations as nat) + "  HBs: "@ + dec_text(
            metrics.heartbeats as nat,
        ) + "  Paths: "@ + dec_text(metrics.path_requests as nat) + "  Cleaned: "@ + dec_text(
            metrics.stale_cleaned as nat,
        ),
{
    let mut s = " DISCOVERY  |  ".to_owned();
    s.append(bind_addr);
    s.append("  |  Up: ");
    s.append(format_duration(uptime).as_str());
    s.append("  |  Ready: ");
    if ready {
        s.append("YES");
    } else {
        s.append("NO");
    }
    s.append("  |  Nodes: ");
    push_dec(&mut s, stats.total_nodes as u64);
    s.append(" (E:");
    push_dec(&mut s, stats.entry_count as u64);
    s.append(" M:");
    push_dec(&mut s, stats.middle_count as u64);
    s.append(" X:");
    push_dec(&mut s, stats.exit_count as u64);
    s.append(")  |  Regs: ");
    push_dec(&mut s, metrics.registrations);
    s.append("  HBs: ");
    push_dec(&mut s, metrics.heartbeats);
    s.append("  Paths: ");
    push_dec(&mut s, metrics.path_requests);
    s.append("  Cleaned: ");
    push_dec(&mut s, metrics.stale_cleaned);
    s
}

/// The title of the dashboard in the terminal.
pub fn dashboard_title(ready: bool) -> (s: String)
    ensures
        s@ == " Discovery Dashboard ["@ + (if ready {
            "\u{2713}"@
        } else {
            "\u{2717}"@
        }) + "] "@,
{
    let mut s = " Discovery Dashboard [".to_owned();
    if ready {
        s.append("\u{2713}");
    } else {
        s.append("\u{2717}");
    }
    s.append("] ");
    s
}

/// The title of the table of nodes.
pub fn nodes_title(count: usize) -> (s: String)
    ensures
        s@ == " Node Registry ("@ + dec_text(count as nat) + " nodes) "@,
{
    counted(" Node Registry (", count as u64, " nodes) ")
}

/// The media type of a file goes by its ending, wherever it lies and whatever it is called.
pub proof fn media_types_go_by_the_ending(stem: Seq<char>, ending: Seq<char>)
    requires
        !ending.contains('.'),
    ensures
        mime_text(stem + seq!['.'] + ending) == (if ending == "html"@ {
            "text/html; charset=utf-8"@
        } else if ending == "js"@ || ending == "mjs"@ {
            "application/javascript"@
        } else if ending == "wasm"@ {
            "application/wasm"@
        } else if ending == "css"@ {
            "text/css"@
        } else if ending == "png"@ {
            "image/png"@
        } else if ending == "ico"@ {
            "image/x-icon"@
        } else if ending == "svg"@ {
            "image/svg+xml"@
        } else {
            "application/octet-stream"@
        }),
{
    ending_of(stem, ending);
}

proof fn ending_of(stem: Seq<char>, ending: Seq<char>)
    requires
        !ending.contains('.'),
    ensures
        after_last(stem + seq!['.'] + ending, '.') == ending,
    decreases ending.len(),
{
    let path = stem + seq!['.'] + ending;
    if ending.len() == 0 {
        assert(path.last() == '.');
        assert(after_last(path, '.') =~= ending);
    } else {
        let front = ending.drop_last();
        assert(!front.contains('.')) by {
            if front.contains('.') {
                let k = choose|k: int| 0 <= k < front.len() && front[k] == '.';
                assert(ending[k] == '.');
            }
        }
        assert(ending[ending.len() - 1] != '.');
        ending_of(stem, front);
        assert(path.drop_last() =~= stem + seq!['.'] + front);
        assert(after_last(path, '.') =~= ending);
    }
}

/// A node is shown with the descriptor that it registered with and with what it reported last, and
/// an event with the time at which it happened.
pub proof fn dashboards_show_what_is_there(entry: NodeEntryView, event: TuiEvent<EventKind>)
    ensures
        shown_node(entry).descriptor == entry.descriptor,
        shown_node(entry).metrics == entry.metrics,
        entry_of(event).elapsed == event.elapsed,
        event.kind@ matches EventContent::Heartbeat { node_id } ==> entry_of(event).detail
            == node_id,
        event.kind@ matches EventContent::NodeRemoved { node_id } ==> entry_of(event).detail
            == node_id,
        event.kind@ matches EventContent::Error { message } ==> entry_of(event).detail == message,
{
}

/// The bytes of an identifier that is cut are the start of it and two dots; one that fits is left
/// whole.
pub proof fn cut_identifiers_start_alike(id: Seq<u8>, max_len: int)
    requires
        max_len >= 0,
    ensures
        id.len() <= max_len ==> cut_id(id, max_len) == id,
        id.len() > max_len && is_char_boundary(id, max_len) ==> cut_id(id, max_len).take(max_len)
            == id.take(max_len) && cut_id(id, max_len).skip(max_len) == encode_utf8(".."@),
        id.len() > max_len && !is_char_boundary(id, max_len) ==> cut_id(id, max_len).take(
            id.len() as int,
        ) == id,
{
    if id.len() > max_len && is_char_boundary(id, max_len) {
        assert(cut_id(id, max_len).take(max_len) =~= id.take(max_len));
        assert(cut_id(id, max_len).skip(max_len) =~= encode_utf8(".."@));
    } else if id.len() > max_len {
        assert(cut_id(id, max_len).take(id.len() as int) =~= id);
    }
}

/// The web dashboard shows the latest events up to fifty, and all of them if there are no more.
pub proof fn dashboards_show_the_latest_events(events: Seq<TuiEvent<EventKind>>)
    ensures
        newest_first(events, WEB_EVENTS as nat).len() == (if events.len() < 50 {
            events.len()
        } else {
            50
        }),
{
}

}
