use mini_tor::discovery::view::EventEntry;
use mini_tor::metrics::Elapsed;
use mini_tor::order::text_first;
use mini_tor::types::NodeMetrics;
use mini_tor::web::{
    bar, filter_nodes, find_node, format_bandwidth, format_elapsed, format_uptime, label_class,
    max_bandwidth, merge_events, node_details, relay_event_color, short_id, sort_mark, sort_nodes,
    split_relay_event, toggle_selection, toggle_sort, type_class, NodeInfo, SortCol, TabKind,
};

fn node(id: &str, node_type: &str, address: &str, bandwidth: u64) -> NodeInfo {
    NodeInfo {
        node_id: id.to_string(),
        node_type: node_type.to_string(),
        address: address.to_string(),
        bandwidth,
        metrics: None,
    }
}

fn nodes() -> Vec<NodeInfo> {
    vec![
        node("b", "Exit", "2", 10),
        node("a", "Entry", "1", 30),
        node("d", "Middle", "3", 10),
        node("c", "Exit", "10", 20),
    ]
}

fn ids(nodes: &[NodeInfo]) -> String {
    nodes.iter().map(|n| n.node_id.as_str()).collect()
}

#[test]
fn tabs_show_their_nodes() {
    assert_eq!(ids(&filter_nodes(&nodes(), TabKind::All)), "badc");
    assert_eq!(ids(&filter_nodes(&nodes(), TabKind::Entry)), "a");
    assert_eq!(ids(&filter_nodes(&nodes(), TabKind::Middle)), "d");
    assert_eq!(ids(&filter_nodes(&nodes(), TabKind::Exit)), "bc");
    let lower = vec![node("x", "exit", "", 1)];
    assert!(filter_nodes(&lower, TabKind::Exit).is_empty());
}

#[test]
fn tables_are_sorted_stably() {
    for (col, up, down) in [
        (SortCol::Id, "abcd", "dcba"),
        (SortCol::Type, "abcd", "dbca"),
        (SortCol::Addr, "acbd", "dbca"),
        (SortCol::Bw, "bdca", "acbd"),
    ] {
        assert_eq!(ids(&sort_nodes(nodes(), col, true)), up, "{:?}", col);
        assert_eq!(ids(&sort_nodes(nodes(), col, false)), down, "{:?}", col);
    }
    assert_eq!(max_bandwidth(&nodes()), 30);
    assert_eq!(max_bandwidth(&vec![]), 1);
}

#[test]
fn texts_have_the_order_of_their_code_points() {
    let words = ["", "a", "aa", "ab", "b", "é", "\u{ffff}", "\u{10000}"];
    for (i, a) in words.iter().enumerate() {
        for (j, b) in words.iter().enumerate() {
            assert_eq!(text_first(a, b), i < j);
            assert_eq!(a < b, i < j);
        }
    }
}

#[test]
fn clicks_turn_the_table() {
    assert_eq!(toggle_sort(SortCol::Id, true, SortCol::Id), (SortCol::Id, false));
    assert_eq!(toggle_sort(SortCol::Id, false, SortCol::Id), (SortCol::Id, true));
    assert_eq!(toggle_sort(SortCol::Id, false, SortCol::Bw), (SortCol::Bw, true));
    assert_eq!(sort_mark(SortCol::Id, true, SortCol::Id), " ▲");
    assert_eq!(sort_mark(SortCol::Id, false, SortCol::Id), " ▼");
    assert_eq!(sort_mark(SortCol::Id, false, SortCol::Bw), "");
    assert_eq!(toggle_selection(&None, "a".to_string()), Some("a".to_string()));
    let selected = Some("a".to_string());
    assert_eq!(toggle_selection(&selected, "a".to_string()), None);
    assert_eq!(toggle_selection(&selected, "b".to_string()), Some("b".to_string()));
}

#[test]
fn figures_on_the_web_dashboard() {
    assert_eq!(format_bandwidth(1023), "1023 B/s");
    assert_eq!(format_bandwidth(1536), "1.5 KB/s");
    assert_eq!(format_bandwidth(1048576), "1.0 MB/s");
    assert_eq!(format_bandwidth(5_368_709_120), "5.0 GB/s");
    assert_eq!(format_uptime(3725), "01:02:05");
    assert_eq!(format_uptime(360_000), "100:00:00");
    assert_eq!(format_elapsed(Elapsed { secs: 3725, nanos: 999_999_999 }), "+1:02:05");
    assert_eq!(bar(3), "███░░░░░░░");
    assert_eq!(bar(10), "██████████");
    assert_eq!(bar(11), "███████████");
    assert_eq!(short_id("0123456789abcdef"), "0123456789ab");
    assert_eq!(short_id("short"), "short");
    assert_eq!(type_class("Middle"), "type-badge type-middle");
    assert_eq!(type_class("middle"), "type-badge type-");
    assert_eq!(label_class("path"), "log-label ev-path");
}

#[test]
fn relay_events_have_styles() {
    for (event, style) in [
        ("[+0:00:01] ← ACCEPT    from x", "rel-accept"),
        ("⚙ CREATE", "rel-create"),
        ("→ EXTEND", "rel-extend"),
        ("✗ DESTROY", "rel-destroy"),
        ("✗ ERROR", "rel-error"),
        ("→ STREAM", "rel-stream"),
        ("— END", "rel-end"),
        ("— CLOSED", "rel-end"),
        ("↔ DATA", "rel-data"),
        ("→ RELAY→", "rel-fwd"),
        ("← RELAY←", "rel-bwd"),
        ("✗ ERROR after ← ACCEPT", "rel-accept"),
        ("", "rel-default"),
        ("DATA", "rel-default"),
    ] {
        assert_eq!(relay_event_color(event), style);
    }
}

#[test]
fn relay_events_are_split() {
    let parts = |ev: &str| {
        let (time, label, detail) = split_relay_event(ev);
        [time, label, detail]
    };
    assert_eq!(
        parts("[+0:00:05] ⚙ CREATE    circuit 1"),
        ["[+0:00:05]", "⚙ CREATE", "circuit 1"]
    );
    assert_eq!(parts("no time    here"), ["", "no time    here", ""]);
    assert_eq!(parts("[+0:00:05] label only"), ["[+0:00:05]", "label only", ""]);
    assert_eq!(parts("[t]  \u{3000}a       b  "), ["[t]", "a", "b  "]);
    assert_eq!(parts("] "), ["]", "", ""]);
}

fn event(secs: u64, label: &str) -> EventEntry {
    EventEntry {
        elapsed: Elapsed::from_secs(secs),
        event_type: "path".to_string(),
        label: label.to_string(),
        detail: String::new(),
    }
}

fn labels(log: &[EventEntry]) -> String {
    log.iter().map(|e| e.label.as_str()).collect()
}

#[test]
fn new_events_join_the_log() {
    let start = Elapsed::from_secs(0);
    let incoming = vec![event(3, "c"), event(2, "x"), event(2, "y"), event(0, "old")];
    let (log, latest) = merge_events(vec![], start, incoming);
    assert_eq!(labels(&log), "xyc");
    assert_eq!(latest, Elapsed::from_secs(3));
    let (log, latest) = merge_events(log, latest, vec![event(4, "d"), event(3, "c")]);
    assert_eq!(labels(&log), "xycd");
    assert_eq!(latest, Elapsed::from_secs(4));
    let (log, latest) = merge_events(log, latest, vec![event(4, "d")]);
    assert_eq!(labels(&log), "xycd");
    assert_eq!(latest, Elapsed::from_secs(4));
    let many = (5..40).map(|i| event(i, "z")).collect();
    let (log, latest) = merge_events(log, latest, many);
    assert_eq!(log.len(), 20);
    assert_eq!(log[19].elapsed, Elapsed::from_secs(20));
    assert_eq!(latest, Elapsed::from_secs(39));
}

#[test]
fn the_panel_shows_the_selected_node() {
    assert_eq!(find_node(&nodes(), "d").unwrap().address, "3");
    assert!(find_node(&nodes(), "e").is_none());
    let twice = vec![node("x", "Exit", "1", 1), node("x", "Exit", "2", 1)];
    assert_eq!(find_node(&twice, "x").unwrap().address, "1");

    let silent = node_details(&node("a", "Entry", "1", 2048));
    assert_eq!(silent.bandwidth, "2.0 KB/s");
    assert_eq!(silent.uptime, "");
    assert_eq!(silent.connections, "");
    assert_eq!(silent.received, "");
    assert!(silent.events.is_empty());

    let mut known = node("a", "Entry", "1", 2048);
    known.metrics = Some(NodeMetrics {
        connections_accepted: 1,
        circuits_active: 2,
        circuits_created: 3,
        circuits_destroyed: 4,
        bytes_forwarded: 5,
        bytes_received: 6144,
        streams_opened: 7,
        uptime_secs: 3661,
        event_snapshot: (0..250).map(|i| format!("e{}", i)).collect(),
    });
    let details = node_details(&known);
    assert_eq!(details.uptime, "01:01:01");
    assert_eq!(details.connections, "1");
    assert_eq!(details.streams, "7");
    assert_eq!(details.created, "3");
    assert_eq!(details.destroyed, "4");
    assert_eq!(details.forwarded, "5 B");
    assert_eq!(details.received, "6.0 KB");
    assert_eq!(details.events.len(), 200);
    assert_eq!(details.events[0], "e249");
    assert_eq!(details.events[199], "e50");
}
