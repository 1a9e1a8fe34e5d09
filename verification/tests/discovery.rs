use mini_tor::discovery::config::DiscoveryConfig;
use mini_tor::discovery::error::{RegistryError, StatusCode};
use mini_tor::discovery::metrics::{DiscoveryMetrics, EventKind};
use mini_tor::discovery::path::Draws;
use mini_tor::discovery::service::{AppState, RandomPathQuery, ServiceError};
use mini_tor::discovery::view::{
    asset_path, build_header, collect_event_lines, dashboard_title, event_to_entry, format_event,
    mime_for_path, node_row, nodes_title, truncate_id, type_tint,
};
use mini_tor::display::{first_visible, log_title, quits, Tint};
use mini_tor::metrics::{Elapsed, TuiEvent};
use mini_tor::net::{IpAddr, SocketAddr};
use mini_tor::types::{NodeDescriptor, NodeMetrics, NodeType, PublicKey};
use mini_tor::wire::{required_metrics, WireDescriptor, WireMetrics, WireNodeType};

fn at(secs: u64) -> Elapsed {
    Elapsed::from_secs(secs)
}

// ---- settings ----

/// The settings with these options of the command line.
fn parse_from(args: &[&str]) -> DiscoveryConfig {
    let mut config = DiscoveryConfig::default();
    let mut i = 1;
    while i < args.len() {
        match args[i] {
            "--port" => config.port = args[i + 1].parse().unwrap(),
            "--host" => config.host = args[i + 1].to_string(),
            "--tui" => {
                config.tui = true;
                i += 1;
                continue;
            }
            other => panic!("{}", other),
        }
        i += 2;
    }
    config
}

#[test]
fn test_default_config() {
    let config = parse_from(&["discovery"]);
    assert_eq!(config.port, 8080);
    assert_eq!(config.host, "0.0.0.0");
    assert!(!config.tui);
    assert_eq!(config.stale_timeout_secs, 120);
    assert_eq!(config.consensus_path, "services/discovery/data/consensus.json");
}

#[test]
fn test_custom_port_and_tui() {
    let config = parse_from(&["discovery", "--port", "9090", "--tui"]);
    assert_eq!(config.port, 9090);
    assert!(config.tui);
}

#[test]
fn config_test_bind_addr() {
    let config = parse_from(&["discovery", "--host", "127.0.0.1", "--port", "3000"]);
    assert_eq!(config.bind_addr(), "127.0.0.1:3000");
}

// ---- requests ----

fn fresh_state() -> AppState {
    AppState::new(false, None)
}

fn make_node(id: &str, node_type: NodeType, bandwidth: u64) -> NodeDescriptor {
    let port: u16 = 9000 + id.bytes().map(|b| b as u16).sum::<u16>() % 1000;
    NodeDescriptor::new(
        id.to_string(),
        node_type,
        SocketAddr::new(IpAddr::v4(127, 0, 0, 1), port),
        PublicKey::new([0u8; 32]),
        bandwidth,
        None,
    )
}

fn shown_address(node: &NodeDescriptor) -> String {
    format!("127.0.0.1:{}", node.address.port)
}

fn register(state: &mut AppState, node: NodeDescriptor) -> Result<(), ServiceError> {
    let address = shown_address(&node);
    state.register_node(node, address, at(1))
}

/// Registers a node that came in a message.
fn register_wire(state: &mut AppState, node: NodeDescriptor) -> Result<(), StatusCode> {
    let address = shown_address(&node);
    let socket = node.address;
    let message = WireDescriptor::from_descriptor(node, address.clone());
    let node = message.to_descriptor(Ok(socket)).unwrap();
    state
        .register_node(node, address, at(1))
        .map_err(|e| e.status().0)
}

fn register_three_nodes(state: &mut AppState) {
    register(state, make_node("entry-1", NodeType::Entry, 1_000_000)).unwrap();
    register(state, make_node("middle-1", NodeType::Middle, 2_000_000)).unwrap();
    register(state, make_node("exit-1", NodeType::Exit, 3_000_000)).unwrap();
}

fn register_three_wire(state: &mut AppState) {
    register_wire(state, make_node("entry-1", NodeType::Entry, 1_000_000)).unwrap();
    register_wire(state, make_node("middle-1", NodeType::Middle, 2_000_000)).unwrap();
    register_wire(state, make_node("exit-1", NodeType::Exit, 3_000_000)).unwrap();
}

fn random(state: &mut AppState, count: Option<usize>) -> Result<Vec<NodeDescriptor>, ServiceError> {
    state.get_random_path(RandomPathQuery::new(count), at(2))
}

#[test]
fn api_integration_test_register_node_success() {
    let mut state = fresh_state();
    assert!(register(&mut state, make_node("node-1", NodeType::Entry, 1_000_000)).is_ok());
}

#[test]
fn test_register_node_empty_id_returns_422() {
    let mut state = fresh_state();
    let e = register(&mut state, make_node("", NodeType::Entry, 1_000_000)).unwrap_err();
    assert_eq!(e.http_status(), 422);
    assert_eq!(e.status().1, "Node ID cannot be empty");
    assert_eq!(state.get_all_nodes().count, 0);
}

#[test]
fn test_register_node_zero_bandwidth_returns_422() {
    let mut state = fresh_state();
    let e = register(&mut state, make_node("node-1", NodeType::Entry, 0)).unwrap_err();
    assert_eq!(e.http_status(), 422);
    assert_eq!(e.status().1, "Bandwidth must be greater than 0");
}

#[test]
fn api_integration_test_get_all_nodes_empty() {
    let r = fresh_state().get_all_nodes();
    assert_eq!(r.count, 0);
    assert!(r.nodes.is_empty());
}

#[test]
fn api_integration_test_get_all_nodes_after_registration() {
    let mut state = fresh_state();
    register_three_nodes(&mut state);
    let r = state.get_all_nodes();
    assert_eq!(r.count, 3);
    assert_eq!(r.nodes.len(), 3);
}

#[test]
fn api_integration_test_get_random_path_success() {
    let mut state = fresh_state();
    register_three_nodes(&mut state);
    let path = random(&mut state, None).unwrap();
    assert_eq!(path.len(), 3);
    assert_eq!(path[0].node_type, NodeType::Entry);
    assert_eq!(path[1].node_type, NodeType::Middle);
    assert_eq!(path[2].node_type, NodeType::Exit);
}

#[test]
fn test_get_random_path_insufficient_nodes_returns_503() {
    let mut state = fresh_state();
    register(&mut state, make_node("entry-1", NodeType::Entry, 1_000_000)).unwrap();
    let e = random(&mut state, None).unwrap_err();
    assert_eq!(e.http_status(), 503);
    assert_eq!(e.status().1, "Insufficient nodes: No middle nodes available");
}

#[test]
fn api_integration_test_heartbeat_success() {
    let mut state = fresh_state();
    register(&mut state, make_node("node-1", NodeType::Entry, 1_000_000)).unwrap();
    assert!(state
        .update_heartbeat("node-1", NodeMetrics::default(), at(2))
        .is_ok());
}

#[test]
fn api_integration_test_heartbeat_not_found() {
    let mut state = fresh_state();
    let e = state
        .update_heartbeat("nonexistent", NodeMetrics::default(), at(2))
        .unwrap_err();
    assert_eq!(e.http_status(), 404);
}

#[test]
fn api_integration_test_remove_node_success() {
    let mut state = fresh_state();
    register(&mut state, make_node("node-1", NodeType::Entry, 1_000_000)).unwrap();
    assert!(state.remove_node("node-1", at(2)).is_ok());
    assert_eq!(state.get_all_nodes().count, 0);
}

#[test]
fn api_integration_test_remove_node_not_found() {
    let mut state = fresh_state();
    let e = state.remove_node("nonexistent", at(2)).unwrap_err();
    assert_eq!(e.http_status(), 404);
}

#[test]
fn api_integration_test_get_stats() {
    let mut state = fresh_state();
    register_three_nodes(&mut state);
    let stats = state.get_stats(at(2));
    assert_eq!(stats.total_nodes, 3);
    assert_eq!(stats.entry_count, 1);
    assert_eq!(stats.middle_count, 1);
    assert_eq!(stats.exit_count, 1);
}

#[test]
fn api_integration_test_health_check_not_ready() {
    let health = fresh_state().health_check(at(2));
    assert_eq!(health.status, "ok");
    assert!(!health.ready);
    assert!(health.message.unwrap().contains("Insufficient"));
}

#[test]
fn api_integration_test_health_check_ready() {
    let mut state = fresh_state();
    register_three_nodes(&mut state);
    let health = state.health_check(at(2));
    assert_eq!(health.status, "ok");
    assert!(health.ready);
    assert!(health.message.is_none());
}

#[test]
fn api_integration_test_readiness_check_not_ready() {
    let e = fresh_state().readiness_check().unwrap_err();
    assert_eq!(e.http_status(), 503);
}

#[test]
fn api_integration_test_readiness_check_ready() {
    let mut state = fresh_state();
    register_three_nodes(&mut state);
    assert!(state.readiness_check().is_ok());
}

#[test]
fn api_integration_test_full_workflow() {
    let mut state = fresh_state();
    assert_eq!(state.readiness_check().unwrap_err().http_status(), 503);
    register_three_nodes(&mut state);
    assert!(state.readiness_check().is_ok());
    assert_eq!(random(&mut state, None).unwrap().len(), 3);
    state.remove_node("exit-1", at(2)).unwrap();
    assert_eq!(state.readiness_check().unwrap_err().http_status(), 503);
    assert_eq!(random(&mut state, None).unwrap_err().http_status(), 503);
}

// ---- the same through messages ----

#[test]
fn grpc_integration_test_register_node_success() {
    let mut state = fresh_state();
    assert!(register_wire(&mut state, make_node("node-1", NodeType::Entry, 1_000_000)).is_ok());
}

#[test]
fn test_register_node_empty_id_returns_error() {
    let mut state = fresh_state();
    let code = register_wire(&mut state, make_node("", NodeType::Entry, 1_000_000)).unwrap_err();
    assert_eq!(code, StatusCode::InvalidArgument);
}

#[test]
fn test_register_node_zero_bandwidth_returns_error() {
    let mut state = fresh_state();
    let code = register_wire(&mut state, make_node("node-1", NodeType::Entry, 0)).unwrap_err();
    assert_eq!(code, StatusCode::InvalidArgument);
}

#[test]
fn grpc_integration_test_get_all_nodes_empty() {
    let r = fresh_state().get_all_nodes();
    assert_eq!(r.count, 0);
    assert!(r.nodes.is_empty());
}

#[test]
fn grpc_integration_test_get_all_nodes_after_registration() {
    let mut state = fresh_state();
    register_three_wire(&mut state);
    let r = state.get_all_nodes();
    assert_eq!(r.count, 3);
    assert_eq!(r.nodes.len(), 3);
}

#[test]
fn grpc_integration_test_get_random_path_success() {
    let mut state = fresh_state();
    register_three_wire(&mut state);
    let path: Vec<WireDescriptor> = random(&mut state, Some(3))
        .unwrap()
        .into_iter()
        .map(|n| {
            let address = shown_address(&n);
            WireDescriptor::from_descriptor(n, address)
        })
        .collect();
    assert_eq!(path.len(), 3);
    assert_eq!(path[0].node_type, Ok(WireNodeType::Entry));
    assert_eq!(path[1].node_type, Ok(WireNodeType::Middle));
    assert_eq!(path[2].node_type, Ok(WireNodeType::Exit));
}

#[test]
fn test_get_random_path_insufficient_nodes_returns_error() {
    let mut state = fresh_state();
    register_wire(&mut state, make_node("entry-1", NodeType::Entry, 1_000_000)).unwrap();
    let e = random(&mut state, Some(3)).unwrap_err();
    assert_eq!(e.status().0, StatusCode::Unavailable);
}

fn empty_metrics() -> Option<WireMetrics> {
    Some(WireMetrics::from_metrics(&NodeMetrics::default()))
}

#[test]
fn grpc_integration_test_heartbeat_success() {
    let mut state = fresh_state();
    register_wire(&mut state, make_node("node-1", NodeType::Entry, 1_000_000)).unwrap();
    let metrics = required_metrics(empty_metrics()).unwrap();
    assert!(state.update_heartbeat("node-1", metrics, at(2)).is_ok());
}

#[test]
fn grpc_integration_test_heartbeat_not_found() {
    let mut state = fresh_state();
    let metrics = required_metrics(empty_metrics()).unwrap();
    let e = state.update_heartbeat("nonexistent", metrics, at(2)).unwrap_err();
    assert_eq!(e.status().0, StatusCode::NotFound);
}

#[test]
fn grpc_integration_test_remove_node_success() {
    let mut state = fresh_state();
    register_wire(&mut state, make_node("node-1", NodeType::Entry, 1_000_000)).unwrap();
    state.remove_node("node-1", at(2)).unwrap();
    assert_eq!(state.get_all_nodes().count, 0);
}

#[test]
fn grpc_integration_test_remove_node_not_found() {
    let mut state = fresh_state();
    let e = state.remove_node("nonexistent", at(2)).unwrap_err();
    assert_eq!(e.status().0, StatusCode::NotFound);
}

#[test]
fn grpc_integration_test_get_stats() {
    let mut state = fresh_state();
    register_three_wire(&mut state);
    let stats = mini_tor::wire::WireStats::from_stats(&state.get_stats(at(2)));
    assert_eq!(stats.total_nodes, 3);
    assert_eq!(stats.entry_count, 1);
    assert_eq!(stats.middle_count, 1);
    assert_eq!(stats.exit_count, 1);
    let back = stats.to_stats();
    assert_eq!(back.total_nodes, 3);
    assert_eq!(back.oldest_node_age_secs, Some(1));
}

#[test]
fn grpc_integration_test_health_check_not_ready() {
    let health = fresh_state().health_check(at(2));
    assert_eq!(health.status, "ok");
    assert!(!health.ready);
    assert!(health.message.unwrap().contains("Insufficient"));
}

#[test]
fn grpc_integration_test_health_check_ready() {
    let mut state = fresh_state();
    register_three_wire(&mut state);
    let health = state.health_check(at(2));
    assert_eq!(health.status, "ok");
    assert!(health.ready);
    assert!(health.message.is_none());
}

#[test]
fn grpc_integration_test_readiness_check_not_ready() {
    let e = fresh_state().readiness_check().unwrap_err();
    assert_eq!(e.status().0, StatusCode::Unavailable);
}

#[test]
fn grpc_integration_test_readiness_check_ready() {
    let mut state = fresh_state();
    register_three_wire(&mut state);
    assert!(state.readiness_check().is_ok());
}

#[test]
fn grpc_integration_test_full_workflow() {
    let mut state = fresh_state();
    assert!(state.readiness_check().is_err());
    register_three_wire(&mut state);
    assert!(state.readiness_check().is_ok());
    assert_eq!(random(&mut state, Some(3)).unwrap().len(), 3);
    state.remove_node("exit-1", at(2)).unwrap();
    assert!(state.readiness_check().is_err());
    assert!(random(&mut state, Some(3)).is_err());
}

// ---- what requests leave behind ----

#[test]
fn requests_are_counted_and_logged() {
    let mut state = AppState::new(false, Some(DiscoveryMetrics::new(at(0))));
    register_three_nodes(&mut state);
    state
        .update_heartbeat("entry-1", NodeMetrics::default(), at(3))
        .unwrap();
    let mut draws = Draws::scripted(vec![0, 0, 0]);
    state
        .get_path(RandomPathQuery::new(Some(1)), &mut draws, at(4))
        .unwrap();
    state.remove_node("exit-1", at(5)).unwrap();
    state.remove_node("exit-1", at(6)).unwrap_err();
    assert_eq!(state.cleanup(120, at(122)), 1);
    let view = state.dashboard(at(130));
    assert_eq!(view.metrics.registrations, 3);
    assert_eq!(view.metrics.heartbeats, 1);
    assert_eq!(view.metrics.path_requests, 1);
    assert_eq!(view.metrics.removals, 1);
    assert_eq!(view.metrics.stale_cleaned, 1);
    assert_eq!(view.metrics.uptime_secs, 130);
    assert!(!view.ready);
    assert_eq!(view.nodes.len(), 1);
    assert_eq!(view.nodes[0].descriptor.node_id, "entry-1");
    assert!(view.nodes[0].metrics.is_some());
    let types: Vec<&str> = view.events.iter().map(|e| e.event_type.as_str()).collect();
    assert_eq!(
        types,
        ["cleanup", "remove", "path", "heartbeat", "register", "register", "register"]
    );
    assert_eq!(view.events[0].detail, "1 stale node(s) removed");
    assert_eq!(view.events[0].elapsed, at(122));
}

#[test]
fn a_dashboard_without_metrics_has_no_figures() {
    let mut state = fresh_state();
    register_three_nodes(&mut state);
    let view = state.dashboard(at(9));
    assert_eq!(view.nodes.len(), 3);
    assert!(view.ready);
    assert_eq!(view.metrics.registrations, 0);
    assert_eq!(view.metrics.uptime_secs, 0);
    assert!(view.events.is_empty());
    assert_eq!(view.stats.oldest_node_age_secs, Some(8));
}

#[test]
fn the_dashboard_shows_the_latest_events() {
    let mut metrics = DiscoveryMetrics::new(at(0));
    for i in 0..60 {
        metrics.push_event(at(i), EventKind::PathRequested);
    }
    let view = AppState::new(false, Some(metrics)).dashboard(at(60));
    assert_eq!(view.events.len(), 50);
    assert_eq!(view.events[0].elapsed, at(59));
    assert_eq!(view.events[49].elapsed, at(10));
}

fn event(kind: EventKind) -> TuiEvent<EventKind> {
    TuiEvent {
        elapsed: at(3725),
        kind,
    }
}

#[test]
fn events_read_on_both_dashboards() {
    let registered = EventKind::NodeRegistered {
        node_id: "n1".to_string(),
        node_type: "exit".to_string(),
        address: "1.2.3.4:5".to_string(),
    };
    let entry = event_to_entry(&event(registered));
    assert_eq!(entry.event_type, "register");
    assert_eq!(entry.label, "+ REGISTER");
    assert_eq!(entry.detail, "exit n1 @ 1.2.3.4:5");
    let cases = [
        (EventKind::NodeRemoved { node_id: "n".to_string() }, "remove", "- REMOVE", "n"),
        (EventKind::Heartbeat { node_id: "n".to_string() }, "heartbeat", "♥ HEARTBEAT", "n"),
        (EventKind::PathRequested, "path", "→ PATH", "random 3-hop path requested"),
        (EventKind::StaleCleanup { removed: 2 }, "cleanup", "✗ CLEANUP", "2 stale node(s) removed"),
        (EventKind::StatsQueried, "stats", "ℹ STATS", "stats queried"),
        (EventKind::HealthCheck { ready: true }, "health", "ℹ HEALTH", "check: ready"),
        (EventKind::HealthCheck { ready: false }, "health", "ℹ HEALTH", "check: NOT ready"),
        (EventKind::Error { message: "m".to_string() }, "error", "✗ ERROR", "m"),
    ];
    for (kind, event_type, label, detail) in cases {
        let e = event(kind);
        let entry = event_to_entry(&e);
        assert_eq!(entry.event_type, event_type);
        assert_eq!(entry.label, label);
        assert_eq!(entry.detail, detail);
        let line = format_event(&e);
        assert_eq!(line.time.text, " +1:02:05 ");
        assert_eq!(line.time.tint, Tint::DarkGray);
        assert_eq!(line.label.text.trim_end(), label);
        assert_eq!(line.detail.text, detail);
        assert_eq!(line.detail.tint == Tint::Red, event_type == "error");
    }
    let mut metrics = DiscoveryMetrics::new(at(0));
    metrics.push_event(at(1), EventKind::StatsQueried);
    metrics.push_event(at(2), EventKind::PathRequested);
    let lines = collect_event_lines(&metrics);
    assert_eq!(lines.len(), 2);
    assert_eq!(lines[1].label.text, "→ PATH      ");
    assert!(lines[1].label.bold);
}

#[test]
fn the_terminal_dashboard() {
    let mut metrics = DiscoveryMetrics::new(at(0));
    metrics.registrations = 4;
    let mut state = fresh_state();
    register_three_nodes(&mut state);
    let stats = state.get_stats(at(2));
    assert_eq!(
        build_header(&metrics, "0.0.0.0:8080", true, &stats, at(150)),
        " DISCOVERY  |  0.0.0.0:8080  |  Up: 2m30s  |  Ready: YES  |  Nodes: 3 (E:1 M:1 X:1)  |  \
         Regs: 4  HBs: 0  Paths: 0  Cleaned: 0"
    );
    assert_eq!(dashboard_title(false), " Discovery Dashboard [✗] ");
    assert_eq!(nodes_title(7), " Node Registry (7 nodes) ");
    assert_eq!(log_title(7), " Activity Log (7 events) ");
    let mut node = make_node("0123456789abcdef", NodeType::Exit, 1_048_576);
    let row = node_row(&node, "h:1".to_string());
    assert_eq!(row.node_id, "0123456789ab..");
    assert_eq!(row.node_type, "exit");
    assert_eq!(row.bandwidth, "1.0 MB");
    node.node_id = "short".to_string();
    assert_eq!(node_row(&node, String::new()).node_id, "short");
    assert_eq!(type_tint("Entry"), Tint::Green);
    assert_eq!(type_tint("entry"), Tint::White);
    assert_eq!(first_visible(10, 6), 6);
    assert_eq!(first_visible(3, 6), 0);
    assert_eq!(first_visible(3, 1), 3);
    assert!(quits('q', false) && quits('c', true) && !quits('c', false));
}

#[test]
fn identifiers_are_cut_between_characters() {
    assert_eq!(truncate_id("abcdef", 4), "abcd..");
    assert_eq!(truncate_id("abcd", 4), "abcd");
    assert_eq!(truncate_id("aéb", 2), "aéb..");
    assert_eq!(truncate_id("aéb", 3), "aé..");
}

#[test]
fn files_of_the_web_dashboard() {
    assert_eq!(asset_path("/"), "index.html");
    assert_eq!(asset_path(""), "index.html");
    assert_eq!(asset_path("//a/b.js"), "a/b.js");
    for (path, mime) in [
        ("index.html", "text/html; charset=utf-8"),
        ("a.b.js", "application/javascript"),
        ("m.mjs", "application/javascript"),
        ("x.wasm", "application/wasm"),
        ("style.css", "text/css"),
        ("p.png", "image/png"),
        ("favicon.ico", "image/x-icon"),
        ("i.svg", "image/svg+xml"),
        ("archive.tar", "application/octet-stream"),
        ("css", "text/css"),
        ("dot.", "application/octet-stream"),
    ] {
        assert_eq!(mime_for_path(path), mime);
    }
}

#[test]
fn refusals_have_a_status() {
    let status = |e: RegistryError| e.status();
    assert_eq!(
        status(RegistryError::NodeNotFound("n".to_string())).0,
        StatusCode::NotFound
    );
    assert_eq!(
        status(RegistryError::NodeAlreadyExists("n".to_string())).0,
        StatusCode::AlreadyExists
    );
    assert_eq!(
        status(RegistryError::InvalidNode("n".to_string())).0,
        StatusCode::InvalidArgument
    );
    assert_eq!(
        RegistryError::InvalidNode("n".to_string()).to_string(),
        "Invalid node data: n"
    );
    assert_eq!(
        RegistryError::NodeAlreadyExists("n".to_string()).to_string(),
        "Node already registered: n"
    );
}
