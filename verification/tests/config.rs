use mini_tor::client::config::{
    needs_confirmation, parse_hop_count, parse_rebuild_attempts, ClientOptions, TorClientConfig,
    MAX_HOPS,
};
use mini_tor::client::wizard as client_wizard;
use mini_tor::display::Tint;
use mini_tor::form::{show_status, FormKey};
use mini_tor::net::{IpAddr, SocketAddr};
use mini_tor::relay::config::{parse_node_type, RelayConfig};
use mini_tor::relay::wizard as relay_wizard;
use mini_tor::types::NodeType;

// ---- the relay ----

#[test]
fn test_parse_node_type() {
    assert_eq!(parse_node_type("entry").ok(), Some(NodeType::Entry));
    assert_eq!(parse_node_type("middle").ok(), Some(NodeType::Middle));
    assert_eq!(parse_node_type("exit").ok(), Some(NodeType::Exit));
    assert_eq!(parse_node_type("ENTRY").ok(), Some(NodeType::Entry));
    assert!(parse_node_type("invalid").is_err());
    assert_eq!(
        parse_node_type("Guard").unwrap_err(),
        "Invalid node type: 'Guard'. Must be 'entry', 'middle', or 'exit'"
    );
}

fn relay_config(node_type: NodeType) -> RelayConfig {
    RelayConfig {
        node_type: Some(node_type),
        port: 9001,
        host: "127.0.0.1".to_string(),
        directory_url: "http://localhost:8080".to_string(),
        bandwidth: 1048576,
        heartbeat_interval: 60,
        exit_allow_all: false,
        tui: false,
        operator_id: None,
        ..RelayConfig::default()
    }
}

#[test]
fn test_bind_addr() {
    let config = relay_config(NodeType::Entry);
    let ip = IpAddr::v4(127, 0, 0, 1);
    let addr = config.bind_addr(Ok(ip)).ok();
    assert_eq!(addr, Some(SocketAddr::new(ip, 9001)));
    let refused = config.bind_addr(Err("invalid IP address syntax".to_string()));
    assert_eq!(refused.unwrap_err(), "invalid IP address syntax");
}

#[test]
fn test_exit_policy_for_exit_node() {
    let policy = relay_config(NodeType::Exit).exit_policy();
    assert!(policy.is_some());
    let policy = policy.unwrap();
    assert_eq!(policy.allowed_ports, [80, 443, 8080, 8443]);
    assert_eq!(policy.blocked_ports, [25, 465, 587]);
    assert!(policy.allowed_ips.is_empty());
    assert_eq!(policy.blocked_ips.len(), 4);
    let web = SocketAddr::new(IpAddr::v4(93, 184, 216, 34), 80);
    assert!(policy.allows(&web));
    let mail = SocketAddr::new(IpAddr::v4(93, 184, 216, 34), 25);
    assert!(!policy.allows(&mail));
    for ip in [
        IpAddr::v4(127, 0, 0, 1),
        IpAddr::v4(10, 0, 0, 0),
        IpAddr::v4(172, 16, 0, 0),
        IpAddr::v4(192, 168, 0, 0),
    ] {
        assert!(!policy.allows(&SocketAddr::new(ip, 80)));
    }
}

#[test]
fn test_no_exit_policy_for_non_exit() {
    assert!(relay_config(NodeType::Middle).exit_policy().is_none());
}

#[test]
fn an_exit_can_allow_everything() {
    let mut config = relay_config(NodeType::Exit);
    config.exit_allow_all = true;
    let policy = config.exit_policy().unwrap();
    assert!(policy.allows(&SocketAddr::new(IpAddr::v4(127, 0, 0, 1), 25)));
    config.node_type = None;
    assert!(config.exit_policy().is_none());
}

fn make_default_config() -> RelayConfig {
    RelayConfig {
        node_type: None,
        port: 9001,
        host: "127.0.0.1".to_string(),
        directory_url: "http://localhost:8080".to_string(),
        bandwidth: 1048576,
        heartbeat_interval: 60,
        exit_allow_all: false,
        tui: true,
        bind_host: "0.0.0.0".to_string(),
        operator_id: None,
    }
}

/// Whether a text is four numbers below 256 with dots between them.
fn is_ip(host: &str) -> bool {
    let octets: Vec<&str> = host.split('.').collect();
    octets.len() == 4 && octets.iter().all(|o| o.parse::<u8>().is_ok())
}

fn validate(state: &mut relay_wizard::WizardState) -> Option<RelayConfig> {
    let host_ok = is_ip(&state.host);
    state.validate(host_ok)
}

fn relay_form() -> relay_wizard::WizardState {
    relay_wizard::WizardState::new(&make_default_config())
}

#[test]
fn test_validate_valid_entry_config() {
    let mut state = relay_form();
    state.node_type_idx = 0;
    let config = validate(&mut state).unwrap();
    assert_eq!(config.node_type, Some(NodeType::Entry));
    assert_eq!(config.port, 9001);
    assert!(config.tui);
}

#[test]
fn test_validate_valid_exit_config() {
    let mut state = relay_form();
    state.node_type_idx = 2;
    state.exit_allow_all = true;
    let config = validate(&mut state).unwrap();
    assert_eq!(config.node_type, Some(NodeType::Exit));
    assert!(config.exit_allow_all);
}

#[test]
fn test_validate_invalid_port() {
    let mut state = relay_form();
    state.port = "0".to_string();
    assert!(validate(&mut state).is_none());
    assert!(state.error.is_some());
    assert_eq!(state.error.unwrap(), "Port must be 1–65535");
}

#[test]
fn test_validate_empty_port() {
    let mut state = relay_form();
    state.port = String::new();
    assert!(validate(&mut state).is_none());
    assert!(state.error.is_some());
}

#[test]
fn test_validate_invalid_host() {
    let mut state = relay_form();
    state.host = "not-an-ip".to_string();
    assert!(validate(&mut state).is_none());
    assert!(state.error.is_some());
    assert_eq!(state.error.unwrap(), "Host must be a valid IP address");
}

#[test]
fn mod_test_validate_invalid_directory_url() {
    let mut state = relay_form();
    state.directory_url = "ftp://bad".to_string();
    assert!(validate(&mut state).is_none());
    assert!(state.error.is_some());
    assert_eq!(
        state.error.unwrap(),
        "Directory URL must start with http:// or https://"
    );
}

#[test]
fn test_validate_zero_bandwidth() {
    let mut state = relay_form();
    state.bandwidth = "0".to_string();
    assert!(validate(&mut state).is_none());
    assert!(state.error.is_some());
    assert_eq!(state.error.unwrap(), "Bandwidth must be > 0");
}

#[test]
fn test_validate_zero_heartbeat() {
    let mut state = relay_form();
    state.heartbeat = "0".to_string();
    assert!(validate(&mut state).is_none());
    assert!(state.error.is_some());
    assert_eq!(state.error.unwrap(), "Heartbeat must be > 0");
}

#[test]
fn test_validate_empty_operator_id_becomes_none() {
    let mut state = relay_form();
    state.operator_id = String::new();
    let config = validate(&mut state).unwrap();
    assert!(config.operator_id.is_none());
}

#[test]
fn test_validate_operator_id_set() {
    let mut state = relay_form();
    state.operator_id = "alice".to_string();
    let config = validate(&mut state).unwrap();
    assert_eq!(config.operator_id, Some("alice".to_string()));
}

#[test]
fn test_active_fields_include_exit_allow_all_only_for_exit() {
    let mut state = relay_form();
    state.node_type_idx = 0;
    assert!(!state.active_fields().contains(&relay_wizard::Field::ExitAllowAll));
    state.node_type_idx = 2;
    assert!(state.active_fields().contains(&relay_wizard::Field::ExitAllowAll));
}

#[test]
fn mod_test_navigation_up_down() {
    let mut state = relay_form();
    assert_eq!(state.focused, 0);
    state.down();
    assert_eq!(state.focused, 1);
    state.up();
    assert_eq!(state.focused, 0);
}

#[test]
fn test_selector_left_right_node_type() {
    let mut state = relay_form();
    state.focused = 0;
    assert_eq!(state.node_type_idx, 0);
    state.right();
    assert_eq!(state.node_type_idx, 1);
    state.left();
    assert_eq!(state.node_type_idx, 0);
}

#[test]
fn the_relay_form_by_its_keys() {
    let mut state = relay_form();
    state.press(FormKey::Up, true);
    assert_eq!(state.focused, 0);
    for _ in 0..5 {
        state.press(FormKey::Right, true);
    }
    assert_eq!(state.node_type_idx, 2);
    // Nothing is typed into a choice.
    state.press(FormKey::Char('x'), true);
    state.press(FormKey::Down, true);
    state.press(FormKey::Backspace, true);
    state.press(FormKey::Char('2'), true);
    assert_eq!(state.port, "9002");
    for _ in 0..20 {
        state.press(FormKey::Down, true);
    }
    assert_eq!(state.focused, 7);
    state.press(FormKey::Char('b'), true);
    state.press(FormKey::Up, true);
    state.press(FormKey::Right, true);
    assert!(state.exit_allow_all);
    state.press(FormKey::Left, true);
    assert!(!state.exit_allow_all);
    assert!(matches!(state.press(FormKey::Other, true), relay_wizard::FormStep::Stay));
    assert!(matches!(state.press(FormKey::Escape, true), relay_wizard::FormStep::Quit));
    assert!(matches!(state.press(FormKey::Enter, false), relay_wizard::FormStep::Stay));
    assert!(state.error.is_some());
    match state.press(FormKey::Enter, true) {
        relay_wizard::FormStep::Launch(config) => {
            assert_eq!(config.node_type, Some(NodeType::Exit));
            assert_eq!(config.port, 9002);
            assert_eq!(config.operator_id.as_deref(), Some("b"));
            assert_eq!(config.bind_host, "0.0.0.0");
        }
        other => panic!("{:?}", other),
    }
    state.node_type_idx = 3;
    assert!(state.validate(true).is_none());
    assert_eq!(state.error.as_deref(), Some("Node type is required"));
}

#[test]
fn the_rows_of_the_relay_form() {
    let mut state = relay_form();
    state.node_type_idx = 2;
    let rows = state.show_rows();
    assert_eq!(rows.len(), 8);
    let texts: Vec<&str> = rows[0].iter().map(|s| s.text.as_str()).collect();
    assert_eq!(texts, ["▶ ", "Node Type       ", "◄  Exit  ►"]);
    assert!(rows[0][0].bold && rows[0][2].bold);
    assert_eq!(rows[0][2].tint, Tint::Cyan);
    let texts: Vec<&str> = rows[1].iter().map(|s| s.text.as_str()).collect();
    assert_eq!(texts, ["  ", "Port            ", "9001", ""]);
    assert!(!rows[1][1].bold);
    assert_eq!(rows[6][2].text, "◄  No  ►");
    state.focused = 1;
    let rows = state.show_rows();
    assert_eq!(rows[1][3].text, "█");
    assert_eq!(rows[1][2].tint, Tint::Yellow);
    let status = show_status(&None);
    assert_eq!(status[0].text, "✓ ");
    assert_eq!(status[1].text, "Ready");
    let status = show_status(&Some("wrong".to_string()));
    assert_eq!(status[0].text, "✗ ");
    assert_eq!(status[1].text, "wrong");
    assert_eq!(status[1].tint, Tint::Red);
}

#[test]
fn valid_relay_settings_pass_the_form() {
    let mut config = relay_config(NodeType::Exit);
    config.exit_allow_all = true;
    config.operator_id = Some("alice".to_string());
    config.bandwidth = u64::MAX;
    let out = relay_wizard::WizardState::new(&config).validate(true).unwrap();
    assert_eq!(out.node_type, config.node_type);
    assert_eq!(out.bandwidth, u64::MAX);
    assert_eq!(out.heartbeat_interval, 60);
    assert!(out.exit_allow_all);
    assert_eq!(out.operator_id, config.operator_id);
    config.node_type = Some(NodeType::Middle);
    let out = relay_wizard::WizardState::new(&config).validate(true).unwrap();
    assert!(!out.exit_allow_all);
}

// ---- the client ----

fn try_parse_from(args: &[&str]) -> Result<TorClientConfig, String> {
    let mut options = ClientOptions {
        socks_addr: None,
        directory_url: None,
        pool_size: None,
        hops: None,
        tui: false,
        max_rebuild_attempts: None,
    };
    let mut i = 1;
    while i < args.len() {
        let value = args[i + 1].to_string();
        match args[i] {
            "--socks-addr" => options.socks_addr = Some(value),
            "--directory-url" => options.directory_url = Some(value),
            "--pool-size" => options.pool_size = Some(value.parse().unwrap()),
            "--hops" => options.hops = Some(value),
            "--max-rebuild-attempts" => options.max_rebuild_attempts = Some(value),
            other => panic!("{}", other),
        }
        i += 2;
    }
    TorClientConfig::from_options(options)
}

fn parse_from(args: &[&str]) -> TorClientConfig {
    try_parse_from(args).unwrap()
}

#[test]
fn test_default_socks_addr() {
    let config = parse_from(&["tor-client"]);
    assert_eq!(config.socks_addr, "127.0.0.1:1080");
}

#[test]
fn test_default_directory_url() {
    let config = parse_from(&["tor-client"]);
    assert_eq!(config.directory_url, "http://localhost:8080");
}

#[test]
fn test_default_pool_size() {
    let config = parse_from(&["tor-client"]);
    assert_eq!(config.pool_size, 3);
}

#[test]
fn test_custom_pool_size() {
    let config = parse_from(&["tor-client", "--pool-size", "5"]);
    assert_eq!(config.pool_size, 5);
}

#[test]
fn test_custom_socks_addr() {
    let config = parse_from(&["tor-client", "--socks-addr", "0.0.0.0:9050"]);
    assert_eq!(config.socks_addr, "0.0.0.0:9050");
}

#[test]
fn test_custom_directory_url() {
    let config = parse_from(&["tor-client", "--directory-url", "http://192.168.1.100:8080"]);
    assert_eq!(config.directory_url, "http://192.168.1.100:8080");
}

#[test]
fn test_default_hops() {
    let config = parse_from(&["tor-client"]);
    assert_eq!(config.hops, 3);
}

#[test]
fn test_custom_hops() {
    let config = parse_from(&["tor-client", "--hops", "5"]);
    assert_eq!(config.hops, 5);
}

#[test]
fn test_hops_below_minimum_rejected() {
    let result = try_parse_from(&["tor-client", "--hops", "2"]);
    assert!(result.is_err(), "hops=2 should be rejected");
}

#[test]
fn test_hops_1_rejected() {
    let result = try_parse_from(&["tor-client", "--hops", "1"]);
    assert!(result.is_err(), "hops=1 should be rejected");
}

#[test]
fn test_hops_0_rejected() {
    let result = try_parse_from(&["tor-client", "--hops", "0"]);
    assert!(result.is_err(), "hops=0 should be rejected");
}

#[test]
fn test_hops_max_accepted() {
    let config = parse_from(&["tor-client", "--hops", "10"]);
    assert_eq!(config.hops, 10);
}

#[test]
fn test_hops_above_max_rejected() {
    let result = try_parse_from(&["tor-client", "--hops", "11"]);
    assert!(result.is_err(), "hops=11 should be rejected (max is 10)");
}

#[test]
fn test_default_max_rebuild_attempts() {
    let config = parse_from(&["tor-client"]);
    assert_eq!(config.max_rebuild_attempts, 3);
}

#[test]
fn test_custom_max_rebuild_attempts() {
    let config = parse_from(&["tor-client", "--max-rebuild-attempts", "5"]);
    assert_eq!(config.max_rebuild_attempts, 5);
}

#[test]
fn test_max_rebuild_attempts_zero_rejected() {
    let result = try_parse_from(&["tor-client", "--max-rebuild-attempts", "0"]);
    assert!(result.is_err(), "max-rebuild-attempts=0 should be rejected");
}

#[test]
fn numbers_on_the_command_line() {
    assert_eq!(parse_hop_count("+7"), Ok(7));
    assert_eq!(parse_hop_count("007"), Ok(7));
    assert_eq!(parse_hop_count("-7"), Err("'-7' is not a valid integer".to_string()));
    assert_eq!(parse_hop_count(""), Err("'' is not a valid integer".to_string()));
    assert_eq!(parse_hop_count("+"), Err("'+' is not a valid integer".to_string()));
    assert_eq!(
        parse_hop_count("99999999999999999999"),
        Err("'99999999999999999999' is not a valid integer".to_string())
    );
    assert_eq!(
        parse_hop_count("2"),
        Err("hops must be >= 3 (1 entry + N-2 middles + 1 exit), got 2".to_string())
    );
    assert_eq!(
        parse_hop_count("11"),
        Err("hops must be <= 10 (maximum circuit size), got 11".to_string())
    );
    assert_eq!(
        parse_rebuild_attempts("0"),
        Err("max-rebuild-attempts must be >= 1, got 0".to_string())
    );
    assert_eq!(
        parse_rebuild_attempts("x"),
        Err("'x' is not a valid integer".to_string())
    );
    assert_eq!(parse_rebuild_attempts("18446744073709551615"), Ok(usize::MAX));
    assert!(needs_confirmation(MAX_HOPS));
    assert!(!needs_confirmation(9));
}

/// Whether a text is an IPv4 address and a port.
fn is_socket_addr(text: &str) -> bool {
    match text.split_once(':') {
        Some((host, port)) => is_ip(host) && port.parse::<u16>().is_ok(),
        None => false,
    }
}

fn client_form() -> client_wizard::WizardState {
    client_wizard::WizardState::new(&parse_from(&["tor-client"]))
}

fn send(state: &mut client_wizard::WizardState) -> Option<TorClientConfig> {
    let address_ok = is_socket_addr(&state.socks_addr);
    state.validate(address_ok)
}

#[test]
fn test_validate_valid_config() {
    let mut state = client_form();
    let config = send(&mut state).unwrap();
    assert_eq!(config.socks_addr, "127.0.0.1:1080");
    assert_eq!(config.hops, 3);
    assert!(config.tui);
}

#[test]
fn test_validate_valid_custom_hops() {
    let mut state = client_form();
    state.hops = "5".to_string();
    let config = send(&mut state).unwrap();
    assert_eq!(config.hops, 5);
}

#[test]
fn test_validate_invalid_socks_addr() {
    let mut state = client_form();
    state.socks_addr = "not-an-address".to_string();
    assert!(send(&mut state).is_none());
    assert!(state.error.is_some());
    assert_eq!(
        state.error.unwrap(),
        "SOCKS address must be a valid host:port (e.g. 127.0.0.1:1080)"
    );
}

#[test]
fn test_validate_invalid_directory_url() {
    let mut state = client_form();
    state.directory_url = "ftp://bad".to_string();
    assert!(send(&mut state).is_none());
    assert!(state.error.is_some());
}

#[test]
fn test_validate_zero_pool_size() {
    let mut state = client_form();
    state.pool_size = "0".to_string();
    assert!(send(&mut state).is_none());
    assert!(state.error.is_some());
    assert_eq!(state.error.unwrap(), "Pool size must be > 0");
}

#[test]
fn test_validate_hops_below_minimum() {
    let mut state = client_form();
    state.hops = "2".to_string();
    assert!(send(&mut state).is_none());
    assert!(state.error.is_some());
    assert_eq!(state.error.unwrap(), "Hops must be >= 3, got 2");
}

#[test]
fn test_validate_hops_above_maximum() {
    let mut state = client_form();
    state.hops = "11".to_string();
    assert!(send(&mut state).is_none());
    assert!(state.error.is_some());
    assert_eq!(state.error.take().unwrap(), "Hops must be <= 10, got 11");
    state.hops = "many".to_string();
    assert!(send(&mut state).is_none());
    assert_eq!(state.error.unwrap(), "Hops must be 3–10");
}

#[test]
fn test_validate_zero_rebuild_attempts() {
    let mut state = client_form();
    state.max_rebuild_attempts = "0".to_string();
    assert!(send(&mut state).is_none());
    assert!(state.error.is_some());
    assert_eq!(state.error.unwrap(), "Max rebuild attempts must be >= 1");
}

#[test]
fn test_navigation_up_down() {
    let mut state = client_form();
    assert_eq!(state.focused, 0);
    state.down();
    assert_eq!(state.focused, 1);
    state.up();
    assert_eq!(state.focused, 0);
}

#[test]
fn test_validate_sets_tui_flag() {
    let mut state = client_form();
    let config = send(&mut state).unwrap();
    assert!(config.tui);
}

#[test]
fn the_client_form_by_its_keys() {
    let mut state = client_form();
    for _ in 0..9 {
        state.press(FormKey::Down, true);
    }
    assert_eq!(state.focused, 4);
    assert_eq!(state.current(), Some(client_wizard::Field::MaxRebuildAttempts));
    state.press(FormKey::Char('0'), true);
    assert_eq!(state.max_rebuild_attempts, "30");
    state.press(FormKey::Backspace, true);
    state.press(FormKey::Backspace, true);
    state.press(FormKey::Backspace, true);
    assert_eq!(state.max_rebuild_attempts, "");
    assert!(matches!(state.press(FormKey::Enter, true), client_wizard::FormStep::Stay));
    assert!(state.error.is_some());
    state.press(FormKey::Char('7'), true);
    assert!(state.error.is_none());
    assert!(matches!(state.press(FormKey::Left, true), client_wizard::FormStep::Stay));
    match state.press(FormKey::Enter, true) {
        client_wizard::FormStep::Launch(config) => assert_eq!(config.max_rebuild_attempts, 7),
        other => panic!("{:?}", other),
    }
    assert!(matches!(state.press(FormKey::Escape, true), client_wizard::FormStep::Quit));
    let rows = state.show_rows();
    assert_eq!(rows.len(), 5);
    let texts: Vec<&str> = rows[0].iter().map(|s| s.text.as_str()).collect();
    assert_eq!(texts, ["  ", "SOCKS Address       ", "127.0.0.1:1080", ""]);
    assert_eq!(rows[4][3].text, "█");
}
