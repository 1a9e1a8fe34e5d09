use mini_tor::net::{IpAddr, SocketAddr};
use mini_tor::types::{ExitPolicy, NodeDescriptor, NodeMetrics, NodeType, PublicKey};

fn addr(a: u8, b: u8, c: u8, d: u8, port: u16) -> SocketAddr {
    SocketAddr::new(IpAddr::v4(a, b, c, d), port)
}

#[test]
fn test_node_type_display() {
    assert_eq!(NodeType::Entry.to_string(), "entry");
    assert_eq!(NodeType::Middle.to_string(), "middle");
    assert_eq!(NodeType::Exit.to_string(), "exit");
}

#[test]
fn test_node_type_from_str() {
    assert_eq!(NodeType::from_str("entry").unwrap(), NodeType::Entry);
    assert_eq!(NodeType::from_str("MIDDLE").unwrap(), NodeType::Middle);
    assert!(NodeType::from_str("invalid").is_err());
}

#[test]
fn node_type_names_in_any_case() {
    assert_eq!(NodeType::from_str("eXiT").unwrap(), NodeType::Exit);
    assert_eq!(
        NodeType::from_str("Guard").unwrap_err(),
        "Invalid node type: Guard"
    );
    assert!(NodeType::from_str("entry ").is_err());
    for t in [NodeType::Entry, NodeType::Middle, NodeType::Exit] {
        assert_eq!(NodeType::from_str(&t.to_string()).unwrap(), t);
    }
}

#[test]
fn test_exit_policy_allows() {
    let policy = ExitPolicy::default_policy();

    let http_addr = addr(93, 184, 216, 34, 80);
    assert!(policy.allows(&http_addr));

    let https_addr = addr(93, 184, 216, 34, 443);
    assert!(policy.allows(&https_addr));

    let smtp_addr = addr(93, 184, 216, 34, 25);
    assert!(!policy.allows(&smtp_addr));
}

#[test]
fn test_exit_policy_ip_filtering() {
    let mut policy = ExitPolicy::default_policy();
    let blocked_ip: IpAddr = IpAddr::v4(192, 168, 1, 1);
    policy.blocked_ips.push(blocked_ip);

    let blocked_addr = addr(192, 168, 1, 1, 80);
    assert!(!policy.allows(&blocked_addr));

    let allowed_addr = addr(93, 184, 216, 34, 80);
    assert!(policy.allows(&allowed_addr));
}

#[test]
fn test_exit_policy_allowed_ips() {
    let mut policy = ExitPolicy::default_policy();
    let allowed_ip: IpAddr = IpAddr::v4(1, 1, 1, 1);
    policy.allowed_ips.push(allowed_ip);

    let allowed_addr = addr(1, 1, 1, 1, 443);
    assert!(policy.allows(&allowed_addr));

    let disallowed_addr = addr(8, 8, 8, 8, 443);
    assert!(!policy.allows(&disallowed_addr));
}

#[test]
fn permissive_policy_allows_everything_but_what_is_added() {
    let mut policy = ExitPolicy::allow_all();
    assert!(policy.allows(&addr(10, 0, 0, 1, 25)));
    policy.blocked_ports.push(25);
    assert!(!policy.allows(&addr(10, 0, 0, 1, 25)));
    assert!(policy.clone().allows(&addr(10, 0, 0, 1, 26)));
}

#[test]
fn test_public_key_hex() {
    let bytes = [1u8; 32];
    let pk = PublicKey::new(bytes);
    let hex = pk.to_hex();
    assert_eq!(hex.len(), 64);

    let pk2 = PublicKey::from_hex(&hex).unwrap();
    assert_eq!(pk, pk2);
}

#[test]
fn public_key_hex_digits() {
    let mut bytes = [0u8; 32];
    bytes[0] = 0xAB;
    bytes[1] = 0x09;
    bytes[31] = 0xF0;
    let pk = PublicKey::new(bytes);
    assert!(pk.to_hex().starts_with("ab0900"));
    assert!(pk.to_hex().ends_with("00f0"));
    assert_eq!(pk.to_string(), "ab09000000000000");
    assert_eq!(PublicKey::from_hex(&pk.to_hex().to_uppercase()).unwrap(), pk);
    assert_eq!(pk.as_bytes(), &bytes);
}

#[test]
fn public_key_hex_refusals() {
    assert_eq!(
        PublicKey::from_hex("ab").unwrap_err(),
        "Hex string must be 64 characters (32 bytes)"
    );
    let mut text = "0".repeat(64);
    text.replace_range(10..11, "g");
    assert_eq!(
        PublicKey::from_hex(&text).unwrap_err(),
        "Invalid hex: invalid digit found in string"
    );
    text.replace_range(10..11, "+");
    assert!(PublicKey::from_hex(&text).is_err());
    let split = format!("0{}{}", "\u{e9}", "0".repeat(61));
    assert_eq!(split.len(), 64);
    assert_eq!(
        PublicKey::from_hex(&split).unwrap_err(),
        "Invalid hex slice at position 0"
    );
    let aligned = format!("{}{}", "\u{e9}", "0".repeat(62));
    assert_eq!(
        PublicKey::from_hex(&aligned).unwrap_err(),
        "Invalid hex: invalid digit found in string"
    );
}

#[test]
fn descriptor_defaults_and_copies() {
    let node = NodeDescriptor::new(
        "node-1".to_string(),
        NodeType::Entry,
        addr(127, 0, 0, 1, 9001),
        PublicKey::new([0u8; 32]),
        1_000_000,
        Some(ExitPolicy::default_policy()),
    );
    assert_eq!(node.operator_id, None);
    assert_eq!(node.tls_cert_fingerprint, "");
    let copy = node.clone();
    assert_eq!(copy.node_id, "node-1");
    assert_eq!(copy.address, node.address);
    assert_eq!(copy.exit_policy.unwrap().allowed_ports, vec![80, 443, 8080, 8443]);
}

#[test]
fn metrics_start_at_zero() {
    let mut metrics = NodeMetrics::default();
    assert_eq!(metrics.connections_accepted, 0);
    assert!(metrics.event_snapshot.is_empty());
    metrics.event_snapshot.push("one".to_string());
    metrics.uptime_secs = 5;
    let copy = metrics.clone();
    assert_eq!(copy.event_snapshot, vec!["one".to_string()]);
    assert_eq!(copy.uptime_secs, 5);
}

#[test]
fn loopback_addresses() {
    assert!(IpAddr::v4(127, 0, 0, 1).is_loopback());
    assert!(IpAddr::v4(127, 255, 1, 2).is_loopback());
    assert!(!IpAddr::v4(128, 0, 0, 1).is_loopback());
    assert!(IpAddr::V6(1).is_loopback());
    assert!(!IpAddr::V6(2).is_loopback());
}

#[test]
fn a_key_is_written_in_lower_case() {
    let mixed = "00fF9aAb".repeat(8);
    assert_eq!(
        PublicKey::from_hex(&mixed).unwrap().to_hex(),
        mixed.to_ascii_lowercase()
    );
}
