use mini_tor::net::{IpAddr, SocketAddr};
use mini_tor::types::{ExitPolicy, NodeDescriptor, NodeMetrics, NodeType, PublicKey};
use mini_tor::wire::{
    ip_from_bytes, ip_to_bytes, key_from_bytes, key_to_bytes, required_metrics, WireDescriptor,
    WireExitPolicy, WireMetrics, WireNodeType, WireStats,
};

#[test]
fn node_types_in_messages() {
    for t in [NodeType::Entry, NodeType::Middle, NodeType::Exit] {
        assert_eq!(WireNodeType::from_node_type(t).to_node_type(), Ok(t));
    }
    assert_eq!(
        WireNodeType::Unspecified.to_node_type(),
        Err("NodeType unspecified".to_string())
    );
}

#[test]
fn keys_in_messages() {
    let key = PublicKey::new([7u8; 32]);
    let bytes = key_to_bytes(&key);
    assert_eq!(bytes, vec![7u8; 32]);
    assert_eq!(key_from_bytes(&bytes).unwrap().bytes, key.bytes);
    for n in [0, 31, 33] {
        assert_eq!(
            key_from_bytes(&vec![7u8; n]).unwrap_err(),
            "PublicKey must be exactly 32 bytes"
        );
    }
}

#[test]
fn addresses_in_messages() {
    let v4 = IpAddr::v4(192, 168, 1, 2);
    assert_eq!(ip_to_bytes(&v4), [192, 168, 1, 2]);
    assert_eq!(ip_from_bytes(&[192, 168, 1, 2]), Ok(v4));
    let v6 = IpAddr::V6(0x2001_0db8_0000_0000_0000_0000_0000_00ff);
    let bytes = ip_to_bytes(&v6);
    assert_eq!(bytes, [0x20, 0x01, 0x0d, 0xb8, 0, 0, 0, 0, 0, 0, 0, 0, 0, 0, 0, 0xff]);
    assert_eq!(ip_from_bytes(&bytes), Ok(v6));
    let top = IpAddr::V6(u128::MAX);
    assert_eq!(ip_from_bytes(&ip_to_bytes(&top)), Ok(top));
    assert_eq!(ip_from_bytes(&[1, 2, 3]), Err("Invalid IP byte length: 3".to_string()));
}

fn policy() -> ExitPolicy {
    ExitPolicy {
        allowed_ports: vec![80, 65535],
        blocked_ports: vec![25],
        allowed_ips: vec![IpAddr::v4(1, 2, 3, 4)],
        blocked_ips: vec![IpAddr::V6(1), IpAddr::v4(5, 6, 7, 8)],
    }
}

#[test]
fn policies_in_messages() {
    let message = WireExitPolicy::from_policy(&policy());
    assert_eq!(message.allowed_ports, [80, 65535]);
    let back = message.to_policy().unwrap();
    assert_eq!(back.allowed_ports, policy().allowed_ports);
    assert_eq!(back.blocked_ips, policy().blocked_ips);
    let odd = WireExitPolicy {
        allowed_ports: vec![65536 + 80],
        blocked_ports: vec![],
        allowed_ips: vec![],
        blocked_ips: vec![],
    };
    assert_eq!(odd.to_policy().unwrap().allowed_ports, [80]);
    let bad = WireExitPolicy {
        allowed_ports: vec![],
        blocked_ports: vec![],
        allowed_ips: vec![vec![1, 2, 3, 4], vec![], vec![1]],
        blocked_ips: vec![vec![1; 5]],
    };
    assert_eq!(bad.to_policy().unwrap_err(), "Invalid IP byte length: 0");
}

fn node() -> NodeDescriptor {
    let mut n = NodeDescriptor::new(
        "n".to_string(),
        NodeType::Exit,
        SocketAddr::new(IpAddr::v4(1, 2, 3, 4), 9001),
        PublicKey::new([3u8; 32]),
        5,
        Some(policy()),
    );
    n.operator_id = Some("alice".to_string());
    n.tls_cert_fingerprint = "ab".to_string();
    n
}

#[test]
fn nodes_in_messages() {
    let address = node().address;
    let mut message = WireDescriptor::from_descriptor(node(), "1.2.3.4:9001".to_string());
    let back = message.to_descriptor(Ok(address)).unwrap();
    assert_eq!(back.node_id, "n");
    assert_eq!(back.address, address);
    assert_eq!(back.operator_id.as_deref(), Some("alice"));
    assert_eq!(back.tls_cert_fingerprint, "ab");
    assert_eq!(back.exit_policy.unwrap().allowed_ips, policy().allowed_ips);
    assert_eq!(
        message
            .to_descriptor(Err("invalid socket address syntax".to_string()))
            .unwrap_err(),
        "Invalid address: invalid socket address syntax"
    );
    message.exit_policy.as_mut().unwrap().blocked_ips.push(vec![9]);
    assert_eq!(
        message.to_descriptor(Ok(address)).unwrap_err(),
        "Invalid IP byte length: 1"
    );
    message.public_key = Some(vec![]);
    assert_eq!(
        message.to_descriptor(Ok(address)).unwrap_err(),
        "PublicKey must be exactly 32 bytes"
    );
    message.public_key = None;
    assert_eq!(
        message.to_descriptor(Ok(address)).unwrap_err(),
        "PublicKey is required"
    );
    message.node_type = Ok(WireNodeType::Unspecified);
    assert_eq!(
        message.to_descriptor(Err(String::new())).unwrap_err(),
        "NodeType unspecified"
    );
    message.node_type = Err("unknown enumeration value 9".to_string());
    assert_eq!(
        message.to_descriptor(Err(String::new())).unwrap_err(),
        "Invalid node type: unknown enumeration value 9"
    );
}

#[test]
fn figures_in_messages() {
    let metrics = NodeMetrics {
        connections_accepted: 1,
        circuits_active: 2,
        circuits_created: 3,
        circuits_destroyed: 4,
        bytes_forwarded: 5,
        bytes_received: 6,
        streams_opened: 7,
        uptime_secs: 8,
        event_snapshot: vec!["event".to_string()],
    };
    let back = required_metrics(Some(WireMetrics::from_metrics(&metrics))).unwrap();
    assert_eq!(back.connections_accepted, 1);
    assert_eq!(back.circuits_active, 2);
    assert_eq!(back.circuits_created, 3);
    assert_eq!(back.circuits_destroyed, 4);
    assert_eq!(back.bytes_forwarded, 5);
    assert_eq!(back.bytes_received, 6);
    assert_eq!(back.streams_opened, 7);
    assert_eq!(back.uptime_secs, 8);
    assert!(back.event_snapshot.is_empty());
    assert_eq!(required_metrics(None).unwrap_err(), "Metrics are required");
    let stats = WireStats {
        total_nodes: 6,
        entry_count: 1,
        middle_count: 2,
        exit_count: 3,
        oldest_node_age_secs: Some(9),
        newest_node_age_secs: None,
    };
    let out = stats.to_stats();
    assert_eq!(
        (out.total_nodes, out.entry_count, out.middle_count, out.exit_count),
        (6, 1, 2, 3)
    );
    assert_eq!(out.oldest_node_age_secs, Some(9));
    assert_eq!(out.newest_node_age_secs, None);
}
