use mini_tor::discovery::error::RegistryError;
use mini_tor::discovery::path::Draws;
use mini_tor::discovery::registry::NodeRegistry;
use mini_tor::metrics::Elapsed;
use mini_tor::net::{IpAddr, SocketAddr};
use mini_tor::types::{NodeDescriptor, NodeMetrics, NodeType, PublicKey};

fn at(secs: u64) -> Elapsed {
    Elapsed::from_secs(secs)
}

fn millis(n: u64) -> Elapsed {
    Elapsed {
        secs: n / 1000,
        nanos: (n % 1000) as u32 * 1_000_000,
    }
}

fn add(reg: &mut NodeRegistry, node: NodeDescriptor) {
    reg.register_node(node, at(1));
}

fn ip(text: &str) -> IpAddr {
    let octets: Vec<u8> = text.split('.').map(|o| o.parse().unwrap()).collect();
    assert_eq!(octets.len(), 4);
    IpAddr::v4(octets[0], octets[1], octets[2], octets[3])
}

/// The port comes from the id, so that nodes on one host have different addresses.
fn make_node_with_ip_and_op(
    id: &str,
    node_type: NodeType,
    host: &str,
    op: Option<&str>,
    bw: u64,
) -> NodeDescriptor {
    let port: u16 = 9000 + id.bytes().map(|b| b as u16).sum::<u16>() % 1000;
    let mut n = NodeDescriptor::new(
        id.to_string(),
        node_type,
        SocketAddr::new(ip(host), port),
        PublicKey::new([0u8; 32]),
        bw,
        None,
    );
    n.operator_id = op.map(str::to_owned);
    n
}

fn make_node_with_ip(id: &str, node_type: NodeType, host: &str, bw: u64) -> NodeDescriptor {
    make_node_with_ip_and_op(id, node_type, host, None, bw)
}

fn make_node(id: &str, node_type: NodeType, bandwidth: u64) -> NodeDescriptor {
    make_node_with_ip(id, node_type, "127.0.0.1", bandwidth)
}

fn make_registry() -> NodeRegistry {
    NodeRegistry::new(false)
}

fn make_registry_allow_same_ip() -> NodeRegistry {
    NodeRegistry::new(true)
}

#[test]
fn registry_test_register_and_get_all() {
    let mut reg = make_registry();
    add(&mut reg, make_node("node-1", NodeType::Entry, 1_000_000));

    let nodes = reg.get_all_nodes();
    assert_eq!(nodes.len(), 1);
    assert_eq!(nodes[0].node_id, "node-1");
    assert_eq!(nodes[0].node_type, NodeType::Entry);
}

#[test]
fn registry_test_register_multiple() {
    let mut reg = make_registry();
    add(&mut reg, make_node("entry-1", NodeType::Entry, 1_000_000));
    add(&mut reg, make_node("middle-1", NodeType::Middle, 2_000_000));
    add(&mut reg, make_node("exit-1", NodeType::Exit, 3_000_000));

    let nodes = reg.get_all_nodes();
    assert_eq!(nodes.len(), 3);
}

#[test]
fn registry_test_register_duplicate_updates() {
    let mut reg = make_registry();
    add(&mut reg, make_node("node-1", NodeType::Entry, 1_000_000));
    add(&mut reg, make_node("node-1", NodeType::Entry, 5_000_000));

    let nodes = reg.get_all_nodes();
    assert_eq!(nodes.len(), 1, "duplicate should update, not add");
    assert_eq!(nodes[0].bandwidth, 5_000_000, "bandwidth should be updated");
}

#[test]
fn registry_test_get_nodes_by_type() {
    let mut reg = make_registry();
    add(&mut reg, make_node("entry-1", NodeType::Entry, 1_000_000));
    add(&mut reg, make_node("entry-2", NodeType::Entry, 1_000_000));
    add(&mut reg, make_node("middle-1", NodeType::Middle, 1_000_000));
    add(&mut reg, make_node("exit-1", NodeType::Exit, 1_000_000));

    assert_eq!(reg.get_nodes_by_type(NodeType::Entry).len(), 2);
    assert_eq!(reg.get_nodes_by_type(NodeType::Middle).len(), 1);
    assert_eq!(reg.get_nodes_by_type(NodeType::Exit).len(), 1);
}

#[test]
fn registry_test_get_random_path_success() {
    let mut reg = make_registry();
    add(&mut reg, make_node("entry-1", NodeType::Entry, 1_000_000));
    add(&mut reg, make_node("middle-1", NodeType::Middle, 1_000_000));
    add(&mut reg, make_node("exit-1", NodeType::Exit, 1_000_000));

    let path = reg.get_random_path(3).unwrap();
    assert_eq!(path.len(), 3);
    assert_eq!(path[0].node_type, NodeType::Entry);
    assert_eq!(path[1].node_type, NodeType::Middle);
    assert_eq!(path[2].node_type, NodeType::Exit);
}

#[test]
fn registry_test_get_random_path_no_entry() {
    let mut reg = make_registry();
    add(&mut reg, make_node("middle-1", NodeType::Middle, 1_000_000));
    add(&mut reg, make_node("exit-1", NodeType::Exit, 1_000_000));

    let err = reg.get_random_path(3).unwrap_err();
    assert!(matches!(err, RegistryError::InsufficientNodes(_)));
}

#[test]
fn registry_test_get_random_path_no_middle() {
    let mut reg = make_registry();
    add(&mut reg, make_node("entry-1", NodeType::Entry, 1_000_000));
    add(&mut reg, make_node("exit-1", NodeType::Exit, 1_000_000));

    let err = reg.get_random_path(3).unwrap_err();
    assert!(matches!(err, RegistryError::InsufficientNodes(_)));
}

#[test]
fn registry_test_get_random_path_no_exit() {
    let mut reg = make_registry();
    add(&mut reg, make_node("entry-1", NodeType::Entry, 1_000_000));
    add(&mut reg, make_node("middle-1", NodeType::Middle, 1_000_000));

    let err = reg.get_random_path(3).unwrap_err();
    assert!(matches!(err, RegistryError::InsufficientNodes(_)));
}

#[test]
fn registry_test_get_random_path_empty() {
    let reg = make_registry();

    let err = reg.get_random_path(3).unwrap_err();
    assert!(matches!(err, RegistryError::InsufficientNodes(_)));
}

#[test]
fn registry_test_update_heartbeat_existing() {
    let mut reg = make_registry();
    add(&mut reg, make_node("node-1", NodeType::Entry, 1_000_000));

    assert!(reg.update_heartbeat("node-1", at(2)).is_ok());
}

#[test]
fn registry_test_update_heartbeat_missing() {
    let mut reg = make_registry();

    let err = reg.update_heartbeat("nonexistent", at(2)).unwrap_err();
    assert!(matches!(err, RegistryError::NodeNotFound(_)));
}

#[test]
fn registry_test_remove_node_existing() {
    let mut reg = make_registry();
    add(&mut reg, make_node("node-1", NodeType::Entry, 1_000_000));

    assert!(reg.remove_node("node-1").is_ok());
    assert!(reg.get_all_nodes().is_empty());
}

#[test]
fn registry_test_remove_node_missing() {
    let mut reg = make_registry();

    let err = reg.remove_node("nonexistent").unwrap_err();
    assert!(matches!(err, RegistryError::NodeNotFound(_)));
}

#[test]
fn registry_test_cleanup_stale_nodes() {
    let mut reg = make_registry();
    add(&mut reg, make_node("node-1", NodeType::Entry, 1_000_000));

        let removed = reg.cleanup_stale_nodes(millis(10), millis(1050));
    assert_eq!(removed, 1);
    assert!(reg.get_all_nodes().is_empty());
}

#[test]
fn registry_test_is_ready() {
    let mut reg = make_registry();

    assert!(!reg.is_ready());

    add(&mut reg, make_node("entry-1", NodeType::Entry, 1_000_000));
    assert!(!reg.is_ready());

    add(&mut reg, make_node("middle-1", NodeType::Middle, 1_000_000));
    assert!(!reg.is_ready());

    add(&mut reg, make_node("exit-1", NodeType::Exit, 1_000_000));
    assert!(reg.is_ready());
}

#[test]
fn registry_test_get_stats() {
    let mut reg = make_registry();
    add(&mut reg, make_node("entry-1", NodeType::Entry, 1_000_000));
    add(&mut reg, make_node("entry-2", NodeType::Entry, 1_000_000));
    add(&mut reg, make_node("middle-1", NodeType::Middle, 1_000_000));
    add(&mut reg, make_node("exit-1", NodeType::Exit, 1_000_000));

    let stats = reg.get_stats(at(5));
    assert_eq!(stats.total_nodes, 4);
    assert_eq!(stats.entry_count, 2);
    assert_eq!(stats.middle_count, 1);
    assert_eq!(stats.exit_count, 1);
    assert!(stats.oldest_node_age_secs.is_some());
    assert!(stats.newest_node_age_secs.is_some());
}

#[test]
fn registry_test_get_stats_empty() {
    let reg = make_registry();

    let stats = reg.get_stats(at(5));
    assert_eq!(stats.total_nodes, 0);
    assert_eq!(stats.entry_count, 0);
    assert_eq!(stats.middle_count, 0);
    assert_eq!(stats.exit_count, 0);
    assert!(stats.oldest_node_age_secs.is_none());
    assert!(stats.newest_node_age_secs.is_none());
}

#[test]
fn registry_test_get_random_path_4_hops() {
    let mut reg = make_registry();
    add(&mut reg, make_node("entry-1", NodeType::Entry, 1_000_000));
    add(&mut reg, make_node("middle-1", NodeType::Middle, 1_000_000));
    add(&mut reg, make_node("middle-2", NodeType::Middle, 1_000_000));
    add(&mut reg, make_node("exit-1", NodeType::Exit, 1_000_000));

    let path = reg.get_random_path(4).unwrap();
    assert_eq!(path.len(), 4);
    assert_eq!(path[0].node_type, NodeType::Entry);
    assert_eq!(path[1].node_type, NodeType::Middle);
    assert_eq!(path[2].node_type, NodeType::Middle);
    assert_eq!(path[3].node_type, NodeType::Exit);
}

#[test]
fn registry_test_get_random_path_5_hops() {
    let mut reg = make_registry();
    add(&mut reg, make_node("entry-1", NodeType::Entry, 1_000_000));
    add(&mut reg, make_node("middle-1", NodeType::Middle, 1_000_000));
    add(&mut reg, make_node("middle-2", NodeType::Middle, 1_000_000));
    add(&mut reg, make_node("middle-3", NodeType::Middle, 1_000_000));
    add(&mut reg, make_node("exit-1", NodeType::Exit, 1_000_000));

    let path = reg.get_random_path(5).unwrap();
    assert_eq!(path.len(), 5);
    assert_eq!(path[0].node_type, NodeType::Entry);
    assert_eq!(path[1].node_type, NodeType::Middle);
    assert_eq!(path[2].node_type, NodeType::Middle);
    assert_eq!(path[3].node_type, NodeType::Middle);
    assert_eq!(path[4].node_type, NodeType::Exit);
}

#[test]
fn registry_test_get_random_path_insufficient_middles() {
    // Only 1 middle node available — 5-hop path needs 3 unique middles, must fail.
    let mut reg = make_registry();
    add(&mut reg, make_node("entry-1", NodeType::Entry, 1_000_000));
    add(&mut reg, make_node("middle-1", NodeType::Middle, 1_000_000));
    add(&mut reg, make_node("exit-1", NodeType::Exit, 1_000_000));

    let err = reg.get_random_path(5).unwrap_err();
    assert!(matches!(err, RegistryError::InsufficientNodes(_)));
}

#[test]
fn registry_test_get_random_path_middles_unique() {
    // 2 middles, 4-hop path needs 2 unique middles — should succeed with distinct nodes.
    let mut reg = make_registry();
    add(&mut reg, make_node("entry-1", NodeType::Entry, 1_000_000));
    add(&mut reg, make_node("middle-1", NodeType::Middle, 1_000_000));
    add(&mut reg, make_node("middle-2", NodeType::Middle, 1_000_000));
    add(&mut reg, make_node("exit-1", NodeType::Exit, 1_000_000));

    let path = reg.get_random_path(4).unwrap();
    assert_eq!(path.len(), 4);
    // The two middle hops must be different nodes.
    assert_ne!(path[1].node_id, path[2].node_id);
}

#[test]
fn registry_test_get_random_path_count_below_minimum() {
    let mut reg = make_registry();
    add(&mut reg, make_node("entry-1", NodeType::Entry, 1_000_000));
    add(&mut reg, make_node("middle-1", NodeType::Middle, 1_000_000));
    add(&mut reg, make_node("exit-1", NodeType::Exit, 1_000_000));

    let err = reg.get_random_path(2).unwrap_err();
    assert!(matches!(err, RegistryError::InsufficientNodes(_)));
}

#[test]
fn registry_test_get_random_path_count_1_rejected() {
    let mut reg = make_registry();
    add(&mut reg, make_node("entry-1", NodeType::Entry, 1_000_000));
    add(&mut reg, make_node("middle-1", NodeType::Middle, 1_000_000));
    add(&mut reg, make_node("exit-1", NodeType::Exit, 1_000_000));

    let err = reg.get_random_path(1).unwrap_err();
    assert!(matches!(err, RegistryError::InsufficientNodes(_)));
}

// ---- IP exclusion ----

#[test]
fn test_ip_exclusion_loopback_exempt() {
    // All nodes on 127.0.0.1 — the loopback exemption must keep the demo working.
    let mut reg = make_registry();
    add(&mut reg, make_node("entry-1", NodeType::Entry, 1_000_000));
    add(&mut reg, make_node("middle-1", NodeType::Middle, 1_000_000));
    add(&mut reg, make_node("exit-1", NodeType::Exit, 1_000_000));

    let path = reg.get_random_path(3).unwrap();
    assert_eq!(path.len(), 3);
}

#[test]
fn test_ip_exclusion_different_ips_succeeds() {
    let mut reg = make_registry();
    add(&mut reg, make_node_with_ip(
        "entry-1",
        NodeType::Entry,
        "1.0.0.1",
        1_000_000,
    ));
    add(&mut reg, make_node_with_ip(
        "middle-1",
        NodeType::Middle,
        "2.0.0.1",
        1_000_000,
    ));
    add(&mut reg, make_node_with_ip(
        "exit-1",
        NodeType::Exit,
        "3.0.0.1",
        1_000_000,
    ));

    let path = reg.get_random_path(3).unwrap();
    assert_eq!(path.len(), 3);
    assert_eq!(path[0].node_type, NodeType::Entry);
    assert_eq!(path[1].node_type, NodeType::Middle);
    assert_eq!(path[2].node_type, NodeType::Exit);
}

#[test]
fn test_ip_exclusion_entry_exit_same_ip() {
    // Entry and exit on the same non-loopback IP — must be rejected.
    let mut reg = make_registry();
    add(&mut reg, make_node_with_ip(
        "entry-1",
        NodeType::Entry,
        "1.0.0.1",
        1_000_000,
    ));
    add(&mut reg, make_node_with_ip(
        "middle-1",
        NodeType::Middle,
        "2.0.0.1",
        1_000_000,
    ));
    add(&mut reg, make_node_with_ip(
        "exit-1",
        NodeType::Exit,
        "1.0.0.1",
        1_000_000,
    ));

    let err = reg.get_random_path(3).unwrap_err();
    assert!(matches!(err, RegistryError::InsufficientNodes(_)));
}

#[test]
fn test_ip_exclusion_middle_shares_entry_ip() {
    // middle-1 shares IP with entry — only middle-2 is valid.
    let mut reg = make_registry();
    add(&mut reg, make_node_with_ip(
        "entry-1",
        NodeType::Entry,
        "1.0.0.1",
        1_000_000,
    ));
    add(&mut reg, make_node_with_ip(
        "middle-1",
        NodeType::Middle,
        "1.0.0.1",
        1_000_000,
    ));
    add(&mut reg, make_node_with_ip(
        "middle-2",
        NodeType::Middle,
        "2.0.0.1",
        1_000_000,
    ));
    add(&mut reg, make_node_with_ip(
        "exit-1",
        NodeType::Exit,
        "3.0.0.1",
        1_000_000,
    ));

    let path = reg.get_random_path(3).unwrap();
    assert_eq!(path.len(), 3);
    assert_eq!(path[1].node_id, "middle-2");
}

#[test]
fn test_ip_exclusion_middle_shares_exit_ip() {
    // middle-1 shares IP with exit — only middle-2 is valid.
    let mut reg = make_registry();
    add(&mut reg, make_node_with_ip(
        "entry-1",
        NodeType::Entry,
        "1.0.0.1",
        1_000_000,
    ));
    add(&mut reg, make_node_with_ip(
        "middle-1",
        NodeType::Middle,
        "3.0.0.1",
        1_000_000,
    ));
    add(&mut reg, make_node_with_ip(
        "middle-2",
        NodeType::Middle,
        "2.0.0.1",
        1_000_000,
    ));
    add(&mut reg, make_node_with_ip(
        "exit-1",
        NodeType::Exit,
        "3.0.0.1",
        1_000_000,
    ));

    let path = reg.get_random_path(3).unwrap();
    assert_eq!(path.len(), 3);
    assert_eq!(path[1].node_id, "middle-2");
}

#[test]
fn test_ip_exclusion_two_middles_same_ip() {
    // 4-hop circuit: middle-1 and middle-2 share an IP — only one can be picked.
    let mut reg = make_registry();
    add(&mut reg, make_node_with_ip(
        "entry-1",
        NodeType::Entry,
        "1.0.0.1",
        1_000_000,
    ));
    add(&mut reg, make_node_with_ip(
        "middle-1",
        NodeType::Middle,
        "2.0.0.1",
        1_000_000,
    ));
    add(&mut reg, make_node_with_ip(
        "middle-2",
        NodeType::Middle,
        "2.0.0.1",
        1_000_000,
    ));
    add(&mut reg, make_node_with_ip(
        "middle-3",
        NodeType::Middle,
        "4.0.0.1",
        1_000_000,
    ));
    add(&mut reg, make_node_with_ip(
        "exit-1",
        NodeType::Exit,
        "3.0.0.1",
        1_000_000,
    ));

    let path = reg.get_random_path(4).unwrap();
    assert_eq!(path.len(), 4);
    // The two middles must have different IPs.
    assert_ne!(path[1].address.ip, path[2].address.ip);
}

#[test]
fn test_ip_exclusion_not_enough_after_filter() {
    // All middles share the entry IP — no valid middle remains.
    let mut reg = make_registry();
    add(&mut reg, make_node_with_ip(
        "entry-1",
        NodeType::Entry,
        "1.0.0.1",
        1_000_000,
    ));
    add(&mut reg, make_node_with_ip(
        "middle-1",
        NodeType::Middle,
        "1.0.0.1",
        1_000_000,
    ));
    add(&mut reg, make_node_with_ip(
        "exit-1",
        NodeType::Exit,
        "3.0.0.1",
        1_000_000,
    ));

    let err = reg.get_random_path(3).unwrap_err();
    assert!(matches!(err, RegistryError::InsufficientNodes(_)));
}

// ---- operator_id exclusion ----

#[test]
fn test_operator_id_entry_exit_same() {
    // Entry and exit tagged with same operator_id — must be rejected even on different IPs.
    let mut reg = make_registry();
    add(&mut reg, make_node_with_ip_and_op(
        "entry-1",
        NodeType::Entry,
        "1.0.0.1",
        Some("alice"),
        1_000_000,
    ));
    add(&mut reg, make_node_with_ip_and_op(
        "middle-1",
        NodeType::Middle,
        "2.0.0.1",
        None,
        1_000_000,
    ));
    add(&mut reg, make_node_with_ip_and_op(
        "exit-1",
        NodeType::Exit,
        "3.0.0.1",
        Some("alice"),
        1_000_000,
    ));

    let err = reg.get_random_path(3).unwrap_err();
    assert!(matches!(err, RegistryError::InsufficientNodes(_)));
}

#[test]
fn test_operator_id_middle_excluded() {
    // middle-1 shares operator_id with entry — only middle-2 (untagged) is valid.
    let mut reg = make_registry();
    add(&mut reg, make_node_with_ip_and_op(
        "entry-1",
        NodeType::Entry,
        "1.0.0.1",
        Some("alice"),
        1_000_000,
    ));
    add(&mut reg, make_node_with_ip_and_op(
        "middle-1",
        NodeType::Middle,
        "2.0.0.1",
        Some("alice"),
        1_000_000,
    ));
    add(&mut reg, make_node_with_ip_and_op(
        "middle-2",
        NodeType::Middle,
        "3.0.0.1",
        None,
        1_000_000,
    ));
    add(&mut reg, make_node_with_ip_and_op(
        "exit-1",
        NodeType::Exit,
        "4.0.0.1",
        None,
        1_000_000,
    ));

    let path = reg.get_random_path(3).unwrap();
    assert_eq!(path.len(), 3);
    assert_eq!(path[1].node_id, "middle-2");
}

#[test]
fn test_operator_id_none_never_excluded() {
    // All nodes have operator_id: None — path selection must succeed normally.
    let mut reg = make_registry();
    add(&mut reg, make_node_with_ip_and_op(
        "entry-1",
        NodeType::Entry,
        "1.0.0.1",
        None,
        1_000_000,
    ));
    add(&mut reg, make_node_with_ip_and_op(
        "middle-1",
        NodeType::Middle,
        "2.0.0.1",
        None,
        1_000_000,
    ));
    add(&mut reg, make_node_with_ip_and_op(
        "exit-1",
        NodeType::Exit,
        "3.0.0.1",
        None,
        1_000_000,
    ));

    let path = reg.get_random_path(3).unwrap();
    assert_eq!(path.len(), 3);
}

#[test]
fn test_operator_id_mixed() {
    // entry tagged "alice", middle-1 also "alice", middle-2 untagged → middle-2 selected.
    let mut reg = make_registry();
    add(&mut reg, make_node_with_ip_and_op(
        "entry-1",
        NodeType::Entry,
        "1.0.0.1",
        Some("alice"),
        1_000_000,
    ));
    add(&mut reg, make_node_with_ip_and_op(
        "middle-1",
        NodeType::Middle,
        "2.0.0.1",
        Some("alice"),
        1_000_000,
    ));
    add(&mut reg, make_node_with_ip_and_op(
        "middle-2",
        NodeType::Middle,
        "3.0.0.1",
        None,
        1_000_000,
    ));
    add(&mut reg, make_node_with_ip_and_op(
        "exit-1",
        NodeType::Exit,
        "4.0.0.1",
        Some("bob"),
        1_000_000,
    ));

    let path = reg.get_random_path(3).unwrap();
    assert_eq!(path.len(), 3);
    assert_eq!(path[1].node_id, "middle-2");
}

#[test]
fn test_operator_id_8hop_fails_when_not_enough_untagged_middles() {
    // 8 hops = 1 entry + 6 middles + 1 exit.
    // entry + 2 middles share "alice" → only 5 middles remain after filtering → should fail.
    let mut reg = make_registry();
    add(&mut reg, make_node_with_ip_and_op(
        "entry-1",
        NodeType::Entry,
        "1.0.0.1",
        Some("alice"),
        1_000_000,
    ));
    // 2 middles tagged "alice" — both will be excluded
    add(&mut reg, make_node_with_ip_and_op(
        "middle-alice-1",
        NodeType::Middle,
        "2.0.0.1",
        Some("alice"),
        1_000_000,
    ));
    add(&mut reg, make_node_with_ip_and_op(
        "middle-alice-2",
        NodeType::Middle,
        "3.0.0.1",
        Some("alice"),
        1_000_000,
    ));
    // 5 untagged middles — need 6, only 5 available after filtering
    for i in 0..5_u8 {
        add(&mut reg, make_node_with_ip_and_op(
            &format!("middle-{i}"),
            NodeType::Middle,
            &format!("10.0.{i}.1"),
            None,
            1_000_000,
        ));
    }
    add(&mut reg, make_node_with_ip_and_op(
        "exit-1",
        NodeType::Exit,
        "20.0.0.1",
        None,
        1_000_000,
    ));

    let err = reg.get_random_path(8).unwrap_err();
    assert!(matches!(err, RegistryError::InsufficientNodes(_)));
}

#[test]
fn test_operator_id_8hop_succeeds_with_enough_untagged_middles() {
    // 8 hops = 1 entry + 6 middles + 1 exit.
    // entry + 1 middle share "alice" → 6 untagged middles remain → should succeed.
    let mut reg = make_registry();
    add(&mut reg, make_node_with_ip_and_op(
        "entry-1",
        NodeType::Entry,
        "1.0.0.1",
        Some("alice"),
        1_000_000,
    ));
    // 1 middle tagged "alice" — excluded
    add(&mut reg, make_node_with_ip_and_op(
        "middle-alice-1",
        NodeType::Middle,
        "2.0.0.1",
        Some("alice"),
        1_000_000,
    ));
    // 6 untagged middles — exactly enough
    for i in 0..6_u8 {
        add(&mut reg, make_node_with_ip_and_op(
            &format!("middle-{i}"),
            NodeType::Middle,
            &format!("10.0.{i}.1"),
            None,
            1_000_000,
        ));
    }
    add(&mut reg, make_node_with_ip_and_op(
        "exit-1",
        NodeType::Exit,
        "20.0.0.1",
        None,
        1_000_000,
    ));

    let path = reg.get_random_path(8).unwrap();
    assert_eq!(path.len(), 8);
    // No node in the path should have operator_id "alice" except entry
    for hop in path.iter().skip(1) {
        assert_ne!(hop.operator_id.as_deref(), Some("alice"));
    }
}

// ---- allow_same_ip tests ----

#[test]
fn test_allow_same_ip_non_loopback_succeeds() {
    let mut reg = make_registry_allow_same_ip();
    add(&mut reg, make_node_with_ip(
        "entry-1",
        NodeType::Entry,
        "5.5.5.1",
        1_000_000,
    ));
    add(&mut reg, make_node_with_ip(
        "middle-1",
        NodeType::Middle,
        "5.5.5.1",
        1_000_000,
    ));
    add(&mut reg, make_node_with_ip(
        "exit-1",
        NodeType::Exit,
        "5.5.5.1",
        1_000_000,
    ));

    let path = reg.get_random_path(3).unwrap();
    assert_eq!(path.len(), 3);
}

#[test]
fn test_allow_same_ip_operator_exclusion_still_works() {
    let mut reg = make_registry_allow_same_ip();
    add(&mut reg, make_node_with_ip_and_op(
        "entry-1",
        NodeType::Entry,
        "5.5.5.1",
        Some("alice"),
        1_000_000,
    ));
    add(&mut reg, make_node_with_ip_and_op(
        "middle-alice",
        NodeType::Middle,
        "5.5.5.1",
        Some("alice"),
        1_000_000,
    ));
    add(&mut reg, make_node_with_ip_and_op(
        "middle-bob",
        NodeType::Middle,
        "5.5.5.1",
        None,
        1_000_000,
    ));
    add(&mut reg, make_node_with_ip_and_op(
        "exit-1",
        NodeType::Exit,
        "5.5.5.1",
        None,
        1_000_000,
    ));

    let path = reg.get_random_path(3).unwrap();
    assert_eq!(path.len(), 3);
    for hop in path.iter().skip(1) {
        assert_ne!(hop.operator_id.as_deref(), Some("alice"));
    }
}

#[test]
fn test_allow_same_ip_disabled_same_ip_fails() {
    let mut reg = make_registry();
    add(&mut reg, make_node_with_ip(
        "entry-1",
        NodeType::Entry,
        "5.5.5.1",
        1_000_000,
    ));
    add(&mut reg, make_node_with_ip(
        "exit-1",
        NodeType::Exit,
        "5.5.5.1",
        1_000_000,
    ));

    let err = reg.get_random_path(3).unwrap_err();
    assert!(matches!(err, RegistryError::InsufficientNodes(_)));
}

// ---- more than the scenarios above ----

fn three_hops() -> NodeRegistry {
    let mut reg = make_registry();
    add(&mut reg, make_node("entry-1", NodeType::Entry, 1_000_000));
    add(&mut reg, make_node("middle-1", NodeType::Middle, 1_000_000));
    add(&mut reg, make_node("exit-1", NodeType::Exit, 1_000_000));
    reg
}

#[test]
fn complaints_name_what_is_missing() {
    let text = |r: Result<Vec<NodeDescriptor>, RegistryError>| r.unwrap_err().to_string();
    let reg = make_registry();
    assert_eq!(
        text(reg.get_random_path(2)),
        "Insufficient nodes: hop count must be >= 3, got 2"
    );
    assert!(text(reg.get_random_path(3)).starts_with("Insufficient nodes: "));
    let mut reg = three_hops();
    let e = reg.remove_node("nobody").unwrap_err();
    assert_eq!(e.to_string(), "Node not found: nobody");
}

#[test]
fn the_same_numbers_choose_the_same_path() {
    let mut reg = three_hops();
    add(&mut reg, make_node("exit-2", NodeType::Exit, 3_000_000));
    add(&mut reg, make_node("exit-3", NodeType::Exit, 1_000_000));
    // The first number chooses the exit: the bandwidths share out 0 up to 5_000_000.
    for (number, chosen) in [
        (0, "exit-1"),
        (999_999, "exit-1"),
        (1_000_000, "exit-2"),
        (3_999_999, "exit-2"),
        (4_000_000, "exit-3"),
        (4_999_999, "exit-3"),
    ] {
        let mut draws = Draws::scripted(vec![number]);
        let path = reg.get_path(3, &mut draws).unwrap();
        assert_eq!(path[2].node_id, chosen);
        assert_eq!(path[0].node_id, "entry-1");
        assert_eq!(path[1].node_id, "middle-1");
    }
}

#[test]
fn registering_again_replaces_a_node() {
    let mut reg = three_hops();
    // Another id on the same address takes its place.
    let mut other = make_node("entry-1", NodeType::Entry, 7);
    other.node_id = "entry-2".to_string();
    add(&mut reg, other);
    let ids: Vec<String> = reg.get_all_nodes().into_iter().map(|n| n.node_id).collect();
    assert_eq!(ids.len(), 3);
    assert!(!ids.contains(&"entry-1".to_string()));
    assert!(ids.contains(&"entry-2".to_string()));
}

#[test]
fn heartbeats_keep_nodes_alive() {
    let mut reg = three_hops();
    reg.update_heartbeat("entry-1", at(100)).unwrap();
    let metrics = NodeMetrics {
        bytes_received: 7,
        ..NodeMetrics::default()
    };
    reg.update_heartbeat_with_metrics("exit-1", metrics, at(100)).unwrap();
    assert_eq!(reg.cleanup_stale_nodes(at(120), at(121)), 0);
    assert_eq!(reg.cleanup_stale_nodes(at(120), at(122)), 1);
    let ids: Vec<String> = reg.get_all_nodes().into_iter().map(|n| n.node_id).collect();
    assert_eq!(ids, ["entry-1", "exit-1"]);
    let reported = reg.get_all_entries()[1].metrics.as_ref().unwrap().bytes_received;
    assert_eq!(reported, 7);
    assert!(reg.get_all_entries()[0].metrics.is_none());
}

#[test]
fn stats_count_the_ages() {
    let mut reg = make_registry();
    reg.register_node(make_node("a", NodeType::Entry, 1), millis(500));
    reg.register_node(make_node("b", NodeType::Exit, 1), at(10));
    let stats = reg.get_stats(millis(60_499));
    assert_eq!(stats.oldest_node_age_secs, Some(59));
    assert_eq!(stats.newest_node_age_secs, Some(50));
}

#[test]
fn loaded_nodes_are_there() {
    let mut reg = make_registry();
    let nodes = vec![
        make_node("a", NodeType::Entry, 1),
        make_node("b", NodeType::Exit, 1),
    ];
    reg.load(&nodes, at(3));
    assert_eq!(reg.get_all_nodes().len(), 2);
    assert_eq!(reg.get_stats(at(5)).oldest_node_age_secs, Some(2));
}

#[test]
fn paths_have_no_two_nodes_in_conflict() {
    let mut reg = make_registry();
    for i in 0..4 {
        let host = format!("10.0.0.{}", i);
        add(&mut reg, make_node_with_ip(&format!("entry-{i}"), NodeType::Entry, &host, 5));
        add(&mut reg, make_node_with_ip(&format!("middle-{i}"), NodeType::Middle, &host, 5));
        let other = format!("10.0.1.{}", i);
        add(&mut reg, make_node_with_ip(&format!("exit-{i}"), NodeType::Exit, &other, 5));
    }
    for _ in 0..50 {
        let path = reg.get_random_path(4).unwrap();
        for i in 0..4 {
            for j in 0..i {
                assert_ne!(path[i].address.ip, path[j].address.ip);
                assert_ne!(path[i].node_id, path[j].node_id);
            }
        }
    }
}

#[test]
fn bandwidths_may_add_up_to_more_than_64_bits() {
    let mut reg = three_hops();
    add(&mut reg, make_node("exit-2", NodeType::Exit, u64::MAX));
    add(&mut reg, make_node("exit-3", NodeType::Exit, u64::MAX));
    let large = u64::MAX as u128;
    for (number, chosen) in [
        (0, "exit-1"),
        (999_999, "exit-1"),
        (1_000_000, "exit-2"),
        (1_000_000 + large - 1, "exit-2"),
        (1_000_000 + large, "exit-3"),
        (1_000_000 + 2 * large - 1, "exit-3"),
    ] {
        let mut draws = Draws::scripted(vec![number]);
        assert_eq!(reg.get_path(3, &mut draws).unwrap()[2].node_id, chosen);
    }
    for _ in 0..50 {
        assert_eq!(reg.get_random_path(3).unwrap().len(), 3);
    }
}

fn addresses_differ(reg: &NodeRegistry) -> bool {
    let nodes = reg.get_all_nodes();
    (0..nodes.len()).all(|i| (0..i).all(|j| nodes[i].address != nodes[j].address))
}

#[test]
fn addresses_stay_distinct() {
    let moved = |id: &str, port: u16| {
        let mut node = make_node(id, NodeType::Middle, 1);
        node.address.port = port;
        node
    };
    let mut reg = make_registry();
    reg.load(&vec![moved("a", 1), moved("b", 2), moved("c", 3)], at(0));
    assert!(addresses_differ(&reg));
    add(&mut reg, moved("d", 1));
    assert!(addresses_differ(&reg));
    assert_eq!(reg.get_all_nodes().len(), 3);
    // A known node that moves takes the place of the node that was there.
    add(&mut reg, moved("d", 2));
    assert!(addresses_differ(&reg));
    assert_eq!(reg.get_all_nodes().len(), 2);
    reg.update_heartbeat("c", at(50)).unwrap();
    reg.update_heartbeat_with_metrics("d", NodeMetrics::default(), at(5)).unwrap();
    assert!(addresses_differ(&reg));
    assert_eq!(reg.cleanup_stale_nodes(at(20), at(60)), 1);
    add(&mut reg, moved("e", 9));
    assert!(addresses_differ(&reg));
    reg.remove_node("c").unwrap();
    assert_eq!(reg.get_all_nodes().len(), 1);
    // A saved list is taken as it is.
    reg.load(&vec![moved("f", 4), moved("g", 4)], at(70));
    assert!(!addresses_differ(&reg));
}
