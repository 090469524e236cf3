use hivemind::membership::{new_member, MembershipEvent};
use hivemind::node::{
    choose_local_ip, discovery_message, join_message, join_target, node_membership_config, parse_discovery, NetworkUpdate,
    NodeManager, NodeResources, DEFAULT_NODE_MEMORY,
};

#[test]
fn new_node_knows_itself() {
    let m = NodeManager::new("10.0.0.1".to_string(), 5);
    let id = m.get_node_id();
    assert!(id.starts_with("node-"));
    assert_eq!(id.len(), 41);
    assert_eq!(m.list_nodes(), vec![id.clone()]);
    let d = m.get_node_details();
    assert_eq!(d[0].0, id);
    assert_eq!(d[0].1, "10.0.0.1");
    assert_eq!(d[0].2, NodeResources { cpu_available_centi: 10000, memory_available: DEFAULT_NODE_MEMORY, containers_running: 0 });
    assert!(m.health_status.is_healthy);
}

#[test]
fn discovery_adds_peers_but_not_itself() {
    let mut m = NodeManager::new("10.0.0.1".to_string(), 5);
    let me = m.get_node_id();
    m.handle_discovery(&discovery_message("n2", "10.0.0.2"), 6);
    m.handle_discovery(&discovery_message(&me, "10.9.9.9"), 6);
    m.handle_discovery("garbage", 6);
    m.handle_discovery("HIVEMIND_DISCOVERY:n3", 6);
    assert_eq!(m.list_nodes(), vec![me.clone(), "n2".to_string()]);
    let d = m.get_node_details();
    assert_eq!(d[0].1, "10.0.0.1");
    assert_eq!(d[1].1, "10.0.0.2");
}

#[test]
fn discovery_text_round_trip() {
    assert_eq!(discovery_message("a", "b"), "HIVEMIND_DISCOVERY:a:b");
    assert_eq!(parse_discovery(&discovery_message("a", "b")), Some(("a".to_string(), "b".to_string())));
    assert_eq!(parse_discovery("HIVEMIND_DISCOVERY:a:b:c"), Some(("a".to_string(), "b".to_string())));
    assert_eq!(parse_discovery("HIVEMIND_JOIN:a:b"), None);
    assert_eq!(join_message("a", "b"), "HIVEMIND_JOIN:a:b");
    assert_eq!(join_target("10.0.0.1:", 8901), "10.0.0.1:8901");
}

#[test]
fn removal_never_removes_self() {
    let mut m = NodeManager::new("10.0.0.1".to_string(), 5);
    let me = m.get_node_id();
    m.handle_discovery(&discovery_message("n2", "10.0.0.2"), 6);
    assert!(!m.remove_node(&me));
    assert!(m.remove_node("n2"));
    assert!(!m.remove_node("n2"));
    assert_eq!(m.list_nodes(), vec![me]);
}

#[test]
fn simulated_health_check() {
    let mut m = NodeManager::new("10.0.0.1".to_string(), 5);
    assert!(m.check_health(10));
    assert_eq!(m.health_status.failure_count, 0);
    assert_eq!(m.health_status.check_count, 1);
    assert_eq!(m.health_status.last_check, 10);
    let r = m.get_node_details()[0].2;
    assert_eq!(r.cpu_available_centi, 8000);
    assert_eq!(r.memory_available, 751619276);
    for t in 0..120 {
        assert!(m.check_health(t));
    }
}

#[test]
fn membership_events_update_peers() {
    let mut m = NodeManager::new("10.0.0.1".to_string(), 5);
    let peer = new_member("p1", "10.0.0.7", 1, 3, false);
    assert_eq!(m.handle_membership_event(&MembershipEvent::MemberJoined(peer.clone()), 7), NetworkUpdate::NodeJoined);
    assert!(m.list_nodes().contains(&"p1".to_string()));
    assert_eq!(m.handle_membership_event(&MembershipEvent::MemberAlive(peer.clone()), 9), NetworkUpdate::Unchanged);
    assert_eq!(m.handle_membership_event(&MembershipEvent::QuorumLost, 9), NetworkUpdate::Unchanged);
    assert_eq!(m.handle_membership_event(&MembershipEvent::MemberDead(peer.clone()), 11), NetworkUpdate::NodeLeft);
    assert!(!m.list_nodes().contains(&"p1".to_string()));
    assert_eq!(m.handle_membership_event(&MembershipEvent::MemberAlive(peer), 12), NetworkUpdate::NodeJoined);
}

#[test]
fn local_address_choice() {
    let i = |l: bool, v4: bool, a: &str| (l, v4, a.to_string());
    let all = vec![i(true, true, "127.0.0.1"), i(false, false, "fe80::1"), i(false, false, "2001:db8::1"), i(false, true, "10.1.2.3")];
    assert_eq!(choose_local_ip(&all), "10.1.2.3");
    assert_eq!(choose_local_ip(&all[..3].to_vec()), "2001:db8::1");
    assert_eq!(choose_local_ip(&vec![]), "127.0.0.1");
}

#[test]
fn node_membership_settings() {
    let c = node_membership_config();
    assert_eq!(c.bind_addr, "0.0.0.0");
    assert_eq!(c.bind_port, 7946);
    assert_eq!(c.protocol_period_ms, 1000);
    assert_eq!(c.ping_timeout_ms, 500);
    assert_eq!(c.suspicion_mult, 5);
    assert_eq!(c.indirect_checks, 3);
}
