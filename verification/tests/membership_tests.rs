use hivemind::membership::{
    host_port_string, MembershipEffect, MembershipError, MembershipEvent, MembershipProtocol, NodeState,
};
use hivemind::text::{decimal_string, parse_u64};

fn protocol() -> MembershipProtocol {
    MembershipProtocol::new("n1".to_string(), "10.0.0.1".to_string(), None, 100)
}

fn member_state(p: &MembershipProtocol, id: &str) -> Option<NodeState> {
    p.members.iter().find(|(k, _)| k == id).map(|(_, m)| m.state)
}

#[test]
fn new_protocol_knows_itself() {
    let p = protocol();
    assert_eq!(p.incarnation, 1);
    assert!(!p.is_leader);
    let all = p.get_all_members();
    assert_eq!(all.len(), 1);
    assert_eq!(all[0].id, "n1");
    assert_eq!(all[0].state, NodeState::Alive);
    assert_eq!(p.config.bind_port, 7946);
}

#[test]
fn leader_store_then_read() {
    let mut p = protocol();
    p.is_leader = true;
    assert!(p.store_state("k", &vec![104, 105], 5).is_ok());
    assert_eq!(p.get_state("k"), Some(vec![104, 105]));
    assert!(p.store_state("k", &vec![1], 6).is_ok());
    assert_eq!(p.get_state("k"), Some(vec![1]));
    assert_eq!(p.get_state("other"), None);
}

#[test]
fn store_without_leader_is_refused() {
    let mut p = protocol();
    assert_eq!(p.store_state("k", &vec![1], 5).err(), Some(MembershipError::NoLeader));
    assert_eq!(p.get_state("k"), None);
}

#[test]
fn join_adds_member_and_syncs() {
    let mut p = protocol();
    let eff = p.process_join("n2", "10.0.0.2", 101);
    assert_eq!(member_state(&p, "n2"), Some(NodeState::Alive));
    assert_eq!(eff.len(), 2);
    assert!(matches!(&eff[0], MembershipEffect::Emit(MembershipEvent::MemberJoined(m)) if m.id == "n2"));
    assert!(matches!(&eff[1], MembershipEffect::Send { address, .. } if address == "10.0.0.2:7946"));
    let again = p.process_join("n2", "10.0.0.3", 102);
    assert_eq!(again.len(), 1);
}

#[test]
fn acknowledgement_clears_suspicion() {
    let mut p = protocol();
    p.process_join("n2", "10.0.0.2", 101);
    let eff = p.suspect_member("n2", 102, 5000);
    assert_eq!(eff.len(), 1);
    assert_eq!(member_state(&p, "n2"), Some(NodeState::Suspected));
    assert!(p.suspect_timers.iter().any(|(k, _)| k == "n2"));
    let eff = p.process_ack("n2", 4, 103);
    assert!(matches!(&eff[0], MembershipEffect::Emit(MembershipEvent::MemberAlive(m)) if m.incarnation == 4));
    assert_eq!(member_state(&p, "n2"), Some(NodeState::Alive));
    assert!(!p.suspect_timers.iter().any(|(k, _)| k == "n2"));
    assert!(p.process_ack("ghost", 1, 104).is_empty());
    assert!(p.suspect_member("ghost", 104, 1).is_empty());
}

#[test]
fn alive_members_exclude_suspected() {
    let mut p = protocol();
    p.process_join("n2", "10.0.0.2", 101);
    p.process_join("n3", "10.0.0.3", 101);
    p.suspect_member("n3", 102, 1);
    let alive: Vec<String> = p.get_alive_members().into_iter().map(|m| m.id).collect();
    assert_eq!(alive, vec!["n1".to_string(), "n2".to_string()]);
    let others: Vec<String> = p.alive_other_members().into_iter().map(|m| m.id).collect();
    assert_eq!(others, vec!["n2".to_string()]);
}

#[test]
fn decimal_text_parses_back() {
    for v in [0u64, 7, 10, 12345, u64::MAX] {
        assert_eq!(parse_u64(&decimal_string(v)), Some(v));
    }
    assert_eq!(parse_u64(""), None);
    assert_eq!(parse_u64("12a"), None);
    assert_eq!(parse_u64("18446744073709551616"), None);
    assert_eq!(host_port_string("10.0.0.9", 80), "10.0.0.9:80");
}
