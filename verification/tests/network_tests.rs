use hivemind::ipam::{IpAddress, IpNet};
use hivemind::network::{
    cidr_string, gateway_ip, generate_mac_address, parse_cidr, validate_tenant_cidr, CidrPoolManager, NetworkError,
    OverlayNetwork, OverlayNetworkType,
};

fn pool(base: &str, size: u8, max: u32) -> CidrPoolManager {
    CidrPoolManager::new(base.to_string(), size, max)
}

#[test]
fn cidr_text_renders_dotted_quad() {
    assert_eq!(cidr_string(0x0a00_0000, 8), "10.0.0.0/8");
    assert_eq!(cidr_string(0xc0a8_0101, 32), "192.168.1.1/32");
}

#[test]
fn parse_cidr_reads_networks() {
    assert_eq!(parse_cidr("10.244.0.0/16"), Some(IpNet::V4 { addr: 0x0af4_0000, prefix: 16 }));
    assert_eq!(parse_cidr("::1/128"), Some(IpNet::V6 { addr: 1, prefix: 128 }));
    assert_eq!(parse_cidr("bogus"), None);
}

#[test]
fn allocate_cidr_gives_consecutive_subnets() {
    let mut p = pool("10.0.0.0/16", 24, 10);
    assert_eq!(p.allocate_cidr("t1"), Ok("10.0.0.0/24".to_string()));
    assert_eq!(p.allocate_cidr("t2"), Ok("10.0.1.0/24".to_string()));
    assert_eq!(p.get_allocated_cidrs().len(), 2);
}

#[test]
fn allocate_cidr_is_stable() {
    let mut p = pool("10.0.0.0/16", 24, 10);
    let first = p.allocate_cidr("t1").unwrap();
    let again = p.allocate_cidr("t1").unwrap();
    assert_eq!(first, again);
    assert_eq!(p.get_allocated_cidrs().len(), 1);
}

#[test]
fn released_cidr_is_reused() {
    let mut p = pool("10.0.0.0/16", 24, 10);
    p.allocate_cidr("t1").unwrap();
    p.allocate_cidr("t2").unwrap();
    assert_eq!(p.release_cidr("t1"), Ok(()));
    assert!(p.get_allocated_cidrs().iter().all(|(t, _)| t != "t1"));
    assert_eq!(p.allocate_cidr("t3"), Ok("10.0.0.0/24".to_string()));
}

#[test]
fn allocate_cidr_errors() {
    assert_eq!(pool("bogus", 24, 10).allocate_cidr("t"), Err(NetworkError::InvalidCidr("bogus".to_string())));
    assert_eq!(pool("10.0.0.0/16", 16, 10).allocate_cidr("t"), Err(NetworkError::SubnetNotSmaller));
    assert_eq!(pool("10.0.0.0/16", 8, 10).allocate_cidr("t"), Err(NetworkError::SubnetSizeOutOfRange));
    assert_eq!(pool("fd00::/64", 72, 10).allocate_cidr("t"), Err(NetworkError::Ipv6Unsupported));
    let mut p = pool("10.0.0.0/16", 24, 1);
    p.allocate_cidr("t1").unwrap();
    assert_eq!(p.allocate_cidr("t2"), Err(NetworkError::PoolExhausted));
}

#[test]
fn cidr_overlap_checks() {
    let mut p = pool("10.0.0.0/16", 24, 10);
    p.allocate_cidr("t1").unwrap();
    assert_eq!(p.check_cidr_overlap("10.0.0.128/25"), Ok(true));
    assert_eq!(p.check_cidr_overlap("10.0.0.0/16"), Ok(true));
    assert_eq!(p.check_cidr_overlap("10.0.1.0/24"), Ok(false));
    assert_eq!(p.check_cidr_overlap("fd00::/8"), Ok(false));
    assert_eq!(p.check_cidr_overlap("bad"), Err(NetworkError::InvalidCidr("bad".to_string())));
    assert_eq!(pool("10.0.0.0/16", 24, 10).check_cidr_overlap("10.0.0.0/8"), Ok(false));
}

#[test]
fn mac_address_from_id_bytes() {
    assert_eq!(generate_mac_address("abc"), "02:42:ac:61:62:63");
    assert_eq!(generate_mac_address("a"), "02:42:ac:61:00:00");
    assert_eq!(generate_mac_address(""), "02:42:ac:00:00:00");
    assert_eq!(generate_mac_address("\u{ff}z"), "02:42:ac:c3:bf:7a");
}

#[test]
fn gateway_is_first_host() {
    assert_eq!(gateway_ip(IpNet::V4 { addr: 0x0a00_0005, prefix: 24 }), Ok(IpAddress::V4(0x0a00_0001)));
    assert_eq!(gateway_ip(IpNet::V4 { addr: 0x0a00_0005, prefix: 32 }), Err(NetworkError::SubnetTooSmall));
    assert_eq!(gateway_ip(IpNet::V6 { addr: 1, prefix: 64 }), Err(NetworkError::Ipv6Unsupported));
}

#[test]
fn overlay_builders() {
    let o = OverlayNetwork::new(OverlayNetworkType::VXLAN, 42, 4789);
    assert_eq!(o.get_mtu(), 1450);
    assert_eq!(o.get_tunnel_interface(), "vxlan0");
    assert!(!o.encryption_enabled);
    let o = o.with_mtu(9000).with_tunnel_interface("vx1".to_string()).with_encryption("k".to_string());
    assert_eq!(o.get_mtu(), 9000);
    assert_eq!(o.get_tunnel_interface(), "vx1");
    assert!(o.encryption_enabled);
    assert_eq!(o.encryption_key, Some("k".to_string()));
    assert_eq!(o.vxlan_id, 42);
}

#[test]
fn tenant_cidr_must_not_overlap_other_tenants() {
    let tenants = vec![
        ("t1".to_string(), "10.0.0.0/16".to_string()),
        ("t2".to_string(), "10.1.0.0/24".to_string()),
    ];
    assert_eq!(validate_tenant_cidr("10.1.0.0/16", &tenants, "t3"), Ok(false));
    assert_eq!(validate_tenant_cidr("10.1.0.0/16", &tenants, "t2"), Ok(true));
    assert_eq!(validate_tenant_cidr("10.2.0.0/16", &tenants, "t3"), Ok(true));
    assert_eq!(validate_tenant_cidr("10.0.5.0/24", &tenants, "t2"), Ok(false));
    assert_eq!(validate_tenant_cidr("bad", &tenants, "t3"), Err(NetworkError::InvalidCidr("bad".to_string())));
    let broken = vec![("t1".to_string(), "nope".to_string())];
    assert_eq!(validate_tenant_cidr("10.2.0.0/16", &broken, "t3"), Err(NetworkError::InvalidCidr("nope".to_string())));
    assert_eq!(validate_tenant_cidr("10.2.0.0/16", &broken, "t1"), Ok(true));
}
