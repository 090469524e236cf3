use hivemind::ipam::{IpAddress, IpNet, IpamError, IpamManager, Subnet};

fn ten(b: u32, c: u32, d: u32) -> u32 {
    (10 << 24) | (b << 16) | (c << 8) | d
}

fn manager() -> IpamManager {
    IpamManager::new(IpNet::V4 { addr: ten(0, 0, 0), prefix: 16 }, 24)
}

#[test]
fn node_subnets_in_order_and_stable() {
    let mut m = manager();
    assert_eq!(m.allocate_node_subnet("n1"), Ok(Subnet { addr: ten(0, 0, 0), prefix: 24 }));
    assert_eq!(m.allocate_node_subnet("n2"), Ok(Subnet { addr: ten(0, 1, 0), prefix: 24 }));
    assert_eq!(m.allocate_node_subnet("n1"), Ok(Subnet { addr: ten(0, 0, 0), prefix: 24 }));
}

#[test]
fn container_addresses_skip_network_and_gateway() {
    let mut m = manager();
    m.allocate_node_subnet("n1").unwrap();
    assert_eq!(m.allocate_container_ip("n1", "c1"), Ok(IpAddress::V4(ten(0, 0, 2))));
    assert_eq!(m.allocate_container_ip("n1", "c2"), Ok(IpAddress::V4(ten(0, 0, 3))));
    assert_eq!(m.allocate_container_ip("n1", "c1"), Ok(IpAddress::V4(ten(0, 0, 2))));
}

#[test]
fn released_address_is_reused() {
    let mut m = manager();
    m.allocate_node_subnet("n1").unwrap();
    m.allocate_container_ip("n1", "c1").unwrap();
    m.allocate_container_ip("n1", "c2").unwrap();
    assert_eq!(m.release_container_ip("n1", "c1"), Ok(()));
    assert_eq!(m.allocate_container_ip("n1", "c3"), Ok(IpAddress::V4(ten(0, 0, 2))));
}

#[test]
fn container_on_node_without_subnet() {
    let mut m = manager();
    assert_eq!(m.allocate_container_ip("nx", "c1"), Err(IpamError::NodeHasNoSubnet("nx".to_string())));
}

#[test]
fn static_addresses() {
    let mut m = manager();
    m.allocate_node_subnet("n1").unwrap();
    m.allocate_node_subnet("n2").unwrap();
    let ip = IpAddress::V4(ten(0, 1, 5));
    assert_eq!(m.assign_static_ip("c5", ip), Ok(()));
    assert_eq!(m.assign_static_ip("c6", ip), Err(IpamError::IpAlreadyAllocated(ip)));
    let outside = IpAddress::V4(ten(1, 0, 1));
    assert_eq!(m.assign_static_ip("c7", outside), Err(IpamError::IpNotInSubnet(outside)));
    let v6 = IpAddress::V6(1);
    assert_eq!(m.assign_static_ip("c8", v6), Err(IpamError::IpNotInSubnet(v6)));
    assert_eq!(m.allocate_container_ip("n2", "c9"), Ok(IpAddress::V4(ten(0, 1, 2))));
}

#[test]
fn releasing_node_subnet_drops_its_containers() {
    let mut m = manager();
    m.allocate_node_subnet("n1").unwrap();
    m.allocate_node_subnet("n2").unwrap();
    m.allocate_container_ip("n1", "c1").unwrap();
    m.allocate_container_ip("n2", "c2").unwrap();
    assert_eq!(m.release_node_subnet("n1"), Ok(()));
    assert!(m.container_ips.iter().all(|(c, _)| c != "c1"));
    assert!(m.container_ips.iter().any(|(c, _)| c == "c2"));
    assert_eq!(m.allocate_container_ip("n1", "c1"), Err(IpamError::NodeHasNoSubnet("n1".to_string())));
    assert_eq!(m.allocate_node_subnet("n3"), Ok(Subnet { addr: ten(0, 0, 0), prefix: 24 }));
}

#[test]
fn small_subnets_run_out() {
    let mut m = IpamManager::new(IpNet::V4 { addr: ten(0, 0, 0), prefix: 30 }, 31);
    let s = m.allocate_node_subnet("n1").unwrap();
    assert_eq!(s, Subnet { addr: ten(0, 0, 0), prefix: 31 });
    assert_eq!(m.allocate_node_subnet("n2"), Ok(Subnet { addr: ten(0, 0, 2), prefix: 31 }));
    assert_eq!(m.allocate_node_subnet("n3"), Err(IpamError::NoAvailableSubnets));
    assert_eq!(m.allocate_container_ip("n1", "c1"), Err(IpamError::NoAvailableIps(s)));
}

#[test]
fn ipv6_network_is_refused() {
    let mut m = IpamManager::new(IpNet::V6 { addr: 0, prefix: 48 }, 64);
    assert_eq!(m.allocate_node_subnet("n1"), Err(IpamError::Ipv6Unsupported));
}

#[test]
fn subnets_do_not_overlap() {
    let mut m = manager();
    let a = m.allocate_node_subnet("n1").unwrap();
    let b = m.allocate_node_subnet("n2").unwrap();
    let block = 1u32 << (32 - a.prefix);
    assert!(a.addr + block <= b.addr || b.addr + block <= a.addr);
}
