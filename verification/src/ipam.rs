//! IP address management: subnets for nodes carved out of the cluster network,
//! and addresses for containers inside their node's subnet.
use vstd::prelude::*;
use crate::assoc::{as_map, keys_distinct, find_key, insert_key, remove_key, key_pos, lemma_key_pos, lemma_as_map_index,
    lemma_as_map_dom, lemma_as_map_update, lemma_as_map_remove};
use crate::network::{pow2, pow2_u64, lemma_pow2_pos, lemma_pow2_mono, lemma_pow2_add, lemma_pow2_32, network_address, network_of,
    candidate, lemma_candidate_fits};
use crate::text::{owned, str_eq};

verus! {

/// An IPv4 subnet: its network address and prefix length.
#[derive(Debug, Clone, Copy, PartialEq, Eq, Structural)]
pub struct Subnet {
    pub addr: u32,
    pub prefix: u8,
}

/// An IP address.
#[derive(Debug, Clone, Copy, PartialEq, Eq, Structural)]
pub enum IpAddress {
    V4(u32),
    V6(u128),
}

/// A network in CIDR notation: an address and a prefix length.
#[derive(Debug, Clone, Copy, PartialEq, Eq, Structural)]
#[allow(inconsistent_fields)]
pub enum IpNet {
    V4 { addr: u32, prefix: u8 },
    V6 { addr: u128, prefix: u8 },
}

/// Errors of address management.
#[derive(Debug, Clone, PartialEq, Eq)]
pub enum IpamError {
    Ipv6Unsupported,
    NoAvailableSubnets,
    NodeHasNoSubnet(String),
    NoAvailableIps(Subnet),
    IpAlreadyAllocated(IpAddress),
    IpNotInSubnet(IpAddress),
}

/// The addresses of a subnet: `2^(32 - prefix)`.
pub open spec fn block(prefix: u8) -> nat {
    pow2((32 - prefix) as nat)
}

/// Whether `ip` lies in subnet `s`: it agrees with the subnet's address on the
/// first `prefix` bits.
pub open spec fn in_subnet(s: Subnet, ip: u32) -> bool {
    ip as int / block(s.prefix) as int == s.addr as int / block(s.prefix) as int
}

/// A subnet that is well placed: a prefix of at most 32 bits, an address at the
/// start of its block, and the block inside the address space.
pub open spec fn subnet_ok(s: Subnet) -> bool {
    &&& s.prefix <= 32
    &&& s.addr as int % block(s.prefix) as int == 0
    &&& s.addr as int + block(s.prefix) <= pow2(32)
}

/// A node's subnet and the addresses allocated in it.
pub struct NodeAllocation {
    pub subnet: Subnet,
    pub allocated: Vec<u32>,
}

/// The addresses of a list, as a set.
pub open spec fn addr_set(v: Seq<u32>) -> Set<u32> {
    Set::new(|x: u32| v.contains(x))
}

/// Mathematical value of a [`NodeAllocation`].
pub struct NodeAllocationView {
    pub subnet: Subnet,
    pub allocated: Set<u32>,
}

impl View for NodeAllocation {
    type V = NodeAllocationView;

    open spec fn view(&self) -> NodeAllocationView {
        NodeAllocationView { subnet: self.subnet, allocated: addr_set(self.allocated@) }
    }
}

/// Address management for the cluster network: each node's subnet (of prefix
/// `node_subnet_size`) with the addresses allocated in it, and each container's
/// address.
pub struct IpamManager {
    pub network_cidr: IpNet,
    pub node_subnet_size: u8,
    pub node_subnets: Vec<(String, NodeAllocation)>,
    pub container_ips: Vec<(String, u32)>,
}

/// Node subnets by node id.
pub open spec fn ipam_nodes(m: &IpamManager) -> Map<Seq<char>, NodeAllocationView> {
    as_map(m.node_subnets@).map_values(|a: NodeAllocation| a@)
}

/// Container addresses by container id.
pub open spec fn ipam_containers(m: &IpamManager) -> Map<Seq<char>, u32> {
    as_map(m.container_ips@)
}

/// Well-formedness: distinct keys; every node subnet well placed, of the node
/// subnet size, and held by one node only.
pub open spec fn ipam_wf(m: &IpamManager) -> bool {
    &&& keys_distinct(m.node_subnets@)
    &&& keys_distinct(m.container_ips@)
    &&& forall|i: int| 0 <= i < m.node_subnets@.len() ==> subnet_ok(#[trigger] m.node_subnets@[i].1.subnet)
        && m.node_subnets@[i].1.subnet.prefix == m.node_subnet_size
    &&& forall|i: int, j: int| 0 <= i < m.node_subnets@.len() && 0 <= j < m.node_subnets@.len() && i != j
        ==> #[trigger] m.node_subnets@[i].1.subnet.addr != #[trigger] m.node_subnets@[j].1.subnet.addr
}

/// Whether some node holds subnet `s`.
pub open spec fn subnet_used(nodes: Map<Seq<char>, NodeAllocationView>, s: Subnet) -> bool {
    exists|k: Seq<char>| nodes.contains_key(k) && #[trigger] nodes[k].subnet == s
}

/// The `i`-th candidate node subnet of prefix `size` in the network at `base`.
pub open spec fn node_candidate(base: int, size: u8, i: int) -> Subnet {
    Subnet { addr: candidate(base, size, i) as u32, prefix: size }
}

/// The first candidate index in `[i, limit)` whose subnet no node holds.
pub open spec fn first_free_subnet(nodes: Map<Seq<char>, NodeAllocationView>, base: int, size: u8, limit: int, i: int)
    -> Option<int>
    decreases limit - i,
{
    if i < 0 || i >= limit {
        None
    } else if !subnet_used(nodes, node_candidate(base, size, i)) {
        Some(i)
    } else {
        first_free_subnet(nodes, base, size, limit, i + 1)
    }
}

/// Whether node subnets of prefix `size` can be carved out of `net` within the
/// 32-bit arithmetic.
pub open spec fn subnet_fits(net: IpNet, size: u8) -> bool {
    match net {
        IpNet::V4 { addr, prefix } => prefix <= size <= 32 && size - prefix < 32,
        IpNet::V6 { prefix, .. } => prefix <= size && size - prefix < 32,
    }
}

/// A newly allocated node subnet, with no address allocated yet.
pub open spec fn fresh_allocation(s: Subnet) -> NodeAllocationView {
    NodeAllocationView { subnet: s, allocated: Set::empty() }
}

/// The position of the entry that holds subnet `s`, if any.
fn find_subnet(v: &Vec<(String, NodeAllocation)>, s: Subnet) -> (r: Option<usize>)
    ensures
        match r {
            Some(i) => i < v@.len() && v@[i as int].1.subnet == s,
            None => forall|i: int| 0 <= i < v@.len() ==> v@[i].1.subnet != s,
        },
{
    let mut i: usize = 0;
    while i < v.len()
        invariant
            i <= v.len(),
            forall|j: int| 0 <= j < i ==> v@[j].1.subnet != s,
        decreases v.len() - i,
    {
        if v[i].1.subnet == s {
            return Some(i);
        }
        i = i + 1;
    }
    None
}

/// Whether some node holds subnet `s`, read from the table.
proof fn lemma_subnet_used(v: Seq<(String, NodeAllocation)>, s: Subnet)
    requires
        keys_distinct(v),
    ensures
        subnet_used(as_map(v).map_values(|a: NodeAllocation| a@), s) <==> exists|i: int| 0 <= i < v.len() && v[i].1.subnet == s,
{
    let nodes = as_map(v).map_values(|a: NodeAllocation| a@);
    if exists|i: int| 0 <= i < v.len() && v[i].1.subnet == s {
        let i = choose|i: int| 0 <= i < v.len() && v[i].1.subnet == s;
        lemma_as_map_index(v, i);
        assert(nodes.contains_key(v[i].0@) && nodes[v[i].0@].subnet == s);
    }
    if subnet_used(nodes, s) {
        let k = choose|k: Seq<char>| nodes.contains_key(k) && #[trigger] nodes[k].subnet == s;
        lemma_key_pos(v, k);
    }
}

/// The first address in `[lo, hi]` not in `used`.
pub open spec fn first_free_host(used: Set<u32>, lo: int, hi: int) -> Option<int>
    decreases hi + 1 - lo,
{
    if lo > hi {
        None
    } else if !used.contains(lo as u32) {
        Some(lo)
    } else {
        first_free_host(used, lo + 1, hi)
    }
}

/// The address a container gets in subnet `s` with `used` taken: the first one
/// after the network address and the gateway (the subnet's first two addresses)
/// that is free, up to the last address of the subnet.
pub open spec fn host_for(s: Subnet, used: Set<u32>) -> Option<int> {
    first_free_host(used, s.addr + 2, s.addr + block(s.prefix) - 1)
}

/// Whether `x` is in the list.
pub fn contains_addr(v: &Vec<u32>, x: u32) -> (r: bool)
    ensures
        r == v@.contains(x),
{
    let mut i: usize = 0;
    while i < v.len()
        invariant
            i <= v.len(),
            forall|j: int| 0 <= j < i ==> v@[j] != x,
        decreases v.len() - i,
    {
        if v[i] == x {
            assert(v@[i as int] == x);
            return true;
        }
        i = i + 1;
    }
    false
}

/// The list without the occurrences of `x`, in order.
pub open spec fn drop_addr(s: Seq<u32>, x: u32) -> Seq<u32>
    decreases s.len(),
{
    if s.len() == 0 {
        s
    } else if s.last() == x {
        drop_addr(s.drop_last(), x)
    } else {
        drop_addr(s.drop_last(), x).push(s.last())
    }
}

/// Dropping `x` keeps exactly the other addresses.
pub proof fn lemma_drop_addr(s: Seq<u32>, x: u32, y: u32)
    ensures
        drop_addr(s, x).contains(y) <==> (y != x && s.contains(y)),
    decreases s.len(),
{
    if s.len() > 0 {
        lemma_drop_addr(s.drop_last(), x, y);
        let d = drop_addr(s.drop_last(), x);
        if s.drop_last().contains(y) {
            let k = choose|k: int| 0 <= k < s.drop_last().len() && s.drop_last()[k] == y;
            assert(s[k] == y);
        }
        if s.contains(y) && y != s.last() {
            let k = choose|k: int| 0 <= k < s.len() && s[k] == y;
            assert(s.drop_last()[k] == y);
        }
        if s.last() != x {
            if d.contains(y) {
                let k = choose|k: int| 0 <= k < d.len() && d[k] == y;
                assert(d.push(s.last())[k] == y);
            }
            if d.push(s.last()).contains(y) && y != s.last() {
                let k = choose|k: int| 0 <= k < d.len() + 1 && d.push(s.last())[k] == y;
                assert(d[k] == y);
            }
            assert(d.push(s.last())[d.len() as int] == s.last());
            assert(s[s.len() - 1] == s.last());
        } else {
            assert(s[s.len() - 1] == s.last());
        }
    }
}

/// The list without `x`.
pub fn without_addr(v: &Vec<u32>, x: u32) -> (r: Vec<u32>)
    ensures
        addr_set(r@) == addr_set(v@).remove(x),
{
    let mut r: Vec<u32> = Vec::new();
    let mut i: usize = 0;
    while i < v.len()
        invariant
            i <= v.len(),
            r@ == drop_addr(v@.take(i as int), x),
        decreases v.len() - i,
    {
        assert(v@.take(i + 1).drop_last() =~= v@.take(i as int));
        if v[i] != x {
            r.push(v[i]);
        }
        i = i + 1;
    }
    assert(v@.take(v@.len() as int) =~= v@);
    assert forall|y: u32| addr_set(r@).contains(y) <==> addr_set(v@).remove(x).contains(y) by {
        lemma_drop_addr(v@, x, y);
    }
    assert(addr_set(r@) =~= addr_set(v@).remove(x));
    r
}

/// A copy of a list of addresses.
fn copy_addrs(v: &Vec<u32>) -> (r: Vec<u32>)
    ensures
        r@ == v@,
{
    let mut r: Vec<u32> = Vec::new();
    let mut i: usize = 0;
    while i < v.len()
        invariant
            i <= v.len(),
            r@ == v@.take(i as int),
        decreases v.len() - i,
    {
        r.push(v[i]);
        i = i + 1;
        assert(r@ =~= v@.take(i as int));
    }
    assert(v@.take(v@.len() as int) =~= v@);
    r
}

/// Whether `ip` lies in subnet `s`.
pub fn subnet_contains(s: Subnet, ip: u32) -> (r: bool)
    requires
        s.prefix <= 32,
    ensures
        r == in_subnet(s, ip),
{
    let b = pow2_u64((32 - s.prefix) as u32);
    proof {
        lemma_pow2_pos((32 - s.prefix) as nat);
    }
    ip as u64 / b == s.addr as u64 / b
}

/// Two node subnets of one manager that both contain an address are the same entry.
proof fn lemma_holder_unique(m: &IpamManager, i: int, j: int, a: u32)
    requires
        ipam_wf(m),
        0 <= i < m.node_subnets@.len(),
        0 <= j < m.node_subnets@.len(),
        in_subnet(m.node_subnets@[i].1.subnet, a),
        in_subnet(m.node_subnets@[j].1.subnet, a),
    ensures
        i == j,
{
    let si = m.node_subnets@[i].1.subnet;
    let sj = m.node_subnets@[j].1.subnet;
    assert(subnet_ok(si) && subnet_ok(sj));
    let b = block(si.prefix) as int;
    lemma_pow2_pos((32 - si.prefix) as nat);
    assert(si.addr as int == (si.addr as int / b) * b) by (nonlinear_arith)
        requires si.addr as int % b == 0, b >= 1;
    assert(sj.addr as int == (sj.addr as int / b) * b) by (nonlinear_arith)
        requires sj.addr as int % b == 0, b >= 1;
    assert(si.addr == sj.addr);
}

/// The container addresses outside subnet `s`.
pub open spec fn outside_subnet(cm: Map<Seq<char>, u32>, s: Subnet) -> Map<Seq<char>, u32> {
    Map::new(|k: Seq<char>| cm.contains_key(k) && !in_subnet(s, cm[k]), |k: Seq<char>| cm[k])
}

/// The entries whose address lies outside subnet `s`, in order.
pub open spec fn outside_entries(v: Seq<(String, u32)>, s: Subnet) -> Seq<(String, u32)>
    decreases v.len(),
{
    if v.len() == 0 {
        v
    } else if in_subnet(s, v.last().1) {
        outside_entries(v.drop_last(), s)
    } else {
        outside_entries(v.drop_last(), s).push(v.last())
    }
}

/// Keeping the entries outside a subnet keeps the keys distinct and the map the
/// entries outside it.
proof fn lemma_outside_entries(v: Seq<(String, u32)>, s: Subnet)
    requires
        keys_distinct(v),
    ensures
        keys_distinct(outside_entries(v, s)),
        as_map(outside_entries(v, s)) == outside_subnet(as_map(v), s),
        forall|a: int| 0 <= a < outside_entries(v, s).len() ==> as_map(v).contains_key(#[trigger] outside_entries(v, s)[a].0@),
    decreases v.len(),
{
    if v.len() > 0 {
        let d = v.drop_last();
        assert(keys_distinct(d));
        lemma_outside_entries(d, s);
        let kd = outside_entries(d, s);
        let e = v.last();
        lemma_as_map_dom(d, e.0@);
        assert(!as_map(d).contains_key(e.0@)) by {
            assert forall|j: int| 0 <= j < d.len() implies d[j].0@ != e.0@ by {
                assert(d[j] == v[j]);
            }
        }
        if in_subnet(s, e.1) {
            assert(as_map(outside_entries(v, s)) =~= outside_subnet(as_map(v), s));
        } else {
            let kv = kd.push(e);
            assert forall|x: int, y: int| 0 <= x < kv.len() && 0 <= y < kv.len() && x != y implies kv[x].0@ != kv[y].0@ by {
                if x < kd.len() && y < kd.len() {
                    assert(kv[x] == kd[x] && kv[y] == kd[y]);
                } else if x == kd.len() {
                    assert(kv[y] == kd[y]);
                    assert(as_map(d).contains_key(kd[y].0@));
                } else {
                    assert(kv[x] == kd[x]);
                    assert(as_map(d).contains_key(kd[x].0@));
                }
            }
            assert(kv.drop_last() =~= kd);
            assert(as_map(outside_entries(v, s)) =~= outside_subnet(as_map(v), s));
        }
        assert forall|a: int| 0 <= a < outside_entries(v, s).len() implies as_map(v).contains_key(
            #[trigger] outside_entries(v, s)[a].0@) by {
            if a < kd.len() {
                assert(outside_entries(v, s)[a] == kd[a]);
            }
        }
    }
}

/// The entries whose address lies outside subnet `s`.
fn keep_outside(v: &Vec<(String, u32)>, s: Subnet) -> (r: Vec<(String, u32)>)
    requires
        s.prefix <= 32,
    ensures
        r@ == outside_entries(v@, s),
{
    let mut r: Vec<(String, u32)> = Vec::new();
    let mut i: usize = 0;
    while i < v.len()
        invariant
            i <= v.len(),
            s.prefix <= 32,
            r@ == outside_entries(v@.take(i as int), s),
        decreases v.len() - i,
    {
        assert(v@.take(i + 1).drop_last() =~= v@.take(i as int));
        if !subnet_contains(s, v[i].1) {
            r.push((v[i].0.clone(), v[i].1));
        }
        i = i + 1;
    }
    assert(v@.take(v@.len() as int) =~= v@);
    r
}

/// The node whose subnet contains `a`, if any (node subnets do not overlap).
#[verifier::opaque]
pub open spec fn subnet_holder(nodes: Map<Seq<char>, NodeAllocationView>, a: u32) -> Option<Seq<char>> {
    if exists|k: Seq<char>| nodes.contains_key(k) && #[trigger] in_subnet(nodes[k].subnet, a) {
        Some(choose|k: Seq<char>| nodes.contains_key(k) && #[trigger] in_subnet(nodes[k].subnet, a))
    } else {
        None
    }
}

impl IpamManager {
    /// A manager for `network_cidr` with node subnets of prefix `node_subnet_size`
    /// and nothing allocated.
    pub fn new(network_cidr: IpNet, node_subnet_size: u8) -> (m: Self)
        ensures
            ipam_wf(&m),
            m.network_cidr == network_cidr,
            m.node_subnet_size == node_subnet_size,
            ipam_nodes(&m) == Map::<Seq<char>, NodeAllocationView>::empty(),
            ipam_containers(&m) == Map::<Seq<char>, u32>::empty(),
    {
        let m = IpamManager { network_cidr, node_subnet_size, node_subnets: Vec::new(), container_ips: Vec::new() };
        assert(ipam_nodes(&m) =~= Map::<Seq<char>, NodeAllocationView>::empty());
        m
    }

    /// The subnet of node `node_id`: the one it holds, or the first candidate subnet
    /// (in address order) that no node holds, which it then holds with no address
    /// allocated. IPv6 networks are not supported.
    pub fn allocate_node_subnet(&mut self, node_id: &str) -> (r: Result<Subnet, IpamError>)
        requires
            ipam_wf(old(self)),
            subnet_fits(old(self).network_cidr, old(self).node_subnet_size),
        ensures
            ipam_wf(final(self)),
            final(self).network_cidr == old(self).network_cidr,
            final(self).node_subnet_size == old(self).node_subnet_size,
            final(self).container_ips == old(self).container_ips,
            if ipam_nodes(old(self)).contains_key(node_id@) {
                r == Ok::<Subnet, IpamError>(ipam_nodes(old(self))[node_id@].subnet)
                    && final(self).node_subnets@ == old(self).node_subnets@
            } else {
                match old(self).network_cidr {
                    IpNet::V6 { .. } => r == Err::<Subnet, IpamError>(IpamError::Ipv6Unsupported)
                        && final(self).node_subnets@ == old(self).node_subnets@,
                    IpNet::V4 { addr, prefix } => {
                        let base = network_address(addr, prefix);
                        let size = old(self).node_subnet_size;
                        match first_free_subnet(ipam_nodes(old(self)), base, size, pow2((size - prefix) as nat) as int, 0) {
                            Some(i) => r == Ok::<Subnet, IpamError>(node_candidate(base, size, i))
                                && ipam_nodes(final(self)) == ipam_nodes(old(self)).insert(node_id@,
                                    fresh_allocation(node_candidate(base, size, i))),
                            None => r == Err::<Subnet, IpamError>(IpamError::NoAvailableSubnets)
                                && final(self).node_subnets@ == old(self).node_subnets@,
                        }
                    },
                }
            },
    {
        let pos = find_key(&self.node_subnets, node_id);
        proof {
            lemma_key_pos(self.node_subnets@, node_id@);
        }
        if let Some(i) = pos {
            proof {
                lemma_as_map_index(self.node_subnets@, i as int);
            }
            return Ok(self.node_subnets[i].1.subnet);
        }
        let (addr, prefix) = match self.network_cidr {
            IpNet::V6 { .. } => {
                return Err(IpamError::Ipv6Unsupported);
            },
            IpNet::V4 { addr, prefix } => (addr, prefix),
        };
        let size = self.node_subnet_size;
        let bits = size - prefix;
        let limit: u64 = pow2_u64(bits as u32);
        let base: u32 = network_of(addr, prefix);
        let step: u64 = pow2_u64((32 - size) as u32);
        let ghost nodes = ipam_nodes(self);
        let mut i: u64 = 0;
        while i < limit
            invariant
                ipam_wf(self),
                self.node_subnets@ == old(self).node_subnets@,
                self.container_ips == old(self).container_ips,
                self.network_cidr == old(self).network_cidr,
                self.node_subnet_size == old(self).node_subnet_size,
                old(self).network_cidr == (IpNet::V4 { addr, prefix }),
                size == self.node_subnet_size,
                prefix <= size <= 32,
                bits == size - prefix,
                limit == pow2(bits as nat),
                step == block(size),
                base == network_address(addr, prefix),
                nodes == ipam_nodes(self),
                !nodes.contains_key(node_id@),
                0 <= i <= limit,
                first_free_subnet(nodes, base as int, size, limit as int, 0) == first_free_subnet(nodes, base as int, size,
                    limit as int, i as int),
            decreases limit - i,
        {
            proof {
                lemma_candidate_fits(addr, prefix, size, i as int);
                lemma_pow2_32();
            }
            let a: u32 = (base as u64 + i * step) as u32;
            assert(a == candidate(base as int, size, i as int));
            let s = Subnet { addr: a, prefix: size };
            let found = find_subnet(&self.node_subnets, s);
            proof {
                lemma_subnet_used(self.node_subnets@, s);
            }
            if found.is_none() {
                proof {
                    lemma_candidate_aligned(addr, prefix, size, i as int);
                }
                let ghost v0 = self.node_subnets@;
                insert_key(&mut self.node_subnets, owned(node_id), NodeAllocation { subnet: s, allocated: Vec::new() });
                proof {
                    lemma_key_pos(v0, node_id@);
                    assert(self.node_subnets@ == v0.push((self.node_subnets@.last().0, self.node_subnets@.last().1)));
                    assert(addr_set(Seq::<u32>::empty()) =~= Set::<u32>::empty());
                    assert(ipam_nodes(self) =~= nodes.insert(node_id@, fresh_allocation(s)));
                    assert forall|x: int, y: int| 0 <= x < self.node_subnets@.len() && 0 <= y < self.node_subnets@.len() && x != y
                        implies #[trigger] self.node_subnets@[x].1.subnet.addr != #[trigger] self.node_subnets@[y].1.subnet.addr by {
                        if x < v0.len() && y < v0.len() {
                            assert(self.node_subnets@[x] == v0[x] && self.node_subnets@[y] == v0[y]);
                        } else if x == v0.len() {
                            assert(self.node_subnets@[y] == v0[y]);
                            assert(v0[y].1.subnet.prefix == size);
                            assert(v0[y].1.subnet != s);
                        } else {
                            assert(self.node_subnets@[x] == v0[x]);
                            assert(v0[x].1.subnet.prefix == size);
                            assert(v0[x].1.subnet != s);
                        }
                    }
                    assert forall|x: int| 0 <= x < self.node_subnets@.len() implies subnet_ok(#[trigger] self.node_subnets@[x].1.subnet)
                        && self.node_subnets@[x].1.subnet.prefix == self.node_subnet_size by {
                        if x < v0.len() {
                            assert(self.node_subnets@[x] == v0[x]);
                        }
                    }
                }
                return Ok(s);
            }
            i = i + 1;
        }
        Err(IpamError::NoAvailableSubnets)
    }

    /// Replaces the addresses allocated in the subnet of entry `i`.
    fn set_allocated(&mut self, i: usize, allocated: Vec<u32>)
        requires
            ipam_wf(old(self)),
            i < old(self).node_subnets@.len(),
        ensures
            ipam_wf(final(self)),
            ipam_nodes(final(self)) == ipam_nodes(old(self)).insert(old(self).node_subnets@[i as int].0@,
                NodeAllocationView { subnet: old(self).node_subnets@[i as int].1.subnet, allocated: addr_set(allocated@) }),
            final(self).network_cidr == old(self).network_cidr,
            final(self).node_subnet_size == old(self).node_subnet_size,
            final(self).container_ips == old(self).container_ips,
    {
        let ghost v0 = self.node_subnets@;
        let key = self.node_subnets[i].0.clone();
        let subnet = self.node_subnets[i].1.subnet;
        let e = (key, NodeAllocation { subnet, allocated });
        proof {
            lemma_as_map_update(v0, i as int, e);
        }
        self.node_subnets.set(i, e);
        proof {
            assert(self.node_subnets@ == v0.update(i as int, e));
            assert(ipam_nodes(self) =~= ipam_nodes(old(self)).insert(v0[i as int].0@, e.1@));
            assert forall|x: int| 0 <= x < self.node_subnets@.len() implies subnet_ok(#[trigger] self.node_subnets@[x].1.subnet)
                && self.node_subnets@[x].1.subnet.prefix == self.node_subnet_size by {
                assert(self.node_subnets@[x].1.subnet == v0[x].1.subnet);
            }
            assert forall|x: int, y: int| 0 <= x < self.node_subnets@.len() && 0 <= y < self.node_subnets@.len() && x != y
                implies #[trigger] self.node_subnets@[x].1.subnet.addr != #[trigger] self.node_subnets@[y].1.subnet.addr by {
                assert(self.node_subnets@[x].1.subnet == v0[x].1.subnet);
                assert(self.node_subnets@[y].1.subnet == v0[y].1.subnet);
            }
        }
    }

    /// The address of container `container_id`: the one it holds, or the first free
    /// host address of node `node_id`'s subnet (see [`host_for`]), which the
    /// container then holds. A node without a subnet, or a subnet with no free
    /// address, is refused.
    pub fn allocate_container_ip(&mut self, node_id: &str, container_id: &str) -> (r: Result<IpAddress, IpamError>)
        requires
            ipam_wf(old(self)),
            !ipam_containers(old(self)).contains_key(container_id@) && ipam_nodes(old(self)).contains_key(node_id@)
                ==> old(self).node_subnet_size >= 1,
        ensures
            ipam_wf(final(self)),
            final(self).network_cidr == old(self).network_cidr,
            final(self).node_subnet_size == old(self).node_subnet_size,
            if ipam_containers(old(self)).contains_key(container_id@) {
                &&& r == Ok::<IpAddress, IpamError>(IpAddress::V4(ipam_containers(old(self))[container_id@]))
                &&& final(self).node_subnets@ == old(self).node_subnets@
                &&& final(self).container_ips@ == old(self).container_ips@
            } else if !ipam_nodes(old(self)).contains_key(node_id@) {
                &&& r matches Err(IpamError::NodeHasNoSubnet(x)) && x@ == node_id@
                &&& final(self).node_subnets@ == old(self).node_subnets@
                &&& final(self).container_ips@ == old(self).container_ips@
            } else {
                let a = ipam_nodes(old(self))[node_id@];
                match host_for(a.subnet, a.allocated) {
                    Some(ip) => {
                        &&& r == Ok::<IpAddress, IpamError>(IpAddress::V4(ip as u32))
                        &&& ipam_containers(final(self)) == ipam_containers(old(self)).insert(container_id@, ip as u32)
                        &&& ipam_nodes(final(self)) == ipam_nodes(old(self)).insert(node_id@,
                                NodeAllocationView { allocated: a.allocated.insert(ip as u32), ..a })
                    },
                    None => {
                        &&& r == Err::<IpAddress, IpamError>(IpamError::NoAvailableIps(a.subnet))
                        &&& final(self).node_subnets@ == old(self).node_subnets@
                        &&& final(self).container_ips@ == old(self).container_ips@
                    },
                }
            },
    {
        let held = find_key(&self.container_ips, container_id);
        proof {
            lemma_key_pos(self.container_ips@, container_id@);
        }
        if let Some(k) = held {
            proof {
                lemma_as_map_index(self.container_ips@, k as int);
            }
            return Ok(IpAddress::V4(self.container_ips[k].1));
        }
        let pos = find_key(&self.node_subnets, node_id);
        proof {
            lemma_key_pos(self.node_subnets@, node_id@);
        }
        let i = match pos {
            Some(i) => i,
            None => {
                return Err(IpamError::NodeHasNoSubnet(owned(node_id)));
            },
        };
        proof {
            lemma_as_map_index(self.node_subnets@, i as int);
        }
        let subnet = self.node_subnets[i].1.subnet;
        let ghost a = ipam_nodes(self)[node_id@];
        assert(a.subnet == subnet);
        assert(subnet_ok(subnet) && subnet.prefix == self.node_subnet_size);
        let b: u64 = pow2_u64((32 - subnet.prefix) as u32);
        proof {
            lemma_pow2_32();
            lemma_pow2_mono((32 - subnet.prefix) as nat, 31);
            reveal_with_fuel(pow2, 32);
        }
        let hi: u64 = subnet.addr as u64 + b - 1;
        let mut ip: u64 = subnet.addr as u64 + 2;
        while ip <= hi
            invariant
                ipam_wf(self),
                self.node_subnets@ == old(self).node_subnets@,
                self.container_ips@ == old(self).container_ips@,
                self.network_cidr == old(self).network_cidr,
                self.node_subnet_size == old(self).node_subnet_size,
                i < self.node_subnets@.len(),
                self.node_subnets@[i as int].0@ == node_id@,
                self.node_subnets@[i as int].1@ == a,
                subnet == a.subnet,
                hi == a.subnet.addr + block(a.subnet.prefix) - 1,
                hi < pow2(32),
                pow2(32) == 4294967296,
                a.subnet.addr + 2 <= ip,
                host_for(a.subnet, a.allocated) == first_free_host(a.allocated, ip as int, hi as int),
                !ipam_containers(old(self)).contains_key(container_id@),
                ipam_nodes(old(self)).contains_key(node_id@),
                ipam_nodes(old(self))[node_id@] == a,
            decreases hi + 1 - ip,
        {
            let cand = ip as u32;
            if !contains_addr(&self.node_subnets[i].1.allocated, cand) {
                assert(!a.allocated.contains(cand));
                assert(cand as int == ip as int);
                assert(first_free_host(a.allocated, ip as int, hi as int) == Some(ip as int));
                let mut allocated = copy_addrs(&self.node_subnets[i].1.allocated);
                allocated.push(cand);
                proof {
                    assert(addr_set(allocated@) =~= a.allocated.insert(cand)) by {
                        assert forall|y: u32| allocated@.contains(y) <==> (a.allocated.contains(y) || y == cand) by {
                            let old_v = self.node_subnets@[i as int].1.allocated@;
                            assert(allocated@ == old_v.push(cand));
                            if allocated@.contains(y) && y != cand {
                                let k = choose|k: int| 0 <= k < allocated@.len() && allocated@[k] == y;
                                assert(old_v[k] == y);
                            }
                            if old_v.contains(y) {
                                let k = choose|k: int| 0 <= k < old_v.len() && old_v[k] == y;
                                assert(allocated@[k] == y);
                            }
                            assert(allocated@[old_v.len() as int] == cand);
                        }
                    }
                }
                self.set_allocated(i, allocated);
                insert_key(&mut self.container_ips, owned(container_id), cand);
                assert(ipam_containers(self) == ipam_containers(old(self)).insert(container_id@, cand));
                assert(ipam_nodes(self) == ipam_nodes(old(self)).insert(node_id@,
                    NodeAllocationView { allocated: a.allocated.insert(cand), ..a }));
                assert(host_for(a.subnet, a.allocated) == Some(ip as int));
                assert((ip as int) as u32 == cand);
                return Ok(IpAddress::V4(cand));
            }
            ip = ip + 1;
        }
        Err(IpamError::NoAvailableIps(subnet))
    }

    /// Frees the subnet of node `node_id`, if it holds one, with the addresses of
    /// the containers inside it.
    pub fn release_node_subnet(&mut self, node_id: &str) -> (r: Result<(), IpamError>)
        requires
            ipam_wf(old(self)),
        ensures
            ipam_wf(final(self)),
            r is Ok,
            final(self).network_cidr == old(self).network_cidr,
            final(self).node_subnet_size == old(self).node_subnet_size,
            if ipam_nodes(old(self)).contains_key(node_id@) {
                &&& ipam_nodes(final(self)) == ipam_nodes(old(self)).remove(node_id@)
                &&& ipam_containers(final(self)) == outside_subnet(ipam_containers(old(self)),
                        ipam_nodes(old(self))[node_id@].subnet)
            } else {
                &&& final(self).node_subnets@ == old(self).node_subnets@
                &&& final(self).container_ips@ == old(self).container_ips@
            },
    {
        let pos = find_key(&self.node_subnets, node_id);
        proof {
            lemma_key_pos(self.node_subnets@, node_id@);
        }
        if let Some(i) = pos {
            proof {
                lemma_as_map_index(self.node_subnets@, i as int);
            }
            let s = self.node_subnets[i].1.subnet;
            let ghost v0 = self.node_subnets@;
            proof {
                lemma_as_map_remove(v0, i as int);
            }
            let _ = remove_key(&mut self.node_subnets, node_id);
            assert(self.node_subnets@ == v0.remove(i as int));
            assert(ipam_nodes(self) =~= ipam_nodes(old(self)).remove(node_id@));
            proof {
                lemma_outside_entries(self.container_ips@, s);
            }
            self.container_ips = keep_outside(&self.container_ips, s);
            proof {
                assert forall|x: int| 0 <= x < self.node_subnets@.len() implies subnet_ok(#[trigger] self.node_subnets@[x].1.subnet)
                    && self.node_subnets@[x].1.subnet.prefix == self.node_subnet_size by {
                    let x2 = if x < i { x } else { x + 1 };
                    assert(self.node_subnets@[x] == v0[x2]);
                }
                assert forall|x: int, y: int| 0 <= x < self.node_subnets@.len() && 0 <= y < self.node_subnets@.len() && x != y
                    implies #[trigger] self.node_subnets@[x].1.subnet.addr != #[trigger] self.node_subnets@[y].1.subnet.addr by {
                    let x2 = if x < i { x } else { x + 1 };
                    let y2 = if y < i { y } else { y + 1 };
                    assert(self.node_subnets@[x] == v0[x2]);
                    assert(self.node_subnets@[y] == v0[y2]);
                }
            }
        }
        Ok(())
    }

    /// Gives container `container_id` the fixed address `ip`, which must lie in a
    /// node's subnet (see [`subnet_holder`]) and be free there.
    pub fn assign_static_ip(&mut self, container_id: &str, ip: IpAddress) -> (r: Result<(), IpamError>)
        requires
            ipam_wf(old(self)),
        ensures
            ipam_wf(final(self)),
            final(self).network_cidr == old(self).network_cidr,
            final(self).node_subnet_size == old(self).node_subnet_size,
            match ip {
                IpAddress::V6(_) => r == Err::<(), IpamError>(IpamError::IpNotInSubnet(ip))
                    && final(self).node_subnets@ == old(self).node_subnets@
                    && final(self).container_ips@ == old(self).container_ips@,
                IpAddress::V4(a) => match subnet_holder(ipam_nodes(old(self)), a) {
                    None => r == Err::<(), IpamError>(IpamError::IpNotInSubnet(ip))
                        && final(self).node_subnets@ == old(self).node_subnets@
                        && final(self).container_ips@ == old(self).container_ips@,
                    Some(k) => {
                        let n = ipam_nodes(old(self))[k];
                        if n.allocated.contains(a) {
                            &&& r == Err::<(), IpamError>(IpamError::IpAlreadyAllocated(ip))
                            &&& final(self).node_subnets@ == old(self).node_subnets@
                            &&& final(self).container_ips@ == old(self).container_ips@
                        } else {
                            &&& r is Ok
                            &&& ipam_containers(final(self)) == ipam_containers(old(self)).insert(container_id@, a)
                            &&& ipam_nodes(final(self)) == ipam_nodes(old(self)).insert(k,
                                    NodeAllocationView { allocated: n.allocated.insert(a), ..n })
                        }
                    },
                },
            },
    {
        let a = match ip {
            IpAddress::V6(_) => {
                return Err(IpamError::IpNotInSubnet(ip));
            },
            IpAddress::V4(a) => a,
        };
        let ghost nodes = ipam_nodes(self);
        let mut i: usize = 0;
        while i < self.node_subnets.len()
            invariant
                ipam_wf(self),
                self == old(self),
                nodes == ipam_nodes(self),
                ip == IpAddress::V4(a),
                i <= self.node_subnets.len(),
                forall|j: int| 0 <= j < i ==> !in_subnet(#[trigger] self.node_subnets@[j].1.subnet, a),
            decreases self.node_subnets.len() - i,
        {
            assert(subnet_ok(self.node_subnets@[i as int].1.subnet));
            if subnet_contains(self.node_subnets[i].1.subnet, a) {
                let ghost k = self.node_subnets@[i as int].0@;
                proof {
                    lemma_as_map_index(self.node_subnets@, i as int);
                    reveal(subnet_holder);
                    assert(nodes.contains_key(k) && in_subnet(nodes[k].subnet, a));
                    let c = choose|c: Seq<char>| nodes.contains_key(c) && #[trigger] in_subnet(nodes[c].subnet, a);
                    lemma_key_pos(self.node_subnets@, c);
                    let j = key_pos(self.node_subnets@, c)->0;
                    lemma_holder_unique(self, i as int, j, a);
                    assert(subnet_holder(nodes, a) == Some(k));
                }
                if contains_addr(&self.node_subnets[i].1.allocated, a) {
                    return Err(IpamError::IpAlreadyAllocated(ip));
                }
                let ghost n = nodes[k];
                let mut allocated = copy_addrs(&self.node_subnets[i].1.allocated);
                allocated.push(a);
                proof {
                    assert(addr_set(allocated@) =~= n.allocated.insert(a)) by {
                        let old_v = self.node_subnets@[i as int].1.allocated@;
                        assert(allocated@ == old_v.push(a));
                        assert forall|y: u32| allocated@.contains(y) <==> (n.allocated.contains(y) || y == a) by {
                            if allocated@.contains(y) && y != a {
                                let q = choose|q: int| 0 <= q < allocated@.len() && allocated@[q] == y;
                                assert(old_v[q] == y);
                            }
                            if old_v.contains(y) {
                                let q = choose|q: int| 0 <= q < old_v.len() && old_v[q] == y;
                                assert(allocated@[q] == y);
                            }
                            assert(allocated@[old_v.len() as int] == a);
                        }
                    }
                }
                self.set_allocated(i, allocated);
                insert_key(&mut self.container_ips, owned(container_id), a);
                return Ok(());
            }
            i = i + 1;
        }
        proof {
            reveal(subnet_holder);
            if exists|c: Seq<char>| nodes.contains_key(c) && #[trigger] in_subnet(nodes[c].subnet, a) {
                let c = choose|c: Seq<char>| nodes.contains_key(c) && #[trigger] in_subnet(nodes[c].subnet, a);
                lemma_key_pos(self.node_subnets@, c);
                let j = key_pos(self.node_subnets@, c)->0;
                assert(!in_subnet(self.node_subnets@[j].1.subnet, a));
            }
        }
        Err(IpamError::IpNotInSubnet(ip))
    }

    /// Frees the address of container `container_id`, if it holds one, in the
    /// subnet of node `node_id`.
    pub fn release_container_ip(&mut self, node_id: &str, container_id: &str) -> (r: Result<(), IpamError>)
        requires
            ipam_wf(old(self)),
        ensures
            ipam_wf(final(self)),
            r is Ok,
            final(self).network_cidr == old(self).network_cidr,
            final(self).node_subnet_size == old(self).node_subnet_size,
            if ipam_containers(old(self)).contains_key(container_id@) {
                let ip = ipam_containers(old(self))[container_id@];
                &&& ipam_containers(final(self)) == ipam_containers(old(self)).remove(container_id@)
                &&& ipam_nodes(final(self)) == (if ipam_nodes(old(self)).contains_key(node_id@) {
                        let a = ipam_nodes(old(self))[node_id@];
                        ipam_nodes(old(self)).insert(node_id@, NodeAllocationView { allocated: a.allocated.remove(ip), ..a })
                    } else {
                        ipam_nodes(old(self))
                    })
            } else {
                &&& final(self).node_subnets@ == old(self).node_subnets@
                &&& final(self).container_ips@ == old(self).container_ips@
            },
    {
        let ghost c0 = self.container_ips@;
        proof {
            lemma_key_pos(c0, container_id@);
        }
        let removed = remove_key(&mut self.container_ips, container_id);
        match removed {
            Some(ip) => {
                proof {
                    lemma_as_map_index(c0, key_pos(c0, container_id@)->0);
                }
                let pos = find_key(&self.node_subnets, node_id);
                proof {
                    lemma_key_pos(self.node_subnets@, node_id@);
                }
                if let Some(i) = pos {
                    proof {
                        lemma_as_map_index(self.node_subnets@, i as int);
                    }
                    let kept = without_addr(&self.node_subnets[i].1.allocated, ip);
                    self.set_allocated(i, kept);
                }
                Ok(())
            },
            None => Ok(()),
        }
    }
}

/// A candidate node subnet is well placed.
proof fn lemma_candidate_aligned(a: u32, pre: u8, size: u8, i: int)
    requires
        pre <= size <= 32,
        0 <= i < pow2((size - pre) as nat),
    ensures
        subnet_ok(node_candidate(network_address(a, pre), size, i)),
{
    lemma_candidate_fits(a, pre, size, i);
    lemma_pow2_32();
    let small = pow2((32 - size) as nat);
    let k = pow2((size - pre) as nat);
    let big = pow2((32 - pre) as nat);
    lemma_pow2_add((size - pre) as nat, (32 - size) as nat);
    assert(((size - pre) + (32 - size)) as nat == (32 - pre) as nat);
    lemma_pow2_pos((32 - size) as nat);
    lemma_pow2_pos((32 - pre) as nat);
    let q = a as int / big as int;
    assert(q >= 0) by (nonlinear_arith)
        requires q == a as int / big as int, big >= 1, a >= 0;
    let c = candidate(network_address(a, pre), size, i);
    assert(c == q * big + i * small);
    assert(c == (q * k + i) * small) by (nonlinear_arith)
        requires c == q * big + i * small, big == k * small;
    assert(c % (small as int) == 0) by (nonlinear_arith)
        requires c == (q * k + i) * small, small >= 1, q >= 0, i >= 0, k >= 1;
    assert(node_candidate(network_address(a, pre), size, i).addr == c);
}

} // verus!
