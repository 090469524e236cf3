//! Network configuration and address management: the tenant CIDR pool, IPv4
//! address arithmetic and rendering, and container MAC addresses.
use vstd::prelude::*;
use crate::assoc::{as_map, keys_distinct, find_key, insert_key, remove_key, get_key, key_pos, lemma_key_pos, lemma_as_map_index, lemma_as_map_dom, value_seq};
use crate::ipam::{IpNet, IpAddress};
use crate::text::{decimal, owned, push_str, push_char, push_decimal, push_hex2, hex2, str_eq, chars_of};

verus! {

/// The default pod network.
pub const DEFAULT_NETWORK_CIDR: &'static str = "10.244.0.0/16";
/// The default prefix length of a node's subnet.
pub const DEFAULT_NODE_SUBNET_SIZE: u8 = 24;
/// The default VXLAN network identifier.
pub const DEFAULT_VXLAN_ID: u16 = 42;
/// The default VXLAN UDP port.
pub const DEFAULT_VXLAN_PORT: u16 = 4789;

/// Kinds of overlay network.
#[derive(Debug, Clone, Copy, PartialEq, Eq, Structural)]
pub enum OverlayNetworkType {
    VXLAN,
    Geneve,
    WireGuard,
    IPsec,
}

/// Network state of a node.
#[derive(Debug, Clone, Copy, PartialEq, Eq, Structural)]
pub enum NodeNetworkState {
    Initializing,
    Ready,
    Degraded,
    Disconnected,
}

impl Default for NodeNetworkState {
    fn default() -> (r: Self)
        ensures
            r == NodeNetworkState::Initializing,
    {
        NodeNetworkState::Initializing
    }
}

/// Kinds of network policy.
#[derive(Debug, Clone, PartialEq, Eq)]
pub enum PolicyType {
    Isolation,
    Security,
    QoS,
    Custom(String),
}

/// What a network policy does with matching traffic.
#[derive(Debug, Clone, Copy, PartialEq, Eq, Structural)]
pub enum PolicyAction {
    Allow,
    Deny,
    /// Rate limit in Kbps.
    Limit(u32),
    Log,
}

/// Transport protocols.
#[derive(Debug, Clone, Copy, PartialEq, Eq, Structural)]
pub enum Protocol {
    TCP,
    UDP,
}

/// Selects endpoints by their labels.
#[derive(Debug, Clone)]
pub struct NetworkSelector {
    pub labels: Vec<(String, String)>,
}

/// A range of ports of one protocol.
#[derive(Debug, Clone, Copy, PartialEq, Eq, Structural)]
pub struct PortRange {
    pub protocol: Protocol,
    pub port_min: u16,
    pub port_max: u16,
}

/// Network traffic counters.
#[derive(Debug, Clone, Copy, PartialEq, Eq, Structural)]
pub struct NetworkMetrics {
    pub total_containers: usize,
    pub total_tunnels: usize,
    pub total_policies: usize,
    pub bytes_transmitted: u64,
    pub bytes_received: u64,
    pub packets_transmitted: u64,
    pub packets_received: u64,
    pub packet_errors: u64,
    pub tunnel_failures: u64,
    pub policy_violations: u64,
}

impl Default for NetworkMetrics {
    fn default() -> (r: Self)
        ensures
            r == (NetworkMetrics {
                total_containers: 0, total_tunnels: 0, total_policies: 0, bytes_transmitted: 0, bytes_received: 0,
                packets_transmitted: 0, packets_received: 0, packet_errors: 0, tunnel_failures: 0, policy_violations: 0,
            }),
    {
        NetworkMetrics {
            total_containers: 0, total_tunnels: 0, total_policies: 0, bytes_transmitted: 0, bytes_received: 0,
            packets_transmitted: 0, packets_received: 0, packet_errors: 0, tunnel_failures: 0, policy_violations: 0,
        }
    }
}

/// Network configuration of the platform.
#[derive(Debug, Clone)]
pub struct NetworkConfig {
    pub network_cidr: String,
    pub node_subnet_size: u8,
    pub overlay_type: OverlayNetworkType,
    pub vxlan_id: u16,
    pub vxlan_port: u16,
    pub mtu: u32,
    pub enable_ipv6: bool,
    pub enable_encryption: bool,
    pub encryption_key: Option<String>,
}

impl Default for NetworkConfig {
    fn default() -> (c: Self)
        ensures
            c.network_cidr@ == DEFAULT_NETWORK_CIDR@,
            c.node_subnet_size == DEFAULT_NODE_SUBNET_SIZE,
            c.overlay_type == OverlayNetworkType::VXLAN,
            c.vxlan_id == DEFAULT_VXLAN_ID,
            c.vxlan_port == DEFAULT_VXLAN_PORT,
            c.mtu == 1450,
            !c.enable_ipv6,
            !c.enable_encryption,
            c.encryption_key is None,
    {
        NetworkConfig {
            network_cidr: owned(DEFAULT_NETWORK_CIDR),
            node_subnet_size: DEFAULT_NODE_SUBNET_SIZE,
            overlay_type: OverlayNetworkType::VXLAN,
            vxlan_id: DEFAULT_VXLAN_ID,
            vxlan_port: DEFAULT_VXLAN_PORT,
            mtu: 1450,
            enable_ipv6: false,
            enable_encryption: false,
            encryption_key: None,
        }
    }
}

/// Errors of address management.
#[derive(Debug, Clone, PartialEq, Eq)]
pub enum NetworkError {
    /// The text is not a network in CIDR notation.
    InvalidCidr(String),
    /// The subnet prefix is not longer than the base network's.
    SubnetNotSmaller,
    /// The subnet size cannot be split out of the base network.
    SubnetSizeOutOfRange,
    Ipv6Unsupported,
    PoolExhausted,
    /// The subnet has no address for a gateway.
    SubnetTooSmall,
}

/// `2^n`.
pub open spec fn pow2(n: nat) -> nat
    decreases n,
{
    if n == 0 { 1 } else { 2 * pow2((n - 1) as nat) }
}

/// `2^n` is positive.
pub proof fn lemma_pow2_pos(n: nat)
    ensures
        pow2(n) >= 1,
    decreases n,
{
    if n > 0 {
        lemma_pow2_pos((n - 1) as nat);
    }
}

/// `2^n` grows with `n`.
pub proof fn lemma_pow2_mono(a: nat, b: nat)
    requires
        a <= b,
    ensures
        pow2(a) <= pow2(b),
    decreases b,
{
    lemma_pow2_pos(b);
    if a < b {
        lemma_pow2_mono(a, (b - 1) as nat);
        lemma_pow2_pos((b - 1) as nat);
    }
}

/// `2^32`.
pub proof fn lemma_pow2_32()
    ensures
        pow2(32) == 4294967296,
{
    reveal_with_fuel(pow2, 33);
}

/// `2^63`.
pub proof fn lemma_pow2_63()
    ensures
        pow2(63) == 9223372036854775808,
{
    reveal_with_fuel(pow2, 64);
}

/// `2^(a+b) = 2^a * 2^b`.
pub proof fn lemma_pow2_add(a: nat, b: nat)
    ensures
        pow2(a + b) == pow2(a) * pow2(b),
    decreases a,
{
    if a > 0 {
        let c = (a - 1) as nat;
        lemma_pow2_add(c, b);
        assert(a + b == (c + b) + 1);
        assert(pow2((c + b + 1) as nat) == 2 * pow2((c + b) as nat));
        assert(pow2(a) == 2 * pow2(c));
        let x = pow2(c);
        let y = pow2(b);
        assert(pow2(c + b) == x * y);
        assert(2 * (x * y) == (2 * x) * y) by (nonlinear_arith);
        assert(pow2(a + b) == pow2(a) * pow2(b));
    } else {
        assert(pow2(0) == 1);
        assert(a + b == b);
    }
}

/// `2^n` as a machine integer.
pub fn pow2_u64(n: u32) -> (r: u64)
    requires
        n < 64,
    ensures
        r == pow2(n as nat),
{
    proof {
        lemma_pow2_63();
    }
    let mut r: u64 = 1;
    let mut i: u32 = 0;
    while i < n
        invariant
            i <= n < 64,
            r == pow2(i as nat),
            pow2(63) == 9223372036854775808,
        decreases n - i,
    {
        proof {
            lemma_pow2_mono(i as nat + 1, 63);
            assert(pow2((i + 1) as nat) == 2 * pow2(i as nat));
        }
        r = r * 2;
        i = i + 1;
    }
    r
}

/// The dotted-quad rendering of an IPv4 address.
pub open spec fn dotted(addr: u32) -> Seq<char> {
    decimal((addr / 16777216) as nat) + "."@ + decimal(((addr / 65536) % 256) as nat) + "."@
        + decimal(((addr / 256) % 256) as nat) + "."@ + decimal((addr % 256) as nat)
}

/// CIDR notation: address, a slash and the prefix length.
pub open spec fn cidr_text(addr: u32, prefix: u8) -> Seq<char> {
    dotted(addr) + "/"@ + decimal(prefix as nat)
}

/// Appends the dotted-quad rendering of an IPv4 address.
pub fn push_dotted(s: &mut String, addr: u32)
    ensures
        final(s)@ == old(s)@ + dotted(addr),
{
    push_decimal(s, (addr / 16777216) as u64);
    push_str(s, ".");
    push_decimal(s, ((addr / 65536) % 256) as u64);
    push_str(s, ".");
    push_decimal(s, ((addr / 256) % 256) as u64);
    push_str(s, ".");
    push_decimal(s, (addr % 256) as u64);
    assert(final(s)@ =~= old(s)@ + dotted(addr));
}

/// The CIDR text of `addr/prefix`.
pub fn cidr_string(addr: u32, prefix: u8) -> (r: String)
    ensures
        r@ == cidr_text(addr, prefix),
{
    let mut r = String::new();
    push_dotted(&mut r, addr);
    push_str(&mut r, "/");
    push_decimal(&mut r, prefix as u64);
    assert(r@ =~= cidr_text(addr, prefix));
    r
}

/// The network address of `addr` under a prefix of `prefix` bits: its low
/// `32 - prefix` bits cleared.
pub open spec fn network_address(addr: u32, prefix: u8) -> int {
    (addr as int / pow2((32 - prefix) as nat) as int) * pow2((32 - prefix) as nat) as int
}

/// What `IpNetwork::from_str` makes of a text: the network written (its address
/// as written and its prefix length), or `None` when the text is not one.
pub uninterp spec fn parsed_cidr(s: Seq<char>) -> Option<IpNet>;

/// Parses a network in CIDR notation (`IpNetwork::from_str`). Its source gives: an
/// IPv4 prefix is at most 32, an IPv6 prefix at most 128.
#[verifier::external_body]
pub fn parse_cidr(s: &str) -> (r: Option<IpNet>)
    ensures
        r == parsed_cidr(s@),
        match r {
            Some(IpNet::V4 { prefix, .. }) => prefix <= 32,
            Some(IpNet::V6 { prefix, .. }) => prefix <= 128,
            None => true,
        },
{
    match <ipnetwork::IpNetwork as std::str::FromStr>::from_str(s) {
        Ok(ipnetwork::IpNetwork::V4(n)) => Some(IpNet::V4 { addr: u32::from(n.ip()), prefix: n.prefix() }),
        Ok(ipnetwork::IpNetwork::V6(n)) => Some(IpNet::V6 { addr: u128::from(n.ip()), prefix: n.prefix() }),
        Err(_) => None,
    }
}

/// A parsed network as the pool uses it: whether it is IPv4, its IPv4 address (0
/// for IPv6) and its prefix length.
pub open spec fn cidr_parts(o: Option<IpNet>) -> Option<(bool, u32, u8)> {
    match o {
        Some(IpNet::V4 { addr, prefix }) => Some((true, addr, prefix)),
        Some(IpNet::V6 { prefix, .. }) => Some((false, 0, prefix)),
        None => None,
    }
}

/// See [`cidr_parts`].
pub fn cidr_parts_of(o: Option<IpNet>) -> (r: Option<(bool, u32, u8)>)
    ensures
        r == cidr_parts(o),
{
    match o {
        Some(IpNet::V4 { addr, prefix }) => Some((true, addr, prefix)),
        Some(IpNet::V6 { prefix, .. }) => Some((false, 0, prefix)),
        None => None,
    }
}

/// The network address of `addr/prefix`.
pub fn network_of(addr: u32, prefix: u8) -> (r: u32)
    requires
        prefix <= 32,
    ensures
        r == network_address(addr, prefix),
{
    let block = pow2_u64((32 - prefix) as u32);
    proof {
        lemma_pow2_mono((32 - prefix) as nat, 32);
        lemma_pow2_pos((32 - prefix) as nat);
    }
    let q = addr as u64 / block;
    assert(q * block <= addr) by (nonlinear_arith)
        requires q == addr as u64 / block, block >= 1;
    let r = q * block;
    r as u32
}

/// `2^n` as a 128-bit machine integer.
pub fn pow2_u128(n: u32) -> (r: u128)
    requires
        n < 128,
    ensures
        r == pow2(n as nat),
{
    proof {
        lemma_pow2_128();
    }
    let mut r: u128 = 1;
    let mut i: u32 = 0;
    while i < n
        invariant
            i <= n < 128,
            r == pow2(i as nat),
            pow2(127) == 0x8000_0000_0000_0000_0000_0000_0000_0000,
        decreases n - i,
    {
        proof {
            lemma_pow2_mono(i as nat + 1, 127);
            assert(pow2((i + 1) as nat) == 2 * pow2(i as nat));
        }
        r = r * 2;
        i = i + 1;
    }
    r
}

/// The bits of an address of network `n`: 32 for IPv4, 128 for IPv6.
pub open spec fn addr_bits(n: IpNet) -> nat {
    match n {
        IpNet::V4 { .. } => 32,
        IpNet::V6 { .. } => 128,
    }
}

/// The address and prefix length of a network.
pub open spec fn net_addr(n: IpNet) -> int {
    match n {
        IpNet::V4 { addr, .. } => addr as int,
        IpNet::V6 { addr, .. } => addr as int,
    }
}

/// The prefix length of a network.
pub open spec fn net_prefix(n: IpNet) -> nat {
    match n {
        IpNet::V4 { prefix, .. } => prefix as nat,
        IpNet::V6 { prefix, .. } => prefix as nat,
    }
}

/// The network address of `n`: its address with the host bits cleared.
pub open spec fn net_base(n: IpNet) -> int {
    let b = pow2((addr_bits(n) - net_prefix(n)) as nat) as int;
    (net_addr(n) / b) * b
}

/// Whether network `n` contains the network address of `m`: both of one family,
/// and the address agreeing with `n`'s on its first prefix bits.
pub open spec fn contains_base(n: IpNet, m: IpNet) -> bool {
    let b = pow2((addr_bits(n) - net_prefix(n)) as nat) as int;
    addr_bits(n) == addr_bits(m) && net_base(m) / b == net_addr(n) / b
}

/// Two networks overlap: one contains the network address of the other.
pub open spec fn nets_overlap(n: IpNet, m: IpNet) -> bool {
    contains_base(n, m) || contains_base(m, n)
}

/// A parsed network's prefix is within its family's address length.
pub open spec fn prefix_ok(n: IpNet) -> bool {
    net_prefix(n) <= addr_bits(n)
}

/// The outcome of checking network `n` against the texts in order: `true` at the
/// first one it overlaps, the first text that is no network, or `false`.
pub open spec fn overlap_scan(n: IpNet, texts: Seq<Seq<char>>) -> Result<bool, Seq<char>>
    decreases texts.len(),
{
    if texts.len() == 0 {
        Ok(false)
    } else {
        match parsed_cidr(texts[0]) {
            None => Err(texts[0]),
            Some(m) => if nets_overlap(n, m) { Ok(true) } else { overlap_scan(n, texts.drop_first()) },
        }
    }
}

/// Splits a network into its address and the size of its blocks when that size
/// fits in 128 bits: `(address, Some(block))`, or `None` for a whole address space.
fn net_parts(n: IpNet) -> (r: (u128, Option<u128>))
    requires
        prefix_ok(n),
    ensures
        r.0 == net_addr(n),
        match r.1 {
            Some(b) => b == pow2((addr_bits(n) - net_prefix(n)) as nat) && b >= 1,
            None => addr_bits(n) == 128 && net_prefix(n) == 0,
        },
{
    match n {
        IpNet::V4 { addr, prefix } => {
            proof {
                lemma_pow2_pos((32 - prefix) as nat);
            }
            (addr as u128, Some(pow2_u64((32 - prefix) as u32) as u128))
        },
        IpNet::V6 { addr, prefix } => {
            if prefix == 0 {
                (addr, None)
            } else {
                proof {
                    lemma_pow2_pos((128 - prefix) as nat);
                }
                (addr, Some(pow2_u128((128 - prefix) as u32)))
            }
        },
    }
}

/// Whether `n` contains the network address of `m` (see [`contains_base`]).
fn contains_base_exec(n: IpNet, m: IpNet) -> (r: bool)
    requires
        prefix_ok(n),
        prefix_ok(m),
    ensures
        r == contains_base(n, m),
{
    let same = match (n, m) {
        (IpNet::V4 { .. }, IpNet::V4 { .. }) => true,
        (IpNet::V6 { .. }, IpNet::V6 { .. }) => true,
        _ => false,
    };
    if !same {
        return false;
    }
    let (ma, mb) = net_parts(m);
    let base: u128 = match mb {
        Some(b) => {
            assert((ma / b) * b <= ma) by (nonlinear_arith)
                requires b >= 1, ma >= 0;
            (ma / b) * b
        },
        None => 0,
    };
    proof {
        if mb is None {
            lemma_pow2_128();
            assert(net_addr(m) / pow2(128) as int == 0) by (nonlinear_arith)
                requires 0 <= net_addr(m) < pow2(128) as int, pow2(128) >= 1;
        }
    }
    assert(base == net_base(m));
    let (na, nb) = net_parts(n);
    match nb {
        Some(b) => base / b == na / b,
        None => {
            proof {
                lemma_pow2_128();
                assert(base as int / pow2(128) as int == 0 && na as int / pow2(128) as int == 0) by (nonlinear_arith)
                    requires 0 <= base < pow2(128) as int, 0 <= na < pow2(128) as int, pow2(128) >= 1;
            }
            true
        },
    }
}

/// `2^127` and `2^128`.
pub proof fn lemma_pow2_128()
    ensures
        pow2(127) == 0x8000_0000_0000_0000_0000_0000_0000_0000,
        pow2(128) == 0x1_0000_0000_0000_0000_0000_0000_0000_0000,
{
    lemma_pow2_63();
    lemma_pow2_add(64, 63);
    lemma_pow2_add(64, 64);
    assert(pow2(64) == 2 * pow2(63));
    let p = pow2(63);
    assert(pow2(127) == (2 * p) * p);
    assert(pow2(128) == (2 * p) * (2 * p));
    assert((2 * p) * p == 0x8000_0000_0000_0000_0000_0000_0000_0000) by (nonlinear_arith)
        requires p == 9223372036854775808int;
    assert((2 * p) * (2 * p) == 0x1_0000_0000_0000_0000_0000_0000_0000_0000) by (nonlinear_arith)
        requires p == 9223372036854775808int;
}

/// The tenant CIDR pool: subnets of `subnet_size` bits carved out of `base_cidr`,
/// at most `max_subnets` of them, each allocated to one tenant.
pub struct CidrPoolManager {
    pub base_cidr: String,
    pub subnet_size: u8,
    pub max_subnets: u32,
    /// The CIDR allocated to each tenant.
    pub allocated_cidrs: Vec<(String, String)>,
}

/// The allocations as a map from tenant to CIDR text.
pub open spec fn allocation_map(p: &CidrPoolManager) -> Map<Seq<char>, Seq<char>> {
    as_map(p.allocated_cidrs@).map_values(|c: String| c@)
}

/// The allocated CIDR texts, in table order.
pub open spec fn allocated_texts(v: Seq<(String, String)>) -> Seq<Seq<char>> {
    v.map_values(|e: (String, String)| e.1@)
}

/// Well-formedness: one entry per tenant, and no CIDR allocated twice.
pub open spec fn pool_wf(p: &CidrPoolManager) -> bool {
    &&& keys_distinct(p.allocated_cidrs@)
    &&& forall|i: int, j: int| 0 <= i < p.allocated_cidrs@.len() && 0 <= j < p.allocated_cidrs@.len() && i != j
        ==> #[trigger] p.allocated_cidrs@[i].1@ != #[trigger] p.allocated_cidrs@[j].1@
}

/// The `i`-th candidate subnet of the pool.
pub open spec fn candidate(base: int, subnet_size: u8, i: int) -> int {
    base + i * pow2((32 - subnet_size) as nat)
}

/// The first candidate index in `[i, limit)` whose CIDR text is not allocated.
pub open spec fn first_free_from(taken: Seq<Seq<char>>, base: int, subnet_size: u8, limit: int, i: int) -> Option<int>
    decreases limit - i,
{
    if i < 0 || i >= limit {
        None
    } else if !taken.contains(cidr_text(candidate(base, subnet_size, i) as u32, subnet_size)) {
        Some(i)
    } else {
        first_free_from(taken, base, subnet_size, limit, i + 1)
    }
}

/// Whether the pool's subnet size can be split out of a base network with prefix
/// `p` (of the given family) without leaving the 32-bit arithmetic.
pub open spec fn split_in_range(v4: bool, p: u8, subnet_size: u8) -> bool {
    &&& p <= subnet_size
    &&& subnet_size - p < 32
    &&& v4 ==> subnet_size <= 32
}

/// What allocating for a new tenant gives, given the parsed base network: the
/// first free candidate subnet, or why there is none.
pub open spec fn allocation_outcome(p: &CidrPoolManager, base: Option<(bool, u32, u8)>) -> Result<Seq<char>, NetworkError> {
    match base {
        None => Err(NetworkError::InvalidCidr(p.base_cidr)),
        Some((v4, a, pre)) => {
            let bits = (p.subnet_size - pre) as nat;
            let limit = if (p.max_subnets as int) < pow2(bits) { p.max_subnets as int } else { pow2(bits) as int };
            if bits == 0 {
                Err(NetworkError::SubnetNotSmaller)
            } else if !v4 {
                if limit > 0 { Err(NetworkError::Ipv6Unsupported) } else { Err(NetworkError::PoolExhausted) }
            } else {
                let base_net = network_address(a, pre);
                match first_free_from(allocated_texts(p.allocated_cidrs@), base_net, p.subnet_size, limit, 0) {
                    Some(i) => Ok(cidr_text(candidate(base_net, p.subnet_size, i) as u32, p.subnet_size)),
                    None => Err(NetworkError::PoolExhausted),
                }
            }
        },
    }
}

/// What allocating a CIDR for `tenant` does: a tenant holding one gets it back
/// with nothing changed; for a new tenant a subnet size that cannot be split out
/// of the base network is refused, and otherwise the outcome is that of
/// [`allocation_outcome`], recorded for the tenant when it is a CIDR.
pub open spec fn allocate_post(p0: &CidrPoolManager, p1: &CidrPoolManager, tenant: Seq<char>, r: Result<String, NetworkError>)
    -> bool {
    if allocation_map(p0).contains_key(tenant) {
        &&& r is Ok && r->Ok_0@ == allocation_map(p0)[tenant]
        &&& p1.allocated_cidrs@ == p0.allocated_cidrs@
    } else {
        match cidr_parts(parsed_cidr(p0.base_cidr@)) {
            Some((v4, a, p)) if !split_in_range(v4, p, p0.subnet_size) => {
                &&& r == Err::<String, NetworkError>(NetworkError::SubnetSizeOutOfRange)
                &&& p1.allocated_cidrs@ == p0.allocated_cidrs@
            },
            _ => match allocation_outcome(p0, cidr_parts(parsed_cidr(p0.base_cidr@))) {
                Ok(t) => {
                    &&& r is Ok && r->Ok_0@ == t
                    &&& allocation_map(p1) == allocation_map(p0).insert(tenant, t)
                },
                Err(e) => {
                    &&& r == Err::<String, NetworkError>(e)
                    &&& p1.allocated_cidrs@ == p0.allocated_cidrs@
                },
            },
        }
    }
}

/// A candidate subnet address stays inside the 32-bit space.
pub proof fn lemma_candidate_fits(a: u32, pre: u8, size: u8, i: int)
    requires
        pre <= size <= 32,
        0 <= i < pow2((size - pre) as nat),
    ensures
        0 <= candidate(network_address(a, pre), size, i),
        candidate(network_address(a, pre), size, i) + pow2((32 - size) as nat) <= pow2(32),
{
    let big = pow2((32 - pre) as nat);
    let small = pow2((32 - size) as nat);
    let k = pow2((size - pre) as nat);
    let top = pow2(32);
    let hi = pow2(pre as nat);
    lemma_pow2_add((size - pre) as nat, (32 - size) as nat);
    assert(((size - pre) + (32 - size)) as nat == (32 - pre) as nat);
    lemma_pow2_add((32 - pre) as nat, pre as nat);
    assert(((32 - pre) + pre) as nat == 32nat);
    lemma_pow2_pos((32 - size) as nat);
    lemma_pow2_pos((32 - pre) as nat);
    lemma_pow2_pos(pre as nat);
    lemma_pow2_32();
    assert(big == k * small);
    assert(top == big * hi);
    let q = a as int / big as int;
    assert(network_address(a, pre) == q * big);
    assert(0 <= q * big && (q + 1) * big <= top) by (nonlinear_arith)
        requires q == a as int / big as int, big >= 1, 0 <= a < top, top == big * hi, hi >= 1;
    assert(0 <= i * small && i * small + small <= big) by (nonlinear_arith)
        requires 0 <= i < k, big == k * small, small >= 1;
    assert(candidate(network_address(a, pre), size, i) == q * big + i * small);
    assert((q + 1) * big == q * big + big) by (nonlinear_arith);
}

impl CidrPoolManager {
    /// An empty pool.
    pub fn new(base_cidr: String, subnet_size: u8, max_subnets: u32) -> (p: Self)
        ensures
            pool_wf(&p),
            p.base_cidr == base_cidr,
            p.subnet_size == subnet_size,
            p.max_subnets == max_subnets,
            p.allocated_cidrs@.len() == 0,
    {
        CidrPoolManager { base_cidr, subnet_size, max_subnets, allocated_cidrs: Vec::new() }
    }

    /// Whether `text` is allocated to some tenant.
    fn is_taken(&self, text: &str) -> (r: bool)
        ensures
            r == allocated_texts(self.allocated_cidrs@).contains(text@),
    {
        let mut i: usize = 0;
        while i < self.allocated_cidrs.len()
            invariant
                i <= self.allocated_cidrs.len(),
                forall|j: int| 0 <= j < i ==> self.allocated_cidrs@[j].1@ != text@,
            decreases self.allocated_cidrs.len() - i,
        {
            if str_eq(self.allocated_cidrs[i].1.as_str(), text) {
                assert(allocated_texts(self.allocated_cidrs@)[i as int] == text@);
                return true;
            }
            i = i + 1;
        }
        proof {
            if allocated_texts(self.allocated_cidrs@).contains(text@) {
                let j = choose|j: int| 0 <= j < allocated_texts(self.allocated_cidrs@).len()
                    && allocated_texts(self.allocated_cidrs@)[j] == text@;
                assert(self.allocated_cidrs@[j].1@ == text@);
            }
        }
        false
    }

    /// Allocates a CIDR for a new tenant, given the parsed base network `base` (see
    /// [`allocation_outcome`]); the tenant must not hold one yet.
    pub fn allocate_cidr_in(&mut self, tenant_id: &str, base: Option<(bool, u32, u8)>) -> (r: Result<String, NetworkError>)
        requires
            pool_wf(old(self)),
            !allocation_map(old(self)).contains_key(tenant_id@),
            match base {
                Some((v4, a, p)) => split_in_range(v4, p, old(self).subnet_size) && (v4 ==> p <= 32),
                None => true,
            },
        ensures
            pool_wf(final(self)),
            final(self).base_cidr == old(self).base_cidr,
            final(self).subnet_size == old(self).subnet_size,
            final(self).max_subnets == old(self).max_subnets,
            match allocation_outcome(old(self), base) {
                Ok(t) => {
                    &&& r is Ok && r->Ok_0@ == t
                    &&& allocation_map(final(self)) == allocation_map(old(self)).insert(tenant_id@, t)
                },
                Err(e) => {
                    &&& r == Err::<String, NetworkError>(e)
                    &&& final(self).allocated_cidrs@ == old(self).allocated_cidrs@
                },
            },
    {
        let (v4, a, pre) = match base {
            None => {
                return Err(NetworkError::InvalidCidr(self.base_cidr.clone()));
            },
            Some(b) => b,
        };
        let bits: u8 = self.subnet_size - pre;
        let possible = pow2_u64(bits as u32);
        let limit: u64 = if (self.max_subnets as u64) < possible { self.max_subnets as u64 } else { possible };
        if bits == 0 {
            return Err(NetworkError::SubnetNotSmaller);
        }
        if !v4 {
            if limit > 0 {
                return Err(NetworkError::Ipv6Unsupported);
            } else {
                return Err(NetworkError::PoolExhausted);
            }
        }
        let base_net = network_of(a, pre);
        match self.first_free(a, pre, base_net, limit) {
            None => Err(NetworkError::PoolExhausted),
            Some(text) => {
                let ghost tv = text@;
                let ghost old_entries = self.allocated_cidrs@;
                let ghost taken = allocated_texts(old_entries);
                let key = owned(tenant_id);
                let val = text.clone();
                let ghost kv = (key, val);
                proof {
                    crate::assoc::lemma_key_pos(old_entries, tenant_id@);
                    lemma_as_map_dom(old_entries, tenant_id@);
                }
                insert_key(&mut self.allocated_cidrs, key, val);
                proof {
                    assert(self.allocated_cidrs@ == old_entries.push(kv));
                    assert forall|x: int, y: int| 0 <= x < self.allocated_cidrs@.len() && 0 <= y < self.allocated_cidrs@.len() && x != y
                        implies #[trigger] self.allocated_cidrs@[x].1@ != #[trigger] self.allocated_cidrs@[y].1@ by {
                        if x < old_entries.len() && y < old_entries.len() {
                        } else if x == old_entries.len() {
                            assert(taken[y] == old_entries[y].1@);
                        } else {
                            assert(taken[x] == old_entries[x].1@);
                        }
                    }
                }
                assert(allocation_map(self) =~= allocation_map(old(self)).insert(tenant_id@, tv));
                Ok(text)
            },
        }
    }

    /// The CIDR text of the first candidate subnet below `limit` that is not allocated.
    fn first_free(&self, a: u32, pre: u8, base_net: u32, limit: u64) -> (r: Option<String>)
        requires
            pre <= self.subnet_size <= 32,
            limit <= pow2((self.subnet_size - pre) as nat),
            base_net == network_address(a, pre),
        ensures
            match first_free_from(allocated_texts(self.allocated_cidrs@), base_net as int, self.subnet_size, limit as int, 0) {
                Some(i) => r is Some && r->0@ == cidr_text(candidate(base_net as int, self.subnet_size, i) as u32, self.subnet_size)
                    && !allocated_texts(self.allocated_cidrs@).contains(r->0@),
                None => r is None,
            },
    {
        let ghost taken = allocated_texts(self.allocated_cidrs@);
        let block = pow2_u64((32 - self.subnet_size) as u32);
        let mut i: u64 = 0;
        while i < limit
            invariant
                taken == allocated_texts(self.allocated_cidrs@),
                pre <= self.subnet_size <= 32,
                limit <= pow2((self.subnet_size - pre) as nat),
                base_net == network_address(a, pre),
                block == pow2((32 - self.subnet_size) as nat),
                i <= limit,
                first_free_from(taken, base_net as int, self.subnet_size, limit as int, 0)
                    == first_free_from(taken, base_net as int, self.subnet_size, limit as int, i as int),
            decreases limit - i,
        {
            proof {
                lemma_candidate_fits(a, pre, self.subnet_size, i as int);
                lemma_pow2_32();
                lemma_pow2_pos((32 - self.subnet_size) as nat);
            }
            assert(candidate(base_net as int, self.subnet_size, i as int) == base_net + i * block);
            let addr = (base_net as u64 + i * block) as u32;
            let text = cidr_string(addr, self.subnet_size);
            if !self.is_taken(text.as_str()) {
                return Some(text);
            }
            i = i + 1;
        }
        None
    }

    /// The CIDR of `tenant_id`: the one it holds, or a newly allocated one (see
    /// [`CidrPoolManager::allocate_cidr_in`]). A subnet size that cannot be split out
    /// of the base network is refused with `SubnetSizeOutOfRange`.
    pub fn allocate_cidr(&mut self, tenant_id: &str) -> (r: Result<String, NetworkError>)
        requires
            pool_wf(old(self)),
        ensures
            pool_wf(final(self)),
            final(self).base_cidr == old(self).base_cidr,
            final(self).subnet_size == old(self).subnet_size,
            final(self).max_subnets == old(self).max_subnets,
            allocate_post(old(self), final(self), tenant_id@, r),
    {
        let held = find_key(&self.allocated_cidrs, tenant_id);
        proof {
            lemma_key_pos(self.allocated_cidrs@, tenant_id@);
        }
        if let Some(i) = held {
            return Ok(self.allocated_cidrs[i].1.clone());
        }
        let base = cidr_parts_of(parse_cidr(self.base_cidr.as_str()));
        if let Some((v4, a, p)) = base {
            if !(p <= self.subnet_size && self.subnet_size - p < 32 && (!v4 || self.subnet_size <= 32)) {
                return Err(NetworkError::SubnetSizeOutOfRange);
            }
        }
        self.allocate_cidr_in(tenant_id, base)
    }

    /// Frees the CIDR of `tenant_id`, if it holds one.
    pub fn release_cidr(&mut self, tenant_id: &str) -> (r: Result<(), NetworkError>)
        requires
            pool_wf(old(self)),
        ensures
            pool_wf(final(self)),
            r is Ok,
            final(self).base_cidr == old(self).base_cidr,
            final(self).subnet_size == old(self).subnet_size,
            final(self).max_subnets == old(self).max_subnets,
            allocation_map(final(self)) == allocation_map(old(self)).remove(tenant_id@),
    {
        let ghost old_entries = self.allocated_cidrs@;
        let _ = remove_key(&mut self.allocated_cidrs, tenant_id);
        proof {
            lemma_key_pos(old_entries, tenant_id@);
            match key_pos(old_entries, tenant_id@) {
                Some(k) => {
                    assert forall|x: int, y: int| 0 <= x < self.allocated_cidrs@.len() && 0 <= y < self.allocated_cidrs@.len() && x != y
                        implies #[trigger] self.allocated_cidrs@[x].1@ != #[trigger] self.allocated_cidrs@[y].1@ by {
                        let x2 = if x < k { x } else { x + 1 };
                        let y2 = if y < k { y } else { y + 1 };
                        assert(self.allocated_cidrs@[x] == old_entries[x2]);
                        assert(self.allocated_cidrs@[y] == old_entries[y2]);
                    }
                },
                None => {},
            }
        }
        assert(allocation_map(self) =~= allocation_map(old(self)).remove(tenant_id@));
        Ok(())
    }

    /// Whether the network written `cidr_str` overlaps a network allocated to a
    /// tenant (see [`overlap_scan`], over the allocations in table order). A text
    /// that is no network is refused.
    pub fn check_cidr_overlap(&self, cidr_str: &str) -> (r: Result<bool, NetworkError>)
        ensures
            match parsed_cidr(cidr_str@) {
                None => r matches Err(NetworkError::InvalidCidr(x)) && x@ == cidr_str@,
                Some(n) => match overlap_scan(n, allocated_texts(self.allocated_cidrs@)) {
                    Ok(b) => r == Ok::<bool, NetworkError>(b),
                    Err(t) => r matches Err(NetworkError::InvalidCidr(x)) && x@ == t,
                },
            },
    {
        let n = match parse_cidr(cidr_str) {
            Some(n) => n,
            None => {
                return Err(NetworkError::InvalidCidr(owned(cidr_str)));
            },
        };
        let ghost texts = allocated_texts(self.allocated_cidrs@);
        assert(texts.skip(0) =~= texts);
        let mut i: usize = 0;
        while i < self.allocated_cidrs.len()
            invariant
                i <= self.allocated_cidrs.len(),
                texts == allocated_texts(self.allocated_cidrs@),
                prefix_ok(n),
                parsed_cidr(cidr_str@) == Some(n),
                overlap_scan(n, texts) == overlap_scan(n, texts.skip(i as int)),
            decreases self.allocated_cidrs.len() - i,
        {
            let t = self.allocated_cidrs[i].1.as_str();
            let ghost rest = texts.skip(i as int);
            assert(rest[0] == t@);
            assert(rest.drop_first() =~= texts.skip(i + 1));
            match parse_cidr(t) {
                None => {
                    return Err(NetworkError::InvalidCidr(owned(t)));
                },
                Some(m) => {
                    if contains_base_exec(n, m) || contains_base_exec(m, n) {
                        return Ok(true);
                    }
                },
            }
            i = i + 1;
        }
        assert(texts.skip(i as int).len() == 0);
        Ok(false)
    }

    /// The allocations, tenant to CIDR.
    pub fn get_allocated_cidrs(&self) -> (r: &Vec<(String, String)>)
        ensures
            r@ == self.allocated_cidrs@,
    {
        &self.allocated_cidrs
    }
}

/// The outcome of checking network `n` against the CIDRs of the tenants in
/// order, skipping tenant `exclude`: `true` at the first one it overlaps, the
/// first CIDR that is no network, or `false`.
pub open spec fn tenant_overlap_scan(n: IpNet, v: Seq<(String, String)>, exclude: Seq<char>) -> Result<bool, Seq<char>>
    decreases v.len(),
{
    if v.len() == 0 {
        Ok(false)
    } else if v[0].0@ == exclude {
        tenant_overlap_scan(n, v.drop_first(), exclude)
    } else {
        match parsed_cidr(v[0].1@) {
            None => Err(v[0].1@),
            Some(m) => if nets_overlap(n, m) { Ok(true) } else { tenant_overlap_scan(n, v.drop_first(), exclude) },
        }
    }
}

/// Whether `cidr_str` may be given to tenant `exclude_tenant_id`: it overlaps the
/// network of no other tenant in `tenant_cidrs` (tenant id, CIDR), checked in
/// table order. A CIDR that does not parse, the new one or a tenant's, is an error.
pub fn validate_tenant_cidr(cidr_str: &str, tenant_cidrs: &Vec<(String, String)>, exclude_tenant_id: &str)
    -> (r: Result<bool, NetworkError>)
    ensures
        match parsed_cidr(cidr_str@) {
            None => r matches Err(NetworkError::InvalidCidr(x)) && x@ == cidr_str@,
            Some(n) => match tenant_overlap_scan(n, tenant_cidrs@, exclude_tenant_id@) {
                Ok(b) => r == Ok::<bool, NetworkError>(!b),
                Err(t) => r matches Err(NetworkError::InvalidCidr(x)) && x@ == t,
            },
        },
{
    let n = match parse_cidr(cidr_str) {
        Some(n) => n,
        None => {
            return Err(NetworkError::InvalidCidr(owned(cidr_str)));
        },
    };
    let ghost v = tenant_cidrs@;
    assert(v.skip(0) =~= v);
    let mut i: usize = 0;
    while i < tenant_cidrs.len()
        invariant
            i <= tenant_cidrs.len(),
            v == tenant_cidrs@,
            prefix_ok(n),
            parsed_cidr(cidr_str@) == Some(n),
            tenant_overlap_scan(n, v, exclude_tenant_id@) == tenant_overlap_scan(n, v.skip(i as int), exclude_tenant_id@),
        decreases tenant_cidrs.len() - i,
    {
        let ghost rest = v.skip(i as int);
        assert(rest[0] == v[i as int]);
        assert(rest.drop_first() =~= v.skip(i + 1));
        if !str_eq(tenant_cidrs[i].0.as_str(), exclude_tenant_id) {
            let t = tenant_cidrs[i].1.as_str();
            match parse_cidr(t) {
                None => {
                    return Err(NetworkError::InvalidCidr(owned(t)));
                },
                Some(m) => {
                    if contains_base_exec(n, m) || contains_base_exec(m, n) {
                        return Ok(false);
                    }
                },
            }
        }
        i = i + 1;
    }
    assert(v.skip(i as int).len() == 0);
    Ok(true)
}

/// One byte of a MAC address after the fixed prefix: `:` and the `i`-th byte of
/// the id in two-digit lower-case hex, or `:00` when the id is shorter.
pub open spec fn mac_byte(id: Seq<u8>, i: int) -> Seq<char> {
    if i < id.len() { ":"@ + hex2(id[i]) } else { ":00"@ }
}

/// The MAC address of a container with id bytes `id`: the locally administered
/// prefix `02:42:ac` and the id's first three bytes.
pub open spec fn mac_text(id: Seq<u8>) -> Seq<char> {
    "02:42:ac"@ + mac_byte(id, 0) + mac_byte(id, 1) + mac_byte(id, 2)
}

/// The MAC address of container `container_id` (see [`mac_text`], over the id's
/// UTF-8 bytes).
pub fn generate_mac_address(container_id: &str) -> (r: String)
    ensures
        r@ == mac_text(vstd::utf8::encode_utf8(container_id@)),
{
    let bytes = crate::text::utf8_bytes(container_id);
    let mut mac = owned("02:42:ac");
    let mut i: usize = 0;
    while i < 3
        invariant
            i <= 3,
            bytes@ == vstd::utf8::encode_utf8(container_id@),
            mac@ == "02:42:ac"@ + (if i >= 1 { mac_byte(bytes@, 0) } else { Seq::empty() })
                + (if i >= 2 { mac_byte(bytes@, 1) } else { Seq::empty() })
                + (if i >= 3 { mac_byte(bytes@, 2) } else { Seq::empty() }),
        decreases 3 - i,
    {
        let ghost m0 = mac@;
        if i < bytes.len() {
            push_str(&mut mac, ":");
            push_hex2(&mut mac, bytes[i]);
        } else {
            push_str(&mut mac, ":00");
        }
        assert(mac@ =~= m0 + mac_byte(bytes@, i as int));
        i = i + 1;
        assert(mac@ =~= "02:42:ac"@ + (if i >= 1 { mac_byte(bytes@, 0) } else { Seq::empty() })
            + (if i >= 2 { mac_byte(bytes@, 1) } else { Seq::empty() })
            + (if i >= 3 { mac_byte(bytes@, 2) } else { Seq::empty() }));
    }
    mac
}

/// The gateway of a subnet: its first address after the network address. IPv6
/// subnets are not supported, and a subnet of one address has no gateway.
pub fn gateway_ip(subnet: IpNet) -> (r: Result<IpAddress, NetworkError>)
    requires
        subnet matches IpNet::V4 { prefix, .. } ==> prefix <= 32,
    ensures
        match subnet {
            IpNet::V6 { .. } => r == Err::<IpAddress, NetworkError>(NetworkError::Ipv6Unsupported),
            IpNet::V4 { addr, prefix } => if prefix == 32 {
                r == Err::<IpAddress, NetworkError>(NetworkError::SubnetTooSmall)
            } else {
                r == Ok::<IpAddress, NetworkError>(IpAddress::V4((network_address(addr, prefix) + 1) as u32))
            },
        },
{
    match subnet {
        IpNet::V6 { .. } => Err(NetworkError::Ipv6Unsupported),
        IpNet::V4 { addr, prefix } => {
            if prefix == 32 {
                return Err(NetworkError::SubnetTooSmall);
            }
            let base = network_of(addr, prefix);
            proof {
                lemma_candidate_fits(addr, prefix, prefix, 0);
                lemma_pow2_mono(1, (32 - prefix) as nat);
                lemma_pow2_32();
                reveal_with_fuel(pow2, 2);
                assert(candidate(network_address(addr, prefix), prefix, 0) == base);
            }
            Ok(IpAddress::V4(base + 1))
        },
    }
}

/// The VXLAN overlay that connects the nodes: its settings and the tunnels to
/// other nodes by node id.
pub struct OverlayNetwork {
    pub overlay_type: OverlayNetworkType,
    pub vxlan_id: u16,
    pub vxlan_port: u16,
    pub mtu: u32,
    pub tunnel_interface: String,
    pub encryption_enabled: bool,
    pub encryption_key: Option<String>,
    pub tunnels: Vec<(String, TunnelInfo)>,
}

/// A tunnel to another node.
pub struct TunnelInfo {
    pub node_id: String,
    pub remote_ip: IpAddress,
    pub local_ip: IpAddress,
    pub tunnel_name: String,
    pub tunnel_type: OverlayNetworkType,
    pub encrypted: bool,
    pub established: bool,
    pub last_activity: u64,
    pub tx_bytes: u64,
    pub rx_bytes: u64,
    pub mtu: u32,
}

impl OverlayNetwork {
    /// An overlay of the given type with an MTU of 1450 on interface `vxlan0`,
    /// unencrypted and without tunnels.
    pub fn new(overlay_type: OverlayNetworkType, vxlan_id: u16, vxlan_port: u16) -> (o: Self)
        ensures
            o.overlay_type == overlay_type,
            o.vxlan_id == vxlan_id,
            o.vxlan_port == vxlan_port,
            o.mtu == 1450,
            o.tunnel_interface@ == "vxlan0"@,
            !o.encryption_enabled,
            o.encryption_key is None,
            o.tunnels@.len() == 0,
    {
        OverlayNetwork {
            overlay_type,
            vxlan_id,
            vxlan_port,
            mtu: 1450,
            tunnel_interface: owned("vxlan0"),
            encryption_enabled: false,
            encryption_key: None,
            tunnels: Vec::new(),
        }
    }

    /// The overlay with MTU `mtu`.
    pub fn with_mtu(self, mtu: u32) -> (o: Self)
        ensures
            o == (OverlayNetwork { mtu, ..self }),
    {
        OverlayNetwork { mtu, ..self }
    }

    /// The overlay on interface `interface`.
    pub fn with_tunnel_interface(self, interface: String) -> (o: Self)
        ensures
            o == (OverlayNetwork { tunnel_interface: interface, ..self }),
    {
        OverlayNetwork { tunnel_interface: interface, ..self }
    }

    /// The overlay encrypted with `key`.
    pub fn with_encryption(self, key: String) -> (o: Self)
        ensures
            o == (OverlayNetwork { encryption_enabled: true, encryption_key: Some(key), ..self }),
    {
        OverlayNetwork { encryption_enabled: true, encryption_key: Some(key), ..self }
    }

    /// The MTU.
    pub fn get_mtu(&self) -> (r: u32)
        ensures
            r == self.mtu,
    {
        self.mtu
    }

    /// The tunnel interface's name.
    pub fn get_tunnel_interface(&self) -> (r: &str)
        ensures
            r@ == self.tunnel_interface@,
    {
        self.tunnel_interface.as_str()
    }
}

} // verus!
