//! Properties of the tenant CIDR pool across allocations and releases.
use vstd::prelude::*;
use crate::network::{CidrPoolManager, NetworkError, allocation_map, allocate_post, first_free_from, candidate, cidr_text,
    allocation_outcome, allocated_texts, network_address, pow2, lemma_pow2_pos, lemma_pow2_add, lemma_pow2_32, lemma_candidate_fits};
use crate::ipam::{IpamManager, Subnet, ipam_wf, ipam_nodes, in_subnet, subnet_ok, block, host_for, first_free_host,
    node_candidate};
use crate::assoc::{lemma_key_pos, key_pos};

verus! {

/// The free candidate search gives a candidate in range that is not taken, and
/// every candidate it skipped is taken.
pub proof fn law_first_free_is_free(taken: Seq<Seq<char>>, base: int, subnet_size: u8, limit: int, i: int)
    ensures
        match first_free_from(taken, base, subnet_size, limit, i) {
            Some(k) => {
                &&& i <= k < limit
                &&& !taken.contains(cidr_text(candidate(base, subnet_size, k) as u32, subnet_size))
                &&& forall|j: int| i <= j < k ==> taken.contains(#[trigger] cidr_text(candidate(base, subnet_size, j) as u32,
                        subnet_size))
            },
            None => forall|j: int| 0 <= i <= j < limit ==> taken.contains(#[trigger] cidr_text(candidate(base, subnet_size, j) as u32,
                subnet_size)),
        },
    decreases limit - i,
{
    if 0 <= i < limit && taken.contains(cidr_text(candidate(base, subnet_size, i) as u32, subnet_size)) {
        law_first_free_is_free(taken, base, subnet_size, limit, i + 1);
    }
}

/// A CIDR newly allocated to a tenant was held by no tenant before.
pub proof fn law_new_cidr_unused(p: &CidrPoolManager, base: Option<(bool, u32, u8)>)
    ensures
        allocation_outcome(p, base) matches Ok(t) ==> !allocated_texts(p.allocated_cidrs@).contains(t),
{
    match base {
        Some((v4, a, pre)) => {
            let bits = (p.subnet_size - pre) as nat;
            let limit = if (p.max_subnets as int) < crate::network::pow2(bits) { p.max_subnets as int } else {
                crate::network::pow2(bits) as int };
            law_first_free_is_free(allocated_texts(p.allocated_cidrs@), network_address(a, pre), p.subnet_size, limit, 0);
        },
        None => {},
    }
}

/// Allocation is stable: once a tenant is given a CIDR, asking again gives the
/// same CIDR and changes nothing.
pub proof fn law_allocate_stable(p0: &CidrPoolManager, p1: &CidrPoolManager, p2: &CidrPoolManager, tenant: Seq<char>,
    r1: Result<String, NetworkError>, r2: Result<String, NetworkError>)
    requires
        allocate_post(p0, p1, tenant, r1),
        allocate_post(p1, p2, tenant, r2),
        r1 is Ok,
        p1.base_cidr == p0.base_cidr,
        p1.subnet_size == p0.subnet_size,
    ensures
        r2 is Ok,
        r2->Ok_0@ == r1->Ok_0@,
        p2.allocated_cidrs@ == p1.allocated_cidrs@,
{
    if !allocation_map(p0).contains_key(tenant) {
        assert(allocation_map(p1).contains_key(tenant));
    } else {
        assert(allocation_map(p1) =~= allocation_map(p0));
    }
}

/// A released tenant holds no CIDR, and every other tenant keeps its own.
pub proof fn law_release_frees(p0: &CidrPoolManager, p1: &CidrPoolManager, tenant: Seq<char>, other: Seq<char>)
    requires
        allocation_map(p1) == allocation_map(p0).remove(tenant),
        other != tenant,
    ensures
        !allocation_map(p1).contains_key(tenant),
        allocation_map(p0).contains_key(other) ==> allocation_map(p1).contains_key(other)
            && allocation_map(p1)[other] == allocation_map(p0)[other],
{
}

/// One operation on a CIDR pool: an allocation for a tenant with its result, or
/// a release.
pub enum PoolStep {
    Allocate(Seq<char>, Result<String, NetworkError>),
    Release(Seq<char>),
}

/// Whether `p1` is what operation `step` makes of `p0`, as the operations'
/// contracts state it.
pub open spec fn pool_step(p0: &CidrPoolManager, p1: &CidrPoolManager, step: PoolStep) -> bool {
    match step {
        PoolStep::Allocate(t, r) => allocate_post(p0, p1, t, r),
        PoolStep::Release(t) => allocation_map(p1) == allocation_map(p0).remove(t),
    }
}

/// A CIDR given to a tenant stays its own: through any operations on the pool
/// that do not release that tenant (allocations and releases for any tenant,
/// and lookups, which do not change the pool), the tenant keeps the same CIDR.
pub proof fn law_allocation_kept(pools: Seq<CidrPoolManager>, steps: Seq<PoolStep>, tenant: Seq<char>)
    requires
        pools.len() == steps.len() + 1,
        forall|i: int| 0 <= i < steps.len() ==> pool_step(&pools[i], &pools[i + 1], #[trigger] steps[i]),
        forall|i: int| 0 <= i < steps.len() ==> !(#[trigger] steps[i] matches PoolStep::Release(x) && x == tenant),
        allocation_map(&pools[0]).contains_key(tenant),
    ensures
        allocation_map(&pools.last()).contains_key(tenant),
        allocation_map(&pools.last())[tenant] == allocation_map(&pools[0])[tenant],
    decreases steps.len(),
{
    if steps.len() > 0 {
        let n = steps.len() - 1;
        law_allocation_kept(pools.drop_last(), steps.drop_last(), tenant);
        assert(pools.drop_last().last() == pools[n]);
        assert(pool_step(&pools[n], &pools[n + 1], steps[n]));
        let p0 = pools[n];
        let p1 = pools[n + 1];
        match steps[n] {
            PoolStep::Allocate(t, r) => {
                if allocation_map(&p0).contains_key(t) {
                    assert(allocation_map(&p1) =~= allocation_map(&p0));
                } else {
                    assert(t != tenant);
                    if p1.allocated_cidrs@ == p0.allocated_cidrs@ {
                        assert(allocation_map(&p1) =~= allocation_map(&p0));
                    }
                }
            },
            PoolStep::Release(t) => {
                assert(t != tenant);
            },
        }
    }
}

/// Node subnets do not overlap: no address lies in the subnets of two nodes.
pub proof fn law_node_subnets_disjoint(m: &IpamManager, n1: Seq<char>, n2: Seq<char>, a: u32)
    requires
        ipam_wf(m),
        ipam_nodes(m).contains_key(n1),
        ipam_nodes(m).contains_key(n2),
        n1 != n2,
    ensures
        !(in_subnet(ipam_nodes(m)[n1].subnet, a) && in_subnet(ipam_nodes(m)[n2].subnet, a)),
{
    lemma_key_pos(m.node_subnets@, n1);
    lemma_key_pos(m.node_subnets@, n2);
    let i = key_pos(m.node_subnets@, n1)->0;
    let j = key_pos(m.node_subnets@, n2)->0;
    if in_subnet(ipam_nodes(m)[n1].subnet, a) && in_subnet(ipam_nodes(m)[n2].subnet, a) {
        let si = m.node_subnets@[i].1.subnet;
        let sj = m.node_subnets@[j].1.subnet;
        assert(subnet_ok(si) && subnet_ok(sj));
        let b = block(si.prefix) as int;
        lemma_pow2_pos((32 - si.prefix) as nat);
        assert(si.addr as int == (si.addr as int / b) * b) by (nonlinear_arith)
            requires si.addr as int % b == 0, b >= 1;
        assert(sj.addr as int == (sj.addr as int / b) * b) by (nonlinear_arith)
            requires sj.addr as int % b == 0, b >= 1;
        assert(i != j);
    }
}

/// An address given to a container lies in its node's subnet, is neither the
/// subnet's network address nor its gateway, and was free.
pub proof fn law_container_ip_in_subnet(s: Subnet, used: Set<u32>)
    requires
        subnet_ok(s),
    ensures
        host_for(s, used) matches Some(ip) ==> {
            &&& in_subnet(s, ip as u32)
            &&& ip >= s.addr + 2
            &&& !used.contains(ip as u32)
        },
{
    lemma_first_free_host(used, s.addr + 2, s.addr + block(s.prefix) - 1);
    if let Some(ip) = host_for(s, used) {
        let b = block(s.prefix) as int;
        lemma_pow2_pos((32 - s.prefix) as nat);
        lemma_pow2_32();
        assert((ip as u32) as int == ip);
        assert(ip / b == s.addr as int / b) by (nonlinear_arith)
            requires s.addr as int % b == 0, b >= 1, s.addr + 2 <= ip <= s.addr + b - 1, s.addr >= 0;
    }
}

/// The free host search gives an address in range that is free.
pub proof fn lemma_first_free_host(used: Set<u32>, lo: int, hi: int)
    ensures
        first_free_host(used, lo, hi) matches Some(ip) ==> lo <= ip <= hi && !used.contains(ip as u32),
    decreases hi + 1 - lo,
{
    if lo <= hi && used.contains(lo as u32) {
        lemma_first_free_host(used, lo + 1, hi);
    }
}

/// Every candidate node subnet lies inside the cluster network.
pub proof fn law_node_subnet_in_network(addr: u32, prefix: u8, size: u8, i: int)
    requires
        prefix <= size <= 32,
        0 <= i < pow2((size - prefix) as nat),
    ensures
        in_subnet(Subnet { addr, prefix }, node_candidate(network_address(addr, prefix), size, i).addr),
{
    lemma_candidate_fits(addr, prefix, size, i);
    let small = pow2((32 - size) as nat) as int;
    let k = pow2((size - prefix) as nat) as int;
    let big = pow2((32 - prefix) as nat) as int;
    lemma_pow2_add((size - prefix) as nat, (32 - size) as nat);
    assert(((size - prefix) + (32 - size)) as nat == (32 - prefix) as nat);
    lemma_pow2_pos((32 - size) as nat);
    lemma_pow2_pos((32 - prefix) as nat);
    let q = addr as int / big;
    lemma_pow2_32();
    let c = node_candidate(network_address(addr, prefix), size, i).addr as int;
    assert(c == candidate(network_address(addr, prefix), size, i));
    assert(c == q * big + i * small);
    assert(0 <= i * small < big) by (nonlinear_arith)
        requires 0 <= i < k, big == k * small, small >= 1;
    assert(c / big == q) by (nonlinear_arith)
        requires c == q * big + i * small, 0 <= i * small < big, big >= 1;
}

} // verus!
