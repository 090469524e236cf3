//! Properties of the node manager across discovery, removal and health checks.
use vstd::prelude::*;
use crate::node::{NodeManager, peers_map, parse_discovery_view, new_peer, cpu_usage_at, memory_usage_at};

verus! {

/// The node knows itself among its peers.
pub open spec fn knows_self(m: &NodeManager) -> bool {
    peers_map(m).contains_key(m.node_id@)
}

/// Removing a node never removes the local node, and the node it removes is gone.
pub proof fn law_remove_keeps_self(m0: &NodeManager, m1: &NodeManager, node_id: Seq<char>, r: bool)
    requires
        knows_self(m0),
        m1.node_id == m0.node_id,
        if node_id == m0.node_id@ {
            !r && m1.peers == m0.peers
        } else {
            r == peers_map(m0).contains_key(node_id) && peers_map(m1) == peers_map(m0).remove(node_id)
        },
    ensures
        knows_self(m1),
        peers_map(m1)[m1.node_id@] == peers_map(m0)[m0.node_id@],
        node_id != m0.node_id@ ==> !peers_map(m1).contains_key(node_id),
{
}

/// A discovery broadcast never replaces the local node's own record: one that
/// announces this node is ignored, and any other adds or refreshes its sender.
pub proof fn law_discovery_keeps_self(m0: &NodeManager, m1: &NodeManager, msg: Seq<char>, now: u64)
    requires
        knows_self(m0),
        m1.node_id == m0.node_id,
        match parse_discovery_view(msg) {
            Some((id, addr)) => if id != m0.node_id@ {
                peers_map(m1) == peers_map(m0).insert(id, new_peer(id, addr, now))
            } else {
                m1.peers == m0.peers
            },
            None => m1.peers == m0.peers,
        },
    ensures
        knows_self(m1),
        peers_map(m1)[m1.node_id@] == peers_map(m0)[m0.node_id@],
        parse_discovery_view(msg) matches Some((id, addr)) ==> peers_map(m1).contains_key(id),
{
}

/// The simulated usage of the local node stays below the 90 % limit at every
/// time, so its health checks never count a failure.
pub proof fn law_simulated_usage_passes(now_secs: u64)
    ensures
        cpu_usage_at(now_secs) < 90,
        memory_usage_at(now_secs) < 90,
{
}

} // verus!
