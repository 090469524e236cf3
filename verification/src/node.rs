//! The local node: its identity and address, the peers it knows of (from
//! membership events and discovery broadcasts), and its own health counters.
use vstd::prelude::*;
use crate::assoc::{as_map, keys_distinct, find_key, insert_key, remove_key, get_key, strings_view, lemma_key_pos,
    lemma_as_map_index};
use crate::membership::{Member, MembershipEvent, MembershipConfig, is_default_config};
use crate::containers::new_uuid;
use crate::text::{owned, push_str, push_char, push_decimal, str_eq, starts_with, is_prefix, chars_of, find_char, slice_chars,
    string_of, first_index_of, lemma_first_index_of, decimal};

verus! {

/// Port of the discovery broadcasts.
pub const DISCOVERY_PORT: u16 = 8901;

/// One gibibyte, the memory a newly known node is assumed to have free.
pub const DEFAULT_NODE_MEMORY: u64 = 1073741824;

/// Resources of a node. Free CPU is in hundredths of a percent.
#[derive(Debug, Clone, Copy, PartialEq, Eq, Structural)]
pub struct NodeResources {
    pub cpu_available_centi: u64,
    pub memory_available: u64,
    pub containers_running: u32,
}

/// A known node. `last_seen` is in seconds of a monotonic clock.
#[derive(Debug)]
pub struct NodeInfo {
    pub id: String,
    pub address: String,
    pub last_seen: u64,
    pub resources: NodeResources,
}

/// Mathematical value of a [`NodeInfo`].
pub struct NodeInfoView {
    pub id: Seq<char>,
    pub address: Seq<char>,
    pub last_seen: u64,
    pub resources: NodeResources,
}

impl View for NodeInfo {
    type V = NodeInfoView;

    open spec fn view(&self) -> NodeInfoView {
        NodeInfoView { id: self.id@, address: self.address@, last_seen: self.last_seen, resources: self.resources }
    }
}

/// The local node's health counters.
#[derive(Debug, Clone, Copy, PartialEq, Eq, Structural)]
pub struct NodeHealth {
    pub is_healthy: bool,
    pub last_check: u64,
    pub check_count: u32,
    pub failure_count: u32,
    pub max_failure_threshold: u32,
}

/// The local node and the peers it knows of, by id (itself included).
pub struct NodeManager {
    pub node_id: String,
    pub peers: Vec<(String, NodeInfo)>,
    pub health_status: NodeHealth,
    pub address: String,
    pub discovery_port: u16,
    pub membership: bool,
}

/// What a membership event asks of the network manager.
#[derive(Debug, Clone, Copy, PartialEq, Eq, Structural)]
pub enum NetworkUpdate {
    Unchanged,
    NodeJoined,
    NodeLeft,
}

/// Peers by id.
pub open spec fn peers_map(m: &NodeManager) -> Map<Seq<char>, NodeInfoView> {
    as_map(m.peers@).map_values(|p: NodeInfo| p@)
}

/// The peers table has distinct keys.
pub open spec fn node_wf(m: &NodeManager) -> bool {
    keys_distinct(m.peers@)
}

/// The resources assumed of a newly known node.
pub open spec fn default_resources() -> NodeResources {
    NodeResources { cpu_available_centi: 10000, memory_available: DEFAULT_NODE_MEMORY, containers_running: 0 }
}

/// A newly known node seen at `now`.
pub open spec fn new_peer(id: Seq<char>, address: Seq<char>, now: u64) -> NodeInfoView {
    NodeInfoView { id, address, last_seen: now, resources: default_resources() }
}

/// The address to announce: the first non-loopback IPv4 address, else the first
/// non-loopback IPv6 address that is not link-local (`fe80:`), else `127.0.0.1`.
/// Each interface is `(is loopback, is IPv4, address)`.
pub open spec fn local_ip_of(ifaces: Seq<(bool, bool, Seq<char>)>) -> Seq<char> {
    match first_v4(ifaces) {
        Some(a) => a,
        None => match first_v6(ifaces) {
            Some(a) => a,
            None => "127.0.0.1"@,
        },
    }
}

/// The first non-loopback IPv4 address.
pub open spec fn first_v4(ifaces: Seq<(bool, bool, Seq<char>)>) -> Option<Seq<char>>
    decreases ifaces.len(),
{
    if ifaces.len() == 0 {
        None
    } else if !ifaces[0].0 && ifaces[0].1 {
        Some(ifaces[0].2)
    } else {
        first_v4(ifaces.drop_first())
    }
}

/// The first non-loopback, not link-local IPv6 address.
pub open spec fn first_v6(ifaces: Seq<(bool, bool, Seq<char>)>) -> Option<Seq<char>>
    decreases ifaces.len(),
{
    if ifaces.len() == 0 {
        None
    } else if !ifaces[0].0 && !ifaces[0].1 && !is_prefix("fe80:"@, ifaces[0].2) {
        Some(ifaces[0].2)
    } else {
        first_v6(ifaces.drop_first())
    }
}

/// The interfaces as characters.
pub open spec fn ifaces_view(v: Seq<(bool, bool, String)>) -> Seq<(bool, bool, Seq<char>)> {
    v.map_values(|i: (bool, bool, String)| (i.0, i.1, i.2@))
}

/// The address to announce (see [`local_ip_of`]).
pub fn choose_local_ip(ifaces: &Vec<(bool, bool, String)>) -> (r: String)
    ensures
        r@ == local_ip_of(ifaces_view(ifaces@)),
{
    let ghost iv = ifaces_view(ifaces@);
    assert(iv.skip(0) =~= iv);
    let mut i: usize = 0;
    while i < ifaces.len()
        invariant
            i <= ifaces.len(),
            iv == ifaces_view(ifaces@),
            first_v4(iv) == first_v4(iv.skip(i as int)),
        decreases ifaces.len() - i,
    {
        assert(iv.skip(i as int).drop_first() =~= iv.skip(i + 1));
        assert(iv.skip(i as int)[0] == iv[i as int]);
        if !ifaces[i].0 && ifaces[i].1 {
            return ifaces[i].2.clone();
        }
        i = i + 1;
    }
    assert(iv.skip(i as int).len() == 0);
    let mut j: usize = 0;
    assert(iv.skip(0) =~= iv);
    while j < ifaces.len()
        invariant
            j <= ifaces.len(),
            iv == ifaces_view(ifaces@),
            first_v4(iv) is None,
            first_v6(iv) == first_v6(iv.skip(j as int)),
        decreases ifaces.len() - j,
    {
        assert(iv.skip(j as int).drop_first() =~= iv.skip(j + 1));
        assert(iv.skip(j as int)[0] == iv[j as int]);
        if !ifaces[j].0 && !ifaces[j].1 && !starts_with(ifaces[j].2.as_str(), "fe80:") {
            return ifaces[j].2.clone();
        }
        j = j + 1;
    }
    assert(iv.skip(j as int).len() == 0);
    owned("127.0.0.1")
}

/// The membership settings a node runs with: the protocol's defaults, with a
/// one-second period, half-second ping timeout, suspicion multiplier 5 and three
/// indirect probes.
pub fn node_membership_config() -> (c: MembershipConfig)
    ensures
        c.bind_addr@ == "0.0.0.0"@,
        c.bind_port == 7946,
        c.protocol_period_ms == 1000,
        c.ping_timeout_ms == 500,
        c.suspicion_mult == 5,
        c.indirect_checks == 3,
        ({
            let d = c;
            exists|base: MembershipConfig| is_default_config(base) && d.gossip_factor == base.gossip_factor
                && d.max_gossip_updates == base.max_gossip_updates && d.reintegration_time_ms == base.reintegration_time_ms
                && d.quorum_percent == base.quorum_percent && d.leader_check_interval_ms == base.leader_check_interval_ms
        }),
{
    let base = MembershipConfig::default();
    let ghost b = base;
    let c = MembershipConfig {
        bind_addr: owned("0.0.0.0"),
        bind_port: 7946,
        protocol_period_ms: 1000,
        ping_timeout_ms: 500,
        suspicion_mult: 5,
        indirect_checks: 3,
        ..base
    };
    assert(is_default_config(b));
    c
}

/// The discovery broadcast of a node: `HIVEMIND_DISCOVERY:{id}:{address}`.
pub open spec fn discovery_text(id: Seq<char>, address: Seq<char>) -> Seq<char> {
    "HIVEMIND_DISCOVERY:"@ + id + seq![':'] + address
}

/// The discovery broadcast of a node (see [`discovery_text`]).
pub fn discovery_message(node_id: &str, address: &str) -> (r: String)
    ensures
        r@ == discovery_text(node_id@, address@),
{
    let mut r = owned("HIVEMIND_DISCOVERY:");
    push_str(&mut r, node_id);
    push_char(&mut r, ':');
    push_str(&mut r, address);
    assert(r@ =~= discovery_text(node_id@, address@));
    r
}

/// The join request of a node: `HIVEMIND_JOIN:{id}:{address}`.
pub open spec fn join_text(id: Seq<char>, address: Seq<char>) -> Seq<char> {
    "HIVEMIND_JOIN:"@ + id + seq![':'] + address
}

/// The join request of a node (see [`join_text`]).
pub fn join_message(node_id: &str, address: &str) -> (r: String)
    ensures
        r@ == join_text(node_id@, address@),
{
    let mut r = owned("HIVEMIND_JOIN:");
    push_str(&mut r, node_id);
    push_char(&mut r, ':');
    push_str(&mut r, address);
    assert(r@ =~= join_text(node_id@, address@));
    r
}

/// Where a join request is sent: the host text with the discovery port appended
/// directly.
pub fn join_target(host: &str, port: u16) -> (r: String)
    ensures
        r@ == host@ + decimal(port as nat),
{
    let mut r = owned(host);
    push_decimal(&mut r, port as u64);
    r
}

/// The fields of a text split at `:`.
pub open spec fn colon_fields(s: Seq<char>) -> Seq<Seq<char>>
    decreases s.len(),
{
    match first_index_of(s, ':') {
        Some(i) => {
            proof {
                lemma_first_index_of(s, ':');
            }
            seq![s.take(i)] + colon_fields(s.skip(i + 1))
        },
        None => seq![s],
    }
}

/// The peer a discovery broadcast announces: the second and third `:`-separated
/// fields of a text that starts with `HIVEMIND_DISCOVERY:` and has at least three.
pub open spec fn parse_discovery_view(msg: Seq<char>) -> Option<(Seq<char>, Seq<char>)> {
    if is_prefix("HIVEMIND_DISCOVERY:"@, msg) && colon_fields(msg).len() >= 3 {
        Some((colon_fields(msg)[1], colon_fields(msg)[2]))
    } else {
        None
    }
}

/// The first three `:`-separated fields of a text, and whether there are at least
/// three.
fn three_fields(s: &str) -> (r: (Vec<String>, bool))
    ensures
        r.1 == (colon_fields(s@).len() >= 3),
        r.1 ==> r.0@.len() == 3 && forall|k: int| 0 <= k < 3 ==> #[trigger] r.0@[k]@ == colon_fields(s@)[k],
{
    let mut rest = chars_of(s);
    let mut out: Vec<String> = Vec::new();
    let mut k: usize = 0;
    while k < 3
        invariant
            k <= 3,
            out@.len() == k,
            colon_fields(s@) == out@.map_values(|x: String| x@) + colon_fields(rest@),
        decreases 3 - k,
    {
        proof {
            lemma_first_index_of(rest@, ':');
        }
        match find_char(&rest, ':') {
            Some(i) => {
                let head = slice_chars(&rest, 0, i);
                let n = rest.len();
                let tail = slice_chars(&rest, i + 1, n);
                let ghost o0 = out@;
                out.push(string_of(&head));
                assert(colon_fields(rest@) =~= seq![head@] + colon_fields(tail@));
                assert(out@.map_values(|x: String| x@) =~= o0.map_values(|x: String| x@).push(head@));
                assert(colon_fields(s@) =~= out@.map_values(|x: String| x@) + colon_fields(tail@));
                rest = tail;
            },
            None => {
                let ghost o0 = out@;
                out.push(string_of(&rest));
                assert(colon_fields(rest@) =~= seq![rest@]);
                assert(out@.map_values(|x: String| x@) =~= o0.map_values(|x: String| x@).push(rest@));
                assert(colon_fields(s@) =~= out@.map_values(|x: String| x@));
                if k < 2 {
                    return (out, false);
                }
                assert(colon_fields(s@)[0] == out@[0]@);
                return (out, true);
            },
        }
        k = k + 1;
    }
    assert(colon_fields(s@).len() >= 3);
    assert forall|j: int| 0 <= j < 3 implies #[trigger] out@[j]@ == colon_fields(s@)[j] by {
        assert(out@.map_values(|x: String| x@)[j] == out@[j]@);
    }
    (out, true)
}

/// The peer a discovery broadcast announces (see [`parse_discovery_view`]).
pub fn parse_discovery(msg: &str) -> (r: Option<(String, String)>)
    ensures
        match r {
            Some(p) => parse_discovery_view(msg@) == Some((p.0@, p.1@)),
            None => parse_discovery_view(msg@) is None,
        },
{
    if !starts_with(msg, "HIVEMIND_DISCOVERY:") {
        return None;
    }
    let (fields, enough) = three_fields(msg);
    if !enough {
        return None;
    }
    let id = fields[1].clone();
    let addr = fields[2].clone();
    Some((id, addr))
}

impl NodeManager {
    /// A node at `address` under a fresh id `node-{random UUID}`, knowing only
    /// itself, healthy, membership not started.
    pub fn new(address: String, now: u64) -> (m: Self)
        ensures
            node_wf(&m),
            exists|u: Seq<char>| u.len() == 36 && m.node_id@ == #[trigger] ("node-"@ + u),
            m.address == address,
            peers_map(&m) == map![m.node_id@ => new_peer(m.node_id@, address@, now)],
            m.health_status == (NodeHealth { is_healthy: true, last_check: now, check_count: 0, failure_count: 0,
                max_failure_threshold: 3 }),
            m.discovery_port == DISCOVERY_PORT,
            !m.membership,
    {
        let u = new_uuid();
        let mut node_id = owned("node-");
        push_str(&mut node_id, u.as_str());
        assert(node_id@ == "node-"@ + u@);
        let me = NodeInfo {
            id: node_id.clone(),
            address: address.clone(),
            last_seen: now,
            resources: NodeResources { cpu_available_centi: 10000, memory_available: DEFAULT_NODE_MEMORY, containers_running: 0 },
        };
        let ghost mv = me@;
        let mut peers: Vec<(String, NodeInfo)> = Vec::new();
        insert_key(&mut peers, node_id.clone(), me);
        let m = NodeManager {
            node_id,
            peers,
            health_status: NodeHealth { is_healthy: true, last_check: now, check_count: 0, failure_count: 0, max_failure_threshold: 3 },
            address,
            discovery_port: DISCOVERY_PORT,
            membership: false,
        };
        assert(peers_map(&m) =~= map![m.node_id@ => mv]);
        m
    }

    /// The local node's id.
    pub fn get_node_id(&self) -> (r: String)
        ensures
            r@ == self.node_id@,
    {
        self.node_id.clone()
    }

    /// Adds or replaces peer `id`, seen at `now`.
    fn put_peer(&mut self, id: &str, address: &str, now: u64)
        requires
            node_wf(old(self)),
        ensures
            node_wf(final(self)),
            peers_map(final(self)) == peers_map(old(self)).insert(id@, new_peer(id@, address@, now)),
            final(self).node_id == old(self).node_id,
            final(self).health_status == old(self).health_status,
            final(self).address == old(self).address,
            final(self).discovery_port == old(self).discovery_port,
            final(self).membership == old(self).membership,
    {
        let p = NodeInfo {
            id: owned(id),
            address: owned(address),
            last_seen: now,
            resources: NodeResources { cpu_available_centi: 10000, memory_available: DEFAULT_NODE_MEMORY, containers_running: 0 },
        };
        let ghost pv = p@;
        insert_key(&mut self.peers, owned(id), p);
        assert(peers_map(self) =~= peers_map(old(self)).insert(id@, pv));
    }

    /// Applies a membership event at `now`: a joined member becomes a peer, a dead
    /// or departed one is dropped, one alive again is refreshed (or added); returns
    /// what the network manager is to hear of it.
    pub fn handle_membership_event(&mut self, event: &MembershipEvent, now: u64) -> (r: NetworkUpdate)
        requires
            node_wf(old(self)),
        ensures
            node_wf(final(self)),
            final(self).node_id == old(self).node_id,
            final(self).health_status == old(self).health_status,
            final(self).address == old(self).address,
            match event {
                MembershipEvent::MemberJoined(m) => r == NetworkUpdate::NodeJoined
                    && peers_map(final(self)) == peers_map(old(self)).insert(m.id@, new_peer(m.id@, m.address@, now)),
                MembershipEvent::MemberDead(m) => r == NetworkUpdate::NodeLeft
                    && peers_map(final(self)) == peers_map(old(self)).remove(m.id@),
                MembershipEvent::MemberLeft(m) => r == NetworkUpdate::NodeLeft
                    && peers_map(final(self)) == peers_map(old(self)).remove(m.id@),
                MembershipEvent::MemberAlive(m) => if peers_map(old(self)).contains_key(m.id@) {
                    r == NetworkUpdate::Unchanged && peers_map(final(self)) == peers_map(old(self)).insert(m.id@,
                        NodeInfoView { last_seen: now, ..peers_map(old(self))[m.id@] })
                } else {
                    r == NetworkUpdate::NodeJoined
                        && peers_map(final(self)) == peers_map(old(self)).insert(m.id@, new_peer(m.id@, m.address@, now))
                },
                _ => r == NetworkUpdate::Unchanged && final(self).peers == old(self).peers,
            },
    {
        match event {
            MembershipEvent::MemberJoined(m) => {
                self.put_peer(m.id.as_str(), m.address.as_str(), now);
                NetworkUpdate::NodeJoined
            },
            MembershipEvent::MemberDead(m) => {
                let _ = remove_key(&mut self.peers, m.id.as_str());
                assert(peers_map(self) =~= peers_map(old(self)).remove(m.id@));
                NetworkUpdate::NodeLeft
            },
            MembershipEvent::MemberLeft(m) => {
                let _ = remove_key(&mut self.peers, m.id.as_str());
                assert(peers_map(self) =~= peers_map(old(self)).remove(m.id@));
                NetworkUpdate::NodeLeft
            },
            MembershipEvent::MemberAlive(m) => {
                let pos = find_key(&self.peers, m.id.as_str());
                proof {
                    lemma_key_pos(self.peers@, m.id@);
                }
                match pos {
                    Some(i) => {
                        proof {
                            lemma_as_map_index(self.peers@, i as int);
                        }
                        let old_info = &self.peers[i].1;
                        let p = NodeInfo {
                            id: old_info.id.clone(),
                            address: old_info.address.clone(),
                            last_seen: now,
                            resources: old_info.resources,
                        };
                        let ghost pv = p@;
                        insert_key(&mut self.peers, m.id.clone(), p);
                        assert(peers_map(self) =~= peers_map(old(self)).insert(m.id@, pv));
                        NetworkUpdate::Unchanged
                    },
                    None => {
                        self.put_peer(m.id.as_str(), m.address.as_str(), now);
                        NetworkUpdate::NodeJoined
                    },
                }
            },
            _ => NetworkUpdate::Unchanged,
        }
    }

    /// Takes in a discovery broadcast received at `now`: the announced peer is
    /// added, unless it is this node or the text is no broadcast.
    pub fn handle_discovery(&mut self, msg: &str, now: u64)
        requires
            node_wf(old(self)),
        ensures
            node_wf(final(self)),
            final(self).node_id == old(self).node_id,
            final(self).health_status == old(self).health_status,
            match parse_discovery_view(msg@) {
                Some((id, addr)) => if id != old(self).node_id@ {
                    peers_map(final(self)) == peers_map(old(self)).insert(id, new_peer(id, addr, now))
                } else {
                    final(self).peers == old(self).peers
                },
                None => final(self).peers == old(self).peers,
            },
    {
        match parse_discovery(msg) {
            Some((id, addr)) => {
                if !str_eq(id.as_str(), self.node_id.as_str()) {
                    self.put_peer(id.as_str(), addr.as_str(), now);
                }
            },
            None => {},
        }
    }

    /// The ids of the known nodes, in table order.
    pub fn list_nodes(&self) -> (r: Vec<String>)
        ensures
            strings_view(r@) == self.peers@.map_values(|p: (String, NodeInfo)| p.0@),
    {
        let mut r: Vec<String> = Vec::new();
        let mut i: usize = 0;
        while i < self.peers.len()
            invariant
                i <= self.peers.len(),
                strings_view(r@) == self.peers@.take(i as int).map_values(|p: (String, NodeInfo)| p.0@),
            decreases self.peers.len() - i,
        {
            let ghost before = r@;
            r.push(self.peers[i].0.clone());
            assert(strings_view(r@) =~= strings_view(before).push(self.peers@[i as int].0@));
            i = i + 1;
            assert(strings_view(r@) =~= self.peers@.take(i as int).map_values(|p: (String, NodeInfo)| p.0@));
        }
        assert(self.peers@.take(self.peers@.len() as int) =~= self.peers@);
        r
    }

    /// `(id, address, resources)` of each known node, in table order.
    pub fn get_node_details(&self) -> (r: Vec<(String, String, NodeResources)>)
        ensures
            r@.len() == self.peers@.len(),
            forall|i: int| 0 <= i < r@.len() ==> #[trigger] r@[i].0@ == self.peers@[i].1.id@
                && r@[i].1@ == self.peers@[i].1.address@ && r@[i].2 == self.peers@[i].1.resources,
    {
        let mut r: Vec<(String, String, NodeResources)> = Vec::new();
        let mut i: usize = 0;
        while i < self.peers.len()
            invariant
                i <= self.peers.len(),
                r@.len() == i,
                forall|j: int| 0 <= j < i ==> #[trigger] r@[j].0@ == self.peers@[j].1.id@
                    && r@[j].1@ == self.peers@[j].1.address@ && r@[j].2 == self.peers@[j].1.resources,
            decreases self.peers.len() - i,
        {
            let p = &self.peers[i].1;
            r.push((p.id.clone(), p.address.clone(), p.resources));
            i = i + 1;
        }
        r
    }

    /// Forgets node `node_id`, unless it is this node; returns whether it was known.
    pub fn remove_node(&mut self, node_id: &str) -> (r: bool)
        requires
            node_wf(old(self)),
        ensures
            node_wf(final(self)),
            final(self).node_id == old(self).node_id,
            if node_id@ == old(self).node_id@ {
                !r && final(self).peers == old(self).peers
            } else {
                r == peers_map(old(self)).contains_key(node_id@) && peers_map(final(self)) == peers_map(old(self)).remove(node_id@)
            },
    {
        if str_eq(node_id, self.node_id.as_str()) {
            return false;
        }
        let removed = remove_key(&mut self.peers, node_id);
        proof {
            lemma_key_pos(old(self).peers@, node_id@);
        }
        assert(peers_map(self) =~= peers_map(old(self)).remove(node_id@));
        removed.is_some()
    }
}

/// The simulated CPU usage at `now_secs`, in percent: 10 plus the seconds into the minute.
pub open spec fn cpu_usage_at(now_secs: u64) -> u64 {
    (10 + now_secs % 60) as u64
}

/// The simulated memory usage at `now_secs`, in percent: 20 plus the seconds into the minute.
pub open spec fn memory_usage_at(now_secs: u64) -> u64 {
    (20 + now_secs % 60) as u64
}

impl NodeManager {
    /// A health check of the local node at `now_secs` on the simulated usage (see
    /// [`cpu_usage_at`], [`memory_usage_at`]): usage below 90 % resets the failure
    /// count, otherwise it grows; the node is healthy while the failures stay below
    /// the threshold, and its free resources are updated.
    pub fn check_health(&mut self, now_secs: u64) -> (r: bool)
        requires
            node_wf(old(self)),
            old(self).health_status.check_count < u32::MAX,
            old(self).health_status.failure_count < u32::MAX,
        ensures
            node_wf(final(self)),
            ({
                let cpu = cpu_usage_at(now_secs);
                let mem = memory_usage_at(now_secs);
                let ok = cpu < 90 && mem < 90;
                let h0 = old(self).health_status;
                let failures: u32 = if ok { 0 } else { (h0.failure_count + 1) as u32 };
                &&& final(self).health_status == (NodeHealth {
                        is_healthy: failures < h0.max_failure_threshold,
                        last_check: now_secs,
                        check_count: (h0.check_count + 1) as u32,
                        failure_count: failures,
                        ..h0
                    })
                &&& r == final(self).health_status.is_healthy
                &&& peers_map(final(self)) == (if peers_map(old(self)).contains_key(old(self).node_id@) {
                        peers_map(old(self)).insert(old(self).node_id@, NodeInfoView {
                            resources: NodeResources {
                                cpu_available_centi: ((100 - cpu) * 100) as u64,
                                memory_available: ((100 - mem) * DEFAULT_NODE_MEMORY / 100) as u64,
                                ..peers_map(old(self))[old(self).node_id@].resources
                            },
                            ..peers_map(old(self))[old(self).node_id@]
                        })
                    } else {
                        peers_map(old(self))
                    })
            }),
            final(self).node_id == old(self).node_id,
            final(self).address == old(self).address,
    {
        let cpu: u64 = 10 + now_secs % 60;
        let mem: u64 = 20 + now_secs % 60;
        let ok = cpu < 90 && mem < 90;
        self.health_status.last_check = now_secs;
        self.health_status.check_count = self.health_status.check_count + 1;
        if !ok {
            self.health_status.failure_count = self.health_status.failure_count + 1;
        } else {
            self.health_status.failure_count = 0;
        }
        self.health_status.is_healthy = self.health_status.failure_count < self.health_status.max_failure_threshold;
        let pos = find_key(&self.peers, self.node_id.as_str());
        proof {
            lemma_key_pos(self.peers@, self.node_id@);
        }
        match pos {
            Some(i) => {
                proof {
                    lemma_as_map_index(self.peers@, i as int);
                }
                let old_info = &self.peers[i].1;
                let p = NodeInfo {
                    id: old_info.id.clone(),
                    address: old_info.address.clone(),
                    last_seen: old_info.last_seen,
                    resources: NodeResources {
                        cpu_available_centi: (100 - cpu) * 100,
                        memory_available: (100 - mem) * DEFAULT_NODE_MEMORY / 100,
                        containers_running: old_info.resources.containers_running,
                    },
                };
                let ghost pv = p@;
                let key = self.node_id.clone();
                insert_key(&mut self.peers, key, p);
                assert(peers_map(self) =~= peers_map(old(self)).insert(old(self).node_id@, pv));
            },
            None => {},
        }
        self.health_status.is_healthy
    }
}

} // verus!
