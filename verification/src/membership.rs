//! SWIM-style cluster membership: failure detection by direct and indirect
//! probing, suspicion timers, gossip of member lists, quorum tracking, leader
//! election and a small replicated key/value state.
//!
//! The protocol state lives in [`MembershipProtocol`]. Every transition is a
//! method that takes the current time (wall-clock seconds and a monotonic
//! millisecond clock) as arguments and returns the effects the caller must
//! carry out: membership events to publish and messages to send.
use vstd::prelude::*;
use crate::assoc::{as_map, keys_distinct, value_seq, find_key, insert_key, remove_key, get_key, key_pos, lemma_key_pos, lemma_as_map_update, lemma_as_map_push, lemma_as_map_index, lemma_as_map_remove};
use crate::text::{decimal, owned, push_char, push_decimal, str_eq, starts_with, string_of, chars_of};

verus! {

/// Length of one protocol period.
pub const PROTOCOL_PERIOD_MS: u64 = 1000;
/// How long to wait for a direct ping's answer.
pub const PING_TIMEOUT_MS: u64 = 500;
/// Number of members asked to probe indirectly.
pub const INDIRECT_PING_COUNT: usize = 3;
/// A suspected member is declared dead after this many protocol periods.
pub const SUSPICION_MULTIPLIER: u32 = 5;
/// Largest datagram the protocol sends or receives.
pub const MAX_TRANSMIT_SIZE: usize = 512;
/// Number of members gossiped to per round.
pub const GOSSIP_FACTOR: usize = 3;
/// Maximum number of member updates carried by one gossip message.
pub const MAX_GOSSIP_UPDATES: usize = 5;
/// Time before a failed node may rejoin.
pub const REINTEGRATION_TIME_MS: u64 = 60000;
/// Share of members (in percent) that must be alive for quorum.
pub const QUORUM_PERCENT: u64 = 51;
/// How often leadership is checked.
pub const LEADER_CHECK_INTERVAL_MS: u64 = 5000;
/// Members whose state changed within this many seconds are gossiped.
pub const GOSSIP_RECENT_SECS: u64 = 60;

/// State of a node as seen by the membership protocol.
#[derive(Debug, Clone, Copy, PartialEq, Eq, Structural)]
pub enum NodeState {
    Alive,
    Suspected,
    Dead,
    Left,
    Maintenance,
}

/// A node of the cluster.
#[derive(Debug, Clone)]
pub struct Member {
    pub id: String,
    pub address: String,
    pub state: NodeState,
    pub incarnation: u64,
    pub last_state_change: u64,
    pub is_leader: bool,
    pub last_leader_check: u64,
    pub metadata: Option<Vec<(String, String)>>,
}

/// Kinds of protocol message.
#[derive(Debug, Clone, Copy, PartialEq, Eq, Structural)]
pub enum MessageType {
    Ping,
    PingReq,
    Ack,
    Sync,
    Join,
    Leave,
    LeaderElection,
    LeaderAnnounce,
    Maintenance,
    Reintegrate,
    StateSync,
}

/// A protocol message.
#[derive(Debug, Clone)]
pub struct Message {
    pub message_type: MessageType,
    pub sender_id: String,
    pub sender_addr: String,
    pub target_id: Option<String>,
    pub incarnation: u64,
    pub members: Option<Vec<Member>>,
}

/// A change in cluster membership, published to interested components.
#[derive(Debug, Clone)]
pub enum MembershipEvent {
    MemberJoined(Member),
    MemberSuspected(Member),
    MemberDead(Member),
    MemberLeft(Member),
    MemberAlive(Member),
    MemberMaintenance(Member),
    LeaderElected(Member),
    NetworkPartitionDetected,
    NetworkPartitionResolved,
    QuorumLost,
    QuorumRestored,
}

/// Protocol configuration; durations are in milliseconds.
#[derive(Debug, Clone)]
pub struct MembershipConfig {
    pub bind_addr: String,
    pub bind_port: u16,
    pub protocol_period_ms: u64,
    pub ping_timeout_ms: u64,
    pub suspicion_mult: u32,
    pub indirect_checks: usize,
    pub gossip_factor: usize,
    pub max_gossip_updates: usize,
    pub reintegration_time_ms: u64,
    pub quorum_percent: u64,
    pub leader_check_interval_ms: u64,
}

/// Something the protocol asks its driver to do.
#[derive(Debug, Clone)]
pub enum MembershipEffect {
    /// Publish a membership event.
    Emit(MembershipEvent),
    /// Send a message to `address` (host and port).
    Send { address: String, message: Message },
    /// Send a message to `address` after `delay_ms` milliseconds.
    SendAfter { delay_ms: u64, address: String, message: Message },
    /// After `delay_ms` milliseconds, report whether `target_id` answered by calling
    /// back with [`MembershipProtocol::ping_timed_out`] (direct probe) or
    /// [`MembershipProtocol::indirect_ping_timed_out`] (indirect probe).
    ProbeTimeout { delay_ms: u64, target_id: String, indirect: bool },
    /// Stop the protocol loop.
    Shutdown,
}

/// Errors of the membership protocol.
#[derive(Debug, Clone, PartialEq, Eq, Structural)]
pub enum MembershipError {
    /// Writing state needs a leader and none is known.
    NoLeader,
}

/// The protocol's state: the member table, timers, the replicated store and
/// leadership and quorum flags.
pub struct MembershipProtocol {
    pub node_id: String,
    pub addr: String,
    pub incarnation: u64,
    /// Member table keyed by member id.
    pub members: Vec<(String, Member)>,
    /// Deadline (monotonic milliseconds) of each suspected member.
    pub suspect_timers: Vec<(String, u64)>,
    /// Deadline (monotonic milliseconds) before which a node may not rejoin.
    pub reintegration_timers: Vec<(String, u64)>,
    pub state_store: Vec<(String, Vec<u8>)>,
    pub state_versions: Vec<(String, u64)>,
    pub is_leader: bool,
    pub quorum_size: usize,
    pub partition_detected: bool,
    pub config: MembershipConfig,
}

// ---------------------------------------------------------------------------
// Views
// ---------------------------------------------------------------------------

/// The characters of each key and value of a list of string pairs.
pub open spec fn pairs_view(v: Seq<(String, String)>) -> Seq<(Seq<char>, Seq<char>)> {
    v.map_values(|p: (String, String)| (p.0@, p.1@))
}

/// Mathematical value of a [`Member`].
pub struct MemberView {
    pub id: Seq<char>,
    pub address: Seq<char>,
    pub state: NodeState,
    pub incarnation: u64,
    pub last_state_change: u64,
    pub is_leader: bool,
    pub last_leader_check: u64,
    pub metadata: Option<Seq<(Seq<char>, Seq<char>)>>,
}

impl View for Member {
    type V = MemberView;

    open spec fn view(&self) -> MemberView {
        MemberView {
            id: self.id@,
            address: self.address@,
            state: self.state,
            incarnation: self.incarnation,
            last_state_change: self.last_state_change,
            is_leader: self.is_leader,
            last_leader_check: self.last_leader_check,
            metadata: match self.metadata {
                Some(md) => Some(pairs_view(md@)),
                None => None,
            },
        }
    }
}

/// The views of a list of members.
pub open spec fn members_view(v: Seq<Member>) -> Seq<MemberView> {
    v.map_values(|m: Member| m@)
}

/// Mathematical value of a [`Message`].
pub struct MessageView {
    pub message_type: MessageType,
    pub sender_id: Seq<char>,
    pub sender_addr: Seq<char>,
    pub target_id: Option<Seq<char>>,
    pub incarnation: u64,
    pub members: Option<Seq<MemberView>>,
}

impl View for Message {
    type V = MessageView;

    open spec fn view(&self) -> MessageView {
        MessageView {
            message_type: self.message_type,
            sender_id: self.sender_id@,
            sender_addr: self.sender_addr@,
            target_id: match self.target_id {
                Some(t) => Some(t@),
                None => None,
            },
            incarnation: self.incarnation,
            members: match self.members {
                Some(ms) => Some(members_view(ms@)),
                None => None,
            },
        }
    }
}

/// Mathematical value of a [`MembershipEvent`].
pub enum EventView {
    MemberJoined(MemberView),
    MemberSuspected(MemberView),
    MemberDead(MemberView),
    MemberLeft(MemberView),
    MemberAlive(MemberView),
    MemberMaintenance(MemberView),
    LeaderElected(MemberView),
    NetworkPartitionDetected,
    NetworkPartitionResolved,
    QuorumLost,
    QuorumRestored,
}

impl View for MembershipEvent {
    type V = EventView;

    open spec fn view(&self) -> EventView {
        match self {
            MembershipEvent::MemberJoined(m) => EventView::MemberJoined(m@),
            MembershipEvent::MemberSuspected(m) => EventView::MemberSuspected(m@),
            MembershipEvent::MemberDead(m) => EventView::MemberDead(m@),
            MembershipEvent::MemberLeft(m) => EventView::MemberLeft(m@),
            MembershipEvent::MemberAlive(m) => EventView::MemberAlive(m@),
            MembershipEvent::MemberMaintenance(m) => EventView::MemberMaintenance(m@),
            MembershipEvent::LeaderElected(m) => EventView::LeaderElected(m@),
            MembershipEvent::NetworkPartitionDetected => EventView::NetworkPartitionDetected,
            MembershipEvent::NetworkPartitionResolved => EventView::NetworkPartitionResolved,
            MembershipEvent::QuorumLost => EventView::QuorumLost,
            MembershipEvent::QuorumRestored => EventView::QuorumRestored,
        }
    }
}

/// Mathematical value of a [`MembershipEffect`].
pub enum EffectView {
    Emit(EventView),
    Send { address: Seq<char>, message: MessageView },
    SendAfter { delay_ms: u64, address: Seq<char>, message: MessageView },
    ProbeTimeout { delay_ms: u64, target_id: Seq<char>, indirect: bool },
    Shutdown,
}

impl View for MembershipEffect {
    type V = EffectView;

    open spec fn view(&self) -> EffectView {
        match self {
            MembershipEffect::Emit(e) => EffectView::Emit(e@),
            MembershipEffect::Send { address, message } => EffectView::Send { address: address@, message: message@ },
            MembershipEffect::SendAfter { delay_ms, address, message } =>
                EffectView::SendAfter { delay_ms: *delay_ms, address: address@, message: message@ },
            MembershipEffect::ProbeTimeout { delay_ms, target_id, indirect } =>
                EffectView::ProbeTimeout { delay_ms: *delay_ms, target_id: target_id@, indirect: *indirect },
            MembershipEffect::Shutdown => EffectView::Shutdown,
        }
    }
}

/// The views of a list of effects.
pub open spec fn effects_view(v: Seq<MembershipEffect>) -> Seq<EffectView> {
    v.map_values(|e: MembershipEffect| e@)
}

// ---------------------------------------------------------------------------
// Specifications
// ---------------------------------------------------------------------------

/// The member `m` with a new state recorded at time `now`.
pub open spec fn with_state(m: MemberView, st: NodeState, now: u64) -> MemberView {
    MemberView { state: st, last_state_change: now, ..m }
}

/// The member table as a map from id to member.
pub open spec fn member_map(s: &MembershipProtocol) -> Map<Seq<char>, MemberView> {
    as_map(s.members@).map_values(|m: Member| m@)
}

/// The table of suspicion deadlines as a map.
pub open spec fn suspect_map(s: &MembershipProtocol) -> Map<Seq<char>, u64> {
    as_map(s.suspect_timers@)
}

/// The table of reintegration deadlines as a map.
pub open spec fn reintegration_map(s: &MembershipProtocol) -> Map<Seq<char>, u64> {
    as_map(s.reintegration_timers@)
}

/// The replicated store as a map from key to bytes.
pub open spec fn store_map(s: &MembershipProtocol) -> Map<Seq<char>, Seq<u8>> {
    as_map(s.state_store@).map_values(|v: Vec<u8>| v@)
}

/// The version table as a map.
pub open spec fn version_map(s: &MembershipProtocol) -> Map<Seq<char>, u64> {
    as_map(s.state_versions@)
}

/// Well-formedness: every keyed table has distinct keys.
pub open spec fn wf(s: &MembershipProtocol) -> bool {
    &&& keys_distinct(s.members@)
    &&& keys_distinct(s.suspect_timers@)
    &&& keys_distinct(s.reintegration_timers@)
    &&& keys_distinct(s.state_store@)
    &&& keys_distinct(s.state_versions@)
}

/// "host:port".
pub open spec fn host_port(host: Seq<char>, port: u16) -> Seq<char> {
    host + seq![':'] + decimal(port as nat)
}

/// Members (in table order) that are alive and are not the node `self_id`.
pub open spec fn alive_others(ms: Seq<(String, Member)>, self_id: Seq<char>) -> Seq<MemberView>
    decreases ms.len(),
{
    if ms.len() == 0 {
        Seq::empty()
    } else {
        let rest = alive_others(ms.drop_last(), self_id);
        let e = ms.last();
        if e.1.state == NodeState::Alive && e.0@ != self_id {
            rest.push(e.1@)
        } else {
            rest
        }
    }
}

/// Members (in table order) that are alive.
pub open spec fn alive_members(ms: Seq<(String, Member)>) -> Seq<MemberView>
    decreases ms.len(),
{
    if ms.len() == 0 {
        Seq::empty()
    } else {
        let rest = alive_members(ms.drop_last());
        if ms.last().1.state == NodeState::Alive {
            rest.push(ms.last().1@)
        } else {
            rest
        }
    }
}

/// All members (in table order).
pub open spec fn all_members(ms: Seq<(String, Member)>) -> Seq<MemberView> {
    ms.map_values(|e: (String, Member)| e.1@)
}

/// The member table as a sequence of (key, member) views, in table order.
pub open spec fn table_view(ms: Seq<(String, Member)>) -> Seq<(Seq<char>, MemberView)> {
    ms.map_values(|e: (String, Member)| (e.0@, e.1@))
}

/// One `Send` of `msg` to each member of `targets`, at the member's address and `port`.
pub open spec fn sends_to(targets: Seq<MemberView>, port: u16, msg: MessageView) -> Seq<EffectView> {
    targets.map_values(|m: MemberView| EffectView::Send { address: host_port(m.address, port), message: msg })
}

/// The quorum size for a table of `n` members: the least integer at least 51% of `n`.
pub open spec fn quorum_for(n: nat) -> nat {
    ((n * QUORUM_PERCENT + 99) / 100) as nat
}

/// The quorum is the least count of members that is at least 51 % of them: so
/// it is a strict majority of a nonempty table (a minority is never quorate),
/// and never more than the table.
pub proof fn law_quorum_majority(n: nat)
    ensures
        quorum_for(n) * 100 >= 51 * n,
        quorum_for(n) > 0 ==> (quorum_for(n) - 1) * 100 < 51 * n,
        n > 0 ==> 2 * quorum_for(n) > n,
        quorum_for(n) <= n,
{
    let q = quorum_for(n);
    assert(q * 100 >= 51 * n && q * 100 < 51 * n + 100) by (nonlinear_arith)
        requires q == (n * 51 + 99) / 100;
    assert(n > 0 ==> 2 * q > n) by (nonlinear_arith)
        requires q * 100 >= 51 * n;
    assert(q <= n) by (nonlinear_arith)
        requires q * 100 < 51 * n + 100;
}

/// The scalar fields of the state agree.
pub open spec fn same_scalars(a: &MembershipProtocol, b: &MembershipProtocol) -> bool {
    &&& a.node_id == b.node_id
    &&& a.addr == b.addr
    &&& a.incarnation == b.incarnation
    &&& a.is_leader == b.is_leader
    &&& a.quorum_size == b.quorum_size
    &&& a.partition_detected == b.partition_detected
    &&& a.config == b.config
}

/// The timer and store tables agree.
pub open spec fn same_aux_tables(a: &MembershipProtocol, b: &MembershipProtocol) -> bool {
    &&& a.reintegration_timers@ == b.reintegration_timers@
    &&& a.state_store@ == b.state_store@
    &&& a.state_versions@ == b.state_versions@
}

/// The default configuration: bind 0.0.0.0:7946 and the protocol constants.
pub open spec fn is_default_config(c: MembershipConfig) -> bool {
    &&& c.bind_addr@ == "0.0.0.0"@
    &&& c.bind_port == 7946
    &&& c.protocol_period_ms == PROTOCOL_PERIOD_MS
    &&& c.ping_timeout_ms == PING_TIMEOUT_MS
    &&& c.suspicion_mult == SUSPICION_MULTIPLIER
    &&& c.indirect_checks == INDIRECT_PING_COUNT
    &&& c.gossip_factor == GOSSIP_FACTOR
    &&& c.max_gossip_updates == MAX_GOSSIP_UPDATES
    &&& c.reintegration_time_ms == REINTEGRATION_TIME_MS
    &&& c.quorum_percent == QUORUM_PERCENT
    &&& c.leader_check_interval_ms == LEADER_CHECK_INTERVAL_MS
}

/// Suspicion deadline for a member suspected at monotonic time `now_ms`.
pub open spec fn suspicion_deadline(cfg: MembershipConfig, now_ms: u64) -> int {
    now_ms + cfg.protocol_period_ms * cfg.suspicion_mult
}

/// What suspecting `target` does: an alive member becomes suspected at `now` and
/// gets a suspicion deadline, and `MemberSuspected` is published; anything else is
/// left as it is.
pub open spec fn suspect_post(s0: &MembershipProtocol, s1: &MembershipProtocol, eff: Seq<EffectView>, target: Seq<char>, now: u64, now_ms: u64) -> bool {
    &&& wf(s1)
    &&& same_scalars(s1, s0)
    &&& same_aux_tables(s1, s0)
    &&& if member_map(s0).contains_key(target) && member_map(s0)[target].state == NodeState::Alive {
        let m = with_state(member_map(s0)[target], NodeState::Suspected, now);
        &&& member_map(s1) == member_map(s0).insert(target, m)
        &&& suspect_map(s1) == suspect_map(s0).insert(target, suspicion_deadline(s0.config, now_ms) as u64)
        &&& eff == seq![EffectView::Emit(EventView::MemberSuspected(m))]
    } else {
        &&& s1.members@ == s0.members@
        &&& s1.suspect_timers@ == s0.suspect_timers@
        &&& eff.len() == 0
    }
}

/// What an acknowledgement from `sender` does: a known sender adopts a higher
/// incarnation; a suspected sender becomes alive again (its suspicion timer is
/// cleared and `MemberAlive` published). Unknown senders change nothing.
pub open spec fn ack_post(s0: &MembershipProtocol, s1: &MembershipProtocol, eff: Seq<EffectView>, sender: Seq<char>, inc: u64, now: u64) -> bool {
    &&& wf(s1)
    &&& same_scalars(s1, s0)
    &&& same_aux_tables(s1, s0)
    &&& if member_map(s0).contains_key(sender) {
        let m0 = member_map(s0)[sender];
        let m1 = MemberView { incarnation: if inc > m0.incarnation { inc } else { m0.incarnation }, ..m0 };
        if m0.state == NodeState::Suspected {
            let m2 = with_state(m1, NodeState::Alive, now);
            &&& member_map(s1) == member_map(s0).insert(sender, m2)
            &&& suspect_map(s1) == suspect_map(s0).remove(sender)
            &&& eff == seq![EffectView::Emit(EventView::MemberAlive(m2))]
        } else {
            &&& member_map(s1) == member_map(s0).insert(sender, m1)
            &&& s1.suspect_timers@ == s0.suspect_timers@
            &&& eff.len() == 0
        }
    } else {
        &&& s1.members@ == s0.members@
        &&& s1.suspect_timers@ == s0.suspect_timers@
        &&& eff.len() == 0
    }
}

/// What a member's own announcement of state `st` (leaving, or entering
/// maintenance) does: a known sender takes the state at `now` and the matching
/// event (`MemberLeft` or `MemberMaintenance`) is published.
pub open spec fn announced_post(s0: &MembershipProtocol, s1: &MembershipProtocol, eff: Seq<EffectView>, sender: Seq<char>, st: NodeState, now: u64) -> bool {
    &&& wf(s1)
    &&& same_scalars(s1, s0)
    &&& same_aux_tables(s1, s0)
    &&& s1.suspect_timers@ == s0.suspect_timers@
    &&& if member_map(s0).contains_key(sender) {
        let m = with_state(member_map(s0)[sender], st, now);
        &&& member_map(s1) == member_map(s0).insert(sender, m)
        &&& eff == seq![EffectView::Emit(
            if st == NodeState::Left { EventView::MemberLeft(m) } else { EventView::MemberMaintenance(m) })]
    } else {
        &&& s1.members@ == s0.members@
        &&& eff.len() == 0
    }
}

/// A fresh member entry, as the protocol creates for newcomers.
pub open spec fn fresh_member(id: Seq<char>, address: Seq<char>, inc: u64, now: u64, leader: bool, m: MemberView) -> bool {
    &&& m.id == id
    &&& m.address == address
    &&& m.state == NodeState::Alive
    &&& m.incarnation == inc
    &&& m.last_state_change == now
    &&& m.is_leader == leader
    &&& m.last_leader_check == now
    &&& m.metadata == Some(Seq::<(Seq<char>, Seq<char>)>::empty())
}

// ---------------------------------------------------------------------------
// Copies and small builders
// ---------------------------------------------------------------------------

/// An equal copy of a list of string pairs.
pub fn copy_pairs(v: &Vec<(String, String)>) -> (r: Vec<(String, String)>)
    ensures
        r@ == v@,
{
    let mut r: Vec<(String, String)> = Vec::new();
    let mut i: usize = 0;
    while i < v.len()
        invariant
            i <= v.len(),
            r@ == v@.subrange(0, i as int),
        decreases v.len() - i,
    {
        r.push((v[i].0.clone(), v[i].1.clone()));
        i = i + 1;
        assert(r@ =~= v@.subrange(0, i as int));
    }
    assert(v@.subrange(0, v@.len() as int) =~= v@);
    r
}

/// An equal copy of a member.
pub fn copy_member(m: &Member) -> (r: Member)
    ensures
        r@ == m@,
{
    let metadata = match &m.metadata {
        Some(md) => Some(copy_pairs(md)),
        None => None,
    };
    Member {
        id: m.id.clone(),
        address: m.address.clone(),
        state: m.state,
        incarnation: m.incarnation,
        last_state_change: m.last_state_change,
        is_leader: m.is_leader,
        last_leader_check: m.last_leader_check,
        metadata,
    }
}

/// An equal copy of a list of members.
pub fn copy_members(v: &Vec<Member>) -> (r: Vec<Member>)
    ensures
        members_view(r@) == members_view(v@),
{
    let mut r: Vec<Member> = Vec::new();
    let mut i: usize = 0;
    while i < v.len()
        invariant
            i <= v.len(),
            members_view(r@) == members_view(v@.subrange(0, i as int)),
        decreases v.len() - i,
    {
        let ghost r0 = r@;
        r.push(copy_member(&v[i]));
        assert(members_view(r@) =~= members_view(r0).push(v@[i as int]@));
        i = i + 1;
        assert(members_view(r@) =~= members_view(v@.subrange(0, i as int)));
    }
    assert(v@.subrange(0, v@.len() as int) =~= v@);
    r
}

/// An equal copy of a message.
pub fn copy_message(m: &Message) -> (r: Message)
    ensures
        r@ == m@,
{
    let target_id = match &m.target_id {
        Some(t) => Some(t.clone()),
        None => None,
    };
    let members = match &m.members {
        Some(ms) => Some(copy_members(ms)),
        None => None,
    };
    Message {
        message_type: m.message_type,
        sender_id: m.sender_id.clone(),
        sender_addr: m.sender_addr.clone(),
        target_id,
        incarnation: m.incarnation,
        members,
    }
}

/// One `Send` of `msg` to each of `targets`, at the member's address and `port`.
pub fn send_to_all(targets: &Vec<Member>, port: u16, msg: &Message) -> (r: Vec<MembershipEffect>)
    ensures
        effects_view(r@) == sends_to(members_view(targets@), port, msg@),
{
    let mut r: Vec<MembershipEffect> = Vec::new();
    let mut i: usize = 0;
    while i < targets.len()
        invariant
            i <= targets.len(),
            effects_view(r@) == sends_to(members_view(targets@.subrange(0, i as int)), port, msg@),
        decreases targets.len() - i,
    {
        let ghost r0 = r@;
        let address = host_port_string(targets[i].address.as_str(), port);
        let e = MembershipEffect::Send { address, message: copy_message(msg) };
        assert(e@ == EffectView::Send { address: host_port(targets@[i as int]@.address, port), message: msg@ });
        r.push(e);
        assert(effects_view(r@) =~= effects_view(r0).push(e@));
        assert(members_view(targets@.subrange(0, i + 1)) =~= members_view(targets@.subrange(0, i as int)).push(targets@[i as int]@));
        i = i + 1;
        assert(effects_view(r@) =~= sends_to(members_view(targets@.subrange(0, i as int)), port, msg@));
    }
    assert(targets@.subrange(0, targets@.len() as int) =~= targets@);
    r
}

/// An equal copy of a configuration.
pub fn copy_config(c: &MembershipConfig) -> (r: MembershipConfig)
    ensures
        r == *c,
{
    MembershipConfig {
        bind_addr: c.bind_addr.clone(),
        bind_port: c.bind_port,
        protocol_period_ms: c.protocol_period_ms,
        ping_timeout_ms: c.ping_timeout_ms,
        suspicion_mult: c.suspicion_mult,
        indirect_checks: c.indirect_checks,
        gossip_factor: c.gossip_factor,
        max_gossip_updates: c.max_gossip_updates,
        reintegration_time_ms: c.reintegration_time_ms,
        quorum_percent: c.quorum_percent,
        leader_check_interval_ms: c.leader_check_interval_ms,
    }
}

/// "host:port" as a string.
pub fn host_port_string(host: &str, port: u16) -> (r: String)
    ensures
        r@ == host_port(host@, port),
{
    let mut r = owned(host);
    push_char(&mut r, ':');
    push_decimal(&mut r, port as u64);
    r
}

/// A member entry for a node seen for the first time.
pub fn new_member(id: &str, address: &str, incarnation: u64, now: u64, is_leader: bool) -> (m: Member)
    ensures
        fresh_member(id@, address@, incarnation, now, is_leader, m@),
{
    let md: Vec<(String, String)> = Vec::new();
    assert(pairs_view(md@) =~= Seq::<(Seq<char>, Seq<char>)>::empty());
    Member {
        id: owned(id),
        address: owned(address),
        state: NodeState::Alive,
        incarnation,
        last_state_change: now,
        is_leader,
        last_leader_check: now,
        metadata: Some(md),
    }
}

impl Default for MembershipConfig {
    fn default() -> (c: Self)
        ensures
            is_default_config(c),
    {
        MembershipConfig {
            bind_addr: owned("0.0.0.0"),
            bind_port: 7946,
            protocol_period_ms: PROTOCOL_PERIOD_MS,
            ping_timeout_ms: PING_TIMEOUT_MS,
            suspicion_mult: SUSPICION_MULTIPLIER,
            indirect_checks: INDIRECT_PING_COUNT,
            gossip_factor: GOSSIP_FACTOR,
            max_gossip_updates: MAX_GOSSIP_UPDATES,
            reintegration_time_ms: REINTEGRATION_TIME_MS,
            quorum_percent: QUORUM_PERCENT,
            leader_check_interval_ms: LEADER_CHECK_INTERVAL_MS,
        }
    }
}

impl MembershipProtocol {
    /// A protocol state in which this node is the only member: alive, incarnation 1,
    /// not leader, quorum size 1.
    pub fn new(node_id: String, addr: String, config: Option<MembershipConfig>, now: u64) -> (s: Self)
        ensures
            wf(&s),
            s.node_id == node_id,
            s.addr == addr,
            s.incarnation == 1,
            s.members@.len() == 1,
            s.members@[0].0@ == node_id@,
            fresh_member(node_id@, addr@, 1, now, false, s.members@[0].1@),
            s.suspect_timers@.len() == 0,
            s.reintegration_timers@.len() == 0,
            s.state_store@.len() == 0,
            s.state_versions@.len() == 0,
            !s.is_leader,
            s.quorum_size == 1,
            !s.partition_detected,
            match config {
                Some(c) => s.config == c,
                None => is_default_config(s.config),
            },
    {
        let config = match config {
            Some(c) => c,
            None => MembershipConfig::default(),
        };
        let me = new_member(node_id.as_str(), addr.as_str(), 1, now, false);
        let mut members: Vec<(String, Member)> = Vec::new();
        members.push((node_id.clone(), me));
        MembershipProtocol {
            node_id,
            addr,
            incarnation: 1,
            members,
            suspect_timers: Vec::new(),
            reintegration_timers: Vec::new(),
            state_store: Vec::new(),
            state_versions: Vec::new(),
            is_leader: false,
            quorum_size: 1,
            partition_detected: false,
            config,
        }
    }

    /// Replaces the member stored at position `i`, keeping its key.
    pub(crate) fn set_member(&mut self, i: usize, m: Member)
        requires
            wf(old(self)),
            i < old(self).members@.len(),
        ensures
            wf(final(self)),
            final(self).members@ == old(self).members@.update(i as int, (old(self).members@[i as int].0, m)),
            member_map(final(self)) == member_map(old(self)).insert(old(self).members@[i as int].0@, m@),
            same_scalars(final(self), old(self)),
            same_aux_tables(final(self), old(self)),
            final(self).suspect_timers@ == old(self).suspect_timers@,
    {
        let key = self.members[i].0.clone();
        proof {
            lemma_as_map_update(self.members@, i as int, (key, m));
        }
        self.members.set(i, (key, m));
        assert(member_map(self) =~= member_map(old(self)).insert(old(self).members@[i as int].0@, m@));
    }

    /// Members that are alive, in table order.
    pub fn get_alive_members(&self) -> (r: Vec<Member>)
        ensures
            members_view(r@) == alive_members(self.members@),
    {
        let mut r: Vec<Member> = Vec::new();
        let mut i: usize = 0;
        while i < self.members.len()
            invariant
                i <= self.members.len(),
                members_view(r@) == alive_members(self.members@.subrange(0, i as int)),
            decreases self.members.len() - i,
        {
            let ghost pre = self.members@.subrange(0, i as int);
            let ghost r0 = r@;
            if self.members[i].1.state == NodeState::Alive {
                r.push(copy_member(&self.members[i].1));
                assert(members_view(r@) =~= members_view(r0).push(self.members@[i as int].1@));
            }
            i = i + 1;
            assert(self.members@.subrange(0, i as int).drop_last() =~= pre);
        }
        assert(self.members@.subrange(0, self.members@.len() as int) =~= self.members@);
        r
    }

    /// Members that are alive and are not this node, in table order.
    pub fn alive_other_members(&self) -> (r: Vec<Member>)
        ensures
            members_view(r@) == alive_others(self.members@, self.node_id@),
    {
        let mut r: Vec<Member> = Vec::new();
        let mut i: usize = 0;
        while i < self.members.len()
            invariant
                i <= self.members.len(),
                members_view(r@) == alive_others(self.members@.subrange(0, i as int), self.node_id@),
            decreases self.members.len() - i,
        {
            let ghost pre = self.members@.subrange(0, i as int);
            let ghost r0 = r@;
            if self.members[i].1.state == NodeState::Alive && !str_eq(self.members[i].0.as_str(), self.node_id.as_str()) {
                r.push(copy_member(&self.members[i].1));
                assert(members_view(r@) =~= members_view(r0).push(self.members@[i as int].1@));
            }
            i = i + 1;
            assert(self.members@.subrange(0, i as int).drop_last() =~= pre);
        }
        assert(self.members@.subrange(0, self.members@.len() as int) =~= self.members@);
        r
    }

    /// All members, in table order.
    pub fn get_all_members(&self) -> (r: Vec<Member>)
        ensures
            members_view(r@) == all_members(self.members@),
    {
        let mut r: Vec<Member> = Vec::new();
        let mut i: usize = 0;
        while i < self.members.len()
            invariant
                i <= self.members.len(),
                members_view(r@) == all_members(self.members@.subrange(0, i as int)),
            decreases self.members.len() - i,
        {
            let ghost r0 = r@;
            r.push(copy_member(&self.members[i].1));
            assert(members_view(r@) =~= members_view(r0).push(self.members@[i as int].1@));
            i = i + 1;
            assert(members_view(r@) =~= all_members(self.members@.subrange(0, i as int)));
        }
        assert(self.members@.subrange(0, self.members@.len() as int) =~= self.members@);
        r
    }

    /// Marks an alive member as suspected and starts its suspicion timer.
    /// Does nothing for unknown members or members that are not alive.
    pub fn suspect_member(&mut self, target_id: &str, now: u64, now_ms: u64) -> (effects: Vec<MembershipEffect>)
        requires
            wf(old(self)),
            suspicion_deadline(old(self).config, now_ms) <= u64::MAX,
        ensures
            suspect_post(old(self), final(self), effects_view(effects@), target_id@, now, now_ms),
    {
        let mut effects: Vec<MembershipEffect> = Vec::new();
        let pos = find_key(&self.members, target_id);
        proof {
            lemma_key_pos(self.members@, target_id@);
        }
        if let Some(i) = pos {
            if self.members[i].1.state == NodeState::Alive {
                let mut m = copy_member(&self.members[i].1);
                m.state = NodeState::Suspected;
                m.last_state_change = now;
                let ev = copy_member(&m);
                self.set_member(i, m);
                let deadline = now_ms + self.config.protocol_period_ms * (self.config.suspicion_mult as u64);
                insert_key(&mut self.suspect_timers, owned(target_id), deadline);
                effects.push(MembershipEffect::Emit(MembershipEvent::MemberSuspected(ev)));
                assert(effects_view(effects@) =~= seq![EffectView::Emit(EventView::MemberSuspected(ev@))]);
            }
        }
        effects
    }

    /// Position of the member stored under `id`, with the facts that tie it to the map view.
    pub(crate) fn member_pos(&self, id: &str) -> (r: Option<usize>)
        requires
            wf(self),
        ensures
            match r {
                Some(i) => i < self.members@.len() && self.members@[i as int].0@ == id@
                    && member_map(self).contains_key(id@)
                    && member_map(self)[id@] == self.members@[i as int].1@,
                None => !member_map(self).contains_key(id@),
            },
    {
        let r = find_key(&self.members, id);
        proof {
            lemma_key_pos(self.members@, id@);
        }
        r
    }

    /// An acknowledgement from `sender_id`: adopts a newer incarnation, and brings a
    /// suspected sender back to alive (clearing its suspicion timer).
    pub fn process_ack(&mut self, sender_id: &str, sender_incarnation: u64, now: u64) -> (effects: Vec<MembershipEffect>)
        requires
            wf(old(self)),
        ensures
            ack_post(old(self), final(self), effects_view(effects@), sender_id@, sender_incarnation, now),
    {
        let mut effects: Vec<MembershipEffect> = Vec::new();
        if let Some(i) = self.member_pos(sender_id) {
            let mut m = copy_member(&self.members[i].1);
            if sender_incarnation > m.incarnation {
                m.incarnation = sender_incarnation;
            }
            if m.state == NodeState::Suspected {
                m.state = NodeState::Alive;
                m.last_state_change = now;
                let ev = copy_member(&m);
                self.set_member(i, m);
                let _ = remove_key(&mut self.suspect_timers, sender_id);
                effects.push(MembershipEffect::Emit(MembershipEvent::MemberAlive(ev)));
                assert(effects_view(effects@) =~= seq![EffectView::Emit(EventView::MemberAlive(ev@))]);
            } else {
                self.set_member(i, m);
            }
        }
        effects
    }

    /// Applies a state change announced by a member itself (leave or maintenance):
    /// a known member takes state `st` at time `now` and the matching event is emitted.
    fn announce_state(&mut self, sender_id: &str, st: NodeState, now: u64) -> (effects: Vec<MembershipEffect>)
        requires
            wf(old(self)),
            st == NodeState::Left || st == NodeState::Maintenance,
        ensures
            announced_post(old(self), final(self), effects_view(effects@), sender_id@, st, now),
    {
        let mut effects: Vec<MembershipEffect> = Vec::new();
        if let Some(i) = self.member_pos(sender_id) {
            let mut m = copy_member(&self.members[i].1);
            m.state = st;
            m.last_state_change = now;
            let ev = copy_member(&m);
            self.set_member(i, m);
            let event = if st == NodeState::Left {
                MembershipEvent::MemberLeft(ev)
            } else {
                MembershipEvent::MemberMaintenance(ev)
            };
            effects.push(MembershipEffect::Emit(event));
            assert(effects_view(effects@) =~= seq![EffectView::Emit(event@)]);
        }
        effects
    }

    /// A leave notification: a known sender is marked as having left.
    pub fn process_leave(&mut self, sender_id: &str, now: u64) -> (effects: Vec<MembershipEffect>)
        requires
            wf(old(self)),
        ensures
            announced_post(old(self), final(self), effects_view(effects@), sender_id@, NodeState::Left, now),
    {
        self.announce_state(sender_id, NodeState::Left, now)
    }

    /// A maintenance notification: a known sender enters maintenance mode.
    pub fn process_maintenance(&mut self, sender_id: &str, now: u64) -> (effects: Vec<MembershipEffect>)
        requires
            wf(old(self)),
        ensures
            announced_post(old(self), final(self), effects_view(effects@), sender_id@, NodeState::Maintenance, now),
    {
        self.announce_state(sender_id, NodeState::Maintenance, now)
    }

    /// Adds a member known to be alive at `address`, or, if it is known, refreshes its
    /// address and marks it alive. Returns whether it was newly added.
    pub(crate) fn admit_member(&mut self, sender_id: &str, sender_addr: &str, now: u64) -> (added: Option<Member>)
        requires
            wf(old(self)),
        ensures
            wf(final(self)),
            same_scalars(final(self), old(self)),
            same_aux_tables(final(self), old(self)),
            final(self).suspect_timers@ == old(self).suspect_timers@,
            if member_map(old(self)).contains_key(sender_id@) {
                let m0 = member_map(old(self))[sender_id@];
                &&& member_map(final(self)) == member_map(old(self)).insert(sender_id@,
                        MemberView { address: sender_addr@, ..with_state(m0, NodeState::Alive, now) })
                &&& added is None
            } else {
                &&& added is Some
                &&& fresh_member(sender_id@, sender_addr@, 1, now, false, added->0@)
                &&& member_map(final(self)) == member_map(old(self)).insert(sender_id@, added->0@)
            },
    {
        if let Some(i) = self.member_pos(sender_id) {
            let mut m = copy_member(&self.members[i].1);
            m.address = owned(sender_addr);
            m.state = NodeState::Alive;
            m.last_state_change = now;
            self.set_member(i, m);
            None
        } else {
            let m = new_member(sender_id, sender_addr, 1, now, false);
            let ev = copy_member(&m);
            insert_key(&mut self.members, owned(sender_id), m);
            assert(member_map(self) =~= member_map(old(self)).insert(sender_id@, ev@));
            Some(ev)
        }
    }
}

} // verus!
