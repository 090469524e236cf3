//! Joining and leaving, maintenance mode, reintegration, and the replicated
//! key/value store: the operations a node performs on its own initiative or on
//! request of another node.
use vstd::prelude::*;
use crate::assoc::{as_map, keys_distinct, insert_key, get_key, key_pos, lemma_key_pos};
use crate::text::{
    concat, decimal, decimal_string, owned, starts_with, str_eq, is_prefix, strip_prefixes, trim_start_matches,
    parse_u64, parse_u64_spec, utf8_lossy, text_from_utf8_lossy, utf8_bytes,
};
use crate::membership::{
    Member, MemberView, Message, MessageType, MessageView, MembershipEffect, MembershipEvent, MembershipError,
    MembershipProtocol, NodeState, EffectView, EventView, effects_view, members_view, member_map, suspect_map,
    reintegration_map, store_map, version_map, with_state, wf, same_scalars, same_aux_tables, all_members,
    alive_others, sends_to, host_port, host_port_string, copy_member, fresh_member, pairs_view, send_to_all,
};
use crate::election::{first_alive_leader, election_post, leader_announce_post};
use crate::membership::{ack_post, announced_post};
use crate::swim::{member_list_post, gossip_deadline};
use crate::probe::probe_view;

verus! {

/// The `Sync` a node answers a join with: the whole member list.
pub open spec fn sync_view(list: Seq<MemberView>) -> MessageView {
    MessageView {
        message_type: MessageType::Sync,
        sender_id: Seq::empty(),
        sender_addr: Seq::empty(),
        target_id: None,
        incarnation: 0,
        members: Some(list),
    }
}

/// A message about the sender itself, carrying no member list.
pub open spec fn notice_view(kind: MessageType, node_id: Seq<char>, addr: Seq<char>, inc: u64) -> MessageView {
    MessageView { message_type: kind, sender_id: node_id, sender_addr: addr, target_id: None, incarnation: inc, members: None }
}

/// What a join request from `sender` at `sender_addr` does: the sender is recorded
/// as alive at that address (a newcomer is added and `MemberJoined` published),
/// and it is sent the whole member list.
pub open spec fn join_post(s0: &MembershipProtocol, s1: &MembershipProtocol, eff: Seq<EffectView>, sender: Seq<char>, sender_addr: Seq<char>, now: u64) -> bool {
    let sync = EffectView::Send { address: host_port(sender_addr, s0.config.bind_port), message: sync_view(all_members(s1.members@)) };
    &&& wf(s1)
    &&& same_scalars(s1, s0)
    &&& same_aux_tables(s1, s0)
    &&& s1.suspect_timers@ == s0.suspect_timers@
    &&& if member_map(s0).contains_key(sender) {
        &&& member_map(s1) == member_map(s0).insert(sender,
            MemberView { address: sender_addr, ..with_state(member_map(s0)[sender], NodeState::Alive, now) })
        &&& eff == seq![sync]
    } else {
        let m = member_map(s1)[sender];
        &&& member_map(s1) == member_map(s0).insert(sender, m)
        &&& fresh_member(sender, sender_addr, 1, now, false, m)
        &&& eff == seq![EffectView::Emit(EventView::MemberJoined(m)), sync]
    }
}

/// What a reintegration request does: refused (nothing happens) while the sender's
/// reintegration timer runs; otherwise the sender is recorded as alive at
/// `sender_addr`, publishing `MemberAlive` for a known member and `MemberJoined`
/// for a new one.
pub open spec fn reintegration_post(s0: &MembershipProtocol, s1: &MembershipProtocol, eff: Seq<EffectView>, sender: Seq<char>, sender_addr: Seq<char>, now: u64) -> bool {
    if reintegration_map(s0).contains_key(sender) {
        &&& *s1 == *s0
        &&& eff.len() == 0
    } else {
        &&& wf(s1)
        &&& same_scalars(s1, s0)
        &&& same_aux_tables(s1, s0)
        &&& s1.suspect_timers@ == s0.suspect_timers@
        &&& if member_map(s0).contains_key(sender) {
            let m = MemberView { address: sender_addr, ..with_state(member_map(s0)[sender], NodeState::Alive, now) };
            &&& member_map(s1) == member_map(s0).insert(sender, m)
            &&& eff == seq![EffectView::Emit(EventView::MemberAlive(m))]
        } else {
            let m = member_map(s1)[sender];
            &&& member_map(s1) == member_map(s0).insert(sender, m)
            &&& fresh_member(sender, sender_addr, 1, now, false, m)
            &&& eff == seq![EffectView::Emit(EventView::MemberJoined(m))]
        }
    }
}

/// What announcing an own state change does (leaving, or entering or leaving
/// maintenance): the incarnation goes up by one, `sends` go out, and the node's own
/// entry takes state `st` at `now`.
pub open spec fn self_change_post(s0: &MembershipProtocol, s1: &MembershipProtocol, st: NodeState, now: u64) -> bool {
    &&& wf(s1)
    &&& s1.incarnation == s0.incarnation + 1
    &&& s1.node_id == s0.node_id
    &&& s1.addr == s0.addr
    &&& s1.is_leader == s0.is_leader
    &&& s1.quorum_size == s0.quorum_size
    &&& s1.partition_detected == s0.partition_detected
    &&& s1.config == s0.config
    &&& same_aux_tables(s1, s0)
    &&& s1.suspect_timers@ == s0.suspect_timers@
    &&& member_map(s1) == if member_map(s0).contains_key(s0.node_id@) {
        member_map(s0).insert(s0.node_id@, with_state(member_map(s0)[s0.node_id@], st, now))
    } else {
        member_map(s0)
    }
}

impl MembershipProtocol {
    /// A join request (see [`join_post`]).
    pub fn process_join(&mut self, sender_id: &str, sender_addr: &str, now: u64) -> (effects: Vec<MembershipEffect>)
        requires
            wf(old(self)),
        ensures
            join_post(old(self), final(self), effects_view(effects@), sender_id@, sender_addr@, now),
    {
        let added = self.admit_member(sender_id, sender_addr, now);
        let mut effects: Vec<MembershipEffect> = Vec::new();
        if let Some(m) = added {
            assert(member_map(self)[sender_id@] == m@);
            let ghost mv = m@;
            effects.push(MembershipEffect::Emit(MembershipEvent::MemberJoined(m)));
            assert(effects_view(effects@) =~= seq![EffectView::Emit(EventView::MemberJoined(mv))]);
        }
        let all = self.get_all_members();
        let msg = Message {
            message_type: MessageType::Sync,
            sender_id: String::new(),
            sender_addr: String::new(),
            target_id: None,
            incarnation: 0,
            members: Some(all),
        };
        assert(msg@ == sync_view(all_members(self.members@)));
        let ghost e0 = effects@;
        let address = host_port_string(sender_addr, self.config.bind_port);
        let sync = MembershipEffect::Send { address, message: msg };
        assert(sync@ == EffectView::Send { address: host_port(sender_addr@, old(self).config.bind_port),
            message: sync_view(all_members(self.members@)) });
        let ghost sv = sync@;
        effects.push(sync);
        assert(effects_view(effects@) =~= effects_view(e0).push(sv));
        proof {
            if e0.len() == 0 {
                assert(effects_view(effects@) =~= seq![sv]);
            } else {
                assert(effects_view(effects@) =~= seq![effects_view(e0)[0], sv]);
            }
        }
        effects
    }

    /// A reintegration request (see [`reintegration_post`]).
    pub fn process_reintegration(&mut self, sender_id: &str, sender_addr: &str, now: u64) -> (effects: Vec<MembershipEffect>)
        requires
            wf(old(self)),
        ensures
            reintegration_post(old(self), final(self), effects_view(effects@), sender_id@, sender_addr@, now),
    {
        let mut effects: Vec<MembershipEffect> = Vec::new();
        let blocked = get_key(&self.reintegration_timers, sender_id).is_some();
        if blocked {
            return effects;
        }
        let added = self.admit_member(sender_id, sender_addr, now);
        match added {
            Some(m) => {
                effects.push(MembershipEffect::Emit(MembershipEvent::MemberJoined(m)));
            },
            None => {
                let i = self.member_pos(sender_id).unwrap();
                let m = copy_member(&self.members[i].1);
                effects.push(MembershipEffect::Emit(MembershipEvent::MemberAlive(m)));
            },
        }
        assert(effects_view(effects@) =~= seq![effects@[0]@]);
        effects
    }

    /// The message that asks the seed node at `seed_addr` to let this node join.
    pub fn join_cluster(&self, seed_addr: &str) -> (effects: Vec<MembershipEffect>)
        ensures
            effects_view(effects@) == seq![EffectView::Send {
                address: host_port(seed_addr@, self.config.bind_port),
                message: notice_view(MessageType::Join, self.node_id@, self.addr@, self.incarnation),
            }],
    {
        let msg = Message {
            message_type: MessageType::Join,
            sender_id: self.node_id.clone(),
            sender_addr: self.addr.clone(),
            target_id: None,
            incarnation: self.incarnation,
            members: None,
        };
        let address = host_port_string(seed_addr, self.config.bind_port);
        let mut effects: Vec<MembershipEffect> = Vec::new();
        effects.push(MembershipEffect::Send { address, message: msg });
        assert(effects_view(effects@) =~= seq![effects@[0]@]);
        effects
    }

    /// Moves this node's own entry (if present) to state `st` at `now`, giving the
    /// updated entry.
    fn set_own_state(&mut self, st: NodeState, now: u64) -> (r: Option<Member>)
        requires
            wf(old(self)),
        ensures
            wf(final(self)),
            same_scalars(final(self), old(self)),
            same_aux_tables(final(self), old(self)),
            final(self).suspect_timers@ == old(self).suspect_timers@,
            if member_map(old(self)).contains_key(old(self).node_id@) {
                let m = with_state(member_map(old(self))[old(self).node_id@], st, now);
                &&& member_map(final(self)) == member_map(old(self)).insert(old(self).node_id@, m)
                &&& r is Some
                &&& r->0@ == m
            } else {
                &&& final(self).members@ == old(self).members@
                &&& r is None
            },
    {
        match self.member_pos(self.node_id.as_str()) {
            Some(i) => {
                let mut m = copy_member(&self.members[i].1);
                m.state = st;
                m.last_state_change = now;
                let ev = copy_member(&m);
                self.set_member(i, m);
                Some(ev)
            },
            None => None,
        }
    }

    /// Leaves the cluster: the incarnation goes up, every other alive member is
    /// told, the node's own entry is marked as left, and the protocol stops.
    pub fn leave_cluster(&mut self, now: u64) -> (effects: Vec<MembershipEffect>)
        requires
            wf(old(self)),
            old(self).incarnation < u64::MAX,
        ensures
            self_change_post(old(self), final(self), NodeState::Left, now),
            effects_view(effects@) == sends_to(alive_others(old(self).members@, old(self).node_id@), old(self).config.bind_port,
                notice_view(MessageType::Leave, old(self).node_id@, old(self).addr@, (old(self).incarnation + 1) as u64))
                .push(EffectView::Shutdown),
    {
        self.incarnation = self.incarnation + 1;
        let msg = Message {
            message_type: MessageType::Leave,
            sender_id: self.node_id.clone(),
            sender_addr: self.addr.clone(),
            target_id: None,
            incarnation: self.incarnation,
            members: None,
        };
        let targets = self.alive_other_members();
        let mut effects = send_to_all(&targets, self.config.bind_port, &msg);
        let _ = self.set_own_state(NodeState::Left, now);
        let ghost e0 = effects@;
        effects.push(MembershipEffect::Shutdown);
        assert(effects_view(effects@) =~= effects_view(e0).push(EffectView::Shutdown));
        effects
    }

    /// Enters maintenance mode: the incarnation goes up, every other alive member is
    /// told, and the node's own entry enters maintenance (published as
    /// `MemberMaintenance`).
    pub fn enter_maintenance_mode(&mut self, now: u64) -> (effects: Vec<MembershipEffect>)
        requires
            wf(old(self)),
            old(self).incarnation < u64::MAX,
        ensures
            self_change_post(old(self), final(self), NodeState::Maintenance, now),
            ({
                let sends = sends_to(alive_others(old(self).members@, old(self).node_id@), old(self).config.bind_port,
                    notice_view(MessageType::Maintenance, old(self).node_id@, old(self).addr@, (old(self).incarnation + 1) as u64));
                effects_view(effects@) == if member_map(old(self)).contains_key(old(self).node_id@) {
                    sends.push(EffectView::Emit(EventView::MemberMaintenance(member_map(final(self))[old(self).node_id@])))
                } else {
                    sends
                }
            }),
    {
        self.incarnation = self.incarnation + 1;
        let msg = Message {
            message_type: MessageType::Maintenance,
            sender_id: self.node_id.clone(),
            sender_addr: self.addr.clone(),
            target_id: None,
            incarnation: self.incarnation,
            members: None,
        };
        let targets = self.alive_other_members();
        let mut effects = send_to_all(&targets, self.config.bind_port, &msg);
        let ghost e0 = effects@;
        if let Some(m) = self.set_own_state(NodeState::Maintenance, now) {
            effects.push(MembershipEffect::Emit(MembershipEvent::MemberMaintenance(m)));
            assert(effects_view(effects@) =~= effects_view(e0).push(effects@[e0.len() as int]@));
        }
        effects
    }

    /// Leaves maintenance mode: the incarnation goes up, the node's own entry is
    /// alive again (published as `MemberAlive`), and the node asks to join through
    /// its own address.
    pub fn exit_maintenance_mode(&mut self, now: u64) -> (effects: Vec<MembershipEffect>)
        requires
            wf(old(self)),
            old(self).incarnation < u64::MAX,
        ensures
            self_change_post(old(self), final(self), NodeState::Alive, now),
            ({
                let join = EffectView::Send {
                    address: host_port(old(self).addr@, old(self).config.bind_port),
                    message: notice_view(MessageType::Join, old(self).node_id@, old(self).addr@, (old(self).incarnation + 1) as u64),
                };
                effects_view(effects@) == if member_map(old(self)).contains_key(old(self).node_id@) {
                    seq![EffectView::Emit(EventView::MemberAlive(member_map(final(self))[old(self).node_id@])), join]
                } else {
                    seq![join]
                }
            }),
    {
        self.incarnation = self.incarnation + 1;
        let mut effects: Vec<MembershipEffect> = Vec::new();
        if let Some(m) = self.set_own_state(NodeState::Alive, now) {
            effects.push(MembershipEffect::Emit(MembershipEvent::MemberAlive(m)));
        }
        let addr = self.addr.clone();
        let ghost e0 = effects@;
        let mut join = self.join_cluster(addr.as_str());
        let ghost j0 = join@;
        effects.append(&mut join);
        assert(effects_view(effects@) =~= effects_view(e0) + effects_view(j0));
        effects
    }
}

/// Position of the first pair at or after `i` whose key is `k`.
pub open spec fn pair_pos_from(md: Seq<(Seq<char>, Seq<char>)>, k: Seq<char>, i: int) -> Option<int>
    decreases md.len() - i,
{
    if i < 0 || i >= md.len() {
        None
    } else if md[i].0 == k {
        Some(i)
    } else {
        pair_pos_from(md, k, i + 1)
    }
}

/// The value of the first pair whose key is `k`.
pub open spec fn pair_lookup(md: Seq<(Seq<char>, Seq<char>)>, k: Seq<char>) -> Option<Seq<char>> {
    match pair_pos_from(md, k, 0) {
        Some(i) => Some(md[i].1),
        None => None,
    }
}

/// `md` with the first pair keyed `k` set to `v`, or `(k, v)` appended.
pub open spec fn pair_set(md: Seq<(Seq<char>, Seq<char>)>, k: Seq<char>, v: Seq<char>) -> Seq<(Seq<char>, Seq<char>)> {
    match pair_pos_from(md, k, 0) {
        Some(i) => md.update(i, (k, v)),
        None => md.push((k, v)),
    }
}

/// The first pair keyed `k` at or after `i` is in range and keyed `k`.
pub proof fn lemma_pair_pos_from(md: Seq<(Seq<char>, Seq<char>)>, k: Seq<char>, i: int)
    requires
        0 <= i,
    ensures
        match pair_pos_from(md, k, i) {
            Some(j) => i <= j < md.len() && md[j].0 == k,
            None => true,
        },
    decreases md.len() - i,
{
    if i < md.len() && md[i].0 != k {
        lemma_pair_pos_from(md, k, i + 1);
    }
}

/// The member that carries a replicated value in a `StateSync` message.
pub open spec fn state_member_view(key: Seq<char>, text: Seq<char>, version: u64, version_text: Seq<char>, now: u64) -> MemberView {
    MemberView {
        id: "state:"@ + key,
        address: Seq::empty(),
        state: NodeState::Alive,
        incarnation: version,
        last_state_change: now,
        is_leader: false,
        last_leader_check: 0,
        metadata: Some(seq![("state:"@ + key, text), ("version:"@ + key, version_text)]),
    }
}

/// A `StateSync` message carrying one state member.
pub open spec fn state_sync_view(node_id: Seq<char>, addr: Seq<char>, inc: u64, m: MemberView) -> MessageView {
    MessageView {
        message_type: MessageType::StateSync,
        sender_id: node_id,
        sender_addr: addr,
        target_id: None,
        incarnation: inc,
        members: Some(seq![m]),
    }
}

/// The version a leader gives the next write of `key`.
pub open spec fn next_version(s: &MembershipProtocol, key: Seq<char>) -> int {
    if version_map(s).contains_key(key) { version_map(s)[key] + 1 } else { 1 }
}

/// What writing `value` under `key` does. The leader stores it with the next
/// version, records both in its own entry's metadata, and sends the value to every
/// other alive member; another node forwards the write (with version 0) to the
/// first alive leader, and fails with `NoLeader` when there is none.
pub open spec fn store_post(s0: &MembershipProtocol, s1: &MembershipProtocol, r: Result<Seq<EffectView>, MembershipError>,
    key: Seq<char>, value: Seq<u8>, now: u64) -> bool {
    if s0.is_leader {
        let v = next_version(s0, key) as u64;
        let text = utf8_lossy(value);
        &&& wf(s1)
        &&& same_scalars(s1, s0)
        &&& s1.suspect_timers@ == s0.suspect_timers@
        &&& s1.reintegration_timers@ == s0.reintegration_timers@
        &&& store_map(s1) == store_map(s0).insert(key, value)
        &&& version_map(s1) == version_map(s0).insert(key, v)
        &&& member_map(s1) == if member_map(s0).contains_key(s0.node_id@) {
            let m0 = member_map(s0)[s0.node_id@];
            let base = match m0.metadata { Some(md) => md, None => Seq::empty() };
            member_map(s0).insert(s0.node_id@, MemberView {
                metadata: Some(pair_set(pair_set(base, "state:"@ + key, text), "version:"@ + key, decimal(v as nat))),
                ..m0
            })
        } else {
            member_map(s0)
        }
        &&& r == Ok::<Seq<EffectView>, MembershipError>(sends_to(alive_others(s1.members@, s0.node_id@), s0.config.bind_port,
            state_sync_view(s0.node_id@, s0.addr@, s0.incarnation, state_member_view(key, text, v, decimal(v as nat), now))))
    } else {
        &&& *s1 == *s0
        &&& match first_alive_leader(s0.members@) {
            Some(k) => r == Ok::<Seq<EffectView>, MembershipError>(seq![EffectView::Send {
                address: host_port(s0.members@[k].1.address@, s0.config.bind_port),
                message: state_sync_view(s0.node_id@, s0.addr@, s0.incarnation,
                    state_member_view(key, utf8_lossy(value), 0, "0"@, now)),
            }]),
            None => r == Err::<Seq<EffectView>, MembershipError>(MembershipError::NoLeader),
        }
    }
}

/// The views of an effect list inside a result.
pub open spec fn result_view(r: Result<Vec<MembershipEffect>, MembershipError>) -> Result<Seq<EffectView>, MembershipError> {
    match r {
        Ok(v) => Ok(effects_view(v@)),
        Err(e) => Err(e),
    }
}

/// The replicated store and version tables.
pub type StoreView = (Map<Seq<char>, Seq<u8>>, Map<Seq<char>, u64>);

/// Applies one metadata entry `e` of a received state member with metadata `md`:
/// a `state:KEY` entry (all leading `state:` taken off) whose `version:KEY` entry
/// parses as a version newer than ours (or we have none) replaces our value (the
/// entry's UTF-8 bytes) and version.
pub open spec fn apply_entry(st: StoreView, md: Seq<(Seq<char>, Seq<char>)>, e: (Seq<char>, Seq<char>)) -> StoreView {
    if is_prefix("state:"@, e.0) {
        let sk = strip_prefixes(e.0, "state:"@);
        match pair_lookup(md, "version:"@ + sk) {
            Some(vs) => match parse_u64_spec(vs) {
                Some(ver) => if !st.1.contains_key(sk) || st.1[sk] < ver {
                    (st.0.insert(sk, vstd::utf8::encode_utf8(e.1)), st.1.insert(sk, ver))
                } else {
                    st
                },
                None => st,
            },
            None => st,
        }
    } else {
        st
    }
}

/// Applies metadata entries in order.
pub open spec fn apply_entries(st: StoreView, md: Seq<(Seq<char>, Seq<char>)>, es: Seq<(Seq<char>, Seq<char>)>) -> StoreView
    decreases es.len(),
{
    if es.len() == 0 {
        st
    } else {
        apply_entry(apply_entries(st, md, es.drop_last()), md, es.last())
    }
}

/// Applies the metadata of each received member in order.
pub open spec fn apply_members(st: StoreView, list: Seq<MemberView>) -> StoreView
    decreases list.len(),
{
    if list.len() == 0 {
        st
    } else {
        let st1 = apply_members(st, list.drop_last());
        match list.last().metadata {
            Some(md) => apply_entries(st1, md, md),
            None => st1,
        }
    }
}

/// What a `StateSync` from `sender` does: the store takes the newer values the
/// members carry (see [`apply_members`]), and an acknowledgement goes back to `src`.
pub open spec fn state_sync_post(s0: &MembershipProtocol, s1: &MembershipProtocol, eff: Seq<EffectView>, sender: Seq<char>,
    list: Seq<MemberView>, src: Seq<char>) -> bool {
    let st = apply_members((store_map(s0), version_map(s0)), list);
    &&& wf(s1)
    &&& same_scalars(s1, s0)
    &&& s1.members@ == s0.members@
    &&& s1.suspect_timers@ == s0.suspect_timers@
    &&& s1.reintegration_timers@ == s0.reintegration_timers@
    &&& store_map(s1) == st.0
    &&& version_map(s1) == st.1
    &&& eff == seq![EffectView::Send {
        address: src,
        message: MessageView {
            message_type: MessageType::Ack,
            sender_id: Seq::empty(),
            sender_addr: Seq::empty(),
            target_id: Some(sender),
            incarnation: 0,
            members: None,
        },
    }]
}

/// An equal copy of a byte vector.
pub fn copy_bytes(v: &Vec<u8>) -> (r: Vec<u8>)
    ensures
        r@ == v@,
{
    let mut r: Vec<u8> = Vec::new();
    let mut i: usize = 0;
    while i < v.len()
        invariant
            i <= v.len(),
            r@ == v@.take(i as int),
        decreases v.len() - i,
    {
        r.push(v[i]);
        i = i + 1;
        assert(r@ =~= v@.take(i as int));
    }
    assert(v@.take(v@.len() as int) =~= v@);
    r
}

/// Position of the first pair keyed `k`.
fn pair_index(md: &Vec<(String, String)>, k: &str) -> (r: Option<usize>)
    ensures
        match r {
            Some(i) => pair_pos_from(pairs_view(md@), k@, 0) == Some(i as int) && i < md@.len(),
            None => pair_pos_from(pairs_view(md@), k@, 0) is None,
        },
{
    let ghost pv = pairs_view(md@);
    let mut i: usize = 0;
    while i < md.len()
        invariant
            i <= md.len(),
            pv == pairs_view(md@),
            pair_pos_from(pv, k@, 0) == pair_pos_from(pv, k@, i as int),
        decreases md.len() - i,
    {
        if str_eq(md[i].0.as_str(), k) {
            return Some(i);
        }
        i = i + 1;
    }
    None
}

/// Sets the first pair keyed `k` to `v`, or appends `(k, v)`.
fn set_pair(md: &mut Vec<(String, String)>, k: String, v: String)
    ensures
        pairs_view(final(md)@) == pair_set(pairs_view(old(md)@), k@, v@),
{
    match pair_index(md, k.as_str()) {
        Some(i) => {
            let ghost kv = (k@, v@);
            md.set(i, (k, v));
            assert(pairs_view(md@) =~= pairs_view(old(md)@).update(i as int, kv));
        },
        None => {
            let ghost kv = (k@, v@);
            md.push((k, v));
            assert(pairs_view(md@) =~= pairs_view(old(md)@).push(kv));
        },
    }
}

/// The value of the first pair keyed `k`.
fn lookup_pair(md: &Vec<(String, String)>, k: &str) -> (r: Option<String>)
    ensures
        match r {
            Some(v) => pair_lookup(pairs_view(md@), k@) == Some(v@),
            None => pair_lookup(pairs_view(md@), k@) is None,
        },
{
    match pair_index(md, k) {
        Some(i) => Some(md[i].1.clone()),
        None => None,
    }
}

/// The state member carrying `key` = `text` at `version`.
fn state_member(key: &str, text: &String, version: u64, version_text: String, now: u64) -> (m: Member)
    ensures
        m@ == state_member_view(key@, text@, version, version_text@, now),
{
    let mut md: Vec<(String, String)> = Vec::new();
    let ghost vt = version_text@;
    md.push((concat("state:", key), text.clone()));
    md.push((concat("version:", key), version_text));
    assert(pairs_view(md@) =~= seq![("state:"@ + key@, text@), ("version:"@ + key@, vt)]);
    Member {
        id: concat("state:", key),
        address: String::new(),
        state: NodeState::Alive,
        incarnation: version,
        last_state_change: now,
        is_leader: false,
        last_leader_check: 0,
        metadata: Some(md),
    }
}

impl MembershipProtocol {
    /// The stored value of `key`, if any.
    pub fn get_state(&self, key: &str) -> (r: Option<Vec<u8>>)
        requires
            wf(self),
        ensures
            match r {
                Some(v) => store_map(self).contains_key(key@) && v@ == store_map(self)[key@],
                None => !store_map(self).contains_key(key@),
            },
    {
        match get_key(&self.state_store, key) {
            Some(v) => Some(copy_bytes(v)),
            None => None,
        }
    }

    /// Writes `value` under `key` (see [`store_post`]).
    pub fn store_state(&mut self, key: &str, value: &Vec<u8>, now: u64) -> (r: Result<Vec<MembershipEffect>, MembershipError>)
        requires
            wf(old(self)),
            version_map(old(self)).contains_key(key@) ==> version_map(old(self))[key@] < u64::MAX,
        ensures
            store_post(old(self), final(self), result_view(r), key@, value@, now),
            vstd::utf8::valid_utf8(value@) ==> utf8_lossy(value@) == vstd::utf8::decode_utf8(value@),
    {
        let text = text_from_utf8_lossy(value);
        if !self.is_leader {
            proof {
                crate::election::lemma_first_alive_leader_from(self.members@, 0);
            }
            match self.alive_leader_pos() {
                Some(k) => {
                    let m = state_member(key, &text, 0, owned("0"), now);
                    let mut list: Vec<Member> = Vec::new();
                    list.push(m);
                    let msg = Message {
                        message_type: MessageType::StateSync,
                        sender_id: self.node_id.clone(),
                        sender_addr: self.addr.clone(),
                        target_id: None,
                        incarnation: self.incarnation,
                        members: Some(list),
                    };
                    assert(members_view(list@) =~= seq![m@]);
                    let address = host_port_string(self.members[k].1.address.as_str(), self.config.bind_port);
                    let mut effects: Vec<MembershipEffect> = Vec::new();
                    effects.push(MembershipEffect::Send { address, message: msg });
                    assert(effects_view(effects@) =~= seq![effects@[0]@]);
                    return Ok(effects);
                },
                None => {
                    return Err(MembershipError::NoLeader);
                },
            }
        }
        let version: u64 = match get_key(&self.state_versions, key) {
            Some(v) => *v + 1,
            None => 1,
        };
        let ghost store0 = self.state_store@;
        insert_key(&mut self.state_store, owned(key), copy_bytes(value));
        assert(store_map(self) =~= store_map(old(self)).insert(key@, value@));
        insert_key(&mut self.state_versions, owned(key), version);
        if let Some(i) = self.member_pos(self.node_id.as_str()) {
            let mut m = copy_member(&self.members[i].1);
            let ghost m0 = m@;
            let mut md: Vec<(String, String)> = match &m.metadata {
                Some(md) => crate::membership::copy_pairs(md),
                None => Vec::new(),
            };
            let ghost base = match m0.metadata { Some(x) => x, None => Seq::empty() };
            assert(pairs_view(md@) =~= base);
            set_pair(&mut md, concat("state:", key), text.clone());
            set_pair(&mut md, concat("version:", key), decimal_string(version));
            m.metadata = Some(md);
            let ghost m1 = m@;
            assert(m1 == MemberView {
                metadata: Some(pair_set(pair_set(base, "state:"@ + key@, text@), "version:"@ + key@, decimal(version as nat))),
                ..m0
            });
            self.set_member(i, m);
            assert(member_map(self) =~= member_map(old(self)).insert(old(self).node_id@, m1));
        } else {
            assert(member_map(self) =~= member_map(old(self)));
        }
        let vt = decimal_string(version);
        let sm = state_member(key, &text, version, vt, now);
        let mut list: Vec<Member> = Vec::new();
        list.push(sm);
        let msg = Message {
            message_type: MessageType::StateSync,
            sender_id: self.node_id.clone(),
            sender_addr: self.addr.clone(),
            target_id: None,
            incarnation: self.incarnation,
            members: Some(list),
        };
        assert(members_view(list@) =~= seq![sm@]);
        let targets = self.alive_other_members();
        let effects = send_to_all(&targets, self.config.bind_port, &msg);
        Ok(effects)
    }

    /// A `StateSync` from `sender_id` received from `src` (see [`state_sync_post`]).
    pub fn process_state_sync(&mut self, sender_id: &str, list: &Vec<Member>, src: &str) -> (effects: Vec<MembershipEffect>)
        requires
            wf(old(self)),
        ensures
            state_sync_post(old(self), final(self), effects_view(effects@), sender_id@, members_view(list@), src@),
    {
        let ghost lv = members_view(list@);
        let ghost st0 = (store_map(old(self)), version_map(old(self)));
        let mut i: usize = 0;
        assert(lv.take(0) =~= Seq::<MemberView>::empty());
        while i < list.len()
            invariant
                wf(self),
                same_scalars(self, old(self)),
                self.members@ == old(self).members@,
                self.suspect_timers@ == old(self).suspect_timers@,
                self.reintegration_timers@ == old(self).reintegration_timers@,
                lv == members_view(list@),
                st0 == (store_map(old(self)), version_map(old(self))),
                i <= list.len(),
                (store_map(self), version_map(self)) == apply_members(st0, lv.take(i as int)),
            decreases list.len() - i,
        {
            assert(lv.take(i + 1).drop_last() =~= lv.take(i as int));
            assert(lv.take(i + 1).last() == list@[i as int]@);
            if let Some(md) = &list[i].metadata {
                let ghost mdv = pairs_view(md@);
                let ghost st1 = (store_map(self), version_map(self));
                let mut j: usize = 0;
                assert(mdv.take(0) =~= Seq::<(Seq<char>, Seq<char>)>::empty());
                while j < md.len()
                    invariant
                        wf(self),
                        same_scalars(self, old(self)),
                        self.members@ == old(self).members@,
                        self.suspect_timers@ == old(self).suspect_timers@,
                        self.reintegration_timers@ == old(self).reintegration_timers@,
                        mdv == pairs_view(md@),
                        j <= md.len(),
                        (store_map(self), version_map(self)) == apply_entries(st1, mdv, mdv.take(j as int)),
                    decreases md.len() - j,
                {
                    assert(mdv.take(j + 1).drop_last() =~= mdv.take(j as int));
                    assert(mdv.take(j + 1).last() == mdv[j as int]);
                    let k = &md[j].0;
                    let v = &md[j].1;
                    if starts_with(k.as_str(), "state:") {
                        let sk = trim_start_matches(k.as_str(), "state:");
                        let vk = concat("version:", sk.as_str());
                        if let Some(vs) = lookup_pair(md, vk.as_str()) {
                            if let Some(ver) = parse_u64(vs.as_str()) {
                                let newer = match get_key(&self.state_versions, sk.as_str()) {
                                    Some(cur) => *cur < ver,
                                    None => true,
                                };
                                if newer {
                                    let bytes = utf8_bytes(v.as_str());
                                    insert_key(&mut self.state_store, sk.clone(), bytes);
                                    insert_key(&mut self.state_versions, sk, ver);
                                }
                            }
                        }
                    }
                    j = j + 1;
                }
                assert(mdv.take(mdv.len() as int) =~= mdv);
            }
            i = i + 1;
        }
        assert(lv.take(lv.len() as int) =~= lv);
        let msg = Message {
            message_type: MessageType::Ack,
            sender_id: String::new(),
            sender_addr: String::new(),
            target_id: Some(owned(sender_id)),
            incarnation: 0,
            members: None,
        };
        let mut effects: Vec<MembershipEffect> = Vec::new();
        effects.push(MembershipEffect::Send { address: owned(src), message: msg });
        assert(effects_view(effects@) =~= seq![effects@[0]@]);
        effects
    }
}

/// What handling message `msg` received from `src` does, by message type. A
/// `Ping` is answered with an `Ack` carrying our member list; a `PingReq` for a
/// known target pings it and, one ping timeout later, acknowledges to the
/// requester; the other types go to the matching operation (an `Ack` with a member
/// list also merges the list; a `Sync` or `StateSync` without one does nothing).
pub open spec fn message_post(s0: &MembershipProtocol, s1: &MembershipProtocol, eff: Seq<EffectView>, msg: MessageView,
    src: Seq<char>, now: u64, now_ms: u64) -> bool {
    let port = s0.config.bind_port;
    match msg.message_type {
        MessageType::Ping => {
            &&& *s1 == *s0
            &&& eff == seq![EffectView::Send {
                address: src,
                message: MessageView {
                    message_type: MessageType::Ack,
                    sender_id: s0.node_id@,
                    sender_addr: s0.addr@,
                    target_id: Some(msg.sender_id),
                    incarnation: s0.incarnation,
                    members: Some(all_members(s0.members@)),
                },
            }]
        },
        MessageType::PingReq => {
            &&& *s1 == *s0
            &&& match msg.target_id {
                Some(t) => if member_map(s0).contains_key(t) {
                    eff == seq![
                        EffectView::Send {
                            address: host_port(member_map(s0)[t].address, port),
                            message: probe_view(MessageType::Ping, s0.node_id@, s0.addr@, t, s0.incarnation),
                        },
                        EffectView::SendAfter {
                            delay_ms: s0.config.ping_timeout_ms,
                            address: host_port(msg.sender_addr, port),
                            message: probe_view(MessageType::Ack, s0.node_id@, s0.addr@, t, 0),
                        },
                    ]
                } else {
                    eff.len() == 0
                },
                None => eff.len() == 0,
            }
        },
        MessageType::Ack => match msg.members {
            None => ack_post(s0, s1, eff, msg.sender_id, msg.incarnation, now),
            Some(l) => exists|mid: MembershipProtocol, n: int|
                #![trigger ack_post(s0, &mid, eff.take(n), msg.sender_id, msg.incarnation, now)]
                0 <= n <= eff.len()
                && ack_post(s0, &mid, eff.take(n), msg.sender_id, msg.incarnation, now)
                && member_list_post(&mid, s1, eff.skip(n), l, now, now_ms),
        },
        MessageType::Join => join_post(s0, s1, eff, msg.sender_id, msg.sender_addr, now),
        MessageType::Leave => announced_post(s0, s1, eff, msg.sender_id, NodeState::Left, now),
        MessageType::Sync => match msg.members {
            Some(l) => member_list_post(s0, s1, eff, l, now, now_ms),
            None => *s1 == *s0 && eff.len() == 0,
        },
        MessageType::LeaderElection => election_post(s0, s1, eff, msg.sender_id, msg.sender_addr, msg.incarnation, now),
        MessageType::LeaderAnnounce => leader_announce_post(s0, s1, eff, msg.sender_id, msg.incarnation),
        MessageType::Maintenance => announced_post(s0, s1, eff, msg.sender_id, NodeState::Maintenance, now),
        MessageType::Reintegrate => reintegration_post(s0, s1, eff, msg.sender_id, msg.sender_addr, now),
        MessageType::StateSync => match msg.members {
            Some(l) => state_sync_post(s0, s1, eff, msg.sender_id, l, src),
            None => *s1 == *s0 && eff.len() == 0,
        },
    }
}

impl MembershipProtocol {
    /// Handles a message received from `src` (see [`message_post`]).
    pub fn handle_message(&mut self, msg: &Message, src: &str, now: u64, now_ms: u64) -> (effects: Vec<MembershipEffect>)
        requires
            wf(old(self)),
            gossip_deadline(now_ms) <= u64::MAX,
        ensures
            message_post(old(self), final(self), effects_view(effects@), msg@, src@, now, now_ms),
    {
        let mut effects: Vec<MembershipEffect> = Vec::new();
        match msg.message_type {
            MessageType::Ping => {
                let all = self.get_all_members();
                let ack = Message {
                    message_type: MessageType::Ack,
                    sender_id: self.node_id.clone(),
                    sender_addr: self.addr.clone(),
                    target_id: Some(msg.sender_id.clone()),
                    incarnation: self.incarnation,
                    members: Some(all),
                };
                effects.push(MembershipEffect::Send { address: owned(src), message: ack });
                assert(effects_view(effects@) =~= seq![effects@[0]@]);
            },
            MessageType::PingReq => {
                if let Some(t) = &msg.target_id {
                    if let Some(i) = self.member_pos(t.as_str()) {
                        let ping = Message {
                            message_type: MessageType::Ping,
                            sender_id: self.node_id.clone(),
                            sender_addr: self.addr.clone(),
                            target_id: Some(t.clone()),
                            incarnation: self.incarnation,
                            members: None,
                        };
                        let ack = Message {
                            message_type: MessageType::Ack,
                            sender_id: self.node_id.clone(),
                            sender_addr: self.addr.clone(),
                            target_id: Some(t.clone()),
                            incarnation: 0,
                            members: None,
                        };
                        let to_target = host_port_string(self.members[i].1.address.as_str(), self.config.bind_port);
                        let to_sender = host_port_string(msg.sender_addr.as_str(), self.config.bind_port);
                        effects.push(MembershipEffect::Send { address: to_target, message: ping });
                        effects.push(MembershipEffect::SendAfter {
                            delay_ms: self.config.ping_timeout_ms,
                            address: to_sender,
                            message: ack,
                        });
                        assert(effects_view(effects@) =~= seq![effects@[0]@, effects@[1]@]);
                    }
                }
            },
            MessageType::Ack => {
                effects = self.process_ack(msg.sender_id.as_str(), msg.incarnation, now);
                if let Some(list) = &msg.members {
                    let ghost mid = *self;
                    let ghost e1 = effects_view(effects@);
                    let mut more = self.process_member_list(list, now, now_ms);
                    let ghost m1 = effects_view(more@);
                    effects.append(&mut more);
                    assert(effects_view(effects@) =~= e1 + m1);
                    assert(effects_view(effects@).take(e1.len() as int) =~= e1);
                    assert(effects_view(effects@).skip(e1.len() as int) =~= m1);
                    assert(ack_post(old(self), &mid, effects_view(effects@).take(e1.len() as int), msg@.sender_id, msg.incarnation, now));
                    assert(member_list_post(&mid, self, effects_view(effects@).skip(e1.len() as int), members_view(list@), now, now_ms));
                    assert(msg@.members == Some(members_view(list@)));
                    let ghost eff = effects_view(effects@);
                    let ghost n = e1.len() as int;
                    assert(0 <= n <= eff.len()
                        && ack_post(old(self), &mid, eff.take(n), msg@.sender_id, msg@.incarnation, now)
                        && member_list_post(&mid, self, eff.skip(n), members_view(list@), now, now_ms));
                    assert(exists|mid2: MembershipProtocol, n2: int|
                        #![trigger ack_post(old(self), &mid2, eff.take(n2), msg@.sender_id, msg@.incarnation, now)]
                        0 <= n2 <= eff.len()
                        && ack_post(old(self), &mid2, eff.take(n2), msg@.sender_id, msg@.incarnation, now)
                        && member_list_post(&mid2, self, eff.skip(n2), members_view(list@), now, now_ms));
                }
            },
            MessageType::Join => {
                effects = self.process_join(msg.sender_id.as_str(), msg.sender_addr.as_str(), now);
            },
            MessageType::Leave => {
                effects = self.process_leave(msg.sender_id.as_str(), now);
            },
            MessageType::Sync => {
                if let Some(list) = &msg.members {
                    effects = self.process_member_list(list, now, now_ms);
                }
            },
            MessageType::LeaderElection => {
                effects = self.process_leader_election(msg.sender_id.as_str(), msg.sender_addr.as_str(), msg.incarnation, now);
            },
            MessageType::LeaderAnnounce => {
                effects = self.process_leader_announce(msg.sender_id.as_str(), msg.incarnation);
            },
            MessageType::Maintenance => {
                effects = self.process_maintenance(msg.sender_id.as_str(), now);
            },
            MessageType::Reintegrate => {
                effects = self.process_reintegration(msg.sender_id.as_str(), msg.sender_addr.as_str(), now);
            },
            MessageType::StateSync => {
                if let Some(list) = &msg.members {
                    effects = self.process_state_sync(msg.sender_id.as_str(), list, src);
                }
            },
        }
        effects
    }

    /// Handles a message as if received from the default protocol address
    /// `127.0.0.1:7946`.
    pub fn process_message(&mut self, msg: &Message, now: u64, now_ms: u64) -> (effects: Vec<MembershipEffect>)
        requires
            wf(old(self)),
            gossip_deadline(now_ms) <= u64::MAX,
        ensures
            message_post(old(self), final(self), effects_view(effects@), msg@, "127.0.0.1:7946"@, now, now_ms),
    {
        self.handle_message(msg, "127.0.0.1:7946", now, now_ms)
    }
}

} // verus!
