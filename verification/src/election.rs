//! Leader election. When no alive leader is known, the oldest alive node (lowest
//! incarnation, then lowest id) takes leadership and announces it; election and
//! announcement messages settle competing claims.
use vstd::prelude::*;
use crate::assoc::{keys_distinct, insert_key, key_pos, lemma_key_pos};
use crate::text::{seq_less, str_less, str_eq, owned, lemma_seq_less_strict, lemma_seq_less_trans};
use crate::membership::{
    Member, MemberView, Message, MessageType, MessageView, MembershipEffect, MembershipEvent,
    MembershipProtocol, NodeState, EffectView, EventView, effects_view, members_view, table_view,
    all_members, alive_others, sends_to, host_port, fresh_member, wf, copy_member, new_member,
    host_port_string, send_to_all, same_aux_tables,
};

verus! {

/// Entry `i` comes before entry `j` in seniority: lower incarnation, or equal
/// incarnation and a lexicographically smaller id.
pub open spec fn precedes(ms: Seq<(String, Member)>, i: int, j: int) -> bool {
    ||| ms[i].1.incarnation < ms[j].1.incarnation
    ||| (ms[i].1.incarnation == ms[j].1.incarnation && seq_less(ms[i].0@, ms[j].0@))
}

/// Entry `i` is the oldest alive member: alive, and before every other alive member.
pub open spec fn is_oldest(ms: Seq<(String, Member)>, i: int) -> bool {
    &&& 0 <= i < ms.len()
    &&& ms[i].1.state == NodeState::Alive
    &&& forall|j: int| 0 <= j < ms.len() && j != i && ms[j].1.state == NodeState::Alive ==> precedes(ms, i, j)
}

/// Some member is alive.
pub open spec fn any_alive(ms: Seq<(String, Member)>) -> bool {
    exists|j: int| 0 <= j < ms.len() && ms[j].1.state == NodeState::Alive
}

/// The first position at or after `i` holding an alive leader.
pub open spec fn first_alive_leader_from(ms: Seq<(String, Member)>, i: int) -> Option<int>
    decreases ms.len() - i,
{
    if i < 0 || i >= ms.len() {
        None
    } else if ms[i].1.is_leader && ms[i].1.state == NodeState::Alive {
        Some(i)
    } else {
        first_alive_leader_from(ms, i + 1)
    }
}

/// The first position (in table order) holding an alive leader.
pub open spec fn first_alive_leader(ms: Seq<(String, Member)>) -> Option<int> {
    first_alive_leader_from(ms, 0)
}

/// The first position at or after `i` holding a member flagged as leader, whatever its state.
pub open spec fn first_leader_from(ms: Seq<(String, Member)>, i: int) -> Option<int>
    decreases ms.len() - i,
{
    if i < 0 || i >= ms.len() {
        None
    } else if ms[i].1.is_leader {
        Some(i)
    } else {
        first_leader_from(ms, i + 1)
    }
}

/// The first alive leader at or after `i` is in range, is an alive leader, and
/// nothing between `i` and it is.
pub proof fn lemma_first_alive_leader_from(ms: Seq<(String, Member)>, i: int)
    requires
        0 <= i,
    ensures
        match first_alive_leader_from(ms, i) {
            Some(k) => i <= k < ms.len() && ms[k].1.is_leader && ms[k].1.state == NodeState::Alive
                && forall|j: int| i <= j < k ==> !(ms[j].1.is_leader && ms[j].1.state == NodeState::Alive),
            None => forall|j: int| i <= j < ms.len() ==> !(ms[j].1.is_leader && ms[j].1.state == NodeState::Alive),
        },
    decreases ms.len() - i,
{
    if i < ms.len() && !(ms[i].1.is_leader && ms[i].1.state == NodeState::Alive) {
        lemma_first_alive_leader_from(ms, i + 1);
    }
}

/// The first leader at or after `i` is in range and flagged, and nothing between is.
pub proof fn lemma_first_leader_from(ms: Seq<(String, Member)>, i: int)
    requires
        0 <= i,
    ensures
        match first_leader_from(ms, i) {
            Some(k) => i <= k < ms.len() && ms[k].1.is_leader
                && forall|j: int| i <= j < k ==> !ms[j].1.is_leader,
            None => forall|j: int| i <= j < ms.len() ==> !ms[j].1.is_leader,
        },
    decreases ms.len() - i,
{
    if i < ms.len() && !ms[i].1.is_leader {
        lemma_first_leader_from(ms, i + 1);
    }
}

/// Every member with its leader flag cleared.
pub open spec fn clear_leaders(tv: Seq<(Seq<char>, MemberView)>) -> Seq<(Seq<char>, MemberView)> {
    tv.map_values(|e: (Seq<char>, MemberView)| (e.0, MemberView { is_leader: false, ..e.1 }))
}

/// The fields other than the leader flag and the tables agree.
pub open spec fn same_identity(a: &MembershipProtocol, b: &MembershipProtocol) -> bool {
    &&& a.node_id == b.node_id
    &&& a.addr == b.addr
    &&& a.incarnation == b.incarnation
    &&& a.quorum_size == b.quorum_size
    &&& a.partition_detected == b.partition_detected
    &&& a.config == b.config
}

/// The announcement a newly elected node sends: the whole member list.
pub open spec fn announce_view(sender_id: Seq<char>, target: Option<Seq<char>>, inc: u64, list: Seq<MemberView>) -> MessageView {
    MessageView {
        message_type: MessageType::LeaderAnnounce,
        sender_id,
        sender_addr: Seq::empty(),
        target_id: target,
        incarnation: inc,
        members: Some(list),
    }
}

/// What a periodic leader check does: the node's own entry records the check time
/// and the node's leader flag follows that entry; when no alive leader is known and
/// this node is the oldest alive member, it becomes leader, publishes the election
/// and announces itself to every other alive member.
pub open spec fn leader_check_post(s0: &MembershipProtocol, s1: &MembershipProtocol, eff: Seq<EffectView>, now: u64) -> bool {
    let ms0 = s0.members@;
    let tv0 = table_view(ms0);
    &&& wf(s1)
    &&& same_identity(s1, s0)
    &&& same_aux_tables(s1, s0)
    &&& s1.suspect_timers@ == s0.suspect_timers@
    &&& match key_pos(ms0, s0.node_id@) {
        Some(i) => {
            let m1 = MemberView { last_leader_check: now, ..tv0[i].1 };
            if first_alive_leader(ms0) is None && is_oldest(ms0, i) {
                let m2 = MemberView { is_leader: true, ..m1 };
                &&& table_view(s1.members@) == tv0.update(i, (s0.node_id@, m2))
                &&& s1.is_leader
                &&& eff == seq![EffectView::Emit(EventView::LeaderElected(m2))] + sends_to(
                    alive_others(s1.members@, s0.node_id@), s0.config.bind_port,
                    announce_view(s0.node_id@, None, 0, all_members(s1.members@)))
            } else {
                &&& table_view(s1.members@) == tv0.update(i, (s0.node_id@, m1))
                &&& s1.is_leader == tv0[i].1.is_leader
                &&& eff.len() == 0
            }
        },
        None => {
            &&& s1.members@ == ms0
            &&& !s1.is_leader
            &&& eff.len() == 0
        },
    }
}

/// What an election message from `sender` (see [`MembershipProtocol::process_leader_election`]) does.
pub open spec fn election_post(s0: &MembershipProtocol, s1: &MembershipProtocol, eff: Seq<EffectView>, sender: Seq<char>, sender_addr: Seq<char>, sender_incarnation: u64, now: u64) -> bool {
    &&& wf(s1)
    &&& same_identity(s1, s0)
    &&& same_aux_tables(s1, s0)
    &&& s1.suspect_timers@ == s0.suspect_timers@
    &&& ({
        let ms0 = s0.members@;
        let tv0 = table_view(ms0);
        let wins = if s0.incarnation == sender_incarnation {
            match first_leader_from(ms0, 0) {
                Some(k) => seq_less(sender, ms0[k].0@),
                None => true,
            }
        } else {
            s0.incarnation < sender_incarnation
        };
        if wins {
            &&& !s1.is_leader
            &&& match key_pos(ms0, sender) {
                Some(i) => {
                    let m = MemberView { is_leader: true, incarnation: sender_incarnation, ..tv0[i].1 };
                    &&& table_view(s1.members@) == tv0.update(i, (sender, m))
                    &&& eff == seq![EffectView::Emit(EventView::LeaderElected(m))]
                },
                None => {
                    let m = table_view(s1.members@).last().1;
                    &&& table_view(s1.members@) == tv0.push((sender, m))
                    &&& fresh_member(sender, sender_addr, sender_incarnation, now, true, m)
                    &&& eff == seq![EffectView::Emit(EventView::LeaderElected(m))]
                },
            }
        } else {
            &&& s1.members@ == ms0
            &&& s1.is_leader == s0.is_leader
            &&& eff == seq![EffectView::Send {
                address: host_port(sender_addr, s0.config.bind_port),
                message: announce_view(Seq::empty(), Some(sender), s0.incarnation, all_members(ms0)),
            }]
        }
    })
}

/// What a leader announcement from `sender` (see [`MembershipProtocol::process_leader_announce`]) does.
pub open spec fn leader_announce_post(s0: &MembershipProtocol, s1: &MembershipProtocol, eff: Seq<EffectView>, sender: Seq<char>, sender_incarnation: u64) -> bool {
    &&& wf(s1)
    &&& same_identity(s1, s0)
    &&& same_aux_tables(s1, s0)
    &&& s1.suspect_timers@ == s0.suspect_timers@
    &&& ({
        let tv0 = table_view(s0.members@);
        match key_pos(s0.members@, sender) {
            Some(i) => {
                let m = MemberView { is_leader: true, incarnation: sender_incarnation, ..tv0[i].1 };
                &&& table_view(s1.members@) == clear_leaders(tv0).update(i, (sender, m))
                &&& !s1.is_leader
                &&& eff == seq![EffectView::Emit(EventView::LeaderElected(m))]
                &&& forall|j: int| 0 <= j < tv0.len() ==>
                    (#[trigger] table_view(s1.members@)[j].1.is_leader <==> j == i)
            },
            None => {
                &&& table_view(s1.members@) == clear_leaders(tv0)
                &&& s1.is_leader == s0.is_leader
                &&& eff.len() == 0
            },
        }
    })
}

/// `precedes` is asymmetric and transitive, and orders any two entries with distinct keys.
pub proof fn lemma_precedes(ms: Seq<(String, Member)>, i: int, j: int, k: int)
    requires
        keys_distinct(ms),
        0 <= i < ms.len(),
        0 <= j < ms.len(),
        0 <= k < ms.len(),
    ensures
        precedes(ms, i, j) ==> !precedes(ms, j, i),
        i != j ==> precedes(ms, i, j) || precedes(ms, j, i),
        precedes(ms, i, j) && precedes(ms, j, k) ==> precedes(ms, i, k),
{
    lemma_seq_less_strict(ms[i].0@, ms[j].0@);
    if precedes(ms, i, j) && precedes(ms, j, k) && ms[i].1.incarnation == ms[j].1.incarnation
        && ms[j].1.incarnation == ms[k].1.incarnation {
        lemma_seq_less_trans(ms[i].0@, ms[j].0@, ms[k].0@);
    }
}

/// There is at most one oldest alive member.
pub proof fn lemma_oldest_unique(ms: Seq<(String, Member)>, i: int, j: int)
    requires
        keys_distinct(ms),
        is_oldest(ms, i),
        is_oldest(ms, j),
    ensures
        i == j,
{
    if i != j {
        lemma_precedes(ms, i, j, i);
    }
}

impl MembershipProtocol {
    /// Position of the first alive leader in table order.
    pub(crate) fn alive_leader_pos(&self) -> (r: Option<usize>)
        ensures
            match r {
                Some(i) => first_alive_leader(self.members@) == Some(i as int),
                None => first_alive_leader(self.members@) is None,
            },
    {
        let mut i: usize = 0;
        while i < self.members.len()
            invariant
                i <= self.members.len(),
                first_alive_leader(self.members@) == first_alive_leader_from(self.members@, i as int),
            decreases self.members.len() - i,
        {
            if self.members[i].1.is_leader && self.members[i].1.state == NodeState::Alive {
                return Some(i);
            }
            i = i + 1;
        }
        None
    }

    /// Position of the first member flagged as leader, whatever its state.
    pub(crate) fn leader_pos(&self) -> (r: Option<usize>)
        ensures
            match r {
                Some(i) => first_leader_from(self.members@, 0) == Some(i as int),
                None => first_leader_from(self.members@, 0) is None,
            },
    {
        let mut i: usize = 0;
        while i < self.members.len()
            invariant
                i <= self.members.len(),
                first_leader_from(self.members@, 0) == first_leader_from(self.members@, i as int),
            decreases self.members.len() - i,
        {
            if self.members[i].1.is_leader {
                return Some(i);
            }
            i = i + 1;
        }
        None
    }

    /// Position of the oldest alive member, if any member is alive.
    pub(crate) fn oldest_alive(&self) -> (r: Option<usize>)
        requires
            wf(self),
        ensures
            match r {
                Some(i) => is_oldest(self.members@, i as int),
                None => !any_alive(self.members@),
            },
    {
        let ghost ms = self.members@;
        let mut best: Option<usize> = None;
        let mut i: usize = 0;
        while i < self.members.len()
            invariant
                ms == self.members@,
                keys_distinct(ms),
                i <= ms.len(),
                match best {
                    Some(b) => b < i && ms[b as int].1.state == NodeState::Alive
                        && forall|j: int| 0 <= j < i && j != b && ms[j].1.state == NodeState::Alive
                            ==> precedes(ms, b as int, j),
                    None => forall|j: int| 0 <= j < i ==> ms[j].1.state != NodeState::Alive,
                },
            decreases ms.len() - i,
        {
            if self.members[i].1.state == NodeState::Alive {
                match best {
                    None => {
                        best = Some(i);
                    },
                    Some(b) => {
                        let mi = &self.members[i];
                        let mb = &self.members[b];
                        let earlier = mi.1.incarnation < mb.1.incarnation
                            || (mi.1.incarnation == mb.1.incarnation && str_less(mi.0.as_str(), mb.0.as_str()));
                        assert(earlier == precedes(ms, i as int, b as int));
                        if earlier {
                            assert forall|j: int| 0 <= j < i + 1 && j != i && ms[j].1.state == NodeState::Alive
                                implies precedes(ms, i as int, j) by {
                                lemma_precedes(ms, i as int, b as int, j);
                            }
                            best = Some(i);
                        } else {
                            proof {
                                lemma_precedes(ms, i as int, b as int, i as int);
                            }
                        }
                    },
                }
            }
            i = i + 1;
        }
        best
    }

    /// The first alive leader in table order, if any.
    pub fn get_leader(&self) -> (r: Option<Member>)
        ensures
            match first_alive_leader(self.members@) {
                Some(k) => r is Some && r->0@ == self.members@[k].1@,
                None => r is None,
            },
    {
        proof {
            lemma_first_alive_leader_from(self.members@, 0);
        }
        match self.alive_leader_pos() {
            Some(i) => Some(copy_member(&self.members[i].1)),
            None => None,
        }
    }

    /// The address of the first alive leader in table order, if any.
    pub fn find_leader_address(&self) -> (r: Option<String>)
        ensures
            match first_alive_leader(self.members@) {
                Some(k) => r is Some && r->0@ == self.members@[k].1.address@,
                None => r is None,
            },
    {
        proof {
            lemma_first_alive_leader_from(self.members@, 0);
        }
        match self.alive_leader_pos() {
            Some(i) => Some(self.members[i].1.address.clone()),
            None => None,
        }
    }

    /// Whether this node currently believes it is the leader.
    pub fn is_leader(&self) -> (r: bool)
        ensures
            r == self.is_leader,
    {
        self.is_leader
    }

    /// The periodic leader check (see [`leader_check_post`]).
    pub fn check_leader_status(&mut self, now: u64) -> (effects: Vec<MembershipEffect>)
        requires
            wf(old(self)),
        ensures
            leader_check_post(old(self), final(self), effects_view(effects@), now),
    {
        let ghost ms0 = self.members@;
        let has_leader = self.alive_leader_pos().is_some();
        let oldest = self.oldest_alive();
        let mut effects: Vec<MembershipEffect> = Vec::new();
        let pos = self.member_pos(self.node_id.as_str());
        proof {
            lemma_key_pos(ms0, self.node_id@);
        }
        match pos {
            None => {
                self.is_leader = false;
            },
            Some(i) => {
                let mut m = copy_member(&self.members[i].1);
                m.last_leader_check = now;
                let was_leader = m.is_leader;
                let elect = match oldest {
                    Some(o) => !has_leader && o == i,
                    None => false,
                };
                proof {
                    if first_alive_leader(ms0) is None && is_oldest(ms0, i as int) {
                        let o = oldest->0;
                        lemma_oldest_unique(ms0, i as int, o as int);
                    }
                }
                assert(elect == (first_alive_leader(ms0) is None && is_oldest(ms0, i as int)));
                if elect {
                    m.is_leader = true;
                    let ev = copy_member(&m);
                    self.set_member(i, m);
                    self.is_leader = true;
                    effects.push(MembershipEffect::Emit(MembershipEvent::LeaderElected(ev)));
                    let all = self.get_all_members();
                    let msg = Message {
                        message_type: MessageType::LeaderAnnounce,
                        sender_id: self.node_id.clone(),
                        sender_addr: String::new(),
                        target_id: None,
                        incarnation: 0,
                        members: Some(all),
                    };
                    assert(msg@ == announce_view(self.node_id@, None, 0, all_members(self.members@)));
                    let targets = self.alive_other_members();
                    let mut sends = send_to_all(&targets, self.config.bind_port, &msg);
                    let ghost e0 = effects@;
                    let ghost s0 = sends@;
                    effects.append(&mut sends);
                    assert(effects_view(effects@) =~= effects_view(e0) + effects_view(s0));
                    assert(effects_view(e0) =~= seq![EffectView::Emit(EventView::LeaderElected(ev@))]);
                } else {
                    self.set_member(i, m);
                    self.is_leader = was_leader;
                }
                assert(table_view(self.members@) =~= table_view(ms0).update(i as int,
                    (self.node_id@, self.members@[i as int].1@)));
            },
        }
        effects
    }

    /// An election message from `sender_id`: the sender wins when its incarnation is
    /// higher than ours, or equal and its id comes before that of the first member
    /// we hold as leader (or we hold none). A winner is recorded as leader (and added
    /// if unknown) and the election published; otherwise we answer with our own
    /// announcement carrying the member list.
    pub fn process_leader_election(&mut self, sender_id: &str, sender_addr: &str, sender_incarnation: u64, now: u64)
        -> (effects: Vec<MembershipEffect>)
        requires
            wf(old(self)),
        ensures
            election_post(old(self), final(self), effects_view(effects@), sender_id@, sender_addr@, sender_incarnation, now),
    {
        let ghost ms0 = self.members@;
        proof {
            lemma_first_leader_from(ms0, 0);
            lemma_key_pos(ms0, sender_id@);
        }
        let wins = if self.incarnation == sender_incarnation {
            match self.leader_pos() {
                Some(k) => str_less(sender_id, self.members[k].0.as_str()),
                None => true,
            }
        } else {
            self.incarnation < sender_incarnation
        };
        let mut effects: Vec<MembershipEffect> = Vec::new();
        if wins {
            match self.member_pos(sender_id) {
                Some(i) => {
                    let mut m = copy_member(&self.members[i].1);
                    m.is_leader = true;
                    m.incarnation = sender_incarnation;
                    let ev = copy_member(&m);
                    self.set_member(i, m);
                    assert(table_view(self.members@) =~= table_view(ms0).update(i as int, (sender_id@, ev@)));
                    effects.push(MembershipEffect::Emit(MembershipEvent::LeaderElected(ev)));
                },
                None => {
                    let m = new_member(sender_id, sender_addr, sender_incarnation, now, true);
                    let ev = copy_member(&m);
                    insert_key(&mut self.members, owned(sender_id), m);
                    assert(table_view(self.members@) =~= table_view(ms0).push((sender_id@, ev@)));
                    effects.push(MembershipEffect::Emit(MembershipEvent::LeaderElected(ev)));
                },
            }
            self.is_leader = false;
        } else {
            let all = self.get_all_members();
            let msg = Message {
                message_type: MessageType::LeaderAnnounce,
                sender_id: String::new(),
                sender_addr: String::new(),
                target_id: Some(owned(sender_id)),
                incarnation: self.incarnation,
                members: Some(all),
            };
            let address = host_port_string(sender_addr, self.config.bind_port);
            effects.push(MembershipEffect::Send { address, message: msg });
        }
        assert(effects_view(effects@) =~= seq![effects@[0]@]);
        effects
    }

    /// A leader announcement from `sender_id`: every member loses its leader flag; a
    /// known sender then becomes the only leader, takes the announced incarnation, and
    /// the election is published.
    pub fn process_leader_announce(&mut self, sender_id: &str, sender_incarnation: u64) -> (effects: Vec<MembershipEffect>)
        requires
            wf(old(self)),
        ensures
            leader_announce_post(old(self), final(self), effects_view(effects@), sender_id@, sender_incarnation),
    {
        let ghost tv0 = table_view(self.members@);
        let mut i: usize = 0;
        while i < self.members.len()
            invariant
                wf(self),
                same_identity(self, old(self)),
                same_aux_tables(self, old(self)),
                self.suspect_timers@ == old(self).suspect_timers@,
                self.is_leader == old(self).is_leader,
                tv0 == table_view(old(self).members@),
                self.members@.len() == tv0.len(),
                i <= tv0.len(),
                forall|j: int| 0 <= j < tv0.len() ==> #[trigger] self.members@[j].0@ == tv0[j].0,
                forall|j: int| 0 <= j < i ==> #[trigger] table_view(self.members@)[j] == clear_leaders(tv0)[j],
                forall|j: int| i <= j < tv0.len() ==> #[trigger] table_view(self.members@)[j] == tv0[j],
            decreases tv0.len() - i,
        {
            let mut m = copy_member(&self.members[i].1);
            m.is_leader = false;
            let ghost before = self.members@;
            let ghost mv = m@;
            assert(table_view(before)[i as int] == tv0[i as int]);
            assert(mv == MemberView { is_leader: false, ..tv0[i as int].1 });
            self.set_member(i, m);
            assert(table_view(self.members@)[i as int] == (tv0[i as int].0, mv));
            assert forall|j: int| 0 <= j < tv0.len() implies #[trigger] self.members@[j].0@ == tv0[j].0 by {
                assert(self.members@[j].0@ == before[j].0@);
            }
            assert forall|j: int| 0 <= j < i + 1 implies #[trigger] table_view(self.members@)[j] == clear_leaders(tv0)[j] by {
                if j < i {
                    assert(table_view(self.members@)[j] == table_view(before)[j]);
                }
            }
            assert forall|j: int| i + 1 <= j < tv0.len() implies #[trigger] table_view(self.members@)[j] == tv0[j] by {
                assert(table_view(self.members@)[j] == table_view(before)[j]);
            }
            i = i + 1;
        }
        assert(table_view(self.members@) =~= clear_leaders(tv0));
        let mut effects: Vec<MembershipEffect> = Vec::new();
        let pos = self.member_pos(sender_id);
        proof {
            lemma_key_pos(self.members@, sender_id@);
            lemma_key_pos(old(self).members@, sender_id@);
            assert forall|j: int| 0 <= j < tv0.len() implies (#[trigger] old(self).members@[j].0@ == sender_id@
                <==> self.members@[j].0@ == sender_id@) by {
                assert(self.members@[j].0@ == tv0[j].0);
            }
        }
        if let Some(i) = pos {
            assert(old(self).members@[i as int].0@ == sender_id@);
            assert(key_pos(old(self).members@, sender_id@) == Some(i as int));
            assert(table_view(self.members@)[i as int] == clear_leaders(tv0)[i as int]);
            let mut m = copy_member(&self.members[i].1);
            m.is_leader = true;
            m.incarnation = sender_incarnation;
            let ev = copy_member(&m);
            assert(ev@ == MemberView { is_leader: true, incarnation: sender_incarnation, ..tv0[i as int].1 });
            self.set_member(i, m);
            self.is_leader = false;
            assert(table_view(self.members@) =~= clear_leaders(tv0).update(i as int, (sender_id@, ev@)));
            effects.push(MembershipEffect::Emit(MembershipEvent::LeaderElected(ev)));
            assert(effects_view(effects@) =~= seq![effects@[0]@]);
        }
        effects
    }

    /// Starts an election: the incarnation goes up by one, every other alive member
    /// is sent an election message carrying it, and a leader check follows
    /// immediately (with its effects after the sends).
    pub fn trigger_leader_election(&mut self, now: u64) -> (effects: Vec<MembershipEffect>)
        requires
            wf(old(self)),
            old(self).incarnation < u64::MAX,
        ensures
            ({
                let mid = MembershipProtocol { incarnation: (old(self).incarnation + 1) as u64, ..*old(self) };
                let sends = sends_to(alive_others(old(self).members@, old(self).node_id@), old(self).config.bind_port,
                    MessageView {
                        message_type: MessageType::LeaderElection,
                        sender_id: old(self).node_id@,
                        sender_addr: old(self).addr@,
                        target_id: None,
                        incarnation: (old(self).incarnation + 1) as u64,
                        members: None,
                    });
                &&& effects_view(effects@).take(sends.len() as int) == sends
                &&& leader_check_post(&mid, final(self), effects_view(effects@).skip(sends.len() as int), now)
            }),
    {
        self.incarnation = self.incarnation + 1;
        let msg = Message {
            message_type: MessageType::LeaderElection,
            sender_id: self.node_id.clone(),
            sender_addr: self.addr.clone(),
            target_id: None,
            incarnation: self.incarnation,
            members: None,
        };
        let targets = self.alive_other_members();
        let mut effects = send_to_all(&targets, self.config.bind_port, &msg);
        let ghost e0 = effects@;
        let mut rest = self.check_leader_status(now);
        let ghost r0 = rest@;
        effects.append(&mut rest);
        assert(effects_view(effects@) =~= effects_view(e0) + effects_view(r0));
        assert(effects_view(effects@).take(effects_view(e0).len() as int) =~= effects_view(e0));
        assert(effects_view(effects@).skip(effects_view(e0).len() as int) =~= effects_view(r0));
        effects
    }
}

} // verus!
