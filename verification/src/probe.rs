//! Probing and gossip rounds: each protocol period pings one random alive member,
//! falls back to indirect probes through other members, and gossips recent member
//! changes to a few random members.
use vstd::prelude::*;
use crate::assoc::{keys_at_most};
use crate::membership::{
    Member, MemberView, Message, MessageType, MessageView, MembershipEffect, MembershipProtocol, NodeState,
    EffectView, effects_view, members_view, member_map, suspect_map, reintegration_map, wf, same_scalars,
    same_aux_tables, alive_others, host_port, host_port_string, copy_member, copy_members, suspicion_deadline,
    GOSSIP_RECENT_SECS,
};
use crate::swim::{mark_dead, unexpired};
use crate::membership::suspect_post;
use crate::text::str_eq;

verus! {

/// A random `usize` from the thread-local generator (`rand::random`); nothing is
/// known of its value.
#[verifier::external_body]
pub(crate) fn random_usize() -> usize {
    rand::random::<usize>()
}

/// `n` random numbers, for the random choices of a protocol round.
pub fn random_draws(n: usize) -> (r: Vec<usize>)
    ensures
        r@.len() == n,
{
    let mut r: Vec<usize> = Vec::new();
    let mut i: usize = 0;
    while i < n
        invariant
            i <= n,
            r@.len() == i,
        decreases n - i,
    {
        r.push(random_usize());
        i = i + 1;
    }
    r
}

/// One step of a partial Fisher-Yates shuffle: position `t` swaps with position
/// `t + draw mod (len - t)`.
pub open spec fn shuffle_step(p: Seq<usize>, t: int, draw: usize) -> Seq<usize> {
    let j = t + (draw as int) % (p.len() - t);
    p.update(t, p[j]).update(j, p[t])
}

/// The partial Fisher-Yates shuffle of `p` from position `t` up to position `k`.
pub open spec fn shuffle_from(p: Seq<usize>, draws: Seq<usize>, t: int, k: int) -> Seq<usize>
    decreases k - t,
{
    if t < 0 || t >= k || t >= p.len() {
        p
    } else {
        shuffle_from(shuffle_step(p, t, draws[t]), draws, t + 1, k)
    }
}

/// The smaller of two counts.
pub open spec fn min_count(a: int, b: int) -> int {
    if a < b { a } else { b }
}

/// The `min(k, len)` distinct indices below `len` chosen by a partial Fisher-Yates
/// shuffle of `0..len` driven by `draws`.
pub open spec fn chosen_indices(len: nat, k: nat, draws: Seq<usize>) -> Seq<usize> {
    let n = min_count(k as int, len as int);
    shuffle_from(Seq::new(len, |i: int| i as usize), draws, 0, n).take(n)
}

/// Picks `min(k, len)` distinct indices below `len`, uniformly when `draws` are
/// uniform (see [`chosen_indices`]).
pub fn select_distinct(len: usize, k: usize, draws: &Vec<usize>) -> (r: Vec<usize>)
    requires
        draws@.len() >= min_count(k as int, len as int),
    ensures
        r@ == chosen_indices(len as nat, k as nat, draws@),
        r@.len() == min_count(k as int, len as int),
        forall|a: int| 0 <= a < r@.len() ==> #[trigger] r@[a] < len,
        forall|a: int, b: int| 0 <= a < r@.len() && 0 <= b < r@.len() && a != b ==> r@[a] != r@[b],
{
    let n = if k < len { k } else { len };
    let mut p: Vec<usize> = Vec::new();
    let mut i: usize = 0;
    while i < len
        invariant
            i <= len,
            p@.len() == i,
            forall|a: int| 0 <= a < i ==> #[trigger] p@[a] == a,
        decreases len - i,
    {
        p.push(i);
        i = i + 1;
    }
    let ghost p0 = p@;
    assert(p0 =~= Seq::new(len as nat, |a: int| a as usize));
    let mut t: usize = 0;
    while t < n
        invariant
            n == min_count(k as int, len as int),
            n <= len,
            draws@.len() >= n,
            t <= n,
            p@.len() == len,
            shuffle_from(p@, draws@, t as int, n as int) == shuffle_from(p0, draws@, 0, n as int),
            forall|a: int| 0 <= a < len ==> #[trigger] p@[a] < len,
            forall|a: int, b: int| 0 <= a < len && 0 <= b < len && a != b ==> p@[a] != p@[b],
        decreases n - t,
    {
        let j = t + draws[t] % (len - t);
        let ghost before = p@;
        let a = p[t];
        let b = p[j];
        p.set(t, b);
        p.set(j, a);
        assert(p@ == shuffle_step(before, t as int, draws@[t as int]));
        assert forall|x: int, y: int| 0 <= x < len && 0 <= y < len && x != y implies p@[x] != p@[y] by {
            let ox = if x == t { j as int } else if x == j { t as int } else { x };
            let oy = if y == t { j as int } else if y == j { t as int } else { y };
            assert(p@[x] == before[ox]);
            assert(p@[y] == before[oy]);
        }
        t = t + 1;
    }
    let mut r: Vec<usize> = Vec::new();
    let mut q: usize = 0;
    while q < n
        invariant
            q <= n,
            n <= len,
            p@.len() == len,
            r@ == p@.take(q as int),
        decreases n - q,
    {
        r.push(p[q]);
        q = q + 1;
        assert(r@ =~= p@.take(q as int));
    }
    assert(p@ == shuffle_from(p@, draws@, n as int, n as int));
    r
}

/// The entries of `ms` whose state changed less than a gossip interval before `now`,
/// in table order.
pub open spec fn recent_members(ms: Seq<(String, Member)>, now: u64) -> Seq<MemberView>
    decreases ms.len(),
{
    if ms.len() == 0 {
        Seq::empty()
    } else {
        let rest = recent_members(ms.drop_last(), now);
        if now - ms.last().1.last_state_change < GOSSIP_RECENT_SECS {
            rest.push(ms.last().1@)
        } else {
            rest
        }
    }
}

/// `m` placed after the leading members whose state changed no earlier than it.
pub open spec fn insert_desc(s: Seq<MemberView>, m: MemberView) -> Seq<MemberView>
    decreases s.len(),
{
    if s.len() == 0 {
        seq![m]
    } else if s[0].last_state_change >= m.last_state_change {
        seq![s[0]] + insert_desc(s.drop_first(), m)
    } else {
        seq![m] + s
    }
}

/// Stable sort by time of last state change, most recent first.
pub open spec fn sort_desc(s: Seq<MemberView>) -> Seq<MemberView>
    decreases s.len(),
{
    if s.len() == 0 {
        s
    } else {
        insert_desc(sort_desc(s.drop_last()), s.last())
    }
}

/// The member updates a gossip round carries: the recent changes, cut down to the
/// `max` most recent when there are more.
pub open spec fn gossip_updates(ms: Seq<(String, Member)>, now: u64, max: usize) -> Seq<MemberView> {
    let r = recent_members(ms, now);
    if r.len() > max { sort_desc(r).take(max as int) } else { r }
}

/// The gossip sends: one `Sync` carrying `updates` to each target.
pub open spec fn gossip_sends(
    targets: Seq<MemberView>,
    port: u16,
    node_id: Seq<char>,
    addr: Seq<char>,
    inc: u64,
    updates: Seq<MemberView>,
) -> Seq<EffectView> {
    targets.map_values(|t: MemberView| EffectView::Send {
        address: host_port(t.address, port),
        message: MessageView {
            message_type: MessageType::Sync,
            sender_id: node_id,
            sender_addr: addr,
            target_id: Some(t.id),
            incarnation: inc,
            members: Some(updates),
        },
    })
}

/// The message a node sends to ask `target` to answer: a `Ping` or a `PingReq` naming it.
pub open spec fn probe_view(kind: MessageType, node_id: Seq<char>, addr: Seq<char>, target: Seq<char>, inc: u64) -> MessageView {
    MessageView {
        message_type: kind,
        sender_id: node_id,
        sender_addr: addr,
        target_id: Some(target),
        incarnation: inc,
        members: None,
    }
}

/// Every member has a time of last state change no later than `now`.
pub open spec fn changes_not_after(ms: Seq<(String, Member)>, now: u64) -> bool {
    forall|i: int| 0 <= i < ms.len() ==> #[trigger] ms[i].1.last_state_change <= now
}

/// Inserting adds one element; sorting keeps the length.
pub proof fn lemma_sort_desc_len(s: Seq<MemberView>)
    ensures
        sort_desc(s).len() == s.len(),
    decreases s.len(),
{
    if s.len() > 0 {
        lemma_sort_desc_len(s.drop_last());
        lemma_insert_desc_len(sort_desc(s.drop_last()), s.last());
    }
}

/// Inserting adds one element.
pub proof fn lemma_insert_desc_len(s: Seq<MemberView>, m: MemberView)
    ensures
        insert_desc(s, m).len() == s.len() + 1,
    decreases s.len(),
{
    if s.len() > 0 {
        lemma_insert_desc_len(s.drop_first(), m);
    }
}

/// `m` inserted into `s` as [`insert_desc`] does, at the first position whose member
/// changed earlier than `m`.
pub proof fn lemma_insert_desc(s: Seq<MemberView>, m: MemberView, i: int)
    requires
        0 <= i <= s.len(),
        forall|j: int| 0 <= j < i ==> #[trigger] s[j].last_state_change >= m.last_state_change,
    ensures
        insert_desc(s, m) == s.take(i) + insert_desc(s.skip(i), m),
    decreases i,
{
    if i > 0 {
        lemma_insert_desc(s.drop_first(), m, i - 1);
        assert(s.drop_first().skip(i - 1) =~= s.skip(i));
        assert(s.take(i) =~= seq![s[0]] + s.drop_first().take(i - 1));
    } else {
        assert(s.skip(0) =~= s);
    }
}

/// Inserts `m` into `v` as [`insert_desc`] does.
fn insert_by_recency(v: &mut Vec<Member>, m: Member)
    ensures
        members_view(final(v)@) == insert_desc(members_view(old(v)@), m@),
{
    let ghost s = members_view(v@);
    let mut i: usize = 0;
    while i < v.len() && v[i].last_state_change >= m.last_state_change
        invariant
            i <= v.len(),
            s == members_view(v@),
            forall|j: int| 0 <= j < i ==> #[trigger] s[j].last_state_change >= m@.last_state_change,
        decreases v.len() - i,
    {
        i = i + 1;
    }
    proof {
        lemma_insert_desc(s, m@, i as int);
        if i < s.len() {
            assert(s.skip(i as int)[0] == s[i as int]);
        }
    }
    let ghost mv = m@;
    v.insert(i, m);
    assert(members_view(v@) =~= s.take(i as int) + seq![mv] + s.skip(i as int));
    assert(insert_desc(s.skip(i as int), mv) =~= seq![mv] + s.skip(i as int));
}

/// Members (in table order) that are alive and are neither `a` nor `b`.
pub open spec fn alive_except(ms: Seq<(String, Member)>, a: Seq<char>, b: Seq<char>) -> Seq<MemberView>
    decreases ms.len(),
{
    if ms.len() == 0 {
        Seq::empty()
    } else {
        let rest = alive_except(ms.drop_last(), a, b);
        let e = ms.last();
        if e.1.state == NodeState::Alive && e.0@ != a && e.0@ != b {
            rest.push(e.1@)
        } else {
            rest
        }
    }
}

/// The members of `pool` at positions `sel`, in that order.
pub open spec fn pick_members(pool: Seq<MemberView>, sel: Seq<usize>) -> Seq<MemberView> {
    sel.map_values(|i: usize| pool[i as int])
}

/// What an indirect probe of `target` does: with no other alive member to ask, the
/// target is suspected; otherwise up to `indirect_checks` random other members are
/// each sent a `PingReq` for it, and a second probe deadline of twice the ping
/// timeout is set.
pub open spec fn indirect_post(s0: &MembershipProtocol, s1: &MembershipProtocol, eff: Seq<EffectView>, target: Seq<char>,
    now: u64, now_ms: u64, draws: Seq<usize>) -> bool {
    let helpers = alive_except(s0.members@, s0.node_id@, target);
    if helpers.len() == 0 {
        suspect_post(s0, s1, eff, target, now, now_ms)
    } else {
        let chosen = pick_members(helpers, chosen_indices(helpers.len(), s0.config.indirect_checks as nat, draws));
        &&& s1 == s0
        &&& eff == sends_to_each(chosen, s0.config.bind_port, probe_view(MessageType::PingReq, s0.node_id@, s0.addr@, target, s0.incarnation))
            .push(EffectView::ProbeTimeout { delay_ms: (2 * s0.config.ping_timeout_ms) as u64, target_id: target, indirect: true })
    }
}

/// One `Send` of `msg` to each of `targets`.
pub open spec fn sends_to_each(targets: Seq<MemberView>, port: u16, msg: MessageView) -> Seq<EffectView> {
    targets.map_values(|m: MemberView| EffectView::Send { address: host_port(m.address, port), message: msg })
}

impl MembershipProtocol {
    /// Alive members other than this node and `other`, in table order.
    pub fn alive_members_except(&self, other: &str) -> (r: Vec<Member>)
        ensures
            members_view(r@) == alive_except(self.members@, self.node_id@, other@),
    {
        let mut r: Vec<Member> = Vec::new();
        let mut i: usize = 0;
        while i < self.members.len()
            invariant
                i <= self.members.len(),
                members_view(r@) == alive_except(self.members@.subrange(0, i as int), self.node_id@, other@),
            decreases self.members.len() - i,
        {
            let ghost pre = self.members@.subrange(0, i as int);
            let ghost r0 = r@;
            if self.members[i].1.state == NodeState::Alive && !str_eq(self.members[i].0.as_str(), self.node_id.as_str())
                && !str_eq(self.members[i].0.as_str(), other) {
                r.push(copy_member(&self.members[i].1));
                assert(members_view(r@) =~= members_view(r0).push(self.members@[i as int].1@));
            }
            i = i + 1;
            assert(self.members@.subrange(0, i as int).drop_last() =~= pre);
        }
        assert(self.members@.subrange(0, self.members@.len() as int) =~= self.members@);
        r
    }

    /// The recent member changes to gossip (see [`gossip_updates`]).
    pub fn member_updates(&self, now: u64) -> (r: Vec<Member>)
        requires
            changes_not_after(self.members@, now),
        ensures
            members_view(r@) == gossip_updates(self.members@, now, self.config.max_gossip_updates),
    {
        let mut recent: Vec<Member> = Vec::new();
        let mut i: usize = 0;
        while i < self.members.len()
            invariant
                i <= self.members.len(),
                changes_not_after(self.members@, now),
                members_view(recent@) == recent_members(self.members@.subrange(0, i as int), now),
            decreases self.members.len() - i,
        {
            let ghost pre = self.members@.subrange(0, i as int);
            let ghost r0 = recent@;
            assert(self.members@[i as int].1.last_state_change <= now);
            if now - self.members[i].1.last_state_change < GOSSIP_RECENT_SECS {
                recent.push(copy_member(&self.members[i].1));
                assert(members_view(recent@) =~= members_view(r0).push(self.members@[i as int].1@));
            }
            i = i + 1;
            assert(self.members@.subrange(0, i as int).drop_last() =~= pre);
        }
        assert(self.members@.subrange(0, self.members@.len() as int) =~= self.members@);
        let max = self.config.max_gossip_updates;
        if recent.len() <= max {
            return recent;
        }
        let ghost rv = members_view(recent@);
        let mut sorted: Vec<Member> = Vec::new();
        let mut j: usize = 0;
        while j < recent.len()
            invariant
                j <= recent.len(),
                rv == members_view(recent@),
                members_view(sorted@) == sort_desc(rv.take(j as int)),
                sorted@.len() == j,
            decreases recent.len() - j,
        {
            assert(rv.take(j + 1).drop_last() =~= rv.take(j as int));
            insert_by_recency(&mut sorted, copy_member(&recent[j]));
            j = j + 1;
            proof {
                lemma_sort_desc_len(rv.take(j as int));
            }
            assert(members_view(sorted@).len() == sort_desc(rv.take(j as int)).len());
        }
        assert(rv.take(rv.len() as int) =~= rv);
        let mut r: Vec<Member> = Vec::new();
        let mut q: usize = 0;
        while q < max
            invariant
                q <= max,
                max < sorted@.len(),
                members_view(r@) == members_view(sorted@).take(q as int),
            decreases max - q,
        {
            let ghost r0 = r@;
            r.push(copy_member(&sorted[q]));
            assert(members_view(r@) =~= members_view(r0).push(sorted@[q as int]@));
            assert(members_view(sorted@).take(q + 1) =~= members_view(sorted@).take(q as int).push(sorted@[q as int]@));
            q = q + 1;
        }
        r
    }

    /// One protocol period: expired suspicion and reintegration timers are handled,
    /// then one alive member other than this node, the one at `pick` modulo their
    /// number, is pinged and a probe deadline of one ping timeout is set.
    pub fn protocol_tick(&mut self, now: u64, now_ms: u64, pick: usize) -> (effects: Vec<MembershipEffect>)
        requires
            wf(old(self)),
        ensures
            wf(final(self)),
            same_scalars(final(self), old(self)),
            final(self).state_store@ == old(self).state_store@,
            final(self).state_versions@ == old(self).state_versions@,
            suspect_map(final(self)) == unexpired(suspect_map(old(self)), now_ms),
            reintegration_map(final(self)) == unexpired(reintegration_map(old(self)), now_ms),
            ({
                let r = mark_dead(member_map(old(self)), keys_at_most(old(self).suspect_timers@, now_ms), now);
                let others = alive_others(final(self).members@, old(self).node_id@);
                &&& member_map(final(self)) == r.0
                &&& effects_view(effects@) == r.1 + if others.len() == 0 {
                    Seq::<EffectView>::empty()
                } else {
                    let t = others[pick as int % others.len() as int];
                    seq![
                        EffectView::Send {
                            address: host_port(t.address, old(self).config.bind_port),
                            message: probe_view(MessageType::Ping, old(self).node_id@, old(self).addr@, t.id, old(self).incarnation),
                        },
                        EffectView::ProbeTimeout { delay_ms: old(self).config.ping_timeout_ms, target_id: t.id, indirect: false },
                    ]
                }
            }),
    {
        let mut effects = self.check_suspect_timers(now, now_ms);
        self.check_reintegration_timers(now_ms);
        let others = self.alive_other_members();
        if others.len() == 0 {
            assert(effects_view(effects@) =~= effects_view(effects@) + Seq::<EffectView>::empty());
            return effects;
        }
        let idx = pick % others.len();
        let target = copy_member(&others[idx]);
        assert(target@ == members_view(others@)[idx as int]);
        let msg = Message {
            message_type: MessageType::Ping,
            sender_id: self.node_id.clone(),
            sender_addr: self.addr.clone(),
            target_id: Some(target.id.clone()),
            incarnation: self.incarnation,
            members: None,
        };
        let ghost e0 = effects@;
        let address = host_port_string(target.address.as_str(), self.config.bind_port);
        effects.push(MembershipEffect::Send { address, message: msg });
        effects.push(MembershipEffect::ProbeTimeout { delay_ms: self.config.ping_timeout_ms, target_id: target.id, indirect: false });
        assert(effects_view(effects@) =~= effects_view(e0) + seq![effects@[e0.len() as int]@, effects@[e0.len() as int + 1]@]);
        effects
    }

    /// Indirect probe of `target_id` (see [`indirect_post`]).
    pub fn indirect_ping(&mut self, target_id: &str, now: u64, now_ms: u64, draws: &Vec<usize>) -> (effects: Vec<MembershipEffect>)
        requires
            wf(old(self)),
            suspicion_deadline(old(self).config, now_ms) <= u64::MAX,
            2 * old(self).config.ping_timeout_ms <= u64::MAX,
            draws@.len() >= old(self).config.indirect_checks,
        ensures
            indirect_post(old(self), final(self), effects_view(effects@), target_id@, now, now_ms, draws@),
    {
        let helpers = self.alive_members_except(target_id);
        if helpers.len() == 0 {
            return self.suspect_member(target_id, now, now_ms);
        }
        let sel = select_distinct(helpers.len(), self.config.indirect_checks, draws);
        let msg = Message {
            message_type: MessageType::PingReq,
            sender_id: self.node_id.clone(),
            sender_addr: self.addr.clone(),
            target_id: Some(crate::text::owned(target_id)),
            incarnation: self.incarnation,
            members: None,
        };
        let ghost hv = members_view(helpers@);
        let ghost chosen = pick_members(hv, sel@);
        let mut effects: Vec<MembershipEffect> = Vec::new();
        let mut q: usize = 0;
        while q < sel.len()
            invariant
                q <= sel.len(),
                hv == members_view(helpers@),
                chosen == pick_members(hv, sel@),
                forall|a: int| 0 <= a < sel@.len() ==> #[trigger] sel@[a] < helpers@.len(),
                effects_view(effects@) == sends_to_each(chosen.take(q as int), self.config.bind_port, msg@),
            decreases sel.len() - q,
        {
            let ghost e0 = effects@;
            let h = sel[q];
            let address = host_port_string(helpers[h].address.as_str(), self.config.bind_port);
            effects.push(MembershipEffect::Send { address, message: crate::membership::copy_message(&msg) });
            assert(effects_view(effects@) =~= effects_view(e0).push(effects@[e0.len() as int]@));
            assert(chosen.take(q + 1) =~= chosen.take(q as int).push(chosen[q as int]));
            q = q + 1;
            assert(effects_view(effects@) =~= sends_to_each(chosen.take(q as int), self.config.bind_port, msg@));
        }
        assert(chosen.take(sel@.len() as int) =~= chosen);
        let ghost e1 = effects@;
        effects.push(MembershipEffect::ProbeTimeout {
            delay_ms: 2 * self.config.ping_timeout_ms,
            target_id: crate::text::owned(target_id),
            indirect: true,
        });
        assert(effects_view(effects@) =~= effects_view(e1).push(effects@[e1.len() as int]@));
        effects
    }

    /// The direct probe of `target_id` timed out: a target still alive is probed
    /// indirectly; otherwise nothing happens.
    pub fn ping_timed_out(&mut self, target_id: &str, now: u64, now_ms: u64, draws: &Vec<usize>) -> (effects: Vec<MembershipEffect>)
        requires
            wf(old(self)),
            suspicion_deadline(old(self).config, now_ms) <= u64::MAX,
            2 * old(self).config.ping_timeout_ms <= u64::MAX,
            draws@.len() >= old(self).config.indirect_checks,
        ensures
            if member_map(old(self)).contains_key(target_id@) && member_map(old(self))[target_id@].state == NodeState::Alive {
                indirect_post(old(self), final(self), effects_view(effects@), target_id@, now, now_ms, draws@)
            } else {
                &&& *final(self) == *old(self)
                &&& effects@.len() == 0
            },
    {
        match self.member_pos(target_id) {
            Some(i) => {
                if self.members[i].1.state == NodeState::Alive {
                    return self.indirect_ping(target_id, now, now_ms, draws);
                }
            },
            None => {},
        }
        Vec::new()
    }

    /// The indirect probe of `target_id` timed out: a target still alive is suspected.
    pub fn indirect_ping_timed_out(&mut self, target_id: &str, now: u64, now_ms: u64) -> (effects: Vec<MembershipEffect>)
        requires
            wf(old(self)),
            suspicion_deadline(old(self).config, now_ms) <= u64::MAX,
        ensures
            suspect_post(old(self), final(self), effects_view(effects@), target_id@, now, now_ms),
    {
        self.suspect_member(target_id, now, now_ms)
    }

    /// One gossip round: when some other member is alive and some member changed
    /// recently, up to `gossip_factor` random other alive members are each sent a
    /// `Sync` with the recent changes (see [`gossip_updates`]).
    pub fn gossip_dissemination(&self, now: u64, draws: &Vec<usize>) -> (effects: Vec<MembershipEffect>)
        requires
            changes_not_after(self.members@, now),
            draws@.len() >= self.config.gossip_factor,
        ensures
            ({
                let others = alive_others(self.members@, self.node_id@);
                let ups = gossip_updates(self.members@, now, self.config.max_gossip_updates);
                if others.len() == 0 || ups.len() == 0 {
                    effects@.len() == 0
                } else {
                    let targets = pick_members(others, chosen_indices(others.len(), self.config.gossip_factor as nat, draws@));
                    effects_view(effects@) == gossip_sends(targets, self.config.bind_port, self.node_id@, self.addr@,
                        self.incarnation, ups)
                }
            }),
    {
        let others = self.alive_other_members();
        let mut effects: Vec<MembershipEffect> = Vec::new();
        if others.len() == 0 {
            return effects;
        }
        let sel = select_distinct(others.len(), self.config.gossip_factor, draws);
        let updates = self.member_updates(now);
        if updates.len() == 0 {
            return effects;
        }
        let ghost ov = members_view(others@);
        let ghost targets = pick_members(ov, sel@);
        let ghost ups = members_view(updates@);
        let mut q: usize = 0;
        while q < sel.len()
            invariant
                q <= sel.len(),
                ov == members_view(others@),
                targets == pick_members(ov, sel@),
                ups == members_view(updates@),
                forall|a: int| 0 <= a < sel@.len() ==> #[trigger] sel@[a] < others@.len(),
                effects_view(effects@) == gossip_sends(targets.take(q as int), self.config.bind_port, self.node_id@,
                    self.addr@, self.incarnation, ups),
            decreases sel.len() - q,
        {
            let ghost e0 = effects@;
            let t = &others[sel[q]];
            let msg = Message {
                message_type: MessageType::Sync,
                sender_id: self.node_id.clone(),
                sender_addr: self.addr.clone(),
                target_id: Some(t.id.clone()),
                incarnation: self.incarnation,
                members: Some(copy_members(&updates)),
            };
            let address = host_port_string(t.address.as_str(), self.config.bind_port);
            effects.push(MembershipEffect::Send { address, message: msg });
            assert(effects_view(effects@) =~= effects_view(e0).push(effects@[e0.len() as int]@));
            assert(targets.take(q + 1) =~= targets.take(q as int).push(targets[q as int]));
            q = q + 1;
            assert(effects_view(effects@) =~= gossip_sends(targets.take(q as int), self.config.bind_port, self.node_id@,
                self.addr@, self.incarnation, ups));
        }
        assert(targets.take(sel@.len() as int) =~= targets);
        effects
    }
}

} // verus!
