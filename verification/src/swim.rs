//! Failure detection and dissemination: suspicion and reintegration timers,
//! merging of gossiped member lists, and quorum tracking.
use vstd::prelude::*;
use crate::assoc::{as_map, keys_distinct, insert_key, remove_key, split_expired, keys_at_most, strings_view};
use crate::membership::{
    Member, MemberView, MembershipEffect, MembershipEvent, MembershipProtocol, NodeState, EffectView,
    EventView, effects_view, members_view, member_map, suspect_map, reintegration_map, with_state, wf,
    same_scalars, same_aux_tables, alive_members, copy_member, suspicion_deadline, quorum_for,
    QUORUM_PERCENT, PROTOCOL_PERIOD_MS, SUSPICION_MULTIPLIER,
};

verus! {

/// The entries of a deadline table whose deadline is after `bound`.
pub open spec fn unexpired(m: Map<Seq<char>, u64>, bound: u64) -> Map<Seq<char>, u64> {
    Map::new(|k: Seq<char>| m.contains_key(k) && m[k] > bound, |k: Seq<char>| m[k])
}

/// Marks as dead, in order, each of `ids` whose member is currently suspected; the
/// resulting table and the `MemberDead` events.
pub open spec fn mark_dead(mm: Map<Seq<char>, MemberView>, ids: Seq<Seq<char>>, now: u64)
    -> (Map<Seq<char>, MemberView>, Seq<EffectView>)
    decreases ids.len(),
{
    if ids.len() == 0 {
        (mm, Seq::empty())
    } else {
        let r = mark_dead(mm, ids.drop_last(), now);
        let k = ids.last();
        if r.0.contains_key(k) && r.0[k].state == NodeState::Suspected {
            let d = with_state(r.0[k], NodeState::Dead, now);
            (r.0.insert(k, d), r.1.push(EffectView::Emit(EventView::MemberDead(d))))
        } else {
            r
        }
    }
}

/// The event announcing that member `m` entered state `st`.
pub open spec fn change_event(st: NodeState, m: MemberView) -> EventView {
    match st {
        NodeState::Alive => EventView::MemberAlive(m),
        NodeState::Suspected => EventView::MemberSuspected(m),
        NodeState::Dead => EventView::MemberDead(m),
        NodeState::Left => EventView::MemberLeft(m),
        NodeState::Maintenance => EventView::MemberMaintenance(m),
    }
}

/// The event announcing a member first heard of in state `st`.
pub open spec fn arrival_event(st: NodeState, m: MemberView) -> EventView {
    if st == NodeState::Alive { EventView::MemberJoined(m) } else { change_event(st, m) }
}

/// Merges one gossiped member `r` into the member table `mm` and suspicion table
/// `tm`. A known member adopts a higher incarnation together with the remote state
/// (timers and events follow the state change); an unknown member is added as it is.
pub open spec fn merge_one(
    mm: Map<Seq<char>, MemberView>,
    tm: Map<Seq<char>, u64>,
    r: MemberView,
    now: u64,
    deadline: u64,
) -> (Map<Seq<char>, MemberView>, Map<Seq<char>, u64>, Seq<EffectView>) {
    let id = r.id;
    if mm.contains_key(id) {
        let l = mm[id];
        if r.incarnation > l.incarnation {
            let n = MemberView { incarnation: r.incarnation, state: r.state, last_state_change: now, ..l };
            let mm2 = mm.insert(id, n);
            if r.state == NodeState::Alive {
                (mm2, tm.remove(id), if l.state != NodeState::Alive {
                    seq![EffectView::Emit(change_event(r.state, n))]
                } else {
                    Seq::empty()
                })
            } else if r.state == NodeState::Suspected {
                if l.state == NodeState::Alive {
                    (mm2, tm.insert(id, deadline), seq![EffectView::Emit(change_event(r.state, n))])
                } else {
                    (mm2, tm, Seq::empty())
                }
            } else {
                (mm2, tm, if l.state != r.state {
                    seq![EffectView::Emit(change_event(r.state, n))]
                } else {
                    Seq::empty()
                })
            }
        } else {
            (mm, tm, Seq::empty())
        }
    } else {
        let tm2 = if r.state == NodeState::Suspected { tm.insert(id, deadline) } else { tm };
        (mm.insert(id, r), tm2, seq![EffectView::Emit(arrival_event(r.state, r))])
    }
}

/// Merges a gossiped member list, in order.
pub open spec fn merge_list(
    mm: Map<Seq<char>, MemberView>,
    tm: Map<Seq<char>, u64>,
    list: Seq<MemberView>,
    now: u64,
    deadline: u64,
) -> (Map<Seq<char>, MemberView>, Map<Seq<char>, u64>, Seq<EffectView>)
    decreases list.len(),
{
    if list.len() == 0 {
        (mm, tm, Seq::empty())
    } else {
        let r = merge_list(mm, tm, list.drop_last(), now, deadline);
        let s = merge_one(r.0, r.1, list.last(), now, deadline);
        (s.0, s.1, r.2 + s.2)
    }
}

/// The suspicion deadline for members learnt of by gossip: the protocol's fixed
/// period times its fixed multiplier after `now_ms`.
pub open spec fn gossip_deadline(now_ms: u64) -> int {
    now_ms + PROTOCOL_PERIOD_MS * SUSPICION_MULTIPLIER
}

/// What merging a gossiped member list does (see [`merge_list`]).
pub open spec fn member_list_post(s0: &MembershipProtocol, s1: &MembershipProtocol, eff: Seq<EffectView>, list: Seq<MemberView>, now: u64, now_ms: u64) -> bool {
    &&& wf(s1)
    &&& same_scalars(s1, s0)
    &&& same_aux_tables(s1, s0)
    &&& ({
        let s = merge_list(member_map(s0), suspect_map(s0), list, now,
            gossip_deadline(now_ms) as u64);
        &&& member_map(s1) == s.0
        &&& suspect_map(s1) == s.1
        &&& eff == s.2
    })
}

/// The event for member `m` entering state `st`.
pub fn change_event_of(st: NodeState, m: Member) -> (e: MembershipEvent)
    ensures
        e@ == change_event(st, m@),
{
    match st {
        NodeState::Alive => MembershipEvent::MemberAlive(m),
        NodeState::Suspected => MembershipEvent::MemberSuspected(m),
        NodeState::Dead => MembershipEvent::MemberDead(m),
        NodeState::Left => MembershipEvent::MemberLeft(m),
        NodeState::Maintenance => MembershipEvent::MemberMaintenance(m),
    }
}

impl MembershipProtocol {
    /// Ends the expired suspicion timers (deadline at or before `now_ms`): each
    /// expired member that is still suspected is declared dead, in table order.
    pub fn check_suspect_timers(&mut self, now: u64, now_ms: u64) -> (effects: Vec<MembershipEffect>)
        requires
            wf(old(self)),
        ensures
            wf(final(self)),
            same_scalars(final(self), old(self)),
            same_aux_tables(final(self), old(self)),
            suspect_map(final(self)) == unexpired(suspect_map(old(self)), now_ms),
            ({
                let r = mark_dead(member_map(old(self)), keys_at_most(old(self).suspect_timers@, now_ms), now);
                &&& member_map(final(self)) == r.0
                &&& effects_view(effects@) == r.1
            }),
    {
        let (kept, expired) = split_expired(&self.suspect_timers, now_ms);
        self.suspect_timers = kept;
        assert(suspect_map(self) =~= unexpired(suspect_map(old(self)), now_ms));
        let ghost mm0 = member_map(old(self));
        let ghost ids = strings_view(expired@);
        let mut effects: Vec<MembershipEffect> = Vec::new();
        let mut i: usize = 0;
        assert(ids.take(0) =~= Seq::<Seq<char>>::empty());
        while i < expired.len()
            invariant
                wf(self),
                same_scalars(self, old(self)),
                same_aux_tables(self, old(self)),
                suspect_map(self) == unexpired(suspect_map(old(self)), now_ms),
                mm0 == member_map(old(self)),
                ids == strings_view(expired@),
                i <= expired.len(),
                member_map(self) == mark_dead(mm0, ids.take(i as int), now).0,
                effects_view(effects@) == mark_dead(mm0, ids.take(i as int), now).1,
            decreases expired.len() - i,
        {
            let ghost pre = ids.take(i as int);
            assert(ids.take(i + 1).drop_last() =~= pre);
            assert(ids.take(i + 1).last() == expired@[i as int]@);
            let ghost e0 = effects@;
            if let Some(p) = self.member_pos(expired[i].as_str()) {
                if self.members[p].1.state == NodeState::Suspected {
                    let mut m = copy_member(&self.members[p].1);
                    m.state = NodeState::Dead;
                    m.last_state_change = now;
                    let ev = copy_member(&m);
                    self.set_member(p, m);
                    effects.push(MembershipEffect::Emit(MembershipEvent::MemberDead(ev)));
                    assert(effects_view(effects@) =~= effects_view(e0).push(effects@[e0.len() as int]@));
                }
            }
            i = i + 1;
        }
        assert(ids.take(ids.len() as int) =~= ids);
        effects
    }

    /// Ends the expired reintegration timers (deadline at or before `now_ms`).
    pub fn check_reintegration_timers(&mut self, now_ms: u64)
        requires
            wf(old(self)),
        ensures
            wf(final(self)),
            same_scalars(final(self), old(self)),
            final(self).members@ == old(self).members@,
            final(self).suspect_timers@ == old(self).suspect_timers@,
            final(self).state_store@ == old(self).state_store@,
            final(self).state_versions@ == old(self).state_versions@,
            reintegration_map(final(self)) == unexpired(reintegration_map(old(self)), now_ms),
    {
        let (kept, _expired) = split_expired(&self.reintegration_timers, now_ms);
        self.reintegration_timers = kept;
        assert(reintegration_map(self) =~= unexpired(reintegration_map(old(self)), now_ms));
    }

    /// Number of alive members.
    pub fn alive_count(&self) -> (n: usize)
        ensures
            n == alive_members(self.members@).len(),
    {
        let mut n: usize = 0;
        let mut i: usize = 0;
        while i < self.members.len()
            invariant
                i <= self.members.len(),
                n == alive_members(self.members@.subrange(0, i as int)).len(),
                n <= i,
            decreases self.members.len() - i,
        {
            let ghost pre = self.members@.subrange(0, i as int);
            if self.members[i].1.state == NodeState::Alive {
                n = n + 1;
            }
            i = i + 1;
            assert(self.members@.subrange(0, i as int).drop_last() =~= pre);
        }
        assert(self.members@.subrange(0, self.members@.len() as int) =~= self.members@);
        n
    }

    /// Recomputes the quorum size (51% of all members, rounded up) and tracks
    /// partitions: losing quorum publishes `QuorumLost` then
    /// `NetworkPartitionDetected`; regaining it publishes `QuorumRestored` then
    /// `NetworkPartitionResolved`.
    pub fn check_quorum(&mut self) -> (effects: Vec<MembershipEffect>)
        requires
            wf(old(self)),
        ensures
            wf(final(self)),
            final(self).members@ == old(self).members@,
            final(self).suspect_timers@ == old(self).suspect_timers@,
            same_aux_tables(final(self), old(self)),
            final(self).node_id == old(self).node_id,
            final(self).addr == old(self).addr,
            final(self).incarnation == old(self).incarnation,
            final(self).is_leader == old(self).is_leader,
            final(self).config == old(self).config,
            final(self).quorum_size == quorum_for(old(self).members@.len()),
            final(self).partition_detected == (alive_members(old(self).members@).len() < quorum_for(old(self).members@.len())),
            final(self).quorum_size * 100 >= 51 * old(self).members@.len(),
            final(self).quorum_size > 0 ==> (final(self).quorum_size - 1) * 100 < 51 * old(self).members@.len(),
            old(self).members@.len() > 0 ==> 2 * final(self).quorum_size > old(self).members@.len(),
            2 * alive_members(old(self).members@).len() <= old(self).members@.len() && old(self).members@.len() > 0
                ==> final(self).partition_detected,
            ({
                let quorate = alive_members(old(self).members@).len() >= quorum_for(old(self).members@.len());
                if !quorate && !old(self).partition_detected {
                    &&& final(self).partition_detected
                    &&& effects_view(effects@) == seq![EffectView::Emit(EventView::QuorumLost),
                        EffectView::Emit(EventView::NetworkPartitionDetected)]
                } else if quorate && old(self).partition_detected {
                    &&& !final(self).partition_detected
                    &&& effects_view(effects@) == seq![EffectView::Emit(EventView::QuorumRestored),
                        EffectView::Emit(EventView::NetworkPartitionResolved)]
                } else {
                    &&& final(self).partition_detected == old(self).partition_detected
                    &&& effects@.len() == 0
                }
            }),
    {
        proof {
            crate::membership::law_quorum_majority(self.members@.len());
        }
        let alive = self.alive_count();
        let total = self.members.len();
        let q128: u128 = (total as u128 * (QUORUM_PERCENT as u128) + 99) / 100;
        assert(q128 <= total) by (nonlinear_arith)
            requires q128 == (total as u128 * 51 + 99) / 100;
        let q = q128 as usize;
        self.quorum_size = q;
        let quorate = alive >= q;
        let mut effects: Vec<MembershipEffect> = Vec::new();
        if !quorate && !self.partition_detected {
            self.partition_detected = true;
            effects.push(MembershipEffect::Emit(MembershipEvent::QuorumLost));
            effects.push(MembershipEffect::Emit(MembershipEvent::NetworkPartitionDetected));
            assert(effects_view(effects@) =~= seq![EffectView::Emit(EventView::QuorumLost),
                EffectView::Emit(EventView::NetworkPartitionDetected)]);
        } else if quorate && self.partition_detected {
            self.partition_detected = false;
            effects.push(MembershipEffect::Emit(MembershipEvent::QuorumRestored));
            effects.push(MembershipEffect::Emit(MembershipEvent::NetworkPartitionResolved));
            assert(effects_view(effects@) =~= seq![EffectView::Emit(EventView::QuorumRestored),
                EffectView::Emit(EventView::NetworkPartitionResolved)]);
        }
        effects
    }

    /// Merges one gossiped member (see [`merge_one`]).
    pub(crate) fn merge_member(&mut self, r: &Member, now: u64, deadline: u64) -> (effects: Vec<MembershipEffect>)
        requires
            wf(old(self)),
        ensures
            wf(final(self)),
            same_scalars(final(self), old(self)),
            same_aux_tables(final(self), old(self)),
            ({
                let s = merge_one(member_map(old(self)), suspect_map(old(self)), r@, now, deadline);
                &&& member_map(final(self)) == s.0
                &&& suspect_map(final(self)) == s.1
                &&& effects_view(effects@) == s.2
            }),
    {
        let mut effects: Vec<MembershipEffect> = Vec::new();
        match self.member_pos(r.id.as_str()) {
            Some(i) => {
                let l = copy_member(&self.members[i].1);
                if r.incarnation > l.incarnation {
                    let old_state = l.state;
                    let mut n = l;
                    n.incarnation = r.incarnation;
                    n.state = r.state;
                    n.last_state_change = now;
                    let ev = copy_member(&n);
                    self.set_member(i, n);
                    match r.state {
                        NodeState::Alive => {
                            let _ = remove_key(&mut self.suspect_timers, r.id.as_str());
                            if old_state != NodeState::Alive {
                                effects.push(MembershipEffect::Emit(change_event_of(r.state, ev)));
                            }
                        },
                        NodeState::Suspected => {
                            if old_state == NodeState::Alive {
                                insert_key(&mut self.suspect_timers, r.id.clone(), deadline);
                                effects.push(MembershipEffect::Emit(change_event_of(r.state, ev)));
                            }
                        },
                        _ => {
                            if old_state != r.state {
                                effects.push(MembershipEffect::Emit(change_event_of(r.state, ev)));
                            }
                        },
                    }
                }
            },
            None => {
                if r.state == NodeState::Suspected {
                    insert_key(&mut self.suspect_timers, r.id.clone(), deadline);
                }
                let added = copy_member(r);
                let ev = copy_member(r);
                let ghost ms0 = self.members@;
                insert_key(&mut self.members, r.id.clone(), added);
                assert(member_map(self) =~= member_map(old(self)).insert(r.id@, r@));
                let event = if r.state == NodeState::Alive {
                    MembershipEvent::MemberJoined(ev)
                } else {
                    change_event_of(r.state, ev)
                };
                effects.push(MembershipEffect::Emit(event));
            },
        }
        assert(effects@.len() <= 1);
        assert(effects_view(effects@) =~= if effects@.len() == 0 { Seq::empty() } else { seq![effects@[0]@] });
        effects
    }

    /// Merges a gossiped member list, member by member in list order (see
    /// [`merge_list`]); members learnt to be suspected get a deadline of
    /// [`gossip_deadline`].
    pub fn process_member_list(&mut self, list: &Vec<Member>, now: u64, now_ms: u64) -> (effects: Vec<MembershipEffect>)
        requires
            wf(old(self)),
            gossip_deadline(now_ms) <= u64::MAX,
        ensures
            member_list_post(old(self), final(self), effects_view(effects@), members_view(list@), now, now_ms),
    {
        let deadline = now_ms + PROTOCOL_PERIOD_MS * (SUSPICION_MULTIPLIER as u64);
        let ghost lv = members_view(list@);
        let ghost mm0 = member_map(old(self));
        let ghost tm0 = suspect_map(old(self));
        let mut effects: Vec<MembershipEffect> = Vec::new();
        let mut i: usize = 0;
        assert(lv.take(0) =~= Seq::<MemberView>::empty());
        while i < list.len()
            invariant
                wf(self),
                same_scalars(self, old(self)),
                same_aux_tables(self, old(self)),
                lv == members_view(list@),
                mm0 == member_map(old(self)),
                tm0 == suspect_map(old(self)),
                i <= list.len(),
                ({
                    let s = merge_list(mm0, tm0, lv.take(i as int), now, deadline);
                    &&& member_map(self) == s.0
                    &&& suspect_map(self) == s.1
                    &&& effects_view(effects@) == s.2
                }),
            decreases list.len() - i,
        {
            assert(lv.take(i + 1).drop_last() =~= lv.take(i as int));
            assert(lv.take(i + 1).last() == list@[i as int]@);
            let ghost e0 = effects@;
            let mut more = self.merge_member(&list[i], now, deadline);
            let ghost m0 = more@;
            effects.append(&mut more);
            assert(effects_view(effects@) =~= effects_view(e0) + effects_view(m0));
            i = i + 1;
        }
        assert(lv.take(lv.len() as int) =~= lv);
        effects
    }

    /// Adds (or replaces) a member under its id; a suspected member also gets a
    /// suspicion timer.
    pub fn add_member(&mut self, member: Member, now_ms: u64)
        requires
            wf(old(self)),
            member.state == NodeState::Suspected ==> suspicion_deadline(old(self).config, now_ms) <= u64::MAX,
        ensures
            wf(final(self)),
            same_scalars(final(self), old(self)),
            same_aux_tables(final(self), old(self)),
            member_map(final(self)) == member_map(old(self)).insert(member.id@, member@),
            suspect_map(final(self)) == if member.state == NodeState::Suspected {
                suspect_map(old(self)).insert(member.id@, suspicion_deadline(old(self).config, now_ms) as u64)
            } else {
                suspect_map(old(self))
            },
    {
        let suspected = member.state == NodeState::Suspected;
        let id = member.id.clone();
        let ghost mv = member@;
        insert_key(&mut self.members, member.id.clone(), member);
        assert(member_map(self) =~= member_map(old(self)).insert(id@, mv));
        if suspected {
            let deadline = now_ms + self.config.protocol_period_ms * (self.config.suspicion_mult as u64);
            insert_key(&mut self.suspect_timers, id, deadline);
        }
    }

    /// Starts (or restarts) the suspicion timer of `member_id`, or clears it.
    pub fn manage_suspect_timer(&mut self, member_id: &str, is_suspected: bool, now_ms: u64)
        requires
            wf(old(self)),
            is_suspected ==> suspicion_deadline(old(self).config, now_ms) <= u64::MAX,
        ensures
            wf(final(self)),
            same_scalars(final(self), old(self)),
            same_aux_tables(final(self), old(self)),
            final(self).members@ == old(self).members@,
            suspect_map(final(self)) == if is_suspected {
                suspect_map(old(self)).insert(member_id@, suspicion_deadline(old(self).config, now_ms) as u64)
            } else {
                suspect_map(old(self)).remove(member_id@)
            },
    {
        if is_suspected {
            let deadline = now_ms + self.config.protocol_period_ms * (self.config.suspicion_mult as u64);
            insert_key(&mut self.suspect_timers, crate::text::owned(member_id), deadline);
        } else {
            let _ = remove_key(&mut self.suspect_timers, member_id);
        }
    }

    /// Moves `member` to `new_state` at time `now` and gives the event announcing it;
    /// a member already in that state is left as it is and nothing is announced.
    pub fn update_member_state(&self, member: &mut Member, new_state: NodeState, now: u64) -> (r: Option<MembershipEvent>)
        ensures
            if old(member).state == new_state {
                &&& final(member)@ == old(member)@
                &&& r is None
            } else {
                &&& final(member)@ == with_state(old(member)@, new_state, now)
                &&& r is Some
                &&& r->0@ == change_event(new_state, final(member)@)
            },
    {
        if member.state == new_state {
            return None;
        }
        member.state = new_state;
        member.last_state_change = now;
        Some(change_event_of(new_state, copy_member(member)))
    }
}

} // verus!
