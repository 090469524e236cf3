//! Properties of the membership protocol that span several operations.
use vstd::prelude::*;
use vstd::string::*;
use crate::text::{decimal, digit_char, digits_value, digit_value, all_digits, is_digit, parse_u64_spec, is_prefix, strip_prefixes};
use crate::membership::{MembershipProtocol, MemberView, NodeState, EffectView, EventView, member_map, suspect_map, store_map, version_map,
    suspect_post, ack_post};
use crate::swim::{merge_one, merge_list, change_event};
use crate::election::first_alive_leader;
use crate::protocol::{StoreView, store_post, apply_members, apply_entries, apply_entry, state_member_view, pair_lookup, pair_pos_from};

verus! {

/// The digits of a decimal rendering are digits, and their value is the number.
pub proof fn lemma_decimal_digits(n: nat)
    ensures
        decimal(n).len() > 0,
        all_digits(decimal(n)),
        digits_value(decimal(n)) == n,
        decimal(n)[0] != '+',
    decreases n,
{
    if n < 10 {
        assert(digit_value(digit_char(n)) == n);
        assert(decimal(n).drop_last() =~= Seq::<char>::empty());
        assert(digits_value(Seq::<char>::empty()) == 0);
        assert(decimal(n).last() == digit_char(n));
    } else {
        lemma_decimal_digits(n / 10);
        let s = decimal(n);
        assert(s.drop_last() =~= decimal(n / 10));
        assert(s.last() == digit_char(n % 10));
        assert(digit_value(digit_char(n % 10)) == n % 10);
        assert(n == (n / 10) * 10 + n % 10);
        assert forall|i: int| 0 <= i < s.len() implies is_digit(s[i]) by {
            if i < s.len() - 1 {
                assert(s[i] == decimal(n / 10)[i]);
            }
        }
        assert(s[0] == decimal(n / 10)[0]);
    }
}

/// Parsing the decimal rendering of a number gives the number back.
pub proof fn law_parse_decimal(v: u64)
    ensures
        parse_u64_spec(decimal(v as nat)) == Some(v),
{
    lemma_decimal_digits(v as nat);
}

/// A read gives back what a write wrote: after the leader stores `value` under
/// `key`, the store holds exactly `value` there, at one version past the key's
/// previous one (the first version being 1). A node that is not the leader and
/// knows no alive leader refuses the write and changes nothing.
pub proof fn law_store_then_read(s0: &MembershipProtocol, s1: &MembershipProtocol, r: Result<Seq<EffectView>, crate::membership::MembershipError>,
    key: Seq<char>, value: Seq<u8>, now: u64)
    requires
        store_post(s0, s1, r, key, value, now),
        version_map(s0).contains_key(key) ==> version_map(s0)[key] < u64::MAX,
    ensures
        s0.is_leader ==> {
            &&& r is Ok
            &&& store_map(s1).contains_key(key)
            &&& store_map(s1)[key] == value
            &&& version_map(s1)[key] == (if version_map(s0).contains_key(key) { version_map(s0)[key] + 1 } else { 1 })
        },
        !s0.is_leader && first_alive_leader(s0.members@) is None ==> {
            &&& r == Err::<Seq<EffectView>, crate::membership::MembershipError>(crate::membership::MembershipError::NoLeader)
            &&& *s1 == *s0
        },
{
}

/// A value the leader writes reaches a follower byte for byte: applying the state
/// member the leader sends (its text being the value decoded as UTF-8, which the
/// leader's write gives for a valid UTF-8 value) stores the value under the key, at
/// the leader's version, on a follower holding an older version of the key or none.
pub proof fn law_replicated_write(st: StoreView, key: Seq<char>, value: Seq<u8>, v: u64, now: u64)
    requires
        vstd::utf8::valid_utf8(value),
        !is_prefix("state:"@, key),
        !st.1.contains_key(key) || st.1[key] < v,
    ensures
        ({
            let m = state_member_view(key, vstd::utf8::decode_utf8(value), v, decimal(v as nat), now);
            let r = apply_members(st, seq![m]);
            &&& r.0.contains_key(key)
            &&& r.0[key] == value
            &&& r.1[key] == v
        }),
{
    reveal_strlit("state:");
    reveal_strlit("version:");
    let text = vstd::utf8::decode_utf8(value);
    let m = state_member_view(key, text, v, decimal(v as nat), now);
    let md = seq![("state:"@ + key, text), ("version:"@ + key, decimal(v as nat))];
    assert(seq![m].drop_last() =~= Seq::<MemberView>::empty());
    assert(md.drop_last() =~= seq![("state:"@ + key, text)]);
    assert(md.drop_last().drop_last() =~= Seq::<(Seq<char>, Seq<char>)>::empty());
    let sk = "state:"@ + key;
    let vk = "version:"@ + key;
    assert(is_prefix("state:"@, sk)) by {
        assert(sk.subrange(0, 6) =~= "state:"@);
    }
    assert(sk.skip(6) =~= key);
    assert(strip_prefixes(sk, "state:"@) == strip_prefixes(key, "state:"@));
    assert(strip_prefixes(key, "state:"@) == key);
    assert(md[0].0 != vk) by {
        assert(md[0].0[0] == 's');
        assert(vk[0] == 'v');
    }
    assert(md[1].0 == vk);
    assert(pair_pos_from(md, vk, 1) == Some(1int));
    assert(pair_pos_from(md, vk, 0) == Some(1int));
    assert(pair_lookup(md, vk) == Some(decimal(v as nat)));
    law_parse_decimal(v);
    vstd::utf8::decode_utf8_encode_utf8(value);
    assert(!is_prefix("state:"@, vk)) by {
        assert(vk.subrange(0, 6)[0] == 'v');
    }
    assert(parse_u64_spec(md[1].1) == Some(v));
    let st2 = (st.0.insert(key, vstd::utf8::encode_utf8(text)), st.1.insert(key, v));
    assert(apply_entry(st, md, md[0]) == st2);
    assert(apply_entries(st, md, md.drop_last().drop_last()) == st);
    assert(apply_entries(st, md, md.drop_last()) == st2);
    assert(apply_entry(st2, md, md[1]) == st2);
    assert(apply_entries(st, md, md) == st2);
    assert(m.metadata == Some(md));
    assert(apply_members(st, seq![m].drop_last()) == st);
    assert(apply_members(st, seq![m]) == st2);
}

/// Merging gossip never forgets a member and never lowers a member's incarnation.
pub proof fn law_merge_monotone(mm: Map<Seq<char>, MemberView>, tm: Map<Seq<char>, u64>, list: Seq<MemberView>,
    now: u64, deadline: u64, k: Seq<char>)
    requires
        mm.contains_key(k),
    ensures
        merge_list(mm, tm, list, now, deadline).0.contains_key(k),
        merge_list(mm, tm, list, now, deadline).0[k].incarnation >= mm[k].incarnation,
    decreases list.len(),
{
    if list.len() > 0 {
        law_merge_monotone(mm, tm, list.drop_last(), now, deadline, k);
    }
}

/// Merging one gossiped member `r` decides that member alone: a member known
/// at a lower incarnation takes `r`'s incarnation and state, one known at the same
/// or a higher incarnation is kept as it is, and an unknown one is added as
/// gossiped; every other member is left as it was.
pub proof fn law_merge_one_member(mm: Map<Seq<char>, MemberView>, tm: Map<Seq<char>, u64>, r: MemberView, now: u64,
    deadline: u64, k: Seq<char>)
    ensures
        ({
            let m = merge_one(mm, tm, r, now, deadline).0;
            if k != r.id {
                &&& m.contains_key(k) == mm.contains_key(k)
                &&& mm.contains_key(k) ==> m[k] == mm[k]
            } else if !mm.contains_key(k) {
                m.contains_key(k) && m[k] == r
            } else if r.incarnation > mm[k].incarnation {
                &&& m.contains_key(k)
                &&& m[k] == MemberView { incarnation: r.incarnation, state: r.state, last_state_change: now, ..mm[k] }
            } else {
                m.contains_key(k) && m[k] == mm[k]
            }
        }),
{
}

/// Merging a gossiped list publishes at most one event per gossiped member, and
/// only events (no message is sent).
pub proof fn law_merge_events(mm: Map<Seq<char>, MemberView>, tm: Map<Seq<char>, u64>, list: Seq<MemberView>,
    now: u64, deadline: u64)
    ensures
        merge_list(mm, tm, list, now, deadline).2.len() <= list.len(),
        forall|i: int| 0 <= i < merge_list(mm, tm, list, now, deadline).2.len()
            ==> #[trigger] merge_list(mm, tm, list, now, deadline).2[i] is Emit,
    decreases list.len(),
{
    if list.len() > 0 {
        law_merge_events(mm, tm, list.drop_last(), now, deadline);
        let r = merge_list(mm, tm, list.drop_last(), now, deadline);
        let s = merge_one(r.0, r.1, list.last(), now, deadline);
        assert(merge_list(mm, tm, list, now, deadline).2 == r.2 + s.2);
        assert forall|i: int| 0 <= i < (r.2 + s.2).len() implies #[trigger] (r.2 + s.2)[i] is Emit by {
            if i >= r.2.len() {
                assert((r.2 + s.2)[i] == s.2[i - r.2.len()]);
            }
        }
    }
}

/// After merging a gossiped list, every member it named is known, at an
/// incarnation no lower than any the list gave for it.
pub proof fn law_merge_latest_incarnation(mm: Map<Seq<char>, MemberView>, tm: Map<Seq<char>, u64>,
    list: Seq<MemberView>, now: u64, deadline: u64, i: int)
    requires
        0 <= i < list.len(),
    ensures
        merge_list(mm, tm, list, now, deadline).0.contains_key(list[i].id),
        merge_list(mm, tm, list, now, deadline).0[list[i].id].incarnation >= list[i].incarnation,
    decreases list.len(),
{
    let n = list.len() - 1;
    let r = merge_list(mm, tm, list.drop_last(), now, deadline);
    let k = list[i].id;
    if i < n {
        law_merge_latest_incarnation(mm, tm, list.drop_last(), now, deadline, i);
        assert(list.drop_last()[i] == list[i]);
        law_merge_one_member(r.0, r.1, list.last(), now, deadline, k);
    } else {
        law_merge_one_member(r.0, r.1, list.last(), now, deadline, k);
    }
}

/// What merging gossiped member `r` makes of it, judged against the table `mm`:
/// a member known at a lower incarnation takes `r`'s incarnation and state (its
/// state changing now), one known at the same or a higher incarnation stays, and
/// an unknown one is taken as gossiped.
pub open spec fn member_after(mm: Map<Seq<char>, MemberView>, r: MemberView, now: u64) -> MemberView {
    if mm.contains_key(r.id) {
        let l = mm[r.id];
        if r.incarnation > l.incarnation {
            MemberView { incarnation: r.incarnation, state: r.state, last_state_change: now, ..l }
        } else {
            l
        }
    } else {
        r
    }
}

/// The ids of a gossiped list are distinct.
pub open spec fn ids_distinct(list: Seq<MemberView>) -> bool {
    forall|i: int, j: int| 0 <= i < j < list.len() ==> #[trigger] list[i].id != #[trigger] list[j].id
}

/// The events of merging each member of `list` on its own against `mm`, in
/// order.
pub open spec fn events_each(mm: Map<Seq<char>, MemberView>, list: Seq<MemberView>, now: u64, deadline: u64)
    -> Seq<EffectView>
    decreases list.len(),
{
    if list.len() == 0 {
        Seq::empty()
    } else {
        events_each(mm, list.drop_last(), now, deadline) + merge_one(mm, Map::empty(), list.last(), now, deadline).2
    }
}

/// Merging one member depends, for its events, only on what the table holds
/// under that member's id.
pub proof fn lemma_merge_one_events(m1: Map<Seq<char>, MemberView>, t1: Map<Seq<char>, u64>,
    m2: Map<Seq<char>, MemberView>, t2: Map<Seq<char>, u64>, r: MemberView, now: u64, deadline: u64)
    requires
        m1.contains_key(r.id) == m2.contains_key(r.id),
        m1.contains_key(r.id) ==> m1[r.id] == m2[r.id],
    ensures
        merge_one(m1, t1, r, now, deadline).2 == merge_one(m2, t2, r, now, deadline).2,
        merge_one(m1, t1, r, now, deadline).0[r.id] == merge_one(m2, t2, r, now, deadline).0[r.id],
{
}

/// Merging a gossiped list whose ids are distinct decides each member on its
/// own: every listed member ends as [`member_after`] makes it of the table before
/// the merge (so its incarnation is the larger of the two, and its state the
/// gossiped one exactly when that incarnation is higher); every member not
/// listed is left as it was, and none is removed; and the events are those of
/// merging each listed member on its own, in list order.
pub proof fn law_merge_list_members(mm: Map<Seq<char>, MemberView>, tm: Map<Seq<char>, u64>, list: Seq<MemberView>,
    now: u64, deadline: u64)
    requires
        ids_distinct(list),
    ensures
        forall|i: int| 0 <= i < list.len() ==> merge_list(mm, tm, list, now, deadline).0.contains_key(#[trigger] list[i].id)
            && merge_list(mm, tm, list, now, deadline).0[list[i].id] == member_after(mm, list[i], now),
        forall|k: Seq<char>| (forall|i: int| 0 <= i < list.len() ==> #[trigger] list[i].id != k) ==> (
            #[trigger] merge_list(mm, tm, list, now, deadline).0.contains_key(k) == mm.contains_key(k)
            && (mm.contains_key(k) ==> merge_list(mm, tm, list, now, deadline).0[k] == mm[k])),
        merge_list(mm, tm, list, now, deadline).2 == events_each(mm, list, now, deadline),
    decreases list.len(),
{
    if list.len() > 0 {
        let front = list.drop_last();
        let n = list.len() - 1;
        let last = list[n];
        assert(ids_distinct(front)) by {
            assert forall|i: int, j: int| 0 <= i < j < front.len() implies #[trigger] front[i].id != #[trigger] front[j].id by {
                assert(front[i] == list[i] && front[j] == list[j]);
            }
        }
        law_merge_list_members(mm, tm, front, now, deadline);
        let r = merge_list(mm, tm, front, now, deadline);
        let s = merge_one(r.0, r.1, last, now, deadline);
        assert(merge_list(mm, tm, list, now, deadline) == (s.0, s.1, r.2 + s.2));
        assert forall|i: int| 0 <= i < front.len() implies #[trigger] front[i].id != last.id by {
            assert(front[i] == list[i]);
        }
        assert(r.0.contains_key(last.id) == mm.contains_key(last.id));
        lemma_merge_one_events(r.0, r.1, mm, Map::empty(), last, now, deadline);
        assert forall|i: int| 0 <= i < list.len() implies s.0.contains_key(#[trigger] list[i].id)
            && s.0[list[i].id] == member_after(mm, list[i], now) by {
            if i < n {
                assert(list[i] == front[i]);
                assert(list[i].id != last.id);
            }
        }
        assert forall|k: Seq<char>| (forall|i: int| 0 <= i < list.len() ==> #[trigger] list[i].id != k) implies (
            #[trigger] s.0.contains_key(k) == mm.contains_key(k) && (mm.contains_key(k) ==> s.0[k] == mm[k])) by {
            assert(list[n].id != k);
            assert forall|i: int| 0 <= i < front.len() implies #[trigger] front[i].id != k by {
                assert(front[i] == list[i]);
            }
            assert(r.0.contains_key(k) == mm.contains_key(k));
            law_merge_one_member(r.0, r.1, last, now, deadline, k);
        }
    }
}

/// The events of merging one gossiped member: a member unknown before is
/// announced as joined when alive (and by its state otherwise); a known member at
/// a higher incarnation is announced in its new state only when the state
/// changed (as suspected only when it was alive); a known member at the same or
/// a lower incarnation brings no event and no timer change.
pub proof fn law_member_events(mm: Map<Seq<char>, MemberView>, tm: Map<Seq<char>, u64>, r: MemberView, now: u64,
    deadline: u64)
    ensures
        ({
            let m = merge_one(mm, tm, r, now, deadline);
            let n = member_after(mm, r, now);
            if !mm.contains_key(r.id) {
                m.2 == seq![EffectView::Emit(if r.state == NodeState::Alive { EventView::MemberJoined(r) }
                    else { change_event(r.state, r) })]
            } else if r.incarnation <= mm[r.id].incarnation {
                m.2.len() == 0 && m.1 == tm
            } else {
                let changed = if r.state == NodeState::Suspected { mm[r.id].state == NodeState::Alive }
                    else { mm[r.id].state != r.state };
                m.2 == (if changed { seq![EffectView::Emit(change_event(r.state, n))] } else { Seq::<EffectView>::empty() })
            }
        }),
{
}

/// An acknowledgement undoes a suspicion: a member suspected and then heard from
/// is alive again and has no suspicion timer.
pub proof fn law_ack_clears_suspicion(s0: &MembershipProtocol, s1: &MembershipProtocol, s2: &MembershipProtocol,
    e1: Seq<EffectView>, e2: Seq<EffectView>, target: Seq<char>, now: u64, now_ms: u64, inc: u64, later: u64)
    requires
        member_map(s0).contains_key(target),
        member_map(s0)[target].state == NodeState::Alive,
        suspect_post(s0, s1, e1, target, now, now_ms),
        ack_post(s1, s2, e2, target, inc, later),
    ensures
        member_map(s2)[target].state == NodeState::Alive,
        !suspect_map(s2).contains_key(target),
        member_map(s2)[target].incarnation >= member_map(s0)[target].incarnation,
{
}

} // verus!
