//! Properties of the in-memory container runtime's volumes.
use vstd::prelude::*;
use vstd::string::*;
use crate::text::{is_prefix, seq_less, lemma_seq_less_strict, lemma_seq_less_trans};
use crate::containers::{VolumeView, backup_text_of, sort_by_name, insert_by_name, mounts_for};

verus! {

/// Deleting a volume just created undoes the creation: the volumes are as before.
pub proof fn law_create_then_delete(v0: Map<Seq<char>, VolumeView>, name: Seq<char>, v: VolumeView)
    requires
        !v0.contains_key(name),
    ensures
        v0.insert(name, v).remove(name) == v0,
{
    assert(v0.insert(name, v).remove(name) =~= v0);
}

/// Every backup can be restored: its text begins with the backup header.
pub proof fn law_backup_restorable(v: VolumeView)
    ensures
        is_prefix("MOCK_VOLUME_BACKUP\n"@, backup_text_of(v)),
{
    reveal_strlit("MOCK_VOLUME_BACKUP\n");
    reveal_strlit("MOCK_VOLUME_BACKUP\nname=");
    let t = backup_text_of(v);
    let h = "MOCK_VOLUME_BACKUP\n"@;
    let h2 = "MOCK_VOLUME_BACKUP\nname="@;
    assert(t.subrange(0, h2.len() as int) =~= h2);
    assert(t.subrange(0, h.len() as int) =~= h2.subrange(0, h.len() as int));
    assert(h2.subrange(0, h.len() as int) =~= h);
}

/// Listing volumes sorted by name keeps them all: the sorted list is as long as
/// the table and holds every volume of it.
pub proof fn law_sort_keeps_volumes(s: Seq<VolumeView>)
    ensures
        sort_by_name(s).len() == s.len(),
        sort_by_name(s).to_multiset() == s.to_multiset(),
    decreases s.len(),
{
    if s.len() > 0 {
        law_sort_keeps_volumes(s.drop_last());
        lemma_insert_keeps(sort_by_name(s.drop_last()), s.last());
        assert(s =~= s.drop_last().push(s.last()));
        vstd::seq_lib::to_multiset_build(s.drop_last(), s.last());
    }
}

/// Inserting by name adds exactly the one volume.
pub proof fn lemma_insert_keeps(s: Seq<VolumeView>, v: VolumeView)
    ensures
        insert_by_name(s, v).len() == s.len() + 1,
        insert_by_name(s, v).to_multiset() == s.to_multiset().insert(v),
    decreases s.len(),
{
    broadcast use vstd::multiset::group_multiset_axioms;
    if s.len() == 0 {
        lemma_cons_multiset(s, v);
        assert(seq![v] + s =~= seq![v]);
    } else if crate::text::seq_less(v.name, s[0].name) {
        lemma_cons_multiset(s, v);
    } else {
        lemma_insert_keeps(s.drop_first(), v);
        let t = insert_by_name(s.drop_first(), v);
        lemma_cons_multiset(t, s[0]);
        lemma_cons_multiset(s.drop_first(), s[0]);
        assert(seq![s[0]] + s.drop_first() =~= s);
    }
}

/// Putting an element in front adds it to the multiset.
pub proof fn lemma_cons_multiset(s: Seq<VolumeView>, a: VolumeView)
    ensures
        (seq![a] + s).to_multiset() == s.to_multiset().insert(a),
        (seq![a] + s).len() == s.len() + 1,
{
    broadcast use vstd::multiset::group_multiset_axioms;
    vstd::seq_lib::lemma_multiset_commutative(seq![a], s);
    vstd::seq_lib::lemma_multiset_commutative(s, seq![a]);
    assert(s + seq![a] =~= s.push(a));
    vstd::seq_lib::to_multiset_build(s, a);
    assert(s.push(a).to_multiset() =~= s.to_multiset().insert(a));
}

/// Names in non-decreasing order: no volume's name is below an earlier one's.
pub open spec fn names_sorted(s: Seq<VolumeView>) -> bool {
    forall|i: int, j: int| 0 <= i < j < s.len() ==> !seq_less(#[trigger] s[j].name, #[trigger] s[i].name)
}

/// No volume's name is below `b`.
pub open spec fn names_at_least(s: Seq<VolumeView>, b: Seq<char>) -> bool {
    forall|i: int| 0 <= i < s.len() ==> !seq_less(#[trigger] s[i].name, b)
}

/// Inserting by name keeps a lower bound that the new volume meets.
pub proof fn lemma_insert_lower(s: Seq<VolumeView>, v: VolumeView, b: Seq<char>)
    requires
        names_at_least(s, b),
        !seq_less(v.name, b),
    ensures
        names_at_least(insert_by_name(s, v), b),
    decreases s.len(),
{
    if s.len() > 0 && !seq_less(v.name, s[0].name) {
        lemma_insert_lower(s.drop_first(), v, b);
        let t = insert_by_name(s.drop_first(), v);
        assert(insert_by_name(s, v) == seq![s[0]] + t);
        assert forall|i: int| 0 <= i < insert_by_name(s, v).len() implies !seq_less(#[trigger] insert_by_name(s, v)[i].name, b) by {
            if i > 0 {
                assert(insert_by_name(s, v)[i] == t[i - 1]);
            }
        }
    } else if s.len() > 0 {
        assert forall|i: int| 0 <= i < insert_by_name(s, v).len() implies !seq_less(#[trigger] insert_by_name(s, v)[i].name, b) by {
            if i > 0 {
                assert(insert_by_name(s, v)[i] == s[i - 1]);
            }
        }
    }
}

/// Inserting by name into a list sorted by name keeps it sorted.
pub proof fn lemma_insert_sorted(s: Seq<VolumeView>, v: VolumeView)
    requires
        names_sorted(s),
    ensures
        names_sorted(insert_by_name(s, v)),
    decreases s.len(),
{
    if s.len() == 0 {
    } else if seq_less(v.name, s[0].name) {
        let r = insert_by_name(s, v);
        assert(r == seq![v] + s);
        assert forall|i: int, j: int| 0 <= i < j < r.len() implies !seq_less(#[trigger] r[j].name, #[trigger] r[i].name) by {
            if i == 0 {
                assert(r[j] == s[j - 1]);
                if seq_less(s[j - 1].name, v.name) {
                    lemma_seq_less_trans(s[j - 1].name, v.name, s[0].name);
                    lemma_seq_less_strict(s[0].name, s[0].name);
                    if j - 1 > 0 {
                        assert(!seq_less(s[j - 1].name, s[0].name));
                    }
                }
            } else {
                assert(r[i] == s[i - 1] && r[j] == s[j - 1]);
            }
        }
    } else {
        let rest = s.drop_first();
        lemma_insert_sorted(rest, v);
        assert forall|i: int| 0 <= i < rest.len() implies !seq_less(#[trigger] rest[i].name, s[0].name) by {
            assert(rest[i] == s[i + 1]);
        }
        lemma_insert_lower(rest, v, s[0].name);
        let t = insert_by_name(rest, v);
        let r = insert_by_name(s, v);
        assert(r == seq![s[0]] + t);
        assert forall|i: int, j: int| 0 <= i < j < r.len() implies !seq_less(#[trigger] r[j].name, #[trigger] r[i].name) by {
            assert(r[j] == t[j - 1]);
            if i > 0 {
                assert(r[i] == t[i - 1]);
            }
        }
    }
}

/// Volumes are listed in name order: the list sorted by name is sorted by name.
pub proof fn law_list_sorted(s: Seq<VolumeView>)
    ensures
        names_sorted(sort_by_name(s)),
    decreases s.len(),
{
    if s.len() > 0 {
        law_list_sorted(s.drop_last());
        lemma_insert_sorted(sort_by_name(s.drop_last()), s.last());
    }
}

/// Creating a volume adds it to the listing: the volumes listed afterwards are
/// those listed before with the new one put in its place by name; the listing
/// stays sorted and holds exactly one more volume, the new one.
pub proof fn law_create_lists(before: Seq<VolumeView>, after: Seq<VolumeView>, v: VolumeView)
    requires
        after == before.push(v),
    ensures
        sort_by_name(after) == insert_by_name(sort_by_name(before), v),
        names_sorted(sort_by_name(after)),
        sort_by_name(after).to_multiset() == sort_by_name(before).to_multiset().insert(v),
{
    assert(after.drop_last() =~= before);
    law_list_sorted(after);
    lemma_insert_keeps(sort_by_name(before), v);
}

/// Deleting a volume takes it off the listing: the volumes listed afterwards are
/// those listed before without the deleted one, still sorted by name.
pub proof fn law_delete_lists(before: Seq<VolumeView>, i: int)
    requires
        0 <= i < before.len(),
    ensures
        names_sorted(sort_by_name(before.remove(i))),
        sort_by_name(before.remove(i)).to_multiset() == sort_by_name(before).to_multiset().remove(before[i]),
        sort_by_name(before.remove(i)).len() + 1 == sort_by_name(before).len(),
{
    law_list_sorted(before.remove(i));
    law_sort_keeps_volumes(before.remove(i));
    law_sort_keeps_volumes(before);
    vstd::seq_lib::to_multiset_remove(before, i);
}

/// Creating a volume and then deleting it restores the listing: the table is
/// back as it was, so the same volumes are listed in the same order.
pub proof fn law_create_then_delete_lists(before: Seq<VolumeView>, v: VolumeView)
    ensures
        before.push(v).remove(before.len() as int) == before,
        sort_by_name(before.push(v).remove(before.len() as int)) == sort_by_name(before),
{
    assert(before.push(v).remove(before.len() as int) =~= before);
}

/// Mounting the requested volumes either mounts every one, in the order asked,
/// at its path with the stored volume's size and creation time, or fails with
/// the first requested volume that is not stored, when every one before it is.
pub proof fn law_mounts_in_order(vm: Map<Seq<char>, VolumeView>, req: Seq<(Seq<char>, Seq<char>)>)
    ensures
        match mounts_for(vm, req) {
            Ok(ms) => {
                &&& ms.len() == req.len()
                &&& forall|i: int| 0 <= i < req.len() ==> vm.contains_key(#[trigger] req[i].0)
                        && ms[i] == (VolumeView { name: req[i].0, path: req[i].1, size: vm[req[i].0].size,
                            created_at: vm[req[i].0].created_at })
            },
            Err(n) => exists|k: int| 0 <= k < req.len() && #[trigger] req[k].0 == n && !vm.contains_key(n)
                && forall|j: int| 0 <= j < k ==> vm.contains_key(#[trigger] req[j].0),
        },
    decreases req.len(),
{
    if req.len() > 0 {
        let front = req.drop_last();
        law_mounts_in_order(vm, front);
        let last = req.len() - 1;
        match mounts_for(vm, front) {
            Err(n) => {
                let k = choose|k: int| 0 <= k < front.len() && #[trigger] front[k].0 == n && !vm.contains_key(n)
                    && forall|j: int| 0 <= j < k ==> vm.contains_key(#[trigger] front[j].0);
                assert(req[k].0 == front[k].0);
                assert forall|j: int| 0 <= j < k implies vm.contains_key(#[trigger] req[j].0) by {
                    assert(req[j] == front[j]);
                }
            },
            Ok(ms) => {
                if vm.contains_key(req[last].0) {
                    let ms2 = mounts_for(vm, req)->Ok_0;
                    assert forall|i: int| 0 <= i < req.len() implies vm.contains_key(#[trigger] req[i].0)
                        && ms2[i] == (VolumeView { name: req[i].0, path: req[i].1, size: vm[req[i].0].size,
                            created_at: vm[req[i].0].created_at }) by {
                        if i < last {
                            assert(req[i] == front[i]);
                        }
                    }
                } else {
                    assert forall|j: int| 0 <= j < last implies vm.contains_key(#[trigger] req[j].0) by {
                        assert(req[j] == front[j]);
                    }
                }
            },
        }
    }
}

} // verus!
