//! Association lists keyed by strings: the library's replacement for
//! string-keyed hash maps. Keys are kept distinct, and each list is viewed as
//! a mathematical map from the key's characters to the value.
use vstd::prelude::*;

verus! {

/// The keys of the list are pairwise distinct (as character sequences).
pub open spec fn keys_distinct<V>(s: Seq<(String, V)>) -> bool {
    forall|i: int, j: int| 0 <= i < s.len() && 0 <= j < s.len() && i != j ==> s[i].0@ != s[j].0@
}

/// The map that the list denotes; a later entry for the same key wins.
pub open spec fn as_map<V>(s: Seq<(String, V)>) -> Map<Seq<char>, V>
    decreases s.len(),
{
    if s.len() == 0 {
        Map::empty()
    } else {
        as_map(s.drop_last()).insert(s.last().0@, s.last().1)
    }
}

/// Position of the entry for key `k`, if any (the first one).
pub open spec fn key_pos<V>(s: Seq<(String, V)>, k: Seq<char>) -> Option<int> {
    if exists|i: int| 0 <= i < s.len() && s[i].0@ == k {
        Some(choose|i: int| 0 <= i < s.len() && s[i].0@ == k && forall|j: int| 0 <= j < i ==> s[j].0@ != k)
    } else {
        None
    }
}

/// The keys of the list, as character sequences, in order.
pub open spec fn key_seq<V>(s: Seq<(String, V)>) -> Seq<Seq<char>> {
    Seq::new(s.len(), |i: int| s[i].0@)
}

/// The values of the list, in order.
pub open spec fn value_seq<V>(s: Seq<(String, V)>) -> Seq<V> {
    Seq::new(s.len(), |i: int| s[i].1)
}

/// The domain of the map is exactly the set of keys present.
pub proof fn lemma_as_map_dom<V>(s: Seq<(String, V)>, k: Seq<char>)
    ensures
        as_map(s).contains_key(k) <==> exists|i: int| 0 <= i < s.len() && s[i].0@ == k,
    decreases s.len(),
{
    if s.len() > 0 {
        lemma_as_map_dom(s.drop_last(), k);
        if as_map(s.drop_last()).contains_key(k) {
            let i = choose|i: int| 0 <= i < s.drop_last().len() && s.drop_last()[i].0@ == k;
            assert(s[i].0@ == k);
        }
        if exists|i: int| 0 <= i < s.len() && s[i].0@ == k {
            let i = choose|i: int| 0 <= i < s.len() && s[i].0@ == k;
            if i < s.len() - 1 {
                assert(s.drop_last()[i].0@ == k);
            }
        }
    }
}

/// With distinct keys, the map sends each key to its entry's value.
pub proof fn lemma_as_map_index<V>(s: Seq<(String, V)>, i: int)
    requires
        keys_distinct(s),
        0 <= i < s.len(),
    ensures
        as_map(s).contains_key(s[i].0@),
        as_map(s)[s[i].0@] == s[i].1,
    decreases s.len(),
{
    if i < s.len() - 1 {
        let t = s.drop_last();
        assert(keys_distinct(t));
        assert(t[i] == s[i]);
        lemma_as_map_index(t, i);
        assert(s.last().0@ != s[i].0@);
    }
}

/// The first position of a present key holds that key, and is the only such position.
pub proof fn lemma_key_pos<V>(s: Seq<(String, V)>, k: Seq<char>)
    requires
        keys_distinct(s),
    ensures
        match key_pos(s, k) {
            Some(i) => 0 <= i < s.len() && s[i].0@ == k && (forall|j: int|
                0 <= j < s.len() && s[j].0@ == k ==> j == i),
            None => forall|j: int| 0 <= j < s.len() ==> s[j].0@ != k,
        },
        key_pos(s, k) is Some <==> as_map(s).contains_key(k),
        key_pos(s, k) is Some ==> as_map(s)[k] == s[key_pos(s, k)->0].1,
{
    lemma_as_map_dom(s, k);
    if exists|i: int| 0 <= i < s.len() && s[i].0@ == k {
        let w = choose|i: int| 0 <= i < s.len() && s[i].0@ == k;
        assert(0 <= w < s.len() && s[w].0@ == k && forall|j: int| 0 <= j < w ==> s[j].0@ != k);
        let i = key_pos(s, k)->0;
        lemma_as_map_index(s, i);
    }
}

/// Writing a new value at the position of an existing key updates the map at that key.
pub proof fn lemma_as_map_update<V>(s: Seq<(String, V)>, i: int, e: (String, V))
    requires
        keys_distinct(s),
        0 <= i < s.len(),
        e.0@ == s[i].0@,
    ensures
        keys_distinct(s.update(i, e)),
        as_map(s.update(i, e)) == as_map(s).insert(e.0@, e.1),
    decreases s.len(),
{
    let u = s.update(i, e);
    assert(keys_distinct(u)) by {
        assert forall|a: int, b: int| 0 <= a < u.len() && 0 <= b < u.len() && a != b implies u[a].0@ != u[b].0@ by {
            assert(u[a].0@ == s[a].0@);
            assert(u[b].0@ == s[b].0@);
        }
    }
    if i == s.len() - 1 {
        assert(u.drop_last() =~= s.drop_last());
        assert(as_map(u) =~= as_map(s).insert(e.0@, e.1));
    } else {
        let t = s.drop_last();
        assert(keys_distinct(t));
        lemma_as_map_update(t, i, e);
        assert(u.drop_last() =~= t.update(i, e));
        assert(s.last().0@ != e.0@);
        assert(as_map(u) =~= as_map(s).insert(e.0@, e.1));
    }
}

/// Appending an entry whose key is absent inserts it into the map.
pub proof fn lemma_as_map_push<V>(s: Seq<(String, V)>, e: (String, V))
    requires
        keys_distinct(s),
        !as_map(s).contains_key(e.0@),
    ensures
        keys_distinct(s.push(e)),
        as_map(s.push(e)) == as_map(s).insert(e.0@, e.1),
{
    lemma_as_map_dom(s, e.0@);
    let u = s.push(e);
    assert(u.drop_last() =~= s);
    assert forall|a: int, b: int| 0 <= a < u.len() && 0 <= b < u.len() && a != b implies u[a].0@ != u[b].0@ by {
        if a < s.len() && b < s.len() {
            assert(u[a] == s[a] && u[b] == s[b]);
        } else if a == s.len() {
            assert(u[b] == s[b]);
        } else {
            assert(u[a] == s[a]);
        }
    }
}

/// Removing the entry at a position removes its key from the map.
pub proof fn lemma_as_map_remove<V>(s: Seq<(String, V)>, i: int)
    requires
        keys_distinct(s),
        0 <= i < s.len(),
    ensures
        keys_distinct(s.remove(i)),
        as_map(s.remove(i)) == as_map(s).remove(s[i].0@),
    decreases s.len(),
{
    let u = s.remove(i);
    assert forall|a: int, b: int| 0 <= a < u.len() && 0 <= b < u.len() && a != b implies u[a].0@ != u[b].0@ by {
        let a2 = if a < i { a } else { a + 1 };
        let b2 = if b < i { b } else { b + 1 };
        assert(u[a] == s[a2] && u[b] == s[b2]);
    }
    if i == s.len() - 1 {
        assert(u =~= s.drop_last());
        lemma_as_map_dom(s.drop_last(), s[i].0@);
        assert forall|j: int| 0 <= j < s.drop_last().len() implies s.drop_last()[j].0@ != s[i].0@ by {
            assert(s.drop_last()[j] == s[j]);
        }
        assert(as_map(u) =~= as_map(s).remove(s[i].0@));
    } else {
        let t = s.drop_last();
        assert(keys_distinct(t));
        assert(t[i] == s[i]);
        lemma_as_map_remove(t, i);
        assert(u.drop_last() =~= t.remove(i));
        assert(u.last() == s.last());
        assert(s.last().0@ != s[i].0@);
        assert(as_map(u) =~= as_map(s).remove(s[i].0@));
    }
}

/// Position of the entry for `k`.
pub fn find_key<V>(v: &Vec<(String, V)>, k: &str) -> (r: Option<usize>)
    requires
        keys_distinct(v@),
    ensures
        match r {
            Some(i) => key_pos(v@, k@) == Some(i as int),
            None => key_pos(v@, k@) is None,
        },
        r is Some <==> as_map(v@).contains_key(k@),
{
    proof {
        lemma_key_pos(v@, k@);
    }
    let mut i: usize = 0;
    while i < v.len()
        invariant
            i <= v.len(),
            forall|j: int| 0 <= j < i ==> v@[j].0@ != k@,
            keys_distinct(v@),
            key_pos(v@, k@) is Some <==> as_map(v@).contains_key(k@),
        decreases v.len() - i,
    {
        if crate::text::str_eq(v[i].0.as_str(), k) {
            assert(v@[i as int].0@ == k@);
            return Some(i);
        }
        i = i + 1;
    }
    None
}

/// Sets the value for `k`, replacing an existing entry in place or appending a new one.
pub fn insert_key<V>(v: &mut Vec<(String, V)>, k: String, val: V)
    requires
        keys_distinct(old(v)@),
    ensures
        keys_distinct(final(v)@),
        as_map(final(v)@) == as_map(old(v)@).insert(k@, val),
        match key_pos(old(v)@, k@) {
            Some(i) => final(v)@ == old(v)@.update(i, (k, val)),
            None => final(v)@ == old(v)@.push((k, val)),
        },
{
    let pos = find_key(v, k.as_str());
    proof {
        lemma_key_pos(old(v)@, k@);
    }
    match pos {
        Some(i) => {
            proof {
                lemma_as_map_update(old(v)@, i as int, (k, val));
            }
            v.set(i, (k, val));
        },
        None => {
            proof {
                lemma_as_map_push(old(v)@, (k, val));
            }
            v.push((k, val));
        },
    }
}

/// Removes the entry for `k`, returning its value.
pub fn remove_key<V>(v: &mut Vec<(String, V)>, k: &str) -> (r: Option<V>)
    requires
        keys_distinct(old(v)@),
    ensures
        keys_distinct(final(v)@),
        as_map(final(v)@) == as_map(old(v)@).remove(k@),
        match key_pos(old(v)@, k@) {
            Some(i) => final(v)@ == old(v)@.remove(i) && r == Some(old(v)@[i].1),
            None => final(v)@ == old(v)@ && r is None,
        },
{
    let pos = find_key(v, k);
    proof {
        lemma_key_pos(old(v)@, k@);
    }
    match pos {
        Some(i) => {
            proof {
                lemma_as_map_remove(old(v)@, i as int);
            }
            let e = v.remove(i);
            Some(e.1)
        },
        None => {
            assert(as_map(v@) =~= as_map(v@).remove(k@));
            None
        },
    }
}

/// Borrow of the value for `k`.
pub fn get_key<'a, V>(v: &'a Vec<(String, V)>, k: &str) -> (r: Option<&'a V>)
    requires
        keys_distinct(v@),
    ensures
        match r {
            Some(x) => as_map(v@).contains_key(k@) && *x == as_map(v@)[k@],
            None => !as_map(v@).contains_key(k@),
        },
{
    let pos = find_key(v, k);
    proof {
        lemma_key_pos(v@, k@);
    }
    match pos {
        Some(i) => Some(&v[i].1),
        None => None,
    }
}

/// Keys (in order) whose value is at most `bound`.
pub open spec fn keys_at_most(s: Seq<(String, u64)>, bound: u64) -> Seq<Seq<char>>
    decreases s.len(),
{
    if s.len() == 0 {
        Seq::empty()
    } else {
        let rest = keys_at_most(s.drop_last(), bound);
        if s.last().1 <= bound {
            rest.push(s.last().0@)
        } else {
            rest
        }
    }
}

/// The characters of each string of a list.
pub open spec fn strings_view(v: Seq<String>) -> Seq<Seq<char>> {
    v.map_values(|x: String| x@)
}

/// Splits a deadline table at `bound`: entries whose deadline is after `bound` are
/// kept (in order); the keys of the others are returned in table order.
pub fn split_expired(v: &Vec<(String, u64)>, bound: u64) -> (r: (Vec<(String, u64)>, Vec<String>))
    requires
        keys_distinct(v@),
    ensures
        keys_distinct(r.0@),
        forall|k: Seq<char>| #[trigger] as_map(r.0@).contains_key(k) <==>
            (as_map(v@).contains_key(k) && as_map(v@)[k] > bound),
        forall|k: Seq<char>| #[trigger] as_map(r.0@).contains_key(k) ==> as_map(r.0@)[k] == as_map(v@)[k],
        strings_view(r.1@) == keys_at_most(v@, bound),
{
    let mut kept: Vec<(String, u64)> = Vec::new();
    let mut expired: Vec<String> = Vec::new();
    let mut i: usize = 0;
    while i < v.len()
        invariant
            i <= v.len(),
            keys_distinct(v@),
            keys_distinct(kept@),
            forall|a: int| #![trigger kept@[a]] 0 <= a < kept@.len() ==> exists|j: int| 0 <= j < i && #[trigger] v@[j] == kept@[a],
            forall|j: int| #![trigger v@[j]] 0 <= j < i && v@[j].1 > bound ==> exists|a: int| 0 <= a < kept@.len() && #[trigger] kept@[a] == v@[j],
            forall|a: int| 0 <= a < kept@.len() ==> #[trigger] kept@[a].1 > bound,
            strings_view(expired@) == keys_at_most(v@.subrange(0, i as int), bound),
        decreases v.len() - i,
    {
        let ghost pre = v@.subrange(0, i as int);
        let ghost e0 = expired@;
        if v[i].1 > bound {
            let ghost k0 = kept@;
            assert forall|a: int| 0 <= a < k0.len() implies k0[a].0@ != v@[i as int].0@ by {
                let j = choose|j: int| 0 <= j < i && v@[j] == k0[a];
                assert(j != i);
            }
            kept.push((v[i].0.clone(), v[i].1));
            assert(kept@[k0.len() as int] == v@[i as int]);
            assert forall|x: int, y: int| 0 <= x < kept@.len() && 0 <= y < kept@.len() && x != y implies kept@[x].0@ != kept@[y].0@ by {
                if x < k0.len() && y < k0.len() {
                    assert(kept@[x] == k0[x] && kept@[y] == k0[y]);
                } else if x == k0.len() {
                    assert(kept@[y] == k0[y]);
                } else {
                    assert(kept@[x] == k0[x]);
                }
            }
            assert forall|a: int| #![trigger kept@[a]] 0 <= a < kept@.len() implies exists|j: int| 0 <= j < i + 1 && #[trigger] v@[j] == kept@[a] by {
                if a < k0.len() {
                    assert(kept@[a] == k0[a]);
                    let j = choose|j: int| 0 <= j < i && v@[j] == k0[a];
                    assert(v@[j] == kept@[a]);
                } else {
                    assert(v@[i as int] == kept@[a]);
                }
            }
            assert forall|j: int| #![trigger v@[j]] 0 <= j < i + 1 && v@[j].1 > bound implies exists|a: int| 0 <= a < kept@.len() && #[trigger] kept@[a] == v@[j] by {
                if j < i {
                    let a = choose|a: int| 0 <= a < k0.len() && k0[a] == v@[j];
                    assert(kept@[a] == k0[a]);
                } else {
                    assert(kept@[k0.len() as int] == v@[j]);
                }
            }
        } else {
            expired.push(v[i].0.clone());
            assert(strings_view(expired@) =~= strings_view(e0).push(v@[i as int].0@));
        }
        i = i + 1;
        assert(v@.subrange(0, i as int).drop_last() =~= pre);
    }
    assert(v@.subrange(0, v@.len() as int) =~= v@);
    assert forall|k: Seq<char>| #[trigger] as_map(kept@).contains_key(k) <==>
        (as_map(v@).contains_key(k) && as_map(v@)[k] > bound) by {
        lemma_as_map_dom(kept@, k);
        lemma_as_map_dom(v@, k);
        if as_map(kept@).contains_key(k) {
            let a = choose|a: int| 0 <= a < kept@.len() && kept@[a].0@ == k;
            let j = choose|j: int| 0 <= j < v@.len() && v@[j] == kept@[a];
            lemma_as_map_index(v@, j);
        }
        if as_map(v@).contains_key(k) && as_map(v@)[k] > bound {
            let j = choose|j: int| 0 <= j < v@.len() && v@[j].0@ == k;
            lemma_as_map_index(v@, j);
            let a = choose|a: int| 0 <= a < kept@.len() && kept@[a] == v@[j];
        }
    }
    assert forall|k: Seq<char>| #[trigger] as_map(kept@).contains_key(k) implies as_map(kept@)[k] == as_map(v@)[k] by {
        lemma_as_map_dom(kept@, k);
        let a = choose|a: int| 0 <= a < kept@.len() && kept@[a].0@ == k;
        let j = choose|j: int| 0 <= j < v@.len() && v@[j] == kept@[a];
        lemma_as_map_index(v@, j);
        lemma_as_map_index(kept@, a);
    }
    (kept, expired)
}

} // verus!
