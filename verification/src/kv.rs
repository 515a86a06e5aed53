//! Association lists read as maps. Each of the store's maps is a vector of
//! key/value pairs with pairwise-distinct keys; `kv_map` is the map it
//! denotes, over the views of the keys and values. The lemmas here relate
//! the vector operations the store performs to `insert` and `remove` on
//! that map.

use vstd::prelude::*;

verus! {

/// The map denoted by the association list `s`, keyed and valued by views.
/// A later entry wins; with `kv_distinct` there is nothing to win over.
pub open spec fn kv_map<K: View, V: View>(s: Seq<(K, V)>) -> Map<K::V, V::V>
    decreases s.len(),
{
    if s.len() == 0 {
        Map::empty()
    } else {
        kv_map(s.drop_last()).insert(s.last().0@, s.last().1@)
    }
}

/// The keys of `s` are pairwise distinct (by view).
pub open spec fn kv_distinct<K: View, V>(s: Seq<(K, V)>) -> bool {
    forall|i: int, j: int| 0 <= i < j < s.len() ==> (#[trigger] s[i]).0@ != (#[trigger] s[j]).0@
}

/// A key is in the denoted map exactly when some entry holds it.
pub proof fn lemma_kv_map_domain<K: View, V: View>(s: Seq<(K, V)>, k: K::V)
    ensures
        kv_map(s).dom().contains(k) <==> exists|i: int| 0 <= i < s.len() && (#[trigger] s[i]).0@ == k,
    decreases s.len(),
{
    if s.len() > 0 {
        lemma_kv_map_domain(s.drop_last(), k);
        assert(forall|i: int| 0 <= i < s.len() - 1 ==> #[trigger] s.drop_last()[i] == s[i]);
        if s.last().0@ == k {
            assert((s[s.len() - 1]).0@ == k);
        } else {
            if exists|i: int| 0 <= i < s.len() && (#[trigger] s[i]).0@ == k {
                let i = choose|i: int| 0 <= i < s.len() && (#[trigger] s[i]).0@ == k;
                assert(i < s.len() - 1);
                assert(s.drop_last()[i].0@ == k);
            }
        }
    }
}

/// With distinct keys, the entry at `i` gives the map's value at its key.
pub proof fn lemma_kv_map_index<K: View, V: View>(s: Seq<(K, V)>, i: int)
    requires
        kv_distinct(s),
        0 <= i < s.len(),
    ensures
        kv_map(s).dom().contains(s[i].0@),
        kv_map(s)[s[i].0@] == s[i].1@,
    decreases s.len(),
{
    if i < s.len() - 1 {
        assert(s.drop_last()[i] == s[i]);
        assert(kv_distinct(s.drop_last())) by {
            assert(forall|a: int| 0 <= a < s.len() - 1 ==> #[trigger] s.drop_last()[a] == s[a]);
        }
        lemma_kv_map_index(s.drop_last(), i);
        assert(s[i].0@ != s.last().0@);
    }
}

/// Appending an entry inserts its key/value into the denoted map, and
/// keeps the keys distinct when the key was absent.
pub proof fn lemma_kv_map_push<K: View, V: View>(s: Seq<(K, V)>, k: K, v: V)
    ensures
        kv_map(s.push((k, v))) == kv_map(s).insert(k@, v@),
        kv_distinct(s) && (forall|i: int| 0 <= i < s.len() ==> (#[trigger] s[i]).0@ != k@)
            ==> kv_distinct(s.push((k, v))),
{
    assert(s.push((k, v)).drop_last() =~= s);
    assert(s.push((k, v)).last() == (k, v));
    if kv_distinct(s) && (forall|i: int| 0 <= i < s.len() ==> (#[trigger] s[i]).0@ != k@) {
        assert(forall|i: int| 0 <= i < s.len() ==> #[trigger] s.push((k, v))[i] == s[i]);
        assert(s.push((k, v))[s.len() as int] == (k, v));
    }
}

/// With distinct keys, removing the entry at `i` removes its key from the
/// denoted map, and keeps the keys distinct.
pub proof fn lemma_kv_map_remove<K: View, V: View>(s: Seq<(K, V)>, i: int)
    requires
        kv_distinct(s),
        0 <= i < s.len(),
    ensures
        kv_map(s.remove(i)) == kv_map(s).remove(s[i].0@),
        kv_distinct(s.remove(i)),
    decreases s.len(),
{
    assert(forall|j: int| 0 <= j < s.len() - 1
        ==> #[trigger] s.remove(i)[j] == (if j < i { s[j] } else { s[j + 1] }));
    assert(kv_distinct(s.remove(i)));
    if i == s.len() - 1 {
        assert(s.remove(i) =~= s.drop_last());
        lemma_kv_map_domain(s.drop_last(), s[i].0@);
        assert(forall|j: int| 0 <= j < s.len() - 1 ==> #[trigger] s.drop_last()[j] == s[j]);
        assert(!kv_map(s.drop_last()).dom().contains(s[i].0@));
        assert(kv_map(s).remove(s[i].0@) =~= kv_map(s.drop_last()));
    } else {
        assert(kv_distinct(s.drop_last())) by {
            assert(forall|a: int| 0 <= a < s.len() - 1 ==> #[trigger] s.drop_last()[a] == s[a]);
        }
        lemma_kv_map_remove(s.drop_last(), i);
        assert(s.remove(i).drop_last() =~= s.drop_last().remove(i));
        assert(s.remove(i).last() == s.last());
        assert(s[i].0@ != s.last().0@);
        assert(kv_map(s.drop_last()).remove(s[i].0@).insert(s.last().0@, s.last().1@)
            =~= kv_map(s.drop_last()).insert(s.last().0@, s.last().1@).remove(s[i].0@));
        assert(kv_map(s.remove(i)) == kv_map(s.drop_last().remove(i)).insert(s.last().0@, s.last().1@));
    }
}

/// With distinct keys, replacing the entry at `i` by one with the same key
/// view updates the denoted map at that key, and keeps the keys distinct.
pub proof fn lemma_kv_map_update<K: View, V: View>(s: Seq<(K, V)>, i: int, k: K, v: V)
    requires
        kv_distinct(s),
        0 <= i < s.len(),
        k@ == s[i].0@,
    ensures
        kv_map(s.update(i, (k, v))) == kv_map(s).insert(k@, v@),
        kv_distinct(s.update(i, (k, v))),
    decreases s.len(),
{
    let t = s.update(i, (k, v));
    assert(forall|j: int| 0 <= j < s.len() && j != i ==> #[trigger] t[j] == s[j]);
    assert(t[i] == (k, v));
    assert(kv_distinct(t));
    if i == s.len() - 1 {
        assert(t.drop_last() =~= s.drop_last());
        assert(t.last() == (k, v));
        assert(kv_map(s.drop_last()).insert(s.last().0@, s.last().1@).insert(k@, v@)
            =~= kv_map(s.drop_last()).insert(k@, v@));
    } else {
        assert(kv_distinct(s.drop_last())) by {
            assert(forall|a: int| 0 <= a < s.len() - 1 ==> #[trigger] s.drop_last()[a] == s[a]);
        }
        lemma_kv_map_update(s.drop_last(), i, k, v);
        assert(t.drop_last() =~= s.drop_last().update(i, (k, v)));
        assert(t.last() == s.last());
        assert(k@ != s.last().0@);
        assert(kv_map(s.drop_last()).insert(k@, v@).insert(s.last().0@, s.last().1@)
            =~= kv_map(s.drop_last()).insert(s.last().0@, s.last().1@).insert(k@, v@));
    }
}

} // verus!
