//! Association lists: sequences of key-value pairs with distinct keys, read as maps.
use vstd::prelude::*;

verus! {

/// The map that a list of pairs stands for; a later pair overrides an earlier one.
pub open spec fn assoc_map<K, V>(s: Seq<(K, V)>) -> Map<K, V>
    decreases s.len(),
{
    if s.len() == 0 {
        Map::empty()
    } else {
        assoc_map(s.drop_last()).insert(s.last().0, s.last().1)
    }
}

/// True when no key occurs twice.
pub open spec fn keys_distinct<K, V>(s: Seq<(K, V)>) -> bool {
    forall|i: int, j: int| 0 <= i < j < s.len() ==> s[i].0 != s[j].0
}

/// A key is in the map exactly when some pair has it; with distinct keys the map gives the
/// value of that pair.
pub proof fn lemma_assoc_contains<K, V>(s: Seq<(K, V)>, k: K)
    ensures
        assoc_map(s).contains_key(k) <==> exists|i: int| 0 <= i < s.len() && s[i].0 == k,
        keys_distinct(s) ==> forall|i: int| 0 <= i < s.len() && s[i].0 == k ==> assoc_map(s)[k] == s[i].1,
    decreases s.len(),
{
    if s.len() > 0 {
        let t = s.drop_last();
        lemma_assoc_contains(t, k);
        if assoc_map(s).contains_key(k) {
            if s.last().0 == k {
                assert(s[s.len() - 1].0 == k);
            } else {
                let i = choose|i: int| 0 <= i < t.len() && t[i].0 == k;
                assert(s[i].0 == k);
            }
        }
        if exists|i: int| 0 <= i < s.len() && s[i].0 == k {
            let i = choose|i: int| 0 <= i < s.len() && s[i].0 == k;
            if i < s.len() - 1 {
                assert(t[i].0 == k);
            }
        }
        if keys_distinct(s) {
            assert(keys_distinct(t));
            assert forall|i: int| 0 <= i < s.len() && s[i].0 == k implies assoc_map(s)[k] == s[i].1 by {
                if i < s.len() - 1 {
                    assert(t[i].0 == k);
                }
            }
        }
    }
}

/// Appending a pair with a new key inserts it into the map and keeps keys distinct.
pub proof fn lemma_assoc_push<K, V>(s: Seq<(K, V)>, k: K, v: V)
    requires
        keys_distinct(s),
        !assoc_map(s).contains_key(k),
    ensures
        assoc_map(s.push((k, v))) == assoc_map(s).insert(k, v),
        keys_distinct(s.push((k, v))),
{
    lemma_assoc_contains(s, k);
    assert(s.push((k, v)).drop_last() == s);
    let t = s.push((k, v));
    assert forall|i: int, j: int| 0 <= i < j < t.len() implies t[i].0 != t[j].0 by {
        if j == s.len() {
            assert(s[i].0 != k);
        }
    }
}

/// Replacing the value of the pair at `i` updates the map at its key and keeps keys distinct.
pub proof fn lemma_assoc_update<K, V>(s: Seq<(K, V)>, i: int, v: V)
    requires
        keys_distinct(s),
        0 <= i < s.len(),
    ensures
        assoc_map(s.update(i, (s[i].0, v))) == assoc_map(s).insert(s[i].0, v),
        keys_distinct(s.update(i, (s[i].0, v))),
    decreases s.len(),
{
    let k = s[i].0;
    let u = s.update(i, (k, v));
    assert(keys_distinct(u)) by {
        assert forall|a: int, b: int| 0 <= a < b < u.len() implies u[a].0 != u[b].0 by {
            assert(s[a].0 != s[b].0);
        }
    }
    let t = s.drop_last();
    if i == s.len() - 1 {
        assert(u.drop_last() == t);
        assert(assoc_map(u) =~= assoc_map(s).insert(k, v));
    } else {
        assert(u.drop_last() == t.update(i, (k, v)));
        assert(keys_distinct(t));
        lemma_assoc_update(t, i, v);
        assert(s.last().0 != k);
        assert(assoc_map(u) =~= assoc_map(s).insert(k, v));
    }
}

} // verus!
