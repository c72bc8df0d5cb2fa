//! Association lists read as maps: a later entry for a key shadows earlier ones.
use vstd::prelude::*;

verus! {

/// The map that a list of (key, value) entries denotes, the last entry for
/// each key winning.
pub open spec fn assoc<K, V>(s: Seq<(K, V)>) -> Map<K, V>
    decreases s.len(),
{
    if s.len() == 0 {
        Map::empty()
    } else {
        assoc(s.drop_last()).insert(s.last().0, s.last().1)
    }
}

/// A key that no entry carries is not in the map.
pub proof fn lemma_assoc_absent<K, V>(s: Seq<(K, V)>, k: K)
    requires
        forall|j: int| 0 <= j < s.len() ==> s[j].0 != k,
    ensures
        !assoc(s).contains_key(k),
    decreases s.len(),
{
    if s.len() > 0 {
        lemma_assoc_absent(s.drop_last(), k);
    }
}

/// The last entry that carries a key gives its value.
pub proof fn lemma_assoc_latest<K, V>(s: Seq<(K, V)>, j: int, k: K)
    requires
        0 <= j < s.len(),
        s[j].0 == k,
        forall|l: int| j < l < s.len() ==> s[l].0 != k,
    ensures
        assoc(s).contains_key(k),
        assoc(s)[k] == s[j].1,
    decreases s.len(),
{
    if j < s.len() - 1 {
        lemma_assoc_latest(s.drop_last(), j, k);
    }
}

/// No two entries carry the same key.
pub open spec fn keys_unique<K, V>(s: Seq<(K, V)>) -> bool {
    forall|i: int, j: int| 0 <= i < s.len() && 0 <= j < s.len() && i != j ==> s[i].0 != s[j].0
}

/// With unique keys, every entry is what the map holds for its key.
pub proof fn lemma_assoc_entry<K, V>(s: Seq<(K, V)>, j: int)
    requires
        keys_unique(s),
        0 <= j < s.len(),
    ensures
        assoc(s).contains_key(s[j].0),
        assoc(s)[s[j].0] == s[j].1,
{
    lemma_assoc_latest(s, j, s[j].0);
}

/// Every key of the map is carried by some entry, which gives its value.
pub proof fn lemma_assoc_key_has_entry<K, V>(s: Seq<(K, V)>, k: K)
    requires
        assoc(s).contains_key(k),
    ensures
        exists|j: int| 0 <= j < s.len() && s[j].0 == k && s[j].1 == assoc(s)[k],
    decreases s.len(),
{
    if s.last().0 != k {
        lemma_assoc_key_has_entry(s.drop_last(), k);
        let j = choose|j: int|
            0 <= j < s.drop_last().len() && s.drop_last()[j].0 == k && s.drop_last()[j].1 == assoc(
                s.drop_last(),
            )[k];
        assert(s[j].0 == k && s[j].1 == assoc(s)[k]);
    } else {
        assert(s[s.len() - 1].0 == k);
    }
}

/// With unique keys, replacing the value of one entry replaces it in the map.
pub proof fn lemma_assoc_update<K, V>(s: Seq<(K, V)>, i: int, v: V)
    requires
        keys_unique(s),
        0 <= i < s.len(),
    ensures
        assoc(s.update(i, (s[i].0, v))) == assoc(s).insert(s[i].0, v),
    decreases s.len(),
{
    let t = s.update(i, (s[i].0, v));
    assert(t.drop_last() =~= if i == s.len() - 1 {
        s.drop_last()
    } else {
        s.drop_last().update(i, (s[i].0, v))
    });
    if i == s.len() - 1 {
        assert(assoc(t) =~= assoc(s).insert(s[i].0, v));
    } else {
        lemma_assoc_update(s.drop_last(), i, v);
        assert(s.last().0 != s[i].0);
        assert(assoc(t) =~= assoc(s).insert(s[i].0, v));
    }
}

} // verus!
