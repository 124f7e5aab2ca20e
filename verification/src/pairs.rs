//! Maps built by inserting a sequence of key/value pairs one after the other.
use vstd::prelude::*;

verus! {

/// The map obtained from `m` by inserting the pairs of `s` in order; a later
/// pair overrides an earlier one with the same key.
pub open spec fn insert_all<K, V>(m: Map<K, V>, s: Seq<(K, V)>) -> Map<K, V>
    decreases s.len(),
{
    if s.len() == 0 {
        m
    } else {
        insert_all(m, s.drop_last()).insert(s.last().0, s.last().1)
    }
}

/// The map holding the pairs of `s`, a later pair overriding an earlier one.
pub open spec fn pairs_map<K, V>(s: Seq<(K, V)>) -> Map<K, V> {
    insert_all(Map::empty(), s)
}

/// No key occurs twice in `s`.
pub open spec fn keys_unique<K, V>(s: Seq<(K, V)>) -> bool {
    forall|i: int, j: int| 0 <= i < s.len() && 0 <= j < s.len() && i != j ==> s[i].0 != s[j].0
}

/// Appending one pair inserts it.
pub proof fn lemma_insert_all_push<K, V>(m: Map<K, V>, s: Seq<(K, V)>, k: K, v: V)
    ensures
        insert_all(m, s.push((k, v))) == insert_all(m, s).insert(k, v),
{
    assert(s.push((k, v)).drop_last() =~= s);
}

/// Inserting a concatenation is inserting its two parts in turn.
pub proof fn lemma_insert_all_append<K, V>(m: Map<K, V>, a: Seq<(K, V)>, b: Seq<(K, V)>)
    ensures
        insert_all(m, a + b) == insert_all(insert_all(m, a), b),
    decreases b.len(),
{
    if b.len() == 0 {
        assert(a + b =~= a);
    } else {
        lemma_insert_all_append(m, a, b.drop_last());
        assert((a + b).drop_last() =~= a + b.drop_last());
        assert((a + b).last() == b.last());
    }
}

/// Inserting pairs into `m` is the union of `m` with the map of the pairs,
/// the pairs winning.
pub proof fn lemma_insert_all_union<K, V>(m: Map<K, V>, s: Seq<(K, V)>)
    ensures
        insert_all(m, s) == m.union_prefer_right(pairs_map(s)),
    decreases s.len(),
{
    if s.len() == 0 {
        assert(m.union_prefer_right(Map::empty()) =~= m);
    } else {
        lemma_insert_all_union(m, s.drop_last());
        lemma_insert_all_union(Map::<K, V>::empty(), s.drop_last());
        assert(Map::<K, V>::empty().union_prefer_right(pairs_map(s.drop_last())) =~= pairs_map(
            s.drop_last(),
        ));
        assert(insert_all(m, s) =~= m.union_prefer_right(pairs_map(s)));
    }
}

/// A key that no pair of `s` carries keeps its entry in `m`.
pub proof fn lemma_insert_all_absent<K, V>(m: Map<K, V>, s: Seq<(K, V)>, k: K)
    requires
        forall|i: int| 0 <= i < s.len() ==> s[i].0 != k,
    ensures
        insert_all(m, s).contains_key(k) == m.contains_key(k),
        m.contains_key(k) ==> insert_all(m, s)[k] == m[k],
    decreases s.len(),
{
    if s.len() > 0 {
        assert(s.last() == s[s.len() - 1]);
        lemma_insert_all_absent(m, s.drop_last(), k);
    }
}

/// Where the key of `s[i]` occurs nowhere after `i`, its value is the one of `s[i]`.
pub proof fn lemma_insert_all_last<K, V>(m: Map<K, V>, s: Seq<(K, V)>, i: int)
    requires
        0 <= i < s.len(),
        forall|j: int| i < j < s.len() ==> s[j].0 != s[i].0,
    ensures
        insert_all(m, s).contains_key(s[i].0),
        insert_all(m, s)[s[i].0] == s[i].1,
    decreases s.len(),
{
    if i < s.len() - 1 {
        assert(s.last() == s[s.len() - 1]);
        assert(s.drop_last()[i] == s[i]);
        lemma_insert_all_last(m, s.drop_last(), i);
    }
}

/// The keys of `insert_all(m, s)` are those of `m` and those carried by `s`.
pub proof fn lemma_insert_all_keys<K, V>(m: Map<K, V>, s: Seq<(K, V)>, k: K)
    ensures
        insert_all(m, s).contains_key(k) <==> (m.contains_key(k) || exists|i: int|
            0 <= i < s.len() && s[i].0 == k),
    decreases s.len(),
{
    if s.len() > 0 {
        lemma_insert_all_keys(m, s.drop_last(), k);
        if exists|i: int| 0 <= i < s.len() && s[i].0 == k {
            let i = choose|i: int| 0 <= i < s.len() && s[i].0 == k;
            if i < s.len() - 1 {
                assert(s.drop_last()[i] == s[i]);
            }
        }
        if exists|i: int| 0 <= i < s.drop_last().len() && s.drop_last()[i].0 == k {
            let i = choose|i: int| 0 <= i < s.drop_last().len() && s.drop_last()[i].0 == k;
            assert(s[i] == s.drop_last()[i]);
        }
    }
}

/// Overwriting the value of the only pair with key `k` inserts the new value.
pub proof fn lemma_insert_all_update<K, V>(m: Map<K, V>, s: Seq<(K, V)>, i: int, v: V)
    requires
        0 <= i < s.len(),
        keys_unique(s),
    ensures
        insert_all(m, s.update(i, (s[i].0, v))) == insert_all(m, s).insert(s[i].0, v),
    decreases s.len(),
{
    let t = s.update(i, (s[i].0, v));
    if i == s.len() - 1 {
        assert(t.drop_last() =~= s.drop_last());
        assert(insert_all(m, t) =~= insert_all(m, s).insert(s[i].0, v));
    } else {
        assert(t.drop_last() =~= s.drop_last().update(i, (s[i].0, v)));
        assert(s.drop_last()[i] == s[i]);
        lemma_insert_all_update(m, s.drop_last(), i, v);
        assert(s.last() == s[s.len() - 1]);
        assert(t.last() == s.last());
        assert(s.last().0 != s[i].0);
        assert(insert_all(m, t) =~= insert_all(m, s).insert(s[i].0, v));
    }
}

/// A map built from finitely many pairs has finitely many keys.
pub proof fn lemma_pairs_map_finite<K, V>(s: Seq<(K, V)>)
    ensures
        pairs_map(s).dom().finite(),
    decreases s.len(),
{
    if s.len() > 0 {
        lemma_pairs_map_finite(s.drop_last());
    }
}

} // verus!
