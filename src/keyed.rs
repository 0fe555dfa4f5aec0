//! Sequences of keyed entries read as maps: the last entry of a key wins.
use vstd::prelude::*;

verus! {

/// The position of the last entry of `s` under key `k`, or -1 where there is none.
pub open spec fn last_index_of<K, V>(s: Seq<(K, V)>, k: K) -> int
    decreases s.len(),
{
    if s.len() == 0 {
        -1
    } else if s.last().0 == k {
        s.len() - 1
    } else {
        last_index_of(s.drop_last(), k)
    }
}

/// The map that `s` stands for: each key to the value of its last entry.
pub open spec fn map_of<K, V>(s: Seq<(K, V)>) -> Map<K, V>
    decreases s.len(),
{
    if s.len() == 0 {
        Map::empty()
    } else {
        map_of(s.drop_last()).insert(s.last().0, s.last().1)
    }
}

/// `s` with the entry of `k` replaced by `(k, v)`, or with `(k, v)` added at
/// the end where `k` has no entry.
pub open spec fn upsert<K, V>(s: Seq<(K, V)>, k: K, v: V) -> Seq<(K, V)> {
    let i = last_index_of(s, k);
    if i >= 0 {
        s.update(i, (k, v))
    } else {
        s.push((k, v))
    }
}

/// A position `i` is the last one of key `k` exactly when it holds `k` and no
/// later one does; -1 is when no position holds `k`.
pub proof fn lemma_last_index<K, V>(s: Seq<(K, V)>, k: K, i: int)
    requires
        -1 <= i < s.len(),
        i >= 0 ==> s[i].0 == k,
        forall|j: int| i < j < s.len() ==> s[j].0 != k,
    ensures
        last_index_of(s, k) == i,
    decreases s.len(),
{
    if s.len() > 0 && i != s.len() - 1 {
        lemma_last_index(s.drop_last(), k, i);
    }
}

/// What `last_index_of` gives is a position of `k` with none after it.
pub proof fn lemma_last_index_bounds<K, V>(s: Seq<(K, V)>, k: K)
    ensures
        -1 <= last_index_of(s, k) < s.len(),
        last_index_of(s, k) >= 0 ==> s[last_index_of(s, k)].0 == k,
        forall|j: int| last_index_of(s, k) < j < s.len() ==> s[j].0 != k,
    decreases s.len(),
{
    if s.len() > 0 && s.last().0 != k {
        let d = s.drop_last();
        lemma_last_index_bounds(d, k);
        assert forall|j: int| last_index_of(s, k) < j < s.len() implies s[j].0 != k by {
            if j < s.len() - 1 {
                assert(s[j] == d[j]);
            }
        }
    }
}

/// A key is in the map exactly when it has an entry, and maps to the value of
/// its last entry.
pub proof fn lemma_map_of_lookup<K, V>(s: Seq<(K, V)>, k: K)
    ensures
        map_of(s).contains_key(k) == (last_index_of(s, k) >= 0),
        last_index_of(s, k) >= 0 ==> map_of(s)[k] == s[last_index_of(s, k)].1,
    decreases s.len(),
{
    lemma_last_index_bounds(s, k);
    if s.len() > 0 {
        let d = s.drop_last();
        lemma_map_of_lookup(d, k);
        lemma_last_index_bounds(d, k);
        if s.last().0 != k && last_index_of(s, k) >= 0 {
            assert(s[last_index_of(s, k)] == d[last_index_of(d, k)]);
        }
    }
}

/// Adding an entry at the end puts its key to its value.
pub proof fn lemma_map_of_push<K, V>(s: Seq<(K, V)>, k: K, v: V)
    ensures
        map_of(s.push((k, v))) == map_of(s).insert(k, v),
{
    assert(s.push((k, v)).drop_last() =~= s);
}

/// Replacing the last entry of a key changes the map at that key alone.
pub proof fn lemma_map_of_update<K, V>(s: Seq<(K, V)>, k: K, v: V)
    requires
        last_index_of(s, k) >= 0,
    ensures
        map_of(s.update(last_index_of(s, k), (k, v))) == map_of(s).insert(k, v),
    decreases s.len(),
{
    lemma_last_index_bounds(s, k);
    let i = last_index_of(s, k);
    let t = s.update(i, (k, v));
    if i == s.len() - 1 {
        assert(t.last() == (k, v));
        assert(t.drop_last() =~= s.drop_last());
        assert(map_of(t) =~= map_of(s).insert(k, v));
    } else {
        assert(s.last().0 != k);
        assert(last_index_of(s.drop_last(), k) == i);
        lemma_map_of_update(s.drop_last(), k, v);
        assert(t.drop_last() =~= s.drop_last().update(i, (k, v)));
        assert(t.last() == s.last());
        assert(map_of(t) =~= map_of(s).insert(k, v));
    }
}

/// Upserting puts the key to the value and leaves every other key as it was.
pub proof fn lemma_map_of_upsert<K, V>(s: Seq<(K, V)>, k: K, v: V)
    ensures
        map_of(upsert(s, k, v)) == map_of(s).insert(k, v),
{
    if last_index_of(s, k) >= 0 {
        lemma_map_of_update(s, k, v);
    } else {
        lemma_map_of_push(s, k, v);
    }
}

} // verus!
