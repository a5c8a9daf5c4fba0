use vstd::prelude::*;

verus! {

/// The map described by a run of keyed entries, read left to right: a later
/// entry with the same key supersedes an earlier one. Both levels of the
/// ledger are runs of this shape, keyed by text.
pub open spec fn assoc_map<V>(s: Seq<(Seq<char>, V)>) -> Map<Seq<char>, V>
    decreases s.len(),
{
    if s.len() == 0 {
        Map::empty()
    } else {
        assoc_map(s.drop_last()).insert(s.last().0, s.last().1)
    }
}

/// No two entries of the run share a key.
pub open spec fn keys_unique<V>(s: Seq<(Seq<char>, V)>) -> bool {
    forall|i: int, j: int|
        0 <= i < j < s.len() ==> (#[trigger] s[i]).0 != (#[trigger] s[j]).0
}

/// A key is in the map exactly when some entry carries it.
pub proof fn lemma_assoc_map_domain<V>(s: Seq<(Seq<char>, V)>, k: Seq<char>)
    ensures
        assoc_map(s).contains_key(k) <==> exists|i: int|
            0 <= i < s.len() && (#[trigger] s[i]).0 == k,
    decreases s.len(),
{
    if s.len() > 0 {
        lemma_assoc_map_domain(s.drop_last(), k);
        if s.last().0 == k {
            assert(s[s.len() - 1].0 == k);
        } else if assoc_map(s).contains_key(k) {
            let i = choose|i: int| 0 <= i < s.drop_last().len() && (#[trigger] s.drop_last()[i]).0 == k;
            assert(s[i].0 == k);
        } else if exists|i: int| 0 <= i < s.len() && (#[trigger] s[i]).0 == k {
            let i = choose|i: int| 0 <= i < s.len() && (#[trigger] s[i]).0 == k;
            assert(s.drop_last()[i].0 == k);
        }
    }
}

/// With unique keys, the entry at any index is what the map holds for its key.
pub proof fn lemma_assoc_map_index<V>(s: Seq<(Seq<char>, V)>, i: int)
    requires
        keys_unique(s),
        0 <= i < s.len(),
    ensures
        assoc_map(s).contains_key(s[i].0),
        assoc_map(s)[s[i].0] == s[i].1,
    decreases s.len(),
{
    if i < s.len() - 1 {
        assert(keys_unique(s.drop_last())) by {
            assert forall|p: int, q: int|
                0 <= p < q < s.drop_last().len() implies (#[trigger] s.drop_last()[p]).0
                != (#[trigger] s.drop_last()[q]).0 by {
                assert(s[p].0 != s[q].0);
            }
        }
        lemma_assoc_map_index(s.drop_last(), i);
        assert(s.drop_last()[i] == s[i]);
        assert(s[i].0 != s.last().0);
    }
}

/// Replacing the entry at an index, key kept, inserts its value in the map.
pub proof fn lemma_assoc_map_update<V>(s: Seq<(Seq<char>, V)>, i: int, v: (Seq<char>, V))
    requires
        keys_unique(s),
        0 <= i < s.len(),
        v.0 == s[i].0,
    ensures
        assoc_map(s.update(i, v)) == assoc_map(s).insert(v.0, v.1),
        keys_unique(s.update(i, v)),
    decreases s.len(),
{
    assert(keys_unique(s.update(i, v))) by {
        assert forall|p: int, q: int|
            0 <= p < q < s.update(i, v).len() implies (#[trigger] s.update(i, v)[p]).0
            != (#[trigger] s.update(i, v)[q]).0 by {
            assert(s[p].0 != s[q].0);
        }
    }
    if i == s.len() - 1 {
        assert(s.update(i, v).drop_last() =~= s.drop_last());
        assert(s.update(i, v).last() == v);
        assert(assoc_map(s.update(i, v)) =~= assoc_map(s).insert(v.0, v.1));
    } else {
        assert(keys_unique(s.drop_last())) by {
            assert forall|p: int, q: int|
                0 <= p < q < s.drop_last().len() implies (#[trigger] s.drop_last()[p]).0
                != (#[trigger] s.drop_last()[q]).0 by {
                assert(s[p].0 != s[q].0);
            }
        }
        lemma_assoc_map_update(s.drop_last(), i, v);
        assert(s.update(i, v).drop_last() =~= s.drop_last().update(i, v));
        assert(s.update(i, v).last() == s.last());
        // The last key differs from the updated key, so the two inserts commute.
        assert(s[i].0 != s[s.len() - 1].0);
        assert(assoc_map(s.update(i, v)) =~= assoc_map(s).insert(v.0, v.1));
    }
}

/// Appending an entry under a fresh key inserts its value in the map.
pub proof fn lemma_assoc_map_push<V>(s: Seq<(Seq<char>, V)>, v: (Seq<char>, V))
    requires
        forall|i: int| 0 <= i < s.len() ==> (#[trigger] s[i]).0 != v.0,
    ensures
        assoc_map(s.push(v)) == assoc_map(s).insert(v.0, v.1),
        keys_unique(s) ==> keys_unique(s.push(v)),
    decreases s.len(),
{
    assert(s.push(v).drop_last() =~= s);
    assert(s.push(v).last() == v);
    if keys_unique(s) {
        assert forall|p: int, q: int|
            0 <= p < q < s.push(v).len() implies (#[trigger] s.push(v)[p]).0
            != (#[trigger] s.push(v)[q]).0 by {
            if q < s.len() {
                assert(s[p].0 != s[q].0);
            } else {
                assert(s[p].0 != v.0);
            }
        }
    }
}

} // verus!
