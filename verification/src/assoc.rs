//! Association lists read as maps: later pairs override earlier ones.

use vstd::prelude::*;

verus! {

/// Apply key/value pairs onto a map in order; later pairs override.
pub open spec fn spec_apply_pairs<K, V>(m: Map<K, V>, ps: Seq<(K, V)>) -> Map<K, V>
    decreases ps.len(),
{
    if ps.len() == 0 {
        m
    } else {
        spec_apply_pairs(m, ps.drop_last()).insert(ps.last().0, ps.last().1)
    }
}

/// The map denoted by the pairs alone.
pub open spec fn spec_pairs_map<K, V>(ps: Seq<(K, V)>) -> Map<K, V> {
    spec_apply_pairs(Map::empty(), ps)
}

/// The pair at a key's last occurrence is in the applied map.
pub proof fn lemma_pairs_map_last_occurrence<K, V>(m: Map<K, V>, ps: Seq<(K, V)>, i: int)
    requires
        0 <= i < ps.len(),
        forall|j: int| i < j < ps.len() ==> ps[j].0 != ps[i].0,
    ensures
        spec_apply_pairs(m, ps).contains_pair(ps[i].0, ps[i].1),
    decreases ps.len(),
{
    if i == ps.len() - 1 {
    } else {
        assert(ps.drop_last()[i] == ps[i]);
        lemma_pairs_map_last_occurrence(m, ps.drop_last(), i);
    }
}

/// Every key of the applied map comes from the base map or from a pair.
pub proof fn lemma_pairs_map_dom<K, V>(m: Map<K, V>, ps: Seq<(K, V)>, k: K)
    requires
        spec_apply_pairs(m, ps).dom().contains(k),
        !m.dom().contains(k),
    ensures
        exists|p: int| 0 <= p < ps.len() && #[trigger] ps[p].0 == k,
    decreases ps.len(),
{
    if ps.len() > 0 {
        if ps.last().0 == k {
            assert(ps[ps.len() - 1].0 == k);
        } else {
            lemma_pairs_map_dom(m, ps.drop_last(), k);
            let p = choose|p: int|
                0 <= p < ps.drop_last().len() && #[trigger] ps.drop_last()[p].0 == k;
            assert(ps[p].0 == k);
        }
    }
}

/// Every pair of the applied map that the base map does not already hold
/// at its key comes from one of the pairs.
pub proof fn lemma_pairs_map_pair_source<K, V>(m: Map<K, V>, ps: Seq<(K, V)>, k: K, v: V)
    requires
        spec_apply_pairs(m, ps).contains_pair(k, v),
        !m.dom().contains(k),
    ensures
        exists|i: int| 0 <= i < ps.len() && #[trigger] ps[i] == (k, v),
    decreases ps.len(),
{
    if ps.len() == 0 {
    } else if ps.last().0 == k {
        assert(ps[ps.len() - 1] == (k, v));
    } else {
        lemma_pairs_map_pair_source(m, ps.drop_last(), k, v);
        let i = choose|i: int| 0 <= i < ps.drop_last().len() && #[trigger] ps.drop_last()[i] == (
            k,
            v,
        );
        assert(ps[i] == (k, v));
    }
}

} // verus!
