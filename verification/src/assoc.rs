//! Association lists as mathematical maps: the denotation and the lemmas the
//! keyed collections of this crate share.

use vstd::prelude::*;

verus! {

/// No key occurs twice in the list.
pub open spec fn unique_keys<K, V>(s: Seq<(K, V)>) -> bool {
    forall|i: int, j: int| 0 <= i < j < s.len() ==> (#[trigger] s[i]).0 != (#[trigger] s[j]).0
}

/// The mapping a list denotes; later entries win.
pub open spec fn map_of<K, V>(s: Seq<(K, V)>) -> Map<K, V>
    decreases s.len(),
{
    if s.len() == 0 {
        Map::empty()
    } else {
        map_of(s.drop_last()).insert(s.last().0, s.last().1)
    }
}

/// Unique keys survive dropping the last entry.
pub proof fn lemma_unique_drop_last<K, V>(s: Seq<(K, V)>)
    requires
        unique_keys(s),
        s.len() > 0,
    ensures
        unique_keys(s.drop_last()),
{
    assert forall|x: int, y: int|
        0 <= x < y < s.drop_last().len() implies (#[trigger] s.drop_last()[x]).0 != (
    #[trigger] s.drop_last()[y]).0 by {
        assert(s[x] == s.drop_last()[x]);
        assert(s[y] == s.drop_last()[y]);
    }
}

/// A key is in the denoted map exactly when some entry carries it.
pub proof fn lemma_map_of_contains<K, V>(s: Seq<(K, V)>, k: K)
    ensures
        map_of(s).contains_key(k) <==> exists|i: int| 0 <= i < s.len() && (#[trigger] s[i]).0 == k,
    decreases s.len(),
{
    if s.len() > 0 {
        lemma_map_of_contains(s.drop_last(), k);
        if s.last().0 == k {
            assert(s[s.len() - 1].0 == k);
        } else if map_of(s).contains_key(k) {
            let i = choose|i: int| 0 <= i < s.drop_last().len() && (#[trigger] s.drop_last()[i]).0
                == k;
            assert(s[i].0 == k);
        } else {
            assert forall|i: int| 0 <= i < s.len() implies (#[trigger] s[i]).0 != k by {
                if i < s.len() - 1 {
                    assert(s.drop_last()[i] == s[i]);
                }
            }
        }
    }
}

/// With unique keys, the entry carrying a key gives the map's value at it.
pub proof fn lemma_map_of_index<K, V>(s: Seq<(K, V)>, i: int)
    requires
        unique_keys(s),
        0 <= i < s.len(),
    ensures
        map_of(s).contains_key(s[i].0),
        map_of(s)[s[i].0] == s[i].1,
    decreases s.len(),
{
    if i == s.len() - 1 {
    } else {
        lemma_unique_drop_last(s);
        lemma_map_of_index(s.drop_last(), i);
        assert(s.drop_last()[i] == s[i]);
        assert(s[i].0 != s.last().0);
    }
}

/// With unique keys, removing an entry removes exactly its key, and keys stay
/// unique.
pub proof fn lemma_map_of_remove<K, V>(s: Seq<(K, V)>, i: int)
    requires
        unique_keys(s),
        0 <= i < s.len(),
    ensures
        unique_keys(s.remove(i)),
        map_of(s.remove(i)) == map_of(s).remove(s[i].0),
    decreases s.len(),
{
    let r = s.remove(i);
    assert(unique_keys(r)) by {
        assert forall|x: int, y: int|
            0 <= x < y < r.len() implies (#[trigger] r[x]).0 != (#[trigger] r[y]).0 by {
            let x0 = if x < i {
                x
            } else {
                x + 1
            };
            let y0 = if y < i {
                y
            } else {
                y + 1
            };
            assert(r[x] == s[x0]);
            assert(r[y] == s[y0]);
        }
    }
    if i == s.len() - 1 {
        lemma_unique_drop_last(s);
        lemma_map_of_contains(s.drop_last(), s[i].0);
        assert forall|j: int| 0 <= j < s.drop_last().len() implies (#[trigger] s.drop_last()[j]).0
            != s[i].0 by {
            assert(s[j] == s.drop_last()[j]);
        }
        assert(r =~= s.drop_last());
        assert(map_of(s.remove(i)) =~= map_of(s).remove(s[i].0));
    } else {
        lemma_unique_drop_last(s);
        lemma_map_of_remove(s.drop_last(), i);
        assert(r.drop_last() =~= s.drop_last().remove(i));
        assert(r.last() == s.last());
        assert(s.drop_last()[i] == s[i]);
        assert(map_of(r) == map_of(s.drop_last().remove(i)).insert(s.last().0, s.last().1));
        assert(s[i].0 != s.last().0);
        assert(map_of(s.remove(i)) =~= map_of(s).remove(s[i].0));
    }
}

} // verus!
