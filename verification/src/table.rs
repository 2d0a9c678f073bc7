//! The mapping induced by a sequence of key/value pairs, where a later pair
//! overrides an earlier one with the same key. Lookup structures in this crate
//! keep their entries in insertion order and are specified through this fold.

use vstd::prelude::*;

verus! {

/// The map that a run of key/value pairs builds up, last write winning.
pub open spec fn spec_assoc_map<K, V>(s: Seq<(K, V)>) -> Map<K, V>
    decreases s.len(),
{
    if s.len() == 0 {
        Map::empty()
    } else {
        spec_assoc_map(s.drop_last()).insert(s.last().0, s.last().1)
    }
}

/// A key that some pair carries is present in the induced map.
pub proof fn lemma_assoc_map_present<K, V>(s: Seq<(K, V)>, i: int)
    requires
        0 <= i < s.len(),
    ensures
        spec_assoc_map(s).contains_key(s[i].0),
    decreases s.len(),
{
    if i < s.len() - 1 {
        assert(s.drop_last()[i] == s[i]);
        lemma_assoc_map_present(s.drop_last(), i);
    }
}

} // verus!
