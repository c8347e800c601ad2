//! Walking a map in the order of its keys.
use std::collections::BTreeMap;
use vstd::laws_cmp::obeys_cmp;
use vstd::prelude::*;
use vstd::std_specs::btree::increasing_seq;
use vstd::std_specs::cmp::OrdSpec;
use vstd::std_specs::iter::IteratorSpec;

verus! {

/// `items` lists what `map` holds, each key once, in increasing order of the keys.
pub open spec fn lists_in_order<V>(map: Map<u64, V>, items: Seq<(u64, &V)>) -> bool {
    &&& forall|i: int| 0 <= i < items.len() ==> #[trigger] map.contains_pair(items[i].0, *items[i].1)
    &&& forall|i: int, j: int| 0 <= i < j < items.len() ==> (#[trigger] items[i]).0 < (#[trigger] items[j]).0
    &&& forall|k: u64| #[trigger] map.contains_key(k) ==> exists|i: int| 0 <= i < items.len() && (#[trigger] items[i]).0 == k
}

/// Lists what the map holds in increasing order of the keys.
pub fn in_order<V>(map: &BTreeMap<u64, V>) -> (items: Vec<(u64, &V)>)
    ensures
        lists_in_order(map@, items@),
{
    let iter = map.iter();
    let ghost pairs = iter.remaining();
    proof {
        let keys = pairs.map_values(|kv: (&u64, &V)| *kv.0);
        assert(obeys_cmp::<u64>());
        assert(increasing_seq(keys));
        assert forall|i: int, j: int| 0 <= i < j < pairs.len() implies *(#[trigger] pairs[i]).0 < *(#[trigger] pairs[j]).0 by {
            assert(keys[i].cmp_spec(&keys[j]) is Less);
        }
    }
    let mut items: Vec<(u64, &V)> = Vec::new();
    for pair in it: iter
        invariant
            it.seq() == pairs,
            items@.len() == it.index(),
            forall|i: int| 0 <= i < items.len() ==> items@[i] == (*pairs[i].0, pairs[i].1),
    {
        items.push((*pair.0, pair.1));
    }
    proof {
        assert forall|k: u64| #[trigger] map@.contains_key(k) implies exists|i: int|
            0 <= i < items.len() && (#[trigger] items@[i]).0 == k by {
            assert(pairs.contains((&k, &map@[k])));
            let i = choose|i: int| 0 <= i < pairs.len() && pairs[i] == (&k, &map@[k]);
            assert(items@[i].0 == k);
        }
    }
    items
}

} // verus!
