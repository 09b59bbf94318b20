use std::collections::HashMap;
use vstd::prelude::*;
use vstd::std_specs::hash::spec_keys_iter;
use vstd::std_specs::iter::IteratorSpec;

verus! {

broadcast use vstd::std_specs::hash::group_hash_axioms;

/// The keys of a map keyed by number, each once, in the map's own order.
pub fn id_keys<V>(m: &HashMap<u64, V>) -> (r: Vec<u64>)
    ensures
        r@.no_duplicates(),
        r@.to_set() == m@.dom(),
        r@.len() == m@.dom().len(),
{
    let ghost ks = spec_keys_iter(m).remaining().map_values(|r: &u64| *r);
    let mut keys: Vec<u64> = Vec::new();
    for k in it: m.keys()
        invariant
            it.seq() == spec_keys_iter(m).remaining(),
            ks == spec_keys_iter(m).remaining().map_values(|r: &u64| *r),
            keys@.len() == it.index(),
            forall|i: int| 0 <= i < keys@.len() ==> keys@[i] == ks[i],
    {
        keys.push(*k);
    }
    assert(keys@ =~= ks);
    assert(spec_keys_iter(m).remaining().unref() =~= ks);
    keys
}

} // verus!
