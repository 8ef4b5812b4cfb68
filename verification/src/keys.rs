use std::collections::HashMap;
use vstd::prelude::*;
use vstd::std_specs::hash::spec_keys_iter;

verus! {

broadcast use vstd::std_specs::hash::group_hash_axioms;

pub fn map_keys<V>(m: &HashMap<u64, V>) -> (r: Vec<u64>)
    ensures
        r@.to_set() == m@.dom(),
        r@.no_duplicates(),
        r@.len() == m@.dom().len(),
{
    let mut out: Vec<u64> = Vec::new();
    for k in it: m.keys()
        invariant
            it.seq() == vstd::std_specs::iter::IteratorSpec::remaining(&spec_keys_iter(m)),
            out@ == it.seq().take(it.index() as int).unref(),
        ensures
            out@ == it.seq().unref(),
    {
        out.push(*k);
        proof {
            assert(it.seq().take(it.index() as int + 1).unref() == out@);
        }
    }
    out
}

} // verus!
