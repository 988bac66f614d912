//! In-place access to entries of std's `HashMap`.

use std::collections::HashMap;
use vstd::prelude::*;

verus! {

broadcast use vstd::std_specs::hash::group_hash_axioms;

/// `HashMap::get_mut`: a mutable reference to the value stored under `k`,
/// if any. Writing through it changes that entry and nothing else.
#[verifier::external_body]
pub(crate) fn hash_map_get_mut<'a, V>(m: &'a mut HashMap<u128, V>, k: &u128) -> (r: Option<&'a mut V>)
    ensures
        r.is_some() == old(m)@.contains_key(*k),
        r matches Some(v) ==> *v == old(m)@[*k] && final(m)@ == old(m)@.insert(*k, *final(v)),
        r is None ==> final(m)@ == old(m)@,
{
    m.get_mut(k)
}

} // verus!
