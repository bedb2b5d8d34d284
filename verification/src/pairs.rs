//! Name-to-value lookup over a list of byte-string pairs, with
//! last-write-wins semantics, and its reading as a map. Both the header
//! mapping and the file store are lists of pairs read this way.

use vstd::prelude::*;
use crate::bytes::bytes_eq;

verus! {

/// The views of a list of byte-vector pairs.
pub open spec fn pairs_view(s: Seq<(Vec<u8>, Vec<u8>)>) -> Seq<(Seq<u8>, Seq<u8>)> {
    s.map_values(|p: (Vec<u8>, Vec<u8>)| (p.0@, p.1@))
}

/// The value of the last pair named `name`, if any: a later pair with
/// the same name wins over an earlier one.
pub open spec fn lookup_pairs(s: Seq<(Seq<u8>, Seq<u8>)>, name: Seq<u8>) -> Option<Seq<u8>>
    decreases s.len(),
{
    if s.len() == 0 {
        None
    } else if s.last().0 == name {
        Some(s.last().1)
    } else {
        lookup_pairs(s.drop_last(), name)
    }
}

/// The map that a list of pairs denotes: each pair inserted in order,
/// so that the last pair with a given name gives its value.
pub open spec fn map_of(s: Seq<(Seq<u8>, Seq<u8>)>) -> Map<Seq<u8>, Seq<u8>>
    decreases s.len(),
{
    if s.len() == 0 {
        Map::empty()
    } else {
        map_of(s.drop_last()).insert(s.last().0, s.last().1)
    }
}

/// Looking a name up in the pair list agrees with the map the list
/// denotes.
pub proof fn lemma_lookup_is_map(s: Seq<(Seq<u8>, Seq<u8>)>, name: Seq<u8>)
    ensures
        lookup_pairs(s, name) == (if map_of(s).contains_key(name) {
            Some(map_of(s)[name])
        } else {
            None::<Seq<u8>>
        }),
    decreases s.len(),
{
    if s.len() > 0 && s.last().0 != name {
        lemma_lookup_is_map(s.drop_last(), name);
    }
}

/// Finds the value of the last pair named `name`.
pub fn lookup_vec(pairs: &Vec<(Vec<u8>, Vec<u8>)>, name: &[u8]) -> (r: Option<Vec<u8>>)
    ensures
        match r {
            Some(d) => lookup_pairs(pairs_view(pairs@), name@) == Some(d@),
            None => lookup_pairs(pairs_view(pairs@), name@) is None,
        },
{
    let ghost pv = pairs_view(pairs@);
    let mut i: usize = pairs.len();
    proof {
        assert(pv.take(i as int) =~= pv);
    }
    while i > 0
        invariant
            0 <= i <= pairs@.len(),
            pv == pairs_view(pairs@),
            pv.len() == pairs@.len(),
            lookup_pairs(pv, name@) == lookup_pairs(pv.take(i as int), name@),
        decreases i,
    {
        i -= 1;
        proof {
            assert(pv.take(i + 1).last() == pv[i as int]);
            assert(pv.take(i + 1).drop_last() =~= pv.take(i as int));
        }
        if bytes_eq(pairs[i].0.as_slice(), name) {
            let r = vstd::slice::slice_to_vec(pairs[i].1.as_slice());
            proof {
                assert(lookup_pairs(pv.take(i + 1), name@) == Some(pv[i as int].1));
            }
            return Some(r);
        }
    }
    proof {
        assert(pv.take(0) =~= Seq::<(Seq<u8>, Seq<u8>)>::empty());
    }
    None
}

} // verus!
