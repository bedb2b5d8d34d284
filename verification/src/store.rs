//! An in-memory byte store keyed by filename: the read/write collaborator
//! that the file routes delegate to, modelled as a map from names to
//! blobs. Writing a name again overwrites what a later read returns.

use vstd::prelude::*;
use crate::pairs::{pairs_view, map_of, lemma_lookup_is_map, lookup_vec};

verus! {

/// Named blobs, written in order; the view is the map where the last
/// write of each name wins.
pub struct FileStore {
    pub entries: Vec<(Vec<u8>, Vec<u8>)>,
}

impl View for FileStore {
    type V = Map<Seq<u8>, Seq<u8>>;

    open spec fn view(&self) -> Map<Seq<u8>, Seq<u8>> {
        map_of(pairs_view(self.entries@))
    }
}

impl FileStore {
    /// A store holding nothing.
    pub fn new() -> (r: FileStore)
        ensures
            r@ == Map::<Seq<u8>, Seq<u8>>::empty(),
    {
        let entries: Vec<(Vec<u8>, Vec<u8>)> = Vec::new();
        proof {
            assert(pairs_view(entries@) =~= Seq::<(Seq<u8>, Seq<u8>)>::empty());
        }
        FileStore { entries }
    }

    /// Creates or overwrites the blob under `name`.
    pub fn write_file(&mut self, name: &[u8], data: &[u8])
        ensures
            final(self)@ == old(self)@.insert(name@, data@),
    {
        let entry = (vstd::slice::slice_to_vec(name), vstd::slice::slice_to_vec(data));
        self.entries.push(entry);
        proof {
            let pv = pairs_view(self.entries@);
            assert(pv.drop_last() =~= pairs_view(old(self).entries@));
            assert(pv.last() == (name@, data@));
        }
    }

    /// The blob under `name`, or nothing when no write created it.
    pub fn read_file(&self, name: &[u8]) -> (r: Option<Vec<u8>>)
        ensures
            match r {
                Some(d) => self@.contains_key(name@) && d@ == self@[name@],
                None => !self@.contains_key(name@),
            },
    {
        proof {
            lemma_lookup_is_map(pairs_view(self.entries@), name@);
        }
        lookup_vec(&self.entries, name)
    }
}

} // verus!
