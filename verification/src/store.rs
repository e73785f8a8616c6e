//! The in-memory mapping from tokens to destination URLs. Loading it, and
//! noticing that the data behind it changed, is the caller's business: the
//! store only takes what a load produced.

use vstd::prelude::*;
use crate::table::{lemma_map_len, Table};

verus! {

/// The mapping from tokens to destination URLs.
#[derive(Debug, PartialEq, Eq)]
pub struct Store {
    links: Table,
}

/// The destination that `links` holds for `token`, if it holds one.
pub open spec fn destination(links: Map<Seq<u8>, Seq<u8>>, token: Seq<u8>) -> Option<Seq<u8>> {
    if links.dom().contains(token) {
        Some(links[token])
    } else {
        None
    }
}

impl View for Store {
    type V = Map<Seq<u8>, Seq<u8>>;

    closed spec fn view(&self) -> Map<Seq<u8>, Seq<u8>> {
        self.links.map()
    }
}

impl Store {
    /// The invariant of the type: no token is stored twice.
    pub closed spec fn wf(&self) -> bool {
        self.links.wf()
    }

    /// A store without links.
    pub fn new() -> (store: Store)
        ensures
            store.wf(),
            store@ == Map::<Seq<u8>, Seq<u8>>::empty(),
    {
        let store = Store { links: Table::new() };
        assert(store@ =~= Map::<Seq<u8>, Seq<u8>>::empty());
        store
    }

    /// Number of links.
    pub fn len(&self) -> (n: usize)
        requires
            self.wf(),
        ensures
            self@.dom().finite(),
            n == self@.dom().len(),
    {
        proof {
            lemma_map_len(self.links@);
        }
        self.links.len()
    }

    /// The destination stored for `token`. A token that is not stored is no error.
    pub fn get(&self, token: &[u8]) -> (r: Option<&Vec<u8>>)
        requires
            self.wf(),
        ensures
            match r {
                Some(url) => destination(self@, token@) == Some(url@),
                None => destination(self@, token@) is None,
            },
    {
        self.links.get(token)
    }

    /// Stores `url` as the destination of `token`.
    pub fn insert(&mut self, token: Vec<u8>, url: Vec<u8>)
        requires
            old(self).wf(),
        ensures
            final(self).wf(),
            final(self)@ == old(self)@.insert(token@, url@),
    {
        self.links.insert(token, url);
    }

    /// Takes over the outcome of a reload. A fresh mapping replaces the present
    /// one; a failed load, given as `None`, leaves the present one in place.
    /// Returns whether the mapping was replaced.
    pub fn refresh(&mut self, loaded: Option<Store>) -> (replaced: bool)
        requires
            old(self).wf(),
            loaded matches Some(fresh) ==> fresh.wf(),
        ensures
            final(self).wf(),
            replaced == loaded is Some,
            final(self)@ == match loaded {
                Some(fresh) => fresh@,
                None => old(self)@,
            },
    {
        match loaded {
            Some(fresh) => {
                *self = fresh;
                true
            },
            None => false,
        }
    }
}

} // verus!
