//! A least-recently-used cache. Its operations are verified against a model in
//! which the cache is the sequence of its entries, most recently used first,
//! together with its capacity (see `model`).

use vstd::prelude::*;

pub mod model;
pub mod laws;
pub mod dll;
mod constructors;
mod pure;
mod backend;
mod put;
mod get;
mod meta;
mod pop;
mod rmw;
mod realloc;
pub mod iter;
mod clone;
pub mod slru;
pub mod even_int;

verus! {

use crate::dll::DList;

/// The hash builder that the constructors without one use.
pub type DefaultHasher = std::collections::hash_map::RandomState;

/// A cache that holds at most `cap` entries with distinct keys, and that
/// forgets the least recently used entry to make room for a new one.
///
/// The entries live in a doubly linked list ordered by use; a key is found by
/// comparing it with the keys held, so the operations that look keys up ask
/// that `==` on `K` be equality. The hash builder is kept with the cache.
pub struct LruCache<K, V, S = DefaultHasher> {
    list: DList<K, V>,
    cap: usize,
    hash_builder: S,
}

impl<K, V, S> LruCache<K, V, S> {
    /// The entries, most recently used first.
    pub closed spec fn view(&self) -> Seq<(K, V)> {
        self.list@
    }

    /// The capacity.
    pub closed spec fn spec_cap(&self) -> usize {
        self.cap
    }

    /// The maximum number of entries the cache holds.
    #[verifier::when_used_as_spec(spec_cap)]
    pub fn cap(&self) -> (r: usize)
        ensures
            r == self.spec_cap(),
    {
        self.cap
    }

    /// The internal invariant: the list is well formed, its keys are
    /// distinct, and it holds no more entries than the capacity.
    pub closed spec fn wf(&self) -> bool {
        &&& self.list.wf()
        &&& model::keys_unique(self.list@)
        &&& self.list@.len() <= self.cap
    }

    /// A well-formed cache holds entries with distinct keys, no more of them
    /// than its capacity.
    pub proof fn lemma_wf(&self)
        requires
            self.wf(),
        ensures
            model::keys_unique(self@),
            self@.len() <= self.cap(),
    {
    }
}

} // verus!
