use std::collections::hash_map::RandomState;
use std::hash::{BuildHasher, Hash};
use vstd::prelude::*;

verus! {

use crate::LruCache;
use crate::dll::DList;

/// Calls `RandomState::new`, which builds a hash builder from keys that the
/// process draws at random. Nothing is stated of the result.
#[verifier::external_body]
fn new_random_state() -> RandomState {
    RandomState::new()
}

impl<K: Hash + Eq, V> LruCache<K, V> {
    /// Creates a new LRU cache that holds at most `cap` items.
    pub fn new(cap: usize) -> (r: LruCache<K, V>)
        ensures
            r.wf(),
            r@ == Seq::<(K, V)>::empty(),
            r.cap() == cap,
    {
        LruCache::construct(cap, new_random_state())
    }

    /// Creates a new LRU cache that never evicts items on its own.
    pub fn unbounded() -> (r: LruCache<K, V>)
        ensures
            r.wf(),
            r@ == Seq::<(K, V)>::empty(),
            r.cap() == usize::MAX,
    {
        LruCache::construct(usize::MAX, new_random_state())
    }
}

impl<K: Hash + Eq, V, S: BuildHasher> LruCache<K, V, S> {
    /// Creates a new LRU cache that holds at most `cap` items and keeps the
    /// given hash builder.
    pub fn with_hasher(cap: usize, hash_builder: S) -> (r: LruCache<K, V, S>)
        ensures
            r.wf(),
            r@ == Seq::<(K, V)>::empty(),
            r.cap() == cap,
    {
        LruCache::construct(cap, hash_builder)
    }

    /// Creates a new LRU cache that never evicts items on its own and keeps
    /// the given hash builder.
    pub fn unbounded_with_hasher(hash_builder: S) -> (r: LruCache<K, V, S>)
        ensures
            r.wf(),
            r@ == Seq::<(K, V)>::empty(),
            r.cap() == usize::MAX,
    {
        LruCache::construct(usize::MAX, hash_builder)
    }

    /// Creates an empty cache with the given capacity.
    pub(crate) fn construct(cap: usize, hash_builder: S) -> (r: LruCache<K, V, S>)
        ensures
            r.wf(),
            r@ == Seq::<(K, V)>::empty(),
            r.cap() == cap,
    {
        LruCache { list: DList::new(), cap, hash_builder }
    }
}

} // verus!
