use std::hash::{BuildHasher, Hash};
use vstd::prelude::*;

verus! {

use crate::LruCache;
use crate::model::{contains_key, demoted, touched};

impl<K: Hash + Eq, V, S: BuildHasher> LruCache<K, V, S> {
    /// Marks `k` as the most recently used key. Returns whether the cache
    /// holds it.
    pub fn promote(&mut self, k: &K) -> (r: bool)
        requires
            old(self).wf(),
            vstd::laws_eq::obeys_concrete_eq::<K>(),
        ensures
            final(self).wf(),
            final(self).cap() == old(self).cap(),
            final(self)@ == touched(old(self)@, *k),
            r == contains_key(old(self)@, *k),
    {
        match self.touch(k) {
            Some(_) => true,
            None => false,
        }
    }

    /// Marks `k` as the least recently used key. Returns whether the cache
    /// holds it.
    pub fn demote(&mut self, k: &K) -> (r: bool)
        requires
            old(self).wf(),
            vstd::laws_eq::obeys_concrete_eq::<K>(),
        ensures
            final(self).wf(),
            final(self).cap() == old(self).cap(),
            final(self)@ == demoted(old(self)@, *k),
            r == contains_key(old(self)@, *k),
    {
        self.untouch(k)
    }
}

} // verus!
