use std::hash::{BuildHasher, Hash};
use vstd::prelude::*;

verus! {

use crate::LruCache;
use crate::model::{contains_key, lemma_index_of, lemma_remove_unique, lookup, without};

impl<K: Hash + Eq, V, S: BuildHasher> LruCache<K, V, S> {
    /// Removes the entry of `k` and returns its value, or `None` if the
    /// cache does not hold it.
    pub fn pop(&mut self, k: &K) -> (r: Option<V>)
        requires
            old(self).wf(),
            vstd::laws_eq::obeys_concrete_eq::<K>(),
        ensures
            final(self).wf(),
            final(self).cap() == old(self).cap(),
            final(self)@ == without(old(self)@, *k),
            r == lookup(old(self)@, *k),
    {
        match self.pop_entry(k) {
            Some(e) => Some(e.1),
            None => None,
        }
    }

    /// Removes the entry of `k` and returns its key and value, or `None` if
    /// the cache does not hold it.
    pub fn pop_entry(&mut self, k: &K) -> (r: Option<(K, V)>)
        requires
            old(self).wf(),
            vstd::laws_eq::obeys_concrete_eq::<K>(),
        ensures
            final(self).wf(),
            final(self).cap() == old(self).cap(),
            final(self)@ == without(old(self)@, *k),
            match r {
                Some(e) => e.0 == *k && lookup(old(self)@, *k) == Some(e.1),
                None => !contains_key(old(self)@, *k),
            },
    {
        match self.list.find(k) {
            Some(s) => {
                proof {
                    self.list.lemma_pos_in_range(s as int);
                    lemma_index_of(self@, self.list.pos(s as int));
                    lemma_remove_unique(self@, self.list.pos(s as int));
                }
                Some(self.list.remove(s))
            },
            None => None,
        }
    }

    /// Removes the least recently used entry and returns it, or `None` if
    /// the cache is empty.
    pub fn pop_lru(&mut self) -> (r: Option<(K, V)>)
        requires
            old(self).wf(),
        ensures
            final(self).wf(),
            final(self).cap() == old(self).cap(),
            old(self)@.len() == 0 ==> r == None::<(K, V)> && final(self)@ == old(self)@,
            old(self)@.len() > 0 ==> r == Some(old(self)@.last()) && final(self)@ == old(self)@.drop_last(),
    {
        self.remove_last()
    }

    /// Removes the most recently used entry and returns it, or `None` if
    /// the cache is empty.
    pub fn pop_mru(&mut self) -> (r: Option<(K, V)>)
        requires
            old(self).wf(),
        ensures
            final(self).wf(),
            final(self).cap() == old(self).cap(),
            old(self)@.len() == 0 ==> r == None::<(K, V)> && final(self)@ == old(self)@,
            old(self)@.len() > 0 ==> r == Some(old(self)@[0]) && final(self)@ == old(self)@.drop_first(),
    {
        self.remove_first()
    }
}

} // verus!
