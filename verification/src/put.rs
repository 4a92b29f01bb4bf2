use std::hash::{BuildHasher, Hash};
use vstd::prelude::*;

verus! {

use crate::LruCache;
use crate::model::{contains_key, index_of, lemma_index_of, lemma_put_present_unique, lookup, push_result, put_entries};

impl<K: Hash + Eq, V, S: BuildHasher> LruCache<K, V, S> {
    /// Puts a key-value pair into the cache. If the key is already there, its
    /// value is updated and the old value returned; otherwise `None` is
    /// returned, and when the cache is full its least recently used entry
    /// leaves. Either way the key becomes the most recently used. The
    /// capacity must not be zero.
    pub fn put(&mut self, k: K, v: V) -> (r: Option<V>)
        requires
            old(self).wf(),
            old(self).cap() > 0,
            vstd::laws_eq::obeys_concrete_eq::<K>(),
        ensures
            final(self).wf(),
            final(self).cap() == old(self).cap(),
            final(self)@ == put_entries(old(self)@, old(self).cap() as nat, k, v),
            r == lookup(old(self)@, k),
    {
        match self.capturing_put(k, v, false) {
            Some(e) => Some(e.1),
            None => None,
        }
    }

    /// Pushes a key-value pair into the cache. If the key is already there,
    /// or another entry leaves because the cache is full, the old pair is
    /// returned; otherwise `None` is returned. The capacity must not be zero.
    pub fn push(&mut self, k: K, v: V) -> (r: Option<(K, V)>)
        requires
            old(self).wf(),
            old(self).cap() > 0,
            vstd::laws_eq::obeys_concrete_eq::<K>(),
        ensures
            final(self).wf(),
            final(self).cap() == old(self).cap(),
            final(self)@ == put_entries(old(self)@, old(self).cap() as nat, k, v),
            r == push_result(old(self)@, old(self).cap() as nat, k),
    {
        self.capturing_put(k, v, true)
    }

    /// Adds or updates an entry. Returns the replaced pair of a present key;
    /// the pair that left to make room only when `capture` is set.
    pub(crate) fn capturing_put(&mut self, k: K, v: V, capture: bool) -> (r: Option<(K, V)>)
        requires
            old(self).wf(),
            old(self).cap() > 0,
            vstd::laws_eq::obeys_concrete_eq::<K>(),
        ensures
            final(self).wf(),
            final(self).cap() == old(self).cap(),
            final(self)@ == put_entries(old(self)@, old(self).cap() as nat, k, v),
            contains_key(old(self)@, k) ==> r == Some((k, old(self)@[index_of(old(self)@, k)].1)),
            !contains_key(old(self)@, k) ==> r == (if capture {
                push_result(old(self)@, old(self).cap() as nat, k)
            } else {
                None
            }),
    {
        match self.list.find(&k) {
            Some(s) => {
                proof {
                    self.list.lemma_pos_in_range(s as int);
                    lemma_index_of(self@, self.list.pos(s as int));
                    lemma_put_present_unique(self@, k, v);
                }
                let ghost before = self@;
                let old_v = self.list.swap_val(s, v);
                self.list.move_to_front(s);
                assert(self@ =~= put_entries(before, self.cap as nat, k, v));
                Some((k, old_v))
            },
            None => {
                let replaced = self.insert_new(k, v);
                if capture {
                    replaced
                } else {
                    None
                }
            },
        }
    }
}

} // verus!
