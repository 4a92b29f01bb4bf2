use std::hash::{BuildHasher, Hash};
use vstd::prelude::*;

verus! {

use crate::LruCache;
use crate::model::{lookup, touched};

impl<K: Hash + Eq, V, S: BuildHasher> LruCache<K, V, S> {
    /// Returns the value of `k`, or `None` if the cache does not hold it.
    /// A found key becomes the most recently used.
    pub fn get<'a>(&'a mut self, k: &K) -> (r: Option<&'a V>)
        requires
            old(self).wf(),
            vstd::laws_eq::obeys_concrete_eq::<K>(),
        ensures
            final(self).wf(),
            final(self).cap() == old(self).cap(),
            final(self)@ == touched(old(self)@, *k),
            match r {
                Some(v) => lookup(old(self)@, *k) == Some(*v),
                None => lookup(old(self)@, *k) == None::<V>,
            },
    {
        match self.touch(k) {
            Some(s) => Some(self.list.val_at(s)),
            None => None,
        }
    }

    /// Returns a mutable reference to the value of `k`, or `None` if the
    /// cache does not hold it. A found key becomes the most recently used.
    pub fn get_mut<'a>(&'a mut self, k: &K) -> (r: Option<&'a mut V>)
        requires
            old(self).wf(),
            vstd::laws_eq::obeys_concrete_eq::<K>(),
        ensures
            final(self).wf(),
            final(self).cap() == old(self).cap(),
            match r {
                Some(v) => {
                    &&& lookup(old(self)@, *k) == Some(*v)
                    &&& final(self)@ == touched(old(self)@, *k).update(0, (*k, *final(v)))
                },
                None => {
                    &&& lookup(old(self)@, *k) == None::<V>
                    &&& final(self)@ == old(self)@
                },
            },
    {
        match self.touch(k) {
            Some(s) => {
                proof {
                    crate::model::lemma_update_value_unique(self@, 0, self@[0].1);
                }
                let r = self.list.val_mut(s);
                proof {
                    crate::model::lemma_update_value_unique(touched(old(self)@, *k), 0, *final(r));
                }
                Some(r)
            },
            None => None,
        }
    }

    /// Returns the key and value of `k`, or `None` if the cache does not hold
    /// it. A found key becomes the most recently used.
    pub fn get_key_value<'a>(&'a mut self, k: &K) -> (r: Option<(&'a K, &'a V)>)
        requires
            old(self).wf(),
            vstd::laws_eq::obeys_concrete_eq::<K>(),
        ensures
            final(self).wf(),
            final(self).cap() == old(self).cap(),
            final(self)@ == touched(old(self)@, *k),
            match r {
                Some(e) => *e.0 == *k && lookup(old(self)@, *k) == Some(*e.1),
                None => lookup(old(self)@, *k) == None::<V>,
            },
    {
        match self.touch(k) {
            Some(s) => Some((self.list.key_at(s), self.list.val_at(s))),
            None => None,
        }
    }

    /// Returns the key of `k` and a mutable reference to its value, or
    /// `None` if the cache does not hold it. A found key becomes the most
    /// recently used.
    pub fn get_key_value_mut<'a>(&'a mut self, k: &K) -> (r: Option<(&'a K, &'a mut V)>)
        requires
            old(self).wf(),
            vstd::laws_eq::obeys_concrete_eq::<K>(),
        ensures
            final(self).wf(),
            final(self).cap() == old(self).cap(),
            match r {
                Some(e) => {
                    &&& *e.0 == *k
                    &&& lookup(old(self)@, *k) == Some(*e.1)
                    &&& final(self)@ == touched(old(self)@, *k).update(0, (*k, *final(e.1)))
                },
                None => {
                    &&& lookup(old(self)@, *k) == None::<V>
                    &&& final(self)@ == old(self)@
                },
            },
    {
        match self.touch(k) {
            Some(s) => {
                let r = self.list.entry_mut(s);
                proof {
                    crate::model::lemma_update_value_unique(touched(old(self)@, *k), 0, *final(r.1));
                }
                Some(r)
            },
            None => None,
        }
    }
}

} // verus!
