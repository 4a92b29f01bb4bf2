use vstd::prelude::*;

verus! {

use crate::LruCache;
use crate::model::{
    contains_key, index_of, is_full, lemma_index_of, lemma_to_back_unique, lemma_to_front_unique,
    lemma_prefix_unique, lemma_remove_unique, lemma_with_new_unique, touched, demoted, with_new,
};

impl<K, V, S> LruCache<K, V, S> {
    /// Adds an entry with a key that the cache does not hold, as the most
    /// recently used one. When the cache is full, the slot of the least
    /// recently used entry is reused for it and that entry is returned.
    pub(crate) fn insert_new(&mut self, k: K, v: V) -> (r: Option<(K, V)>)
        requires
            old(self).wf(),
            old(self).cap() > 0,
            !contains_key(old(self)@, k),
        ensures
            final(self).wf(),
            final(self).cap() == old(self).cap(),
            final(self)@ == with_new(old(self)@, old(self).cap() as nat, k, v),
            r == (if is_full(old(self)@, old(self).cap() as nat) {
                Some(old(self)@.last())
            } else {
                None
            }),
    {
        proof { lemma_with_new_unique(self@, self.cap as nat, k, v); }
        if self.list.len() == self.cap {
            let t = self.list.back_slot();
            let ghost before = self@;
            let replaced = self.list.replace(t, k, v);
            self.list.move_to_front(t);
            assert(self@ =~= with_new(before, self.cap as nat, k, v));
            Some(replaced)
        } else {
            self.list.push_front(k, v);
            None
        }
    }

    /// Finds the entry of `k` and makes it the most recently used; returns
    /// its slot, which is then at the front.
    pub(crate) fn touch(&mut self, k: &K) -> (r: Option<usize>)
        where
            K: PartialEq,
        requires
            old(self).wf(),
            vstd::laws_eq::obeys_concrete_eq::<K>(),
        ensures
            final(self).wf(),
            final(self).cap() == old(self).cap(),
            final(self)@ == touched(old(self)@, *k),
            match r {
                Some(s) => {
                    &&& contains_key(old(self)@, *k)
                    &&& s < final(self)@.len()
                    &&& final(self).list.pos(s as int) == 0
                    &&& final(self)@[0] == old(self)@[index_of(old(self)@, *k)]
                },
                None => !contains_key(old(self)@, *k),
            },
    {
        match self.list.find(k) {
            Some(s) => {
                proof {
                    self.list.lemma_pos_in_range(s as int);
                    lemma_index_of(self@, self.list.pos(s as int));
                    lemma_to_front_unique(self@, self.list.pos(s as int));
                }
                self.list.move_to_front(s);
                Some(s)
            },
            None => None,
        }
    }

    /// Finds the entry of `k` and makes it the least recently used.
    pub(crate) fn untouch(&mut self, k: &K) -> (r: bool)
        where
            K: PartialEq,
        requires
            old(self).wf(),
            vstd::laws_eq::obeys_concrete_eq::<K>(),
        ensures
            final(self).wf(),
            final(self).cap() == old(self).cap(),
            final(self)@ == demoted(old(self)@, *k),
            r == contains_key(old(self)@, *k),
    {
        match self.list.find(k) {
            Some(s) => {
                proof {
                    self.list.lemma_pos_in_range(s as int);
                    lemma_index_of(self@, self.list.pos(s as int));
                    lemma_to_back_unique(self@, self.list.pos(s as int));
                }
                self.list.move_to_back(s);
                true
            },
            None => false,
        }
    }

    /// Removes the most recently used entry, if any.
    pub(crate) fn remove_first(&mut self) -> (r: Option<(K, V)>)
        requires
            old(self).wf(),
        ensures
            final(self).wf(),
            final(self).cap() == old(self).cap(),
            old(self)@.len() == 0 ==> r == None::<(K, V)> && final(self)@ == old(self)@,
            old(self)@.len() > 0 ==> r == Some(old(self)@[0]) && final(self)@ == old(self)@.drop_first(),
    {
        if self.list.len() == 0 {
            return None;
        }
        let s = self.list.front_slot();
        proof {
            lemma_remove_unique(self@, 0);
            assert(self@.remove(0) =~= self@.drop_first());
        }
        Some(self.list.remove(s))
    }

    /// Removes the least recently used entry, if any.
    pub(crate) fn remove_last(&mut self) -> (r: Option<(K, V)>)
        requires
            old(self).wf(),
        ensures
            final(self).wf(),
            final(self).cap() == old(self).cap(),
            old(self)@.len() == 0 ==> r == None::<(K, V)> && final(self)@ == old(self)@,
            old(self)@.len() > 0 ==> r == Some(old(self)@.last()) && final(self)@ == old(self)@.drop_last(),
    {
        if self.list.len() == 0 {
            return None;
        }
        proof {
            lemma_prefix_unique(self@, self@.len() - 1);
            assert(self@.drop_last() == self@.subrange(0, self@.len() - 1));
        }
        Some(self.list.pop_back())
    }
}

} // verus!
