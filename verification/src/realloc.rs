use std::hash::{BuildHasher, Hash};
use vstd::prelude::*;

verus! {

use crate::LruCache;
use crate::model::lemma_prefix_unique;

impl<K: Hash + Eq, V, S: BuildHasher> LruCache<K, V, S> {
    /// Changes the capacity. When the cache holds more entries than the new
    /// capacity, the least recently used ones leave until it does not.
    pub fn resize(&mut self, cap: usize)
        requires
            old(self).wf(),
        ensures
            final(self).wf(),
            final(self).cap() == cap,
            final(self)@ == old(self)@.subrange(
                0,
                if old(self)@.len() <= cap { old(self)@.len() as int } else { cap as int },
            ),
    {
        if cap == self.cap {
            assert(self@ =~= self@.subrange(0, self@.len() as int));
            return;
        }
        let ghost start = self@;
        while self.list.len() > cap
            invariant
                self.list.wf(),
                crate::model::keys_unique(self.list@),
                self@ == start.subrange(0, self@.len() as int),
                self@.len() <= start.len(),
                cap <= self@.len() || self@.len() == start.len(),
            decreases self@.len(),
        {
            proof {
                lemma_prefix_unique(self@, self@.len() - 1);
                assert(self@.drop_last() =~= self@.subrange(0, self@.len() - 1));
            }
            let _ = self.list.pop_back();
            assert(self@ =~= start.subrange(0, self@.len() as int));
        }
        self.cap = cap;
    }

    /// Removes every entry.
    pub fn clear(&mut self)
        requires
            old(self).wf(),
        ensures
            final(self).wf(),
            final(self).cap() == old(self).cap(),
            final(self)@ == Seq::<(K, V)>::empty(),
    {
        self.list.clear();
    }
}

} // verus!
