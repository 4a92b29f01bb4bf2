use std::hash::{BuildHasher, Hash};
use vstd::prelude::*;

verus! {

use crate::LruCache;
use crate::laws::law_put_then_get;
use crate::model::{clones_of, put_all};

impl<K: Hash + Eq + Clone, V: Clone, S: BuildHasher + Clone> LruCache<K, V, S> {
    /// A cache with the same capacity and a clone of the hash builder, into
    /// which clones of the entries are pushed, least recently used first.
    pub fn clone(&self) -> (r: Self)
        requires
            self.wf(),
            vstd::laws_eq::obeys_concrete_eq::<K>(),
        ensures
            r.wf(),
            r.cap() == self.cap(),
            exists|ks: Seq<(K, V)>| clones_of(self@, ks) && r@ == put_all(self.cap() as nat, ks),
    {
        let mut r = LruCache::construct(self.cap, self.hash_builder.clone());
        let n = self.list.len();
        let ghost cap = self.cap as nat;
        let ghost mut ks: Seq<(K, V)> = Seq::empty();
        if n == 0 {
            assert(r@ =~= put_all(cap, ks));
            assert(clones_of(self@, ks));
            return r;
        }
        let mut s = self.list.back_slot();
        let mut i: usize = n;
        while i > 0
            invariant
                self.wf(),
                vstd::laws_eq::obeys_concrete_eq::<K>(),
                n == self@.len(),
                n > 0,
                i <= n,
                cap == self.cap,
                r.wf(),
                r.cap() == self.cap(),
                ks.len() == n - i,
                forall|j: int|
                    0 <= j < ks.len() ==> vstd::pervasive::cloned(self@[i + j].0, #[trigger] ks[j].0)
                        && vstd::pervasive::cloned(self@[i + j].1, ks[j].1),
                r@ == put_all(cap, ks),
                i > 0 ==> s < n && self.list.pos(s as int) == i - 1,
            decreases i,
        {
            let key = self.list.key_at(s).clone();
            assert(vstd::pervasive::strictly_cloned(self@[i - 1].0, key));
            let val = self.list.val_at(s).clone();
            assert(vstd::pervasive::strictly_cloned(self@[i - 1].1, val));
            proof {
                r.lemma_wf();
                law_put_then_get(r@, cap, key, val);
            }
            let ghost old_ks = ks;
            proof {
                ks = seq![(key, val)] + old_ks;
                assert(ks.drop_first() =~= old_ks);
            }
            let _ = r.capturing_put(key, val, false);
            if i > 1 {
                s = self.list.prev_slot(s);
            }
            i = i - 1;
            assert forall|j: int|
                0 <= j < ks.len() implies vstd::pervasive::cloned(self@[i + j].0, #[trigger] ks[j].0)
                    && vstd::pervasive::cloned(self@[i + j].1, ks[j].1) by {
                if j > 0 {
                    assert(ks[j] == old_ks[j - 1]);
                    assert(i + j == (i + 1) + (j - 1));
                } else {
                    assert(ks[0] == (key, val));
                }
            }
        }
        assert(clones_of(self@, ks));
        assert(r@ == put_all(self.cap() as nat, ks));
        r
    }
}

} // verus!
