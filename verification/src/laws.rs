//! Properties of the cache model that span operations. Each function proves
//! one law over the model functions that the operations' contracts use.

use vstd::prelude::*;

verus! {

use crate::model::{
    contains_key, demoted, index_of, keys_unique, lemma_index_of, lemma_put_present_unique,
    lemma_remove_unique, lemma_to_back_unique, lemma_to_front_unique, lemma_with_new_unique, lookup,
    is_full, lemma_prefix_unique, push_result, put_all, put_entries, to_back,
    to_front, touched, with_new, without,
};

/// If every entry of `t` with key `k` is an entry of `s` and every entry of
/// `s` with key `k` is an entry of `t`, both map `k` alike.
proof fn lemma_lookup_transfer<K, V>(
    s: Seq<(K, V)>,
    t: Seq<(K, V)>,
    k: K,
    f: spec_fn(int) -> int,
    g: spec_fn(int) -> int,
)
    requires
        keys_unique(s),
        keys_unique(t),
        forall|j: int| 0 <= j < t.len() && #[trigger] t[j].0 == k ==> 0 <= f(j) < s.len() && s[f(j)] == t[j],
        forall|i: int| 0 <= i < s.len() && #[trigger] s[i].0 == k ==> 0 <= g(i) < t.len() && t[g(i)] == s[i],
    ensures
        lookup(t, k) == lookup(s, k),
        contains_key(t, k) == contains_key(s, k),
{
    if contains_key(s, k) {
        let i = index_of(s, k);
        lemma_index_of(s, i);
        lemma_index_of(t, g(i));
    } else if contains_key(t, k) {
        let j = index_of(t, k);
        assert(s[f(j)].0 == k);
    }
}

/// After `put(k, v)` the cache maps `k` to `v`, `k` is the most recently
/// used key, the keys stay distinct and the entries stay within the capacity.
pub proof fn law_put_then_get<K, V>(s: Seq<(K, V)>, cap: nat, k: K, v: V)
    requires
        keys_unique(s),
        s.len() <= cap,
        cap > 0,
    ensures
        lookup(put_entries(s, cap, k, v), k) == Some(v),
        put_entries(s, cap, k, v)[0] == (k, v),
        keys_unique(put_entries(s, cap, k, v)),
        put_entries(s, cap, k, v).len() <= cap,
{
    if contains_key(s, k) {
        lemma_put_present_unique(s, k, v);
    } else {
        lemma_with_new_unique(s, cap, k, v);
    }
    lemma_index_of(put_entries(s, cap, k, v), 0);
}

/// `put(k, v)` leaves the value of every other key as it was, except the
/// least recently used key when `k` was new and the cache full: that one
/// leaves.
pub proof fn law_put_keeps_other_keys<K, V>(s: Seq<(K, V)>, cap: nat, k: K, v: V, other: K)
    requires
        keys_unique(s),
        s.len() <= cap,
        cap > 0,
        other != k,
    ensures
        lookup(put_entries(s, cap, k, v), other) == if !contains_key(s, k) && is_full(s, cap)
            && s.last().0 == other {
            None
        } else {
            lookup(s, other)
        },
{
    law_put_then_get(s, cap, k, v);
    let t = put_entries(s, cap, k, v);
    if contains_key(s, k) {
        let i0 = index_of(s, k);
        lemma_index_of(s, i0);
        let f = |j: int| if j == 0 { i0 } else if j - 1 < i0 { j - 1 } else { j };
        let g = |i: int| if i == i0 { 0 } else if i < i0 { i + 1 } else { i };
        assert forall|j: int| 0 <= j < t.len() && #[trigger] t[j].0 == other implies 0 <= f(j) < s.len() && s[f(j)] == t[j] by {
            if j == 0 {
                assert(t[0].0 == k);
            }
        }
        lemma_lookup_transfer(s, t, other, f, g);
    } else if is_full(s, cap) {
        let n = s.len() as int;
        let f = |j: int| j - 1;
        let g = |i: int| i + 1;
        if s.last().0 == other {
            lemma_index_of(s, n - 1);
            if contains_key(t, other) {
                let j = index_of(t, other);
                assert(t[j] == s[j - 1]);
                assert(j - 1 != n - 1);
            }
        } else {
            assert forall|i: int| 0 <= i < s.len() && #[trigger] s[i].0 == other implies 0 <= g(i) < t.len() && t[g(i)] == s[i] by {
                assert(i != n - 1);
            }
            lemma_lookup_transfer(s, t, other, f, g);
        }
    } else {
        let f = |j: int| j - 1;
        let g = |i: int| i + 1;
        lemma_lookup_transfer(s, t, other, f, g);
    }
}

/// `put(k, v)` keeps the number of entries when `k` is held or the cache is
/// full, and adds one otherwise.
pub proof fn law_put_len<K, V>(s: Seq<(K, V)>, cap: nat, k: K, v: V)
    requires
        keys_unique(s),
        s.len() <= cap,
        cap > 0,
    ensures
        put_entries(s, cap, k, v).len() == if contains_key(s, k) || is_full(s, cap) {
            s.len()
        } else {
            s.len() + 1
        },
{
    if contains_key(s, k) {
        lemma_put_present_unique(s, k, v);
    }
}

/// Using a key (`get`, `promote`) or demoting it changes only the order of
/// use: every key keeps its value, and the keys stay distinct.
pub proof fn law_reorder_keeps_values<K, V>(s: Seq<(K, V)>, k: K, other: K)
    requires
        keys_unique(s),
    ensures
        lookup(touched(s, k), other) == lookup(s, other),
        lookup(demoted(s, k), other) == lookup(s, other),
        keys_unique(touched(s, k)),
        keys_unique(demoted(s, k)),
        touched(s, k).len() == s.len(),
        demoted(s, k).len() == s.len(),
{
    if contains_key(s, k) {
        let i0 = index_of(s, k);
        lemma_to_front_unique(s, i0);
        lemma_to_back_unique(s, i0);
        let n = s.len() as int;
        let t = to_front(s, i0);
        let f = |j: int| if j == 0 { i0 } else if j - 1 < i0 { j - 1 } else { j };
        let g = |i: int| if i == i0 { 0 } else if i < i0 { i + 1 } else { i };
        lemma_lookup_transfer(s, t, other, f, g);
        let b = to_back(s, i0);
        let fb = |j: int| if j == n - 1 { i0 } else if j < i0 { j } else { j + 1 };
        let gb = |i: int| if i == i0 { n - 1 } else if i < i0 { i } else { i - 1 };
        lemma_lookup_transfer(s, b, other, fb, gb);
    }
}

/// After `get` or `promote` of a held key it is the most recently used, and
/// after `demote` the least recently used.
pub proof fn law_promote_front_demote_back<K, V>(s: Seq<(K, V)>, k: K)
    requires
        keys_unique(s),
        contains_key(s, k),
    ensures
        touched(s, k)[0].0 == k,
        demoted(s, k).last().0 == k,
{
    lemma_index_of(s, index_of(s, k));
}

/// After `pop(k)` the cache does not hold `k`, and every other key keeps its
/// value.
pub proof fn law_pop_removes<K, V>(s: Seq<(K, V)>, k: K, other: K)
    requires
        keys_unique(s),
        other != k,
    ensures
        !contains_key(without(s, k), k),
        lookup(without(s, k), other) == lookup(s, other),
        keys_unique(without(s, k)),
{
    if contains_key(s, k) {
        let i0 = index_of(s, k);
        lemma_index_of(s, i0);
        lemma_remove_unique(s, i0);
        let t = s.remove(i0);
        if contains_key(t, k) {
            let j = index_of(t, k);
            if j < i0 {
                assert(t[j] == s[j]);
            } else {
                assert(t[j] == s[j + 1]);
            }
        }
        let f = |j: int| if j < i0 { j } else { j + 1 };
        let g = |i: int| if i < i0 { i } else { i - 1 };
        lemma_lookup_transfer(s, t, other, f, g);
    }
}

/// `pop(k)` right after `put(k, v)` gives back `v`, and the cache then does
/// not hold `k`.
pub proof fn law_put_then_pop<K, V>(s: Seq<(K, V)>, cap: nat, k: K, v: V)
    requires
        keys_unique(s),
        s.len() <= cap,
        cap > 0,
    ensures
        lookup(put_entries(s, cap, k, v), k) == Some(v),
        !contains_key(without(put_entries(s, cap, k, v), k), k),
{
    law_put_then_get(s, cap, k, v);
    let t = put_entries(s, cap, k, v);
    if contains_key(t, k) {
        let i0 = index_of(t, k);
        lemma_index_of(t, i0);
        let u = t.remove(i0);
        if contains_key(u, k) {
            let j = index_of(u, k);
            if j < i0 {
                assert(u[j] == t[j]);
            } else {
                assert(u[j] == t[j + 1]);
            }
        }
    }
}

/// A cache whose capacity is `usize::MAX` never makes room: a new key goes
/// in front of all the entries it holds.
pub proof fn law_unbounded_keeps_all<K, V>(s: Seq<(K, V)>, k: K, v: V)
    requires
        s.len() < usize::MAX,
    ensures
        with_new(s, usize::MAX as nat, k, v) == seq![(k, v)] + s,
{
}


/// `push(k, v)` leaves the same entries as `put(k, v)`; where the key was
/// held, `put` returns the value of the pair that `push` returns, and
/// otherwise `None`.
pub proof fn law_push_agrees_with_put<K, V>(s: Seq<(K, V)>, cap: nat, k: K)
    ensures
        lookup(s, k) == if contains_key(s, k) {
            Some(push_result(s, cap, k).unwrap().1)
        } else {
            None::<V>
        },
        contains_key(s, k) ==> push_result(s, cap, k).unwrap().0 == k,
{
}

/// Removing the least or the most recently used entry keeps the keys
/// distinct and the entries within the capacity.
pub proof fn law_pops_keep_invariant<K, V>(s: Seq<(K, V)>, cap: nat)
    requires
        keys_unique(s),
        s.len() <= cap,
        s.len() > 0,
    ensures
        keys_unique(s.drop_last()),
        keys_unique(s.drop_first()),
        s.drop_last().len() <= cap,
        s.drop_first().len() <= cap,
{
    lemma_prefix_unique(s, s.len() - 1);
    assert(s.drop_last() =~= s.subrange(0, s.len() - 1));
    lemma_remove_unique(s, 0);
    assert(s.drop_first() =~= s.remove(0));
}

/// The entries left after `j` removals of the least recently used entry.
pub open spec fn after_pop_lru<K, V>(s: Seq<(K, V)>, j: nat) -> Seq<(K, V)>
    decreases j,
{
    if j == 0 || s.len() == 0 {
        s
    } else {
        after_pop_lru(s.drop_last(), (j - 1) as nat)
    }
}

/// Removing the least recently used entry `j` times leaves the `n - j` most
/// recently used entries, and the next removal gives the entry at position
/// `n - j - 1`: entries leave in the reverse of their order of use, and an
/// emptied cache stays empty.
pub proof fn law_pop_lru_order<K, V>(s: Seq<(K, V)>, j: nat)
    ensures
        j <= s.len() ==> after_pop_lru(s, j) == s.subrange(0, s.len() - j),
        j < s.len() ==> after_pop_lru(s, j).last() == s[s.len() - j - 1],
        j >= s.len() ==> after_pop_lru(s, j).len() == 0,
    decreases j,
{
    if j == 0 || s.len() == 0 {
        assert(s.subrange(0, s.len() as int) =~= s);
    } else {
        law_pop_lru_order(s.drop_last(), (j - 1) as nat);
        if j <= s.len() {
            assert(s.drop_last().subrange(0, s.drop_last().len() - (j - 1)) =~= s.subrange(0, s.len() - j));
        }
    }
}

/// Removing the most recently used entry right after `put` of a new key on
/// a cache with room gives back that key and value and the entries as they
/// were.
pub proof fn law_pop_mru_undoes_put<K, V>(s: Seq<(K, V)>, cap: nat, k: K, v: V)
    requires
        s.len() < cap,
        !contains_key(s, k),
    ensures
        put_entries(s, cap, k, v)[0] == (k, v),
        put_entries(s, cap, k, v).drop_first() == s,
{
    assert((seq![(k, v)] + s).drop_first() =~= s);
}

/// Putting entries with distinct keys, no more than the capacity, into an
/// empty cache, the last one first, gives exactly those entries: a clone
/// with exact clones of the keys and values holds what the original holds.
pub proof fn law_put_all_distinct<K, V>(cap: nat, ks: Seq<(K, V)>)
    requires
        keys_unique(ks),
        ks.len() <= cap,
    ensures
        put_all(cap, ks) == ks,
    decreases ks.len(),
{
    if ks.len() > 0 {
        let rest = ks.drop_first();
        lemma_remove_unique(ks, 0);
        assert(rest =~= ks.remove(0));
        law_put_all_distinct(cap, rest);
        assert(!contains_key(rest, ks[0].0)) by {
            if contains_key(rest, ks[0].0) {
                let i = index_of(rest, ks[0].0);
                assert(ks[i + 1].0 == ks[0].0);
            }
        }
        assert(seq![(ks[0].0, ks[0].1)] + rest =~= ks);
    }
}


/// What a new key does to the entries: on a full cache the least recently
/// used entry leaves and the length stays, otherwise every entry stays and
/// the length grows by one.
pub proof fn law_new_key_effect<K, V>(s: Seq<(K, V)>, cap: nat, k: K, v: V)
    requires
        keys_unique(s),
        s.len() <= cap,
        cap > 0,
        !contains_key(s, k),
    ensures
        is_full(s, cap) ==> {
            &&& put_entries(s, cap, k, v).len() == s.len()
            &&& !contains_key(put_entries(s, cap, k, v), s.last().0)
            &&& forall|i: int| 0 <= i < s.len() - 1 ==> contains_key(put_entries(s, cap, k, v), #[trigger] s[i].0)
        },
        !is_full(s, cap) ==> {
            &&& put_entries(s, cap, k, v).len() == s.len() + 1
            &&& forall|i: int| 0 <= i < s.len() ==> contains_key(put_entries(s, cap, k, v), #[trigger] s[i].0)
        },
{
    let t = put_entries(s, cap, k, v);
    let n = s.len() as int;
    if is_full(s, cap) {
        assert(t == seq![(k, v)] + s.drop_last());
        if contains_key(t, s.last().0) {
            let j = index_of(t, s.last().0);
            if j == 0 {
                assert(s[n - 1].0 == k);
                assert(contains_key(s, k));
            } else {
                assert(t[j] == s[j - 1]);
                assert(s[j - 1].0 == s[n - 1].0);
            }
        }
        assert forall|i: int| 0 <= i < s.len() - 1 implies contains_key(t, #[trigger] s[i].0) by {
            assert(t[i + 1] == s[i]);
        }
    } else {
        assert forall|i: int| 0 <= i < s.len() implies contains_key(t, #[trigger] s[i].0) by {
            assert(t[i + 1] == s[i]);
        }
    }
}

/// `push(k, v)` hands back the pair that the cache loses: the old pair of
/// a held key; for a new key, `None` exactly when no entry leaves (every
/// key stays and the length grows by one), and otherwise the entry that
/// leaves, which is the least recently used one.
pub proof fn law_push_hands_back_what_leaves<K, V>(s: Seq<(K, V)>, cap: nat, k: K, v: V)
    requires
        keys_unique(s),
        s.len() <= cap,
        cap > 0,
    ensures
        contains_key(s, k) ==> push_result(s, cap, k) == Some((k, lookup(s, k).unwrap())),
        !contains_key(s, k) ==> {
            &&& (push_result(s, cap, k) is None) <==> put_entries(s, cap, k, v).len() == s.len() + 1
            &&& (push_result(s, cap, k) is None) <==> (forall|i: int|
                0 <= i < s.len() ==> contains_key(put_entries(s, cap, k, v), #[trigger] s[i].0))
            &&& push_result(s, cap, k) is Some ==> {
                &&& s.contains(push_result(s, cap, k).unwrap())
                &&& !contains_key(put_entries(s, cap, k, v), push_result(s, cap, k).unwrap().0)
                &&& put_entries(s, cap, k, v).len() == s.len()
            }
            &&& s.len() >= cap ==> push_result(s, cap, k) == Some(s.last())
        },
{
    if !contains_key(s, k) {
        law_new_key_effect(s, cap, k, v);
        if is_full(s, cap) {
            let n = s.len() as int;
            assert(s[n - 1] == s.last());
            assert(s.contains(s.last()));
            assert(!(forall|i: int| 0 <= i < s.len() ==> contains_key(put_entries(s, cap, k, v), #[trigger] s[i].0)));
        }
    }
}

} // verus!
