//! Grouping weighted entries by key.

use vstd::prelude::*;

verus! {

/// The first position of `x` in `s`, or -1 if `x` does not occur.
pub open spec fn index_in<K>(s: Seq<K>, x: K) -> int
    decreases s.len(),
{
    if s.len() == 0 {
        -1
    } else {
        let p = index_in(s.drop_last(), x);
        if p >= 0 {
            p
        } else if s.last() == x {
            s.len() - 1
        } else {
            -1
        }
    }
}

pub proof fn lemma_index_in<K>(s: Seq<K>, x: K)
    ensures
        -1 <= index_in(s, x) < s.len(),
        index_in(s, x) >= 0 ==> s[index_in(s, x)] == x,
        forall|j: int| 0 <= j < s.len() && (j < index_in(s, x) || index_in(s, x) == -1) ==> s[j]
            != x,
    decreases s.len(),
{
    if s.len() > 0 {
        let f = s.drop_last();
        lemma_index_in(f, x);
        assert forall|j: int|
            0 <= j < s.len() && (j < index_in(s, x) || index_in(s, x) == -1) implies s[j] != x by {
            if j < f.len() {
                assert(s[j] == f[j]);
            }
        }
    }
}

/// The first position of `x` in `s` is `k` when `s[k]` is `x` and no earlier
/// element is.
pub proof fn lemma_index_in_first<K>(s: Seq<K>, x: K, k: int)
    requires
        0 <= k <= s.len(),
        forall|j: int| 0 <= j < k ==> s[j] != x,
        k < s.len() ==> s[k] == x,
    ensures
        index_in(s, x) == (if k < s.len() {
            k
        } else {
            -1
        }),
{
    lemma_index_in(s, x);
}

/// The keys of a tally.
pub open spec fn tally_keys<K, V>(t: Seq<(K, V, int)>) -> Seq<K> {
    t.map_values(|q: (K, V, int)| q.0)
}

/// Groups weighted entries `(key, value, weight)` by key, in the order of each
/// key's first entry: each group keeps the value of that first entry and sums
/// the weights of all its entries.
pub open spec fn tally<K, V>(s: Seq<(K, V, int)>) -> Seq<(K, V, int)>
    decreases s.len(),
{
    if s.len() == 0 {
        Seq::empty()
    } else {
        let t = tally(s.drop_last());
        let e = s.last();
        let p = index_in(tally_keys(t), e.0);
        if p >= 0 {
            t.update(p, (t[p].0, t[p].1, t[p].2 + e.2))
        } else {
            t.push(e)
        }
    }
}

} // verus!
