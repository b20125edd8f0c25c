//! Stable ordering of positions by descending integer keys.

use vstd::prelude::*;

verus! {

/// Whether position `i` comes before position `j` when positions are listed
/// from the largest key to the smallest, equal keys keeping their order.
pub open spec fn precedes(keys: Seq<i128>, i: int, j: int) -> bool {
    keys[i] > keys[j] || (keys[i] == keys[j] && i < j)
}

/// Whether position `i` occurs in `order`.
pub open spec fn occurs(order: Seq<usize>, i: int) -> bool {
    exists|a: int| 0 <= a < order.len() && order[a] == i
}

/// `order` lists every position of `keys` exactly once, largest key first,
/// positions with equal keys in increasing order.
pub open spec fn is_stable_desc_order(keys: Seq<i128>, order: Seq<usize>) -> bool {
    &&& order.len() == keys.len()
    &&& forall|a: int| 0 <= a < order.len() ==> order[a] < keys.len()
    &&& forall|i: int| 0 <= i < keys.len() ==> #[trigger] occurs(order, i)
    &&& forall|a: int, b: int|
        0 <= a < b < order.len() ==> precedes(keys, order[a] as int, order[b] as int)
}

/// The stable descending order of `keys` (there is exactly one, see
/// [`lemma_stable_desc_order_unique`]).
pub open spec fn stable_desc_order(keys: Seq<i128>) -> Seq<usize> {
    choose|order: Seq<usize>| is_stable_desc_order(keys, order)
}

/// `items` listed by descending key, items with equal keys in their order.
pub open spec fn sorted_desc<A>(items: Seq<A>, keys: Seq<i128>) -> Seq<A> {
    stable_desc_order(keys).map_values(|j: usize| items[j as int])
}

proof fn lemma_prefix_agrees(keys: Seq<i128>, o1: Seq<usize>, o2: Seq<usize>, a: int)
    requires
        is_stable_desc_order(keys, o1),
        is_stable_desc_order(keys, o2),
        0 <= a < o1.len(),
    ensures
        forall|b: int| 0 <= b <= a ==> o1[b] == o2[b],
    decreases a,
{
    if a > 0 {
        lemma_prefix_agrees(keys, o1, o2, a - 1);
    }
    let x = o1[a];
    let y = o2[a];
    if x != y {
        assert(occurs(o2, x as int));
        assert(occurs(o1, y as int));
        let c = choose|c: int| 0 <= c < o2.len() && o2[c] == x;
        let d = choose|d: int| 0 <= d < o1.len() && o1[d] == y;
        if c < a {
            assert(o1[c] == x);
            assert(precedes(keys, o1[c] as int, o1[a] as int));
        }
        if d < a {
            assert(o2[d] == y);
            assert(precedes(keys, o2[d] as int, o2[a] as int));
        }
        assert(precedes(keys, y as int, x as int));
        assert(precedes(keys, x as int, y as int));
    }
}

/// There is only one stable descending order of a sequence of keys.
pub proof fn lemma_stable_desc_order_unique(keys: Seq<i128>, o1: Seq<usize>, o2: Seq<usize>)
    requires
        is_stable_desc_order(keys, o1),
        is_stable_desc_order(keys, o2),
    ensures
        o1 == o2,
{
    if o1.len() > 0 {
        lemma_prefix_agrees(keys, o1, o2, o1.len() - 1);
    }
    assert(o1 =~= o2);
}

proof fn lemma_keys_non_increasing(keys: Seq<i128>, order: Seq<usize>, a: int, b: int)
    requires
        forall|x: int, y: int|
            0 <= x < y < order.len() ==> precedes(keys, order[x] as int, order[y] as int),
        0 <= a <= b < order.len(),
    ensures
        keys[order[a] as int] >= keys[order[b] as int],
{
    if a < b {
        assert(precedes(keys, order[a] as int, order[b] as int));
    }
}

/// The positions of `keys`, largest key first, equal keys in their order.
pub fn stable_desc_order_of(keys: &Vec<i128>) -> (order: Vec<usize>)
    ensures
        is_stable_desc_order(keys@, order@),
        order@ == stable_desc_order(keys@),
{
    let mut order: Vec<usize> = Vec::new();
    let mut m: usize = 0;
    while m < keys.len()
        invariant
            m <= keys.len(),
            order.len() == m,
            forall|a: int| 0 <= a < order.len() ==> order[a] < m,
            forall|i: int| 0 <= i < m ==> #[trigger] occurs(order@, i),
            forall|a: int, b: int|
                0 <= a < b < order.len() ==> precedes(keys@, order[a] as int, order[b] as int),
        decreases keys.len() - m,
    {
        let mut p: usize = 0;
        while p < order.len() && keys[order[p]] >= keys[m]
            invariant
                p <= order.len(),
                order.len() == m,
                m < keys.len(),
                forall|a: int| 0 <= a < order.len() ==> order[a] < m,
                forall|a: int| 0 <= a < p ==> keys@[order[a] as int] >= keys@[m as int],
            decreases order.len() - p,
        {
            p += 1;
        }
        let ghost old_order = order@;
        proof {
            assert forall|c: int| p <= c < old_order.len() implies keys@[old_order[c] as int]
                < keys@[m as int] by {
                lemma_keys_non_increasing(keys@, old_order, p as int, c);
            }
        }
        order.insert(p, m);
        proof {
            let new_order = order@;
            assert forall|i: int| 0 <= i < m + 1 implies #[trigger] occurs(new_order, i) by {
                if i == m {
                    assert(new_order[p as int] == i);
                } else {
                    assert(occurs(old_order, i));
                    let a = choose|a: int| 0 <= a < old_order.len() && old_order[a] == i;
                    if a < p {
                        assert(new_order[a] == i);
                    } else {
                        assert(new_order[a + 1] == i);
                    }
                }
            }
            assert forall|a: int, b: int| 0 <= a < b < new_order.len() implies precedes(
                keys@,
                new_order[a] as int,
                new_order[b] as int,
            ) by {
                if b < p {
                    assert(new_order[a] == old_order[a] && new_order[b] == old_order[b]);
                } else if b == p {
                    assert(new_order[a] == old_order[a]);
                } else if a < p {
                    assert(new_order[a] == old_order[a] && new_order[b] == old_order[b - 1]);
                } else if a == p {
                    assert(new_order[b] == old_order[b - 1]);
                } else {
                    assert(new_order[a] == old_order[a - 1] && new_order[b] == old_order[b - 1]);
                }
            }
        }
        m += 1;
    }
    proof {
        lemma_stable_desc_order_unique(keys@, order@, stable_desc_order(keys@));
    }
    order
}

} // verus!
