//! Rankings by key: the orders in which spectra, neighbours and clusters are
//! reported.
//!
//! Each item is known by its index and carries an integer key that orders it
//! (a larger key ranks first). Items with equal keys keep their index order,
//! as a stable sort keeps them.

use vstd::prelude::*;

verus! {

/// Item `a` ranks before item `b`: a larger key, or an equal key and a
/// smaller index.
pub open spec fn ranks_before(keys: Seq<i64>, a: int, b: int) -> bool {
    keys[a] > keys[b] || (keys[a] == keys[b] && a < b)
}

/// `order` lists indices of `keys`, each ranking before the ones after it.
pub open spec fn is_ranked(keys: Seq<i64>, order: Seq<usize>) -> bool {
    &&& forall|i: int| 0 <= i < order.len() ==> #[trigger] order[i] < keys.len()
    &&& forall|i: int, j: int|
        0 <= i < j < order.len() ==> ranks_before(keys, #[trigger] order[i] as int, #[trigger] order[j] as int)
}

/// `top` is ranked, and every index left out of it ranks after all of its
/// entries: `top` is the head of the ranking.
pub open spec fn is_top(keys: Seq<i64>, top: Seq<usize>) -> bool {
    &&& is_ranked(keys, top)
    &&& forall|j: usize, i: int|
        #![trigger top.contains(j), top[i]]
        j < keys.len() && !top.contains(j) && 0 <= i < top.len() ==> ranks_before(
            keys,
            top[i] as int,
            j as int,
        )
}

/// `order` is a ranking of all indices of `keys`: each index exactly once,
/// largest key first, ties in index order.
pub open spec fn is_ranking(keys: Seq<i64>, order: Seq<usize>) -> bool {
    &&& is_ranked(keys, order)
    &&& order.len() == keys.len()
    &&& forall|j: usize| j < keys.len() ==> #[trigger] order.contains(j)
}

/// Inserting `x` where everything before ranks before it and everything after
/// ranks after it keeps a sequence ranked.
proof fn lemma_insert_ranked(keys: Seq<i64>, s: Seq<usize>, p: int, x: usize)
    requires
        is_ranked(keys, s),
        0 <= p <= s.len(),
        x < keys.len(),
        forall|q: int| 0 <= q < p ==> ranks_before(keys, #[trigger] s[q] as int, x as int),
        forall|q: int| p <= q < s.len() ==> ranks_before(keys, x as int, #[trigger] s[q] as int),
    ensures
        is_ranked(keys, s.insert(p, x)),
{
    let t = s.insert(p, x);
    assert forall|i: int| 0 <= i < t.len() implies #[trigger] t[i] < keys.len() by {
        if i < p {
            assert(t[i] == s[i]);
        } else if i > p {
            assert(t[i] == s[i - 1]);
        }
    }
    assert forall|i: int, j: int| 0 <= i < j < t.len() implies ranks_before(
        keys,
        #[trigger] t[i] as int,
        #[trigger] t[j] as int,
    ) by {
        if i < p {
            assert(t[i] == s[i]);
            if j < p {
                assert(t[j] == s[j]);
            } else if j > p {
                assert(t[j] == s[j - 1]);
                assert(ranks_before(keys, s[i] as int, x as int));
                assert(ranks_before(keys, x as int, s[j - 1] as int));
            }
        } else if i == p {
            assert(t[j] == s[j - 1]);
        } else {
            assert(t[i] == s[i - 1]);
            assert(t[j] == s[j - 1]);
        }
    }
}

/// The indices of `keys` ordered by descending key; equal keys keep their
/// index order.
pub fn order_by_key_descending(keys: &Vec<i64>) -> (order: Vec<usize>)
    ensures
        is_ranking(keys@, order@),
{
    let n = keys.len();
    let mut order: Vec<usize> = Vec::new();
    let mut idx: usize = 0;
    while idx < n
        invariant
            n == keys.len(),
            idx <= n,
            order@.len() == idx,
            is_ranked(keys@, order@),
            forall|i: int| 0 <= i < order@.len() ==> #[trigger] order@[i] < idx,
            forall|j: usize| j < idx ==> #[trigger] order@.contains(j),
        decreases n - idx,
    {
        let key = keys[idx];
        let mut p: usize = 0;
        while p < order.len() && keys[order[p]] >= key
            invariant
                n == keys.len(),
                idx < n,
                key == keys@[idx as int],
                p <= order@.len(),
                is_ranked(keys@, order@),
                forall|i: int| 0 <= i < order@.len() ==> #[trigger] order@[i] < idx,
                forall|q: int| 0 <= q < p ==> keys@[#[trigger] order@[q] as int] >= key,
            decreases order@.len() - p,
        {
            p = p + 1;
        }
        let ghost old_order = order@;
        proof {
            assert forall|q: int| p <= q < old_order.len() implies ranks_before(
                keys@,
                idx as int,
                #[trigger] old_order[q] as int,
            ) by {
                if q > p {
                    assert(ranks_before(keys@, old_order[p as int] as int, old_order[q] as int));
                }
            }
            assert forall|q: int| 0 <= q < p implies ranks_before(
                keys@,
                #[trigger] old_order[q] as int,
                idx as int,
            ) by {
                assert(old_order[q] < idx);
            }
            lemma_insert_ranked(keys@, old_order, p as int, idx);
        }
        order.insert(p, idx);
        proof {
            assert(order@[p as int] == idx);
            assert forall|i: int| 0 <= i < order@.len() implies #[trigger] order@[i] < idx + 1 by {
                if i < p {
                    assert(order@[i] == old_order[i]);
                } else if i > p {
                    assert(order@[i] == old_order[i - 1]);
                }
            }
            assert forall|j: usize| j < idx + 1 implies #[trigger] order@.contains(j) by {
                if j == idx {
                    assert(order@[p as int] == j);
                } else {
                    assert(old_order.contains(j));
                    let k = choose|k: int| 0 <= k < old_order.len() && old_order[k] == j;
                    if k < p {
                        assert(order@[k] == j);
                    } else {
                        assert(order@[k + 1] == j);
                    }
                }
            }
        }
        idx = idx + 1;
    }
    order
}

/// The `k` best-ranked indices of `keys`, best first (all of them when
/// `k` exceeds their number).
pub fn top_k(keys: &Vec<i64>, k: usize) -> (top: Vec<usize>)
    ensures
        top@.len() == if k <= keys@.len() {
            k as int
        } else {
            keys@.len() as int
        },
        is_top(keys@, top@),
{
    let mut order = order_by_key_descending(keys);
    let ghost full = order@;
    order.truncate(k);
    proof {
        assert forall|j: usize, i: int|
            #![trigger order@.contains(j), order@[i]]
            j < keys@.len() && !order@.contains(j) && 0 <= i < order@.len() implies ranks_before(
            keys@,
            order@[i] as int,
            j as int,
        ) by {
            assert(full.contains(j));
            let t = choose|t: int| 0 <= t < full.len() && full[t] == j;
            if t < order@.len() {
                assert(order@[t] == j);
            }
            assert(order@[i] == full[i]);
            assert(ranks_before(keys@, full[i] as int, full[t] as int));
        }
    }
    order
}

/// The index of the largest key; when several keys are equally largest, the
/// last of them. An empty list gives 0.
pub fn last_argmax(keys: &Vec<i64>) -> (best: usize)
    ensures
        keys@.len() == 0 ==> best == 0,
        keys@.len() > 0 ==> {
            &&& best < keys@.len()
            &&& forall|j: int| 0 <= j < keys@.len() ==> #[trigger] keys@[j] <= keys@[best as int]
            &&& forall|j: int| best < j < keys@.len() ==> #[trigger] keys@[j] < keys@[best as int]
        },
{
    let n = keys.len();
    if n == 0 {
        return 0;
    }
    let mut best: usize = 0;
    let mut i: usize = 1;
    while i < n
        invariant
            n == keys@.len(),
            1 <= i <= n,
            best < i,
            forall|j: int| 0 <= j < i ==> #[trigger] keys@[j] <= keys@[best as int],
            forall|j: int| best < j < i ==> #[trigger] keys@[j] < keys@[best as int],
        decreases n - i,
    {
        if keys[i] >= keys[best] {
            best = i;
        }
        i = i + 1;
    }
    best
}

/// A head of the ranking coincides with the start of any full ranking: if
/// `top` is a ranked head and `order` ranks all indices, then
/// `top == order[..top.len()]`.
pub proof fn law_top_is_prefix(keys: Seq<i64>, top: Seq<usize>, order: Seq<usize>)
    requires
        is_top(keys, top),
        is_ranking(keys, order),
        top.len() <= keys.len(),
    ensures
        top == order.take(top.len() as int),
{
    lemma_prefix_agrees(keys, top, order, top.len() as int);
    assert(top =~= order.take(top.len() as int));
}

proof fn lemma_prefix_agrees(keys: Seq<i64>, top: Seq<usize>, order: Seq<usize>, t: int)
    requires
        is_top(keys, top),
        is_ranking(keys, order),
        top.len() <= keys.len(),
        0 <= t <= top.len(),
    ensures
        forall|s: int| 0 <= s < t ==> #[trigger] top[s] == order[s],
    decreases t,
{
    if t > 0 {
        let u = t - 1;
        lemma_prefix_agrees(keys, top, order, u);
        let a = top[u];
        let b = order[u];
        if a != b {
            // `a` ranks before `b`
            if top.contains(b) {
                let w = choose|w: int| 0 <= w < top.len() && top[w] == b;
                if w < u {
                    assert(order[w] == b);
                    assert(ranks_before(keys, order[w] as int, order[u] as int));
                } else {
                    assert(w != u);
                    assert(ranks_before(keys, top[u] as int, top[w] as int));
                }
            } else {
                assert(b < keys.len());
                assert(ranks_before(keys, top[u] as int, b as int));
            }
            assert(ranks_before(keys, a as int, b as int));
            // `b` ranks before `a`
            assert(a < keys.len());
            assert(order.contains(a));
            let v = choose|v: int| 0 <= v < order.len() && order[v] == a;
            if v < u {
                assert(top[v] == a);
                assert(ranks_before(keys, top[v] as int, top[u] as int));
            } else {
                assert(v != u);
                assert(ranks_before(keys, order[u] as int, order[v] as int));
            }
            assert(ranks_before(keys, b as int, a as int));
        }
    }
}

/// The ranking of a list of keys is unique: a stable descending sort has a
/// single possible outcome.
pub proof fn law_ranking_unique(keys: Seq<i64>, o1: Seq<usize>, o2: Seq<usize>)
    requires
        is_ranking(keys, o1),
        is_ranking(keys, o2),
    ensures
        o1 == o2,
{
    law_top_is_prefix(keys, o1, o2);
    assert(o2.take(o2.len() as int) =~= o2);
}

/// The best-ranked index has a maximal key, and it is the smallest index
/// among those with that key.
pub proof fn law_first_is_maximal(keys: Seq<i64>, order: Seq<usize>)
    requires
        is_ranking(keys, order),
        keys.len() > 0,
    ensures
        forall|j: usize| j < keys.len() ==> #[trigger] keys[j as int] <= keys[order[0] as int],
        forall|j: usize| j < order[0] ==> #[trigger] keys[j as int] < keys[order[0] as int],
{
    assert forall|j: usize| j < keys.len() implies #[trigger] keys[j as int] <= keys[order[0] as int] by {
        assert(order.contains(j));
        let v = choose|v: int| 0 <= v < order.len() && order[v] == j;
        if v > 0 {
            assert(ranks_before(keys, order[0] as int, order[v] as int));
        }
    }
    assert forall|j: usize| j < order[0] implies #[trigger] keys[j as int] < keys[order[0] as int] by {
        assert(order.contains(j));
        let v = choose|v: int| 0 <= v < order.len() && order[v] == j;
        if v > 0 {
            assert(ranks_before(keys, order[0] as int, order[v] as int));
        }
    }
}

} // verus!
