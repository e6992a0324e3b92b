//! Facts about sequences kept in order while elements are inserted one at a time.
use vstd::prelude::*;
use vstd::seq_lib::{to_multiset_build, to_multiset_insert};

verus! {

/// No element comes strictly before an earlier one under `lt`.
pub open spec fn in_order<T>(v: Seq<T>, lt: spec_fn(T, T) -> bool) -> bool {
    forall|i: int, j: int| 0 <= i < j < v.len() ==> !lt(#[trigger] v[j], #[trigger] v[i])
}

/// `lt` is a strict order.
pub open spec fn strict_order<T>(lt: spec_fn(T, T) -> bool) -> bool {
    &&& forall|a: T| !#[trigger] lt(a, a)
    &&& forall|a: T, b: T, c: T| #[trigger] lt(a, b) && #[trigger] lt(b, c) ==> lt(a, c)
}

/// Inserting `x` after every element it does not precede, and before the first
/// element it precedes, keeps the order.
pub proof fn lemma_insert_in_order<T>(before: Seq<T>, p: int, x: T, lt: spec_fn(T, T) -> bool)
    requires
        strict_order(lt),
        in_order(before, lt),
        0 <= p <= before.len(),
        forall|m: int| 0 <= m < p ==> !lt(x, #[trigger] before[m]),
        p < before.len() ==> lt(x, before[p]),
    ensures
        in_order(before.insert(p, x), lt),
{
    let n = before.insert(p, x);
    assert forall|a: int, b: int| 0 <= a < b < n.len() implies !lt(#[trigger] n[b], #[trigger] n[a]) by {
        if b < p {
            assert(n[a] == before[a] && n[b] == before[b]);
        } else if b == p {
            assert(n[a] == before[a]);
        } else if a == p {
            assert(n[b] == before[b - 1]);
            if lt(before[b - 1], x) {
                assert(lt(before[b - 1], before[p]));
                if b - 1 > p {
                    assert(!lt(before[b - 1], before[p]));
                }
            }
        } else if a < p {
            assert(n[a] == before[a] && n[b] == before[b - 1]);
        } else {
            assert(n[a] == before[a - 1] && n[b] == before[b - 1]);
        }
    }
}

/// Inserting the next element of `src` keeps the multiset of the first ones.
pub proof fn lemma_insert_multiset<T>(before: Seq<T>, p: int, src: Seq<T>, k: int)
    requires
        0 <= k < src.len(),
        0 <= p <= before.len(),
        before.to_multiset() == src.take(k).to_multiset(),
    ensures
        before.insert(p, src[k]).to_multiset() == src.take(k + 1).to_multiset(),
{
    to_multiset_insert(before, p, src[k]);
    assert(src.take(k + 1) =~= src.take(k).push(src[k]));
    to_multiset_build(src.take(k), src[k]);
}

/// Every element comes strictly before every later one.
pub open spec fn strictly_in_order<T>(v: Seq<T>, lt: spec_fn(T, T) -> bool) -> bool {
    forall|i: int, j: int| 0 <= i < j < v.len() ==> lt(#[trigger] v[i], #[trigger] v[j])
}

pub proof fn lemma_insert_strictly<T>(before: Seq<T>, p: int, x: T, lt: spec_fn(T, T) -> bool)
    requires
        strict_order(lt),
        strictly_in_order(before, lt),
        0 <= p <= before.len(),
        forall|m: int| 0 <= m < p ==> lt(#[trigger] before[m], x),
        p < before.len() ==> lt(x, before[p]),
    ensures
        strictly_in_order(before.insert(p, x), lt),
{
    let n = before.insert(p, x);
    assert forall|a: int, b: int| 0 <= a < b < n.len() implies lt(#[trigger] n[a], #[trigger] n[b]) by {
        if b < p {
            assert(n[a] == before[a] && n[b] == before[b]);
        } else if b == p {
            assert(n[a] == before[a]);
        } else if a == p {
            assert(n[b] == before[b - 1]);
            if b - 1 > p {
                assert(lt(before[p], before[b - 1]));
            }
        } else if a < p {
            assert(n[a] == before[a] && n[b] == before[b - 1]);
        } else {
            assert(n[a] == before[a - 1] && n[b] == before[b - 1]);
        }
    }
}

/// `v` holds exactly the first `k` elements of `src`, each once, in some order.
pub open spec fn holds_first<T>(v: Seq<T>, src: Seq<T>, k: int) -> bool {
    &&& forall|i: int| 0 <= i < v.len() ==> exists|j: int| 0 <= j < k && #[trigger] v[i] == src[j]
    &&& forall|j: int| 0 <= j < k ==> exists|i: int| 0 <= i < v.len() && v[i] == #[trigger] src[j]
}

pub proof fn lemma_insert_holds_first<T>(before: Seq<T>, p: int, src: Seq<T>, k: int)
    requires
        0 <= k < src.len(),
        holds_first(before, src, k),
        0 <= p <= before.len(),
    ensures
        holds_first(before.insert(p, src[k]), src, k + 1),
{
    let n = before.insert(p, src[k]);
    assert forall|i: int| 0 <= i < n.len() implies exists|j: int| 0 <= j < k + 1 && #[trigger] n[i] == src[j] by {
        if i == p {
            assert(n[i] == src[k]);
        } else {
            let i2 = if i < p { i } else { i - 1 };
            assert(n[i] == before[i2]);
            let j = choose|j: int| 0 <= j < k && before[i2] == src[j];
            assert(n[i] == src[j]);
        }
    }
    assert forall|j: int| 0 <= j < k + 1 implies exists|i: int| 0 <= i < n.len() && n[i] == #[trigger] src[j] by {
        if j == k {
            assert(n[p] == src[j]);
        } else {
            let i = choose|i: int| 0 <= i < before.len() && before[i] == src[j];
            let i2 = if i < p { i } else { i + 1 };
            assert(n[i2] == before[i]);
        }
    }
}

} // verus!
