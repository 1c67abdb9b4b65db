//! The first index at which something holds.

use vstd::prelude::*;

verus! {

/// The first index from `from` on, below `n`, at which `pred` holds, or `n`
/// where there is none.
pub open spec fn first_index(n: int, from: int, pred: spec_fn(int) -> bool) -> int
    decreases n - from,
{
    if from >= n {
        n
    } else if pred(from) {
        from
    } else {
        first_index(n, from + 1, pred)
    }
}

/// `first_index` is in range, `pred` holds at it unless it is `n`, and `pred`
/// holds nowhere between `from` and it.
pub proof fn lemma_first_index(n: int, from: int, pred: spec_fn(int) -> bool)
    requires
        from <= n,
    ensures
        from <= first_index(n, from, pred) <= n,
        first_index(n, from, pred) < n ==> pred(first_index(n, from, pred)),
        forall|j: int| from <= j < first_index(n, from, pred) ==> !#[trigger] pred(j),
    decreases n - from,
{
    if from < n && !pred(from) {
        lemma_first_index(n, from + 1, pred);
    }
}

/// An index at which `pred` holds, or `n`, with `pred` nowhere between
/// `from` and it, is `first_index`.
pub proof fn lemma_first_index_at(n: int, from: int, pred: spec_fn(int) -> bool, k: int)
    requires
        from <= k <= n,
        forall|j: int| from <= j < k ==> !#[trigger] pred(j),
        k < n ==> pred(k),
    ensures
        first_index(n, from, pred) == k,
{
    lemma_first_index(n, from, pred);
}

/// Two predicates that agree below `n` have the same first index below `n`;
/// where the second is looked for up to `m`, past `n`, and holds nowhere
/// from `n` on, it is found where the first is, or not at all.
pub proof fn lemma_first_index_agrees(
    n: int,
    m: int,
    p: spec_fn(int) -> bool,
    q: spec_fn(int) -> bool,
)
    requires
        0 <= n <= m,
        forall|j: int| 0 <= j < n ==> #[trigger] p(j) == q(j),
        forall|j: int| n <= j < m ==> !#[trigger] q(j),
    ensures
        first_index(n, 0, p) < n ==> first_index(m, 0, q) == first_index(n, 0, p),
        first_index(n, 0, p) == n ==> first_index(m, 0, q) == m,
{
    lemma_first_index(n, 0, p);
    let k = first_index(n, 0, p);
    if k < n {
        assert(q(k) == p(k));
        assert forall|j: int| 0 <= j < k implies !#[trigger] q(j) by {
            assert(p(j) == q(j));
        }
        lemma_first_index_at(m, 0, q, k);
    } else {
        assert forall|j: int| 0 <= j < m implies !#[trigger] q(j) by {
            if j < n {
                assert(p(j) == q(j));
            }
        }
        lemma_first_index_at(m, 0, q, m);
    }
}

} // verus!
