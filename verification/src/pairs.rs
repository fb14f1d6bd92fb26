//! The pairs of positions in a sequence, in the order in which they are visited.

use vstd::prelude::*;

verus! {

/// Whether the pair `p` comes before the pair `q`: the one with the smaller first
/// position, and of two with the same first position the one with the smaller second.
pub open spec fn comes_before(p: (int, int), q: (int, int)) -> bool {
    p.0 < q.0 || (p.0 == q.0 && p.1 < q.1)
}

/// Whether each pair of `pairs` comes before all that follow it.
pub open spec fn rising(pairs: Seq<(int, int)>) -> bool {
    forall|k: int, l: int|
        0 <= k < l < pairs.len() ==> comes_before(#[trigger] pairs[k], #[trigger] pairs[l])
}

/// Whether `pairs` holds the pairs `(i, j)` of positions with `i < j < n`, each of them
/// once and no other, in rising order.
pub open spec fn lists_pairs(pairs: Seq<(int, int)>, n: int) -> bool {
    &&& forall|k: int| 0 <= k < pairs.len() ==> 0 <= (#[trigger] pairs[k]).0 < pairs[k].1 < n
    &&& rising(pairs)
    &&& forall|i: int, j: int| 0 <= i < j < n ==> #[trigger] pairs.contains((i, j))
}

/// The pairs whose first position is `i`: `(i, i + 1)` up to `(i, n - 1)`.
pub open spec fn pairs_with_first(i: int, n: int) -> Seq<(int, int)> {
    Seq::new((n - 1 - i) as nat, |k: int| (i, i + 1 + k))
}

/// The pairs whose first position is `i` or more, those of `i` first.
pub open spec fn pairs_from(i: int, n: int) -> Seq<(int, int)>
    decreases n - i,
{
    if i >= n {
        Seq::empty()
    } else {
        pairs_with_first(i, n) + pairs_from(i + 1, n)
    }
}

/// The pairs of positions below `n`: `(0, 1)`, `(0, 2)`, and so on to `(n - 2, n - 1)`.
pub open spec fn ordered_pairs(n: int) -> Seq<(int, int)> {
    pairs_from(0, n)
}

/// `pairs_from(i, n)` holds the pairs with `i <= first < second < n`, in rising order.
pub proof fn lemma_pairs_from(i: int, n: int)
    requires
        0 <= i,
    ensures
        forall|k: int|
            0 <= k < pairs_from(i, n).len() ==> i <= (#[trigger] pairs_from(i, n)[k]).0
                < pairs_from(i, n)[k].1 < n,
        rising(pairs_from(i, n)),
        forall|a: int, b: int| i <= a < b < n ==> #[trigger] pairs_from(i, n).contains((a, b)),
    decreases n - i,
{
    if i < n {
        lemma_pairs_from(i + 1, n);
        let row = pairs_with_first(i, n);
        let rest = pairs_from(i + 1, n);
        let all = pairs_from(i, n);
        assert(all == row + rest);
        assert forall|k: int| 0 <= k < all.len() implies i <= (#[trigger] all[k]).0 < all[k].1
            < n by {
            if k >= row.len() {
                assert(all[k] == rest[k - row.len()]);
            }
        }
        assert forall|k: int, l: int| 0 <= k < l < all.len() implies comes_before(
            #[trigger] all[k],
            #[trigger] all[l],
        ) by {
            if k >= row.len() {
                assert(all[k] == rest[k - row.len()]);
                assert(all[l] == rest[l - row.len()]);
            } else if l >= row.len() {
                assert(all[l] == rest[l - row.len()]);
            }
        }
        assert forall|a: int, b: int| i <= a < b < n implies #[trigger] all.contains((a, b)) by {
            if a == i {
                assert(all[b - i - 1] == (a, b));
            } else {
                assert(rest.contains((a, b)));
                let at = choose|at: int| 0 <= at < rest.len() && rest[at] == (a, b);
                assert(all[row.len() + at] == (a, b));
            }
        }
    }
}

/// `ordered_pairs(n)` holds each pair of positions below `n` once, in rising order.
pub proof fn lemma_ordered_pairs_lists(n: int)
    ensures
        lists_pairs(ordered_pairs(n), n),
{
    lemma_pairs_from(0, n);
}

/// Two rising sequences with the same members are the same sequence.
pub proof fn lemma_rising_unique(a: Seq<(int, int)>, b: Seq<(int, int)>)
    requires
        rising(a),
        rising(b),
        forall|p: (int, int)| a.contains(p) <==> b.contains(p),
    ensures
        a == b,
    decreases a.len(),
{
    if a.len() == 0 {
        if b.len() > 0 {
            assert(b.contains(b[0]));
        }
        assert(a =~= b);
    } else {
        assert(a.contains(a[0]));
        let last_a = a.last();
        let last_b = b.last();
        assert(a.contains(last_a));
        assert(b.contains(last_b));
        let k = choose|k: int| 0 <= k < b.len() && b[k] == last_a;
        let m = choose|m: int| 0 <= m < a.len() && a[m] == last_b;
        assert(last_a == last_b) by {
            if k < b.len() - 1 {
                assert(comes_before(b[k], b[b.len() - 1]));
                if m < a.len() - 1 {
                    assert(comes_before(a[m], a[a.len() - 1]));
                }
            }
        }
        let a1 = a.drop_last();
        let b1 = b.drop_last();
        assert forall|p: (int, int)| a1.contains(p) <==> b1.contains(p) by {
            if a1.contains(p) {
                let i = choose|i: int| 0 <= i < a1.len() && a1[i] == p;
                assert(a[i] == p);
                assert(comes_before(a[i], a[a.len() - 1]));
                assert(a.contains(p));
                let j = choose|j: int| 0 <= j < b.len() && b[j] == p;
                assert(b1[j] == p);
            }
            if b1.contains(p) {
                let i = choose|i: int| 0 <= i < b1.len() && b1[i] == p;
                assert(b[i] == p);
                assert(comes_before(b[i], b[b.len() - 1]));
                assert(b.contains(p));
                let j = choose|j: int| 0 <= j < a.len() && a[j] == p;
                assert(a1[j] == p);
            }
        }
        lemma_rising_unique(a1, b1);
        assert(a =~= a1.push(last_a));
        assert(b =~= b1.push(last_b));
    }
}

/// A sequence that lists the pairs of positions below `n` is `ordered_pairs(n)`.
pub proof fn lemma_lists_pairs_unique(pairs: Seq<(int, int)>, n: int)
    requires
        lists_pairs(pairs, n),
    ensures
        pairs == ordered_pairs(n),
{
    let ordered = ordered_pairs(n);
    lemma_ordered_pairs_lists(n);
    assert forall|p: (int, int)| pairs.contains(p) <==> ordered.contains(p) by {
        if pairs.contains(p) {
            let k = choose|k: int| 0 <= k < pairs.len() && pairs[k] == p;
            assert(0 <= pairs[k].0 < pairs[k].1 < n);
            assert(ordered.contains((p.0, p.1)));
        }
        if ordered.contains(p) {
            let k = choose|k: int| 0 <= k < ordered.len() && ordered[k] == p;
            assert(0 <= ordered[k].0 < ordered[k].1 < n);
            assert(pairs.contains((p.0, p.1)));
        }
    }
    lemma_rising_unique(pairs, ordered);
}

/// Below two positions there is no pair.
pub proof fn lemma_no_pairs(n: int)
    requires
        n <= 1,
    ensures
        ordered_pairs(n) == Seq::<(int, int)>::empty(),
{
    reveal_with_fuel(pairs_from, 3);
    assert(ordered_pairs(n) =~= Seq::<(int, int)>::empty());
}

/// Two positions make the one pair `(0, 1)`.
pub proof fn lemma_one_pair()
    ensures
        ordered_pairs(2) == seq![(0int, 1int)],
{
    reveal_with_fuel(pairs_from, 4);
    assert(ordered_pairs(2) =~= seq![(0int, 1int)]);
}

/// The pairs of positions that a walk over a sequence has not handed out yet.
///
/// It holds the iterator that `itertools` makes for the combinations of two of the
/// positions `0..n`.
#[verifier::external_body]
pub struct PairIndices {
    inner: itertools::Combinations<core::ops::Range<usize>>,
}

/// The pairs that `pairs` will still hand out, the next one first.
pub uninterp spec fn pending_pairs(pairs: PairIndices) -> Seq<(int, int)>;

/// Calls `Itertools::combinations` with a size of 2 on the range `0..n`.
///
/// Believed of it: the combinations come as the index pairs `[i, j]` with `i < j < n`,
/// each once, in lexicographic order, `[0, 1]` first where `n` is 2 or more.
#[verifier::external_body]
pub(crate) fn index_pairs(n: usize) -> (pairs: PairIndices)
    ensures
        lists_pairs(pending_pairs(pairs), n as int),
{
    PairIndices { inner: itertools::Itertools::combinations(0..n, 2) }
}

/// Calls `next` on the combinations iterator of `itertools`.
///
/// Believed of it: it hands out the first pending pair and leaves the others pending,
/// and once none is pending it returns `None` and none becomes pending again.
#[verifier::external_body]
pub(crate) fn next_pair(pairs: &mut PairIndices) -> (next: Option<(usize, usize)>)
    ensures
        match next {
            Some(pair) => {
                &&& pending_pairs(*old(pairs)).len() > 0
                &&& pending_pairs(*old(pairs))[0] == (pair.0 as int, pair.1 as int)
                &&& pending_pairs(*final(pairs)) == pending_pairs(*old(pairs)).drop_first()
            },
            None => {
                &&& pending_pairs(*old(pairs)).len() == 0
                &&& pending_pairs(*final(pairs)).len() == 0
            },
        },
{
    match pairs.inner.next() {
        Some(pair) => Some((pair[0], pair[1])),
        None => None,
    }
}

} // verus!
