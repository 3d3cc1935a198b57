//! Pair enumeration: the deduplicated list of unordered particle-index
//! pairs `(i, j)` with `i < j < n`, produced once per run in a fixed,
//! deterministic order (row-major: all pairs with first index `0`, then all
//! with first index `1`, and so on).

use vstd::prelude::*;

verus! {

/// Number of unordered pairs among `n` particles: `n * (n - 1) / 2`.
pub open spec fn spec_pair_count(n: nat) -> nat {
    (n * (n - 1) / 2) as nat
}

/// The pairs whose first index is `i`: `(i, i+1), (i, i+2), ..., (i, n-1)`.
pub open spec fn row_pairs(i: int, n: int) -> Seq<(usize, usize)> {
    Seq::new((n - i - 1) as nat, |k: int| (i as usize, (i + 1 + k) as usize))
}

/// All pairs whose first index is below `i`, in row-major order.
pub open spec fn rows_upto(n: int, i: int) -> Seq<(usize, usize)>
    decreases i,
{
    if i <= 0 {
        Seq::empty()
    } else {
        rows_upto(n, i - 1) + row_pairs(i - 1, n)
    }
}

/// The canonical pair list for `n` particles.
pub open spec fn spec_pairs(n: int) -> Seq<(usize, usize)> {
    rows_upto(n, n)
}

/// Length of the partial pair list `rows_upto(n, i)` for `0 <= i <= n`:
/// the first `i` rows hold `n-1 + n-2 + ... + n-i` pairs.
pub proof fn lemma_rows_upto_len(n: int, i: int)
    requires
        0 <= i <= n,
    ensures
        2 * rows_upto(n, i).len() == i * (2 * n - i - 1),
    decreases i,
{
    if i > 0 {
        lemma_rows_upto_len(n, i - 1);
        let a = rows_upto(n, i - 1).len() as int;
        let b = rows_upto(n, i).len() as int;
        assert(b == a + (n - i));
        assert(2 * a == (i - 1) * (2 * n - (i - 1) - 1));
        assert((i - 1) * (2 * n - (i - 1) - 1) + 2 * (n - i) == i * (2 * n - i - 1)) by (
        nonlinear_arith);
        assert(2 * b == i * (2 * n - i - 1));
    } else {
        assert(i * (2 * n - i - 1) == 0) by (nonlinear_arith)
            requires
                i == 0,
        ;
    }
}

/// The full pair list has exactly `n * (n - 1) / 2` entries.
pub proof fn lemma_pair_list_len(n: int)
    requires
        n >= 0,
    ensures
        spec_pairs(n).len() == spec_pair_count(n as nat),
{
    lemma_rows_upto_len(n, n);
    assert(n * (2 * n - n - 1) == n * (n - 1)) by (nonlinear_arith);
    assert(2 * spec_pairs(n).len() == n * (n - 1) ==> spec_pairs(n).len() == n * (n - 1) / 2) by (
    nonlinear_arith);
}

/// Every entry of the pair list is a well-formed pair: no self-pairs, both
/// indices in range, first index below second.
pub proof fn lemma_pairs_wf(n: int, k: int)
    requires
        0 <= n <= usize::MAX,
        0 <= k < spec_pairs(n).len(),
    ensures
        spec_pairs(n)[k].0 < spec_pairs(n)[k].1 < n,
{
    lemma_rows_upto_wf(n, n, k);
}

proof fn lemma_rows_upto_wf(n: int, i: int, k: int)
    requires
        0 <= i <= n <= usize::MAX,
        0 <= k < rows_upto(n, i).len(),
    ensures
        rows_upto(n, i)[k].0 < rows_upto(n, i)[k].1 < n,
        rows_upto(n, i)[k].0 < i,
    decreases i,
{
    if i > 0 {
        if k < rows_upto(n, i - 1).len() {
            lemma_rows_upto_wf(n, i - 1, k);
        } else {
            let k2 = k - rows_upto(n, i - 1).len();
            assert(rows_upto(n, i)[k] == row_pairs(i - 1, n)[k2]);
            assert(row_pairs(i - 1, n)[k2] == ((i - 1) as usize, (i + k2) as usize));
        }
    }
}

proof fn lemma_rows_at(n: int, t: int, k: int)
    requires
        0 <= t <= n <= usize::MAX,
        0 <= k < rows_upto(n, t).len(),
    ensures
        ({
            let p = rows_upto(n, t)[k];
            &&& p.0 < t
            &&& p.0 < p.1 < n
            &&& k == rows_upto(n, p.0 as int).len() + p.1 - p.0 - 1
        }),
    decreases t,
{
    if t > 0 {
        if k < rows_upto(n, t - 1).len() {
            lemma_rows_at(n, t - 1, k);
        } else {
            let k2 = k - rows_upto(n, t - 1).len();
            assert(rows_upto(n, t)[k] == row_pairs(t - 1, n)[k2]);
            assert(row_pairs(t - 1, n)[k2] == ((t - 1) as usize, (t + k2) as usize));
        }
    }
}

proof fn lemma_rows_complete(n: int, t: int, i: int, j: int)
    requires
        0 <= i < j < n <= usize::MAX,
        i < t <= n,
    ensures
        ({
            let k = rows_upto(n, i).len() + j - i - 1;
            &&& k < rows_upto(n, t).len()
            &&& rows_upto(n, t)[k] == (i as usize, j as usize)
        }),
    decreases t,
{
    if t == i + 1 {
        assert(row_pairs(i, n)[j - i - 1] == (i as usize, j as usize));
    } else {
        lemma_rows_complete(n, t - 1, i, j);
    }
}

/// Completeness: every unordered pair `(i, j)` with `i < j < n` stands in
/// the pair list, at the index below.
pub proof fn lemma_pairs_complete(n: int, i: int, j: int)
    requires
        0 <= i < j < n <= usize::MAX,
    ensures
        ({
            let k = rows_upto(n, i).len() + j - i - 1;
            &&& 0 <= k < spec_pairs(n).len()
            &&& spec_pairs(n)[k] == (i as usize, j as usize)
        }),
{
    lemma_rows_complete(n, n, i, j);
}

/// No pair appears twice: entries of the pair list at distinct indices
/// differ.
pub proof fn lemma_pairs_unique(n: int, k1: int, k2: int)
    requires
        0 <= n <= usize::MAX,
        0 <= k1 < k2 < spec_pairs(n).len(),
    ensures
        spec_pairs(n)[k1] != spec_pairs(n)[k2],
{
    lemma_rows_at(n, n, k1);
    lemma_rows_at(n, n, k2);
}

/// Pair enumeration is idempotent: the pair list is a function of `n`
/// alone, so any two enumerations for the same `n` are the same sequence.
pub proof fn lemma_pair_enumeration_idempotent(
    n: int,
    a: Seq<(usize, usize)>,
    b: Seq<(usize, usize)>,
)
    requires
        a == spec_pairs(n),
        b == spec_pairs(n),
    ensures
        a == b,
{
}

/// Produces the pair list for `n` particles.
///
/// The result is the canonical sequence `spec_pairs(n)`, so two calls for
/// the same `n` return identical sequences.
pub fn enumerate_pairs(n: usize) -> (r: Vec<(usize, usize)>)
    ensures
        r@ == spec_pairs(n as int),
        r@.len() == spec_pair_count(n as nat),
{
    let mut r: Vec<(usize, usize)> = Vec::new();
    let mut i: usize = 0;
    while i < n
        invariant
            i <= n,
            r@ == rows_upto(n as int, i as int),
        decreases n - i,
    {
        let mut j: usize = i + 1;
        while j < n
            invariant
                i < j <= n || (j == i + 1 && j >= n),
                i < n,
                r@ == rows_upto(n as int, i as int) + row_pairs(i as int, n as int).take(
                    j - i - 1,
                ),
            decreases n - j,
        {
            r.push((i, j));
            proof {
                assert(r@ =~= rows_upto(n as int, i as int) + row_pairs(i as int, n as int).take(
                    j + 1 - i - 1,
                ));
            }
            j = j + 1;
        }
        proof {
            assert(row_pairs(i as int, n as int).take(n - i - 1) =~= row_pairs(
                i as int,
                n as int,
            ));
            assert(r@ =~= rows_upto(n as int, (i + 1) as int));
        }
        i = i + 1;
    }
    proof {
        lemma_pair_list_len(n as int);
    }
    r
}

} // verus!
