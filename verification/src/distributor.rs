//! Work distributor for the symmetric-pair force strategy: a claim counter
//! over the pair list, handing out bounded `[start, end)` chunks so that a
//! pool of workers drains the list with no overlap and no gap.
//!
//! The distributor is built fresh for every simulation step; workers take
//! exclusive access in turn (the embedding program serializes the claim
//! itself, e.g. with a lock) and process their claimed ranges in any order.

use vstd::prelude::*;

verus! {

/// Number of chunks needed to cover `pair_count` items with chunks of
/// `chunk_size`: `ceil(pair_count / chunk_size)`.
pub open spec fn spec_num_chunks(pair_count: int, chunk_size: int) -> int {
    (pair_count + chunk_size - 1) / chunk_size
}

/// Start of the `k`-th chunk.
pub open spec fn spec_chunk_start(k: int, chunk_size: int) -> int {
    k * chunk_size
}

/// End of the `k`-th chunk: one chunk past its start, capped at
/// `pair_count`.
pub open spec fn spec_chunk_end(k: int, pair_count: int, chunk_size: int) -> int {
    if k * chunk_size + chunk_size <= pair_count {
        k * chunk_size + chunk_size
    } else {
        pair_count
    }
}

/// Chunk coverage: the ranges `[spec_chunk_start(k), spec_chunk_end(k))`
/// for `k` below `spec_num_chunks` exactly tile `[0, pair_count)` — every
/// item lies in the range of exactly one chunk (namely chunk
/// `item / chunk_size`), every chunk range stays within bounds, and ranges
/// of distinct chunks do not overlap.
pub proof fn lemma_chunk_coverage(pair_count: int, chunk_size: int)
    requires
        pair_count >= 0,
        chunk_size >= 1,
    ensures
        forall|p: int|
            0 <= p < pair_count ==> {
                let k = #[trigger] (p / chunk_size);
                &&& 0 <= k < spec_num_chunks(pair_count, chunk_size)
                &&& spec_chunk_start(k, chunk_size) <= p < spec_chunk_end(
                    k,
                    pair_count,
                    chunk_size,
                )
            },
        forall|k: int|
            0 <= k < spec_num_chunks(pair_count, chunk_size)
                ==> #[trigger] spec_chunk_start(k, chunk_size) < spec_chunk_end(
                k,
                pair_count,
                chunk_size,
            ) <= pair_count,
        forall|k1: int, k2: int|
            0 <= k1 < k2 ==> #[trigger] spec_chunk_end(k1, pair_count, chunk_size)
                <= #[trigger] spec_chunk_start(k2, chunk_size),
{
    assert forall|p: int| 0 <= p < pair_count implies {
        let k = #[trigger] (p / chunk_size);
        &&& 0 <= k < spec_num_chunks(pair_count, chunk_size)
        &&& spec_chunk_start(k, chunk_size) <= p < spec_chunk_end(k, pair_count, chunk_size)
    } by {
        let k = p / chunk_size;
        assert({
            &&& 0 <= k
            &&& k * chunk_size <= p < k * chunk_size + chunk_size
            &&& k < (pair_count + chunk_size - 1) / chunk_size
        }) by (nonlinear_arith)
            requires
                0 <= p < pair_count,
                chunk_size >= 1,
                k == p / chunk_size,
        ;
    }
    assert forall|k: int| 0 <= k < spec_num_chunks(pair_count, chunk_size)
        implies #[trigger] spec_chunk_start(k, chunk_size) < spec_chunk_end(
        k,
        pair_count,
        chunk_size,
    ) <= pair_count by {
        assert(k < (pair_count + chunk_size - 1) / chunk_size ==> k * chunk_size < pair_count) by (
        nonlinear_arith)
            requires
                chunk_size >= 1,
                k >= 0,
        ;
    }
    assert forall|k1: int, k2: int| 0 <= k1 < k2 implies #[trigger] spec_chunk_end(
        k1,
        pair_count,
        chunk_size,
    ) <= #[trigger] spec_chunk_start(k2, chunk_size) by {
        assert(k1 * chunk_size + chunk_size <= k2 * chunk_size) by (nonlinear_arith)
            requires
                chunk_size >= 1,
                k1 < k2,
        ;
    }
}

/// The chunk allocator itself.  `claims` counts the chunks handed out so
/// far; the `k`-th claim returns the `k`-th chunk range, so claims arrive
/// in increasing order of position in the pair list.
pub struct WorkDistributor {
    pair_count: usize,
    chunk_size: usize,
    claims: usize,
}

impl WorkDistributor {
    /// The distributor hands out chunks in order; this is how many were
    /// claimed so far.
    pub closed spec fn claims(self) -> int {
        self.claims as int
    }

    /// Size of the pair list being covered.
    pub closed spec fn pair_count(self) -> int {
        self.pair_count as int
    }

    /// Requested chunk size.
    pub closed spec fn chunk_size(self) -> int {
        self.chunk_size as int
    }

    /// A distributor is well formed while its claim counter has not run
    /// past the chunk count.
    pub open spec fn wf(self) -> bool {
        &&& self.chunk_size() >= 1
        &&& 0 <= self.claims() <= spec_num_chunks(self.pair_count(), self.chunk_size())
    }

    /// A fresh distributor over `pair_count` items, nothing claimed yet.
    pub fn new(pair_count: usize, chunk_size: usize) -> (r: WorkDistributor)
        requires
            chunk_size >= 1,
        ensures
            r.wf(),
            r.claims() == 0,
            r.pair_count() == pair_count,
            r.chunk_size() == chunk_size,
    {
        proof {
            assert((pair_count as int + chunk_size as int - 1) / (chunk_size as int) >= 0) by (
            nonlinear_arith)
                requires
                    pair_count >= 0,
                    chunk_size >= 1,
            ;
        }
        WorkDistributor { pair_count, chunk_size, claims: 0 }
    }

    /// Claims the next unclaimed chunk: returns the `[start, end)` range of
    /// chunk number `claims()`, or `None` once the pair list is exhausted.
    pub fn claim_next(&mut self) -> (r: Option<(usize, usize)>)
        requires
            old(self).wf(),
        ensures
            final(self).wf(),
            final(self).pair_count() == old(self).pair_count(),
            final(self).chunk_size() == old(self).chunk_size(),
            old(self).claims() == spec_num_chunks(old(self).pair_count(), old(self).chunk_size())
                ==> r is None && final(self).claims() == old(self).claims(),
            old(self).claims() < spec_num_chunks(old(self).pair_count(), old(self).chunk_size())
                ==> {
                &&& final(self).claims() == old(self).claims() + 1
                &&& r == Some(
                    (
                        spec_chunk_start(old(self).claims(), old(self).chunk_size()) as usize,
                        spec_chunk_end(
                            old(self).claims(),
                            old(self).pair_count(),
                            old(self).chunk_size(),
                        ) as usize,
                    ),
                )
            },
    {
        let nc = num_chunks(self.pair_count, self.chunk_size);
        if self.claims >= nc {
            return None;
        }
        proof {
            assert({
                &&& 0 <= (self.claims as int) * (self.chunk_size as int)
                &&& (self.claims as int) * (self.chunk_size as int) < (self.pair_count as int)
            }) by (nonlinear_arith)
                requires
                    (self.chunk_size as int) >= 1,
                    0 <= (self.claims as int),
                    (self.claims as int) < spec_num_chunks(
                        self.pair_count as int,
                        self.chunk_size as int,
                    ),
                    spec_num_chunks(self.pair_count as int, self.chunk_size as int) == (
                    self.pair_count as int + self.chunk_size as int - 1) / (self.chunk_size as int),
            ;
        }
        let start = self.claims * self.chunk_size;
        let end = if self.pair_count - start >= self.chunk_size {
            start + self.chunk_size
        } else {
            self.pair_count
        };
        self.claims = self.claims + 1;
        Some((start, end))
    }
}

/// Chunk count for a run: `ceil(pair_count / chunk_size)`.
pub fn num_chunks(pair_count: usize, chunk_size: usize) -> (r: usize)
    requires
        chunk_size >= 1,
    ensures
        r == spec_num_chunks(pair_count as int, chunk_size as int),
{
    let ghost p = pair_count as int;
    let ghost c = chunk_size as int;
    if pair_count == 0 {
        proof {
            assert((p + c - 1) / c == 0) by (nonlinear_arith)
                requires
                    c >= 1,
                    p == 0,
            ;
        }
        0
    } else {
        let r = (pair_count - 1) / chunk_size + 1;
        proof {
            assert((p - 1) / c < p) by (nonlinear_arith)
                requires
                    c >= 1,
                    p >= 1,
            ;
            assert((p - 1) / c + 1 == (p + c - 1) / c) by (nonlinear_arith)
                requires
                    c >= 1,
                    p >= 1,
            ;
        }
        r
    }
}

} // verus!
