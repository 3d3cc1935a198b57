use nbody_core::distributor::{num_chunks, WorkDistributor};
use nbody_core::pairs::enumerate_pairs;

#[test]
fn pairs_of_none_and_one() {
    assert_eq!(enumerate_pairs(0), vec![]);
    assert_eq!(enumerate_pairs(1), vec![]);
}

#[test]
fn pairs_of_two() {
    assert_eq!(enumerate_pairs(2), vec![(0, 1)]);
}

#[test]
fn pairs_of_four_row_major() {
    let expected = vec![(0, 1), (0, 2), (0, 3), (1, 2), (1, 3), (2, 3)];
    assert_eq!(enumerate_pairs(4), expected);
}

#[test]
fn pair_count_matches_formula() {
    for n in 0..40usize {
        assert_eq!(enumerate_pairs(n).len(), n * n.saturating_sub(1) / 2);
    }
    assert_eq!(enumerate_pairs(100).len(), 4950);
}

#[test]
fn pair_enumeration_is_idempotent() {
    for n in [0usize, 1, 2, 7, 33] {
        assert_eq!(enumerate_pairs(n), enumerate_pairs(n));
    }
}

#[test]
fn every_unordered_pair_exactly_once() {
    let n = 9usize;
    let pairs = enumerate_pairs(n);
    for i in 0..n {
        for j in (i + 1)..n {
            assert_eq!(pairs.iter().filter(|p| **p == (i, j)).count(), 1);
        }
    }
    for (i, j) in pairs {
        assert!(i < j && j < n);
    }
}

#[test]
fn chunk_claims_in_order_until_exhaustion() {
    let mut d = WorkDistributor::new(10, 3);
    assert_eq!(d.claim_next(), Some((0, 3)));
    assert_eq!(d.claim_next(), Some((3, 6)));
    assert_eq!(d.claim_next(), Some((6, 9)));
    assert_eq!(d.claim_next(), Some((9, 10)));
    assert_eq!(d.claim_next(), None);
    assert_eq!(d.claim_next(), None);
}

#[test]
fn one_oversized_chunk_covers_everything() {
    let mut d = WorkDistributor::new(3, 64);
    assert_eq!(d.claim_next(), Some((0, 3)));
    assert_eq!(d.claim_next(), None);
}

#[test]
fn empty_pair_list_yields_no_chunks() {
    let mut d = WorkDistributor::new(0, 8);
    assert_eq!(d.claim_next(), None);
}

#[test]
fn chunk_union_covers_exactly_without_overlap() {
    for (pair_count, chunk_size) in [(10usize, 3usize), (12, 4), (1, 5), (97, 8), (64, 64)] {
        let mut d = WorkDistributor::new(pair_count, chunk_size);
        let mut seen = vec![0u32; pair_count];
        let mut last_end = 0usize;
        while let Some((start, end)) = d.claim_next() {
            assert!(start < end && end <= pair_count);
            assert_eq!(start, last_end);
            for slot in seen.iter_mut().take(end).skip(start) {
                *slot += 1;
            }
            last_end = end;
        }
        assert_eq!(last_end, pair_count);
        assert!(seen.iter().all(|c| *c == 1));
    }
}

#[test]
fn chunk_count_is_ceiling_division() {
    assert_eq!(num_chunks(0, 4), 0);
    assert_eq!(num_chunks(1, 4), 1);
    assert_eq!(num_chunks(4, 4), 1);
    assert_eq!(num_chunks(5, 4), 2);
    assert_eq!(num_chunks(4950, 256), 20);
}
