use mini_alloy_reth::block_range::BlockRangeInclusiveIter;

fn collect(mut it: BlockRangeInclusiveIter) -> Vec<(u64, u64)> {
    let mut out = Vec::new();
    while let Some(chunk) = it.next() {
        out.push(chunk);
    }
    out
}

#[test]
fn chunks_of_a_range_in_steps_of_a_thousand() {
    let it = BlockRangeInclusiveIter::new(0..=2500, 1000);
    assert_eq!(collect(it), vec![(0, 1000), (1001, 2001), (2002, 2500)]);
}

#[test]
fn range_that_fits_one_chunk_exactly() {
    let it = BlockRangeInclusiveIter::new(5..=1005, 1000);
    assert_eq!(collect(it), vec![(5, 1005)]);
}

#[test]
fn single_block_range() {
    let it = BlockRangeInclusiveIter::new(42..=42, 1000);
    assert_eq!(collect(it), vec![(42, 42)]);
}

#[test]
fn step_zero_yields_single_blocks() {
    let it = BlockRangeInclusiveIter::new(7..=9, 0);
    assert_eq!(collect(it), vec![(7, 7), (8, 8), (9, 9)]);
}

#[test]
fn range_ending_before_it_starts_has_no_chunk() {
    let mut it = BlockRangeInclusiveIter::new(5..=4, 1000);
    assert_eq!(it.next(), None);
}

#[test]
fn exhausted_range_has_no_chunk() {
    let mut range = 3..=5u64;
    for _ in range.by_ref() {}
    let mut it = BlockRangeInclusiveIter::new(range, 10);
    assert_eq!(it.next(), None);
}

#[test]
fn iterator_keeps_yielding_none_once_done() {
    let mut it = BlockRangeInclusiveIter::new(1..=2, 5);
    assert_eq!(it.next(), Some((1, 2)));
    assert_eq!(it.next(), None);
    assert_eq!(it.next(), None);
    assert_eq!(it.next(), None);
}

#[test]
fn chunks_reaching_the_largest_block_number() {
    let it = BlockRangeInclusiveIter::new(u64::MAX - 3..=u64::MAX, 1);
    assert_eq!(
        collect(it),
        vec![(u64::MAX - 3, u64::MAX - 2), (u64::MAX - 1, u64::MAX)]
    );
}

#[test]
fn chunks_cover_the_range_contiguously() {
    for (start, end, step) in [(0u64, 0u64, 0u64), (3, 17, 4), (10, 10_000, 1000), (1, 1001, 1000), (0, 999, 999)] {
        let chunks = collect(BlockRangeInclusiveIter::new(start..=end, step));
        assert_eq!(chunks.first().unwrap().0, start);
        assert_eq!(chunks.last().unwrap().1, end);
        for (lo, hi) in &chunks {
            assert!(lo <= hi);
            assert!(hi - lo <= step);
        }
        for pair in chunks.windows(2) {
            assert_eq!(pair[1].0, pair[0].1 + 1);
        }
        let expected_len = (end - start) / (step + 1) + 1;
        assert_eq!(chunks.len() as u64, expected_len);
        let last_start = end - (end - start) % (step + 1);
        assert_eq!(chunks.last().unwrap().0, last_start);
    }
}

#[test]
fn chunk_clipped_at_the_largest_block_number() {
    let mut it = BlockRangeInclusiveIter::new((u64::MAX - 1)..=u64::MAX, 5);
    assert_eq!(it.next(), Some((u64::MAX - 1, u64::MAX)));
    assert_eq!(it.next(), None);
}

#[test]
fn whole_block_number_space_in_large_chunks() {
    let it = BlockRangeInclusiveIter::new(0..=u64::MAX, u64::MAX / 2);
    assert_eq!(
        collect(it),
        vec![(0, u64::MAX / 2), (u64::MAX / 2 + 1, u64::MAX)]
    );
    let mut it = BlockRangeInclusiveIter::new(0..=u64::MAX, u64::MAX - 1);
    assert_eq!(it.next(), Some((0, u64::MAX - 1)));
    assert_eq!(it.next(), Some((u64::MAX, u64::MAX)));
    assert_eq!(it.next(), None);
}

#[test]
fn chunk_at_each_place_has_its_closed_form() {
    let (a, b, s) = (17u64, 5_432u64, 999u64);
    let chunks = collect(BlockRangeInclusiveIter::new(a..=b, s));
    assert_eq!(chunks.len() as u64, (b - a) / (s + 1) + 1);
    for (k, chunk) in chunks.iter().enumerate() {
        let lo = a + k as u64 * (s + 1);
        assert_eq!(*chunk, (lo, (lo + s).min(b)));
        if k + 1 < chunks.len() {
            assert_eq!(chunk.1 - chunk.0, s);
        }
    }
}
