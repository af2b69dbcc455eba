use std::time::Duration;
use stitches::spaces::{Candidates, LinearSpace, MyRangeInclusive, Space, TimeLimited};

fn drain<B: Candidates>(batch: &mut B) -> Vec<B::Item> {
    let mut values = Vec::new();
    while let Some(value) = batch.next() {
        values.push(value);
    }
    values
}

#[test]
fn returns_all_values() {
    let end = std::usize::MAX - 4;
    let mut space = LinearSpace::<usize>::default();

    let batch = space.batch(end).unwrap();
    assert_eq!(batch.len(), end);

    let batch: Vec<usize> = drain(&mut space.batch(5).unwrap())
        .into_iter()
        .map(|n| std::usize::MAX - n)
        .collect();
    assert_eq!(batch, [4, 3, 2, 1, 0]);
}

#[test]
fn returns_remaining_values_when_asked_for_batch_beyond_remaining_size() {
    let end = std::usize::MAX - 4;
    let mut space = LinearSpace::<usize>::default();

    let _batch = space.batch(end);

    let batch: Vec<usize> = drain(&mut space.batch(6).unwrap())
        .into_iter()
        .map(|n| std::usize::MAX - n)
        .collect();
    assert_eq!(batch, [4, 3, 2, 1, 0]);
}

#[test]
fn batch_that_would_overflow_ends_at_the_last_value_then_exhaustion() {
    let mut space = LinearSpace::new(std::usize::MAX - 4);
    let mut batch = space.batch(10).unwrap();
    assert_eq!(batch.len(), 5);
    let max = std::usize::MAX;
    assert_eq!(drain(&mut batch), vec![max - 4, max - 3, max - 2, max - 1, max]);
    assert!(space.batch(10).is_none());
    assert!(space.batch(1).is_none());
}

#[test]
fn batches_cover_a_small_domain_without_gap_or_repeat() {
    for n in 1usize..=40 {
        let mut space = LinearSpace::<u8>::default();
        let mut seen: Vec<u8> = Vec::new();
        let mut calls = 0usize;
        while let Some(mut batch) = space.batch(n) {
            let expected = std::cmp::min(n, 256 - seen.len());
            assert_eq!(batch.len(), expected);
            seen.extend(drain(&mut batch));
            calls += 1;
        }
        assert_eq!(calls, (256 + n - 1) / n);
        let all: Vec<u8> = (0u8..=255).collect();
        assert_eq!(seen, all);
        assert!(space.batch(n).is_none());
    }
}

#[test]
fn batch_of_nothing_is_empty_and_keeps_the_cursor() {
    let mut space = LinearSpace::new(7u32);
    let mut empty = space.batch(0).unwrap();
    assert_eq!(empty.len(), 0);
    assert_eq!(empty.next(), None);
    let mut batch = space.batch(3).unwrap();
    assert_eq!(drain(&mut batch), vec![7, 8, 9]);
}

#[test]
fn range_counts_down_as_it_is_consumed() {
    let mut range = MyRangeInclusive::new(3u64, 5u64);
    assert_eq!(range.len(), 3);
    assert_eq!(range.next(), Some(3));
    assert_eq!(range.len(), 2);
    assert_eq!(range.next(), Some(4));
    assert_eq!(range.next(), Some(5));
    assert_eq!(range.len(), 0);
    assert_eq!(range.next(), None);
    assert_eq!(range.next(), None);
}

#[test]
fn time_limited_space_hands_out_batches_within_the_limit() {
    let mut space = TimeLimited::new(Duration::from_secs(3600), LinearSpace::new(10u32));
    let mut batch = space.batch(2).unwrap();
    assert_eq!(drain(&mut batch), vec![10, 11]);
    let mut batch = space.batch(2).unwrap();
    assert_eq!(drain(&mut batch), vec![12, 13]);
}

#[test]
fn time_limited_space_is_exhausted_after_the_limit() {
    let mut space = TimeLimited::new(Duration::from_millis(5), LinearSpace::new(10u32));
    assert!(space
        .batch_after(4, &Duration::from_millis(6))
        .is_none());
    let mut batch = space.batch_after(2, &Duration::from_millis(5)).unwrap();
    assert_eq!(drain(&mut batch), vec![10, 11]);
    assert!(space
        .batch_after(1, &Duration::from_nanos(5_000_001))
        .is_none());
}
