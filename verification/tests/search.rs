use stitches::batch_size::BatchSizeOptimizer;
use stitches::spaces::{Candidates, LinearSpace};
use stitches::{evaluate, Mutable, NullReporter, Problem, Reporter, Stats, Stitches};

struct LargestEven;

impl Problem for LargestEven {
    type Space = LinearSpace<u32>;
    type Out = u32;

    fn starts(self, _after: Self, _space: LinearSpace<u32>) -> bool {
        true
    }

    fn initial_space(&mut self) -> LinearSpace<u32> {
        LinearSpace::default()
    }

    fn improved(&self, candidate: u32, latest: u32) -> Option<u32> {
        self.check(candidate, &latest)
    }

    fn check(&self, candidate: u32, latest_out: &u32) -> Option<u32> {
        if candidate < 1000 && candidate % 2 == 0 && candidate > *latest_out {
            Some(candidate)
        } else {
            None
        }
    }
}

struct Counting {
    reports: usize,
    last_hits: u64,
    last_out: u32,
}

impl Reporter<LargestEven> for Counting {
    fn report_on(&mut self, _space: &LinearSpace<u32>, out: &u32, stats: &Stats) {
        self.reports += 1;
        self.last_hits = stats.hits();
        self.last_out = *out;
    }
}

fn run(workers: usize) -> (Vec<u32>, u32) {
    let (mut shared, problem, _reporter) = Stitches::new(LargestEven, NullReporter).into_parts();
    let mut stream = Vec::new();
    let mut round = 0usize;
    while round * 50 < 1200 {
        for _ in 0..workers {
            let (batch, snapshot) = shared.withdraw_sized(50).unwrap();
            let found = evaluate(&problem, batch, &snapshot);
            if let Some(value) = shared.publish(&snapshot, found) {
                stream.push(value);
            }
            round += 1;
        }
    }
    (stream, *shared.best())
}

#[test]
fn largest_even_number_below_a_thousand_is_found_by_any_number_of_workers() {
    for workers in 1..=8 {
        let (stream, best) = run(workers);
        assert_eq!(stream.last(), Some(&998));
        assert_eq!(best, 998);
        assert_eq!(stream.len(), 20);
        assert!(stream.windows(2).all(|w| w[0] < w[1]));
    }
}

#[test]
fn fold_returns_the_last_improvement_of_the_batch() {
    let mut space = LinearSpace::new(10u32);
    let batch = stitches::spaces::Space::batch(&mut space, 7).unwrap();
    assert_eq!(batch.len(), 7);
    assert_eq!(evaluate(&LargestEven, batch, &0), Some(16));
    let batch = stitches::spaces::Space::batch(&mut space, 3).unwrap();
    assert_eq!(evaluate(&LargestEven, batch, &500), None);
    let batch = stitches::spaces::Space::batch(&mut space, 1).unwrap();
    assert_eq!(evaluate(&LargestEven, batch, &0), Some(20));
    let batch = stitches::spaces::Space::batch(&mut space, 1).unwrap();
    assert_eq!(evaluate(&LargestEven, batch, &0), None);
    let batch = stitches::spaces::Space::batch(&mut space, 0).unwrap();
    assert_eq!(evaluate(&LargestEven, batch, &0), None);
}

#[test]
fn withdrawal_copies_the_best_result_and_counts_the_candidates() {
    let mut shared = Mutable::new(LinearSpace::new(0u32), 41u32);
    let (batch, snapshot) = shared.withdraw_sized(30).unwrap();
    assert_eq!(batch.len(), 30);
    assert_eq!(snapshot, 41);
    assert_eq!(shared.statistics().hits(), 30);
    let (batch, _) = shared.withdraw_sized(12).unwrap();
    assert_eq!(batch.len(), 12);
    assert_eq!(shared.statistics().hits(), 42);
    assert_eq!(*shared.best(), 41);
}

#[test]
fn withdrawal_from_an_exhausted_space_gives_nothing() {
    let mut shared = Mutable::new(LinearSpace::new(u32::MAX - 1), 0u32);
    let (batch, _) = shared.withdraw_sized(30).unwrap();
    assert_eq!(batch.len(), 2);
    assert_eq!(shared.statistics().hits(), 2);
    assert!(shared.withdraw_sized(30).is_none());
    assert_eq!(shared.statistics().hits(), 2);
    let mut sizes = BatchSizeOptimizer::new(std::time::Duration::from_millis(10));
    assert!(shared.withdraw(&mut sizes).is_none());
}

#[test]
fn withdrawal_asks_the_controller_for_the_size() {
    let mut shared = Mutable::new(LinearSpace::new(0u32), 0u32);
    let mut sizes = BatchSizeOptimizer::new(std::time::Duration::from_secs(3600));
    let (batch, _) = shared.withdraw(&mut sizes).unwrap();
    assert_eq!(batch.len(), 100);
    let (mut batch, _) = shared.withdraw(&mut sizes).unwrap();
    assert_eq!(batch.len(), 101);
    assert_eq!(batch.next(), Some(100));
    assert_eq!(shared.statistics().hits(), 201);
}

#[test]
fn publish_ignores_an_outcome_that_equals_the_copy() {
    let mut shared = Mutable::new(LinearSpace::new(0u32), 5u32);
    assert_eq!(shared.publish(&5, None), None);
    assert_eq!(*shared.best(), 5);
    assert_eq!(shared.publish(&5, Some(5)), None);
    assert_eq!(*shared.best(), 5);
    assert_eq!(shared.publish(&5, Some(8)), Some(8));
    assert_eq!(*shared.best(), 8);
}

#[test]
fn a_late_publish_overwrites_a_better_result_with_a_valid_one() {
    let problem = LargestEven;
    let mut shared = Mutable::new(LinearSpace::new(0u32), 0u32);
    let (first, first_snapshot) = shared.withdraw_sized(10).unwrap();
    let (second, second_snapshot) = shared.withdraw_sized(10).unwrap();
    let late = evaluate(&problem, first, &first_snapshot);
    let early = evaluate(&problem, second, &second_snapshot);
    assert_eq!(shared.publish(&second_snapshot, early), Some(18));
    assert_eq!(*shared.best(), 18);
    assert_eq!(shared.publish(&first_snapshot, late), Some(8));
    assert_eq!(*shared.best(), 8);
    assert_eq!(problem.check(8, &6), Some(8));
}

#[test]
fn report_hands_over_the_state_and_clears_the_statistics() {
    let mut shared = Mutable::new(LinearSpace::new(0u32), 7u32);
    let mut reporter = Counting { reports: 0, last_hits: 0, last_out: 0 };
    shared.withdraw_sized(25).unwrap();
    shared.report::<LargestEven, Counting>(&mut reporter);
    assert_eq!(reporter.reports, 1);
    assert_eq!(reporter.last_hits, 25);
    assert_eq!(reporter.last_out, 7);
    assert_eq!(shared.statistics().hits(), 0);
    shared.report::<LargestEven, NullReporter>(&mut NullReporter);
    assert_eq!(shared.statistics().hits(), 0);
}

#[test]
fn statistics_count_and_clear() {
    let mut stats = Stats::default();
    assert_eq!(stats.hits(), 0);
    stats.record(3);
    stats.record(4);
    assert_eq!(stats.hits(), 7);
    stats.clear();
    assert_eq!(stats.hits(), 0);
    stats.record(1);
    assert_eq!(stats.hits(), 1);
    assert!(stats.recording_time() < std::time::Duration::from_secs(3600));
}
