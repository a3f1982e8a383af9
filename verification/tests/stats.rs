use codec_bench::error::BenchError;
use codec_bench::stats::{byte_volume, DeStats, RunInfo, SerStats, Spread, Tally};
use codec_bench::timing::{duration_ns, whole_nanos};

fn info(iterations: u64) -> RunInfo {
    RunInfo { strategy: "bincode", version: "eager prealloc", output: "vec", debug: false, iterations }
}

fn tally_of(keep: bool, runs: &[u64]) -> Tally {
    let mut tally = Tally::new(keep);
    for r in runs {
        tally.record(*r);
    }
    tally
}

#[test]
fn whole_nanos_is_seconds_times_a_billion_plus_the_fraction() {
    assert_eq!(whole_nanos(0, 0), Some(0));
    assert_eq!(whole_nanos(0, 999_999_999), Some(999_999_999));
    assert_eq!(whole_nanos(3, 5), Some(3_000_000_005));
    assert_eq!(whole_nanos(18_446_744_073, 709_551_615), Some(u64::MAX));
}

#[test]
fn whole_nanos_beyond_u64_is_none() {
    assert_eq!(whole_nanos(18_446_744_073, 709_551_616), None);
    assert_eq!(whole_nanos(18_446_744_074, 0), None);
    assert_eq!(whole_nanos(u64::MAX, 0), None);
}

#[test]
fn duration_ns_hands_back_what_the_work_returned() {
    let (nanos, value) = duration_ns(|| (0..1000u64).sum::<u64>());
    assert_eq!(value, 499_500);
    assert!(nanos.is_some());
    let owned = vec![1u8, 2, 3];
    let (_, moved) = duration_ns(move || owned);
    assert_eq!(moved, vec![1, 2, 3]);
}

#[test]
fn tally_counts() {
    let mut tally = Tally::new(true);
    assert_eq!(tally.count(), 0);
    tally.record(5);
    tally.record(5);
    assert_eq!(tally.count(), 2);
}

#[test]
fn summary_of_retained_runs() {
    let stats = tally_of(true, &[30, 10, 25, 10, 41]).finish(5).unwrap();
    assert_eq!(stats.total_ns, 116);
    assert_eq!(stats.avg_ns, 23);
    assert_eq!(stats.spread, Some(Spread { runs: vec![30, 10, 25, 10, 41], min_ns: 10, max_ns: 41 }));
}

#[test]
fn summary_without_retained_runs() {
    let stats = tally_of(false, &[30, 10, 25, 10, 41]).finish(5).unwrap();
    assert_eq!(stats.total_ns, 116);
    assert_eq!(stats.avg_ns, 23);
    assert_eq!(stats.spread, None);
}

#[test]
fn average_truncates() {
    assert_eq!(tally_of(true, &[1, 2]).finish(2).unwrap().avg_ns, 1);
    assert_eq!(tally_of(true, &[0, 0, 2]).finish(3).unwrap().avg_ns, 0);
    assert_eq!(tally_of(true, &[7]).finish(1).unwrap().avg_ns, 7);
}

#[test]
fn sums_beyond_u64_are_exact() {
    let stats = tally_of(true, &[u64::MAX, u64::MAX, u64::MAX - 3]).finish(3).unwrap();
    assert_eq!(stats.total_ns, 3 * (u64::MAX as u128) - 3);
    assert_eq!(stats.avg_ns, u64::MAX - 1);
    let spread = stats.spread.unwrap();
    assert_eq!(spread.min_ns, u64::MAX - 3);
    assert_eq!(spread.max_ns, u64::MAX);
}

#[test]
fn average_is_within_rounding_of_the_sum() {
    let runs = [17u64, 0, 99, 3, 3, 1_000_000_007, 12];
    let stats = tally_of(true, &runs).finish(runs.len() as u64).unwrap();
    let n = runs.len() as u128;
    let sum: u128 = runs.iter().map(|r| *r as u128).sum();
    assert_eq!(stats.total_ns, sum);
    assert!(stats.avg_ns as u128 * n <= sum);
    assert!(sum < stats.avg_ns as u128 * n + n);
}

#[test]
fn extremes_enclose_every_run() {
    let runs = [17u64, 0, 99, 3, 3, 1_000_000_007, 12];
    let spread = tally_of(true, &runs).finish(7).unwrap().spread.unwrap();
    assert_eq!(spread.min_ns, 0);
    assert_eq!(spread.max_ns, 1_000_000_007);
    assert!(spread.runs.iter().all(|r| spread.min_ns <= *r && *r <= spread.max_ns));
}

#[test]
fn finish_with_zero_iterations_is_an_error() {
    assert_eq!(tally_of(true, &[]).finish(0), Err(BenchError::ZeroIterations));
    assert_eq!(tally_of(true, &[1]).finish(0), Err(BenchError::ZeroIterations));
}

#[test]
fn finish_with_another_count_is_incomplete() {
    assert_eq!(tally_of(true, &[1, 2]).finish(3), Err(BenchError::Incomplete));
    assert_eq!(tally_of(false, &[]).finish(1), Err(BenchError::Incomplete));
}

#[test]
fn byte_volume_is_the_product() {
    assert_eq!(byte_volume(30, 3), 90);
    assert_eq!(byte_volume(0, 100), 0);
    assert_eq!(byte_volume(u64::MAX, u64::MAX), (u64::MAX as u128) * (u64::MAX as u128));
}

#[test]
fn records_of_both_phases() {
    let ser = SerStats::new(info(3), 30, tally_of(false, &[4, 5, 7])).unwrap();
    assert_eq!(
        ser,
        SerStats { info: info(3), size: 30, total_bytes: 90, total_ns: 16, avg_ns: 5, spread: None }
    );
    let de = DeStats::new(info(2), 177, tally_of(true, &[9, 2])).unwrap();
    assert_eq!(
        de,
        DeStats {
            info: info(2),
            total_bytes: 354,
            total_ns: 11,
            avg_ns: 5,
            spread: Some(Spread { runs: vec![9, 2], min_ns: 2, max_ns: 9 }),
        }
    );
    assert_eq!(SerStats::new(info(0), 1, tally_of(true, &[])), Err(BenchError::ZeroIterations));
    assert_eq!(DeStats::new(info(0), 1, tally_of(true, &[])), Err(BenchError::ZeroIterations));
    assert_eq!(SerStats::new(info(2), 1, tally_of(true, &[1])), Err(BenchError::Incomplete));
    assert_eq!(DeStats::new(info(2), 1, tally_of(true, &[1, 1, 1])), Err(BenchError::Incomplete));
}
