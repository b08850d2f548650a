use perf_counter::PerfCounter;
use perf_counter::SpeedPercent;
use perf_counter::EXPECTED_CYCLES_PER_SECOND;
use perf_counter::HISTORY_SIZE;
use perf_counter::NANOS_PER_SECOND;

const SECOND: u64 = NANOS_PER_SECOND;

/// The percentage a query result denotes, as a float; `None` (no data, or a
/// sample taken with no clock advance) maps to NaN.
fn as_percentage(r: Option<SpeedPercent>) -> f64 {
    match r {
        Some(p) => p.num as f64 / p.den as f64,
        None => f64::NAN,
    }
}

/// Feeds `n` updates of `cycles` work each, with exactly one second elapsed
/// per call, starting from a fresh counter.
fn counter_after_constant_updates(n: u64, cycles: u64) -> PerfCounter {
    let mut c = PerfCounter::new_at(0);
    let mut now: u64 = 0;
    for _ in 0..n {
        now += SECOND;
        c.update_at(cycles, now);
    }
    c
}

#[test]
fn speed_is_finite_and_nonnegative_after_updates() {
    let mut c = PerfCounter::new_at(0);
    let mut now: u64 = 0;
    let work: [u64; 5] = [0, 17, 4194304, 1, 999999999];
    for (i, w) in work.iter().enumerate() {
        now += 1 + (i as u64) * 12345;
        c.update_at(*w, now);
        let pct = as_percentage(c.get_relative_speed());
        assert!(pct.is_finite());
        assert!(pct >= 0.0);
    }
}

#[test]
fn sample_count_is_min_of_updates_and_capacity() {
    // The denominator of the exact fraction is (sample count) * reference
    // rate, so it shows how many samples the window holds.
    for n in [1u64, 10, 63, 64, 65, 130] {
        let c = counter_after_constant_updates(n, 42);
        let p = c.get_relative_speed().unwrap();
        let expected_count = n.min(HISTORY_SIZE as u64);
        assert_eq!(p.den, expected_count as u128 * EXPECTED_CYCLES_PER_SECOND as u128);
    }
}

#[test]
fn fifo_eviction_drops_first_sample_after_65_updates() {
    // Sample value of update i (1-based) is exactly i cycles per second.
    let mut c = PerfCounter::new_at(0);
    let mut now: u64 = 0;
    for i in 1u64..=65 {
        now += SECOND;
        c.update_at(i, now);
    }
    let p = c.get_relative_speed().unwrap();
    // Samples 2..=65 remain; sample 1 was evicted.
    let sum_remaining: u128 = (2..=65u128).sum();
    assert_eq!(p.num, 100 * sum_remaining);
    assert_eq!(p.den, 64 * EXPECTED_CYCLES_PER_SECOND as u128);
    // With sample 1 still present the numerator would differ by 100.
    assert_ne!(p.num, 100 * (sum_remaining + 1));
}

#[test]
fn constant_work_yields_exact_mean() {
    let cycles: u64 = 12345;
    let c = counter_after_constant_updates(7, cycles);
    let p = c.get_relative_speed().unwrap();
    assert_eq!(p.num, 100 * 7 * cycles as u128);
    assert_eq!(p.den, 7 * EXPECTED_CYCLES_PER_SECOND as u128);
    let expected = (cycles as f64 / EXPECTED_CYCLES_PER_SECOND as f64) * 100.0;
    assert!((as_percentage(Some(p)) - expected).abs() < 1e-9);
}

#[test]
fn full_rate_reads_one_hundred_percent() {
    let c = counter_after_constant_updates(10, 4194304);
    let pct = as_percentage(c.get_relative_speed());
    assert!((pct - 100.0).abs() < 1e-9);
}

#[test]
fn half_rate_reads_fifty_percent() {
    let c = counter_after_constant_updates(10, 2097152);
    let pct = as_percentage(c.get_relative_speed());
    assert!((pct - 50.0).abs() < 1e-9);
}

#[test]
fn no_updates_yields_no_speed() {
    let c = PerfCounter::new_at(12345);
    assert_eq!(c.get_relative_speed(), None);
    assert!(as_percentage(c.get_relative_speed()).is_nan());
}

#[test]
fn reading_twice_returns_identical_values() {
    let c = counter_after_constant_updates(3, 777);
    let first = c.get_relative_speed();
    let second = c.get_relative_speed();
    assert_eq!(first, second);
    let empty = PerfCounter::new_at(0);
    assert_eq!(empty.get_relative_speed(), empty.get_relative_speed());
}

#[test]
fn zero_work_yields_zero_percent() {
    let c = counter_after_constant_updates(4, 0);
    let p = c.get_relative_speed().unwrap();
    assert_eq!(p.num, 0);
    assert_eq!(as_percentage(Some(p)), 0.0);
}

#[test]
fn rate_is_floored_when_elapsed_does_not_divide() {
    let mut c = PerfCounter::new_at(0);
    // 1 cycle in 3 nanoseconds: 1_000_000_000 / 3 cycles per second, floored.
    c.update_at(1, 3);
    let p = c.get_relative_speed().unwrap();
    assert_eq!(p.num, 100 * 333333333);
    assert_eq!(p.den, EXPECTED_CYCLES_PER_SECOND as u128);
}

#[test]
fn stalled_clock_makes_speed_undefined_until_evicted() {
    let mut c = PerfCounter::new_at(0);
    c.update_at(100, SECOND);
    // The clock did not advance: this sample has no defined rate.
    c.update_at(100, SECOND);
    assert_eq!(c.get_relative_speed(), None);
    // A clock that moved backward behaves the same way.
    c.update_at(100, SECOND / 2);
    assert_eq!(c.get_relative_speed(), None);
    // Once enough updates evict the undefined samples, the speed is defined
    // again.
    let mut now = SECOND / 2;
    for _ in 0..HISTORY_SIZE {
        now += SECOND;
        c.update_at(9, now);
    }
    let p = c.get_relative_speed().unwrap();
    assert_eq!(p.num, 100 * (HISTORY_SIZE as u128) * 9);
    assert_eq!(p.den, (HISTORY_SIZE as u128) * EXPECTED_CYCLES_PER_SECOND as u128);
}

#[test]
fn real_clock_counter_runs() {
    // Exercises the platform clock: the number of samples is still the
    // number of updates, whatever timestamps the clock yielded.
    let mut c = PerfCounter::new();
    assert_eq!(c.get_relative_speed(), None);
    c.update(4194304);
    c.update(4194304);
    c.update(4194304);
    match c.get_relative_speed() {
        Some(p) => {
            assert_eq!(p.den, 3 * EXPECTED_CYCLES_PER_SECOND as u128);
        },
        // Possible only if the clock failed to advance between calls.
        None => {},
    }
}
