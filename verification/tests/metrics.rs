use loadfleet::metrics::{
    clamp, high_error_rate, high_latency, mean_micros, rate_milli, success_rate_ppm, sum_of,
    Accumulator, Outcome, Reporter, SlowNotice, HIGH_LATENCY_US, SLOW_NOTICE_INTERVAL_NANOS,
    SLOW_REQUEST_MS,
};
use loadfleet::worker::WorkerProgress;

const SECOND: u64 = 1_000_000_000;

#[test]
fn accumulator_counts_successes_and_errors() {
    let mut acc = Accumulator::new();
    assert_eq!((acc.requests_sent(), acc.requests_success(), acc.requests_error()), (0, 0, 0));
    acc.record_success(Some(12));
    acc.record_success(None);
    acc.record_error();
    acc.record_success(Some(30));
    assert_eq!(acc.requests_sent(), 4);
    assert_eq!(acc.requests_success(), 3);
    assert_eq!(acc.requests_error(), 1);
    assert_eq!(acc.requests_sent(), acc.requests_success() + acc.requests_error());
    assert_eq!(acc.drain(), vec![12, 30]);
    assert!(acc.drain().is_empty());
    assert_eq!(acc.requests_sent(), 4);
}

#[test]
fn run_where_every_request_succeeds() {
    let mut acc = Accumulator::new();
    for _ in 0..500 {
        acc.record_success(Some(1));
    }
    assert_eq!(acc.requests_sent(), 500);
    assert_eq!(acc.requests_success(), 500);
    assert_eq!(acc.requests_error(), 0);
    assert_eq!(success_rate_ppm(acc.requests_success(), acc.requests_sent()), 1_000_000);
}

#[test]
fn report_takes_the_window_and_the_rate_since_the_last_report() {
    let mut acc = Accumulator::new();
    let mut reporter = Reporter::new();
    for ms in [10, 20, 40] {
        acc.record_success(Some(ms));
    }
    acc.record_error();
    let first = reporter.report(&mut acc, SECOND);
    assert_eq!(
        first,
        WorkerProgress {
            requests_sent: 4,
            requests_success: 3,
            requests_error: 1,
            avg_response_time_us: 23_333,
            current_rps_milli: 4_000,
        }
    );
    assert!(first.is_balanced());
    acc.record_success(Some(7));
    acc.record_success(Some(8));
    let second = reporter.report(&mut acc, 500_000_000);
    assert_eq!(
        second,
        WorkerProgress {
            requests_sent: 6,
            requests_success: 5,
            requests_error: 1,
            avg_response_time_us: 7_500,
            current_rps_milli: 4_000,
        }
    );
    let idle = reporter.report(&mut acc, SECOND);
    assert_eq!(
        idle,
        WorkerProgress {
            requests_sent: 6,
            requests_success: 5,
            requests_error: 1,
            avg_response_time_us: 0,
            current_rps_milli: 0,
        }
    );
}

#[test]
fn report_with_no_time_passed_has_no_rate() {
    let mut acc = Accumulator::new();
    let mut reporter = Reporter::new();
    acc.record_error();
    let p = reporter.report(&mut acc, 0);
    assert_eq!(p.current_rps_milli, 0);
    assert_eq!(p.requests_sent, 1);
}

#[test]
fn mean_is_in_microseconds_and_rounded_down() {
    assert_eq!(mean_micros(&vec![]), 0);
    assert_eq!(mean_micros(&vec![5]), 5_000);
    assert_eq!(mean_micros(&vec![1, 2]), 1_500);
    assert_eq!(mean_micros(&vec![1, 1, 2]), 1_333);
    assert_eq!(mean_micros(&vec![0, 0, 0]), 0);
    assert_eq!(mean_micros(&vec![u64::MAX, u64::MAX]), u64::MAX);
    assert_eq!(mean_micros(&vec![u64::MAX / 1000]), (u64::MAX / 1000) * 1000);
}

#[test]
fn sum_does_not_overflow() {
    assert_eq!(sum_of(&vec![]), 0);
    assert_eq!(sum_of(&vec![1, 2, 3]), 6);
    assert_eq!(sum_of(&vec![u64::MAX, u64::MAX, 2]), 2 * (u64::MAX as u128) + 2);
}

#[test]
fn rate_is_in_thousandths_per_second() {
    assert_eq!(rate_milli(0, SECOND), 0);
    assert_eq!(rate_milli(10, SECOND), 10_000);
    assert_eq!(rate_milli(10, 4 * SECOND), 2_500);
    assert_eq!(rate_milli(1, 3 * SECOND), 333);
    assert_eq!(rate_milli(7, 0), 0);
    assert_eq!(rate_milli(1, 1), 1_000_000_000_000);
    assert_eq!(rate_milli(u64::MAX, 1), u64::MAX);
}

#[test]
fn success_rate_is_in_parts_per_million() {
    assert_eq!(success_rate_ppm(0, 0), 0);
    assert_eq!(success_rate_ppm(5, 0), 0);
    assert_eq!(success_rate_ppm(1, 3), 333_333);
    assert_eq!(success_rate_ppm(3, 4), 750_000);
    assert_eq!(success_rate_ppm(u64::MAX, u64::MAX), 1_000_000);
}

#[test]
fn error_rate_is_high_above_one_in_ten() {
    assert!(!high_error_rate(0, 0));
    assert!(!high_error_rate(100, 0));
    assert!(!high_error_rate(100, 10));
    assert!(high_error_rate(100, 11));
    assert!(high_error_rate(1, 1));
    assert!(!high_error_rate(0, 5));
    assert!(high_error_rate(u64::MAX, u64::MAX));
}

#[test]
fn latency_is_high_above_the_threshold() {
    assert_eq!(HIGH_LATENCY_US, 1_500_000);
    assert!(!high_latency(0));
    assert!(!high_latency(1_500_000));
    assert!(high_latency(1_500_001));
}

#[test]
fn slow_notices_are_rate_limited() {
    assert_eq!(SLOW_REQUEST_MS, 2_000);
    assert_eq!(SLOW_NOTICE_INTERVAL_NANOS, 5 * SECOND);
    let mut notice = SlowNotice::new(0);
    assert!(!notice.observe(2_001, 5 * SECOND));
    assert!(!notice.observe(2_000, 6 * SECOND));
    assert!(notice.observe(2_001, 6 * SECOND));
    assert!(!notice.observe(9_000, 11 * SECOND));
    assert!(notice.observe(9_000, 11 * SECOND + 1));
    assert!(!notice.observe(9_000, 3 * SECOND));
}

#[test]
fn clamp_saturates() {
    assert_eq!(clamp(0), 0);
    assert_eq!(clamp(u64::MAX as u128), u64::MAX);
    assert_eq!(clamp(u64::MAX as u128 + 1), u64::MAX);
    assert_eq!(clamp(u128::MAX), u64::MAX);
}

#[test]
fn record_counts_by_outcome() {
    let mut acc = Accumulator::new();
    acc.record(Outcome::Success(Some(4)));
    acc.record(Outcome::Error);
    acc.record(Outcome::Success(None));
    assert_eq!((acc.requests_sent(), acc.requests_success(), acc.requests_error()), (3, 2, 1));
    assert_eq!(acc.drain(), vec![4]);
}

#[test]
fn record_all_counts_a_run() {
    let mut acc = Accumulator::new();
    acc.record_error();
    acc.record_success(Some(1));
    let run = vec![
        Outcome::Success(Some(20)),
        Outcome::Error,
        Outcome::Success(None),
        Outcome::Success(Some(30)),
        Outcome::Error,
    ];
    acc.record_all(&run);
    assert_eq!((acc.requests_sent(), acc.requests_success(), acc.requests_error()), (7, 4, 3));
    assert_eq!(acc.drain(), vec![1, 20, 30]);
    acc.record_all(&vec![]);
    assert_eq!((acc.requests_sent(), acc.requests_success(), acc.requests_error()), (7, 4, 3));
}

#[test]
fn run_in_which_every_unit_succeeds_counts_no_error() {
    let mut acc = Accumulator::new();
    let run: Vec<Outcome> = (0..50u64).map(|i| Outcome::Success(Some(i % 3))).collect();
    acc.record_all(&run);
    assert_eq!(acc.requests_error(), 0);
    assert_eq!(acc.requests_success(), acc.requests_sent());
    assert_eq!(acc.requests_sent(), 50);
    assert_eq!(acc.requests_sent(), acc.requests_success() + acc.requests_error());
    let mut reporter = Reporter::new();
    let p = reporter.report(&mut acc, 5_000_000_000);
    assert!(p.is_balanced());
    assert_eq!(p.requests_error, 0);
    assert_eq!(p.current_rps_milli, 10_000);
}
