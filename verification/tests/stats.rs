use loadfleet::stats::{median_micros, percentile_place, sort_samples, summarize, LatencySummary};

#[test]
fn summary_of_no_samples_is_zero() {
    assert_eq!(
        summarize(&vec![]),
        LatencySummary { min_ms: 0, max_ms: 0, avg_us: 0, median_us: 0, p95_ms: 0, p99_ms: 0 }
    );
}

#[test]
fn summary_of_one_sample() {
    assert_eq!(
        summarize(&vec![42]),
        LatencySummary {
            min_ms: 42,
            max_ms: 42,
            avg_us: 42_000,
            median_us: 42_000,
            p95_ms: 42,
            p99_ms: 42
        }
    );
}

#[test]
fn summary_of_an_even_number_of_samples() {
    assert_eq!(
        summarize(&vec![40, 10, 30, 25]),
        LatencySummary {
            min_ms: 10,
            max_ms: 40,
            avg_us: 26_250,
            median_us: 27_500,
            p95_ms: 40,
            p99_ms: 40
        }
    );
}

#[test]
fn summary_of_a_hundred_samples() {
    let samples: Vec<u64> = (1..=100).rev().collect();
    assert_eq!(
        summarize(&samples),
        LatencySummary {
            min_ms: 1,
            max_ms: 100,
            avg_us: 50_500,
            median_us: 50_500,
            p95_ms: 96,
            p99_ms: 100
        }
    );
}

#[test]
fn summary_saturates_on_huge_samples() {
    let s = summarize(&vec![u64::MAX, u64::MAX]);
    assert_eq!(s.min_ms, u64::MAX);
    assert_eq!(s.max_ms, u64::MAX);
    assert_eq!(s.avg_us, u64::MAX);
    assert_eq!(s.median_us, u64::MAX);
}

#[test]
fn sort_orders_and_keeps_every_sample() {
    assert_eq!(sort_samples(&vec![]), Vec::<u64>::new());
    assert_eq!(sort_samples(&vec![3]), vec![3]);
    assert_eq!(sort_samples(&vec![3, 1, 2, 3, 0, 1]), vec![0, 1, 1, 2, 3, 3]);
    let mut samples: Vec<u64> = Vec::new();
    let mut x: u64 = 12345;
    for _ in 0..1000 {
        x = x.wrapping_mul(6364136223846793005).wrapping_add(1442695040888963407);
        samples.push(x >> 40);
    }
    let mut expected = samples.clone();
    expected.sort();
    assert_eq!(sort_samples(&samples), expected);
}

#[test]
fn percentile_places() {
    assert_eq!(percentile_place(1, 95), 0);
    assert_eq!(percentile_place(2, 95), 1);
    assert_eq!(percentile_place(10, 95), 9);
    assert_eq!(percentile_place(20, 95), 19);
    assert_eq!(percentile_place(21, 95), 19);
    assert_eq!(percentile_place(100, 95), 95);
    assert_eq!(percentile_place(100, 99), 99);
    assert_eq!(percentile_place(200, 99), 198);
    assert_eq!(percentile_place(100, 50), 50);
    assert_eq!(percentile_place(100, 0), 0);
    assert_eq!(percentile_place(100, 100), 99);
    assert_eq!(percentile_place(100, 255), 99);
}

#[test]
fn percentile_places_agree_with_the_fraction_of_the_length() {
    for len in 1usize..2000 {
        assert_eq!(percentile_place(len, 95), ((0.95 * len as f64) as usize).min(len - 1));
        assert_eq!(percentile_place(len, 99), ((0.99 * len as f64) as usize).min(len - 1));
    }
}

#[test]
fn median_of_ordered_samples() {
    assert_eq!(median_micros(&vec![7]), 7_000);
    assert_eq!(median_micros(&vec![1, 2]), 1_500);
    assert_eq!(median_micros(&vec![1, 2, 9]), 2_000);
    assert_eq!(median_micros(&vec![1, 2, 4, 9]), 3_000);
}
