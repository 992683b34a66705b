use nuts::stats::{
    average, histogram_ranges, isqrt, peak_rps, percentile, rate_permyriad, sorted_copy, std_dev,
};

#[test]
fn average_of_empty_batch_is_zero() {
    let lats: Vec<u32> = Vec::new();
    assert_eq!(average(&lats), 0);
}

#[test]
fn average_is_the_floor_of_the_arithmetic_mean() {
    assert_eq!(average(&vec![1, 2, 3, 4]), 2); // 10 / 4
    assert_eq!(average(&vec![10, 20, 30]), 20);
    assert_eq!(average(&vec![7]), 7);
    assert_eq!(average(&vec![1, 2]), 1); // 3 / 2 rounds down
}

#[test]
fn average_matches_float_mean_within_one_millisecond() {
    // The engine's integer mean is the floor of the exact mean, so it sits
    // within 1 ms of the floating-point value for any finite batch.
    let batches: Vec<Vec<u32>> = vec![
        vec![3, 1, 4, 1, 5, 9, 2, 6],
        vec![1000, 2000, 2500],
        vec![17, 18, 19, 20, 21],
    ];
    for lats in batches {
        let exact: f64 = lats.iter().map(|&x| x as f64).sum::<f64>() / lats.len() as f64;
        let got = average(&lats) as f64;
        assert!(got <= exact && exact - got < 1.0);
    }
}

#[test]
fn sorted_copy_sorts_ascending() {
    let v = vec![5, 1, 4, 1, 3];
    assert_eq!(sorted_copy(&v), vec![1, 1, 3, 4, 5]);
    let empty: Vec<u32> = Vec::new();
    assert_eq!(sorted_copy(&empty), empty);
}

#[test]
fn percentile_uses_the_nearest_rank_index() {
    let lats = vec![100, 200, 300, 400, 500];
    // index = round(p/100 * 4)
    assert_eq!(percentile(&lats, 0), 100);
    assert_eq!(percentile(&lats, 50), 300);
    assert_eq!(percentile(&lats, 95), 500);
    assert_eq!(percentile(&lats, 99), 500);
    assert_eq!(percentile(&lats, 100), 500);
}

#[test]
fn percentile_sorts_its_input_first() {
    assert_eq!(percentile(&vec![5, 1, 3], 50), 3);
}

#[test]
fn percentile_of_empty_batch_is_zero() {
    let lats: Vec<u32> = Vec::new();
    assert_eq!(percentile(&lats, 99), 0);
}

#[test]
fn percentiles_are_monotone_in_p() {
    let lats = vec![12, 99, 7, 340, 340, 2, 56];
    let p50 = percentile(&lats, 50);
    let p95 = percentile(&lats, 95);
    let p99 = percentile(&lats, 99);
    assert!(p50 <= p95 && p95 <= p99);
}

#[test]
fn std_dev_of_known_batch() {
    // mean 5, squared deviations sum to 32, variance 4.
    assert_eq!(std_dev(&vec![2, 4, 4, 4, 5, 5, 7, 9]), 2);
}

#[test]
fn std_dev_degenerate_batches_are_zero() {
    let empty: Vec<u32> = Vec::new();
    assert_eq!(std_dev(&empty), 0);
    assert_eq!(std_dev(&vec![42]), 0);
    assert_eq!(std_dev(&vec![6, 6, 6]), 0);
}

#[test]
fn isqrt_rounds_down() {
    assert_eq!(isqrt(0), 0);
    assert_eq!(isqrt(1), 1);
    assert_eq!(isqrt(15), 3);
    assert_eq!(isqrt(16), 4);
    assert_eq!(isqrt(u64::MAX), u32::MAX);
}

#[test]
fn histogram_buckets_by_the_fixed_thresholds() {
    let lats = vec![100, 900, 1500, 2500, 799, 800];
    let h = histogram_ranges(&lats);
    assert_eq!(h.under_800_ms, 2); // 100, 799
    assert_eq!(h.under_1200_ms, 2); // 900, 800
    assert_eq!(h.under_2000_ms, 1); // 1500
    assert_eq!(h.over_2000_ms, 1); // 2500
}

#[test]
fn histogram_counts_sum_to_the_batch_size() {
    let lats = vec![1, 799, 800, 1199, 1200, 1999, 2000, 9999, 0];
    let h = histogram_ranges(&lats);
    assert_eq!(h.under_800_ms + h.under_1200_ms + h.under_2000_ms + h.over_2000_ms, lats.len());
}

#[test]
fn peak_rps_is_the_maximum_bucket_count() {
    assert_eq!(peak_rps(&vec![(0, 3), (1, 7), (2, 5)]), 7);
    let none: Vec<(u64, usize)> = Vec::new();
    assert_eq!(peak_rps(&none), 0);
}

#[test]
fn rate_permyriad_handles_the_empty_denominator() {
    assert_eq!(rate_permyriad(0, 0), 0);
    assert_eq!(rate_permyriad(1, 2), 5000);
    assert_eq!(rate_permyriad(3, 4), 7500);
    assert_eq!(rate_permyriad(10, 10), 10000);
}
