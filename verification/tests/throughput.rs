use tunmux_speedtest::num::rate::Rate;
use tunmux_speedtest::speedtest::throughput::{
    blend, compute_mst, BlendedRate, Bucket, BucketStream, MstAlgoConfig, ThroughputCalculator,
    ThroughputResult, TransferConfig,
};

/// Bytes per second.
fn speed(rate: Rate) -> f64 {
    if rate.ticks == 0 {
        0.0
    } else {
        rate.bytes as f64 / (rate.ticks as f64 / 1_000.0)
    }
}

fn blended_speed(rate: BlendedRate) -> f64 {
    match rate {
        BlendedRate::Average(average) => speed(average),
        BlendedRate::Mixed { average, mst, elapsed_ms, duration_ms } => {
            let ratio = elapsed_ms as f64 / duration_ms as f64;
            ratio * speed(mst) + (1.0 - ratio) * speed(average)
        }
    }
}

fn per_second(bytes: u128) -> Rate {
    Rate { bytes, ticks: 1_000 }
}

#[test]
fn bucket_stream_closes_at_correct_boundaries() {
    let mut stream = BucketStream::new(500);
    for step in 0..=30 {
        let t: u64 = step * 50;
        stream.record(t, t * 1000);
    }
    let buckets = stream.buckets();
    assert_eq!(buckets.len(), 3);
    assert_eq!(buckets[0].start_ms, 0);
    assert_eq!(buckets[0].stop_ms, 500);
    assert_eq!(buckets[1].start_ms, 500);
    assert_eq!(buckets[1].stop_ms, 1000);
    assert_eq!(buckets[2].start_ms, 1000);
    assert_eq!(buckets[2].stop_ms, 1500);
}

#[test]
fn bucket_stream_bytes_accumulate_correctly() {
    let mut stream = BucketStream::new(500);
    for step in 0..=20 {
        let t: u64 = step * 50;
        stream.record(t, t * 2000);
    }
    let buckets = stream.buckets();
    assert_eq!(buckets.len(), 2);
    assert_eq!(buckets[0].bytes, 1_000_000);
    assert_eq!(buckets[1].bytes, 1_000_000);
}

#[test]
fn bucket_stream_750ms_boundaries() {
    let mut stream = BucketStream::new(750);
    for step in 0..=30 {
        let t: u64 = step * 50;
        stream.record(t, t * 1000);
    }
    let buckets = stream.buckets();
    assert_eq!(buckets.len(), 2);
    assert_eq!(buckets[0].start_ms, 0);
    assert_eq!(buckets[0].stop_ms, 750);
    assert_eq!(buckets[1].start_ms, 750);
    assert_eq!(buckets[1].stop_ms, 1500);
}

#[test]
fn mst_skips_warmup_and_trims_outliers() {
    let buckets = vec![
        Bucket {
            start_ms: 0,
            stop_ms: 500,
            bytes: 100_000,
            total_bytes: 100_000,
        },
        Bucket {
            start_ms: 500,
            stop_ms: 1000,
            bytes: 200_000,
            total_bytes: 300_000,
        },
        Bucket {
            start_ms: 1000,
            stop_ms: 1500,
            bytes: 50_000,
            total_bytes: 350_000,
        },
        Bucket {
            start_ms: 1500,
            stop_ms: 2000,
            bytes: 500_000,
            total_bytes: 850_000,
        },
        Bucket {
            start_ms: 2000,
            stop_ms: 2500,
            bytes: 500_000,
            total_bytes: 1_350_000,
        },
        Bucket {
            start_ms: 2500,
            stop_ms: 3000,
            bytes: 500_000,
            total_bytes: 1_850_000,
        },
    ];
    let config = MstAlgoConfig { keep_percent: 66, warmup_buckets: 2 };
    let result = compute_mst(&buckets, &config);
    assert_eq!(result, Rate { bytes: 1_500_000, ticks: 1_500 });
    let result = speed(result);
    assert!(
        (result - 1_000_000.0).abs() < 1.0,
        "expected ~1M B/s, got {result}"
    );
}

#[test]
fn trimming_keeps_the_fullest_whatever_came_first() {
    let bucket = |index: u64, bytes: u64| Bucket {
        start_ms: index * 500,
        stop_ms: index * 500 + 500,
        bytes,
        total_bytes: 0,
    };
    let run = |bytes: &[u64]| -> Vec<Bucket> {
        bytes.iter().enumerate().map(|(index, bytes)| bucket(index as u64, *bytes)).collect()
    };
    let config = MstAlgoConfig { keep_percent: 66, warmup_buckets: 2 };
    // 2 of 6 are dropped
    let expected = Rate { bytes: 90 + 70 + 60 + 50, ticks: 2_000 };
    assert_eq!(compute_mst(&run(&[1, 2, 90, 10, 50, 60, 70, 20]), &config), expected);
    assert_eq!(compute_mst(&run(&[999, 0, 10, 20, 50, 60, 70, 90]), &config), expected);
    let all = MstAlgoConfig { keep_percent: 250, warmup_buckets: 2 };
    assert_eq!(compute_mst(&run(&[9, 9, 1, 2, 3]), &all), Rate { bytes: 6, ticks: 1_500 });
}

#[test]
fn blend_early_favors_average() {
    let avg = per_second(1_000_000);
    let mst = per_second(1_500_000);
    let blended = blended_speed(blend(10_000, avg, mst, 1000));
    assert!(
        (blended - 1_050_000.0).abs() < 1.0,
        "at 10% elapsed: expected 1_050_000, got {blended}"
    );
}

#[test]
fn blend_late_favors_mst() {
    let avg = per_second(1_000_000);
    let mst = per_second(1_200_000);
    let blended = blended_speed(blend(10_000, avg, mst, 9000));
    assert!(
        (blended - 1_180_000.0).abs() < 1.0,
        "at 90% elapsed: expected 1_180_000, got {blended}"
    );
}

#[test]
fn blend_mst_below_average_returns_average() {
    let avg = per_second(1_200_000);
    let mst = per_second(800_000);
    let blended = blend(10_000, avg, mst, 9000);
    assert_eq!(blended, BlendedRate::Average(avg));
    assert!((blended_speed(blended) - 1_200_000.0).abs() < 1.0);
}

#[test]
fn cv_stable_triggers_early_exit() {
    let mut calc = ThroughputCalculator::new(20_000);
    for step in 0..=80 {
        let t: u64 = step * 50;
        calc.record_sample(t, t * 1_000_000);
    }
    assert!(calc.finish().buckets_500ms.len() >= 6);
    assert!(
        calc.should_stop_early(3000),
        "stable throughput should trigger early exit"
    );
}

#[test]
fn cv_noisy_prevents_early_exit() {
    let mut calc = ThroughputCalculator::new(20_000);
    let mut bytes: u64 = 0;
    for step in 0..=80 {
        let t: u64 = step * 50;
        let bucket_index = t / 500;
        let rate: u64 = if bucket_index % 2 == 0 {
            2_000_000
        } else {
            100_000
        };
        bytes += 50 * rate;
        calc.record_sample(t, bytes);
    }
    assert!(
        !calc.should_stop_early(3000),
        "noisy throughput should not trigger early exit"
    );
}

#[test]
fn zero_bytes_returns_zero_speed() {
    let mut calc = ThroughputCalculator::new(10_000);
    for step in 0..=100 {
        let bps = blended_speed(calc.record_sample(step * 50, 0));
        assert_eq!(bps, 0.0);
    }
    let result = calc.finish();
    assert_eq!(blended_speed(result.blended_bps), 0.0);
    assert_eq!(speed(result.average_bps), 0.0);
}

#[test]
fn insufficient_buckets_falls_back_to_average() {
    let mut calc = ThroughputCalculator::new(10_000);
    for step in 0..=12 {
        let t: u64 = step * 50;
        calc.record_sample(t, t * 1000);
    }
    let result = calc.finish();
    let blended = blended_speed(result.blended_bps);
    assert!(blended > 0.0);
    assert!(
        (blended - speed(result.average_bps)).abs() < 1.0,
        "with insufficient buckets, blended should equal average"
    );
}

#[test]
fn superspeed_finds_burst_window() {
    let mut calc = ThroughputCalculator::new(10_000);
    for step in 0..=120 {
        let t: u64 = step * 50;
        calc.record_sample(t, t * 1000);
    }
    let base_bytes: u64 = 6000 * 1000;
    for step in 121..=200 {
        let t: u64 = step * 50;
        let burst_delta = (t - 6000) * 5000;
        calc.record_sample(t, base_bytes + burst_delta);
    }
    let result = calc.finish();
    assert!(result.superspeed_bps.exceeds(result.average_bps));
    assert!(
        speed(result.superspeed_bps) > speed(result.average_bps),
        "superspeed ({}) should exceed average ({})",
        speed(result.superspeed_bps),
        speed(result.average_bps)
    );
}

#[test]
fn should_stop_early_respects_min_duration() {
    let mut calc = ThroughputCalculator::new(20_000);
    for step in 0..=80 {
        let t: u64 = step * 50;
        calc.record_sample(t, t * 1_000_000);
    }
    assert!(
        !calc.should_stop_early(5000),
        "should not exit before min_duration"
    );
    assert!(
        calc.should_stop_early(3000),
        "should exit when past min_duration and stable"
    );
}

#[test]
fn record_sample_returns_blended_speed() {
    let mut calc = ThroughputCalculator::new(10_000);
    let mut last_bps = 0.0;
    for step in 0..=100 {
        let t: u64 = step * 50;
        last_bps = blended_speed(calc.record_sample(t, t * 1_000_000));
    }
    assert!(last_bps > 0.0, "blended speed should be positive");
    assert!(
        (last_bps - 1_000_000_000.0).abs() / 1_000_000_000.0 < 0.1,
        "blended speed should be near 1GB/s, got {last_bps}"
    );
}

#[test]
fn finish_returns_all_algorithm_results() {
    let mut calc = ThroughputCalculator::new(10_000);
    for step in 0..=200 {
        let t: u64 = step * 50;
        calc.record_sample(t, t * 500_000);
    }
    let result = calc.finish();
    assert!(speed(result.average_bps) > 0.0);
    assert!(speed(result.mst_66_30_bps) > 0.0);
    assert!(speed(result.mst_66_20_bps) > 0.0);
    assert!(speed(result.mst_75_30_bps) > 0.0);
    assert!(blended_speed(result.blended_bps) > 0.0);
    assert!(result.total_bytes > 0);
    assert!(result.elapsed_ms > 0);
    assert!(!result.buckets_500ms.is_empty());
}

#[test]
fn throughput_result_mbps_conversions() {
    let result = ThroughputResult {
        average_bps: per_second(125_000_000),
        mst_66_30_bps: per_second(130_000_000),
        mst_66_20_bps: per_second(128_000_000),
        mst_75_30_bps: per_second(127_000_000),
        blended_bps: BlendedRate::Average(per_second(129_000_000)),
        superspeed_bps: per_second(140_000_000),
        buckets_500ms: vec![],
        total_bytes: 1_250_000_000,
        elapsed_ms: 10_000,
    };
    let average = result.average_mbps();
    let mst = result.mst_mbps();
    assert!((average.num as f64 / average.den as f64 - 1000.0).abs() < 0.01);
    assert!((mst.num as f64 / mst.den as f64 - 1040.0).abs() < 0.01);
    assert!((blended_speed(result.blended_bps) * 8.0 / 1_000_000.0 - 1032.0).abs() < 0.01);
}

#[test]
fn desired_connections_scales_with_speed() {
    let mut calc = ThroughputCalculator::new(10_000);
    // Feed 1s of data at 12Mbps = 1_500_000 bytes/s
    for step in 0..=20 {
        let t: u64 = step * 50;
        calc.record_sample(t, t * 1_500);
    }
    // 12Mbps / 6Mbps = 2
    let desired = calc.desired_connections(16);
    assert_eq!(desired, 2);
}

#[test]
fn desired_connections_locks_after_half_elapsed() {
    let mut calc = ThroughputCalculator::new(10_000);
    // Feed 6s of data
    for step in 0..=120 {
        let t: u64 = step * 50;
        calc.record_sample(t, t * 1_500);
    }
    // After 60% elapsed, connections should lock
    let locked = calc.desired_connections(16);
    // Change speed dramatically: it makes no difference any more
    calc.record_sample(7000, 7000 * 100_000);
    assert_eq!(calc.desired_connections(16), locked);
}

#[test]
fn desired_connections_clamps_to_max() {
    let mut calc = ThroughputCalculator::new(10_000);
    // Feed very high speed: 1Gbps = 125_000_000 B/s
    for step in 0..=20 {
        let t: u64 = step * 50;
        calc.record_sample(t, t * 125_000_000);
    }
    assert_eq!(calc.desired_connections(8), 8);
}

#[test]
fn suggested_request_size_scales_with_speed() {
    let mut calc = ThroughputCalculator::new(10_000);
    // Feed 100Mbps = 12_500_000 B/s for 1s
    for step in 0..=20 {
        let t: u64 = step * 50;
        calc.record_sample(t, t * 12_500);
    }
    // With 4 connections and 8s remaining: target 1s * 12.5MB/s / 4, about 3.1MB
    let size = calc.suggested_request_size(4, 8000, &test_transfer_config());
    assert!(size > 2_000_000 && size < 5_000_000, "got {size}");
    assert_eq!(size, 3_125_000);
}

#[test]
fn suggested_request_size_shrinks_near_end() {
    let mut calc = ThroughputCalculator::new(10_000);
    for step in 0..=20 {
        let t: u64 = step * 50;
        calc.record_sample(t, t * 12_500);
    }
    let config = test_transfer_config();
    let size_normal = calc.suggested_request_size(4, 8000, &config);
    let size_near_end = calc.suggested_request_size(4, 500, &config);
    assert!(
        size_near_end < size_normal,
        "near-end ({size_near_end}) should be smaller than normal ({size_normal})"
    );
}

#[test]
fn suggested_request_size_returns_min_with_no_speed() {
    let calc = ThroughputCalculator::new(10_000);
    let size = calc.suggested_request_size(4, 8000, &test_transfer_config());
    assert_eq!(size, 32 * 1024);
}

#[test]
fn suggested_request_size_honors_longer_download_target() {
    let mut calc = ThroughputCalculator::new(10_000);
    for step in 0..=20 {
        let t: u64 = step * 50;
        calc.record_sample(t, t * 12_500);
    }

    let mut config = test_transfer_config();
    config.request_target_ms = 5_000;
    config.min_request_size = 25_000_000;
    config.max_request_size = 250_000_000;

    let size = calc.suggested_request_size(4, 8_000, &config);
    assert_eq!(size, 25_000_000);
}

fn test_transfer_config() -> TransferConfig {
    TransferConfig {
        connections: 4,
        initial_connections: 4,
        max_seconds: 10,
        progress_interval_nanos: None,
        request_target_ms: 1_000,
        start_request_size: 1_048_576,
        min_request_size: 32 * 1024,
        max_request_size: 25 * 1024 * 1024,
    }
}

#[test]
fn late_samples_fill_the_buckets_they_pass() {
    let mut stream = BucketStream::new(500);
    stream.record(0, 0);
    stream.record(1_700, 900);
    let buckets = stream.buckets();
    assert_eq!(buckets.len(), 3);
    assert_eq!(buckets[0].bytes, 900);
    assert_eq!(buckets[1].bytes, 0);
    assert_eq!(buckets[2].bytes, 0);
    assert_eq!(buckets[2].stop_ms, 1_500);
    let total: u64 = buckets.iter().map(|bucket| bucket.bytes).sum();
    assert_eq!(total, 900);
}

#[test]
fn little_speed_calls_for_no_connection() {
    let mut calc = ThroughputCalculator::new(10_000);
    assert_eq!(calc.desired_connections(16), 0);
    calc.record_sample(100, 1);
    assert_eq!(calc.desired_connections(4), 0);
    // half of 6 Mbit/s
    calc.record_sample(100, 37_500);
    assert_eq!(calc.desired_connections(4), 1);
    assert_eq!(calc.desired_connections(0), 0);
}

#[test]
fn requests_are_small_at_the_very_end() {
    let mut calc = ThroughputCalculator::new(10_000);
    for step in 0..=20 {
        let t: u64 = step * 50;
        calc.record_sample(t, t * 12_500);
    }
    let config = test_transfer_config();
    assert_eq!(calc.suggested_request_size(4, 0, &config), 312_500);
    assert_eq!(calc.suggested_request_size(4, 199, &config), 312_500);
    assert_eq!(calc.suggested_request_size(4, 1_999, &config), 3_121_875);
    assert_eq!(calc.suggested_request_size(4, 2_000, &config), 3_125_000);
}

#[test]
fn initial_connections_are_clamped() {
    let mut config = test_transfer_config();
    config.initial_connections = 0;
    assert_eq!(config.initial_connections(), 1);
    config.initial_connections = 9;
    assert_eq!(config.initial_connections(), 4);
    config.connections = 0;
    assert_eq!(config.initial_connections(), 1);
}

#[test]
fn a_blend_lies_between_its_speeds() {
    let avg = per_second(1_000_000);
    let mst = per_second(2_000_000);
    for elapsed in [0_u64, 1, 5_000, 10_000, 50_000] {
        let blended = blended_speed(blend(10_000, avg, mst, elapsed));
        assert!((1_000_000.0..=2_000_000.0).contains(&blended));
    }
    assert_eq!(blended_speed(blend(10_000, avg, mst, 50_000)), 2_000_000.0);
}

/// A transfer that comes in uneven portions, from a small random generator.
fn uneven_transfer(seed: u64, count: u64, step: u64, spread: u64, most: u64) -> Vec<(u64, u64)> {
    let mut state = seed;
    let mut next = || {
        state = state.wrapping_mul(6_364_136_223_846_793_005).wrapping_add(1_442_695_040_888_963_407);
        state >> 33
    };
    let mut bytes = 0;
    (1..=count)
        .map(|index| {
            let elapsed = index * step + next() % spread;
            bytes += next() % most;
            (elapsed, bytes)
        })
        .collect()
}

fn near(actual: f64, expected: f64) -> bool {
    (actual - expected).abs() <= expected.abs() * 1e-9 + 1e-6
}

fn check_figures(duration_ms: u64, samples: &[(u64, u64)], expected: [f64; 6], connections: usize) {
    let mut calc = ThroughputCalculator::new(duration_ms);
    calc.record_sample(0, 0);
    for (elapsed, bytes) in samples {
        calc.record_sample(*elapsed, *bytes);
    }
    let result = calc.finish();
    let figures = [
        speed(result.average_bps),
        speed(result.mst_66_30_bps),
        speed(result.mst_66_20_bps),
        speed(result.mst_75_30_bps),
        blended_speed(result.blended_bps),
        speed(result.superspeed_bps),
    ];
    for (actual, expected) in figures.into_iter().zip(expected) {
        assert!(near(actual, expected), "expected {expected}, got {actual}");
    }
    assert_eq!(calc.desired_connections(24), connections);
    assert!(!calc.should_stop_early(0));
}

#[test]
fn uneven_transfers_have_their_figures() {
    check_figures(
        10_000,
        &uneven_transfer(1, 180, 50, 20, 900_000),
        [8665131.143903, 9522271.818182, 9473234.666667, 9343154.5, 9437672.033631, 0.0],
        12,
    );
    check_figures(
        15_000,
        &uneven_transfer(9, 60, 150, 100, 4_000_000),
        [12487867.304310, 14671634.0, 14076696.761905, 14205900.0, 13812103.428576, 0.0],
        17,
    );
    check_figures(
        8_000,
        &uneven_transfer(3, 220, 50, 40, 200_000),
        [2046446.159433, 2240062.615385, 2226737.666667, 2195915.066667, 2240062.615385, 2235014.25],
        3,
    );
}
