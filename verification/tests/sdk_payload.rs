use tunmux_speedtest::model::{
    BenchmarkResult, ClientMeta, RunResult, SdkArtifacts, Server, ThroughputInterval,
};
use tunmux_speedtest::num::fraction::Fraction;
use tunmux_speedtest::num::rate::Rate;
use tunmux_speedtest::num::scalar::Scalar;
use tunmux_speedtest::speedtest::sdk_payload::buckets::{
    build_buckets, BucketRules, SdkTransferSample,
};
use tunmux_speedtest::speedtest::sdk_payload::latency::Pings;
use tunmux_speedtest::speedtest::sdk_payload::metadata::{infer_protocols, split_client_ips};
use tunmux_speedtest::speedtest::sdk_payload::selection::{parse_host_and_port, split_host_port};
use tunmux_speedtest::speedtest::sdk_payload::throughput::{
    build_speed_profile, calculate_average_speed, calculate_mst_speed, calculate_superspeed,
    SdkCombinedSpeed, SdkThroughputSample,
    SpeedFigure,
};
use tunmux_speedtest::speedtest::sdk_payload::util::{
    bps_to_sdk_units, calculate_result_hash, format_millis, generate_sdk_guid, hash_input,
    hash_with, mbps_to_bps, sdk_guid,
};
use tunmux_speedtest::speedtest::sdk_payload::{build_sdk_result_payload, SdkPayload};

fn scalar(value: f64) -> Scalar {
    Scalar { bits: value.to_bits() }
}

/// A speed profile with bits per second throughout.
fn bits(figure: SpeedFigure) -> f64 {
    match figure {
        SpeedFigure::Reported(bps) => bps as f64,
        SpeedFigure::Measured(rate) => {
            rate.bytes as f64 * 8.0 / (rate.ticks as f64 / 1_000_000_000.0)
        }
    }
}

fn check_payload(payload: &SdkPayload) {
    let measured = &payload.measurements;
    assert_eq!(payload.source, "st4-js");
    assert_eq!(payload.serverid, 61301);
    assert_eq!(payload.configs.download_protocol, "xhr");
    assert_eq!(payload.guid, "eca27dc9-e3dd-429a-85e7-8ee178facc6c");
    assert!(!payload.configs.remote_debugging);
    assert_eq!(payload.configs.max_display_servers, 20);
    assert!(payload.configs.request_web_location);
    assert_eq!(payload.configs.latency_max_servers, 10);
    assert_eq!(payload.configs.js_engine.save_type, "st4-js");
    assert_eq!(payload.configs.stages_list[0], "latency");
    assert!(payload.configs.loaded_latency_enabled);
    assert_eq!(payload.configs.swf.engine, "/engine.swf");
    assert!(!payload.configs.vpn_detected);
    assert_eq!(payload.configs.log_errors_to_server.level, "warn");
    assert_eq!(payload.configs.log_errors_to_server.max_per_client, 100);
    assert_eq!(payload.location.country_code, "FR");
    assert_eq!(measured.jitter_us, 0);
    let latency = measured.latency.as_ref().expect("latency");
    assert_eq!(latency.connection_protocol, "wss");
    assert_eq!(latency.count, 1);
    assert_eq!(first_reading(latency.samples.as_ref().expect("samples")), 2_940_037);
    assert_eq!(first_reading(latency.graph_samples.as_ref().expect("graph samples")), 2_940_037);
    let whole = Fraction { num: 2_940_037, den: 1 };
    assert_eq!(latency.rtt.mean, whole);
    assert_eq!(latency.rtt.median, whole);
    assert_eq!(latency.rtt.iqm, whole);
    assert_eq!(latency.rtt.min, whole);
    assert_eq!(latency.rtt.max, whole);
    assert!(measured.download_samples.is_some());
    assert!(measured.upload_samples.is_some());
    let download = local(measured.download_speeds.as_ref().map(|speeds| &speeds.local));
    assert!(bits(download.mst_66_20) > 0.0);
    assert!(bits(download.mst_66_30) > 0.0);
    assert!(bits(download.mst_75_30) > 0.0);
    assert_eq!(download.combined, 222162000);
    assert_eq!(bits(download.average), 222162000.0);
    let upload = local(measured.upload_speeds.as_ref().map(|speeds| &speeds.local));
    assert_eq!(upload.combined, 98950000);
    assert_eq!(bits(upload.average), 98950000.0);
    let selection = measured.server_selection.as_ref().expect("selection");
    assert_eq!(selection.closest_ping_details.len(), 1);
    assert_eq!(measured.clientip.as_deref(), Some("159.26.112.4"));
    assert_eq!(measured.hash.len(), 32);
}

fn first_reading(pings: &Pings) -> i64 {
    match pings {
        Pings::Readings(readings) => readings[0],
        Pings::Average(_) => panic!("expected readings"),
    }
}

fn local(speeds: Option<&Option<SdkCombinedSpeed>>) -> SdkCombinedSpeed {
    match speeds {
        Some(Some(found)) => *found,
        _ => panic!("expected a speed profile"),
    }
}

#[test]
fn sdk_payload_builds_sdk_payload_from_run_result() {
    let (result, sdk_artifacts) = sample_result();
    let payload = build_sdk_result_payload(
        &result,
        &sdk_artifacts,
        "eca27dc9-e3dd-429a-85e7-8ee178facc6c",
        false,
        "2.8",
    )
    .expect("payload should build");
    check_payload(&payload);
}

#[test]
fn mod_builds_sdk_payload_from_run_result() {
    let (result, sdk_artifacts) = sample_result();
    let payload = build_sdk_result_payload(
        &result,
        &sdk_artifacts,
        "eca27dc9-e3dd-429a-85e7-8ee178facc6c",
        false,
        "2.8",
    )
    .expect("payload should build");
    check_payload(&payload);
    let entry = &payload.configs.server_list[0];
    assert_eq!(entry.id, 61301);
    assert_eq!(entry.lat, "43.2964");
    assert_eq!(entry.distance, 1);
    assert_eq!(
        entry.hostname,
        "marseille3.d2m.c2d.liveservices.fr.prod.hosts.ooklaserver.net"
    );
    assert_eq!(payload.configs.port, 8080);
    assert_eq!(payload.measurements.ping_ns, Fraction { num: 2_940_037, den: 1 });
    assert_eq!(payload.measurements.download, Some(1_777_296));
    assert_eq!(payload.measurements.upload, Some(791_600));
}

fn check_without_upload() {
    let (mut result, sdk_artifacts) = sample_result();
    result.upload = None;
    let payload = build_sdk_result_payload(
        &result,
        &sdk_artifacts,
        "eca27dc9-e3dd-429a-85e7-8ee178facc6c",
        false,
        "2.8",
    )
    .expect("payload should build without upload");

    assert!(payload.measurements.upload.is_none());
    assert!(payload.measurements.upload_speeds.is_none());
    assert!(payload.measurements.upload_samples.is_none());
    assert!(payload.measurements.upload_latency.is_none());
    assert!(payload.measurements.download.is_some());
}

#[test]
fn sdk_payload_omits_missing_direction_metrics() {
    check_without_upload();
}

#[test]
fn mod_omits_missing_direction_metrics() {
    check_without_upload();
}

#[test]
fn payloads_need_their_parts() {
    let (mut result, artifacts) = sample_result();
    result.ping_ns = Some(Fraction { num: 1, den: 0 });
    let error = build_sdk_result_payload(&result, &artifacts, "g", false, "2.8").expect_err("ping");
    assert_eq!(error.message(), "ping must be a finite non-negative number");
    result.ping_ns = None;
    let error = build_sdk_result_payload(&result, &artifacts, "g", false, "2.8").expect_err("ping");
    assert_eq!(error.message(), "cannot build SDK payload without ping result");
    result.server = None;
    let error = build_sdk_result_payload(&result, &artifacts, "g", false, "2.8").expect_err("server");
    assert_eq!(error.message(), "cannot build SDK payload without selected server");
    result.client = None;
    let error = build_sdk_result_payload(&result, &artifacts, "g", false, "2.8").expect_err("client");
    assert_eq!(error.message(), "cannot build SDK payload without client metadata");
    let (mut result, artifacts) = sample_result();
    result.download = Some(benchmark(f64::NAN, 0));
    let error = build_sdk_result_payload(&result, &artifacts, "g", false, "2.8").expect_err("speed");
    assert_eq!(error.message(), "throughput Mbps must be a finite non-negative number");
}

#[test]
fn averages_are_kept_exactly() {
    let (mut result, mut artifacts) = sample_result();
    artifacts.selected_latency_samples_ns = None;
    let third = Fraction { num: 8_000_000, den: 3 };
    result.ping_ns = Some(third);
    let server = result.server.as_mut().expect("server");
    server.latency_ns = None;
    let payload = build_sdk_result_payload(&result, &artifacts, "g", false, "2.6666666666666665")
        .expect("payload");
    assert_eq!(payload.measurements.ping_ns, third);
    assert!(matches!(payload.measurements.pings, Pings::Average(average) if average == third));
    let latency = payload.measurements.latency.as_ref().expect("latency");
    assert_eq!((latency.rtt.mean, latency.rtt.min), (third, third));
    assert_eq!((latency.count, latency.jitter_us), (1, 0));
    assert_eq!(
        payload.measurements.hash,
        hash_with("2.6666666666666665", Some(791_600), Some(1_777_296))
    );
    let selection = payload.measurements.server_selection.as_ref().expect("selection");
    assert_eq!(selection.closest_ping_details[0].ping_ns, third);
}

#[test]
fn result_hash_matches_known_vector() {
    let hash = calculate_result_hash(2_940_037, Some(791600), Some(1777296));
    assert_eq!(hash, "80dd6bc7a9d55bd2d3d85acd0d863742");
}

#[test]
fn hashed_texts_show_milliseconds() {
    assert_eq!(format_millis(2_940_037), "2.940037");
    assert_eq!(format_millis(3_000_000), "3");
    assert_eq!(format_millis(10), "0.00001");
    assert_eq!(format_millis(0), "0");
    assert_eq!(hash_input("3.5", None, Some(7)), "3.5-0-7-817d699764d33f89c");
}

#[test]
fn generated_guids_have_their_shape() {
    let guid = sdk_guid(1, 2);
    assert_eq!(guid.len(), 36);
    assert_ne!(guid, sdk_guid(2, 2));
    assert_ne!(guid, sdk_guid(1 | 1 << 48, 2));
    assert_ne!(guid, sdk_guid(1, 3));
    let now = generate_sdk_guid(5);
    let dashes: Vec<usize> = now.match_indices('-').map(|(at, _)| at).collect();
    assert_eq!(dashes, vec![8, 13, 18, 23]);
}

#[test]
fn speeds_are_given_in_whole_units() {
    assert_eq!(bps_to_sdk_units(222_162_000), 1_777_296);
    assert_eq!(mbps_to_bps(&benchmark(222.162, 222_162_000)), Some(222_162_000));
    assert_eq!(mbps_to_bps(&benchmark(f64::INFINITY, 0)), None);
    assert_eq!(mbps_to_bps(&benchmark(-1.0, 0)), None);
}

#[test]
fn buckets_share_out_every_byte() {
    let rules = BucketRules {
        sample_length: 500_000_000,
        minimum_length: 500_000_000,
        test_duration: None,
    };
    let samples = vec![
        SdkTransferSample { size: 1_000, sent_at: 0, received_at: 1_000_000_000 },
        SdkTransferSample { size: 500, sent_at: 1_000_000_000, received_at: 1_250_000_000 },
    ];
    let run = build_buckets(&rules, &samples);
    let total: u64 = run.buckets.iter().map(|bucket| bucket.bytes).sum();
    assert_eq!(total, 1_500);
    assert_eq!(run.buckets[0].bytes, 500);
    assert_eq!(
        calculate_average_speed(&samples),
        Some(Rate { bytes: 1_500, ticks: 1_250_000_000 })
    );
}

#[test]
fn buckets_of_any_length_follow_one_another() {
    for (sample_length, minimum_length) in [(7, 900_000_000), (u64::MAX, u64::MAX), (3, 20_000_000)] {
        let rules = BucketRules { sample_length, minimum_length, test_duration: None };
        let samples = vec![
            SdkTransferSample { size: 900, sent_at: 0, received_at: 30 },
            SdkTransferSample { size: 70, sent_at: 30, received_at: 45 },
        ];
        let buckets = build_buckets(&rules, &samples).buckets;
        assert_eq!(buckets[0].start, 0);
        let mut total = 0;
        for (index, bucket) in buckets.iter().enumerate() {
            total += bucket.bytes;
            assert_eq!(bucket.total, total);
            assert_eq!(bucket.stop, buckets.get(index + 1).map(|next| next.start));
        }
        assert_eq!(total, 970);
    }
}

#[test]
fn speed_profiles_need_samples() {
    let rules = BucketRules {
        sample_length: 750_000_000,
        minimum_length: 750_000_000,
        test_duration: Some(10_000_000_000),
    };
    assert!(calculate_average_speed(&Vec::new()).is_none());
    assert!(calculate_mst_speed(&Vec::new(), &rules, 66, 100).is_none());
    assert!(calculate_superspeed(&Vec::new(), &rules).is_none());
}

#[test]
fn protocols_follow_the_interface() {
    let tcp = infer_protocols(&Some("tcp".to_string()));
    assert_eq!(tcp.download_protocol, "tcp");
    assert_eq!(infer_protocols(&None).download_protocol, "xhr");
    let v6 = Some("2001:db8::1".to_string());
    assert_eq!(split_client_ips("2001:db8::1", true), (v6.clone(), v6));
    assert_eq!(split_client_ips("1.2.3.4", false), (Some("1.2.3.4".to_string()), None));
}

#[test]
fn hosts_are_split_from_their_ports() {
    assert_eq!(split_host_port("a.example:81"), Some(("a.example".to_string(), 81)));
    assert_eq!(split_host_port("a.example"), None);
    assert_eq!(
        parse_host_and_port("", "https://b.example/speedtest/upload.php"),
        ("b.example".to_string(), 443)
    );
}

fn benchmark(mbps: f64, bps: u64) -> BenchmarkResult {
    BenchmarkResult {
        mbps: scalar(mbps),
        bps,
        bytes: 0,
        duration_seconds: 10,
        connections: 8,
        actual_duration_ms: None,
        average: None,
        mst: None,
    }
}

fn sample_result() -> (RunResult, SdkArtifacts) {
    let result = RunResult {
        timestamp: "1771795845".to_string(),
        speedtest_api: Some("modern".to_string()),
        client: Some(ClientMeta {
            ip: "159.26.112.4".to_string(),
            isp: "ProtonVPN".to_string(),
            country: "FR".to_string(),
            latitude: scalar(43.2951),
            longitude: scalar(5.3861),
            latitude_text: "43.2951".to_string(),
            longitude_text: "5.3861".to_string(),
            isp_id: Some(316789),
            provider_hash: Some("provider-hash".to_string()),
        }),
        server: Some(Server {
            id: 61301,
            sponsor: "ORANGE FRANCE".to_string(),
            name: "Marseille".to_string(),
            country: "France".to_string(),
            host: "marseille3.d2m.c2d.liveservices.fr.prod.hosts.ooklaserver.net:8080".to_string(),
            distance_km: scalar(1.0),
            latency_ns: Some(Fraction { num: 2_800_000, den: 1 }),
            latency_stddev_ms: Some(scalar(0.2)),
            download_avg_mbps: None,
            download_bytes: None,
            sdk_url: Some(
                "http://marseille3.d2m.c2d.liveservices.fr:8080/speedtest/upload.php".to_string(),
            ),
            sdk_lat: Some("43.2964".to_string()),
            sdk_lon: Some("5.3700".to_string()),
            sdk_cc: Some("FR".to_string()),
            sdk_preferred: Some(0),
            sdk_isp_id: Some("48496".to_string()),
            sdk_https_functional: Some(1),
            sdk_hostname: Some(
                "marseille3.d2m.c2d.liveservices.fr.prod.hosts.ooklaserver.net".to_string(),
            ),
            sdk_port: Some(8080),
            sdk_force_ping_select: Some(1),
        }),
        server_pool: None,
        ping_ns: Some(Fraction { num: 2_800_000, den: 1 }),
        jitter_us: None,
        download: Some(benchmark(222.162, 222_162_000)),
        download_latency_ns: None,
        upload: Some(benchmark(98.95, 98_950_000)),
        upload_latency_ns: None,
        proxy: None,
        details: None,
    };

    let sdk_artifacts = SdkArtifacts {
        selected_latency_samples_ns: Some(vec![2_940_037]),
        download_intervals: Some(vec![ThroughputInterval {
            elapsed_ns: 10_000_000_000,
            bytes: 277702500,
            mbps: scalar(222.162),
            bps: 222_162_000,
        }]),
        upload_intervals: Some(vec![ThroughputInterval {
            elapsed_ns: 10_000_000_000,
            bytes: 123687500,
            mbps: scalar(98.95),
            bps: 98_950_000,
        }]),
        upload_remote_intervals: None,
        download_latency_samples_ns: None,
        upload_latency_samples_ns: None,
    };

    (result, sdk_artifacts)
}

/// A transfer that comes in uneven portions, from a small random generator.
fn uneven_samples(seed: u64, count: u64, step: u64, spread: u64, most: u64) -> Vec<SdkThroughputSample> {
    let mut state = seed;
    let mut next = || {
        state = state.wrapping_mul(6_364_136_223_846_793_005).wrapping_add(1_442_695_040_888_963_407);
        state >> 33
    };
    let mut bytes = 0;
    (1..=count)
        .map(|index| {
            let elapsed_ms = index * step + next() % spread;
            bytes += next() % most;
            SdkThroughputSample {
                elapsed_ns: elapsed_ms * 1_000_000,
                bytes,
                mbps: scalar(0.0),
                bps: 0,
            }
        })
        .collect()
}

fn check_profile(samples: Vec<SdkThroughputSample>, seconds: u64, expected: [f64; 5]) {
    let profile = build_speed_profile(Some(7), Some(&samples), Some(seconds)).expect("profile");
    assert_eq!(profile.combined, 7);
    let figures = [
        bits(profile.average),
        bits(profile.mst_66_20),
        bits(profile.mst_66_30),
        bits(profile.mst_75_30),
        bits(profile.superspeed),
    ];
    for (actual, expected) in figures.into_iter().zip(expected) {
        assert!((actual - expected).abs() <= expected * 1e-9, "expected {expected}, got {actual}");
    }
}

#[test]
fn uneven_transfers_have_their_profiles() {
    check_profile(
        uneven_samples(1, 40, 250, 100, 5_000_000),
        10,
        [71188855.007474, 81359948.0, 88110206.666667, 82192787.428571, 85928419.2],
    );
    check_profile(
        uneven_samples(7, 90, 110, 60, 900_000),
        10,
        [28462005.025631, 29834256.0, 30527398.666667, 29976017.230769, 30980372.8],
    );
    check_profile(
        uneven_samples(42, 12, 1_300, 400, 9_000_000),
        15,
        [26107933.901106, 32374706.666667, 33161666.526316, 31659696.0, 30001789.333333],
    );
    check_profile(
        uneven_samples(5, 6, 300, 50, 100_000),
        3,
        [1567893.628809; 5],
    );
    assert!(build_speed_profile(None, None, None).is_none());
}
