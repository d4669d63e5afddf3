use tunmux_speedtest::num::fraction::Fraction;
use tunmux_speedtest::num::scalar::Scalar;
use tunmux_speedtest::speedtest::catalog::{
    absorb_catalog, apply_cookies, build_catalog, catalog_endpoint, require_servers,
    ParsedSdkCatalog, RawDistance, RawId, RawSdkConfig, RawSdkServer,
};
use tunmux_speedtest::speedtest::latency::{
    calculate_iqm, calculate_jitter, calculate_rtt, normalize_loaded_latency_samples,
};
use tunmux_speedtest::speedtest::select::{
    build_transfer_pool, choose_candidates, fallback_after, find_server, finish_probe, loaded_fallback_samples,
    missing_samples, probe_workers, rank_candidates, select_best_latency, select_nearest,
    sort_latency_rankings, LatencyRanking, SelectError, ServerLatency,
};
use tunmux_speedtest::speedtest::servers::{
    build_runtime_and_cache_catalogs, filter_servers, merge_server_catalog, SpeedtestServer,
};
use tunmux_speedtest::speedtest::session::{build_session_guid, generate_session_guid, ModernSession};

fn scalar(value: f64) -> Scalar {
    Scalar { bits: value.to_bits() }
}

/// A latency in milliseconds, as the average of one sample.
fn millis(value: u128) -> Fraction {
    Fraction { num: value * 1_000_000, den: 1 }
}

fn server(id: u64, sponsor: &str) -> SpeedtestServer {
    SpeedtestServer {
        id,
        sponsor: sponsor.to_string(),
        name: "name".to_string(),
        country: "country".to_string(),
        host: "host".to_string(),
        distance_km: scalar(1.0),
        url: "https://example.com/speedtest/upload.php".to_string(),
        session_guid: None,
        sdk_lat: None,
        sdk_lon: None,
        sdk_cc: None,
        sdk_preferred: None,
        sdk_isp_id: None,
        sdk_https_functional: None,
        sdk_hostname: None,
        sdk_port: None,
        sdk_force_ping_select: None,
    }
}

fn at_distance(id: u64, distance_km: f64) -> SpeedtestServer {
    SpeedtestServer { distance_km: scalar(distance_km), ..server(id, "s") }
}

fn measured(id: u64, distance_km: f64, average: u128, variance_ms: f64) -> ServerLatency {
    ServerLatency {
        server: at_distance(id, distance_km),
        average: millis(average),
        variance_ms: scalar(variance_ms),
        samples_ns: Vec::new(),
    }
}

fn read_server(value: &serde_json::Value) -> RawSdkServer {
    let text = |name: &str| value[name].as_str().unwrap_or_default().to_string();
    let optional = |name: &str| value[name].as_str().map(ToString::to_string);
    RawSdkServer {
        id: match &value["id"] {
            serde_json::Value::Number(number) => RawId::Number(number.as_u64()),
            serde_json::Value::String(text) => RawId::Text(text.clone()),
            _ => RawId::Other,
        },
        id_shown: value["id"].to_string(),
        sponsor: text("sponsor"),
        name: text("name"),
        country: text("country"),
        cc: optional("cc"),
        lat: optional("lat"),
        lon: optional("lon"),
        host: text("host"),
        hostname: optional("hostname"),
        port: None,
        preferred: None,
        isp_id: None,
        https_functional: None,
        force_ping_select: None,
        url: text("url"),
        distance: match &value["distance"] {
            serde_json::Value::Number(number) => RawDistance::Number(number.as_f64().map(scalar)),
            serde_json::Value::String(text) => RawDistance::Text {
                text: text.clone(),
                number: text.parse::<f64>().ok().map(scalar),
            },
            _ => RawDistance::Other,
        },
        distance_shown: value["distance"].to_string(),
    }
}

fn read_config(body: &str) -> RawSdkConfig {
    let value: serde_json::Value = serde_json::from_str(body).expect("test JSON");
    RawSdkConfig {
        isp_id: value["ispId"].as_u64(),
        provider_hash: value["providerHash"].as_str().map(ToString::to_string),
        guid: value["guid"].as_str().map(ToString::to_string),
        client_auth_token: value["clientAuth"]["token"].as_str().map(ToString::to_string),
        servers: value["servers"].as_array().expect("servers").iter().map(read_server).collect(),
    }
}

fn parse_catalog(body: &str) -> ParsedSdkCatalog {
    build_catalog(read_config(body)).expect("sdk json should parse")
}

#[test]
fn parses_server_catalog_sdk_json() {
    let body = r#"{
  "ipAddress": "203.0.113.7",
  "ispName": "Example ISP",
  "guid": "abc-guid",
  "servers": [
    {
      "id": "61301",
      "sponsor": "ORANGE FRANCE",
      "name": "Marseille",
      "country": "France",
      "cc": "FR",
      "host": "marseille.example.net:8080",
      "url": "http://marseille.example.net:8080/speedtest/upload.php",
      "distance": 1
    }
  ]
}"#;

    let servers = parse_catalog(body).servers;
    assert_eq!(servers.len(), 1);
    assert_eq!(servers[0].id, 61301);
    assert_eq!(servers[0].distance_km, scalar(1.0));
    assert_eq!(servers[0].session_guid, None);
}

#[test]
fn extracts_guid_and_client_auth_from_sdk_json() {
    let body = r#"{
  "ipAddress": "203.0.113.7",
  "ispName": "Example ISP",
  "guid": "abc-guid",
  "clientAuth": {
    "token": "token-123"
  },
  "servers": [
    {
      "id": "61301",
      "sponsor": "ORANGE FRANCE",
      "name": "Marseille",
      "country": "France",
      "cc": "FR",
      "host": "marseille.example.net:8080",
      "url": "http://marseille.example.net:8080/speedtest/upload.php",
      "distance": 1
    }
  ]
}"#;

    let parsed = parse_catalog(body);
    assert_eq!(parsed.guid.as_deref(), Some("abc-guid"));
    assert_eq!(parsed.client_auth_token.as_deref(), Some("token-123"));
    assert_eq!(parsed.servers.len(), 1);
}

#[test]
fn unreadable_catalogs_are_refused() {
    let refused = |id: &str, distance: &str| {
        let body = format!("{{\"servers\":[{{\"id\":{id},\"distance\":{distance}}}]}}");
        build_catalog(read_config(&body)).expect_err("must be refused").message()
    };
    assert_eq!(refused("\"x\"", "1"), "invalid speedtest config-sdk server id '\"x\"'");
    assert_eq!(refused("-1", "1"), "invalid speedtest config-sdk server id '-1'");
    assert_eq!(refused("1", "\"inf\""), "invalid speedtest config-sdk server distance '\"inf\"'");
    assert_eq!(refused("1", "null"), "invalid speedtest config-sdk server distance 'null'");
}

#[test]
fn countries_fall_back_to_their_code() {
    let parsed = parse_catalog(r#"{"servers":[{"id":7,"cc":"FR","distance":"2.5"}]}"#);
    assert_eq!(parsed.servers[0].country, "FR");
    assert_eq!(parsed.servers[0].distance_km, scalar(2.5));
}

#[test]
fn catalogs_bind_their_servers() {
    let mut session = ModernSession::default();
    let catalog = parse_catalog(r#"{"guid":"abc","ispId":5,"servers":[{"id":7,"distance":1}]}"#);
    let servers = absorb_catalog(&mut session, catalog, 42);
    assert_eq!(servers[0].session_guid.as_deref(), Some("abc"));
    assert_eq!(session.guid.as_deref(), Some("abc"));
    assert_eq!(session.provider_isp_id, Some(5));
    assert!(session.saved_at.is_some());
    let fresh = absorb_catalog(&mut session, parse_catalog(r#"{"servers":[{"id":8,"distance":1}]}"#), 42);
    assert_eq!(fresh[0].session_guid, session.guid);
    let error = require_servers(Vec::new()).expect_err("nothing there");
    assert!(!error.message().is_empty());
    assert!(catalog_endpoint(10).contains("limit=10"));
}

#[test]
fn merge_prefers_fetched_and_includes_cached() {
    let fetched = vec![server(1, "fresh-1"), server(2, "fresh-2")];
    let cached = vec![server(2, "old-2"), server(3, "old-3")];

    let merged = merge_server_catalog(&fetched, &cached);
    assert_eq!(merged.len(), 3);
    assert_eq!(merged[0].id, 1);
    assert_eq!(merged[1].id, 2);
    assert_eq!(merged[1].sponsor, "fresh-2");
    assert_eq!(merged[2].id, 3);
}

#[test]
fn runtime_catalog_uses_only_fetched_servers() {
    let mut fetched = server(1, "fresh-1");
    fetched.session_guid = Some("guid-1".to_string());
    let mut cached = server(2, "old-2");
    cached.session_guid = Some("guid-2".to_string());

    let (runtime, cache_catalog) =
        build_runtime_and_cache_catalogs(&vec![fetched.clone()], &vec![cached], None);

    assert_eq!(runtime.len(), 1);
    assert_eq!(runtime[0].id, 1);
    assert_eq!(runtime[0].session_guid.as_deref(), Some("guid-1"));

    assert_eq!(cache_catalog.len(), 2);
    assert_eq!(cache_catalog[0].id, 1);
    assert_eq!(cache_catalog[1].id, 2);
    assert!(cache_catalog.iter().all(|server| server.session_guid.is_none()));
}

#[test]
fn runtime_catalog_includes_cached_server_only_for_requested_id() {
    let fetched = vec![server(1, "fresh-1")];
    let mut cached = server(2, "old-2");
    cached.session_guid = Some("guid-2".to_string());

    let (runtime, _cache_catalog) =
        build_runtime_and_cache_catalogs(&fetched, &vec![cached], Some(2));

    assert_eq!(runtime.len(), 2);
    assert_eq!(runtime[0].id, 1);
    assert_eq!(runtime[1].id, 2);
    assert_eq!(runtime[1].session_guid.as_deref(), Some("guid-2"));
}

#[test]
fn runtime_catalog_prefers_api_server_when_requested_id_exists() {
    let mut fetched_server = server(2, "fresh-2");
    fetched_server.host = "api-host".to_string();
    let mut cached_server = server(2, "old-2");
    cached_server.host = "cached-host".to_string();

    let (runtime, _cache_catalog) =
        build_runtime_and_cache_catalogs(&vec![fetched_server], &vec![cached_server], Some(2));

    assert_eq!(runtime.len(), 1);
    assert_eq!(runtime[0].id, 2);
    assert_eq!(runtime[0].host, "api-host");
}

#[test]
fn filters_servers_by_case_insensitive_query() {
    let servers = vec![server(13791, "Dedi.zone"), server(61301, "ORANGE FRANCE")];

    let by_id = filter_servers(&servers, Some("13791"));
    assert_eq!(by_id.len(), 1);
    assert_eq!(by_id[0].id, 13791);

    let by_sponsor = filter_servers(&servers, Some("orange"));
    assert_eq!(by_sponsor.len(), 1);
    assert_eq!(by_sponsor[0].id, 61301);

    let all = filter_servers(&servers, Some("  "));
    assert_eq!(all.len(), 2);
}

#[test]
fn nearest_servers_are_ranked_by_distance() {
    let servers = vec![
        at_distance(1, 30.0),
        at_distance(2, 10.0),
        at_distance(3, 20.0),
        at_distance(4, 5.0),
    ];

    let nearest = select_nearest(&servers, 2);
    assert_eq!(nearest.len(), 2);
    assert_eq!(nearest[0].id, 4);
    assert_eq!(nearest[1].id, 2);
}

#[test]
fn best_latency_prefers_average_then_variance_then_distance() {
    let ranked = vec![
        measured(1, 10.0, 20, 5.0),
        measured(2, 30.0, 20, 3.0),
        measured(3, 5.0, 22, 1.0),
        measured(4, 15.0, 20, 3.0),
    ];

    let best = select_best_latency(&ranked).expect("should pick a server");
    assert_eq!(best.server.id, 4);
}

#[test]
fn loaded_latency_normalization_filters_and_caps_samples() {
    // Readings are whole nanoseconds, so none of them is not a number.
    let mut samples: Vec<i64> = vec![
        -1_000_000,
        0,
        1_000_000,
        2_000_000,
        3_000_000,
        1_000_000_000,
        10_000_100_000,
    ];
    samples.extend((0..2_000).map(|value| 2_000_000 + (value % 5) * 10_000));

    let normalized = normalize_loaded_latency_samples(&samples, 10);

    assert!(!normalized.is_empty());
    assert!(normalized.len() <= 250);
    assert!(normalized.iter().all(|sample| *sample >= 0));
    assert!(normalized.iter().all(|sample| *sample <= 10_000_000_000));
    assert!(!normalized.contains(&1_000_000_000));
}

#[test]
fn calculates_iqm_for_sorted_samples() {
    let samples = vec![1, 2, 3, 4, 5, 6, 7, 8];
    let iqm = calculate_iqm(&samples);
    assert!((iqm.num as f64 / iqm.den as f64 - 4.5).abs() < 1e-9);
    let iqm = calculate_iqm(&vec![1, 2, 3, 4, 5]);
    // (3/4 * (2 + 4) + 3) / (5/2)
    assert!((iqm.num as f64 / iqm.den as f64 - 3.0).abs() < 1e-9);
}

#[test]
fn calculates_jitter_from_adjacent_deltas() {
    let samples = vec![10_000_000, 11_000_000, 13_000_000, 12_000_000];
    let jitter = calculate_jitter(&samples);
    assert!((jitter as f64 / 1_000.0 - 1.333).abs() < 1e-9);
    assert_eq!(calculate_jitter(&vec![5]), 0);
}

#[test]
fn calculates_rtt_summary() {
    let samples = vec![15_000_000, 16_000_000, 17_000_000, 18_000_000];
    let summary = calculate_rtt(&samples).expect("summary should exist");
    let in_ms = |value: Fraction| value.num as f64 / value.den as f64 / 1_000_000.0;
    assert!((in_ms(summary.iqm) - 16.5).abs() < 1e-9);
    assert!((in_ms(summary.mean) - 16.5).abs() < 1e-9);
    assert_eq!(summary.min, 15_000_000);
    assert_eq!(summary.max, 18_000_000);
    assert!((in_ms(summary.median) - 16.5).abs() < 1e-9);
    assert!(calculate_rtt(&vec![-1]).is_none());
}

fn ranking(server_id: u64, average: u128, variance_ms: f64, distance_km: f64) -> LatencyRanking {
    LatencyRanking {
        server_id,
        average: millis(average),
        variance_ms: scalar(variance_ms),
        distance_km: scalar(distance_km),
    }
}

#[test]
fn sorts_rankings_by_latency_variance_distance() {
    let mut rankings = vec![
        ranking(1, 20, 4.0, 10.0),
        ranking(2, 20, 2.0, 20.0),
        ranking(3, 20, 2.0, 5.0),
        ranking(4, 15, 8.0, 50.0),
    ];

    sort_latency_rankings(&mut rankings);
    assert_eq!(rankings[0].server_id, 4);
    assert_eq!(rankings[1].server_id, 3);
    assert_eq!(rankings[2].server_id, 2);
    assert_eq!(rankings[3].server_id, 1);
}

#[test]
fn transfer_pool_filters_high_latency_outliers() {
    let ranked = vec![
        measured(1, 1.0, 3, 0.1),
        measured(2, 1.0, 10, 0.2),
        measured(3, 1.0, 21, 0.3),
        measured(4, 1.0, 24, 0.4),
    ];

    let pool = build_transfer_pool(&ranked, 4);
    let ids = pool.iter().map(|server| server.id).collect::<Vec<_>>();

    assert_eq!(ids, vec![1, 2]);
}

#[test]
fn selections_fail_for_their_reasons() {
    let servers = vec![server(1, "a")];
    assert_eq!(
        choose_candidates(&servers, 10, 0).expect_err("no samples"),
        SelectError::NoSamplesRequested
    );
    assert_eq!(
        choose_candidates(&Vec::new(), 10, 3).expect_err("no servers"),
        SelectError::NoCandidates
    );
    assert_eq!(rank_candidates(&Vec::new()).expect_err("silence"), SelectError::AllProbesFailed);
    let error = finish_probe(9, &vec![1], 3).expect_err("too few");
    assert_eq!(error, SelectError::InsufficientSamples { server_id: 9, taken: 1, requested: 3 });
    assert!(error.message().contains('9'));
    assert_eq!(
        find_server(&servers, 2).expect_err("unknown"),
        SelectError::ServerNotFound { server_id: 2 }
    );
    assert_eq!(finish_probe(9, &vec![1, 4], 2).expect("average"), Fraction { num: 5, den: 2 });
    assert_eq!(missing_samples(3, 1), 2);
    assert_eq!(missing_samples(1, 3), 0);
    assert_eq!(probe_workers(20), 8);
    assert_eq!(probe_workers(0), 1);
    assert_eq!(loaded_fallback_samples(3), 30);
    assert_eq!(fallback_after(&vec![], 0), Some(10));
    assert_eq!(fallback_after(&vec![1], 3), None);
}

#[test]
fn builds_cookie_header() {
    let mut session = ModernSession::default();
    session.cookies.insert("a".to_string(), "1".to_string());
    session.cookies.insert("b".to_string(), "2".to_string());

    let header = session
        .cookie_header_value()
        .expect("header should exist for non-empty cookie jar");
    assert!(header.contains("a=1"));
    assert!(header.contains("b=2"));
    assert_eq!(header, "a=1; b=2");
}

#[test]
fn applies_and_removes_cookie_from_set_cookie() {
    let mut session = ModernSession::default();
    session.apply_set_cookie_header_line("foo=bar; Path=/; HttpOnly");
    assert_eq!(session.cookies.get("foo").map(String::as_str), Some("bar"));

    session.apply_set_cookie_header_line("foo=gone; Max-Age=0; Path=/");
    assert!(!session.cookies.contains_key("foo"));
}

#[test]
fn cookies_touch_only_their_own_name() {
    let mut session = ModernSession::default();
    apply_cookies(
        &mut session,
        &vec![
            "a=1; Expires=tomorrow".to_string(),
            "nothing".to_string(),
            " =x".to_string(),
            "b=2; Max-Age=60".to_string(),
        ],
    );
    assert_eq!(session.cookies.len(), 2);
    assert_eq!(session.expires_at.as_deref(), Some("tomorrow"));
    session.apply_set_cookie_header_line("b=; max-age=-1");
    assert_eq!(session.cookies.get("a").map(String::as_str), Some("1"));
    assert_eq!(session.cookies.len(), 1);
}

#[test]
fn session_guids_have_their_shape() {
    let guid = build_session_guid(0x0102_0304, 0xabcd, 42);
    assert_eq!(guid, "speedtest-rs-1020304-0000abcd-42");
    let now = generate_session_guid(7);
    assert!(now.starts_with("speedtest-rs-"));
    assert!(now.ends_with("-7"));
}
