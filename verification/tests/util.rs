use tunmux_speedtest::clock::{
    current_timestamp, now_micros, now_nanos, now_nanos_wide, now_seconds, now_subsec_nanos,
    timestamp_at, to_micros, to_seconds,
};
use tunmux_speedtest::json::parse_json;
use tunmux_speedtest::json::Json;
use tunmux_speedtest::num::fraction::{mbps_from_bytes, Fraction};
use tunmux_speedtest::num::scalar::Scalar;
use tunmux_speedtest::num::whole::round_div;
use tunmux_speedtest::num::wide::Wide;
use tunmux_speedtest::text::{
    contains, parse_number, parse_signed, split, to_decimal, to_hexadecimal, to_lower, trim,
};
use tunmux_speedtest::util::{
    clamp_worker_count, proxy_variables, resolve_proxy_url, validate_proxy_scheme,
    ProxySchemeError, MAX_BENCHMARK_WORKERS,
};

/// What the proxy variables hold, in the order in which they are asked for.
fn environment(set: &[(&str, &str)]) -> Vec<Option<String>> {
    proxy_variables()
        .iter()
        .map(|name| {
            set.iter().find(|(variable, _)| variable == name).map(|(_, value)| value.to_string())
        })
        .collect()
}

#[test]
fn allows_expected_proxy_schemes() {
    for scheme in ["http", "https", "socks5", "socks5h"] {
        let proxy = format!("{scheme}://127.0.0.1:8080");
        assert!(validate_proxy_scheme(&proxy).is_ok());
    }
}

#[test]
fn rejects_unknown_proxy_scheme() {
    match validate_proxy_scheme("ftp://127.0.0.1:21") {
        Err(ProxySchemeError::Refused(error)) => {
            assert!(error.message().contains("unsupported proxy scheme"));
        }
        _ => panic!("must reject ftp"),
    }
}

#[test]
fn rejects_what_is_no_url() {
    assert!(matches!(
        validate_proxy_scheme("127.0.0.1"),
        Err(ProxySchemeError::NotAUrl(_))
    ));
    assert!(validate_proxy_scheme("SOCKS5://127.0.0.1:1").is_ok());
}

#[test]
fn clamps_worker_count_into_safe_range() {
    assert_eq!(clamp_worker_count(0), 1);
    assert_eq!(clamp_worker_count(8), 8);
    assert_eq!(
        clamp_worker_count(MAX_BENCHMARK_WORKERS + 10),
        MAX_BENCHMARK_WORKERS
    );
    assert_eq!(clamp_worker_count(clamp_worker_count(100)), clamp_worker_count(100));
}

#[test]
fn converts_bytes_per_second_to_mbps() {
    let mbps = mbps_from_bytes(125_000_000, 10);
    assert!((mbps.num as f64 / mbps.den as f64 - 100.0).abs() < 0.001);
    assert_eq!(mbps_from_bytes(125_000_000, 0), Fraction { num: 0, den: 1 });
}

#[test]
fn resolves_proxy_from_cli_before_env() {
    let values = environment(&[("HTTPS_PROXY", "http://env.example:3128")]);
    assert_eq!(
        resolve_proxy_url(Some("http://cli.example:8080"), &values),
        Some("http://cli.example:8080".to_string())
    );
}

#[test]
fn resolves_proxy_from_env_precedence() {
    let values = environment(&[
        ("ALL_PROXY", "http://all.example:1080"),
        ("HTTPS_PROXY", "https://https.example:444"),
        ("http_proxy", "http://http.example:8080"),
    ]);
    assert_eq!(
        resolve_proxy_url(None, &values),
        Some("https://https.example:444".to_string())
    );
}

#[test]
fn blank_proxies_count_as_none() {
    let values = environment(&[("HTTPS_PROXY", "  "), ("ALL_PROXY", " http://all.example:1080 ")]);
    assert_eq!(resolve_proxy_url(None, &values), Some("http://all.example:1080".to_string()));
    assert_eq!(resolve_proxy_url(Some("  "), &values), Some("  ".to_string()));
    assert_eq!(resolve_proxy_url(None, &environment(&[])), None);
}

#[test]
fn nanoseconds_are_cut_to_larger_units() {
    assert_eq!(to_seconds(1_999_999_999), 1);
    assert_eq!(to_micros(1_999), 1);
    assert_eq!(to_seconds(u128::MAX), u64::MAX);
    assert_eq!(to_micros(u128::MAX), u64::MAX);
}

#[test]
fn times_are_written_as_dates() {
    assert_eq!(timestamp_at(0), "1970-01-01T00:00:00Z");
    assert_eq!(timestamp_at(1_431_648_000_999_999_999), "2015-05-15T00:00:00Z");
    assert_eq!(timestamp_at(253_402_300_799_000_000_000), "9999-12-31T23:59:59Z");
    assert_eq!(timestamp_at(8_210_266_876_799_000_000_000), "+262142-12-31T23:59:59Z");
    assert_eq!(timestamp_at(u128::MAX), "+262142-12-31T23:59:59Z");
}

#[test]
fn clocks_agree() {
    let before = now_seconds();
    assert!(before > 1_600_000_000);
    assert!(now_micros() / 1_000_000 >= before);
    assert!(now_nanos() / 1_000_000_000 >= before);
    assert!(now_nanos_wide() / 1_000_000_000 >= u128::from(before));
    assert!(now_subsec_nanos() < 1_000_000_000);
    let shown = current_timestamp();
    assert_eq!(shown.len(), 20);
    assert!(shown.starts_with("20"));
    assert_eq!(shown.chars().nth(10), Some('T'));
    assert!(shown.ends_with('Z'));
}

#[test]
fn numbers_are_written_and_read() {
    assert_eq!(to_decimal(0), "0");
    assert_eq!(to_decimal(u64::MAX), "18446744073709551615");
    assert_eq!(parse_number(&to_decimal(u64::MAX), u64::MAX), Some(u64::MAX));
    assert_eq!(parse_number("+7", u64::MAX), Some(7));
    assert_eq!(parse_number("256", 255), None);
    assert_eq!(parse_number("", 255), None);
    assert_eq!(parse_number("-1", 255), None);
    assert_eq!(parse_signed("-9223372036854775808"), Some(i64::MIN));
    assert_eq!(parse_signed("9223372036854775808"), None);
    assert_eq!(to_hexadecimal(0xdead_beef), "deadbeef");
    assert_eq!(round_div(7, 2), 4);
    assert_eq!(round_div(5, 4), 1);
}

#[test]
fn texts_are_taken_apart() {
    assert_eq!(split("a,b,,c", ','), vec!["a", "b", "", "c"]);
    assert_eq!(trim(" \t a b \r\n"), "a b");
    assert_eq!(trim("\u{a0}x\u{3000}"), "x");
    assert_eq!(to_lower("AbCÄ"), "abcÄ");
    assert!(contains("abc", "bc"));
    assert!(contains("abc", ""));
    assert!(!contains("abc", "ac"));
}

#[test]
fn wide_products_are_exact() {
    let square = Wide::product(u128::MAX, u128::MAX);
    assert_eq!(square, Wide { hi: u128::MAX - 1, lo: 1 });
    assert!(Wide::product(2, 3).below(Wide::product(7, 1)));
    assert!(!Wide::product(7, 1).below(Wide::product(7, 1)));
    let left = Fraction { num: u128::MAX, den: u128::MAX - 1 };
    let right = Fraction { num: u128::MAX - 1, den: u128::MAX - 2 };
    assert!(left.is_less(right));
}

#[test]
fn scalars_are_ordered_as_numbers() {
    let scalar = |value: f64| Scalar { bits: value.to_bits() };
    let rising = [f64::NEG_INFINITY, -2.0, -0.5, 0.0, 1.0e-300, 1.0, 2.5, f64::INFINITY];
    for pair in rising.windows(2) {
        assert!(scalar(pair[0]).is_less(scalar(pair[1])));
        assert!(!scalar(pair[1]).is_less(scalar(pair[0])));
    }
    assert!(!scalar(-0.0).is_less(scalar(0.0)));
    assert!(!scalar(0.0).is_less(scalar(-0.0)));
    assert!(!scalar(f64::NAN).is_less(scalar(1.0)));
    assert!(!scalar(f64::NAN).is_finite());
    assert!(!scalar(-1.0).is_usable());
    for value in [0.0, 0.49, 0.5, 1.5, 2.5, 1_777_296.4, 1.0e18, 3.0e30, -7.0, f64::NAN] {
        assert_eq!(scalar(value).round_to_u64(), value.round() as u64);
    }
}

#[test]
fn json_is_read_into_trees() {
    match parse_json(r#"{"a":[1,-2,2.5,null,true,"x"]}"#) {
        Some(Json::Object(members)) => {
            assert_eq!(members.len(), 1);
            assert_eq!(members[0].0, "a");
            match &members[0].1 {
                Json::List(items) => {
                    assert_eq!(items.len(), 6);
                    assert!(matches!(&items[0], Json::Number(number) if number.unsigned == Some(1)));
                    assert!(matches!(&items[1], Json::Number(number) if number.signed == Some(-2)));
                    assert!(matches!(&items[2], Json::Number(number)
                        if number.real == Some(Scalar { bits: 2.5_f64.to_bits() })));
                    assert!(matches!(items[3], Json::Null));
                    assert!(matches!(items[4], Json::Bool(true)));
                    assert!(matches!(&items[5], Json::Text(text) if text == "x"));
                }
                _ => panic!("expected a list"),
            }
        }
        _ => panic!("expected an object"),
    }
    assert!(parse_json("{").is_none());
}
