use tunmux_speedtest::json::parse_json;
use tunmux_speedtest::num::scalar::Scalar;
use tunmux_speedtest::speedtest::browser_protocol::endpoints::{
    endpoint_urls, host_with_port, looks_like_host_with_port, resolve_endpoint,
    websocket_endpoints, EndpointError,
};
use tunmux_speedtest::speedtest::browser_protocol::latency::{
    check_sample_count, loaded_probe_ns, probe_failure, ProbeKind, SampleRun,
};
use tunmux_speedtest::speedtest::browser_protocol::transfer::{
    chunk_end, download_urls, hello_query, next_nocache_token, nocache_token, request_urls,
    session_download_query, truncate_for_log, upload_urls, RequestAttempts, RequestOutcome,
    TransferRequestError,
};
use tunmux_speedtest::speedtest::browser_protocol::upload_stats::{
    greeting, is_upload_stats_control_frame, parse_upload_stats_sample, read_line, split_frame,
    LineStep as ReportStep, NumberText, RawUploadStatsSample, StatsAction,
    StatsEvent, StatsStream,
};
use tunmux_speedtest::speedtest::browser_protocol::websocket::{
    closed_message, on_answer_frame, on_report_frame, unexpected_message, AnswerStep, Exchange,
    FrameEvent, ReportFrame, WsNextFrame,
};
use tunmux_speedtest::speedtest::config::{finish_config, read_config_xml, ConfigError};
use tunmux_speedtest::speedtest::ipinfo::{map_payload, IpInfoPayload};
use tunmux_speedtest::speedtest::modern_protocol::{
    after_read, check_upload_reply, download_command, next_chunk, ping_command, quit_command,
    upload_command, upload_payload_size, validate_pong_line, LineKind, LineReader, LineStep,
};
use tunmux_speedtest::speedtest::servers::SpeedtestServer;
use tunmux_speedtest::speedtest::xml_depth::measure_depth;

fn scalar(value: f64) -> Scalar {
    Scalar { bits: value.to_bits() }
}

fn server(host: &str, url: &str) -> SpeedtestServer {
    SpeedtestServer {
        id: 1,
        sponsor: "s".to_string(),
        name: "n".to_string(),
        country: "c".to_string(),
        host: host.to_string(),
        distance_km: scalar(1.0),
        url: url.to_string(),
        session_guid: None,
        sdk_lat: None,
        sdk_lon: None,
        sdk_cc: None,
        sdk_preferred: None,
        sdk_isp_id: None,
        sdk_https_functional: None,
        sdk_hostname: None,
        sdk_port: None,
        sdk_force_ping_select: None,
    }
}

fn check_browser_endpoint() {
    let server = server("example.net:8080", "https://example.net/speedtest/upload.php");

    let endpoints = endpoint_urls(&server, "hello").expect("must build endpoint");
    let endpoint_set = endpoints
        .iter()
        .map(String::as_str)
        .collect::<std::collections::HashSet<_>>();
    assert!(endpoint_set.contains("https://example.net:8080/hello"));
    assert!(endpoint_set.contains("http://example.net:8080/hello"));
    assert!(endpoint_set.contains("https://example.net:8080/speedtest/hello"));

    let ws = websocket_endpoints(&server).expect("must build websocket endpoints");
    assert_eq!(ws[0].as_str(), "wss://example.net:8080/ws");
}

#[test]
fn browser_protocol_builds_browser_endpoint() {
    check_browser_endpoint();
}

#[test]
fn endpoints_builds_browser_endpoint() {
    check_browser_endpoint();
}

#[test]
fn endpoint_lists_hold_each_url_once() {
    let server = server("example.net:8080", "https://example.net/upload.php");
    let endpoints = endpoint_urls(&server, "hello").expect("must build endpoint");
    let distinct = endpoints.iter().collect::<std::collections::HashSet<_>>();
    assert_eq!(distinct.len(), endpoints.len());
}

#[test]
fn detects_host_with_port() {
    assert!(looks_like_host_with_port("example.com:8080"));
    assert!(looks_like_host_with_port("[2001:db8::1]:8080"));
    assert!(!looks_like_host_with_port("example.com"));
}

#[test]
fn resolves_endpoint_from_host_or_url() {
    let with_host = server("example.com:8080", "https://fallback.test/speedtest/upload.php");
    assert_eq!(
        resolve_endpoint(&with_host).expect("must resolve"),
        "example.com:8080"
    );

    let without_port = SpeedtestServer { host: "example.com".to_string(), ..with_host };
    assert_eq!(
        resolve_endpoint(&without_port).expect("must resolve from URL"),
        "fallback.test:443"
    );
}

#[test]
fn unusable_endpoints_are_named() {
    let broken = server("", "no url");
    assert!(matches!(resolve_endpoint(&broken), Err(EndpointError::InvalidServerUrl(_))));
    let hostless = server("", "data:text");
    let error = resolve_endpoint(&hostless).expect_err("no host");
    assert_eq!(error.message(), "speedtest server URL is missing host");
    let portless = server("", "foo://bar/");
    let error = resolve_endpoint(&portless).expect_err("no port");
    assert_eq!(error.message(), "speedtest server URL is missing resolvable port");
    assert!(host_with_port(&server("example.com:8080", "")).is_ok());
}

#[test]
fn validates_pong_response() {
    validate_pong_line("PONG 123").expect("valid PONG should parse");
    assert!(validate_pong_line("PONG abc").is_err());
    assert!(validate_pong_line("NOPE 1").is_err());
}

#[test]
fn pong_lines_fail_for_their_reasons() {
    let reason = |line: &str| validate_pong_line(line).expect_err("refused").message();
    assert_eq!(reason(""), "modern PING response missing command token");
    assert_eq!(reason("PING 1"), "modern PING response did not start with PONG");
    assert_eq!(reason("PONG"), "modern PING response missing token");
    assert_eq!(reason("PONG x"), "modern PING response token is not numeric ('x')");
    assert!(check_upload_reply("NO".to_string()).is_err());
    assert_eq!(ping_command(7), "PING 7\n");
    assert_eq!(download_command(10), "DOWNLOAD 10\n");
    assert_eq!(upload_command(20), "UPLOAD 20 0\n");
    assert_eq!(quit_command(), "QUIT\n");
    assert_eq!(
        upload_payload_size(1_000) + upload_command(1_000).len(),
        1_000
    );
}

#[test]
fn lines_are_read_byte_by_byte() {
    let mut reader = LineReader::new(LineKind::Ping);
    for byte in b"PONG 1\r" {
        assert!(matches!(reader.on_read(Some(*byte)), LineStep::ReadByte));
    }
    match reader.on_read(Some(b'\n')) {
        LineStep::Line(line) => assert_eq!(line, "PONG 1"),
        _ => panic!("expected a line"),
    }
    let mut reader = LineReader::new(LineKind::Upload);
    match reader.on_read(None) {
        LineStep::Failed(error) => assert!(error.message().ends_with("before line terminator")),
        _ => panic!("expected a failure"),
    }
    let mut reader = LineReader::new(LineKind::Upload);
    let mut failed = false;
    for _ in 0..600 {
        if let LineStep::Failed(error) = reader.on_read(Some(b'a')) {
            assert!(error.message().ends_with("exceeded 512 bytes"));
            failed = true;
            break;
        }
    }
    assert!(failed);
    assert_eq!(next_chunk(5), 5);
    assert_eq!(next_chunk(100_000), 32_768);
    assert_eq!(after_read(10, 4).expect("rest"), 6);
    assert!(after_read(10, 0).is_err());
}

#[test]
fn parses_client_metadata() {
    let xml = r#"<?xml version='1.0' encoding='UTF-8'?>
<settings>
  <client ip='203.0.113.9' lat='37.7749' lon='-122.4194' isp='Example ISP' country='US'/>
</settings>"#;

    let attributes = read_config_xml(xml).expect("config should parse");
    let latitude = attributes.latitude.parse::<f64>().ok().map(scalar);
    let longitude = attributes
        .longitude
        .as_ref()
        .and_then(|text| text.parse::<f64>().ok())
        .map(scalar);
    let config = finish_config(attributes, latitude, longitude).expect("config should parse");

    assert_eq!(config.client.ip, "203.0.113.9");
    assert_eq!(config.client.isp, "Example ISP");
    assert_eq!(config.client.country, "US");
    assert!((f64::from_bits(config.client.latitude.bits) - 37.7749).abs() < f64::EPSILON);
    assert!((f64::from_bits(config.client.longitude.bits) + 122.4194).abs() < f64::EPSILON);
}

#[test]
fn rejects_missing_client_node() {
    let xml = r#"<settings></settings>"#;
    let error = read_config_xml(xml).expect_err("missing client node should fail");
    assert!(error
        .message()
        .contains("speedtest config missing <client> node"));
}

#[test]
fn configurations_fail_for_their_reasons() {
    assert!(matches!(read_config_xml("<settings>"), Err(ConfigError::NotXml(_))));
    let error = read_config_xml("<s><client ip='1'/></s>").expect_err("no isp");
    assert!(error.message().starts_with("speedtest config <client> missing '"));
    let full = || {
        read_config_xml("<s><client ip='1' lat='x' lon='2' isp='i' country='c'/></s>")
            .expect("attributes")
    };
    let error = finish_config(full(), None, Some(scalar(2.0))).expect_err("latitude");
    assert_eq!(error.message(), "speedtest config <client> has invalid 'lat' value");
    let error = finish_config(full(), Some(scalar(1.0)), Some(scalar(f64::INFINITY)))
        .expect_err("longitude");
    assert_eq!(error.message(), "speedtest config <client> has non-finite 'lon' value");
}

#[test]
fn deeply_nested_configurations_are_refused() {
    let nested = |levels: usize| {
        let client = "<client ip='1' lat='1' lon='2' isp='i' country='c'/>";
        format!("{}{client}{}", "<a>".repeat(levels), "</a>".repeat(levels))
    };
    assert_eq!(measure_depth(&nested(3)), 4);
    assert!(read_config_xml(&nested(99)).is_ok());
    let error = read_config_xml(&nested(100)).expect_err("too deep");
    assert_eq!(error.message(), "speedtest config XML is nested too deeply");
    assert!(matches!(read_config_xml(&"<a>".repeat(200_000)), Err(ConfigError::TooDeep)));
    // What looks like an end tag in a comment, a section or an instruction closes nothing.
    assert_eq!(measure_depth("<a><!--</x>--><a><![CDATA[</x>]]><a><?p </x>?><a>"), 4);
    assert_eq!(measure_depth("<a b='/>' c=\"'>\"><d/></a><e/>"), 2);
}

#[test]
fn maps_and_trims_ipinfo_fields() {
    let payload = IpInfoPayload {
        country: Some(" US ".to_string()),
        city: Some(" New York ".to_string()),
        ip: Some(" 203.0.113.7 ".to_string()),
        org: Some(" AS64500 Example Net ".to_string()),
    };

    let info = map_payload(payload);

    assert_eq!(info.country.as_deref(), Some("US"));
    assert_eq!(info.city.as_deref(), Some("New York"));
    assert_eq!(info.ip.as_deref(), Some("203.0.113.7"));
    assert_eq!(info.org.as_deref(), Some("AS64500 Example Net"));
}

#[test]
fn drops_empty_ipinfo_fields() {
    let payload = IpInfoPayload {
        country: Some("  ".to_string()),
        city: None,
        ip: Some(String::new()),
        org: Some("\t".to_string()),
    };

    let info = map_payload(payload);

    assert!(info.country.is_none());
    assert!(info.city.is_none());
    assert!(info.ip.is_none());
    assert!(info.org.is_none());
}

#[test]
fn request_urls_carry_their_query() {
    let server = server("example.net:8080", "https://example.net/speedtest/upload.php");
    let urls = download_urls(&server, 4_096).expect("urls");
    assert!(urls.iter().any(|url| url == "https://example.net:8080/download?size=4096"));
    let urls = request_urls(&server, "hello", &hello_query("a b", "g&h")).expect("urls");
    assert!(urls
        .iter()
        .any(|url| url == "https://example.net:8080/hello?nocache=a+b&guid=g%26h"));
    assert!(upload_urls(&server).expect("urls").iter().all(|url| !url.contains('?')));
    let names: Vec<String> =
        session_download_query("t", 1, "g").into_iter().map(|(name, _)| name).collect();
    assert_eq!(names, vec!["nocache", "size", "guid"]);
    assert_eq!(
        request_urls(&self::server("", "no url"), "hello", &Vec::new()),
        Err(TransferRequestError::InvalidEndpoint)
    );
}

#[test]
fn tokens_differ_from_call_to_call() {
    assert_eq!(nocache_token(255, 16), "ff-10");
    assert_ne!(next_nocache_token(1), next_nocache_token(2));
}

#[test]
fn requests_are_tried_until_one_succeeds() {
    let mut attempts = RequestAttempts::new();
    assert_eq!(attempts.on_upload(RequestOutcome::NotSent), None);
    assert_eq!(attempts.failure(), TransferRequestError::Transport);
    assert_eq!(attempts.on_upload(RequestOutcome::Refused), None);
    assert_eq!(attempts.failure(), TransferRequestError::HttpStatus);
    assert_eq!(
        attempts.on_upload(RequestOutcome::Answered { bytes: 9, complete: true }),
        Some(9)
    );
    let mut attempts = RequestAttempts::new();
    assert_eq!(
        attempts.on_whole_download(RequestOutcome::Answered { bytes: 0, complete: false }, None),
        None
    );
    assert_eq!(attempts.failure(), TransferRequestError::ResponseRead);
    assert_eq!(attempts.failure().message(), "response read error");
    assert_eq!(
        attempts.on_whole_download(RequestOutcome::Answered { bytes: 0, complete: false }, Some(8)),
        Some(8)
    );
}

#[test]
fn payloads_are_sent_chunk_by_chunk() {
    let mut offset = 0;
    let mut chunks = 0;
    while let Some(end) = chunk_end(offset, 100_000) {
        assert!(end > offset && end <= 100_000);
        offset = end;
        chunks += 1;
    }
    assert_eq!(offset, 100_000);
    assert_eq!(chunks, 4);
}

#[test]
fn logged_bodies_are_cut() {
    assert_eq!(truncate_for_log("short"), "short");
    let long = "ä".repeat(600);
    let cut = truncate_for_log(&long);
    assert_eq!(cut, format!("{}...", "ä".repeat(512)));
}

#[test]
fn handshakes_take_their_answers() {
    let answer = |exchange, text: &str| on_answer_frame(exchange, FrameEvent::Text(text.to_string()));
    assert!(matches!(answer(Exchange::Hello, "HELLO 2.9"), AnswerStep::Answered));
    assert!(matches!(on_answer_frame(Exchange::Hello, FrameEvent::Ping), AnswerStep::ReplyPong));
    assert!(matches!(on_answer_frame(Exchange::Hello, FrameEvent::Close), AnswerStep::Closed));
    assert!(matches!(on_answer_frame(Exchange::Ping, FrameEvent::Pong), AnswerStep::Wait));
    assert!(unexpected_message("x", Exchange::Hello).contains("HELLO"));
    assert!(closed_message(Exchange::Ping).starts_with("websocket closed while waiting for "));
    assert!(Exchange::Ping.request(9).contains('9'));
}

#[test]
fn report_frames_are_sorted_out() {
    match on_report_frame(ReportFrame::Binary(vec![b'o', b'k'])) {
        WsNextFrame::Text(text) => assert_eq!(text, "ok"),
        _ => panic!("expected a text"),
    }
    assert!(matches!(on_report_frame(ReportFrame::Binary(vec![0xff])), WsNextFrame::NonText));
    assert!(matches!(on_report_frame(ReportFrame::TimedOut), WsNextFrame::Timeout));
    assert!(matches!(on_report_frame(ReportFrame::Ended), WsNextFrame::Closed));
    assert!(matches!(on_report_frame(ReportFrame::Ping), WsNextFrame::ReplyPong));
}

#[test]
fn upload_reports_are_read_in_both_forms() {
    let usual = Some(RawUploadStatsSample {
        bytes: 10,
        elapsed_ms: 20,
        index: Some(3),
        sample_type: None,
    });
    let sample = parse_upload_stats_sample(&usual, &None, &Vec::new()).expect("usual form");
    assert_eq!((sample.bytes, sample.elapsed_ms, sample.index), (10, 20, Some(3)));
    let json = parse_json(r#"{"bytes":12,"nested":{"elapsed":34}}"#);
    let sample = parse_upload_stats_sample(&None, &json, &Vec::new()).expect("loose form");
    assert_eq!((sample.bytes, sample.elapsed_ms), (12, 34));
    let texts = parse_json(r#"{"bytes":"12","elapsed":34}"#);
    let numbers = vec![NumberText { text: "12".to_string(), value: scalar(12.0) }];
    let sample = parse_upload_stats_sample(&None, &texts, &numbers).expect("texts");
    assert_eq!((sample.bytes, sample.elapsed_ms), (12, 34));
    assert!(parse_upload_stats_sample(&None, &parse_json("{}"), &Vec::new()).is_none());
    assert!(!is_upload_stats_control_frame(&json, &Vec::new()));
    assert_eq!(split_frame(" a \n\n b "), vec!["a", "b"]);
    assert!(greeting("guid-1").contains("guid-1"));
    assert!(read_line("{}").is_some());
}

#[test]
fn report_streams_count_their_lines() {
    let mut stream = StatsStream::new(10, 50);
    let before = stream.request();
    let usual = Some(RawUploadStatsSample {
        bytes: 10,
        elapsed_ms: 20,
        index: Some(3),
        sample_type: None,
    });
    match stream.on_line("{}", &usual, &None, &Vec::new()) {
        ReportStep::Report { sample, .. } => assert_eq!(sample.bytes, 10),
        _ => panic!("expected a report"),
    }
    assert_eq!(stream.next_index, 4);
    assert_ne!(before, stream.request());
}

#[test]
fn report_streams_ask_listen_and_leave() {
    let mut stream = StatsStream::new(10, 50);
    assert_eq!(stream.next_action(false), StatsAction::Finish { succeeded: false });
    assert_eq!(stream.next_action(true), StatsAction::Connect);
    stream.on_event(StatsEvent::ConnectFailed);
    assert_eq!(stream.next_action(false), StatsAction::Pause);
    stream.on_event(StatsEvent::Paused);
    stream.on_event(StatsEvent::Connected);
    assert_eq!(stream.next_action(true), StatsAction::SendGreeting);
    stream.on_event(StatsEvent::Sent);
    assert_eq!(stream.next_action(true), StatsAction::SendRequest);
    stream.on_event(StatsEvent::Sent);
    assert_eq!(stream.next_action(true), StatsAction::ReadFrame);
    assert_eq!(stream.next_action(false), StatsAction::Close);
    stream.on_event(StatsEvent::TimedOut);
    assert_eq!(stream.next_action(true), StatsAction::SendRequest);
    stream.on_event(StatsEvent::SendFailed);
    assert_eq!(stream.next_action(true), StatsAction::ReadFrame);
    stream.on_event(StatsEvent::TextRead);
    for _ in 0..2 {
        stream.on_event(StatsEvent::TimedOut);
        stream.on_event(StatsEvent::Sent);
    }
    assert_eq!(stream.next_action(true), StatsAction::Close);
    stream.on_event(StatsEvent::Closed);
    assert_eq!(stream.next_action(true), StatsAction::Pause);
    assert_eq!(stream.next_action(false), StatsAction::Finish { succeeded: true });
}

#[test]
fn probe_runs_end_on_time() {
    let mut run = SampleRun::counted(2);
    run.on_exchange(Some(5));
    assert!(run.goes_on(0));
    run.on_exchange(Some(6));
    assert!(!run.goes_on(0));
    assert_eq!(run.samples_ns, vec![5, 6]);
    let mut timed = SampleRun::timed(100);
    assert!(timed.goes_on(99));
    assert!(!timed.goes_on(100));
    timed.on_exchange(None);
    assert!(!timed.goes_on(0));
    assert!(check_sample_count(0).is_err());
    assert!(loaded_probe_ns(0) > 0);
    assert_eq!(
        probe_failure(ProbeKind::Idle, &Vec::new()).message(),
        "no websocket endpoint candidates available for latency probing"
    );
    assert_eq!(
        probe_failure(ProbeKind::Loaded, &vec!["wss://a/ws".to_string()]).message(),
        "websocket loaded latency probe failed at wss://a/ws"
    );
}
