use tunmux_speedtest::cli::{Cli, Command, IperfArgs, IperfProtocol};
use tunmux_speedtest::iperf::control::{ControlError, ControlSession, ControlState};
use tunmux_speedtest::iperf::model::{
    progress_at, tcp_summary, IperfClientConfig, IperfDirection,
};
use tunmux_speedtest::iperf::proxy::http_connect::{
    build_connect_request, judge_response, on_response, ConnectStep,
};
use tunmux_speedtest::iperf::proxy::socks5::{
    check_method, greeting, udp_associate_request, unwrap_payload, wrap_payload, Socks5Error,
    SocksAddress,
};
use tunmux_speedtest::iperf::proxy::{ensure_compatible, parse_proxy, ProxyError, ProxyScheme};
use tunmux_speedtest::iperf::schema::{
    list_directions, push_iperf_interval, IperfConfigOut, IperfDirectionOut, IperfJsonV1,
    IperfProtocolOut, IperfResultsOut, IperfTarget, IPERF_SCHEMA_V1,
};
use tunmux_speedtest::iperf::servers::{
    load_candidates, probe_count, select_best_server, IperfProbe, IperfServerCandidate,
    PortDescriptor, ServerEntry, ServersError,
};
use tunmux_speedtest::iperf::session::{
    limit_candidates, named_target, progress_interval, selected_label, IperfSession,
};
use tunmux_speedtest::iperf::tcp::{on_read, on_write, ReadOutcome};
use tunmux_speedtest::iperf::udp::{
    choose_transport, first_sequence, packet_pause, per_worker_bitrate, receive_capacity,
    UdpAggregate, UdpTransport, UdpTurn, UdpWorker,
};
use tunmux_speedtest::iperf::udp_packet::{
    build_packet, build_packet_at, parse_header, UdpReceiveMetrics,
};
use tunmux_speedtest::num::fraction::Fraction;
use tunmux_speedtest::num::scalar::Scalar;

fn config(protocol: IperfProtocol) -> IperfClientConfig {
    IperfClientConfig {
        host: "127.0.0.1".to_string(),
        port: 5201,
        protocol,
        seconds: 10,
        parallel: 2,
        bitrate_bps: Some(2_000_000),
        proxy: None,
    }
}

#[test]
fn control_session_transitions_to_done() {
    let cfg = config(IperfProtocol::Tcp);
    let mut session = ControlSession::new(&cfg, IperfDirection::Upload);
    let negotiated = session.start().expect("control start should succeed");
    assert_eq!(negotiated.parallel, 2);
    assert_eq!(session.state(), ControlState::TestRunning);
    session.finish().expect("control finish should succeed");
    assert_eq!(session.state(), ControlState::Done);
}

#[test]
fn control_sessions_refuse_what_is_out_of_turn() {
    let cfg = config(IperfProtocol::Udp);
    let mut session = ControlSession::new(&cfg, IperfDirection::Download);
    let error = session.finish().expect_err("nothing has been started");
    assert_eq!(
        error.message(),
        "invalid control state transition: Init -> ResultsExchanged (expected Connected)"
    );
    session.start().expect("start");
    session.finish().expect("finish");
    let error = session.start().expect_err("already over");
    assert_eq!(error, ControlError::AlreadyFinished);
    assert_eq!(error.message(), "control session already finished");
}

#[test]
fn sessions_go_from_state_to_state() {
    let states = [
        ControlState::Init,
        ControlState::Connected,
        ControlState::ParametersExchanged,
        ControlState::StreamsCreated,
        ControlState::TestStarted,
        ControlState::TestRunning,
        ControlState::ResultsExchanged,
        ControlState::ResultsDisplayed,
        ControlState::Done,
    ];
    let cfg = config(IperfProtocol::Tcp);
    let mut session = ControlSession::new(&cfg, IperfDirection::Upload);
    for next in &states[1..] {
        assert!(session.transition(ControlState::Init).is_err());
        session.transition(*next).expect("the next state");
        assert_eq!(session.state(), *next);
        assert!(session.transition(*next).is_err());
    }
    assert_eq!(session.transition(ControlState::Init), Err(ControlError::AlreadyFinished));
}

#[test]
fn datagrams_from_the_server_need_a_bit_rate() {
    let mut cfg = config(IperfProtocol::Udp);
    cfg.bitrate_bps = Some(0);
    let mut session = ControlSession::new(&cfg, IperfDirection::Download);
    let error = session.start().expect_err("no bit rate");
    assert_eq!(error, ControlError::NoBitrateForDownload);
    assert_eq!(session.state(), ControlState::ParametersExchanged);
    cfg.bitrate_bps = None;
    let mut session = ControlSession::new(&cfg, IperfDirection::Download);
    let agreed = session.start().expect("default bit rate");
    assert_eq!(agreed.bitrate_bps, Some(1_000_000));
    assert_eq!(agreed.packet_size, 1_200);
}

#[test]
fn rejects_udp_over_http_proxy() {
    let proxy = parse_proxy("http://127.0.0.1:8080").expect("proxy should parse");
    let error = ensure_compatible(IperfProtocol::Udp, Some(&proxy))
        .expect_err("udp over http should fail");
    assert!(error
        .message()
        .contains("UDP is not supported over HTTP proxy"));
}

#[test]
fn allows_udp_over_socks5() {
    let proxy = parse_proxy("socks5://127.0.0.1:1080").expect("proxy should parse");
    let result = ensure_compatible(IperfProtocol::Udp, Some(&proxy));
    assert!(result.is_ok());
}

#[test]
fn rejects_https_proxy_for_native_iperf() {
    let proxy = parse_proxy("https://127.0.0.1:8443").expect("proxy should parse");
    let error = ensure_compatible(IperfProtocol::Tcp, Some(&proxy))
        .expect_err("https proxy should fail for native iperf");
    assert!(error
        .message()
        .contains("HTTPS proxy is not yet supported"));
}

#[test]
fn proxies_are_read_part_by_part() {
    let proxy = parse_proxy("socks5h://proxy.example:1080").expect("proxy");
    assert_eq!(proxy.scheme, ProxyScheme::Socks5h);
    assert_eq!(proxy.host, "proxy.example");
    assert_eq!(proxy.port, 1080);
    assert_eq!(proxy.raw_url, "socks5h://proxy.example:1080");
    let known = parse_proxy("http://proxy.example").expect("known port");
    assert_eq!(known.port, 80);
    assert!(matches!(parse_proxy("no url"), Err(ProxyError::InvalidUrl(_))));
    let error = parse_proxy("ftp://proxy.example").expect_err("scheme");
    assert_eq!(
        error.message(),
        "unsupported proxy scheme 'ftp' (use http, https, socks5, or socks5h)"
    );
    assert!(matches!(parse_proxy("socks5://proxy.example"), Err(ProxyError::MissingPort)));
}

#[test]
fn serializes_schema_with_optional_directions() {
    let body = IperfJsonV1 {
        schema: IPERF_SCHEMA_V1,
        timestamp: "1".to_string(),
        target: IperfTarget { host: "127.0.0.1".to_string(), port: 5201 },
        protocol: IperfProtocolOut::Tcp,
        proxy: None,
        config: IperfConfigOut { seconds: 10, parallel: 1, bitrate_bps: None },
        results: IperfResultsOut {
            upload: Some(IperfDirectionOut {
                bytes: 100,
                mbps: Fraction { num: 1, den: 1 },
                duration_seconds: 10,
                packets: None,
                lost_packets: None,
                loss_percent: None,
                jitter_ms: None,
                out_of_order: None,
            }),
            download: None,
        },
        details: None,
    };

    let mut json = serde_json::Map::new();
    json.insert("schema".to_string(), serde_json::Value::from(body.schema));
    json.insert(
        "download".to_string(),
        match body.results.download {
            Some(out) => serde_json::Value::from(out.bytes),
            None => serde_json::Value::Null,
        },
    );
    let json = serde_json::to_string(&json).expect("json serialization should succeed");
    assert!(json.contains("\"schema\":\"tunmux.iperf.v1\""));
    assert!(json.contains("\"download\":null"));
}

fn entry(value: &serde_json::Value) -> ServerEntry {
    let text = |name: &str| value[name].as_str().map(ToString::to_string);
    let port = &value["port"];
    let protocol = port["protocol"].as_str().expect("protocol").to_string();
    ServerEntry {
        region: text("region"),
        host: text("host").expect("host"),
        localization: text("localization"),
        status: text("status"),
        port: match port["port"].as_u64() {
            Some(number) => PortDescriptor::Single { port: number as u16, protocol },
            None => PortDescriptor::Range {
                from: port["from"].as_u64().expect("from") as u16,
                to: port["to"].as_u64().expect("to") as u16,
                protocol,
            },
        },
    }
}

fn sample_entries() -> Vec<ServerEntry> {
    let body = r#"{
        "servers": [
          {"host":"a.example","status":"OK","region":"x","localization":"loc","port":{"from":9200,"to":9240,"protocol":"TCP/UDP"}},
          {"host":"b.example","status":"OOS","region":"x","localization":"loc","port":{"port":5001,"protocol":"TCP/UDP"}},
          {"host":"c.example","status":"OK","region":"x","localization":"loc","port":{"port":5002,"protocol":"TCP"}}
        ]
      }"#;
    let list: serde_json::Value = serde_json::from_str(body).expect("test JSON");
    list["servers"].as_array().expect("servers").iter().map(entry).collect()
}

#[test]
fn parses_and_filters_candidates() {
    let entries = sample_entries();
    let tcp = load_candidates("list.json", &entries, IperfProtocol::Tcp, None)
        .expect("tcp candidates should parse");
    assert_eq!(tcp.len(), 2);

    let udp = load_candidates("list.json", &entries, IperfProtocol::Udp, None)
        .expect("udp candidates should parse");
    assert_eq!(udp.len(), 1);
    assert_eq!(udp[0].host, "a.example");
    assert_eq!(udp[0].port, 9200);
}

#[test]
fn candidates_take_the_port_that_is_asked_for() {
    let mut entries = sample_entries();
    let forced = load_candidates("list.json", &entries, IperfProtocol::Udp, Some(7))
        .expect("candidates");
    assert_eq!(forced[0].port, 7);
    entries[0].port =
        PortDescriptor::Range { from: 5_000, to: 6_000, protocol: "udp".to_string() };
    let usual = load_candidates("list.json", &entries, IperfProtocol::Udp, None)
        .expect("candidates");
    assert_eq!(usual[0].port, 5_201);
    let error = load_candidates("list.json", &Vec::new(), IperfProtocol::Udp, None)
        .expect_err("nothing there");
    assert_eq!(
        error.message(),
        "no usable iperf servers found in 'list.json' for protocol Udp"
    );
}

fn probe(host: &str, samples_ns: Vec<i64>) -> IperfProbe {
    IperfProbe {
        candidate: IperfServerCandidate {
            host: host.to_string(),
            port: 5201,
            region: Some("eu".to_string()),
            localization: None,
        },
        samples_ns,
    }
}

#[test]
fn the_fastest_server_is_selected() {
    let probes = vec![
        probe("slow", vec![30, 30]),
        probe("silent", vec![]),
        probe("fast", vec![10, 20]),
        probe("equal", vec![15]),
    ];
    let best = select_best_server(&probes).expect("a server");
    assert_eq!(best.host, "fast");
    assert_eq!(best.average_latency_ns, Fraction { num: 30, den: 2 });
    assert!(matches!(select_best_server(&Vec::new()), Err(ServersError::NoCandidates)));
    let error = select_best_server(&vec![probe("silent", vec![])]).expect_err("silence");
    assert_eq!(error.message(), "all candidate iperf servers failed latency probe");
    assert_eq!(
        ServersError::NoCandidates.message(),
        "cannot select iperf server from an empty candidate list"
    );
    assert_eq!(probe_count(0), 1);
    assert_eq!(probe_count(3), 3);
}

#[test]
fn parses_packet_header_round_trip() {
    let packet = build_packet(7, 1200);
    let header = parse_header(&packet).expect("header should parse");
    assert_eq!(header.sequence, 7);
}

#[test]
fn tracks_loss_and_order() {
    let mut metrics = UdpReceiveMetrics::default();
    for seq in [1_u64, 2, 4, 3, 5] {
        let packet = build_packet(seq, 128);
        metrics.on_packet(parse_header(&packet));
    }

    assert_eq!(metrics.total_packets, 5);
    assert_eq!(metrics.lost_packets, 1);
    assert_eq!(metrics.out_of_order, 1);
}

#[test]
fn headers_carry_their_time() {
    let packet = build_packet_at(0x0102_0304_0506_0708, 20, 99);
    let header = parse_header(&packet).expect("header");
    assert_eq!(header.sequence, 0x0102_0304_0506_0708);
    assert_eq!(header.sent_micros, 99);
    assert!(parse_header(&packet[..19]).is_none());
    assert!(parse_header(&[0; 64]).is_none());
}

#[test]
fn workers_number_their_datagrams_apart() {
    assert_eq!(first_sequence(0), 1);
    assert_eq!(first_sequence(1), 0x1_0000_0001);
    let mut worker = UdpWorker::new(IperfDirection::Upload, 2, 64);
    let packet = worker.next_packet();
    assert_eq!(parse_header(&packet).expect("header").sequence, 0x2_0000_0001);
    assert_eq!(worker.next_sequence, 0x2_0000_0002);
    worker.on_sent(packet.len());
    assert_eq!(worker.bytes, 64);
    assert_eq!(worker.on_turn(Some(7)), UdpTurn::Send { pause_ns: Some(7) });
    let receiver = UdpWorker::new(IperfDirection::Download, 0, 1_200);
    assert_eq!(receiver.on_turn(Some(7)), UdpTurn::Receive { capacity: 2_048 });
    assert_eq!(receive_capacity(9_000), 9_000);
}

#[test]
fn datagrams_keep_to_the_bit_rate() {
    assert_eq!(per_worker_bitrate(Some(1_000_000), 4), Some(250_000));
    assert_eq!(per_worker_bitrate(Some(3), 4), None);
    assert_eq!(per_worker_bitrate(None, 4), None);
    // 9600 bits at 250 kbit/s
    assert_eq!(packet_pause(1_200, 250_000), 38_400_000);
    assert_eq!(packet_pause(1_200, u64::MAX), 1_000_000);
}

#[test]
fn received_datagrams_are_summed_up() {
    let mut worker = UdpWorker::new(IperfDirection::Download, 0, 64);
    for sequence in [1_u64, 3] {
        let packet = build_packet_at(sequence, 64, 10);
        worker.on_received_at(&packet, 20);
    }
    let mut all = UdpAggregate::new(IperfDirection::Download);
    all.add_worker(&worker);
    let summary = all.summary(2, Scalar { bits: 0 });
    assert_eq!(summary.bytes, 128);
    assert_eq!(summary.mbps, Fraction { num: 1_024, den: 2_000_000 });
    assert_eq!(summary.packets, Some(2));
    assert_eq!(summary.lost_packets, Some(1));
    assert_eq!(summary.loss_percent, Some(Fraction { num: 100, den: 2 }));
    let mut sent = UdpAggregate::new(IperfDirection::Upload);
    sent.add_worker(&worker);
    assert_eq!(sent.summary(2, Scalar { bits: 0 }).packets, None);
}

#[test]
fn datagrams_go_direct_or_through_socks() {
    assert_eq!(choose_transport(&None), UdpTransport::Direct);
    let socks = parse_proxy("socks5://127.0.0.1:1080").expect("proxy");
    assert_eq!(choose_transport(&Some(socks)), UdpTransport::Socks);
    let http = parse_proxy("http://127.0.0.1:1080").expect("proxy");
    assert_eq!(choose_transport(&Some(http)), UdpTransport::Unavailable);
}

#[test]
fn streams_reconnect_when_they_break() {
    assert_eq!(on_write(true, 10).bytes, 10);
    assert!(on_write(false, 10).reconnect);
    assert!(on_read(ReadOutcome::Read(0)).reconnect);
    assert_eq!(on_read(ReadOutcome::Read(7)).bytes, 7);
    assert!(on_read(ReadOutcome::Failed).reconnect);
    assert!(!on_read(ReadOutcome::TimedOut).reconnect);
}

#[test]
fn tunnels_are_asked_for_and_judged() {
    assert_eq!(
        build_connect_request("example.com", 5201),
        "CONNECT example.com:5201 HTTP/1.1\r\nHost: example.com:5201\r\nProxy-Connection: Keep-Alive\r\n\r\n"
    );
    assert!(judge_response("HTTP/1.1 200 Connection established\r\n\r\n").is_ok());
    assert!(judge_response("HTTP/1.0 200 OK\r\n\r\n").is_ok());
    assert_eq!(
        judge_response("HTTP/1.1 403 Forbidden\r\n\r\n").expect_err("refused"),
        "HTTP/1.1 403 Forbidden"
    );
    let answer = b"HTTP/1.1 200 OK\r\nVia: caf\xff\r\n\r\n".to_vec();
    assert!(matches!(on_response(&answer, 5), ConnectStep::Open));
    assert!(matches!(on_response(&answer, 0), ConnectStep::Closed));
    assert!(matches!(on_response(&b"HTTP/1.1".to_vec(), 8), ConnectStep::ReadMore));
    assert!(matches!(on_response(&vec![b'a'; 16_385], 1), ConnectStep::TooLarge));
    let refused = b"HTTP/1.1 502 \xff\r\n\r\n".to_vec();
    match on_response(&refused, 4) {
        ConnectStep::Refused(status) => assert_eq!(status, "HTTP/1.1 502 \u{fffd}"),
        _ => panic!("expected a refusal"),
    }
}

#[test]
fn relayed_datagrams_come_back() {
    let target = SocksAddress::Domain("example.com".to_string());
    let wrapped = wrap_payload(&target, 5201, &[1, 2, 3]);
    assert_eq!(&wrapped[..5], &[0, 0, 0, 3, 11]);
    assert_eq!(unwrap_payload(&wrapped).expect("payload"), vec![1, 2, 3]);
    let error = unwrap_payload(&[0, 0, 0]).expect_err("too short");
    assert_eq!(error, Socks5Error::MalformedPacket);
    assert_eq!(greeting(), vec![5, 1, 0]);
    assert!(check_method(5, 0).is_ok());
    assert_eq!(check_method(4, 0), Err(Socks5Error::InvalidMethodVersion));
    assert_eq!(check_method(5, 255), Err(Socks5Error::UnsupportedMethod(255)));
    assert_eq!(
        Socks5Error::UnsupportedMethod(255).message(),
        "proxy requires unsupported SOCKS5 authentication method 255"
    );
    assert_eq!(udp_associate_request(), vec![5, 3, 0, 1, 0, 0, 0, 0, 0, 0]);
}

fn args(tokens: &[&str]) -> IperfArgs {
    let mut all = vec!["tunmux-speedtest", "iperf"];
    all.extend_from_slice(tokens);
    match Cli::try_parse_from(&all).expect("arguments").command {
        Some(Command::Iperf(args)) => args,
        _ => panic!("expected iperf command"),
    }
}

#[test]
fn benchmarks_report_what_was_run() {
    let args = args(&["--host", "127.0.0.1", "--json", "--details", "--seconds", "2"]);
    let target = named_target(&args).expect("target");
    assert_eq!(target.port, 5201);
    let mut session = IperfSession::begin(&args, target, None).expect("session");
    let mut intervals = Vec::new();
    session.on_progress(&mut intervals, 1_000_000_000, 10, Fraction { num: 1, den: 1 });
    session.on_progress(&mut intervals, 9_000_000_000, 20, Fraction { num: 2, den: 1 });
    let summary = tcp_summary(25, 2);
    session.on_finished(IperfDirection::Upload, intervals, &summary);
    let report = session.report_now();
    assert_eq!(report.schema, "tunmux.iperf.v1");
    assert_eq!(report.timestamp.len(), 20);
    assert!(report.timestamp.ends_with('Z'));
    assert!(report.results.download.is_none());
    assert_eq!(report.results.upload.expect("upload").bytes, 25);
    let details = report.details.expect("details").upload.expect("upload details");
    assert_eq!(details.intervals.len(), 2);
    assert_eq!(details.intervals[1].elapsed_ns, 2_000_000_000);
    assert_eq!(details.intervals[1].bytes, 25);
}

#[test]
fn directions_run_in_order() {
    assert_eq!(
        list_directions(false, false),
        vec![IperfDirection::Upload, IperfDirection::Download]
    );
    assert_eq!(list_directions(true, false), vec![IperfDirection::Upload]);
    assert_eq!(list_directions(false, true), vec![IperfDirection::Download]);
    assert_eq!(progress_interval(true, None), Some(1_000_000_000));
    assert_eq!(progress_interval(false, Some(5)), Some(5));
    let mut intervals = Vec::new();
    push_iperf_interval(&mut intervals, 1, 1, Fraction { num: 0, den: 1 });
    push_iperf_interval(&mut intervals, 1, 2, Fraction { num: 0, den: 1 });
    assert_eq!(intervals.len(), 1);
    assert_eq!(intervals[0].bytes, 2);
}

#[test]
fn targets_are_labelled() {
    assert_eq!(
        selected_label("h", 5201, "1.50", &Some("eu".to_string()), &Some("Paris".to_string())),
        "h:5201 1.50ms [eu] Paris"
    );
    let auto = args(&["--auto-server"]);
    assert_eq!(
        named_target(&auto).expect_err("no host"),
        "--host is required unless --auto-server is set"
    );
    let mut candidates = vec![probe("a", vec![]).candidate, probe("b", vec![]).candidate];
    limit_candidates(&mut candidates, 1);
    assert_eq!(candidates.len(), 1);
    let progress = progress_at(500_000_000, 1_000_000);
    assert_eq!(progress.mbps, Fraction { num: 8_000_000, den: 1_000_000 });
}

#[test]
fn iperf_udp_over_http_proxy_is_rejected() {
    let args = args(&[
        "--host",
        "127.0.0.1",
        "--port",
        "5201",
        "--protocol",
        "udp",
        "--proxy",
        "http://127.0.0.1:8080",
        "--json",
    ]);
    let proxy = parse_proxy(args.proxy.as_deref().expect("proxy")).expect("proxy should parse");
    let target = named_target(&args).expect("target");
    let error = IperfSession::begin(&args, target, Some(proxy)).expect_err("must be rejected");
    assert!(error.message().contains("UDP is not supported over HTTP proxy"));
}
