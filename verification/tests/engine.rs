use tunmux_speedtest::cli::{CacheShowArgs, Cli, Command, RunArgs};
use tunmux_speedtest::model::{RunResult, SdkArtifacts, Server, Speed, ThroughputInterval};
use tunmux_speedtest::num::fraction::Fraction;
use tunmux_speedtest::num::rate::Rate;
use tunmux_speedtest::num::scalar::Scalar;
use tunmux_speedtest::output::{
    format_bytes, format_stage_duration, jitter_color, latency_color, print_human, share_color,
    throughput_color, DirectionTexts, HumanTexts, ServerTexts, Theme,
};
use tunmux_speedtest::runner::cache::{list_cache, print_cache, print_cleared};
use tunmux_speedtest::runner::{output_form, plan_speedtest, proxy_steps, OutputForm};
use tunmux_speedtest::speedtest::api::{
    ModernTransportMode, ResolvedSpeedtestApi, TransportProtocol,
};
use tunmux_speedtest::speedtest::browser_protocol::transfer::TransferRequestError;
use tunmux_speedtest::speedtest::browser_protocol::upload_stats::UploadStatsSample;
use tunmux_speedtest::speedtest::cache::{cache_path, CacheFile};
use tunmux_speedtest::speedtest::config::SpeedtestClient;
use tunmux_speedtest::speedtest::download::{plan_download, DownloadStage, PerServerDownloadStats};
use tunmux_speedtest::speedtest::engine::{
    apply_download_stats_to_server_pool, begin_run_result, build_initial_run_result,
    build_remote_upload_intervals, choose_server, clamp_to_stage, fix_server, map_server,
    push_interval, start_run, EngineError, EngineEvent, EngineSettings, EngineStage,
    LocatedClient, StageMachine,
};
use tunmux_speedtest::speedtest::engine_stages::{
    closing_events, download_config, finish_download_stage, finish_upload_stage,
    record_latency_samples, report_guid, upload_config, EngineState,
};
use tunmux_speedtest::speedtest::select::ServerLatency;
use tunmux_speedtest::speedtest::servers::SpeedtestServer;
use tunmux_speedtest::speedtest::throughput::TransferConfig;
use tunmux_speedtest::speedtest::transfer_util::{
    elapsed_ms_since, keep_ready, normalize_server_pool, request_tally, server_guid,
    should_emit_progress, worker_server, ActiveConnectionGuard, Tally, TransferCounters,
};
use tunmux_speedtest::speedtest::upload::{follows_reports, RemoteReports};
use tunmux_speedtest::speedtest::workers::{
    on_request_end, on_request_turn, on_upload_turn, ActiveChange, SizeCursor, TcpWorker, UploadTcpWorker,
    WorkerEvent, WorkerOrder,
};

fn scalar(value: f64) -> Scalar {
    Scalar { bits: value.to_bits() }
}

fn speed(mbps: f64) -> Speed {
    Speed { mbps: scalar(mbps), bps: (mbps * 1_000_000.0).round() as u64 }
}

fn server(id: u64) -> SpeedtestServer {
    SpeedtestServer {
        id,
        sponsor: "s".to_string(),
        name: "n".to_string(),
        country: "c".to_string(),
        host: format!("host{id}.example:8080"),
        distance_km: scalar(1.0),
        url: format!("http://host{id}.example:8080/speedtest/upload.php"),
        session_guid: Some("guid".to_string()),
        sdk_lat: None,
        sdk_lon: None,
        sdk_cc: None,
        sdk_preferred: None,
        sdk_isp_id: None,
        sdk_https_functional: Some(1),
        sdk_hostname: None,
        sdk_port: Some(8080),
        sdk_force_ping_select: None,
    }
}

fn measured(id: u64, average_ns: u128, samples_ns: Vec<i64>) -> ServerLatency {
    ServerLatency {
        server: server(id),
        average: Fraction { num: average_ns, den: 1 },
        variance_ms: scalar(0.25),
        samples_ns,
    }
}

fn located() -> LocatedClient {
    LocatedClient {
        client: SpeedtestClient {
            ip: "203.0.113.9".to_string(),
            isp: "Example ISP".to_string(),
            country: "US".to_string(),
            latitude: scalar(37.5),
            longitude: scalar(-122.5),
        },
        latitude_text: "37.5".to_string(),
        longitude_text: "-122.5".to_string(),
    }
}

fn settings() -> EngineSettings {
    EngineSettings::default()
}

fn config() -> TransferConfig {
    TransferConfig {
        connections: 4,
        initial_connections: 2,
        max_seconds: 10,
        progress_interval_nanos: Some(250_000_000),
        request_target_ms: 1_000,
        start_request_size: 1_048_576,
        min_request_size: 32 * 1024,
        max_request_size: 25 * 1024 * 1024,
    }
}

#[test]
fn stage_machine_advances_in_expected_order() {
    let settings = EngineSettings::default();
    let mut machine = StageMachine::new(settings.stage_order());

    assert_eq!(machine.next(), Some(EngineStage::Latency));
    assert_eq!(machine.next(), Some(EngineStage::Download));
    assert_eq!(machine.next(), Some(EngineStage::Upload));
    assert_eq!(machine.next(), Some(EngineStage::Save));
    assert_eq!(machine.next(), None);
}

#[test]
fn runs_start_only_with_sound_settings() {
    assert_eq!(start_run(&settings(), 0).expect_err("no servers"), EngineError::NoServers);
    let refused = |change: fn(&mut EngineSettings)| {
        let mut changed = settings();
        change(&mut changed);
        changed.validate().expect_err("unsound").message()
    };
    assert_eq!(
        refused(|settings| settings.candidate_servers = 0),
        "candidate_servers must be greater than zero"
    );
    assert_eq!(
        refused(|settings| settings.latency_samples = 0),
        "latency_samples must be greater than zero"
    );
    assert_eq!(
        refused(|settings| settings.upload_seconds = 0),
        "download/upload durations must be greater than zero"
    );
    let mut machine = start_run(&settings(), 1).expect("a run");
    let first = machine.next_work();
    assert!(first.latency);
    assert_eq!(first.work, Ok(EngineStage::Download));
    assert!(matches!(
        first.events[..],
        [
            EngineEvent::StageStarting(EngineStage::Latency),
            EngineEvent::StageFinished(EngineStage::Latency),
            EngineEvent::StageStarting(EngineStage::Download),
        ]
    ));
    assert_eq!(machine.next_work().work, Ok(EngineStage::Upload));
    assert_eq!(machine.next_work().work, Ok(EngineStage::Save));
    assert_eq!(machine.next_work().work, Err(EngineError::SaveNotReached));
    let mut odd = StageMachine::new(vec![EngineStage::Finished]);
    assert_eq!(
        odd.next_work().work.expect_err("no such stage").message(),
        "unexpected stage in stage machine: Finished"
    );
}

#[test]
fn one_direction_runs_leave_the_other_out() {
    let mut only = settings();
    only.download_only = true;
    assert_eq!(
        only.stage_order(),
        vec![EngineStage::Latency, EngineStage::Download, EngineStage::Save]
    );
    only.download_only = false;
    only.upload_only = true;
    assert_eq!(
        only.stage_order(),
        vec![EngineStage::Latency, EngineStage::Upload, EngineStage::Save]
    );
}

#[test]
fn results_begin_with_the_selection() {
    let ranked = vec![measured(1, 3_000_000, vec![2_000_000, 4_000_000]), measured(2, 4_000_000, vec![])];
    let selection =
        choose_server(&ranked, &vec![scalar(0.5), scalar(0.25)], 4).expect("a selection");
    assert_eq!(selection.selected.server.id, 1);
    assert_eq!(selection.transfer_pool.len(), 2);
    let result = build_initial_run_result(
        "now".to_string(),
        located(),
        TransportProtocol::Xhr,
        true,
        &selection,
        scalar(0.5),
    );
    assert_eq!(result.timestamp, "now");
    assert_eq!(result.speedtest_api.as_deref(), Some("xhr"));
    assert_eq!(result.ping_ns, Some(Fraction { num: 3_000_000, den: 1 }));
    assert_eq!(result.jitter_us, Some(2_000));
    assert_eq!(result.server_pool.as_ref().map(Vec::len), Some(2));
    assert!(result.details.is_some());
    assert_eq!(
        choose_server(&Vec::new(), &Vec::new(), 4).expect_err("nothing ranked"),
        EngineError::NoRanking
    );
    let fixed = fix_server(measured(9, 5, vec![]), scalar(0.5));
    let result = begin_run_result(located(), TransportProtocol::Tcp, false, &fixed, scalar(0.5));
    assert!(result.timestamp.ends_with('Z'));
    assert!(result.jitter_us.is_none());
    assert!(result.details.is_none());
    let shown = map_server(&server(3), Some((Fraction { num: 7, den: 2 }, scalar(1.0))));
    assert_eq!(shown.latency_ns, Some(Fraction { num: 7, den: 2 }));
}

#[test]
fn intervals_hold_each_time_once() {
    let mut intervals: Vec<ThroughputInterval> = Vec::new();
    push_interval(&mut intervals, 1, 10, speed(1.0));
    push_interval(&mut intervals, 1, 20, speed(2.0));
    push_interval(&mut intervals, 2, 30, speed(3.0));
    assert_eq!(intervals.len(), 2);
    assert_eq!(intervals[0].bytes, 20);
    assert_eq!(clamp_to_stage(99, 1), 99);
    assert_eq!(clamp_to_stage(u128::MAX, 2), 2_000_000_000);
    let samples = vec![
        UploadStatsSample { bytes: 5, elapsed_ms: 0, index: None },
        UploadStatsSample { bytes: 1_000, elapsed_ms: 1_000, index: None },
    ];
    let remote = build_remote_upload_intervals(&samples, &vec![speed(0.0), speed(0.008)], 10);
    assert_eq!(remote.len(), 1);
    assert_eq!(remote[0].elapsed_ns, 1_000_000_000);
}

#[test]
fn pool_servers_take_their_own_figures() {
    let mut pool = Some(vec![map_server(&server(1), None), map_server(&server(2), None)]);
    let stats = PerServerDownloadStats {
        server_id: 2,
        bytes: 77,
        mbps: Fraction { num: 3, den: 1 },
    };
    apply_download_stats_to_server_pool(&mut pool, &vec![stats]);
    let pool: Vec<Server> = pool.expect("pool");
    assert_eq!(pool[0].download_bytes, None);
    assert_eq!(pool[1].download_bytes, Some(77));
    assert_eq!(pool[1].download_avg_mbps, Some(Fraction { num: 3, den: 1 }));
}

#[test]
fn downloads_are_measured_tick_by_tick() {
    let plan = plan_download(&server(1), &vec![server(2), server(1)], &config());
    assert_eq!(plan.pool.len(), 2);
    assert_eq!(plan.pool[0].id, 2);
    assert_eq!(plan.default_guid, "guid");
    assert!(DownloadStage::begin(&plan, &Vec::new(), config(), 0).is_err());
    let mut stage = DownloadStage::begin(&plan, &vec![1, 2], config(), 0).expect("ready servers");
    assert!(stage.on_tick(0, 0, 0).is_none());
    stage.state.sync_transfer_start(true, Some(0), 10);
    let mut reported = 0;
    for step in 1..=20_u64 {
        let now = u128::from(step) * 500_000_000;
        if let Some((_, Some(progress))) = stage.on_tick(now, step * 1_000_000, 2) {
            assert_eq!(progress.bytes, step * 1_000_000);
            reported += 1;
        }
    }
    assert!(reported > 0);
    let mut slow = DownloadStage::begin(&plan, &vec![1], config(), 0).expect("a ready server");
    slow.state.sync_transfer_start(true, Some(0), 10);
    let (tick, _) = slow.on_tick(1_000_000_000, 10, 1).expect("a tick");
    assert_eq!(tick.target_workers, 1);
    assert!(!stage.state.stage_deadline_reached(9_999_999_999));
    assert!(stage.state.stage_deadline_reached(10_000_000_000));
    let stats =
        stage.finish(21_000_000, &vec![20_000_000, 1_000_000], TransferCounters::new(), 11_000_000_000);
    assert_eq!(stats.bytes, 21_000_000);
    assert_eq!(stats.per_server.len(), 2);
    assert_eq!(stats.per_server[0].bytes, 20_000_000);
    let mut state = EngineState {
        result: empty_result(),
        sdk_artifacts: SdkArtifacts::default(),
    };
    let event = finish_download_stage(
        &mut state,
        &settings(),
        &stats,
        speed(16.0),
        Vec::new(),
        vec![1_000_000, 3_000_000],
    );
    assert!(matches!(
        event,
        EngineEvent::StageResult { stage: EngineStage::Download, bytes: 21_000_000, .. }
    ));
    assert_eq!(
        state.result.download_latency_ns,
        Some(Fraction { num: 4_000_000, den: 2 })
    );
    assert_eq!(state.result.download.expect("download").bytes, 21_000_000);
}

#[test]
fn uploads_prefer_the_final_report() {
    let mut reports = RemoteReports::new();
    reports.on_report(UploadStatsSample { bytes: 1_000, elapsed_ms: 1_000, index: Some(1) });
    reports.on_report(UploadStatsSample { bytes: 3_000, elapsed_ms: 2_000, index: Some(2) });
    let progress = reports.progress(2_000_000_000, 5_000, 3);
    assert_eq!(progress.bytes, 3_000);
    assert_eq!(progress.active_connections, 3);
    let stats = reports.finish(5_000, 2, TransferCounters::new());
    assert_eq!(stats.bytes, 3_000);
    assert_eq!(stats.mbps.num * 1_000_000 / stats.mbps.den, 12_000);
    let mut state = EngineState {
        result: empty_result(),
        sdk_artifacts: SdkArtifacts::default(),
    };
    finish_upload_stage(
        &mut state,
        &settings(),
        &stats,
        speed(0.012),
        &vec![speed(0.008), speed(0.012)],
        Vec::new(),
        Vec::new(),
    );
    assert_eq!(state.result.upload.expect("upload").bytes, 3_000);
    let known = Some("guid".to_string());
    assert!(follows_reports(ResolvedSpeedtestApi::Modern, &known));
    assert!(!follows_reports(ResolvedSpeedtestApi::Modern, &None));
    assert!(!follows_reports(ResolvedSpeedtestApi::ModernTcp, &known));
    let silent = RemoteReports::new().finish(5_000, 10, TransferCounters::new());
    assert_eq!(silent.bytes, 5_000);
    assert_eq!(record_latency_samples(Vec::new()).0, None);
}

#[test]
fn requests_are_counted_once() {
    let mut counters = TransferCounters::new();
    counters.count(Tally::Attempt);
    counters.count(request_tally(&Ok(7)));
    counters.count(Tally::Attempt);
    counters.count(request_tally(&Err(TransferRequestError::HttpStatus)));
    assert_eq!(counters.request_attempts, 2);
    assert_eq!(counters.request_successes, 1);
    assert_eq!(counters.request_http_errors, 1);
    assert_eq!(counters.request_transport_errors, 0);
}

#[test]
fn guards_give_back_what_they_took() {
    let mut active = 3;
    let guard = ActiveConnectionGuard::new(&mut active);
    assert_eq!(active, 4);
    guard.release(&mut active);
    assert_eq!(active, 3);
}

#[test]
fn workers_wait_connect_and_leave() {
    let mut worker = TcpWorker::new(0);
    let step = worker.on_event(WorkerEvent::Turn { stop: false, target: 2, size: 10 });
    assert_eq!(step.order, WorkerOrder::Connect);
    let step = worker.on_event(WorkerEvent::Connected { size: 10 });
    assert_eq!(step.order, WorkerOrder::Request(10));
    assert_eq!(step.active, ActiveChange::Up);
    let step = worker.on_event(WorkerEvent::TransferFailed);
    assert_eq!(step.active, ActiveChange::Down);
    let step = worker.on_event(WorkerEvent::Turn { stop: true, target: 2, size: 10 });
    assert_eq!(step.order, WorkerOrder::Finish { farewell: false });
    assert_eq!(on_request_turn(5, false, 2, 10).order, WorkerOrder::Finish { farewell: false });
    assert_eq!(on_request_turn(1, false, 2, 10).order, WorkerOrder::Request(10));
    assert_eq!(on_request_end(&Some(Ok(1))).tally, Some(Tally::Success));
    let mut upload = UploadTcpWorker::new();
    assert_eq!(upload.on_turn(false).order, WorkerOrder::Connect);
    assert_eq!(upload.on_connect(true).active, ActiveChange::Up);
    let mut sizes = SizeCursor::new(1);
    assert_ne!(sizes.next_size(), sizes.next_size());
}

#[test]
fn each_interface_uploads_its_own_sizes() {
    let mut sizes = SizeCursor::new(4);
    let legacy = on_upload_turn(ResolvedSpeedtestApi::Legacy, false, &mut sizes);
    assert_eq!(legacy.order, WorkerOrder::Request(262_144));
    assert_eq!(legacy.tally, Some(Tally::Attempt));
    assert_eq!(sizes.turn, 4);
    let modern = on_upload_turn(ResolvedSpeedtestApi::Modern, false, &mut sizes);
    assert_eq!(modern.order, WorkerOrder::Request(4_194_304));
    assert_eq!(sizes.turn, 0);
    let tcp = on_upload_turn(ResolvedSpeedtestApi::ModernTcp, false, &mut sizes);
    assert_eq!(tcp.order, WorkerOrder::Request(25_000_000));
    let over = on_upload_turn(ResolvedSpeedtestApi::Legacy, true, &mut sizes);
    assert_eq!(over.order, WorkerOrder::Finish { farewell: false });
    assert_eq!(over.active, ActiveChange::Same);
}

#[test]
fn empty_pools_hold_the_selected_server() {
    assert_eq!(normalize_server_pool(&server(5), &Vec::new())[0].id, 5);
    let pool = normalize_server_pool(&server(5), &vec![server(1), server(2), server(3)]);
    let ids: Vec<u64> = pool.iter().map(|server| server.id).collect();
    assert_eq!(ids, vec![1, 2, 3]);
    let ready: Vec<u64> = keep_ready(&pool, &vec![3, 1]).iter().map(|server| server.id).collect();
    assert_eq!(ready, vec![1, 3]);
    assert_eq!(server_guid(&server(1), "other"), "guid");
    assert_eq!(worker_server(7, 3), 1);
    assert_eq!(elapsed_ms_since(None, 5), 0);
    assert_eq!(elapsed_ms_since(Some(1_000_000), 6_000_000), 5);
    let mut last = None;
    assert!(should_emit_progress(&mut last, 0, 100));
    assert!(!should_emit_progress(&mut last, 99, 100));
    assert!(should_emit_progress(&mut last, 100, 100));
}

#[test]
fn runs_close_with_their_report() {
    assert_eq!(report_guid(&Some("abc".to_string()), 1), "abc");
    assert_eq!(report_guid(&None, 1).len(), 36);
    let events = closing_events("g".to_string(), "h".to_string());
    assert!(matches!(&events[0], EngineEvent::SavePayloadBuilt { guid, hash } if guid == "g" && hash == "h"));
    let mut asked = settings();
    asked.download_connections = 500;
    assert_eq!(download_config(&asked).max_seconds, 15);
    assert!(upload_config(&asked).connections <= 64);
}

fn run_args(tokens: &[&str]) -> RunArgs {
    let mut all = vec!["tunmux-speedtest", "run"];
    all.extend_from_slice(tokens);
    match Cli::try_parse_from(&all).expect("arguments").into_command() {
        Command::Run(args) => args,
        _ => panic!("expected run command"),
    }
}

#[test]
fn arguments_become_a_plan() {
    let plan = plan_speedtest(&run_args(&["--mode", "tcp", "--json", "--server-id", "7"]));
    assert_eq!(plan.mode, TransportProtocol::Tcp);
    assert_eq!(plan.settings.server_id, Some(7));
    assert!(!plan.render_ui);
    assert!(plan_speedtest(&run_args(&[])).render_ui);
    assert_eq!(output_form(false, true), OutputForm::Human);
    assert_eq!(output_form(true, false), OutputForm::SdkPayload);
    assert_eq!(output_form(true, true), OutputForm::RunResult);
    assert!(!proxy_steps(Some("http://p")).is_empty());
    assert_eq!(ModernTransportMode::Tcp.label(), "tcp");
}

#[test]
fn cache_files_lie_under_the_cache_directory() {
    let path = cache_path(CacheFile::Servers, Some("/x"), Some("/home/u")).expect("path");
    assert_eq!(path.base, "/x");
    assert_eq!(path.parts, vec!["speedtest-rs", "servers.json"]);
    let path = cache_path(CacheFile::Session, None, Some("/home/u")).expect("path");
    assert_eq!(path.base, "/home/u");
    assert_eq!(path.parts[..2], [".cache", "tunmux-speedtest"]);
    assert!(cache_path(CacheFile::Servers, None, None).is_err());
}

#[test]
fn cached_servers_are_listed() {
    let show = CacheShowArgs { limit: 1, json: false, search: Some("HOST".to_string()) };
    let listed = list_cache(&vec![server(1), server(2)], &show);
    assert_eq!((listed.total_cached, listed.filtered, listed.servers.len()), (2, 2, 1));
    let lines = print_cache("/x", Some("HOST"), &listed);
    assert_eq!(lines[..5], ["cache: /x", "total cached: 2", "search: HOST", "filtered: 2", "showing: 1"]);
    assert_eq!(print_cleared("/x", true), "cleared cache file: /x");
    assert_eq!(print_cleared("/x", false), "cache file not found: /x");
}

fn empty_result() -> RunResult {
    RunResult {
        timestamp: "now".to_string(),
        speedtest_api: None,
        client: None,
        server: None,
        server_pool: None,
        ping_ns: None,
        jitter_us: None,
        download: None,
        download_latency_ns: None,
        upload: None,
        upload_latency_ns: None,
        proxy: None,
        details: None,
    }
}

fn no_texts() -> HumanTexts {
    let direction = || DirectionTexts {
        mbps: "16.80".to_string(),
        bytes: "20.03".to_string(),
        duration: "9.5".to_string(),
        latency: "2.00".to_string(),
    };
    HumanTexts {
        server: ServerTexts {
            distance: "1.0".to_string(),
            latency: "3.00".to_string(),
            stddev: "0.50".to_string(),
            download_mbps: "1.00".to_string(),
            download_bytes: "1.00".to_string(),
        },
        pool: Vec::new(),
        ping: "3.00".to_string(),
        jitter: "0.100".to_string(),
        download: direction(),
        upload: direction(),
    }
}

#[test]
fn results_are_printed_line_by_line() {
    let plain = Theme { color: false };
    let mut result = empty_result();
    result.server = Some(map_server(&server(3), Some((Fraction { num: 3_000_000, den: 1 }, scalar(0.5)))));
    result.ping_ns = Some(Fraction { num: 3_000_000, den: 1 });
    let lines = print_human(&plain, &result, &no_texts());
    assert!(lines.iter().any(|line| line.contains("3.00")));
    assert!(lines.iter().all(|line| !line.contains('\x1b')));
    let colored = print_human(&Theme { color: true }, &result, &no_texts());
    assert_eq!(colored.len(), lines.len());
    assert!(colored.iter().any(|line| line.contains('\x1b')));
    assert_eq!(Theme { color: true }.paint("x", "31"), "\x1b[31mx\x1b[0m");
}

#[test]
fn figures_take_their_colours_and_units() {
    assert_eq!(throughput_color(scalar(1_000.0)), "1;32");
    assert_eq!(throughput_color(scalar(999.0)), "32");
    assert_eq!(throughput_color(scalar(50.0)), "33");
    assert_eq!(throughput_color(scalar(49.9)), "31");
    assert_eq!(share_color(Fraction { num: 2_000, den: 2 }), "1;32");
    assert_eq!(latency_color(Fraction { num: 16_000_000, den: 2 }), "1;32");
    assert_eq!(latency_color(Fraction { num: 16_000_001, den: 2 }), "33");
    assert_eq!(latency_color(Fraction { num: 40_000_001, den: 2 }), "31");
    assert_ne!(jitter_color(0), jitter_color(u128::MAX));
    assert_eq!(format_bytes(999, "x"), "999 B");
    assert_eq!(format_bytes(1_000, "1.00"), "1.00 KB");
    assert_eq!(format_stage_duration(10, Some(9_400), "9.4"), "9.4s");
    assert_eq!(format_stage_duration(10, Some(9_500), "9.5"), "10s");
    assert_eq!(format_stage_duration(10, None, ""), "10s");
    assert_eq!(Rate::zero(), Rate { bytes: 0, ticks: 0 });
}
