use tunmux_speedtest::cli::{CacheCommand, Cli, Command};
use tunmux_speedtest::speedtest::api::ModernTransportMode;

#[test]
fn rejects_zero_connection_counts() {
    let parse = Cli::try_parse_from(&["tunmux-speedtest", "run", "--download-connections", "0"]);

    assert!(parse.is_err());
}

#[test]
fn rejects_zero_durations() {
    let parse = Cli::try_parse_from(&["tunmux-speedtest", "run", "--upload-seconds", "0"]);

    assert!(parse.is_err());
}

#[test]
fn rejects_download_only_and_upload_only_together() {
    let parse = Cli::try_parse_from(&[
        "tunmux-speedtest",
        "run",
        "--download-only",
        "--upload-only",
    ]);

    assert!(parse.is_err());
}

#[test]
fn parses_modern_transport_mode() {
    let cli = Cli::try_parse_from(&["tunmux-speedtest", "run", "--mode", "tcp"])
        .expect("run --mode tcp should parse");

    let Some(Command::Run(args)) = cli.command else {
        panic!("expected run command");
    };

    assert!(matches!(args.mode, ModernTransportMode::Tcp));
}

#[test]
fn parses_sdk_json_out_flag() {
    let cli = Cli::try_parse_from(&[
        "tunmux-speedtest",
        "run",
        "--sdk-json-out",
        "sdk-result.json",
    ])
    .expect("run --sdk-json-out should parse");

    let Some(Command::Run(args)) = cli.command else {
        panic!("expected run command");
    };

    assert_eq!(args.sdk_json_out.as_deref(), Some("sdk-result.json"));
}

#[test]
fn parses_run_proxy_local_alias() {
    let cli = Cli::try_parse_from(&[
        "tunmux-speedtest",
        "run",
        "--proxy-local",
        "http://127.0.0.1:8080",
    ])
    .expect("run --proxy-local should parse");

    let Some(Command::Run(args)) = cli.command else {
        panic!("expected run command");
    };

    assert_eq!(args.proxy.as_deref(), Some("http://127.0.0.1:8080"));
}

#[test]
fn defaults_to_run_command() {
    let cli = Cli::default();
    let Some(Command::Run(args)) = cli.command else {
        panic!("expected run command");
    };

    assert!(matches!(args.mode, ModernTransportMode::Xhr));
    assert_eq!(args.pool_size, 4);
    assert_eq!(args.min_seconds, 5);
    assert!(!args.details);
    assert!(!args.no_progress);
}

#[test]
fn parses_run_min_seconds() {
    let cli = Cli::try_parse_from(&["tunmux-speedtest", "run", "--min-seconds", "3"])
        .expect("run --min-seconds should parse");

    let Some(Command::Run(args)) = cli.command else {
        panic!("expected run command");
    };

    assert_eq!(args.min_seconds, 3);
}

#[test]
fn accepts_run_details_with_json() {
    let cli = Cli::try_parse_from(&["tunmux-speedtest", "run", "--json", "--details"])
        .expect("run --json --details should parse");

    let Some(Command::Run(args)) = cli.command else {
        panic!("expected run command");
    };

    assert!(args.json);
    assert!(args.details);
}

#[test]
fn rejects_run_details_without_json() {
    let parse = Cli::try_parse_from(&["tunmux-speedtest", "run", "--details"]);

    assert!(parse.is_err());
}

#[test]
fn parses_run_no_progress_flag() {
    let cli = Cli::try_parse_from(&["tunmux-speedtest", "run", "--no-progress"])
        .expect("run --no-progress should parse");

    let Some(Command::Run(args)) = cli.command else {
        panic!("expected run command");
    };

    assert!(args.no_progress);
}

#[test]
fn rejects_iperf_upload_only_and_download_only_together() {
    let parse = Cli::try_parse_from(&[
        "tunmux-speedtest",
        "iperf",
        "--host",
        "127.0.0.1",
        "--upload-only",
        "--download-only",
    ]);

    assert!(parse.is_err());
}

#[test]
fn rejects_iperf_details_without_json() {
    let parse = Cli::try_parse_from(&[
        "tunmux-speedtest",
        "iperf",
        "--host",
        "127.0.0.1",
        "--details",
    ]);

    assert!(parse.is_err());
}

#[test]
fn accepts_iperf_details_with_json() {
    let cli = Cli::try_parse_from(&[
        "tunmux-speedtest",
        "iperf",
        "--host",
        "127.0.0.1",
        "--json",
        "--details",
    ])
    .expect("iperf --json --details should parse");

    let Some(Command::Iperf(args)) = cli.command else {
        panic!("expected iperf command");
    };

    assert!(args.json);
    assert!(args.details);
}

#[test]
fn iperf_requires_host() {
    let parse = Cli::try_parse_from(&["tunmux-speedtest", "iperf"]);

    assert!(parse.is_err());
}

#[test]
fn iperf_accepts_auto_server_without_host() {
    let cli = Cli::try_parse_from(&["tunmux-speedtest", "iperf", "--auto-server"])
        .expect("iperf auto-server should parse");

    let Some(Command::Iperf(args)) = cli.command else {
        panic!("expected iperf command");
    };

    assert!(args.auto_server);
    assert!(args.host.is_none());
    assert_eq!(args.servers_file, "iperf3_servers.json");
}

#[test]
fn iperf_defaults_to_both_directions() {
    let cli = Cli::try_parse_from(&["tunmux-speedtest", "iperf", "--host", "127.0.0.1"])
        .expect("iperf should parse");

    let Some(Command::Iperf(args)) = cli.command else {
        panic!("expected iperf command");
    };

    assert!(!args.upload_only);
    assert!(!args.download_only);
    assert_eq!(args.host.as_deref(), Some("127.0.0.1"));
    assert!(!args.auto_server);
    assert_eq!(args.seconds, 10);
    assert_eq!(args.parallel, 1);
    assert!(!args.no_progress);
}

#[test]
fn parses_iperf_no_progress_flag() {
    let cli = Cli::try_parse_from(&[
        "tunmux-speedtest",
        "iperf",
        "--host",
        "127.0.0.1",
        "--no-progress",
    ])
    .expect("iperf --no-progress should parse");

    let Some(Command::Iperf(args)) = cli.command else {
        panic!("expected iperf command");
    };

    assert!(args.no_progress);
}

#[test]
fn parses_iperf_proxy_local_alias() {
    let cli = Cli::try_parse_from(&[
        "tunmux-speedtest",
        "iperf",
        "--host",
        "127.0.0.1",
        "--proxy-local",
        "socks5h://127.0.0.1:1080",
    ])
    .expect("iperf --proxy-local should parse");

    let Some(Command::Iperf(args)) = cli.command else {
        panic!("expected iperf command");
    };

    assert_eq!(args.proxy.as_deref(), Some("socks5h://127.0.0.1:1080"));
}

#[test]
fn rejects_iperf_host_and_auto_server_together() {
    let parse = Cli::try_parse_from(&[
        "tunmux-speedtest",
        "iperf",
        "--host",
        "127.0.0.1",
        "--auto-server",
    ]);

    assert!(parse.is_err());
}

#[test]
fn parses_cache_show_defaults() {
    let cli = Cli::try_parse_from(&["tunmux-speedtest", "cache", "show"])
        .expect("cache show should parse");

    let Some(Command::Cache(cache)) = cli.command else {
        panic!("expected cache command");
    };

    let CacheCommand::Show(show) = cache.command else {
        panic!("expected cache show");
    };

    assert_eq!(show.limit, 20);
    assert!(!show.json);
    assert!(show.search.is_none());
}

#[test]
fn parses_cache_show_search_and_limit() {
    let cli = Cli::try_parse_from(&[
        "tunmux-speedtest",
        "cache",
        "show",
        "--search",
        "marseille",
        "--limit",
        "7",
        "--json",
    ])
    .expect("cache show flags should parse");

    let Some(Command::Cache(cache)) = cli.command else {
        panic!("expected cache command");
    };

    let CacheCommand::Show(show) = cache.command else {
        panic!("expected cache show");
    };

    assert_eq!(show.limit, 7);
    assert!(show.json);
    assert_eq!(show.search.as_deref(), Some("marseille"));
}
