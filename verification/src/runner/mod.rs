//! The commands of the program.

pub mod cache;
pub mod speedtest_ui;

use vstd::prelude::*;

use crate::cli::RunArgs;
use crate::num::whole::greatest;
use crate::runner::speedtest_ui::{nothing, step_views, StepModel, UiStep};
use crate::speedtest::api::{ModernTransportMode, TransportProtocol};
use crate::speedtest::engine::EngineSettings;
use crate::speedtest::ipinfo::IpInfo;
use crate::speedtest::servers::SpeedtestServer;
use crate::text::{decimal, to_decimal};
use crate::ui::PROGRESS_INTERVAL_NANOS;
use crate::util::{clamp_worker_count, clamped_workers};

verus! {

/// What a speed test is asked to do.
#[derive(Clone, Copy, Debug, PartialEq, Eq, Structural)]
pub struct SpeedtestPlan {
    pub mode: TransportProtocol,
    pub settings: EngineSettings,
    /// Whether there is a display.
    pub render_ui: bool,
    /// How many servers the catalog is asked for.
    pub fetch_limit: usize,
}

/// The plan of the arguments. Where a certain server is asked for, enough of the catalog is fetched
/// to find it.
pub open spec fn planned(args: RunArgs) -> SpeedtestPlan {
    let render_ui = !args.json && !args.no_progress;
    SpeedtestPlan {
        mode: TransportProtocol::of(args.mode),
        settings: EngineSettings {
            server_id: args.server_id,
            candidate_servers: args.candidate_servers,
            modern_pool_size: args.pool_size,
            latency_samples: args.latency_samples,
            download_connections: clamped_workers(args.download_connections as int) as usize,
            upload_connections: clamped_workers(args.upload_connections as int) as usize,
            download_seconds: args.download_seconds,
            upload_seconds: args.upload_seconds,
            download_only: args.download_only,
            upload_only: args.upload_only,
            details: args.details,
            progress_interval_nanos: if render_ui {
                Some(PROGRESS_INTERVAL_NANOS)
            } else {
                None
            },
        },
        render_ui,
        fetch_limit: greatest(
            args.candidate_servers as int,
            if args.server_id is Some {
                200
            } else {
                25
            },
        ) as usize,
    }
}

pub fn plan_speedtest(args: &RunArgs) -> (r: SpeedtestPlan)
    ensures
        r == planned(*args),
{
    let render_ui: bool = !args.json && !args.no_progress;
    let least: usize = if args.server_id.is_some() {
        200
    } else {
        25
    };
    SpeedtestPlan {
        mode: TransportProtocol::from_mode(args.mode),
        settings: EngineSettings {
            server_id: args.server_id,
            candidate_servers: args.candidate_servers,
            modern_pool_size: args.pool_size,
            latency_samples: args.latency_samples,
            download_connections: clamp_worker_count(args.download_connections),
            upload_connections: clamp_worker_count(args.upload_connections),
            download_seconds: args.download_seconds,
            upload_seconds: args.upload_seconds,
            download_only: args.download_only,
            upload_only: args.upload_only,
            details: args.details,
            progress_interval_nanos: if render_ui {
                Some(PROGRESS_INTERVAL_NANOS)
            } else {
                None
            },
        },
        render_ui,
        fetch_limit: if args.candidate_servers > least {
            args.candidate_servers
        } else {
            least
        },
    }
}

/// Arguments that the command line accepts make a plan that can be run.
pub proof fn accepted_arguments_can_be_run(tokens: Seq<Seq<char>>, args: RunArgs)
    requires
        crate::cli::accepted(tokens),
        crate::cli::names(tokens, Some(crate::cli::Command::Run(args))),
    ensures
        planned(args).settings.fault() is None,
        1 <= planned(args).settings.download_connections <= crate::util::MAX_BENCHMARK_WORKERS,
        1 <= planned(args).settings.upload_connections <= crate::util::MAX_BENCHMARK_WORKERS,
{
    crate::cli::accepted_runs_are_consistent(tokens, args);
}

/// What is shown before anything is fetched: the proxy, where there is one.
pub fn proxy_steps(proxy: Option<&str>) -> (r: Vec<UiStep>)
    ensures
        step_views(r@) == nothing().push(StepModel::Phase("building HTTP client"@)) + (match proxy {
            Some(url) => nothing().push(StepModel::Metric("proxy"@, url@)),
            None => nothing(),
        }),
{
    let mut steps: Vec<UiStep> = Vec::new();
    steps.push(UiStep::Phase("building HTTP client"));
    if let Some(url) = proxy {
        steps.push(UiStep::Metric { label: "proxy", value: url.to_owned() });
    }
    assert(step_views(steps@) =~= nothing().push(StepModel::Phase("building HTTP client"@)) + (
    match proxy {
        Some(url) => nothing().push(StepModel::Metric("proxy"@, url@)),
        None => nothing(),
    }));
    steps
}

/// What is shown of the way the test is run.
pub fn mode_steps(mode: ModernTransportMode, pool_size: usize) -> (r: Vec<UiStep>)
    ensures
        step_views(r@) == nothing().push(StepModel::Metric("mode"@, mode.name())).push(
            StepModel::Metric("pool_size"@, decimal(pool_size as int)),
        ),
{
    let mut steps: Vec<UiStep> = Vec::new();
    steps.push(UiStep::Metric { label: "mode", value: mode.label().to_owned() });
    steps.push(UiStep::Metric { label: "pool_size", value: to_decimal(pool_size as u64) });
    assert(step_views(steps@) =~= nothing().push(StepModel::Metric("mode"@, mode.name())).push(
        StepModel::Metric("pool_size"@, decimal(pool_size as int)),
    ));
    steps
}

pub open spec fn known(text: Option<String>) -> Seq<char> {
    match text {
        Some(t) => t@,
        None => "unknown"@,
    }
}

fn or_unknown(text: &Option<String>) -> (r: String)
    ensures
        r@ == known(*text),
{
    match text {
        Some(t) => t.clone(),
        None => "unknown".to_owned(),
    }
}

/// What is shown of the connection, of which nothing may be known.
pub fn connectivity_steps(info: &Option<IpInfo>) -> (r: Vec<UiStep>)
    ensures
        ({
            let (country, city, ip, org) = match *info {
                Some(i) => (known(i.country), known(i.city), known(i.ip), known(i.org)),
                None => ("unknown"@, "unknown"@, "unknown"@, "unknown"@),
            };
            step_views(r@) == nothing().push(StepModel::Metric("country"@, country)).push(
                StepModel::Metric("city"@, city),
            ).push(StepModel::Metric("ip"@, ip)).push(StepModel::Metric("org"@, org))
        }),
{
    let (country, city, ip, org): (String, String, String, String) = match info {
        Some(i) => (or_unknown(&i.country), or_unknown(&i.city), or_unknown(&i.ip), or_unknown(
            &i.org,
        )),
        None => (
            "unknown".to_owned(),
            "unknown".to_owned(),
            "unknown".to_owned(),
            "unknown".to_owned(),
        ),
    };
    let mut steps: Vec<UiStep> = Vec::new();
    steps.push(UiStep::Metric { label: "country", value: country });
    steps.push(UiStep::Metric { label: "city", value: city });
    steps.push(UiStep::Metric { label: "ip", value: ip });
    steps.push(UiStep::Metric { label: "org", value: org });
    assert(step_views(steps@) =~= nothing().push(StepModel::Metric("country"@, country@)).push(
        StepModel::Metric("city"@, city@),
    ).push(StepModel::Metric("ip"@, ip@)).push(StepModel::Metric("org"@, org@)));
    steps
}

/// The names of the servers of a catalog, by their ids.
pub fn collect_names(servers: &Vec<SpeedtestServer>) -> (r: Vec<(u64, String)>)
    ensures
        r@ == servers@.map_values(|server: SpeedtestServer| (server.id, server.name)),
{
    let ghost target = servers@.map_values(|server: SpeedtestServer| (server.id, server.name));
    let mut out: Vec<(u64, String)> = Vec::new();
    let mut i: usize = 0;
    while i < servers.len()
        invariant
            i <= servers.len(),
            target == servers@.map_values(|server: SpeedtestServer| (server.id, server.name)),
            out@ == target.take(i as int),
        decreases servers.len() - i,
    {
        out.push((servers[i].id, servers[i].name.clone()));
        assert(out@ =~= target.take(i + 1));
        i = i + 1;
    }
    assert(out@ =~= target);
    out
}

/// What is printed at the end of a speed test.
#[derive(Clone, Copy, Debug, PartialEq, Eq, Structural)]
pub enum OutputForm {
    /// Lines to read.
    Human,
    /// The report in the form of the service.
    SdkPayload,
    /// The result with its details.
    RunResult,
}

pub fn output_form(json: bool, details: bool) -> (r: OutputForm)
    ensures
        r == if !json {
            OutputForm::Human
        } else if details {
            OutputForm::RunResult
        } else {
            OutputForm::SdkPayload
        },
{
    if !json {
        OutputForm::Human
    } else if details {
        OutputForm::RunResult
    } else {
        OutputForm::SdkPayload
    }
}

/// A speed test is planned as its arguments ask for it, and enough of the catalog is fetched to
/// choose from and to find a server in.
pub proof fn tests_are_planned_as_asked(args: RunArgs)
    ensures
        ({
            let plan = planned(args);
            let s = plan.settings;
            &&& s.server_id == args.server_id
            &&& s.candidate_servers == args.candidate_servers
            &&& s.modern_pool_size == args.pool_size
            &&& s.latency_samples == args.latency_samples
            &&& s.download_seconds == args.download_seconds
            &&& s.upload_seconds == args.upload_seconds
            &&& s.download_only == args.download_only
            &&& s.upload_only == args.upload_only
            &&& s.details == args.details
            &&& 1 <= args.download_connections <= 64 ==> s.download_connections
                == args.download_connections
            &&& 1 <= args.upload_connections <= 64 ==> s.upload_connections
                == args.upload_connections
            &&& plan.render_ui <==> !args.json && !args.no_progress
            &&& s.progress_interval_nanos is Some <==> plan.render_ui
            &&& plan.fetch_limit >= args.candidate_servers && plan.fetch_limit >= 25
            &&& args.server_id is Some ==> plan.fetch_limit >= 200
        }),
{
}

} // verus!
