//! The stages of a run and the result that they fill.

use vstd::prelude::*;

use crate::clock::{current_timestamp, is_timestamp};
use crate::model::{
    BenchmarkResult, ClientMeta, MstBucketOut, MstSpeedsOut, RunDetails, RunResult, SdkArtifacts,
    SelectedServerLatencyDetails, Server, Speed, ThroughputInterval,
};
use crate::num::fraction::Fraction;
use crate::num::scalar::Scalar;
use crate::num::whole::least;
use crate::speedtest::api::TransportProtocol;
use crate::speedtest::browser_protocol::upload_stats::UploadStatsSample;
use crate::speedtest::config::SpeedtestClient;
use crate::speedtest::download::PerServerDownloadStats;
use crate::speedtest::latency::{calculate_jitter, jitter_micros};
use crate::speedtest::sdk_payload::throughput::{capped_product, seen};
use crate::speedtest::select::{
    all_rankable, build_transfer_pool, copy_readings, is_best, pooled, select_best_latency,
    transfer_pool, ServerLatency,
};
use crate::speedtest::servers::SpeedtestServer;
use crate::speedtest::throughput::{Bucket, ThroughputResult};
use crate::text::copy_opt;
use crate::urls::opt_view;

verus! {

#[derive(Clone, Copy, Debug, PartialEq, Eq, Structural)]
pub enum EngineStage {
    ServerSelection,
    Latency,
    Download,
    Upload,
    Save,
    Finished,
}

impl EngineStage {
    pub open spec fn name(self) -> Seq<char> {
        match self {
            EngineStage::ServerSelection => "ServerSelection"@,
            EngineStage::Latency => "Latency"@,
            EngineStage::Download => "Download"@,
            EngineStage::Upload => "Upload"@,
            EngineStage::Save => "Save"@,
            EngineStage::Finished => "Finished"@,
        }
    }

    pub fn label(self) -> (r: &'static str)
        ensures
            r@ == self.name(),
    {
        match self {
            EngineStage::ServerSelection => "ServerSelection",
            EngineStage::Latency => "Latency",
            EngineStage::Download => "Download",
            EngineStage::Upload => "Upload",
            EngineStage::Save => "Save",
            EngineStage::Finished => "Finished",
        }
    }
}

/// How a candidate answered, with its figures in milliseconds as they are shown.
#[derive(Debug)]
pub struct ProbeFigures {
    pub average: Fraction,
    pub average_text: String,
    pub stddev_ms: Scalar,
    pub stddev_text: String,
}

/// What happens in a run.
#[derive(Debug)]
pub enum EngineEvent {
    StageStarting(EngineStage),
    CandidateProbed {
        index: usize,
        total: usize,
        server_id: u64,
        figures: Option<ProbeFigures>,
        error: Option<String>,
    },
    ServerSelected { server_id: u64, average_text: String, stddev_text: String },
    StageProgress {
        stage: EngineStage,
        elapsed_ns: u128,
        mbps: Scalar,
        bytes: u64,
        active_connections: usize,
        rtt_ms: Option<Scalar>,
    },
    StageResult { stage: EngineStage, mbps: Scalar, bytes: u64 },
    StageFinished(EngineStage),
    SavePayloadBuilt { guid: String, hash: String },
}

/// What a run is asked to do.
#[derive(Clone, Copy, Debug, PartialEq, Eq, Structural)]
pub struct EngineSettings {
    pub server_id: Option<u64>,
    pub candidate_servers: usize,
    pub modern_pool_size: usize,
    pub latency_samples: usize,
    pub download_connections: usize,
    pub upload_connections: usize,
    pub download_seconds: u64,
    pub upload_seconds: u64,
    pub download_only: bool,
    pub upload_only: bool,
    pub details: bool,
    pub progress_interval_nanos: Option<u64>,
}

impl Default for EngineSettings {
    fn default() -> (r: EngineSettings)
        ensures
            r == (EngineSettings {
                server_id: None,
                candidate_servers: 10,
                modern_pool_size: 4,
                latency_samples: 10,
                download_connections: 24,
                upload_connections: 8,
                download_seconds: 15,
                upload_seconds: 15,
                download_only: false,
                upload_only: false,
                details: false,
                progress_interval_nanos: None,
            }),
    {
        EngineSettings {
            server_id: None,
            candidate_servers: 10,
            modern_pool_size: 4,
            latency_samples: 10,
            download_connections: 24,
            upload_connections: 8,
            download_seconds: 15,
            upload_seconds: 15,
            download_only: false,
            upload_only: false,
            details: false,
            progress_interval_nanos: None,
        }
    }
}

/// Why a run cannot go on.
#[derive(Clone, Copy, Debug, PartialEq, Eq, Structural)]
pub enum EngineError {
    ZeroCandidates,
    ZeroSamples,
    ZeroDuration,
    NoServers,
    NoRanking,
    UnexpectedStage(EngineStage),
    SaveNotReached,
}

impl EngineError {
    pub open spec fn text(self) -> Seq<char> {
        match self {
            EngineError::ZeroCandidates => "candidate_servers must be greater than zero"@,
            EngineError::ZeroSamples => "latency_samples must be greater than zero"@,
            EngineError::ZeroDuration => "download/upload durations must be greater than zero"@,
            EngineError::NoServers => "no speedtest servers available"@,
            EngineError::NoRanking => "no ranked speedtest candidates were produced"@,
            EngineError::UnexpectedStage(stage) => "unexpected stage in stage machine: "@
                + stage.name(),
            EngineError::SaveNotReached => "save stage did not execute"@,
        }
    }

    pub fn message(&self) -> (r: String)
        ensures
            r@ == self.text(),
    {
        match self {
            EngineError::ZeroCandidates => {
                "candidate_servers must be greater than zero".to_owned()
            },
            EngineError::ZeroSamples => "latency_samples must be greater than zero".to_owned(),
            EngineError::ZeroDuration => {
                "download/upload durations must be greater than zero".to_owned()
            },
            EngineError::NoServers => "no speedtest servers available".to_owned(),
            EngineError::NoRanking => "no ranked speedtest candidates were produced".to_owned(),
            EngineError::UnexpectedStage(stage) => {
                let mut out = "unexpected stage in stage machine: ".to_owned();
                out.append(stage.label());
                out
            },
            EngineError::SaveNotReached => "save stage did not execute".to_owned(),
        }
    }
}

impl EngineSettings {
    /// The stages of the run behind the selection of the server.
    pub open spec fn order(self) -> Seq<EngineStage> {
        if self.download_only {
            seq![EngineStage::Latency, EngineStage::Download, EngineStage::Save]
        } else if self.upload_only {
            seq![EngineStage::Latency, EngineStage::Upload, EngineStage::Save]
        } else {
            seq![
                EngineStage::Latency,
                EngineStage::Download,
                EngineStage::Upload,
                EngineStage::Save,
            ]
        }
    }

    pub fn stage_order(&self) -> (r: Vec<EngineStage>)
        ensures
            r@ == self.order(),
    {
        let mut stages: Vec<EngineStage> = Vec::new();
        stages.push(EngineStage::Latency);
        if self.download_only || !self.upload_only {
            stages.push(EngineStage::Download);
        }
        if !self.download_only {
            stages.push(EngineStage::Upload);
        }
        stages.push(EngineStage::Save);
        assert(stages@ =~= self.order());
        stages
    }

    /// What is wrong with the settings.
    pub open spec fn fault(self) -> Option<EngineError> {
        if self.candidate_servers == 0 {
            Some(EngineError::ZeroCandidates)
        } else if self.latency_samples == 0 {
            Some(EngineError::ZeroSamples)
        } else if self.download_seconds == 0 || self.upload_seconds == 0 {
            Some(EngineError::ZeroDuration)
        } else {
            None
        }
    }

    pub fn validate(&self) -> (r: Result<(), EngineError>)
        ensures
            match r {
                Ok(()) => self.fault() is None,
                Err(error) => self.fault() == Some(error),
            },
    {
        if self.candidate_servers == 0 {
            return Err(EngineError::ZeroCandidates);
        }
        if self.latency_samples == 0 {
            return Err(EngineError::ZeroSamples);
        }
        if self.download_seconds == 0 || self.upload_seconds == 0 {
            return Err(EngineError::ZeroDuration);
        }
        Ok(())
    }
}

/// The stages that are still to come.
#[derive(Debug)]
pub struct StageMachine {
    stages: Vec<EngineStage>,
    done: usize,
}

impl StageMachine {
    pub closed spec fn remaining(self) -> Seq<EngineStage> {
        self.stages@.skip(self.done as int)
    }

    #[verifier::type_invariant]
    spec fn in_range(self) -> bool {
        self.done <= self.stages.len()
    }

    pub fn new(stages: Vec<EngineStage>) -> (r: StageMachine)
        ensures
            r.remaining() == stages@,
    {
        let r = StageMachine { stages, done: 0 };
        assert(r.remaining() =~= stages@);
        r
    }

    /// The next stage, which is then behind.
    pub fn next(&mut self) -> (r: Option<EngineStage>)
        ensures
            old(self).remaining().len() == 0 ==> r is None && final(self).remaining() == old(
                self,
            ).remaining(),
            old(self).remaining().len() > 0 ==> r == Some(old(self).remaining()[0])
                && final(self).remaining() == old(self).remaining().drop_first(),
    {
        proof {
            use_type_invariant(&*self);
        }
        if self.done == self.stages.len() {
            return None;
        }
        let stage = self.stages[self.done];
        let ghost before = self.remaining();
        self.done = self.done + 1;
        assert(self.remaining() =~= before.drop_first());
        Some(stage)
    }

    /// What is told, and what is to be done outside, before the run goes on. The latency stage has
    /// been measured when the server was selected, so it is passed at once.
    pub fn next_work(&mut self) -> (r: NextWork)
        ensures
            r.events@ == events_to_work(old(self).remaining()),
            r.latency == passes_latency(old(self).remaining()),
            r.work == work_in(old(self).remaining()),
            final(self).remaining() == rest_after_work(old(self).remaining()),
    {
        let ghost whole = self.remaining();
        let mut events: Vec<EngineEvent> = Vec::new();
        let mut latency: bool = false;
        loop
            invariant
                whole == old(self).remaining(),
                events_to_work(whole) == events@ + events_to_work(self.remaining()),
                work_in(whole) == work_in(self.remaining()),
                rest_after_work(whole) == rest_after_work(self.remaining()),
                passes_latency(whole) == (latency || passes_latency(self.remaining())),
            decreases self.remaining().len(),
        {
            let ghost before = self.remaining();
            let ghost told = events@;
            match self.next() {
                None => {
                    assert(events@ =~= told + events_to_work(before));
                    return NextWork { events, latency, work: Err(EngineError::SaveNotReached) };
                },
                Some(stage) => {
                    events.push(EngineEvent::StageStarting(stage));
                    match stage {
                        EngineStage::Latency => {
                            events.push(EngineEvent::StageFinished(stage));
                            latency = true;
                            assert(told + events_to_work(before) =~= events@ + events_to_work(
                                self.remaining(),
                            ));
                        },
                        EngineStage::ServerSelection | EngineStage::Finished => {
                            assert(events@ =~= told + events_to_work(before));
                            return NextWork {
                                events,
                                latency,
                                work: Err(EngineError::UnexpectedStage(stage)),
                            };
                        },
                        EngineStage::Download | EngineStage::Upload | EngineStage::Save => {
                            assert(events@ =~= told + events_to_work(before));
                            return NextWork { events, latency, work: Ok(stage) };
                        },
                    }
                },
            }
        }
    }
}

/// What a run comes to next: what it tells, whether it has passed the latency stage, and the stage
/// that takes work outside.
#[derive(Debug)]
pub struct NextWork {
    pub events: Vec<EngineEvent>,
    pub latency: bool,
    pub work: Result<EngineStage, EngineError>,
}

/// What is told on the way to the next stage that takes work.
pub open spec fn events_to_work(stages: Seq<EngineStage>) -> Seq<EngineEvent>
    decreases stages.len(),
{
    if stages.len() == 0 {
        Seq::empty()
    } else if stages[0] == EngineStage::Latency {
        seq![
            EngineEvent::StageStarting(EngineStage::Latency),
            EngineEvent::StageFinished(EngineStage::Latency),
        ] + events_to_work(stages.drop_first())
    } else {
        seq![EngineEvent::StageStarting(stages[0])]
    }
}

pub open spec fn passes_latency(stages: Seq<EngineStage>) -> bool {
    stages.len() > 0 && stages[0] == EngineStage::Latency
}

/// The next stage that takes work: a transfer, or the saving. A server is never selected again, and
/// nothing is run when all is over.
pub open spec fn work_in(stages: Seq<EngineStage>) -> Result<EngineStage, EngineError>
    decreases stages.len(),
{
    if stages.len() == 0 {
        Err(EngineError::SaveNotReached)
    } else {
        match stages[0] {
            EngineStage::Latency => work_in(stages.drop_first()),
            EngineStage::ServerSelection | EngineStage::Finished => Err(
                EngineError::UnexpectedStage(stages[0]),
            ),
            EngineStage::Download | EngineStage::Upload | EngineStage::Save => Ok(stages[0]),
        }
    }
}

/// The stages behind it.
pub open spec fn rest_after_work(stages: Seq<EngineStage>) -> Seq<EngineStage>
    decreases stages.len(),
{
    if stages.len() == 0 {
        stages
    } else if stages[0] == EngineStage::Latency {
        rest_after_work(stages.drop_first())
    } else {
        stages.drop_first()
    }
}

/// A run comes to its transfers and then to the saving, and to no error: it downloads unless it is
/// asked only to upload, then uploads unless it is asked only to download, and saves at last.
pub proof fn runs_come_to_their_end(settings: EngineSettings)
    ensures
        ({
            let first = rest_after_work(settings.order());
            &&& passes_latency(settings.order())
            &&& events_to_work(settings.order()).len() == 3
            &&& if settings.download_only || settings.upload_only {
                &&& work_in(settings.order()) == Ok::<EngineStage, EngineError>(
                    if settings.download_only {
                        EngineStage::Download
                    } else {
                        EngineStage::Upload
                    },
                )
                &&& work_in(first) == Ok::<EngineStage, EngineError>(EngineStage::Save)
            } else {
                &&& work_in(settings.order()) == Ok::<EngineStage, EngineError>(
                    EngineStage::Download,
                )
                &&& work_in(first) == Ok::<EngineStage, EngineError>(EngineStage::Upload)
                &&& work_in(rest_after_work(first)) == Ok::<EngineStage, EngineError>(
                    EngineStage::Save,
                )
            }
        }),
{
    let order = settings.order();
    let behind = order.drop_first();
    assert(behind[0] == order[1]);
    assert(work_in(order) == work_in(behind));
    assert(rest_after_work(order) == rest_after_work(behind));
    assert(events_to_work(behind).len() == 1);
    assert(events_to_work(order) == seq![
        EngineEvent::StageStarting(EngineStage::Latency),
        EngineEvent::StageFinished(EngineStage::Latency),
    ] + events_to_work(behind));
    let first = rest_after_work(order);
    assert(first == behind.drop_first());
    assert(first[0] == order[2]);
    if !settings.download_only && !settings.upload_only {
        assert(rest_after_work(first) == first.drop_first());
        assert(first.drop_first()[0] == order[3]);
    }
}

/// Every run measures the latency first and ends by saving. It downloads unless it is asked only to
/// upload, uploads unless it is asked only to download, and never does a thing twice.
pub proof fn runs_end_in_save(settings: EngineSettings)
    ensures
        settings.order().first() == EngineStage::Latency,
        settings.order().last() == EngineStage::Save,
        settings.order().contains(EngineStage::Download) <==> (settings.download_only
            || !settings.upload_only),
        settings.order().contains(EngineStage::Upload) <==> !settings.download_only,
        settings.order().no_duplicates(),
        forall|i: int|
            0 <= i < settings.order().len() ==> {
                &&& #[trigger] settings.order()[i] != EngineStage::ServerSelection
                &&& settings.order()[i] != EngineStage::Finished
            },
{
    let order = settings.order();
    if settings.download_only || !settings.upload_only {
        assert(order[1] == EngineStage::Download);
    }
    if !settings.download_only {
        assert(order[order.len() - 2] == EngineStage::Upload);
    }
}

/// Checks that a run can start, and lays out its stages.
pub fn start_run(settings: &EngineSettings, servers: usize) -> (r: Result<
    StageMachine,
    EngineError,
>)
    ensures
        match r {
            Ok(machine) => settings.fault() is None && servers > 0 && machine.remaining()
                == settings.order(),
            Err(error) => match settings.fault() {
                Some(fault) => error == fault,
                None => servers == 0 && error == EngineError::NoServers,
            },
        },
{
    match settings.validate() {
        Ok(()) => {},
        Err(error) => {
            return Err(error);
        },
    }
    if servers == 0 {
        return Err(EngineError::NoServers);
    }
    Ok(StageMachine::new(settings.stage_order()))
}

/// How a server answered, on average.
#[derive(Clone, Copy, Debug, PartialEq, Eq, Structural)]
pub struct LatencyFigure {
    pub server_id: u64,
    pub average: Fraction,
    pub stddev_ms: Scalar,
}

/// The server of a run, and the servers to transfer with.
#[derive(Debug)]
pub struct SelectionOutcome {
    pub selected: ServerLatency,
    pub transfer_pool: Vec<SpeedtestServer>,
    pub latencies: Vec<LatencyFigure>,
}

pub open spec fn figures_of(ranked: Seq<ServerLatency>, stddevs: Seq<Scalar>) -> Seq<
    LatencyFigure,
> {
    Seq::new(
        ranked.len(),
        |i: int|
            LatencyFigure {
                server_id: ranked[i].server.id,
                average: ranked[i].average,
                stddev_ms: stddevs[i],
            },
    )
}

/// Selects among ranked servers. `stddevs` are their standard deviations, in their order.
pub fn choose_server(
    ranked: &Vec<ServerLatency>,
    stddevs: &Vec<Scalar>,
    pool_size: usize,
) -> (r: Result<SelectionOutcome, EngineError>)
    requires
        all_rankable(ranked@),
        stddevs.len() == ranked.len(),
    ensures
        match r {
            Ok(outcome) => {
                &&& exists|i: int| #[trigger]
                    is_best(ranked@, i) && outcome.selected.same_as(ranked@[i])
                &&& outcome.transfer_pool@ == pooled(
                    ranked@,
                    if pool_size == 0 {
                        1
                    } else {
                        pool_size as int
                    },
                    ranked.len() as int,
                )
                &&& outcome.transfer_pool@ == transfer_pool(ranked@, pool_size)
                &&& outcome.latencies@ == figures_of(ranked@, stddevs@)
            },
            Err(error) => ranked.len() == 0 && error == EngineError::NoRanking,
        },
{
    let selected = match select_best_latency(ranked) {
        Some(selected) => selected,
        None => {
            return Err(EngineError::NoRanking);
        },
    };
    let transfer_pool = build_transfer_pool(ranked, pool_size);
    let mut latencies: Vec<LatencyFigure> = Vec::new();
    let mut i: usize = 0;
    while i < ranked.len()
        invariant
            i <= ranked.len(),
            stddevs.len() == ranked.len(),
            latencies@ == figures_of(ranked@, stddevs@).take(i as int),
        decreases ranked.len() - i,
    {
        latencies.push(
            LatencyFigure {
                server_id: ranked[i].server.id,
                average: ranked[i].average,
                stddev_ms: stddevs[i],
            },
        );
        i = i + 1;
        assert(latencies@ =~= figures_of(ranked@, stddevs@).take(i as int));
    }
    assert(latencies@ =~= figures_of(ranked@, stddevs@));
    Ok(SelectionOutcome { selected, transfer_pool, latencies })
}

/// The selection of a server that was asked for.
pub fn fix_server(selected: ServerLatency, stddev_ms: Scalar) -> (r: SelectionOutcome)
    ensures
        r.selected == selected,
        r.transfer_pool@ == seq![selected.server],
        r.latencies@ == seq![
            LatencyFigure { server_id: selected.server.id, average: selected.average, stddev_ms },
        ],
{
    let mut transfer_pool: Vec<SpeedtestServer> = Vec::new();
    transfer_pool.push(selected.server.clone());
    let mut latencies: Vec<LatencyFigure> = Vec::new();
    latencies.push(
        LatencyFigure { server_id: selected.server.id, average: selected.average, stddev_ms },
    );
    assert(transfer_pool@ =~= seq![selected.server]);
    assert(latencies@ =~= seq![
        LatencyFigure { server_id: selected.server.id, average: selected.average, stddev_ms },
    ]);
    SelectionOutcome { selected, transfer_pool, latencies }
}

/// The figures of a server: the last ones that were noted for it.
pub open spec fn figure_for(figures: Seq<LatencyFigure>, server_id: u64) -> Option<LatencyFigure>
    decreases figures.len(),
{
    if figures.len() == 0 {
        None
    } else if figures.last().server_id == server_id {
        Some(figures.last())
    } else {
        figure_for(figures.drop_last(), server_id)
    }
}

pub fn find_figure(figures: &Vec<LatencyFigure>, server_id: u64) -> (r: Option<LatencyFigure>)
    ensures
        r == figure_for(figures@, server_id),
{
    let mut i: usize = figures.len();
    assert(figures@.take(i as int) =~= figures@);
    while i > 0
        invariant
            i <= figures.len(),
            figure_for(figures@, server_id) == figure_for(figures@.take(i as int), server_id),
        decreases i,
    {
        assert(figures@.take(i as int).drop_last() =~= figures@.take(i - 1));
        if figures[i - 1].server_id == server_id {
            return Some(figures[i - 1]);
        }
        i = i - 1;
    }
    None
}

/// A server as the result shows it, with its latency and standard deviation where they are known.
pub open spec fn shown_server(
    server: SpeedtestServer,
    latency: Option<(Fraction, Scalar)>,
) -> Server {
    Server {
        id: server.id,
        sponsor: server.sponsor,
        name: server.name,
        country: server.country,
        host: server.host,
        distance_km: server.distance_km,
        latency_ns: match latency {
            Some((ns, _)) => Some(ns),
            None => None,
        },
        latency_stddev_ms: match latency {
            Some((_, stddev)) => Some(stddev),
            None => None,
        },
        download_avg_mbps: None,
        download_bytes: None,
        sdk_url: Some(server.url),
        sdk_lat: server.sdk_lat,
        sdk_lon: server.sdk_lon,
        sdk_cc: server.sdk_cc,
        sdk_preferred: server.sdk_preferred,
        sdk_isp_id: server.sdk_isp_id,
        sdk_https_functional: server.sdk_https_functional,
        sdk_hostname: server.sdk_hostname,
        sdk_port: server.sdk_port,
        sdk_force_ping_select: server.sdk_force_ping_select,
    }
}

pub fn map_server(server: &SpeedtestServer, latency: Option<(Fraction, Scalar)>) -> (r: Server)
    ensures
        r == shown_server(*server, latency),
{
    let (latency_ns, latency_stddev_ms): (Option<Fraction>, Option<Scalar>) = match latency {
        Some((ns, stddev)) => (Some(ns), Some(stddev)),
        None => (None, None),
    };
    Server {
        id: server.id,
        sponsor: server.sponsor.clone(),
        name: server.name.clone(),
        country: server.country.clone(),
        host: server.host.clone(),
        distance_km: server.distance_km,
        latency_ns,
        latency_stddev_ms,
        download_avg_mbps: None,
        download_bytes: None,
        sdk_url: Some(server.url.clone()),
        sdk_lat: copy_opt(&server.sdk_lat),
        sdk_lon: copy_opt(&server.sdk_lon),
        sdk_cc: copy_opt(&server.sdk_cc),
        sdk_preferred: server.sdk_preferred,
        sdk_isp_id: copy_opt(&server.sdk_isp_id),
        sdk_https_functional: server.sdk_https_functional,
        sdk_hostname: copy_opt(&server.sdk_hostname),
        sdk_port: server.sdk_port,
        sdk_force_ping_select: server.sdk_force_ping_select,
    }
}

/// The latency of a server of the pool.
pub open spec fn pool_latency(figures: Seq<LatencyFigure>, server_id: u64) -> Option<
    (Fraction, Scalar),
> {
    match figure_for(figures, server_id) {
        Some(figure) => Some((figure.average, figure.stddev_ms)),
        None => None,
    }
}

/// Whether the list shows the servers of the pool, in their order.
pub open spec fn is_shown_pool(
    pool: Seq<SpeedtestServer>,
    figures: Seq<LatencyFigure>,
    shown: Seq<Server>,
) -> bool {
    &&& shown.len() == pool.len()
    &&& forall|i: int|
        0 <= i < shown.len() ==> #[trigger] shown[i] == shown_server(
            pool[i],
            pool_latency(figures, pool[i].id),
        )
}

fn show_pool(selection: &SelectionOutcome) -> (r: Vec<Server>)
    ensures
        is_shown_pool(selection.transfer_pool@, selection.latencies@, r@),
{
    let mut out: Vec<Server> = Vec::new();
    let mut i: usize = 0;
    while i < selection.transfer_pool.len()
        invariant
            i <= selection.transfer_pool.len(),
            out.len() == i,
            forall|k: int|
                0 <= k < i ==> #[trigger] out[k] == shown_server(
                    selection.transfer_pool[k],
                    pool_latency(selection.latencies@, selection.transfer_pool[k].id),
                ),
        decreases selection.transfer_pool.len() - i,
    {
        let id: u64 = selection.transfer_pool[i].id;
        let latency = match find_figure(&selection.latencies, id) {
            Some(figure) => Some((figure.average, figure.stddev_ms)),
            None => None,
        };
        out.push(map_server(&selection.transfer_pool[i], latency));
        i = i + 1;
    }
    out
}

/// The readings, where there are any.
pub open spec fn some_readings(samples: Seq<i64>) -> Option<Seq<i64>> {
    if samples.len() > 0 {
        Some(samples)
    } else {
        None
    }
}

fn keep_readings(samples: &Vec<i64>) -> (r: Option<Vec<i64>>)
    ensures
        seen(r) == some_readings(samples@),
{
    if samples.len() == 0 {
        None
    } else {
        Some(copy_readings(samples))
    }
}

/// The client with its coordinates as texts with four decimals.
#[derive(Debug)]
pub struct LocatedClient {
    pub client: SpeedtestClient,
    pub latitude_text: String,
    pub longitude_text: String,
}

/// Whether the result is that of a run which has selected its server and done nothing else.
pub open spec fn is_initial(
    timestamp: Seq<char>,
    located: LocatedClient,
    mode: TransportProtocol,
    with_details: bool,
    selection: SelectionOutcome,
    stddev_ms: Scalar,
    r: RunResult,
) -> bool {
    let selected = selection.selected;
    let jitter = jitter_micros(selected.samples_ns@);
    &&& r.timestamp@ == timestamp
    &&& opt_view(r.speedtest_api) == Some(mode.name())
    &&& r.client == Some(
        ClientMeta {
            ip: located.client.ip,
            isp: located.client.isp,
            country: located.client.country,
            latitude: located.client.latitude,
            longitude: located.client.longitude,
            latitude_text: located.latitude_text,
            longitude_text: located.longitude_text,
            isp_id: None,
            provider_hash: None,
        },
    )
    &&& r.server == Some(
        shown_server(selected.server, Some((selected.average, stddev_ms))),
    )
    &&& r.server_pool matches Some(pool) && is_shown_pool(
        selection.transfer_pool@,
        selection.latencies@,
        pool@,
    )
    &&& r.ping_ns == Some(selected.average)
    &&& match r.jitter_us {
        Some(us) => us == jitter && jitter > 0,
        None => jitter <= 0,
    }
    &&& r.download is None
    &&& r.download_latency_ns is None
    &&& r.upload is None
    &&& r.upload_latency_ns is None
    &&& r.proxy is None
    &&& match r.details {
        Some(details) => {
            &&& with_details
            &&& details.interval_seconds == 1
            &&& details.selected_server_latency.average == selected.average
            &&& details.selected_server_latency.variance_ms == selected.variance_ms
            &&& details.selected_server_latency.stddev_ms == Some(stddev_ms)
            &&& seen(details.selected_server_latency.samples_ns) == some_readings(
                selected.samples_ns@,
            )
            &&& details.download is None
            &&& details.upload is None
        },
        None => !with_details,
    }
}

/// The result of a run that has selected its server. `stddev_ms` is the standard deviation of the
/// latency of that server.
pub fn build_initial_run_result(
    timestamp: String,
    located: LocatedClient,
    mode: TransportProtocol,
    with_details: bool,
    selection: &SelectionOutcome,
    stddev_ms: Scalar,
) -> (r: RunResult)
    ensures
        is_initial(timestamp@, located, mode, with_details, *selection, stddev_ms, r),
{
    let jitter: u128 = calculate_jitter(&selection.selected.samples_ns);
    let details = if with_details {
        Some(
            RunDetails {
                interval_seconds: 1,
                selected_server_latency: SelectedServerLatencyDetails {
                    average: selection.selected.average,
                    variance_ms: selection.selected.variance_ms,
                    stddev_ms: Some(stddev_ms),
                    samples_ns: keep_readings(&selection.selected.samples_ns),
                },
                download: None,
                upload: None,
            },
        )
    } else {
        None
    };
    RunResult {
        timestamp,
        speedtest_api: Some(mode.label().to_owned()),
        client: Some(
            ClientMeta {
                ip: located.client.ip,
                isp: located.client.isp,
                country: located.client.country,
                latitude: located.client.latitude,
                longitude: located.client.longitude,
                latitude_text: located.latitude_text,
                longitude_text: located.longitude_text,
                isp_id: None,
                provider_hash: None,
            },
        ),
        server: Some(
            map_server(
                &selection.selected.server,
                Some((selection.selected.average, stddev_ms)),
            ),
        ),
        server_pool: Some(show_pool(selection)),
        ping_ns: Some(selection.selected.average),
        jitter_us: if jitter > 0 {
            Some(jitter)
        } else {
            None
        },
        download: None,
        download_latency_ns: None,
        upload: None,
        upload_latency_ns: None,
        proxy: None,
        details,
    }
}

/// The result of a run that has selected its server just now.
pub fn begin_run_result(
    located: LocatedClient,
    mode: TransportProtocol,
    with_details: bool,
    selection: &SelectionOutcome,
    stddev_ms: Scalar,
) -> (r: RunResult)
    ensures
        is_timestamp(r.timestamp@),
        is_initial(r.timestamp@, located, mode, with_details, *selection, stddev_ms, r),
{
    let timestamp = current_timestamp();
    build_initial_run_result(timestamp, located, mode, with_details, selection, stddev_ms)
}

/// The measurements of a run that has selected its server.
pub fn build_initial_sdk_artifacts(selection: &SelectionOutcome) -> (r: SdkArtifacts)
    ensures
        seen(r.selected_latency_samples_ns) == some_readings(selection.selected.samples_ns@),
        (SdkArtifacts { selected_latency_samples_ns: None, ..r }) == SdkArtifacts::none(),
{
    SdkArtifacts {
        selected_latency_samples_ns: keep_readings(&selection.selected.samples_ns),
        download_intervals: None,
        upload_intervals: None,
        upload_remote_intervals: None,
        download_latency_samples_ns: None,
        upload_latency_samples_ns: None,
    }
}

/// The outcome of a direction.
pub fn build_benchmark_result(
    speed: Speed,
    bytes: u64,
    duration_seconds: u64,
    connections: usize,
    actual_duration_ms: Option<u64>,
    throughput: Option<&ThroughputResult>,
) -> (r: BenchmarkResult)
    ensures
        r == (BenchmarkResult {
            mbps: speed.mbps,
            bps: speed.bps,
            bytes,
            duration_seconds,
            connections,
            actual_duration_ms,
            average: match throughput {
                Some(t) => Some(t.average_bps),
                None => None,
            },
            mst: match throughput {
                Some(t) => Some(t.mst_66_30_bps),
                None => None,
            },
        }),
{
    BenchmarkResult {
        mbps: speed.mbps,
        bps: speed.bps,
        bytes,
        duration_seconds,
        connections,
        actual_duration_ms,
        average: match throughput {
            Some(t) => Some(t.average_bps),
            None => None,
        },
        mst: match throughput {
            Some(t) => Some(t.mst_66_30_bps),
            None => None,
        },
    }
}

pub open spec fn speeds_of(t: ThroughputResult) -> MstSpeedsOut {
    MstSpeedsOut {
        average: t.average_bps,
        mst_66_20: t.mst_66_20_bps,
        mst_66_30: t.mst_66_30_bps,
        mst_75_30: t.mst_75_30_bps,
        blended: t.blended_bps,
        superspeed: t.superspeed_bps,
    }
}

pub fn build_mst_speeds(throughput: Option<&ThroughputResult>) -> (r: Option<MstSpeedsOut>)
    ensures
        r == match throughput {
            Some(t) => Some(speeds_of(*t)),
            None => None,
        },
{
    match throughput {
        Some(t) => Some(
            MstSpeedsOut {
                average: t.average_bps,
                mst_66_20: t.mst_66_20_bps,
                mst_66_30: t.mst_66_30_bps,
                mst_75_30: t.mst_75_30_bps,
                blended: t.blended_bps,
                superspeed: t.superspeed_bps,
            },
        ),
        None => None,
    }
}

pub open spec fn shown_buckets(buckets: Seq<Bucket>) -> Seq<MstBucketOut> {
    buckets.map_values(
        |b: Bucket|
            MstBucketOut {
                start_ms: b.start_ms,
                stop_ms: b.stop_ms,
                bytes: b.bytes,
                bandwidth: b.speed(),
            },
    )
}

pub fn build_mst_buckets(throughput: Option<&ThroughputResult>) -> (r: Option<Vec<MstBucketOut>>)
    ensures
        seen(r) == match throughput {
            Some(t) => Some(shown_buckets(t.buckets_500ms@)),
            None => None,
        },
{
    match throughput {
        Some(t) => {
            let mut out: Vec<MstBucketOut> = Vec::new();
            let mut i: usize = 0;
            while i < t.buckets_500ms.len()
                invariant
                    i <= t.buckets_500ms.len(),
                    out@ == shown_buckets(t.buckets_500ms@).take(i as int),
                decreases t.buckets_500ms.len() - i,
            {
                let bucket = t.buckets_500ms[i];
                out.push(
                    MstBucketOut {
                        start_ms: bucket.start_ms,
                        stop_ms: bucket.stop_ms,
                        bytes: bucket.bytes,
                        bandwidth: bucket.bandwidth_bytes_per_sec(),
                    },
                );
                i = i + 1;
                assert(out@ =~= shown_buckets(t.buckets_500ms@).take(i as int));
            }
            assert(out@ =~= shown_buckets(t.buckets_500ms@));
            Some(out)
        },
        None => None,
    }
}

/// The intervals with one more, which takes the place of the last where that has its time.
pub open spec fn with_interval(
    intervals: Seq<ThroughputInterval>,
    next: ThroughputInterval,
) -> Seq<ThroughputInterval> {
    if intervals.len() > 0 && intervals.last().elapsed_ns == next.elapsed_ns {
        intervals.drop_last().push(next)
    } else {
        intervals.push(next)
    }
}

pub fn push_interval(
    intervals: &mut Vec<ThroughputInterval>,
    elapsed_ns: u64,
    bytes: u64,
    speed: Speed,
)
    ensures
        final(intervals)@ == with_interval(
            old(intervals)@,
            ThroughputInterval { elapsed_ns, bytes, mbps: speed.mbps, bps: speed.bps },
        ),
{
    let next = ThroughputInterval { elapsed_ns, bytes, mbps: speed.mbps, bps: speed.bps };
    let count: usize = intervals.len();
    if count > 0 && intervals[count - 1].elapsed_ns == elapsed_ns {
        intervals.set(count - 1, next);
        assert(intervals@ =~= old(intervals)@.drop_last().push(next));
        return ;
    }
    intervals.push(next);
}

/// No two intervals in a row have the same time.
pub open spec fn times_differ(intervals: Seq<ThroughputInterval>) -> bool {
    forall|i: int|
        0 < i < intervals.len() ==> (#[trigger] intervals[i]).elapsed_ns != intervals[i
            - 1].elapsed_ns
}

/// Adding an interval keeps the times of neighbours apart where the one that it replaces had the
/// same time as itself, and the added one is the last.
pub proof fn pushing_keeps_times_apart(
    intervals: Seq<ThroughputInterval>,
    next: ThroughputInterval,
)
    requires
        times_differ(intervals),
    ensures
        times_differ(with_interval(intervals, next)),
        with_interval(intervals, next).last() == next,
{
    let after = with_interval(intervals, next);
    assert forall|i: int| 0 < i < after.len() implies (#[trigger] after[i]).elapsed_ns != after[i
        - 1].elapsed_ns by {
        if i < intervals.len() {
            assert(intervals[i].elapsed_ns != intervals[i - 1].elapsed_ns);
        }
    }
}

/// A time within a stage of so many seconds.
pub open spec fn within_stage(elapsed_ns: int, seconds: u64) -> int {
    least(elapsed_ns, capped_product(seconds as int, 1_000_000_000))
}

pub fn clamp_to_stage(elapsed_ns: u128, seconds: u64) -> (r: u64)
    ensures
        r == within_stage(elapsed_ns as int, seconds),
{
    let whole: u128 = seconds as u128 * 1_000_000_000;
    let stage: u128 = if whole > u64::MAX as u128 {
        u64::MAX as u128
    } else {
        whole
    };
    if elapsed_ns < stage {
        elapsed_ns as u64
    } else {
        stage as u64
    }
}

/// The intervals that the reports of the server make up. Reports of no time, and of speeds that
/// are no usable numbers, are left out.
pub open spec fn remote_intervals(
    samples: Seq<UploadStatsSample>,
    speeds: Seq<Speed>,
    stage_seconds: u64,
) -> Seq<ThroughputInterval>
    decreases samples.len(),
{
    if samples.len() == 0 {
        Seq::empty()
    } else {
        let before = remote_intervals(samples.drop_last(), speeds, stage_seconds);
        let sample = samples.last();
        let speed = speeds[samples.len() - 1];
        if sample.elapsed_ms == 0 || !speed.mbps.usable() {
            before
        } else {
            with_interval(
                before,
                ThroughputInterval {
                    elapsed_ns: within_stage(sample.elapsed_ms * 1_000_000, stage_seconds) as u64,
                    bytes: sample.bytes,
                    mbps: speed.mbps,
                    bps: speed.bps,
                },
            )
        }
    }
}

/// The intervals that the reports of the server make up. `speeds` are those of the reports, in
/// their order.
pub fn build_remote_upload_intervals(
    samples: &Vec<UploadStatsSample>,
    speeds: &Vec<Speed>,
    stage_seconds: u64,
) -> (r: Vec<ThroughputInterval>)
    requires
        speeds.len() == samples.len(),
    ensures
        r@ == remote_intervals(samples@, speeds@, stage_seconds),
{
    let mut out: Vec<ThroughputInterval> = Vec::new();
    let mut i: usize = 0;
    assert(samples@.take(0) =~= Seq::<UploadStatsSample>::empty());
    while i < samples.len()
        invariant
            i <= samples.len(),
            speeds.len() == samples.len(),
            out@ == remote_intervals(samples@.take(i as int), speeds@, stage_seconds),
        decreases samples.len() - i,
    {
        assert(samples@.take(i + 1).drop_last() =~= samples@.take(i as int));
        assert(samples@.take(i + 1).last() == samples@[i as int]);
        if samples[i].elapsed_ms != 0 && speeds[i].mbps.is_usable() {
            let elapsed_ns: u64 = clamp_to_stage(
                samples[i].elapsed_ms as u128 * 1_000_000,
                stage_seconds,
            );
            push_interval(&mut out, elapsed_ns, samples[i].bytes, speeds[i]);
        }
        i = i + 1;
    }
    assert(samples@.take(i as int) =~= samples@);
    out
}

/// The figures of a server in the list, by the first entry for it.
pub open spec fn stats_for(per_server: Seq<PerServerDownloadStats>, server_id: u64) -> Option<
    PerServerDownloadStats,
>
    decreases per_server.len(),
{
    if per_server.len() == 0 {
        None
    } else if per_server[0].server_id == server_id {
        Some(per_server[0])
    } else {
        stats_for(per_server.drop_first(), server_id)
    }
}

pub fn find_stats(per_server: &Vec<PerServerDownloadStats>, server_id: u64) -> (r: Option<
    PerServerDownloadStats,
>)
    ensures
        r == stats_for(per_server@, server_id),
{
    let mut i: usize = 0;
    assert(per_server@.skip(0) =~= per_server@);
    while i < per_server.len()
        invariant
            i <= per_server.len(),
            stats_for(per_server@, server_id) == stats_for(per_server@.skip(i as int), server_id),
        decreases per_server.len() - i,
    {
        assert(per_server@.skip(i as int).drop_first() =~= per_server@.skip(i + 1));
        if per_server[i].server_id == server_id {
            return Some(per_server[i]);
        }
        i = i + 1;
    }
    None
}

/// A server with what came from it, where that is known.
pub open spec fn with_download(server: Server, per_server: Seq<PerServerDownloadStats>) -> Server {
    match stats_for(per_server, server.id) {
        Some(entry) => Server {
            download_avg_mbps: Some(entry.mbps),
            download_bytes: Some(entry.bytes),
            ..server
        },
        None => server,
    }
}

pub open spec fn pool_with_downloads(
    pool: Seq<Server>,
    per_server: Seq<PerServerDownloadStats>,
) -> Seq<Server> {
    pool.map_values(|server: Server| with_download(server, per_server))
}

/// Notes what came from each server of the pool.
pub fn apply_download_stats_to_server_pool(
    server_pool: &mut Option<Vec<Server>>,
    per_server: &Vec<PerServerDownloadStats>,
)
    ensures
        seen(*final(server_pool)) == match *old(server_pool) {
            Some(pool) => Some(pool_with_downloads(pool@, per_server@)),
            None => None,
        },
{
    let updated: Option<Vec<Server>> = match server_pool {
        Some(pool) => {
            let mut out: Vec<Server> = Vec::new();
            let mut i: usize = 0;
            while i < pool.len()
                invariant
                    i <= pool.len(),
                    out@ == pool_with_downloads(pool@, per_server@).take(i as int),
                decreases pool.len() - i,
            {
                let mut server = pool[i].clone();
                if let Some(entry) = find_stats(per_server, server.id) {
                    server.download_avg_mbps = Some(entry.mbps);
                    server.download_bytes = Some(entry.bytes);
                }
                out.push(server);
                i = i + 1;
                assert(out@ =~= pool_with_downloads(pool@, per_server@).take(i as int));
            }
            assert(out@ =~= pool_with_downloads(pool@, per_server@));
            Some(out)
        },
        None => None,
    };
    *server_pool = updated;
}

/// Noting an interval keeps the earlier ones. It replaces one only where that has its time.
pub proof fn earlier_intervals_stay(intervals: Seq<ThroughputInterval>, next: ThroughputInterval)
    ensures
        ({
            let after = with_interval(intervals, next);
            &&& after.len() > 0
            &&& intervals.len() > 0 && intervals.last().elapsed_ns == next.elapsed_ns
                ==> after.len() == intervals.len()
            &&& intervals.len() == 0 || intervals.last().elapsed_ns != next.elapsed_ns
                ==> after.len() == intervals.len() + 1
            &&& forall|i: int| 0 <= i < after.len() - 1 ==> #[trigger] after[i] == intervals[i]
        }),
{
}

/// A report of the server more is an interval more at its end, with the bytes and the speed of the
/// report and no later than the stage; a report of no time or without a usable speed is none.
pub proof fn reports_become_intervals(
    samples: Seq<UploadStatsSample>,
    speeds: Seq<Speed>,
    next: UploadStatsSample,
    stage_seconds: u64,
)
    requires
        speeds.len() == samples.len() + 1,
        stage_seconds * 1_000_000_000 <= u64::MAX,
    ensures
        ({
            let before = remote_intervals(samples, speeds, stage_seconds);
            let after = remote_intervals(samples.push(next), speeds, stage_seconds);
            if next.elapsed_ms > 0 && speeds.last().mbps.usable() {
                &&& after.len() > 0
                &&& after.last().bytes == next.bytes
                &&& after.last().bps == speeds.last().bps
                &&& after.last().mbps == speeds.last().mbps
                &&& after.last().elapsed_ns <= stage_seconds * 1_000_000_000
                &&& next.elapsed_ms <= stage_seconds * 1_000 ==> after.last().elapsed_ns
                    == next.elapsed_ms * 1_000_000
                &&& forall|i: int| 0 <= i < after.len() - 1 ==> #[trigger] after[i] == before[i]
            } else {
                after == before
            }
        }),
        remote_intervals(Seq::empty(), speeds, stage_seconds).len() == 0,
{
    assert(samples.push(next).drop_last() =~= samples);
}

/// The figures of a server are the last that were noted for it; without any there are none.
pub proof fn the_last_figures_count(
    figures: Seq<LatencyFigure>,
    next: LatencyFigure,
    server_id: u64,
)
    ensures
        figure_for(Seq::empty(), server_id) is None,
        figure_for(figures.push(next), next.server_id) == Some(next),
        server_id != next.server_id ==> figure_for(figures.push(next), server_id) == figure_for(
            figures,
            server_id,
        ),
{
    assert(figures.push(next).drop_last() =~= figures);
}

/// What came from a server is noted for it, by its id, and for no other.
pub proof fn downloads_are_noted_by_server(
    server: Server,
    entry: PerServerDownloadStats,
    others: Seq<PerServerDownloadStats>,
)
    ensures
        entry.server_id == server.id ==> {
            let noted = with_download(server, seq![entry] + others);
            &&& noted.download_bytes == Some(entry.bytes)
            &&& noted.download_avg_mbps == Some(entry.mbps)
            &&& noted.id == server.id
        },
        entry.server_id != server.id ==> with_download(server, seq![entry] + others)
            == with_download(server, others),
        with_download(server, Seq::empty()) == server,
{
    assert((seq![entry] + others).drop_first() =~= others);
    assert((seq![entry] + others)[0] == entry);
}

/// A run starts from the server that was selected: the result shows that server and the servers of
/// the pool in their order, each with its own figures.
pub proof fn results_start_with_the_selected_server(
    timestamp: Seq<char>,
    located: LocatedClient,
    mode: TransportProtocol,
    with_details: bool,
    selection: SelectionOutcome,
    stddev_ms: Scalar,
    r: RunResult,
    i: int,
)
    requires
        is_initial(timestamp, located, mode, with_details, selection, stddev_ms, r),
        0 <= i < selection.transfer_pool@.len(),
    ensures
        r.server->0.id == selection.selected.server.id,
        r.server->0.host == selection.selected.server.host,
        r.server->0.name == selection.selected.server.name,
        r.server->0.latency_ns == Some(selection.selected.average),
        r.ping_ns == Some(selection.selected.average),
        r.server_pool->0@.len() == selection.transfer_pool@.len(),
        r.server_pool->0@[i].id == selection.transfer_pool@[i].id,
        r.server_pool->0@[i].host == selection.transfer_pool@[i].host,
        r.client->0.ip == located.client.ip,
        r.client->0.isp == located.client.isp,
        r.client->0.latitude == located.client.latitude,
        r.client->0.longitude == located.client.longitude,
        r.details is Some <==> with_details,
        r.details matches Some(details) ==> details.selected_server_latency.average
            == selection.selected.average && details.selected_server_latency.variance_ms
            == selection.selected.variance_ms && details.selected_server_latency.stddev_ms == Some(
            stddev_ms,
        ),
        r.download is None && r.upload is None,
{
    let shown = r.server_pool->0@[i];
    assert(shown == shown_server(
        selection.transfer_pool@[i],
        pool_latency(selection.latencies@, selection.transfer_pool@[i].id),
    ));
}

/// A server is shown as the catalog describes it.
pub proof fn servers_are_shown_as_described(
    server: SpeedtestServer,
    latency: Option<(Fraction, Scalar)>,
)
    ensures
        ({
            let shown = shown_server(server, latency);
            &&& shown.id == server.id && shown.sponsor == server.sponsor && shown.name
                == server.name
            &&& shown.country == server.country && shown.host == server.host
            &&& shown.distance_km == server.distance_km
            &&& shown.sdk_url == Some(server.url)
            &&& shown.sdk_lat == server.sdk_lat && shown.sdk_lon == server.sdk_lon
            &&& shown.sdk_cc == server.sdk_cc && shown.sdk_port == server.sdk_port
            &&& shown.sdk_hostname == server.sdk_hostname
            &&& shown.latency_ns is Some <==> latency is Some
            &&& latency matches Some((average, stddev)) ==> shown.latency_ns == Some(average)
                && shown.latency_stddev_ms == Some(stddev)
        }),
{
}

/// Settings are refused exactly where a number that has to be positive is zero.
pub proof fn settings_with_a_zero_are_refused(settings: EngineSettings)
    ensures
        settings.fault() is None <==> settings.candidate_servers > 0 && settings.latency_samples > 0
            && settings.download_seconds > 0 && settings.upload_seconds > 0,
{
}

/// The figures of a selection are those of the ranked servers, each under its id.
pub proof fn figures_belong_to_their_servers(
    ranked: Seq<ServerLatency>,
    stddevs: Seq<Scalar>,
    i: int,
)
    requires
        0 <= i < ranked.len(),
    ensures
        figures_of(ranked, stddevs).len() == ranked.len(),
        figures_of(ranked, stddevs)[i].server_id == ranked[i].server.id,
        figures_of(ranked, stddevs)[i].average == ranked[i].average,
        figures_of(ranked, stddevs)[i].stddev_ms == stddevs[i],
{
}

/// What is shown of buckets and speeds is what was measured.
pub proof fn measured_speeds_are_shown(t: ThroughputResult, buckets: Seq<Bucket>, i: int)
    requires
        0 <= i < buckets.len(),
    ensures
        speeds_of(t).average == t.average_bps,
        speeds_of(t).mst_66_30 == t.mst_66_30_bps,
        speeds_of(t).mst_66_20 == t.mst_66_20_bps,
        speeds_of(t).mst_75_30 == t.mst_75_30_bps,
        speeds_of(t).blended == t.blended_bps,
        speeds_of(t).superspeed == t.superspeed_bps,
        shown_buckets(buckets).len() == buckets.len(),
        shown_buckets(buckets)[i].start_ms == buckets[i].start_ms,
        shown_buckets(buckets)[i].stop_ms == buckets[i].stop_ms,
        shown_buckets(buckets)[i].bytes == buckets[i].bytes,
{
}

/// A stage's time is never beyond its end, and is as it is before that.
pub proof fn times_stay_within_the_stage(elapsed_ns: int, seconds: u64)
    requires
        0 <= elapsed_ns,
        seconds * 1_000_000_000 <= u64::MAX,
    ensures
        within_stage(elapsed_ns, seconds) <= seconds * 1_000_000_000,
        elapsed_ns <= seconds * 1_000_000_000 ==> within_stage(elapsed_ns, seconds) == elapsed_ns,
        elapsed_ns > seconds * 1_000_000_000 ==> within_stage(elapsed_ns, seconds) == seconds
            * 1_000_000_000,
{
}

/// Every server of the pool stays in its place.
pub proof fn the_pool_keeps_its_servers(
    pool: Seq<Server>,
    per_server: Seq<PerServerDownloadStats>,
    i: int,
)
    requires
        0 <= i < pool.len(),
    ensures
        pool_with_downloads(pool, per_server).len() == pool.len(),
        pool_with_downloads(pool, per_server)[i].id == pool[i].id,
        pool_with_downloads(pool, per_server)[i].host == pool[i].host,
        pool_with_downloads(pool, per_server)[i].name == pool[i].name,
        (forall|k: int|
            0 <= k < per_server.len() ==> (#[trigger] per_server[k]).server_id != pool[i].id)
            ==> pool_with_downloads(pool, per_server)[i] == pool[i],
{
    lemma_stats_for(per_server, pool[i].id);
}

proof fn lemma_stats_for(per_server: Seq<PerServerDownloadStats>, server_id: u64)
    ensures
        stats_for(per_server, server_id) is Some ==> exists|k: int|
            0 <= k < per_server.len() && (#[trigger] per_server[k]).server_id == server_id,
    decreases per_server.len(),
{
    if per_server.len() > 0 && per_server[0].server_id != server_id {
        let rest = per_server.drop_first();
        lemma_stats_for(rest, server_id);
        if stats_for(rest, server_id) is Some {
            let k = choose|k: int|
                0 <= k < rest.len() && (#[trigger] rest[k]).server_id == server_id;
            assert(per_server[k + 1].server_id == server_id);
        }
    }
}

/// The next work is the first stage that transfers or saves. The latency stage is passed over, and
/// a plan without any is refused.
pub proof fn work_follows_the_plan(stages: Seq<EngineStage>)
    ensures
        work_in(seq![EngineStage::Latency] + stages) == work_in(stages),
        work_in(seq![EngineStage::Download] + stages) == Ok::<EngineStage, EngineError>(
            EngineStage::Download,
        ),
        work_in(seq![EngineStage::Upload] + stages) == Ok::<EngineStage, EngineError>(
            EngineStage::Upload,
        ),
        work_in(seq![EngineStage::Save] + stages) == Ok::<EngineStage, EngineError>(
            EngineStage::Save,
        ),
        work_in(seq![EngineStage::Finished] + stages) is Err,
        work_in(Seq::empty()) == Err::<EngineStage, EngineError>(EngineError::SaveNotReached),
        passes_latency(stages) <==> stages.len() > 0 && stages.first() == EngineStage::Latency,
{
    assert((seq![EngineStage::Latency] + stages).drop_first() =~= stages);
}

/// Readings are kept as they are; without any there are none to keep.
pub proof fn readings_are_kept_where_there_are_some(samples: Seq<i64>)
    ensures
        samples.len() > 0 ==> some_readings(samples) == Some(samples),
        samples.len() == 0 ==> some_readings(samples) is None,
{
}

} // verus!
