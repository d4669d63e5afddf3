//! What each stage of a run adds to its result.

use vstd::prelude::*;

use crate::model::{
    BenchmarkResult, DirectionDetails, RunDetails, RunResult, SdkArtifacts, Speed,
    ThroughputInterval,
};
use crate::num::fraction::Fraction;
use crate::speedtest::download::DownloadStats;
use crate::speedtest::engine::{
    apply_download_stats_to_server_pool, build_benchmark_result, build_mst_buckets,
    build_mst_speeds, build_remote_upload_intervals, clamp_to_stage, pool_with_downloads,
    push_interval, remote_intervals, shown_buckets, some_readings, speeds_of,
    with_interval, within_stage, EngineEvent, EngineSettings, EngineStage,
};
use crate::speedtest::latency::{average_latency, mean, the_mean_lies_between};
use crate::speedtest::sdk_payload::throughput::{capped_product, seen};
use crate::speedtest::sdk_payload::util::{generate_sdk_guid, guid_text};
use crate::speedtest::throughput::{ThroughputResult, TransferConfig};
use crate::speedtest::transfer_util::TransferCounters;
use crate::speedtest::upload::UploadStats;
use crate::util::{clamp_worker_count, clamped_workers};

verus! {

/// A run in progress.
#[derive(Debug)]
pub struct EngineState {
    pub result: RunResult,
    pub sdk_artifacts: SdkArtifacts,
}

/// How the download stage transfers.
pub fn download_config(settings: &EngineSettings) -> (r: TransferConfig)
    ensures
        r == (TransferConfig {
            connections: clamped_workers(settings.download_connections as int) as usize,
            initial_connections: 4,
            max_seconds: settings.download_seconds,
            progress_interval_nanos: settings.progress_interval_nanos,
            request_target_ms: 5_000,
            start_request_size: 25_000_000,
            min_request_size: 25_000_000,
            max_request_size: 250_000_000,
        }),
        r.connections >= 1,
        r.min_request_size <= r.max_request_size,
{
    TransferConfig {
        connections: clamp_worker_count(settings.download_connections),
        initial_connections: 4,
        max_seconds: settings.download_seconds,
        progress_interval_nanos: settings.progress_interval_nanos,
        request_target_ms: 5_000,
        start_request_size: 25_000_000,
        min_request_size: 25_000_000,
        max_request_size: 250_000_000,
    }
}

/// How the upload stage transfers.
pub fn upload_config(settings: &EngineSettings) -> (r: TransferConfig)
    ensures
        r == (TransferConfig {
            connections: clamped_workers(settings.upload_connections as int) as usize,
            initial_connections: clamped_workers(settings.upload_connections as int) as usize,
            max_seconds: settings.upload_seconds,
            progress_interval_nanos: settings.progress_interval_nanos,
            request_target_ms: 1_000,
            start_request_size: 1_048_576,
            min_request_size: 32_768,
            max_request_size: 26_214_400,
        }),
        r.connections >= 1,
        r.min_request_size <= r.max_request_size,
{
    TransferConfig {
        connections: clamp_worker_count(settings.upload_connections),
        initial_connections: clamp_worker_count(settings.upload_connections),
        max_seconds: settings.upload_seconds,
        progress_interval_nanos: settings.progress_interval_nanos,
        request_target_ms: 1_000,
        start_request_size: 1_048_576,
        min_request_size: 32_768,
        max_request_size: 26_214_400,
    }
}

/// Notes the progress of a stage of so many seconds.
pub fn note_progress(
    intervals: &mut Vec<ThroughputInterval>,
    elapsed_ns: u128,
    bytes: u64,
    speed: Speed,
    seconds: u64,
)
    ensures
        final(intervals)@ == with_interval(
            old(intervals)@,
            ThroughputInterval {
                elapsed_ns: within_stage(elapsed_ns as int, seconds) as u64,
                bytes,
                mbps: speed.mbps,
                bps: speed.bps,
            },
        ),
{
    push_interval(intervals, clamp_to_stage(elapsed_ns, seconds), bytes, speed);
}

/// The average of readings, where there are any.
pub open spec fn average_ns(samples: Seq<i64>) -> Option<Fraction> {
    if samples.len() == 0 {
        None
    } else {
        Some(mean(samples))
    }
}

/// The average of the readings under load, and the readings themselves, where there are any.
pub fn record_latency_samples(samples: Vec<i64>) -> (r: (Option<Fraction>, Option<Vec<i64>>))
    requires
        forall|i: int| 0 <= i < samples.len() ==> 0 <= #[trigger] samples[i],
    ensures
        r.0 == average_ns(samples@),
        seen(r.1) == some_readings(samples@),
{
    match average_latency(&samples) {
        Some(average) => (Some(average), Some(samples)),
        None => (None, None),
    }
}

/// The intervals of a stage with its outcome at its end.
pub open spec fn closed_intervals(
    intervals: Seq<ThroughputInterval>,
    seconds: u64,
    bytes: u64,
    speed: Speed,
) -> Seq<ThroughputInterval> {
    with_interval(
        intervals,
        ThroughputInterval {
            elapsed_ns: capped_product(seconds as int, 1_000_000_000) as u64,
            bytes,
            mbps: speed.mbps,
            bps: speed.bps,
        },
    )
}

/// The last interval of a stage is its outcome, at its end, and the earlier ones stay.
pub proof fn stages_end_with_their_outcome(
    intervals: Seq<ThroughputInterval>,
    seconds: u64,
    bytes: u64,
    speed: Speed,
)
    requires
        seconds * 1_000_000_000 <= u64::MAX,
    ensures
        ({
            let after = closed_intervals(intervals, seconds, bytes, speed);
            &&& after.len() > 0
            &&& after.last().elapsed_ns == seconds * 1_000_000_000
            &&& after.last().bytes == bytes
            &&& after.last().mbps == speed.mbps
            &&& after.last().bps == speed.bps
            &&& after.len() >= intervals.len()
            &&& forall|i: int| 0 <= i < after.len() - 1 ==> #[trigger] after[i] == intervals[i]
        }),
{
}

fn copy_intervals(intervals: &Vec<ThroughputInterval>) -> (r: Vec<ThroughputInterval>)
    ensures
        r@ == intervals@,
{
    let mut out: Vec<ThroughputInterval> = Vec::new();
    let mut i: usize = 0;
    while i < intervals.len()
        invariant
            i <= intervals.len(),
            out@ == intervals@.take(i as int),
        decreases intervals.len() - i,
    {
        out.push(intervals[i]);
        i = i + 1;
        assert(out@ =~= intervals@.take(i as int));
    }
    assert(out@ =~= intervals@);
    out
}

fn finalize_local_intervals(
    intervals: Vec<ThroughputInterval>,
    seconds: u64,
    bytes: u64,
    speed: Speed,
) -> (r: Vec<ThroughputInterval>)
    ensures
        r@ == closed_intervals(intervals@, seconds, bytes, speed),
{
    let mut out = intervals;
    push_interval(&mut out, clamp_to_stage(u128::MAX, seconds), bytes, speed);
    out
}

/// Whether the details are those of a direction.
pub open spec fn are_details(
    counters: TransferCounters,
    intervals: Seq<ThroughputInterval>,
    remote: Option<Seq<ThroughputInterval>>,
    throughput: Option<ThroughputResult>,
    d: DirectionDetails,
) -> bool {
    &&& d.counters == counters
    &&& d.intervals@ == intervals
    &&& seen(d.remote_intervals) == remote
    &&& d.mst_speeds == match throughput {
        Some(t) => Some(speeds_of(t)),
        None => None,
    }
    &&& seen(d.mst_buckets) == match throughput {
        Some(t) => Some(shown_buckets(t.buckets_500ms@)),
        None => None,
    }
}

fn build_direction_details(
    counters: TransferCounters,
    intervals: Vec<ThroughputInterval>,
    remote_intervals: Option<Vec<ThroughputInterval>>,
    throughput: Option<&ThroughputResult>,
) -> (r: DirectionDetails)
    ensures
        are_details(
            counters,
            intervals@,
            seen(remote_intervals),
            match throughput {
                Some(t) => Some(*t),
                None => None,
            },
            r,
        ),
{
    DirectionDetails {
        counters,
        intervals,
        remote_intervals,
        mst_speeds: build_mst_speeds(throughput),
        mst_buckets: build_mst_buckets(throughput),
    }
}

/// Whether only what the download stage fills has changed.
pub open spec fn keeps_but_download(before: EngineState, after: EngineState) -> bool {
    &&& after.result.timestamp == before.result.timestamp
    &&& after.result.speedtest_api == before.result.speedtest_api
    &&& after.result.client == before.result.client
    &&& after.result.server == before.result.server
    &&& after.result.ping_ns == before.result.ping_ns
    &&& after.result.jitter_us == before.result.jitter_us
    &&& after.result.upload == before.result.upload
    &&& after.result.upload_latency_ns == before.result.upload_latency_ns
    &&& after.result.proxy == before.result.proxy
    &&& after.sdk_artifacts.selected_latency_samples_ns
        == before.sdk_artifacts.selected_latency_samples_ns
    &&& after.sdk_artifacts.upload_intervals == before.sdk_artifacts.upload_intervals
    &&& after.sdk_artifacts.upload_remote_intervals == before.sdk_artifacts.upload_remote_intervals
    &&& after.sdk_artifacts.upload_latency_samples_ns
        == before.sdk_artifacts.upload_latency_samples_ns
}

/// Whether only what the upload stage fills has changed.
pub open spec fn keeps_but_upload(before: EngineState, after: EngineState) -> bool {
    &&& after.result.timestamp == before.result.timestamp
    &&& after.result.speedtest_api == before.result.speedtest_api
    &&& after.result.client == before.result.client
    &&& after.result.server == before.result.server
    &&& after.result.server_pool == before.result.server_pool
    &&& after.result.ping_ns == before.result.ping_ns
    &&& after.result.jitter_us == before.result.jitter_us
    &&& after.result.download == before.result.download
    &&& after.result.download_latency_ns == before.result.download_latency_ns
    &&& after.result.proxy == before.result.proxy
    &&& after.sdk_artifacts.selected_latency_samples_ns
        == before.sdk_artifacts.selected_latency_samples_ns
    &&& after.sdk_artifacts.download_intervals == before.sdk_artifacts.download_intervals
    &&& after.sdk_artifacts.download_latency_samples_ns
        == before.sdk_artifacts.download_latency_samples_ns
}

/// The latency stage notes the average of the selected server.
pub fn finish_latency_stage(state: &mut EngineState, average: Fraction)
    ensures
        final(state).result == (RunResult { ping_ns: Some(average), ..old(state).result }),
        final(state).sdk_artifacts == old(state).sdk_artifacts,
{
    state.result.ping_ns = Some(average);
}

/// The intervals, where there are any.
pub open spec fn some_intervals(intervals: Seq<ThroughputInterval>) -> Option<
    Seq<ThroughputInterval>,
> {
    if intervals.len() > 0 {
        Some(intervals)
    } else {
        None
    }
}

/// The download stage is over. `speed` is the speed of its outcome, and `latency_samples` are the
/// readings that were taken meanwhile.
pub fn finish_download_stage(
    state: &mut EngineState,
    settings: &EngineSettings,
    stats: &DownloadStats,
    speed: Speed,
    intervals: Vec<ThroughputInterval>,
    latency_samples: Vec<i64>,
) -> (event: EngineEvent)
    requires
        forall|i: int| 0 <= i < latency_samples.len() ==> 0 <= #[trigger] latency_samples[i],
    ensures
        event == (EngineEvent::StageResult {
            stage: EngineStage::Download,
            mbps: speed.mbps,
            bytes: stats.bytes,
        }),
        keeps_but_download(*old(state), *final(state)),
        ({
            let local = closed_intervals(
                intervals@,
                settings.download_seconds,
                stats.bytes,
                speed,
            );
            &&& final(state).result.download == Some(
                BenchmarkResult {
                    mbps: speed.mbps,
                    bps: speed.bps,
                    bytes: stats.bytes,
                    duration_seconds: settings.download_seconds,
                    connections: clamped_workers(settings.download_connections as int) as usize,
                    actual_duration_ms: Some(stats.actual_duration_ms),
                    average: Some(stats.throughput.average_bps),
                    mst: Some(stats.throughput.mst_66_30_bps),
                },
            )
            &&& final(state).result.download_latency_ns == average_ns(latency_samples@)
            &&& seen(final(state).sdk_artifacts.download_latency_samples_ns) == some_readings(
                latency_samples@,
            )
            &&& seen(final(state).sdk_artifacts.download_intervals) == Some(local)
            &&& seen(final(state).result.server_pool) == match old(state).result.server_pool {
                Some(pool) => Some(pool_with_downloads(pool@, stats.per_server@)),
                None => None,
            }
            &&& match (old(state).result.details, final(state).result.details) {
                (Some(before), Some(after)) => {
                    &&& after == (RunDetails { download: after.download, ..before })
                    &&& after.download matches Some(details) && are_details(
                        stats.counters,
                        local,
                        None,
                        Some(stats.throughput),
                        details,
                    )
                },
                (None, None) => true,
                _ => false,
            }
        }),
{
    let (average, samples) = record_latency_samples(latency_samples);
    let local = finalize_local_intervals(
        intervals,
        settings.download_seconds,
        stats.bytes,
        speed,
    );
    state.result.download_latency_ns = average;
    state.sdk_artifacts.download_latency_samples_ns = samples;
    state.result.download = Some(
        build_benchmark_result(
            speed,
            stats.bytes,
            settings.download_seconds,
            clamp_worker_count(settings.download_connections),
            Some(stats.actual_duration_ms),
            Some(&stats.throughput),
        ),
    );
    state.sdk_artifacts.download_intervals = Some(copy_intervals(&local));
    if state.result.details.is_some() {
        let built = build_direction_details(stats.counters, local, None, Some(&stats.throughput));
        let details = state.result.details.take();
        if let Some(mut details) = details {
            details.download = Some(built);
            state.result.details = Some(details);
        }
    }
    apply_download_stats_to_server_pool(&mut state.result.server_pool, &stats.per_server);
    EngineEvent::StageResult {
        stage: EngineStage::Download,
        mbps: speed.mbps,
        bytes: stats.bytes,
    }
}

/// The upload stage is over. `speed` is the speed of its outcome, `remote_speeds` are those of the
/// reports of the server, in their order, and `latency_samples` are the readings that were taken
/// meanwhile.
pub fn finish_upload_stage(
    state: &mut EngineState,
    settings: &EngineSettings,
    stats: &UploadStats,
    speed: Speed,
    remote_speeds: &Vec<Speed>,
    intervals: Vec<ThroughputInterval>,
    latency_samples: Vec<i64>,
) -> (event: EngineEvent)
    requires
        forall|i: int| 0 <= i < latency_samples.len() ==> 0 <= #[trigger] latency_samples[i],
        remote_speeds.len() == stats.remote_samples.len(),
    ensures
        event == (EngineEvent::StageResult {
            stage: EngineStage::Upload,
            mbps: speed.mbps,
            bytes: stats.bytes,
        }),
        keeps_but_upload(*old(state), *final(state)),
        ({
            let local = closed_intervals(intervals@, settings.upload_seconds, stats.bytes, speed);
            let remote = some_intervals(
                remote_intervals(
                    stats.remote_samples@,
                    remote_speeds@,
                    settings.upload_seconds,
                ),
            );
            &&& final(state).result.upload == Some(
                BenchmarkResult {
                    mbps: speed.mbps,
                    bps: speed.bps,
                    bytes: stats.bytes,
                    duration_seconds: settings.upload_seconds,
                    connections: clamped_workers(settings.upload_connections as int) as usize,
                    actual_duration_ms: None,
                    average: None,
                    mst: None,
                },
            )
            &&& final(state).result.upload_latency_ns == average_ns(latency_samples@)
            &&& seen(final(state).sdk_artifacts.upload_latency_samples_ns) == some_readings(
                latency_samples@,
            )
            &&& seen(final(state).sdk_artifacts.upload_intervals) == Some(local)
            &&& seen(final(state).sdk_artifacts.upload_remote_intervals) == remote
            &&& match (old(state).result.details, final(state).result.details) {
                (Some(before), Some(after)) => {
                    &&& after == (RunDetails { upload: after.upload, ..before })
                    &&& after.upload matches Some(details) && are_details(
                        stats.counters,
                        local,
                        remote,
                        None,
                        details,
                    )
                },
                (None, None) => true,
                _ => false,
            }
        }),
{
    let (average, samples) = record_latency_samples(latency_samples);
    let local = finalize_local_intervals(intervals, settings.upload_seconds, stats.bytes, speed);
    let remote = build_remote_upload_intervals(
        &stats.remote_samples,
        remote_speeds,
        settings.upload_seconds,
    );
    state.result.upload_latency_ns = average;
    state.sdk_artifacts.upload_latency_samples_ns = samples;
    state.result.upload = Some(
        build_benchmark_result(
            speed,
            stats.bytes,
            settings.upload_seconds,
            clamp_worker_count(settings.upload_connections),
            None,
            None,
        ),
    );
    state.sdk_artifacts.upload_intervals = Some(copy_intervals(&local));
    let (kept, shown): (Option<Vec<ThroughputInterval>>, Option<Vec<ThroughputInterval>>) =
        if remote.len() > 0 {
        (Some(copy_intervals(&remote)), Some(remote))
    } else {
        (None, None)
    };
    state.sdk_artifacts.upload_remote_intervals = kept;
    if state.result.details.is_some() {
        let built = build_direction_details(stats.counters, local, shown, None);
        let details = state.result.details.take();
        if let Some(mut details) = details {
            details.upload = Some(built);
            state.result.details = Some(details);
        }
    }
    EngineEvent::StageResult { stage: EngineStage::Upload, mbps: speed.mbps, bytes: stats.bytes }
}

/// The id of the report: that of the session with the server, else a new one.
pub fn report_guid(session_guid: &Option<String>, counter: u64) -> (r: String)
    ensures
        match *session_guid {
            Some(guid) => r@ == guid@,
            None => exists|now: u64| r@ == #[trigger] guid_text(counter, now),
        },
{
    match session_guid {
        Some(guid) => guid.clone(),
        None => generate_sdk_guid(counter),
    }
}

/// What happens once the report is built: it is announced, the saving ends, and with it the run.
pub fn closing_events(guid: String, hash: String) -> (r: Vec<EngineEvent>)
    ensures
        r@ == seq![
            EngineEvent::SavePayloadBuilt { guid, hash },
            EngineEvent::StageFinished(EngineStage::Save),
            EngineEvent::StageStarting(EngineStage::Finished),
            EngineEvent::StageFinished(EngineStage::Finished),
        ],
{
    let mut events: Vec<EngineEvent> = Vec::new();
    events.push(EngineEvent::SavePayloadBuilt { guid, hash });
    events.push(EngineEvent::StageFinished(EngineStage::Save));
    events.push(EngineEvent::StageStarting(EngineStage::Finished));
    events.push(EngineEvent::StageFinished(EngineStage::Finished));
    assert(events@ =~= seq![
        EngineEvent::SavePayloadBuilt { guid, hash },
        EngineEvent::StageFinished(EngineStage::Save),
        EngineEvent::StageStarting(EngineStage::Finished),
        EngineEvent::StageFinished(EngineStage::Finished),
    ]);
    events
}

/// A stage sets the figures of its own direction alone.
pub proof fn stages_keep_the_other_direction(before: EngineState, after: EngineState)
    ensures
        keeps_but_download(before, after) ==> {
            &&& after.result.upload == before.result.upload
            &&& after.result.upload_latency_ns == before.result.upload_latency_ns
            &&& after.result.server == before.result.server
            &&& after.result.client == before.result.client
            &&& after.result.ping_ns == before.result.ping_ns
            &&& after.result.jitter_us == before.result.jitter_us
            &&& after.sdk_artifacts.upload_intervals == before.sdk_artifacts.upload_intervals
        },
        keeps_but_upload(before, after) ==> {
            &&& after.result.download == before.result.download
            &&& after.result.download_latency_ns == before.result.download_latency_ns
            &&& after.result.server == before.result.server
            &&& after.result.server_pool == before.result.server_pool
            &&& after.result.client == before.result.client
            &&& after.result.ping_ns == before.result.ping_ns
            &&& after.result.jitter_us == before.result.jitter_us
            &&& after.sdk_artifacts.download_intervals == before.sdk_artifacts.download_intervals
        },
{
}

/// The average latency of a stage lies between its readings, and there is none without readings.
pub proof fn averages_need_readings(samples: Seq<i64>, low: i64, high: i64)
    requires
        samples.len() <= u64::MAX,
        0 <= low,
        forall|i: int| 0 <= i < samples.len() ==> low <= #[trigger] samples[i] <= high,
    ensures
        samples.len() == 0 ==> average_ns(samples) is None,
        samples.len() > 0 ==> (average_ns(samples) matches Some(average) && low * average.den
            <= average.num <= high * average.den && average.den == samples.len()),
{
    if samples.len() > 0 {
        the_mean_lies_between(samples, low, high);
    }
}

/// The details of a direction hold what was counted and recorded in it.
pub proof fn details_hold_what_was_recorded(
    counters: TransferCounters,
    intervals: Seq<ThroughputInterval>,
    remote: Option<Seq<ThroughputInterval>>,
    throughput: Option<ThroughputResult>,
    d: DirectionDetails,
)
    requires
        are_details(counters, intervals, remote, throughput, d),
    ensures
        d.counters == counters,
        d.intervals@ == intervals,
        remote is None ==> d.remote_intervals is None,
        remote matches Some(list) ==> d.remote_intervals is Some && d.remote_intervals->0@ == list,
        throughput is Some ==> d.mst_speeds is Some && d.mst_buckets is Some
            && d.mst_buckets->0@.len() == throughput->0.buckets_500ms@.len(),
        throughput is None ==> d.mst_speeds is None && d.mst_buckets is None,
{
}

/// Intervals are kept as they are; without any there are none to keep.
pub proof fn intervals_are_kept_where_there_are_some(intervals: Seq<ThroughputInterval>)
    ensures
        intervals.len() > 0 ==> some_intervals(intervals) == Some(intervals),
        intervals.len() == 0 ==> some_intervals(intervals) is None,
{
}

} // verus!
