//! The measurements of a report.

use vstd::prelude::*;

use crate::model::{BenchmarkResult, DirectionDetails, RunResult, SdkArtifacts, Server};
use crate::num::fraction::Fraction;
use crate::speedtest::latency::{latency_stats, valid_ordered};
use crate::speedtest::sdk_payload::latency::{
    build_latency_payload, copy_pings, is_latency_payload, measure_jitter, ping_jitter, rtt_of,
    selected_latency_samples, summarize_pings, valid_selected, PingList, Pings, SdkLatencyPayload,
};
use crate::speedtest::sdk_payload::metadata::{
    are_protocols, build_supplemental_data, infer_protocols, split_client_ips, SdkProtocols,
    SdkSupplementalData,
};
use crate::speedtest::sdk_payload::selection::{
    build_server_selection, is_by_ping, pinged, run_servers, SdkServerSelection,
};
use crate::speedtest::sdk_payload::throughput::{
    build_direction_samples, build_speed_profile, direction_samples,
    direction_samples_from_intervals, either, is_profile, local_upload, local_upload_bps,
    remote_upload, remote_upload_bps, seen, usable_samples, SdkCombinedSpeed, SdkDirectionSpeeds,
    SdkThroughputSample,
};
use crate::speedtest::sdk_payload::util::{
    bps_to_sdk_units, format_millis, hash_text, hash_with, mbps_to_bps, md5_text, millis_text,
    sdk_units,
};
use crate::speedtest::select::copy_readings;
use crate::urls::opt_view;

verus! {

/// The measurements of a report.
#[derive(Debug)]
pub struct PreparedSdkMeasurements {
    pub protocols: SdkProtocols,
    pub ping_ns: Fraction,
    pub pings: Pings,
    pub jitter_us: u128,
    pub latency: Option<SdkLatencyPayload>,
    pub download_latency: Option<SdkLatencyPayload>,
    pub upload_latency: Option<SdkLatencyPayload>,
    pub download: Option<u64>,
    pub upload: Option<u64>,
    pub download_samples: Option<Vec<SdkThroughputSample>>,
    pub upload_samples: Option<Vec<SdkThroughputSample>>,
    pub download_speeds: Option<SdkDirectionSpeeds>,
    pub upload_speeds: Option<SdkDirectionSpeeds>,
    pub server_selection: Option<SdkServerSelection>,
    pub upload_measurement_method: &'static str,
    pub clientip: Option<String>,
    pub ip6_address: Option<String>,
    pub supplemental_data: SdkSupplementalData,
    pub hash: String,
}

/// A direction has a speed that is not a finite number, or negative.
#[derive(Clone, Copy, Debug, PartialEq, Eq, Structural)]
pub struct InvalidThroughput;

/// Whether a direction, where it was run, has a speed that can be reported.
pub open spec fn reportable(direction: Option<BenchmarkResult>) -> bool {
    direction matches Some(result) ==> result.mbps.usable()
}

/// The pings of a run: the valid readings of the selected server, else its average.
pub open spec fn pings_of_run(
    result: RunResult,
    artifacts: SdkArtifacts,
    average: Fraction,
) -> PingList {
    match valid_selected(result, artifacts) {
        Some(samples) => PingList::Readings(samples),
        None => PingList::Average(average),
    }
}

/// The lowest valid ping, else the average.
pub open spec fn least_ping(pings: PingList, average: Fraction) -> Fraction {
    match rtt_of(pings) {
        Some(rtt) => rtt.min,
        None => average,
    }
}

/// The lowest valid ping in milliseconds, as it is written. `average_text` is how the average is
/// written.
pub open spec fn ping_text(pings: PingList, average_text: Seq<char>) -> Seq<char> {
    match pings {
        PingList::Readings(samples) => if valid_ordered(samples).len() > 0 {
            millis_text(valid_ordered(samples)[0] as int)
        } else {
            average_text
        },
        PingList::Average(_) => average_text,
    }
}

fn write_ping(pings: &Pings, average_text: &str) -> (r: String)
    ensures
        r@ == ping_text(pings@, average_text@),
{
    match pings {
        Pings::Readings(samples) => match latency_stats(samples) {
            Some(stats) => format_millis(stats.min as u64),
            None => average_text.to_owned(),
        },
        Pings::Average(_) => average_text.to_owned(),
    }
}

/// The readings under load, else the pings.
pub open spec fn loaded_or(samples: Option<Vec<i64>>, pings: PingList) -> PingList {
    match samples {
        Some(list) => if list.len() > 0 {
            PingList::Readings(list@)
        } else {
            pings
        },
        None => pings,
    }
}

fn choose_readings(samples: &Option<Vec<i64>>, pings: &Pings) -> (r: Pings)
    ensures
        r@ == loaded_or(*samples, pings@),
{
    match samples {
        Some(list) => if list.len() > 0 {
            Pings::Readings(copy_readings(list))
        } else {
            copy_pings(pings)
        },
        None => copy_pings(pings),
    }
}

/// Whether the payload is that of the pings, and there is none where no ping is valid.
pub open spec fn is_latency_of(
    pings: PingList,
    protocol: Seq<char>,
    include_samples: bool,
    payload: Option<SdkLatencyPayload>,
) -> bool {
    match payload {
        Some(some) => is_latency_payload(pings, protocol, include_samples, some),
        None => rtt_of(pings) is None,
    }
}

/// The speed of a direction that was run.
pub open spec fn direction_bps(direction: Option<BenchmarkResult>) -> Option<u64> {
    match direction {
        Some(result) => Some(result.bps),
        None => None,
    }
}

pub open spec fn direction_seconds(direction: Option<BenchmarkResult>) -> Option<u64> {
    match direction {
        Some(result) => Some(result.duration_seconds),
        None => None,
    }
}

/// The recorded intervals of a direction.
pub open spec fn detailed(direction: Option<DirectionDetails>) -> Option<
    Seq<crate::model::ThroughputInterval>,
> {
    match direction {
        Some(details) => Some(details.intervals@),
        None => None,
    }
}

/// Whether the profile is that of the samples, where a speed is known.
pub open spec fn is_profile_of(
    combined: Option<u64>,
    samples: Option<Seq<SdkThroughputSample>>,
    seconds: Option<u64>,
    profile: Option<SdkCombinedSpeed>,
) -> bool {
    match combined {
        Some(bps) => profile matches Some(some) && is_profile(
            bps,
            match samples {
                Some(list) => list,
                None => Seq::empty(),
            },
            seconds,
            some,
        ),
        None => profile is None,
    }
}

/// The samples of a direction that was run.
pub open spec fn samples_of(
    direction: Option<BenchmarkResult>,
    intervals: Option<Vec<crate::model::ThroughputInterval>>,
    details: Option<DirectionDetails>,
) -> Option<Seq<SdkThroughputSample>> {
    match direction {
        Some(result) => Some(direction_samples(seen(intervals), detailed(details), result)),
        None => None,
    }
}

/// The samples of the server, where any is usable.
pub open spec fn remote_samples(artifacts: SdkArtifacts) -> Option<Seq<SdkThroughputSample>> {
    match artifacts.upload_remote_intervals {
        Some(list) => if usable_samples(list@).len() > 0 {
            Some(usable_samples(list@))
        } else {
            None
        },
        None => None,
    }
}

/// The speed of the upload as it was measured here.
pub open spec fn local_bps(result: RunResult, artifacts: SdkArtifacts) -> Option<u64> {
    match result.upload {
        Some(upload) => either(local_upload(result, artifacts), Some(upload.bps)),
        None => None,
    }
}

pub open spec fn download_details(result: RunResult) -> Option<DirectionDetails> {
    match result.details {
        Some(details) => details.download,
        None => None,
    }
}

pub open spec fn upload_details(result: RunResult) -> Option<DirectionDetails> {
    match result.details {
        Some(details) => details.upload,
        None => None,
    }
}

/// The first speed that is known, in the unit of the report.
pub open spec fn reported_units(first: Option<u64>, second: Option<u64>) -> Option<int> {
    match either(first, second) {
        Some(bps) => Some(sdk_units(bps)),
        None => None,
    }
}

pub open spec fn units_view(units: Option<u64>) -> Option<int> {
    match units {
        Some(n) => Some(n as int),
        None => None,
    }
}

/// Whether the speeds of the directions are those of the run. The speed that is reported for the
/// upload is the one that the server measured, where it did.
pub open spec fn has_speeds(
    result: RunResult,
    artifacts: SdkArtifacts,
    p: PreparedSdkMeasurements,
) -> bool {
    let remote = remote_upload(result, artifacts);
    &&& seen(p.download_samples) == samples_of(
        result.download,
        artifacts.download_intervals,
        download_details(result),
    )
    &&& seen(p.upload_samples) == samples_of(
        result.upload,
        artifacts.upload_intervals,
        upload_details(result),
    )
    &&& match (result.download, p.download_speeds) {
        (Some(_), Some(speeds)) => speeds.remote is None && is_profile_of(
            direction_bps(result.download),
            seen(p.download_samples),
            direction_seconds(result.download),
            speeds.local,
        ),
        (None, None) => true,
        _ => false,
    }
    &&& match (result.upload, p.upload_speeds) {
        (Some(_), Some(speeds)) => {
            &&& is_profile_of(
                local_bps(result, artifacts),
                seen(p.upload_samples),
                direction_seconds(result.upload),
                speeds.local,
            )
            &&& is_profile_of(
                remote,
                remote_samples(artifacts),
                direction_seconds(result.upload),
                speeds.remote,
            )
        },
        (None, None) => true,
        _ => false,
    }
    &&& units_view(p.download) == reported_units(direction_bps(result.download), None)
    &&& units_view(p.upload) == reported_units(remote, local_bps(result, artifacts))
    &&& p.upload_measurement_method@ == if remote is Some {
        "remote"@
    } else {
        "local"@
    }
}

/// Whether the latencies are those of the run. Those of a direction are there only where it was
/// run.
pub open spec fn has_latencies(
    result: RunResult,
    artifacts: SdkArtifacts,
    p: PreparedSdkMeasurements,
) -> bool {
    let pings = p.pings@;
    &&& p.jitter_us == ping_jitter(pings)
    &&& is_latency_of(pings, p.protocols.latency_connection_protocol@, true, p.latency)
    &&& if result.download is Some {
        is_latency_of(
            loaded_or(artifacts.download_latency_samples_ns, pings),
            p.protocols.download_connection_protocol@,
            false,
            p.download_latency,
        )
    } else {
        p.download_latency is None
    }
    &&& if result.upload is Some {
        is_latency_of(
            loaded_or(artifacts.upload_latency_samples_ns, pings),
            p.protocols.upload_connection_protocol@,
            false,
            p.upload_latency,
        )
    } else {
        p.upload_latency is None
    }
}

/// Whether the measurements are those of the run.
pub open spec fn are_prepared(
    result: RunResult,
    artifacts: SdkArtifacts,
    server: Server,
    average: Fraction,
    average_text: Seq<char>,
    client_is_v6: bool,
    p: PreparedSdkMeasurements,
) -> bool {
    &&& are_protocols(opt_view(result.speedtest_api) == Some("tcp"@), p.protocols)
    &&& p.pings@ == pings_of_run(result, artifacts, average)
    &&& p.ping_ns == least_ping(p.pings@, average)
    &&& has_latencies(result, artifacts, p)
    &&& has_speeds(result, artifacts, p)
    &&& ({
        let details = pinged(run_servers(result, server), p.ping_ns);
        match p.server_selection {
            Some(selection) => details.len() > 0 && is_by_ping(
                details,
                selection.closest_ping_details@,
            ),
            None => details.len() == 0,
        }
    })
    &&& match result.client {
        Some(client) => opt_view(p.clientip) == Some(client.ip@) && opt_view(p.ip6_address)
            == if client_is_v6 {
            Some(client.ip@)
        } else {
            None
        },
        None => p.clientip is None && p.ip6_address is None,
    }
    &&& p.supplemental_data == (SdkSupplementalData {
        details_included: result.details is Some,
        proxy: result.proxy,
        speedtest_api: result.speedtest_api,
    })
    &&& p.hash@ == md5_text(hash_text(ping_text(p.pings@, average_text), p.upload, p.download))
}

fn direction_profile_samples(
    direction: &Option<BenchmarkResult>,
    intervals: &Option<Vec<crate::model::ThroughputInterval>>,
    details: Option<&DirectionDetails>,
) -> (r: Option<Vec<SdkThroughputSample>>)
    ensures
        seen(r) == match *direction {
            Some(result) => Some(
                direction_samples(
                    seen(*intervals),
                    match details {
                        Some(d) => Some(d.intervals@),
                        None => None,
                    },
                    result,
                ),
            ),
            None => None,
        },
{
    match direction {
        Some(result) => Some(build_direction_samples(intervals, details, result)),
        None => None,
    }
}

fn to_units(first: Option<u64>, second: Option<u64>) -> (r: Option<u64>)
    ensures
        units_view(r) == reported_units(first, second),
{
    match first {
        Some(bps) => Some(bps_to_sdk_units(bps)),
        None => match second {
            Some(bps) => Some(bps_to_sdk_units(bps)),
            None => None,
        },
    }
}

/// The measurements of a run. `average` is the average latency of its server, which
/// `average_text` gives in milliseconds.
pub fn prepare_sdk_measurements(
    result: &RunResult,
    artifacts: &SdkArtifacts,
    server: &Server,
    average: Fraction,
    average_text: &str,
    client_is_v6: bool,
) -> (r: Result<PreparedSdkMeasurements, InvalidThroughput>)
    ensures
        match r {
            Ok(p) => reportable(result.download) && reportable(result.upload) && are_prepared(
                *result,
                *artifacts,
                *server,
                average,
                average_text@,
                client_is_v6,
                p,
            ) && p.hash@.len() == 32,
            Err(_) => !reportable(result.download) || !reportable(result.upload),
        },
{
    let protocols = infer_protocols(&result.speedtest_api);
    let pings: Pings = match selected_latency_samples(result, artifacts) {
        Some(samples) => Pings::Readings(samples),
        None => Pings::Average(average),
    };
    assert(pings@ == pings_of_run(*result, *artifacts, average));
    let least: Fraction = match summarize_pings(&pings) {
        Some(rtt) => rtt.min,
        None => average,
    };
    let jitter_us: u128 = measure_jitter(&pings);
    let download_bps: Option<u64> = match &result.download {
        Some(download) => match mbps_to_bps(download) {
            Some(bps) => Some(bps),
            None => {
                return Err(InvalidThroughput);
            },
        },
        None => None,
    };
    let upload_bps: Option<u64> = match &result.upload {
        Some(upload) => match mbps_to_bps(upload) {
            Some(bps) => Some(bps),
            None => {
                return Err(InvalidThroughput);
            },
        },
        None => None,
    };
    let upload_local_bps: Option<u64> = if upload_bps.is_some() {
        match local_upload_bps(result, artifacts) {
            Some(bps) => Some(bps),
            None => upload_bps,
        }
    } else {
        None
    };
    let upload_remote_bps: Option<u64> = remote_upload_bps(result, artifacts);

    let latency = build_latency_payload(&pings, protocols.latency_connection_protocol, true);
    let download_latency = if result.download.is_some() {
        let samples = choose_readings(&artifacts.download_latency_samples_ns, &pings);
        build_latency_payload(&samples, protocols.download_connection_protocol, false)
    } else {
        None
    };
    let upload_latency = if result.upload.is_some() {
        let samples = choose_readings(&artifacts.upload_latency_samples_ns, &pings);
        build_latency_payload(&samples, protocols.upload_connection_protocol, false)
    } else {
        None
    };

    let (down_details, up_details): (Option<&DirectionDetails>, Option<&DirectionDetails>) =
        match &result.details {
        Some(details) => (details.download.as_ref(), details.upload.as_ref()),
        None => (None, None),
    };
    let download_samples = direction_profile_samples(
        &result.download,
        &artifacts.download_intervals,
        down_details,
    );
    let upload_samples = direction_profile_samples(
        &result.upload,
        &artifacts.upload_intervals,
        up_details,
    );
    let upload_remote_samples = match &artifacts.upload_remote_intervals {
        Some(intervals) => direction_samples_from_intervals(intervals),
        None => None,
    };
    let download_seconds: Option<u64> = match &result.download {
        Some(download) => Some(download.duration_seconds),
        None => None,
    };
    let upload_seconds: Option<u64> = match &result.upload {
        Some(upload) => Some(upload.duration_seconds),
        None => None,
    };
    let download_profile = build_speed_profile(
        download_bps,
        download_samples.as_ref(),
        download_seconds,
    );
    let local_profile = build_speed_profile(
        upload_local_bps,
        upload_samples.as_ref(),
        upload_seconds,
    );
    let remote_profile = build_speed_profile(
        upload_remote_bps,
        upload_remote_samples.as_ref(),
        upload_seconds,
    );
    let download: Option<u64> = to_units(download_bps, None);
    let upload: Option<u64> = to_units(upload_remote_bps, upload_local_bps);
    let upload_measurement_method: &'static str = if remote_profile.is_some() {
        "remote"
    } else {
        "local"
    };
    let (clientip, ip6_address) = match &result.client {
        Some(client) => split_client_ips(client.ip.as_str(), client_is_v6),
        None => (None, None),
    };
    let server_selection = build_server_selection(result, server, least);
    let supplemental_data = build_supplemental_data(result);
    let upload_speeds = if upload_bps.is_some() {
        Some(SdkDirectionSpeeds { local: local_profile, remote: remote_profile })
    } else {
        None
    };
    let download_speeds = if download_bps.is_some() {
        Some(SdkDirectionSpeeds { local: download_profile, remote: None })
    } else {
        None
    };
    let hash = hash_with(write_ping(&pings, average_text).as_str(), upload, download);
    Ok(
        PreparedSdkMeasurements {
            protocols,
            ping_ns: least,
            pings,
            jitter_us,
            latency,
            download_latency,
            upload_latency,
            download,
            upload,
            download_samples,
            upload_samples,
            download_speeds,
            upload_speeds,
            server_selection,
            upload_measurement_method,
            clientip,
            ip6_address,
            supplemental_data,
            hash,
        },
    )
}

} // verus!
