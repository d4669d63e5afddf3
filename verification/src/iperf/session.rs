//! A native benchmark from its arguments to its report.

use vstd::prelude::*;

use crate::cli::IperfArgs;
use crate::clock::{current_timestamp, is_timestamp};
use crate::iperf::model::{IperfClientConfig, IperfDirection, IperfDirectionSummary};
use crate::iperf::proxy::{ensure_compatible, incompatibility, ProxyError, ProxySpec};
use crate::iperf::schema::{
    names_proxy, push_iperf_interval, show_direction, show_protocol, show_proxy,
    shown_direction, shown_protocol, with_iperf_interval, IperfConfigOut, IperfDetailsOut,
    IperfDirectionDetailsOut, IperfDirectionOut, IperfIntervalOut, IperfJsonV1, IperfResultsOut,
    IperfTarget, IPERF_SCHEMA_V1,
};
use crate::iperf::servers::IperfServerCandidate;
use crate::num::fraction::Fraction;
use crate::speedtest::engine::{clamp_to_stage, within_stage};
use crate::speedtest::sdk_payload::throughput::capped_product;
use crate::text::{decimal, to_decimal};

verus! {

/// How often the progress of a direction is noted where details are asked for.
pub const DETAILS_INTERVAL_SECONDS: u64 = 1;

/// The port of a target that is given without one.
pub const DEFAULT_TARGET_PORT: u16 = 5_201;

/// How often progress is asked for: every second for details, else as often as the display wants
/// it.
pub fn progress_interval(details: bool, display_nanos: Option<u64>) -> (r: Option<u64>)
    ensures
        r == if details {
            Some((DETAILS_INTERVAL_SECONDS * 1_000_000_000) as u64)
        } else {
            display_nanos
        },
{
    if details {
        Some(DETAILS_INTERVAL_SECONDS * 1_000_000_000)
    } else {
        display_nanos
    }
}

/// Whether there is a display.
pub fn wants_display(json: bool, no_progress: bool) -> (r: bool)
    ensures
        r == (!json && !no_progress),
{
    !json && !no_progress
}

/// The candidates to probe: as many of the first as are asked for.
pub fn limit_candidates(
    candidates: &mut Vec<IperfServerCandidate>,
    limit: usize,
)
    ensures
        final(candidates)@ == if limit < old(candidates).len() {
            old(candidates)@.take(limit as int)
        } else {
            old(candidates)@
        },
{
    if limit < candidates.len() {
        candidates.truncate(limit);
    }
}

/// The label of a selected server: where it is, how fast it answers, and what the list says of it.
pub open spec fn selected_text(
    host: Seq<char>,
    port: u16,
    latency: Seq<char>,
    region: Option<String>,
    localization: Option<String>,
) -> Seq<char> {
    host + seq![':'] + decimal(port as int) + " "@ + latency + "ms"@ + (match region {
        Some(text) => " ["@ + text@ + "]"@,
        None => Seq::empty(),
    }) + (match localization {
        Some(text) => " "@ + text@,
        None => Seq::empty(),
    })
}

pub fn selected_label(
    host: &str,
    port: u16,
    latency: &str,
    region: &Option<String>,
    localization: &Option<String>,
) -> (r: String)
    ensures
        r@ == selected_text(host@, port, latency@, *region, *localization),
{
    let mut out = host.to_owned();
    out.push(':');
    out.append(to_decimal(port as u64).as_str());
    out.append(" ");
    out.append(latency);
    out.append("ms");
    if let Some(text) = region {
        out.append(" [");
        out.append(text.as_str());
        out.append("]");
    }
    if let Some(text) = localization {
        out.append(" ");
        out.append(text.as_str());
    }
    assert(out@ =~= selected_text(host@, port, latency@, *region, *localization));
    out
}

/// The target that the arguments name.
pub fn named_target(args: &IperfArgs) -> (r: Result<IperfTarget, &'static str>)
    ensures
        match r {
            Ok(target) => args.host == Some(target.host) && target.port == match args.port {
                Some(port) => port,
                None => DEFAULT_TARGET_PORT,
            },
            Err(reason) => args.host is None && reason@
                == "--host is required unless --auto-server is set"@,
        },
{
    match &args.host {
        Some(host) => Ok(
            IperfTarget {
                host: host.clone(),
                port: match args.port {
                    Some(port) => port,
                    None => DEFAULT_TARGET_PORT,
                },
            },
        ),
        None => Err("--host is required unless --auto-server is set"),
    }
}

/// A benchmark that runs.
#[derive(Debug)]
pub struct IperfSession {
    pub config: IperfClientConfig,
    pub details: bool,
    pub upload: Option<IperfDirectionOut>,
    pub download: Option<IperfDirectionOut>,
    pub upload_details: Option<IperfDirectionDetailsOut>,
    pub download_details: Option<IperfDirectionDetailsOut>,
}

pub open spec fn intervals_of(details: Option<IperfDirectionDetailsOut>) -> Option<
    Seq<IperfIntervalOut>,
> {
    match details {
        Some(out) => Some(out.intervals@),
        None => None,
    }
}

/// The intervals of a direction with its outcome at its end.
pub open spec fn closed_direction(
    intervals: Seq<IperfIntervalOut>,
    seconds: u64,
    summary: IperfDirectionSummary,
) -> Seq<IperfIntervalOut> {
    with_iperf_interval(
        intervals,
        IperfIntervalOut {
            elapsed_ns: capped_product(seconds as int, 1_000_000_000) as u64,
            bytes: summary.bytes,
            mbps: summary.mbps,
        },
    )
}

impl IperfSession {
    /// Starts a benchmark of the target, where the proxy can carry its protocol.
    pub fn begin(args: &IperfArgs, target: IperfTarget, proxy: Option<ProxySpec>) -> (r: Result<
        IperfSession,
        ProxyError,
    >)
        ensures
            match r {
                Ok(session) => {
                    &&& proxy matches Some(spec) ==> incompatibility(args.protocol, spec.scheme) is None
                    &&& session.config == (IperfClientConfig {
                        host: target.host,
                        port: target.port,
                        protocol: args.protocol,
                        seconds: args.seconds,
                        parallel: args.parallel,
                        bitrate_bps: args.bitrate,
                        proxy,
                    })
                    &&& session.details == args.details
                    &&& session.upload is None
                    &&& session.download is None
                    &&& session.upload_details is None
                    &&& session.download_details is None
                },
                Err(error) => proxy matches Some(spec) && incompatibility(
                    args.protocol,
                    spec.scheme,
                ) == Some(error@),
            },
    {
        match ensure_compatible(args.protocol, proxy.as_ref()) {
            Ok(()) => {},
            Err(error) => {
                return Err(error);
            },
        }
        Ok(
            IperfSession {
                config: IperfClientConfig {
                    host: target.host,
                    port: target.port,
                    protocol: args.protocol,
                    seconds: args.seconds,
                    parallel: args.parallel,
                    bitrate_bps: args.bitrate,
                    proxy,
                },
                details: args.details,
                upload: None,
                download: None,
                upload_details: None,
                download_details: None,
            },
        )
    }

    /// Notes the progress of a direction, where details are asked for.
    pub fn on_progress(
        &self,
        intervals: &mut Vec<IperfIntervalOut>,
        elapsed_ns: u64,
        bytes: u64,
        mbps: Fraction,
    )
        ensures
            final(intervals)@ == if self.details {
                with_iperf_interval(
                    old(intervals)@,
                    IperfIntervalOut {
                        elapsed_ns: within_stage(elapsed_ns as int, self.config.seconds) as u64,
                        bytes,
                        mbps,
                    },
                )
            } else {
                old(intervals)@
            },
    {
        if self.details {
            push_iperf_interval(
                intervals,
                clamp_to_stage(elapsed_ns as u128, self.config.seconds),
                bytes,
                mbps,
            );
        }
    }

    /// A direction is over.
    pub fn on_finished(
        &mut self,
        direction: IperfDirection,
        intervals: Vec<IperfIntervalOut>,
        summary: &IperfDirectionSummary,
    )
        ensures
            final(self).config == old(self).config,
            final(self).details == old(self).details,
            ({
                let listed = if old(self).details {
                    Some(closed_direction(intervals@, old(self).config.seconds, *summary))
                } else {
                    None
                };
                match direction {
                    IperfDirection::Upload => {
                        &&& final(self).upload == Some(shown_direction(*summary))
                        &&& intervals_of(final(self).upload_details) == listed
                        &&& final(self).download == old(self).download
                        &&& final(self).download_details == old(self).download_details
                    },
                    IperfDirection::Download => {
                        &&& final(self).download == Some(shown_direction(*summary))
                        &&& intervals_of(final(self).download_details) == listed
                        &&& final(self).upload == old(self).upload
                        &&& final(self).upload_details == old(self).upload_details
                    },
                }
            }),
    {
        let details = if self.details {
            let mut listed = intervals;
            push_iperf_interval(
                &mut listed,
                clamp_to_stage(u128::MAX, self.config.seconds),
                summary.bytes,
                summary.mbps,
            );
            Some(IperfDirectionDetailsOut { intervals: listed })
        } else {
            None
        };
        match direction {
            IperfDirection::Upload => {
                self.upload = Some(show_direction(summary));
                self.upload_details = details;
            },
            IperfDirection::Download => {
                self.download = Some(show_direction(summary));
                self.download_details = details;
            },
        }
    }

    /// Whether the report is that of the benchmark.
    pub open spec fn is_reported(self, r: IperfJsonV1) -> bool {
        &&& r.schema@ == "tunmux.iperf.v1"@
        &&& r.target.host == self.config.host
        &&& r.target.port == self.config.port
        &&& r.protocol == shown_protocol(self.config.protocol)
        &&& names_proxy(self.config.proxy, r.proxy)
        &&& r.config == (IperfConfigOut {
            seconds: self.config.seconds,
            parallel: self.config.parallel,
            bitrate_bps: self.config.bitrate_bps,
        })
        &&& r.results == (IperfResultsOut { upload: self.upload, download: self.download })
        &&& match r.details {
            Some(details) => {
                &&& self.details
                &&& details.interval_seconds == DETAILS_INTERVAL_SECONDS
                &&& details.upload == self.upload_details
                &&& details.download == self.download_details
            },
            None => !self.details,
        }
    }

    /// The report, made now.
    pub fn report_now(self) -> (r: IperfJsonV1)
        ensures
            is_timestamp(r.timestamp@),
            self.is_reported(r),
    {
        let timestamp = current_timestamp();
        self.report(timestamp)
    }

    /// The report, made at the given time.
    pub fn report(self, timestamp: String) -> (r: IperfJsonV1)
        ensures
            r.timestamp == timestamp,
            self.is_reported(r),
    {
        let proxy = show_proxy(&self.config.proxy);
        let details = if self.details {
            Some(
                IperfDetailsOut {
                    interval_seconds: DETAILS_INTERVAL_SECONDS,
                    upload: self.upload_details,
                    download: self.download_details,
                },
            )
        } else {
            None
        };
        IperfJsonV1 {
            schema: IPERF_SCHEMA_V1,
            timestamp,
            target: IperfTarget { host: self.config.host, port: self.config.port },
            protocol: show_protocol(self.config.protocol),
            proxy,
            config: IperfConfigOut {
                seconds: self.config.seconds,
                parallel: self.config.parallel,
                bitrate_bps: self.config.bitrate_bps,
            },
            results: IperfResultsOut { upload: self.upload, download: self.download },
            details,
        }
    }
}

/// A direction ends with an interval up to its full time that has the figures of the whole
/// direction, and keeps the earlier ones.
pub proof fn directions_end_with_their_summary(
    intervals: Seq<IperfIntervalOut>,
    seconds: u64,
    summary: IperfDirectionSummary,
)
    requires
        seconds * 1_000_000_000 <= u64::MAX,
    ensures
        ({
            let after = closed_direction(intervals, seconds, summary);
            &&& after.len() > 0
            &&& after.last().elapsed_ns == seconds * 1_000_000_000
            &&& after.last().bytes == summary.bytes
            &&& after.last().mbps == summary.mbps
            &&& forall|i: int| 0 <= i < after.len() - 1 ==> #[trigger] after[i] == intervals[i]
            &&& intervals.len() <= after.len() <= intervals.len() + 1
        }),
{
}

/// A report tells the run as it was configured, its own figures of each direction, and the details
/// only where they are asked for.
pub proof fn reports_tell_what_was_run(session: IperfSession, report: IperfJsonV1)
    requires
        session.is_reported(report),
    ensures
        report.target.host == session.config.host,
        report.target.port == session.config.port,
        report.config.seconds == session.config.seconds,
        report.config.parallel == session.config.parallel,
        report.config.bitrate_bps == session.config.bitrate_bps,
        report.protocol == shown_protocol(session.config.protocol),
        report.results.upload == session.upload,
        report.results.download == session.download,
        report.details is Some <==> session.details,
        report.details matches Some(details) ==> details.upload == session.upload_details
            && details.download == session.download_details,
{
}

} // verus!
