//! The report of a native benchmark.

use vstd::prelude::*;

use crate::cli::IperfProtocol;
use crate::iperf::model::{IperfDirection, IperfDirectionSummary};
use crate::iperf::proxy::ProxySpec;
use crate::num::fraction::Fraction;
use crate::num::scalar::Scalar;

verus! {

/// The name of the form of the report.
pub const IPERF_SCHEMA_V1: &'static str = "tunmux.iperf.v1";

#[derive(Debug)]
pub struct IperfTarget {
    pub host: String,
    pub port: u16,
}

#[derive(Clone, Copy, Debug, PartialEq, Eq, Structural)]
pub enum IperfProtocolOut {
    Tcp,
    Udp,
}

#[derive(Debug)]
pub struct IperfProxyOut {
    pub url: String,
    pub scheme: &'static str,
}

#[derive(Clone, Copy, Debug, PartialEq, Eq, Structural)]
pub struct IperfConfigOut {
    pub seconds: u64,
    pub parallel: usize,
    pub bitrate_bps: Option<u64>,
}

/// The outcome of a direction.
#[derive(Clone, Copy, Debug, PartialEq, Eq, Structural)]
pub struct IperfDirectionOut {
    pub bytes: u64,
    pub mbps: Fraction,
    pub duration_seconds: u64,
    pub packets: Option<u64>,
    pub lost_packets: Option<u64>,
    pub loss_percent: Option<Fraction>,
    pub jitter_ms: Option<Scalar>,
    pub out_of_order: Option<u64>,
}

#[derive(Clone, Copy, Debug, PartialEq, Eq, Structural)]
pub struct IperfResultsOut {
    pub upload: Option<IperfDirectionOut>,
    pub download: Option<IperfDirectionOut>,
}

/// A direction at one point in time.
#[derive(Clone, Copy, Debug, PartialEq, Eq, Structural)]
pub struct IperfIntervalOut {
    pub elapsed_ns: u64,
    pub bytes: u64,
    pub mbps: Fraction,
}

#[derive(Debug)]
pub struct IperfDirectionDetailsOut {
    pub intervals: Vec<IperfIntervalOut>,
}

#[derive(Debug)]
pub struct IperfDetailsOut {
    pub interval_seconds: u64,
    pub upload: Option<IperfDirectionDetailsOut>,
    pub download: Option<IperfDirectionDetailsOut>,
}

/// The report.
#[derive(Debug)]
pub struct IperfJsonV1 {
    pub schema: &'static str,
    pub timestamp: String,
    pub target: IperfTarget,
    pub protocol: IperfProtocolOut,
    pub proxy: Option<IperfProxyOut>,
    pub config: IperfConfigOut,
    pub results: IperfResultsOut,
    pub details: Option<IperfDetailsOut>,
}

pub open spec fn shown_protocol(protocol: IperfProtocol) -> IperfProtocolOut {
    match protocol {
        IperfProtocol::Tcp => IperfProtocolOut::Tcp,
        IperfProtocol::Udp => IperfProtocolOut::Udp,
    }
}

pub fn show_protocol(protocol: IperfProtocol) -> (r: IperfProtocolOut)
    ensures
        r == shown_protocol(protocol),
{
    match protocol {
        IperfProtocol::Tcp => IperfProtocolOut::Tcp,
        IperfProtocol::Udp => IperfProtocolOut::Udp,
    }
}

/// Whether the report names the proxy.
pub open spec fn names_proxy(proxy: Option<ProxySpec>, shown: Option<IperfProxyOut>) -> bool {
    match (proxy, shown) {
        (Some(spec), Some(out)) => out.url == spec.raw_url && out.scheme@ == spec.scheme.name(),
        (None, None) => true,
        _ => false,
    }
}

pub fn show_proxy(proxy: &Option<ProxySpec>) -> (r: Option<IperfProxyOut>)
    ensures
        names_proxy(*proxy, r),
{
    match proxy {
        Some(spec) => Some(
            IperfProxyOut { url: spec.raw_url.clone(), scheme: spec.scheme.as_str() },
        ),
        None => None,
    }
}

pub open spec fn shown_direction(summary: IperfDirectionSummary) -> IperfDirectionOut {
    IperfDirectionOut {
        bytes: summary.bytes,
        mbps: summary.mbps,
        duration_seconds: summary.duration_seconds,
        packets: summary.packets,
        lost_packets: summary.lost_packets,
        loss_percent: summary.loss_percent,
        jitter_ms: summary.jitter_ms,
        out_of_order: summary.out_of_order,
    }
}

pub fn show_direction(summary: &IperfDirectionSummary) -> (r: IperfDirectionOut)
    ensures
        r == shown_direction(*summary),
{
    IperfDirectionOut {
        bytes: summary.bytes,
        mbps: summary.mbps,
        duration_seconds: summary.duration_seconds,
        packets: summary.packets,
        lost_packets: summary.lost_packets,
        loss_percent: summary.loss_percent,
        jitter_ms: summary.jitter_ms,
        out_of_order: summary.out_of_order,
    }
}

/// The intervals with one more, which takes the place of the last where that has its time.
pub open spec fn with_iperf_interval(
    intervals: Seq<IperfIntervalOut>,
    next: IperfIntervalOut,
) -> Seq<IperfIntervalOut> {
    if intervals.len() > 0 && intervals.last().elapsed_ns == next.elapsed_ns {
        intervals.drop_last().push(next)
    } else {
        intervals.push(next)
    }
}

pub fn push_iperf_interval(
    intervals: &mut Vec<IperfIntervalOut>,
    elapsed_ns: u64,
    bytes: u64,
    mbps: Fraction,
)
    ensures
        final(intervals)@ == with_iperf_interval(
            old(intervals)@,
            IperfIntervalOut { elapsed_ns, bytes, mbps },
        ),
{
    let next = IperfIntervalOut { elapsed_ns, bytes, mbps };
    let count: usize = intervals.len();
    if count > 0 && intervals[count - 1].elapsed_ns == elapsed_ns {
        intervals.set(count - 1, next);
        assert(intervals@ =~= old(intervals)@.drop_last().push(next));
        return ;
    }
    intervals.push(next);
}

/// The directions to run: the upload first.
pub open spec fn directions(upload_only: bool, download_only: bool) -> Seq<IperfDirection> {
    if upload_only {
        seq![IperfDirection::Upload]
    } else if download_only {
        seq![IperfDirection::Download]
    } else {
        seq![IperfDirection::Upload, IperfDirection::Download]
    }
}

pub fn list_directions(upload_only: bool, download_only: bool) -> (r: Vec<IperfDirection>)
    ensures
        r@ == directions(upload_only, download_only),
{
    let mut out: Vec<IperfDirection> = Vec::new();
    if upload_only || !download_only {
        out.push(IperfDirection::Upload);
    }
    if !upload_only {
        out.push(IperfDirection::Download);
    }
    assert(out@ =~= directions(upload_only, download_only));
    out
}

/// Noting an interval keeps the earlier ones, and puts it last. It replaces one only where that has
/// its time.
pub proof fn earlier_intervals_are_kept(intervals: Seq<IperfIntervalOut>, next: IperfIntervalOut)
    ensures
        ({
            let after = with_iperf_interval(intervals, next);
            &&& after.len() > 0 && after.last() == next
            &&& intervals.len() > 0 && intervals.last().elapsed_ns == next.elapsed_ns
                ==> after.len() == intervals.len()
            &&& intervals.len() == 0 || intervals.last().elapsed_ns != next.elapsed_ns
                ==> after.len() == intervals.len() + 1
            &&& forall|i: int|
                0 <= i < after.len() - 1 ==> #[trigger] after[i] == intervals[i]
        }),
{
}

/// A direction runs unless only the other one is asked for, and the upload comes first.
pub proof fn directions_run_unless_left_out(upload_only: bool, download_only: bool)
    requires
        !(upload_only && download_only),
    ensures
        ({
            let list = directions(upload_only, download_only);
            &&& list.contains(IperfDirection::Upload) <==> !download_only
            &&& list.contains(IperfDirection::Download) <==> !upload_only
            &&& list.no_duplicates()
            &&& list.len() == 2 ==> list[0] == IperfDirection::Upload
        }),
{
    let list = directions(upload_only, download_only);
    if upload_only {
        assert(list[0] == IperfDirection::Upload);
    } else if download_only {
        assert(list[0] == IperfDirection::Download);
    } else {
        assert(list[0] == IperfDirection::Upload && list[1] == IperfDirection::Download);
    }
}

/// A direction is reported with its own figures.
pub proof fn directions_are_shown_with_their_figures(summary: IperfDirectionSummary)
    ensures
        ({
            let out = shown_direction(summary);
            &&& out.bytes == summary.bytes
            &&& out.mbps == summary.mbps
            &&& out.duration_seconds == summary.duration_seconds
            &&& out.packets == summary.packets
            &&& out.lost_packets == summary.lost_packets
            &&& out.loss_percent == summary.loss_percent
            &&& out.jitter_ms == summary.jitter_ms
            &&& out.out_of_order == summary.out_of_order
        }),
{
}

/// A proxy is shown by its URL and the name of its protocol, and none where none is used.
pub proof fn proxies_are_shown_by_their_url(
    proxy: Option<ProxySpec>,
    shown: Option<IperfProxyOut>,
)
    requires
        names_proxy(proxy, shown),
    ensures
        proxy is Some <==> shown is Some,
        proxy matches Some(spec) ==> shown->0.url@ == spec.raw_url@ && shown->0.scheme@
            == spec.scheme.name(),
{
}

} // verus!
