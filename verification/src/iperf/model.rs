//! The native benchmark: what is run and what comes out.

use vstd::prelude::*;

use crate::cli::IperfProtocol;
use crate::iperf::proxy::ProxySpec;
use crate::num::fraction::{mbps, mbps_from_bytes, Fraction};
use crate::num::scalar::Scalar;

verus! {

#[derive(Clone, Copy, Debug, PartialEq, Eq, Structural)]
pub enum IperfDirection {
    Upload,
    Download,
}

impl IperfDirection {
    pub open spec fn name(self) -> Seq<char> {
        match self {
            IperfDirection::Upload => "upload"@,
            IperfDirection::Download => "download"@,
        }
    }

    pub fn label(self) -> (r: &'static str)
        ensures
            r@ == self.name(),
    {
        match self {
            IperfDirection::Upload => "upload",
            IperfDirection::Download => "download",
        }
    }
}

/// The state of a benchmark at one point in time.
#[derive(Clone, Copy, Debug, PartialEq, Eq, Structural)]
pub struct IperfProgress {
    pub elapsed_ns: u64,
    pub bytes: u64,
    pub mbps: Fraction,
}

/// The progress after `elapsed_ns`. The speed is over the whole seconds, at least one.
pub fn progress_at(elapsed_ns: u64, bytes: u64) -> (r: IperfProgress)
    ensures
        r == (IperfProgress {
            elapsed_ns,
            bytes,
            mbps: mbps(
                bytes,
                if elapsed_ns / 1_000_000_000 == 0 {
                    1
                } else {
                    elapsed_ns / 1_000_000_000
                },
            ),
        }),
{
    let whole: u64 = elapsed_ns / 1_000_000_000;
    let seconds: u64 = if whole == 0 {
        1
    } else {
        whole
    };
    IperfProgress { elapsed_ns, bytes, mbps: mbps_from_bytes(bytes, seconds) }
}

/// The outcome of one direction. The packet figures are there for received datagrams only.
#[derive(Clone, Copy, Debug, PartialEq, Eq, Structural)]
pub struct IperfDirectionSummary {
    pub bytes: u64,
    pub mbps: Fraction,
    pub duration_seconds: u64,
    pub packets: Option<u64>,
    pub lost_packets: Option<u64>,
    pub loss_percent: Option<Fraction>,
    pub jitter_ms: Option<Scalar>,
    pub out_of_order: Option<u64>,
}

/// What to run.
#[derive(Debug)]
pub struct IperfClientConfig {
    pub host: String,
    pub port: u16,
    pub protocol: IperfProtocol,
    pub seconds: u64,
    pub parallel: usize,
    pub bitrate_bps: Option<u64>,
    pub proxy: Option<ProxySpec>,
}

/// The outcome of a direction over a stream.
pub fn tcp_summary(bytes: u64, seconds: u64) -> (r: IperfDirectionSummary)
    ensures
        r == (IperfDirectionSummary {
            bytes,
            mbps: mbps(bytes, seconds),
            duration_seconds: seconds,
            packets: None,
            lost_packets: None,
            loss_percent: None,
            jitter_ms: None,
            out_of_order: None,
        }),
{
    IperfDirectionSummary {
        bytes,
        mbps: mbps_from_bytes(bytes, seconds),
        duration_seconds: seconds,
        packets: None,
        lost_packets: None,
        loss_percent: None,
        jitter_ms: None,
        out_of_order: None,
    }
}

} // verus!
