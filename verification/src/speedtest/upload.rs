//! The upload stage.

use vstd::prelude::*;

use crate::num::fraction::{mbps, mbps_from_bytes, Fraction};
use crate::num::whole::capped_sum;
use crate::speedtest::api::ResolvedSpeedtestApi;
use crate::speedtest::browser_protocol::upload_stats::UploadStatsSample;
use crate::speedtest::transfer_util::TransferCounters;

verus! {

/// The outcome of the stage.
#[derive(Debug)]
pub struct UploadStats {
    pub bytes: u64,
    pub mbps: Fraction,
    pub counters: TransferCounters,
    pub remote_samples: Vec<UploadStatsSample>,
}

/// The stage at one point in time.
#[derive(Clone, Copy, Debug, PartialEq, Eq, Structural)]
pub struct UploadProgress {
    pub elapsed_ns: u64,
    pub bytes: u64,
    pub mbps: Fraction,
    pub active_connections: usize,
}

/// How often the server is asked to report.
pub const REPORT_INTERVAL_MS: u64 = 50;

/// Whether the reports of the server are followed: over the modern interface, where the server
/// knows the session.
pub fn follows_reports(api: ResolvedSpeedtestApi, guid: &Option<String>) -> (r: bool)
    ensures
        r == (api == ResolvedSpeedtestApi::Modern && *guid is Some),
{
    api == ResolvedSpeedtestApi::Modern && guid.is_some()
}

/// How far behind a report of the server may be.
pub const REMOTE_LAG_MS: u64 = 750;

/// The speed over the time that a report of the server covers.
pub open spec fn remote_mbps(sample: UploadStatsSample) -> Fraction {
    Fraction {
        num: (sample.bytes * 8) as u128,
        den: (1_000 * if sample.elapsed_ms == 0 {
            1
        } else {
            sample.elapsed_ms as int
        }) as u128,
    }
}

pub fn remote_speed(sample: UploadStatsSample) -> (r: Fraction)
    ensures
        r == remote_mbps(sample),
        r.den > 0,
{
    let millis: u128 = if sample.elapsed_ms == 0 {
        1
    } else {
        sample.elapsed_ms as u128
    };
    Fraction { num: sample.bytes as u128 * 8, den: 1_000 * millis }
}

/// Whether a report is of use after `elapsed_ns`: it covers some time, and is not too far behind.
pub open spec fn is_fresh(sample: UploadStatsSample, elapsed_ns: u64) -> bool {
    sample.elapsed_ms > 0 && capped_sum(sample.elapsed_ms as int, REMOTE_LAG_MS as int)
        >= elapsed_ns / 1_000_000
}

/// What a report says of the bytes and the speed, where it is of use.
pub fn remote_sample_rate(sample: UploadStatsSample, elapsed_ns: u64) -> (r: Option<
    (u64, Fraction),
>)
    ensures
        r == if is_fresh(sample, elapsed_ns) {
            Some((sample.bytes, remote_mbps(sample)))
        } else {
            None
        },
{
    if sample.elapsed_ms == 0 {
        return None;
    }
    let wall_ms: u64 = elapsed_ns / 1_000_000;
    if sample.elapsed_ms.saturating_add(REMOTE_LAG_MS) < wall_ms {
        return None;
    }
    Some((sample.bytes, remote_speed(sample)))
}

/// The reports of the server during the stage.
#[derive(Debug)]
pub struct RemoteReports {
    pub latest: Option<UploadStatsSample>,
    pub samples: Vec<UploadStatsSample>,
}

/// Whether sample `i` covers the most time, the last of those that do.
pub open spec fn is_longest(samples: Seq<UploadStatsSample>, i: int) -> bool {
    &&& 0 <= i < samples.len()
    &&& forall|j: int|
        0 <= j < samples.len() ==> (#[trigger] samples[j]).elapsed_ms <= samples[i].elapsed_ms
    &&& forall|j: int|
        i < j < samples.len() ==> (#[trigger] samples[j]).elapsed_ms < samples[i].elapsed_ms
}

fn longest(samples: &Vec<UploadStatsSample>) -> (r: Option<usize>)
    ensures
        match r {
            Some(i) => is_longest(samples@, i as int),
            None => samples.len() == 0,
        },
{
    if samples.len() == 0 {
        return None;
    }
    let mut best: usize = 0;
    let mut i: usize = 1;
    while i < samples.len()
        invariant
            best < i <= samples.len(),
            forall|j: int|
                0 <= j < i ==> (#[trigger] samples[j]).elapsed_ms <= samples[
                    best as int
                ].elapsed_ms,
            forall|j: int|
                best < j < i ==> (#[trigger] samples[j]).elapsed_ms < samples[
                    best as int
                ].elapsed_ms,
        decreases samples.len() - i,
    {
        if samples[i].elapsed_ms >= samples[best].elapsed_ms {
            best = i;
        }
        i = i + 1;
    }
    Some(best)
}

/// The time that a report has to cover to stand for a stage of so many seconds: four fifths.
pub open spec fn covering_ms(seconds: u64) -> int {
    if seconds * 800 > u64::MAX {
        u64::MAX as int
    } else {
        seconds * 800
    }
}

/// Whether a report stands for the whole stage.
pub open spec fn is_final(samples: Seq<UploadStatsSample>, i: int, seconds: u64) -> bool {
    is_longest(samples, i) && samples[i].elapsed_ms >= covering_ms(seconds)
}

impl RemoteReports {
    pub fn new() -> (r: RemoteReports)
        ensures
            r.latest is None,
            r.samples@ == Seq::<UploadStatsSample>::empty(),
    {
        RemoteReports { latest: None, samples: Vec::new() }
    }

    /// A report has come.
    pub fn on_report(&mut self, sample: UploadStatsSample)
        ensures
            final(self).latest == Some(sample),
            final(self).samples@ == old(self).samples@.push(sample),
    {
        self.latest = Some(sample);
        self.samples.push(sample);
    }

    /// The progress to show: what the server reports where that is of use, else what was sent.
    pub fn progress(
        &self,
        elapsed_ns: u64,
        sent_bytes: u64,
        active_connections: usize,
    ) -> (r: UploadProgress)
        ensures
            r.elapsed_ns == elapsed_ns,
            r.active_connections == active_connections,
            match self.latest {
                Some(sample) if is_fresh(sample, elapsed_ns) => r.bytes == sample.bytes && r.mbps
                    == remote_mbps(sample),
                _ => r.bytes == sent_bytes && r.mbps == mbps(
                    sent_bytes,
                    if elapsed_ns / 1_000_000_000 == 0 {
                        1
                    } else {
                        elapsed_ns / 1_000_000_000
                    },
                ),
            },
    {
        let reported: Option<(u64, Fraction)> = match self.latest {
            Some(sample) => remote_sample_rate(sample, elapsed_ns),
            None => None,
        };
        match reported {
            Some((bytes, speed)) => UploadProgress {
                elapsed_ns,
                bytes,
                mbps: speed,
                active_connections,
            },
            None => {
                let whole: u64 = elapsed_ns / 1_000_000_000;
                let seconds: u64 = if whole == 0 {
                    1
                } else {
                    whole
                };
                UploadProgress {
                    elapsed_ns,
                    bytes: sent_bytes,
                    mbps: mbps_from_bytes(sent_bytes, seconds),
                    active_connections,
                }
            },
        }
    }

    /// The outcome of a stage of so many seconds: what the longest report says where it covers
    /// four fifths of the stage, else what was sent.
    pub fn finish(self, sent_bytes: u64, seconds: u64, counters: TransferCounters) -> (r:
        UploadStats)
        ensures
            r.counters == counters,
            r.remote_samples == self.samples,
            forall|i: int|
                #[trigger] is_final(self.samples@, i, seconds) ==> r.bytes == self.samples[i].bytes
                    && r.mbps == remote_mbps(self.samples[i]),
            (forall|i: int| !#[trigger] is_final(self.samples@, i, seconds)) ==> r.bytes
                == sent_bytes && r.mbps == mbps(sent_bytes, seconds),
    {
        let least_ms: u64 = if seconds > u64::MAX / 800 {
            u64::MAX
        } else {
            seconds * 800
        };
        let found: Option<usize> = longest(&self.samples);
        if let Some(i) = found {
            let sample = self.samples[i];
            if sample.elapsed_ms >= least_ms {
                assert(is_final(self.samples@, i as int, seconds));
                assert forall|j: int| #[trigger] is_final(self.samples@, j, seconds) implies j
                    == i by {
                    assert(is_longest(self.samples@, i as int));
                }
                return UploadStats {
                    bytes: sample.bytes,
                    mbps: remote_speed(sample),
                    counters,
                    remote_samples: self.samples,
                };
            }
            assert forall|j: int| !#[trigger] is_final(self.samples@, j, seconds) by {
                assert(is_longest(self.samples@, i as int));
            }
        }
        UploadStats {
            bytes: sent_bytes,
            mbps: mbps_from_bytes(sent_bytes, seconds),
            counters,
            remote_samples: self.samples,
        }
    }
}

/// A stage has at most one report that stands for it.
pub proof fn the_final_report_is_unique(
    samples: Seq<UploadStatsSample>,
    i: int,
    j: int,
    seconds: u64,
)
    requires
        is_final(samples, i, seconds),
        is_final(samples, j, seconds),
    ensures
        i == j,
{
}

/// A report of the server tells its own speed: over the time that it covers that speed makes up its
/// bytes.
pub proof fn reports_tell_their_own_speed(sample: UploadStatsSample)
    requires
        sample.elapsed_ms > 0,
    ensures
        remote_mbps(sample).den > 0,
        remote_mbps(sample).num * (1_000 * sample.elapsed_ms) == (8 * sample.bytes) * remote_mbps(
            sample,
        ).den,
{
    let m = remote_mbps(sample);
    assert(m.num * (1_000 * sample.elapsed_ms) == (8 * sample.bytes) * m.den) by (nonlinear_arith)
        requires
            m.num == 8 * sample.bytes,
            m.den == 1_000 * sample.elapsed_ms,
    ;
}

/// A report is followed while it is at most three quarters of a second behind.
pub proof fn late_reports_are_not_followed(sample: UploadStatsSample, elapsed_ns: u64)
    requires
        0 < sample.elapsed_ms < 1_000_000_000_000,
    ensures
        is_fresh(sample, elapsed_ns) <==> elapsed_ns / 1_000_000 <= sample.elapsed_ms + 750,
        !is_fresh(UploadStatsSample { elapsed_ms: 0, ..sample }, elapsed_ns),
{
}

/// A report that stands for a stage covers at least four fifths of it, and no report covers more.
pub proof fn final_reports_cover_the_stage(
    samples: Seq<UploadStatsSample>,
    i: int,
    j: int,
    seconds: u64,
)
    requires
        is_final(samples, i, seconds),
        0 <= j < samples.len(),
        seconds <= 1_000_000_000_000,
    ensures
        10 * samples[i].elapsed_ms >= 8 * (1_000 * seconds),
        samples[j].elapsed_ms <= samples[i].elapsed_ms,
        j > i ==> samples[j].elapsed_ms < samples[i].elapsed_ms,
{
}

/// A longest report that covers four fifths of the stage is the final one, also where it covers no
/// more than that.
pub proof fn covering_reports_are_final(samples: Seq<UploadStatsSample>, i: int, seconds: u64)
    requires
        is_longest(samples, i),
        seconds <= 1_000_000_000_000,
    ensures
        is_final(samples, i, seconds) <==> samples[i].elapsed_ms >= 800 * seconds,
{
}

} // verus!
