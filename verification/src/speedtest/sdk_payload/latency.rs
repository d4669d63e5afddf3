//! The latency part of the report.

use vstd::prelude::*;

use crate::model::{RunResult, SdkArtifacts};
use crate::num::fraction::Fraction;
use crate::speedtest::latency::{
    calculate_jitter, jitter_micros, keep_range, kept, latency_stats, summary, valid_ordered,
};
use crate::speedtest::sdk_payload::throughput::seen;
use crate::speedtest::select::copy_readings;

verus! {

/// The pings of a run: its readings, or their average where that is all that is known.
#[derive(Debug)]
pub enum Pings {
    Readings(Vec<i64>),
    Average(Fraction),
}

/// The values of [`Pings`].
pub enum PingList {
    Readings(Seq<i64>),
    Average(Fraction),
}

impl View for Pings {
    type V = PingList;

    open spec fn view(&self) -> PingList {
        match self {
            Pings::Readings(samples) => PingList::Readings(samples@),
            Pings::Average(average) => PingList::Average(*average),
        }
    }
}

pub open spec fn pings_view(pings: Option<Pings>) -> Option<PingList> {
    match pings {
        Some(list) => Some(list@),
        None => None,
    }
}

pub fn copy_pings(pings: &Pings) -> (r: Pings)
    ensures
        r@ == pings@,
{
    match pings {
        Pings::Readings(samples) => Pings::Readings(copy_readings(samples)),
        Pings::Average(average) => Pings::Average(*average),
    }
}

/// A summary of pings, in nanoseconds.
#[derive(Clone, Copy, Debug, PartialEq, Eq, Structural)]
pub struct SdkRtt {
    pub iqm: Fraction,
    pub mean: Fraction,
    pub median: Fraction,
    pub min: Fraction,
    pub max: Fraction,
}

/// A whole number of nanoseconds.
pub open spec fn whole(ns: i64) -> Fraction {
    Fraction { num: ns as u128, den: 1 }
}

/// The summary of pings: of the valid readings, where there are any, or of one average.
pub open spec fn rtt_of(pings: PingList) -> Option<SdkRtt> {
    match pings {
        PingList::Readings(samples) => {
            let sorted = valid_ordered(samples);
            let s = summary(sorted, sorted.len() as int / 2);
            if sorted.len() > 0 {
                Some(
                    SdkRtt {
                        iqm: s.iqm,
                        mean: s.mean,
                        median: s.median,
                        min: whole(s.min),
                        max: whole(s.max),
                    },
                )
            } else {
                None
            }
        },
        PingList::Average(average) => if average.den > 0 {
            Some(
                SdkRtt { iqm: average, mean: average, median: average, min: average, max: average },
            )
        } else {
            None
        },
    }
}

pub fn summarize_pings(pings: &Pings) -> (r: Option<SdkRtt>)
    ensures
        r == rtt_of(pings@),
{
    match pings {
        Pings::Readings(samples) => match latency_stats(samples) {
            Some(s) => Some(
                SdkRtt {
                    iqm: s.iqm,
                    mean: s.mean,
                    median: s.median,
                    min: Fraction { num: s.min as u128, den: 1 },
                    max: Fraction { num: s.max as u128, den: 1 },
                },
            ),
            None => None,
        },
        Pings::Average(average) => if average.den > 0 {
            Some(
                SdkRtt {
                    iqm: *average,
                    mean: *average,
                    median: *average,
                    min: *average,
                    max: *average,
                },
            )
        } else {
            None
        },
    }
}

/// The jitter of pings in microseconds; one average has none.
pub open spec fn ping_jitter(pings: PingList) -> int {
    match pings {
        PingList::Readings(samples) => jitter_micros(samples),
        PingList::Average(_) => 0,
    }
}

pub fn measure_jitter(pings: &Pings) -> (r: u128)
    ensures
        r == ping_jitter(pings@),
{
    match pings {
        Pings::Readings(samples) => calculate_jitter(samples),
        Pings::Average(_) => 0,
    }
}

pub open spec fn ping_count(pings: PingList) -> int {
    match pings {
        PingList::Readings(samples) => samples.len() as int,
        PingList::Average(_) => 1,
    }
}

/// The latency of a connection.
#[derive(Debug)]
pub struct SdkLatencyPayload {
    pub connection_protocol: &'static str,
    pub rtt: SdkRtt,
    pub jitter_us: u128,
    pub count: usize,
    pub samples: Option<Pings>,
    pub graph_samples: Option<Pings>,
}

/// The readings of the selected server: from the artifacts, else from the details.
pub open spec fn selected_readings(result: RunResult, artifacts: SdkArtifacts) -> Option<Seq<i64>> {
    match artifacts.selected_latency_samples_ns {
        Some(samples) => Some(samples@),
        None => match result.details {
            Some(details) => seen(details.selected_server_latency.samples_ns),
            None => None,
        },
    }
}

/// The valid readings of the selected server, where there are any.
pub open spec fn valid_selected(result: RunResult, artifacts: SdkArtifacts) -> Option<Seq<i64>> {
    match selected_readings(result, artifacts) {
        Some(samples) => if kept(samples, 0, i64::MAX).len() > 0 {
            Some(kept(samples, 0, i64::MAX))
        } else {
            None
        },
        None => None,
    }
}

pub fn selected_latency_samples(result: &RunResult, artifacts: &SdkArtifacts) -> (r: Option<
    Vec<i64>,
>)
    ensures
        seen(r) == valid_selected(*result, *artifacts),
{
    let samples: &Vec<i64> = match &artifacts.selected_latency_samples_ns {
        Some(samples) => samples,
        None => match &result.details {
            Some(details) => match &details.selected_server_latency.samples_ns {
                Some(samples) => samples,
                None => {
                    return None;
                },
            },
            None => {
                return None;
            },
        },
    };
    let valid = keep_range(samples, 0, i64::MAX);
    if valid.len() == 0 {
        None
    } else {
        Some(valid)
    }
}

/// Whether the payload is that of the pings, of which at least one is valid.
pub open spec fn is_latency_payload(
    pings: PingList,
    protocol: Seq<char>,
    include_samples: bool,
    payload: SdkLatencyPayload,
) -> bool {
    &&& rtt_of(pings) == Some(payload.rtt)
    &&& payload.connection_protocol@ == protocol
    &&& payload.jitter_us == ping_jitter(pings)
    &&& payload.count == ping_count(pings)
    &&& pings_view(payload.samples) == if include_samples {
        Some(pings)
    } else {
        None
    }
    &&& pings_view(payload.graph_samples) == pings_view(payload.samples)
}

/// The latency of a connection, where at least one ping is valid.
pub fn build_latency_payload(
    pings: &Pings,
    connection_protocol: &'static str,
    include_samples: bool,
) -> (r: Option<SdkLatencyPayload>)
    ensures
        match r {
            Some(payload) => is_latency_payload(
                pings@,
                connection_protocol@,
                include_samples,
                payload,
            ),
            None => rtt_of(pings@) is None,
        },
{
    let rtt = match summarize_pings(pings) {
        Some(rtt) => rtt,
        None => {
            return None;
        },
    };
    let (listed, drawn): (Option<Pings>, Option<Pings>) = if include_samples {
        (Some(copy_pings(pings)), Some(copy_pings(pings)))
    } else {
        (None, None)
    };
    Some(
        SdkLatencyPayload {
            connection_protocol,
            rtt,
            jitter_us: measure_jitter(pings),
            count: match pings {
                Pings::Readings(samples) => samples.len(),
                Pings::Average(_) => 1,
            },
            samples: listed,
            graph_samples: drawn,
        },
    )
}

/// A latency is reported with the protocol it was measured by, the figures of its readings, and the
/// readings themselves only where they are asked for.
pub proof fn latencies_are_reported_with_their_readings(
    pings: PingList,
    protocol: Seq<char>,
    include_samples: bool,
    payload: SdkLatencyPayload,
)
    requires
        is_latency_payload(pings, protocol, include_samples, payload),
    ensures
        payload.connection_protocol@ == protocol,
        include_samples ==> pings_view(payload.samples) == Some(pings) && pings_view(
            payload.graph_samples,
        ) == Some(pings),
        !include_samples ==> pings_view(payload.samples) is None && pings_view(
            payload.graph_samples,
        ) is None,
        pings matches PingList::Average(average) ==> {
            &&& payload.count == 1
            &&& payload.jitter_us == 0
            &&& payload.rtt.min == average && payload.rtt.max == average
            &&& payload.rtt.mean == average && payload.rtt.median == average
            &&& payload.rtt.iqm == average
        },
{
}

} // verus!
