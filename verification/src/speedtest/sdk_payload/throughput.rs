//! The speed figures of a report.

use vstd::prelude::*;

use crate::model::{BenchmarkResult, DirectionDetails, RunResult, SdkArtifacts, ThroughputInterval};
use crate::num::rate::{above_is_asymmetric, above_is_transitive, Rate};
use crate::num::scalar::Scalar;
use crate::num::trim::{middle_speed, ranked_speed, word_sized};
use crate::num::whole::{greatest, least, monus};
use crate::speedtest::sdk_payload::buckets::{
    build_buckets, sample_bytes, BucketRules, SdkThroughputBucket, SdkTransferSample,
};

verus! {

/// One speed figure: the reported speed in bits per second, or data over time in nanoseconds.
#[derive(Clone, Copy, Debug, PartialEq, Eq, Structural)]
pub enum SpeedFigure {
    Reported(u64),
    Measured(Rate),
}

/// The figures of one direction.
#[derive(Clone, Copy, Debug, PartialEq, Eq, Structural)]
pub struct SdkCombinedSpeed {
    pub combined: u64,
    pub average: SpeedFigure,
    pub mst_66_20: SpeedFigure,
    pub mst_66_30: SpeedFigure,
    pub mst_75_30: SpeedFigure,
    pub superspeed: SpeedFigure,
}

/// The figures as measured here and as measured by the server.
#[derive(Clone, Copy, Debug, PartialEq, Eq, Structural)]
pub struct SdkDirectionSpeeds {
    pub local: Option<SdkCombinedSpeed>,
    pub remote: Option<SdkCombinedSpeed>,
}

/// A reported sample.
#[derive(Clone, Copy, Debug, PartialEq, Eq, Structural)]
pub struct SdkThroughputSample {
    pub elapsed_ns: u64,
    pub bytes: u64,
    pub mbps: Scalar,
    pub bps: u64,
}

/// The speed of the last interval, if its speed is a usable number.
pub open spec fn last_usable_bps(intervals: Option<Seq<ThroughputInterval>>) -> Option<u64> {
    match intervals {
        Some(list) => if list.len() > 0 && list.last().mbps.usable() {
            Some(list.last().bps)
        } else {
            None
        },
        None => None,
    }
}

fn last_bps(intervals: &Vec<ThroughputInterval>) -> (r: Option<u64>)
    ensures
        r == last_usable_bps(Some(intervals@)),
{
    if intervals.len() == 0 {
        return None;
    }
    let last = intervals[intervals.len() - 1];
    if last.mbps.is_usable() {
        Some(last.bps)
    } else {
        None
    }
}

pub open spec fn seen<T>(list: Option<Vec<T>>) -> Option<Seq<T>> {
    match list {
        Some(v) => Some(v@),
        None => None,
    }
}

/// The recorded upload intervals of a run.
pub open spec fn detailed_upload(result: RunResult) -> Option<DirectionDetails> {
    match result.details {
        Some(details) => details.upload,
        None => None,
    }
}

/// The first of two optional values that is there.
pub open spec fn either<T>(first: Option<T>, second: Option<T>) -> Option<T> {
    match first {
        Some(v) => Some(v),
        None => second,
    }
}

/// The upload speed that the server measured: from the artifacts, else from the details.
pub open spec fn remote_upload(result: RunResult, artifacts: SdkArtifacts) -> Option<u64> {
    either(
        last_usable_bps(seen(artifacts.upload_remote_intervals)),
        match detailed_upload(result) {
            Some(upload) => last_usable_bps(seen(upload.remote_intervals)),
            None => None,
        },
    )
}

/// The upload speed that was measured here: from the artifacts, else from the details.
pub open spec fn local_upload(result: RunResult, artifacts: SdkArtifacts) -> Option<u64> {
    either(
        last_usable_bps(seen(artifacts.upload_intervals)),
        match detailed_upload(result) {
            Some(upload) => last_usable_bps(Some(upload.intervals@)),
            None => None,
        },
    )
}

pub fn remote_upload_bps(result: &RunResult, artifacts: &SdkArtifacts) -> (r: Option<u64>)
    ensures
        r == remote_upload(*result, *artifacts),
{
    if let Some(intervals) = &artifacts.upload_remote_intervals {
        let last = last_bps(intervals);
        if last.is_some() {
            return last;
        }
    }
    if let Some(details) = &result.details {
        if let Some(upload) = &details.upload {
            if let Some(intervals) = &upload.remote_intervals {
                return last_bps(intervals);
            }
        }
    }
    None
}

pub fn local_upload_bps(result: &RunResult, artifacts: &SdkArtifacts) -> (r: Option<u64>)
    ensures
        r == local_upload(*result, *artifacts),
{
    if let Some(intervals) = &artifacts.upload_intervals {
        let last = last_bps(intervals);
        if last.is_some() {
            return last;
        }
    }
    if let Some(details) = &result.details {
        if let Some(upload) = &details.upload {
            return last_bps(&upload.intervals);
        }
    }
    None
}

pub open spec fn sample_of(interval: ThroughputInterval) -> SdkThroughputSample {
    SdkThroughputSample {
        elapsed_ns: interval.elapsed_ns,
        bytes: interval.bytes,
        mbps: interval.mbps,
        bps: interval.bps,
    }
}

/// The intervals whose speed is a usable number, as samples.
pub open spec fn usable_samples(intervals: Seq<ThroughputInterval>) -> Seq<SdkThroughputSample>
    decreases intervals.len(),
{
    if intervals.len() == 0 {
        Seq::empty()
    } else if intervals.last().mbps.usable() {
        usable_samples(intervals.drop_last()).push(sample_of(intervals.last()))
    } else {
        usable_samples(intervals.drop_last())
    }
}

/// The samples of a direction: from the intervals of the artifacts, else from those of the
/// details, else a single one that stands for the whole direction.
pub open spec fn direction_samples(
    intervals: Option<Seq<ThroughputInterval>>,
    details: Option<Seq<ThroughputInterval>>,
    fallback: BenchmarkResult,
) -> Seq<SdkThroughputSample> {
    if intervals is Some && usable_samples(intervals->0).len() > 0 {
        usable_samples(intervals->0)
    } else if details is Some && usable_samples(details->0).len() > 0 {
        usable_samples(details->0)
    } else {
        seq![
            SdkThroughputSample {
                elapsed_ns: capped_product(fallback.duration_seconds as int, 1_000_000_000) as u64,
                bytes: fallback.bytes,
                mbps: fallback.mbps,
                bps: fallback.bps,
            },
        ]
    }
}

/// `a * b`, but not more than what a `u64` holds.
pub open spec fn capped_product(a: int, b: int) -> int {
    least(a * b, u64::MAX as int)
}

fn seconds_to_nanos(seconds: u64) -> (r: u64)
    ensures
        r == capped_product(seconds as int, 1_000_000_000),
{
    let wide: u128 = seconds as u128 * 1_000_000_000;
    if wide > u64::MAX as u128 {
        u64::MAX
    } else {
        wide as u64
    }
}

/// The usable intervals as samples, if there are any.
pub fn direction_samples_from_intervals(intervals: &Vec<ThroughputInterval>) -> (r: Option<
    Vec<SdkThroughputSample>,
>)
    ensures
        match r {
            Some(samples) => samples@.len() > 0 && samples@ == usable_samples(intervals@),
            None => usable_samples(intervals@).len() == 0,
        },
{
    let mut samples: Vec<SdkThroughputSample> = Vec::new();
    let mut i: usize = 0;
    assert(intervals@.take(0) =~= Seq::<ThroughputInterval>::empty());
    while i < intervals.len()
        invariant
            i <= intervals.len(),
            samples@ == usable_samples(intervals@.take(i as int)),
        decreases intervals.len() - i,
    {
        let interval = intervals[i];
        proof {
            assert(intervals@.take(i + 1).drop_last() =~= intervals@.take(i as int));
            assert(intervals@.take(i + 1).last() == interval);
        }
        if interval.mbps.is_usable() {
            samples.push(
                SdkThroughputSample {
                    elapsed_ns: interval.elapsed_ns,
                    bytes: interval.bytes,
                    mbps: interval.mbps,
                    bps: interval.bps,
                },
            );
        }
        i = i + 1;
    }
    assert(intervals@.take(i as int) =~= intervals@);
    if samples.len() == 0 {
        None
    } else {
        Some(samples)
    }
}

pub fn build_direction_samples(
    intervals: &Option<Vec<ThroughputInterval>>,
    details: Option<&DirectionDetails>,
    fallback: &BenchmarkResult,
) -> (r: Vec<SdkThroughputSample>)
    ensures
        r@ == direction_samples(
            seen(*intervals),
            match details {
                Some(d) => Some(d.intervals@),
                None => None,
            },
            *fallback,
        ),
        r@.len() > 0,
{
    if let Some(list) = intervals {
        if let Some(samples) = direction_samples_from_intervals(list) {
            return samples;
        }
    }
    if let Some(d) = details {
        if let Some(samples) = direction_samples_from_intervals(&d.intervals) {
            return samples;
        }
    }
    let mut samples: Vec<SdkThroughputSample> = Vec::new();
    samples.push(
        SdkThroughputSample {
            elapsed_ns: seconds_to_nanos(fallback.duration_seconds),
            bytes: fallback.bytes,
            mbps: fallback.mbps,
            bps: fallback.bps,
        },
    );
    assert(samples@ =~= seq![samples@[0]]);
    samples
}

/// The samples that advance the clock, in their order.
pub open spec fn advancing(samples: Seq<SdkThroughputSample>) -> Seq<SdkThroughputSample>
    decreases samples.len(),
{
    if samples.len() == 0 {
        Seq::empty()
    } else {
        let before = advancing(samples.drop_last());
        let now = samples.last().elapsed_ns;
        let latest = if before.len() == 0 {
            0
        } else {
            before.last().elapsed_ns
        };
        if now > latest {
            before.push(samples.last())
        } else {
            before
        }
    }
}

/// The transfer that ends with the `i`-th of `steps`.
pub open spec fn transfer_at(steps: Seq<SdkThroughputSample>, i: int) -> SdkTransferSample {
    let sent_at = if i == 0 {
        0
    } else {
        steps[i - 1].elapsed_ns
    };
    let sent_bytes = if i == 0 {
        0
    } else {
        steps[i - 1].bytes
    };
    SdkTransferSample {
        size: monus(steps[i].bytes as int, sent_bytes as int) as u64,
        sent_at,
        received_at: steps[i].elapsed_ns,
    }
}

/// The transfers between the samples that advance the clock.
pub open spec fn transfers(samples: Seq<SdkThroughputSample>) -> Seq<SdkTransferSample> {
    let steps = advancing(samples);
    Seq::new(steps.len(), |i: int| transfer_at(steps, i))
}

pub fn to_transfer_samples(samples: &Vec<SdkThroughputSample>) -> (r: Vec<SdkTransferSample>)
    ensures
        r@ == transfers(samples@),
{
    let mut out: Vec<SdkTransferSample> = Vec::new();
    let mut latest: u64 = 0;
    let mut sent_bytes: u64 = 0;
    let mut i: usize = 0;
    assert(samples@.take(0) =~= Seq::<SdkThroughputSample>::empty());
    while i < samples.len()
        invariant
            i <= samples.len(),
            out@ == transfers(samples@.take(i as int)),
            ({
                let steps = advancing(samples@.take(i as int));
                &&& latest == if steps.len() == 0 {
                    0
                } else {
                    steps.last().elapsed_ns
                }
                &&& sent_bytes == if steps.len() == 0 {
                    0
                } else {
                    steps.last().bytes
                }
            }),
        decreases samples.len() - i,
    {
        let sample = samples[i];
        let ghost before = advancing(samples@.take(i as int));
        proof {
            assert(samples@.take(i + 1).drop_last() =~= samples@.take(i as int));
            assert(samples@.take(i + 1).last() == sample);
        }
        if sample.elapsed_ns > latest {
            out.push(
                SdkTransferSample {
                    size: sample.bytes.saturating_sub(sent_bytes),
                    sent_at: latest,
                    received_at: sample.elapsed_ns,
                },
            );
            latest = sample.elapsed_ns;
            sent_bytes = sample.bytes;
            assert(out@ =~= transfers(samples@.take(i + 1)));
        }
        i = i + 1;
    }
    assert(samples@.take(i as int) =~= samples@);
    out
}

/// All the data over all the time, if there was any transfer.
pub open spec fn average_speed(transfers: Seq<SdkTransferSample>) -> Option<Rate> {
    if transfers.len() == 0 || transfers.last().received_at == 0 {
        None
    } else {
        Some(
            Rate {
                bytes: sample_bytes(transfers) as u128,
                ticks: transfers.last().received_at as u128,
            },
        )
    }
}

pub fn calculate_average_speed(transfers: &Vec<SdkTransferSample>) -> (r: Option<Rate>)
    ensures
        r == average_speed(transfers@),
        r matches Some(rate) ==> rate.bytes == sample_bytes(transfers@),
{
    let mut bytes: u128 = 0;
    let mut i: usize = 0;
    assert(transfers@.take(0) =~= Seq::<SdkTransferSample>::empty());
    while i < transfers.len()
        invariant
            i <= transfers.len(),
            bytes == sample_bytes(transfers@.take(i as int)),
            bytes <= i * u64::MAX,
        decreases transfers.len() - i,
    {
        proof {
            assert(transfers@.take(i + 1).drop_last() =~= transfers@.take(i as int));
            assert(transfers@.take(i + 1).last() == transfers@[i as int]);
            assert((i + 1) * u64::MAX == i * u64::MAX + u64::MAX && (i + 1) * u64::MAX <= u64::MAX
                * u64::MAX) by (nonlinear_arith)
                requires
                    i + 1 <= u64::MAX,
            ;
            assert(u64::MAX * u64::MAX <= u128::MAX) by (nonlinear_arith);
        }
        bytes = bytes + transfers[i].size as u128;
        i = i + 1;
    }
    assert(transfers@.take(i as int) =~= transfers@);
    if transfers.len() == 0 {
        return None;
    }
    let ticks: u64 = transfers[transfers.len() - 1].received_at;
    if ticks == 0 {
        return None;
    }
    Some(Rate { bytes, ticks: ticks as u128 })
}

/// The speeds of the buckets that were closed after a time of some length.
pub open spec fn closed_speeds(buckets: Seq<SdkThroughputBucket>) -> Seq<Rate>
    decreases buckets.len(),
{
    if buckets.len() == 0 {
        Seq::empty()
    } else {
        let before = closed_speeds(buckets.drop_last());
        let last = buckets.last();
        match last.stop {
            Some(stop) => if stop > last.start {
                before.push(
                    Rate { bytes: last.bytes as u128, ticks: (stop - last.start) as u128 },
                )
            } else {
                before
            },
            None => before,
        }
    }
}

fn collect_closed_speeds(buckets: &Vec<SdkThroughputBucket>) -> (r: Vec<Rate>)
    ensures
        r@ == closed_speeds(buckets@),
        word_sized(r@),
        forall|i: int| 0 <= i < r@.len() ==> (#[trigger] r@[i]).ticks > 0,
{
    let mut out: Vec<Rate> = Vec::new();
    let mut i: usize = 0;
    assert(buckets@.take(0) =~= Seq::<SdkThroughputBucket>::empty());
    while i < buckets.len()
        invariant
            i <= buckets.len(),
            out@ == closed_speeds(buckets@.take(i as int)),
            word_sized(out@),
            forall|k: int| 0 <= k < out@.len() ==> (#[trigger] out@[k]).ticks > 0,
        decreases buckets.len() - i,
    {
        let bucket = buckets[i];
        proof {
            assert(buckets@.take(i + 1).drop_last() =~= buckets@.take(i as int));
            assert(buckets@.take(i + 1).last() == bucket);
        }
        if let Some(stop) = bucket.stop {
            if stop > bucket.start {
                out.push(
                    Rate { bytes: bucket.bytes as u128, ticks: (stop - bucket.start) as u128 },
                );
            }
        }
        i = i + 1;
    }
    assert(buckets@.take(i as int) =~= buckets@);
    out
}

/// The trimmed speed. The slowest and the fastest bucket are left out, then the share of the rest
/// that is not kept, from the slow end; at least the fastest of the rest counts. Needs four closed
/// buckets.
pub open spec fn trimmed_speed(speeds: Seq<Rate>, keep_num: int, keep_den: int) -> Option<Rate> {
    let count = speeds.len() as int;
    if count < 4 {
        None
    } else {
        let dropped = ((count - 2) * (keep_den - keep_num)) / keep_den;
        Some(ranked_speed(speeds, least(1 + dropped, count - 2), count - 1))
    }
}

pub fn calculate_mst_speed(
    transfers: &Vec<SdkTransferSample>,
    rules: &BucketRules,
    keep_num: u64,
    keep_den: u64,
) -> (r: Option<Rate>)
    requires
        rules.valid(),
        0 < keep_num <= keep_den <= 1_000,
    ensures
        r == trimmed_speed(
            closed_speeds(rules.built(transfers@).buckets),
            keep_num as int,
            keep_den as int,
        ),
{
    let run = build_buckets(rules, transfers);
    let speeds = collect_closed_speeds(&run.buckets);
    let count: usize = speeds.len();
    if count < 4 {
        return None;
    }
    proof {
        assert(0 <= (count - 2) * (keep_den - keep_num) <= (count - 2) * 1000) by (nonlinear_arith)
            requires
                0 <= keep_den - keep_num <= 1000,
                count >= 4,
        ;
    }
    let dropped: u128 = ((count - 2) as u128 * ((keep_den - keep_num) as u128)) / keep_den as u128;
    let rest: u128 = (count - 2) as u128;
    let low: u128 = if dropped < rest {
        if 1 + dropped <= rest {
            1 + dropped
        } else {
            rest
        }
    } else {
        rest
    };
    let high: u128 = (count - 1) as u128;
    Some(middle_speed(&speeds, low, high))
}

/// The buckets that are closed.
pub open spec fn closed_buckets(buckets: Seq<SdkThroughputBucket>) -> Seq<SdkThroughputBucket>
    decreases buckets.len(),
{
    if buckets.len() == 0 {
        Seq::empty()
    } else if buckets.last().stop is Some {
        closed_buckets(buckets.drop_last()).push(buckets.last())
    } else {
        closed_buckets(buckets.drop_last())
    }
}

/// The speed from the start of bucket `i` to the end of bucket `j`.
pub open spec fn span_speed(closed: Seq<SdkThroughputBucket>, i: int, j: int) -> Rate {
    Rate {
        bytes: monus(
            closed[j].total as int,
            monus(closed[i].total as int, closed[i].bytes as int),
        ) as u128,
        ticks: monus(closed[j].stop->0 as int, closed[i].start as int) as u128,
    }
}

/// Whether the closed buckets `i..=j` are a window to look at: it reaches over the bucket
/// `first_good` and is at least half the test long.
pub open spec fn wide_window(
    closed: Seq<SdkThroughputBucket>,
    first_good: int,
    test_duration: int,
    i: int,
    j: int,
) -> bool {
    &&& 0 <= i <= first_good <= j < closed.len()
    &&& closed[j].stop->0 > closed[i].start
    &&& 2 * (closed[j].stop->0 - closed[i].start) >= test_duration
}

/// Whether `best` is the greatest speed over the windows, `None` where no window has any data.
pub open spec fn is_best_window(
    closed: Seq<SdkThroughputBucket>,
    first_good: int,
    test_duration: int,
    best: Option<Rate>,
) -> bool {
    let limit = match best {
        Some(rate) => rate,
        None => Rate::none(),
    };
    &&& forall|i: int, j: int|
        #![trigger span_speed(closed, i, j)]
        wide_window(closed, first_good, test_duration, i, j) ==> !span_speed(closed, i, j).above(
            limit,
        )
    &&& best matches Some(rate) ==> rate.above(Rate::none()) && exists|i: int, j: int|
        #![trigger span_speed(closed, i, j)]
        wide_window(closed, first_good, test_duration, i, j) && rate == span_speed(closed, i, j)
}

/// Whether `best` is the superspeed of the transfers.
pub open spec fn is_superspeed(
    transfers: Seq<SdkTransferSample>,
    rules: BucketRules,
    best: Option<Rate>,
) -> bool {
    let run = rules.built(transfers);
    let closed = closed_buckets(run.buckets);
    let duration = rules.test_duration->0 as int;
    if duration == 0 || run.first_good is None || run.first_good->0 >= closed.len() {
        best is None
    } else {
        is_best_window(closed, run.first_good->0, duration, best)
    }
}

fn collect_closed_buckets(buckets: &Vec<SdkThroughputBucket>) -> (r: Vec<SdkThroughputBucket>)
    ensures
        r@ == closed_buckets(buckets@),
        forall|i: int| 0 <= i < r@.len() ==> (#[trigger] r@[i]).stop is Some,
{
    let mut out: Vec<SdkThroughputBucket> = Vec::new();
    let mut i: usize = 0;
    assert(buckets@.take(0) =~= Seq::<SdkThroughputBucket>::empty());
    while i < buckets.len()
        invariant
            i <= buckets.len(),
            out@ == closed_buckets(buckets@.take(i as int)),
            forall|k: int| 0 <= k < out@.len() ==> (#[trigger] out@[k]).stop is Some,
        decreases buckets.len() - i,
    {
        let bucket = buckets[i];
        proof {
            assert(buckets@.take(i + 1).drop_last() =~= buckets@.take(i as int));
            assert(buckets@.take(i + 1).last() == bucket);
        }
        if bucket.stop.is_some() {
            out.push(bucket);
        }
        i = i + 1;
    }
    assert(buckets@.take(i as int) =~= buckets@);
    out
}

pub fn calculate_superspeed(
    transfers: &Vec<SdkTransferSample>,
    rules: &BucketRules,
) -> (best: Option<Rate>)
    requires
        rules.valid(),
        rules.test_duration is Some,
    ensures
        is_superspeed(transfers@, *rules, best),
{
    let duration: u64 = match rules.test_duration {
        Some(duration) => duration,
        None => 0,
    };
    if duration == 0 {
        return None;
    }
    let run = build_buckets(rules, transfers);
    let closed = collect_closed_buckets(&run.buckets);
    let first_good: usize = match run.first_good {
        Some(index) => index,
        None => {
            return None;
        },
    };
    if first_good >= closed.len() {
        return None;
    }
    find_best_window(&closed, first_good, duration)
}

fn find_best_window(
    closed: &Vec<SdkThroughputBucket>,
    first_good: usize,
    duration: u64,
) -> (best: Option<Rate>)
    requires
        first_good < closed.len(),
        forall|i: int| 0 <= i < closed.len() ==> (#[trigger] closed[i]).stop is Some,
    ensures
        is_best_window(closed@, first_good as int, duration as int, best),
{
    let mut best = Rate::zero();
    let ghost good = first_good as int;
    let mut i: usize = 0;
    while i <= first_good
        invariant
            first_good < closed.len(),
            good == first_good,
            i <= first_good + 1,
            forall|k: int| 0 <= k < closed.len() ==> (#[trigger] closed[k]).stop is Some,
            forall|a: int, b: int|
                #![trigger span_speed(closed@, a, b)]
                a < i && wide_window(closed@, good, duration as int, a, b) ==> !span_speed(
                    closed@,
                    a,
                    b,
                ).above(best),
            best == Rate::none() || (best.above(Rate::none()) && exists|a: int, b: int|
                #![trigger span_speed(closed@, a, b)]
                wide_window(closed@, good, duration as int, a, b) && best == span_speed(
                    closed@,
                    a,
                    b,
                )),
        decreases first_good + 1 - i,
    {
        let first = closed[i];
        let before: u64 = first.total.saturating_sub(first.bytes);
        let mut j: usize = first_good;
        while j < closed.len()
            invariant
                first_good < closed.len(),
                good == first_good,
                i <= first_good <= j <= closed.len(),
                first == closed@[i as int],
                before == monus(first.total as int, first.bytes as int),
                forall|k: int| 0 <= k < closed.len() ==> (#[trigger] closed[k]).stop is Some,
                forall|a: int, b: int|
                    #![trigger span_speed(closed@, a, b)]
                    (a < i || (a == i && b < j)) && wide_window(closed@, good, duration as int, a, b)
                        ==> !span_speed(closed@, a, b).above(best),
                best == Rate::none() || (best.above(Rate::none()) && exists|a: int, b: int|
                    #![trigger span_speed(closed@, a, b)]
                    wide_window(closed@, good, duration as int, a, b) && best == span_speed(
                        closed@,
                        a,
                        b,
                    )),
            decreases closed.len() - j,
        {
            if let Some(stop) = closed[j].stop {
                if stop > first.start && (stop - first.start) as u128 * 2 >= duration as u128 {
                    let window = Rate {
                        bytes: closed[j].total.saturating_sub(before) as u128,
                        ticks: (stop - first.start) as u128,
                    };
                    assert(window == span_speed(closed@, i as int, j as int));
                    if window.exceeds(best) {
                        let ghost older = best;
                        best = window;
                        proof {
                            above_is_asymmetric(best, older);
                            if older != Rate::none() {
                                above_is_asymmetric(older, Rate::none());
                                above_is_transitive(best, older, Rate::none());
                            }
                            assert forall|a: int, b: int|
                                #![trigger span_speed(closed@, a, b)]
                                (a < i || (a == i && b <= j)) && wide_window(
                                    closed@,
                                    good,
                                    duration as int,
                                    a,
                                    b,
                                ) implies !span_speed(closed@, a, b).above(best) by {
                                let w = span_speed(closed@, a, b);
                                if w.above(best) {
                                    above_is_transitive(w, best, older);
                                }
                                above_is_asymmetric(best, best);
                            }
                        }
                    }
                }
            }
            j = j + 1;
        }
        i = i + 1;
    }
    if best.is_positive() {
        Some(best)
    } else {
        None
    }
}

/// The buckets of 750 ms that need at least 600 ms.
pub open spec fn long_rules() -> BucketRules {
    BucketRules {
        sample_length: 750_000_000,
        minimum_length: 600_000_000,
        test_duration: None,
    }
}

/// The buckets of 500 ms.
pub open spec fn short_rules(test_duration: Option<u64>) -> BucketRules {
    BucketRules { sample_length: 500_000_000, minimum_length: 500_000_000, test_duration }
}

/// The length of the test: as configured, else up to the last transfer but at least a second.
pub open spec fn test_span(duration_seconds: Option<u64>, moved: Seq<SdkTransferSample>) -> u64 {
    match duration_seconds {
        Some(seconds) => capped_product(seconds as int, 1_000_000_000) as u64,
        None => greatest(moved.last().received_at as int, 1_000_000_000) as u64,
    }
}

pub open spec fn figure(measured: Option<Rate>, otherwise: SpeedFigure) -> SpeedFigure {
    match measured {
        Some(rate) => SpeedFigure::Measured(rate),
        None => otherwise,
    }
}

/// Whether `profile` is the speed profile of a direction that was reported with `combined` bits
/// per second. Without any transfer every figure is the reported speed; a figure that cannot be
/// calculated is the average.
pub open spec fn is_profile(
    combined: u64,
    samples: Seq<SdkThroughputSample>,
    duration_seconds: Option<u64>,
    profile: SdkCombinedSpeed,
) -> bool {
    let moved = transfers(samples);
    let reported = SpeedFigure::Reported(combined);
    let average = figure(average_speed(moved), reported);
    let short = closed_speeds(short_rules(None).built(moved).buckets);
    &&& profile.combined == combined
    &&& if moved.len() == 0 {
        &&& profile.average == reported
        &&& profile.mst_66_20 == reported
        &&& profile.mst_66_30 == reported
        &&& profile.mst_75_30 == reported
        &&& profile.superspeed == reported
    } else {
        &&& profile.average == average
        &&& profile.mst_66_20 == figure(
            trimmed_speed(closed_speeds(long_rules().built(moved).buckets), 2, 3),
            average,
        )
        &&& profile.mst_66_30 == figure(trimmed_speed(short, 2, 3), average)
        &&& profile.mst_75_30 == figure(trimmed_speed(short, 3, 4), average)
        &&& exists|best: Option<Rate>| #[trigger]
            is_superspeed(moved, short_rules(Some(test_span(duration_seconds, moved))), best)
                && profile.superspeed == figure(best, average)
    }
}

fn choose_figure(measured: Option<Rate>, otherwise: SpeedFigure) -> (r: SpeedFigure)
    ensures
        r == figure(measured, otherwise),
{
    match measured {
        Some(rate) => SpeedFigure::Measured(rate),
        None => otherwise,
    }
}

/// The speed profile of a direction, where its speed was reported at all.
pub fn build_speed_profile(
    combined_bps: Option<u64>,
    samples: Option<&Vec<SdkThroughputSample>>,
    duration_seconds: Option<u64>,
) -> (r: Option<SdkCombinedSpeed>)
    ensures
        match combined_bps {
            Some(combined) => r is Some && is_profile(
                combined,
                match samples {
                    Some(list) => list@,
                    None => Seq::empty(),
                },
                duration_seconds,
                r->0,
            ),
            None => r is None,
        },
{
    let combined: u64 = match combined_bps {
        Some(combined) => combined,
        None => {
            return None;
        },
    };
    let moved: Vec<SdkTransferSample> = match samples {
        Some(list) => to_transfer_samples(list),
        None => Vec::new(),
    };
    let ghost seen_samples = match samples {
        Some(list) => list@,
        None => Seq::empty(),
    };
    assert(moved@ =~= transfers(seen_samples));
    let reported = SpeedFigure::Reported(combined);
    if moved.len() == 0 {
        return Some(
            SdkCombinedSpeed {
                combined,
                average: reported,
                mst_66_20: reported,
                mst_66_30: reported,
                mst_75_30: reported,
                superspeed: reported,
            },
        );
    }
    let duration: u64 = match duration_seconds {
        Some(seconds) => seconds_to_nanos(seconds),
        None => {
            let last: u64 = moved[moved.len() - 1].received_at;
            if last > 1_000_000_000 {
                last
            } else {
                1_000_000_000
            }
        },
    };
    let average = choose_figure(calculate_average_speed(&moved), reported);
    let long = BucketRules {
        sample_length: 750_000_000,
        minimum_length: 600_000_000,
        test_duration: None,
    };
    let short = BucketRules {
        sample_length: 500_000_000,
        minimum_length: 500_000_000,
        test_duration: None,
    };
    let timed = BucketRules {
        sample_length: 500_000_000,
        minimum_length: 500_000_000,
        test_duration: Some(duration),
    };
    let mst_66_20 = choose_figure(calculate_mst_speed(&moved, &long, 2, 3), average);
    let mst_66_30 = choose_figure(calculate_mst_speed(&moved, &short, 2, 3), average);
    let mst_75_30 = choose_figure(calculate_mst_speed(&moved, &short, 3, 4), average);
    let best = calculate_superspeed(&moved, &timed);
    let superspeed = choose_figure(best, average);
    assert(timed == short_rules(Some(test_span(duration_seconds, moved@))));
    Some(SdkCombinedSpeed { combined, average, mst_66_20, mst_66_30, mst_75_30, superspeed })
}

} // verus!
