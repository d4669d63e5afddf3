//! What holds of every report, in terms of the run that it reports.

use vstd::prelude::*;

use crate::model::{BenchmarkResult, RunResult, SdkArtifacts, Server, ThroughputInterval};
use crate::num::fraction::Fraction;
use crate::num::order::{all_valid, is_stable_order, occurs, stable_orders_are_sorted};
use crate::num::rate::Rate;
use crate::num::trim::ranked_speed;
use crate::num::whole::rounding_goes_to_the_nearest;
use crate::speedtest::latency::{
    kept, readings_in_range_are_kept, summaries_stay_within_the_readings, valid_ordered,
};
use crate::speedtest::sdk_payload::buckets::{
    sample_bytes, BucketRules, SdkThroughputBucket, SdkTransferSample,
};
use crate::speedtest::sdk_payload::latency::{rtt_of, PingList, SdkLatencyPayload};
use crate::speedtest::sdk_payload::prepare::{ping_text, remote_samples};
use crate::speedtest::sdk_payload::selection::{
    detail_of, is_by_ping, pinged, pings_of, run_servers, server_ping, SdkClosestPingDetail,
};
use crate::speedtest::sdk_payload::throughput::{
    advancing, average_speed, closed_buckets, closed_speeds, direction_samples, is_best_window,
    is_profile, span_speed, test_span, transfers, trimmed_speed, usable_samples,
    SdkCombinedSpeed, SdkThroughputSample, SpeedFigure,
};
use crate::speedtest::sdk_payload::util::millis_text;
use crate::speedtest::sdk_payload::{reports, SdkPayload};

verus! {

/// Whether a number of units of 125 bits per second is the nearest to a speed.
pub open spec fn are_units_of(units: Option<u64>, bps: u64) -> bool {
    units matches Some(n) && -62 <= 125 * n - bps <= 62
}

proof fn lemma_units(bps: u64, units: u64)
    requires
        units == crate::speedtest::sdk_payload::util::sdk_units(bps),
    ensures
        -62 <= 125 * units - bps <= 62,
{
    rounding_goes_to_the_nearest(bps as int, 125);
}

/// Where the server has measured the upload, its last measurement is the speed that is reported,
/// whatever came before it and whatever was measured here.
pub proof fn the_last_report_of_the_server_is_the_upload_speed(
    result: RunResult,
    artifacts: SdkArtifacts,
    guid: Seq<char>,
    client_is_v6: bool,
    average_text: Seq<char>,
    payload: SdkPayload,
    earlier: Seq<ThroughputInterval>,
    last: ThroughputInterval,
)
    requires
        reports(result, artifacts, guid, client_is_v6, average_text, payload),
        last.mbps.usable(),
        artifacts.upload_remote_intervals matches Some(list) && list@ == earlier.push(last),
    ensures
        are_units_of(payload.measurements.upload, last.bps),
        payload.measurements.upload_measurement_method@ == "remote"@,
        result.upload is Some ==> payload.measurements.upload_speeds->0.remote->0.combined
            == last.bps,
{
    let p = payload.measurements;
    assert(earlier.push(last).last() == last);
    lemma_units(last.bps, p.upload->0);
}

/// The same where only the details hold what the server has measured.
pub proof fn the_details_give_the_reports_of_the_server(
    result: RunResult,
    artifacts: SdkArtifacts,
    guid: Seq<char>,
    client_is_v6: bool,
    average_text: Seq<char>,
    payload: SdkPayload,
    earlier: Seq<ThroughputInterval>,
    last: ThroughputInterval,
)
    requires
        reports(result, artifacts, guid, client_is_v6, average_text, payload),
        last.mbps.usable(),
        artifacts.upload_remote_intervals is None,
        result.details matches Some(details) && details.upload matches Some(upload)
            && upload.remote_intervals matches Some(list) && list@ == earlier.push(last),
    ensures
        are_units_of(payload.measurements.upload, last.bps),
        payload.measurements.upload_measurement_method@ == "remote"@,
{
    assert(earlier.push(last).last() == last);
    lemma_units(last.bps, payload.measurements.upload->0);
}

/// Whether the server has measured nothing of an upload.
pub open spec fn no_reports(result: RunResult, artifacts: SdkArtifacts) -> bool {
    &&& artifacts.upload_remote_intervals is None
    &&& result.details matches Some(details) ==> (details.upload matches Some(upload)
        ==> upload.remote_intervals is None)
}

/// Where the server has measured nothing, the last interval that was measured here is the upload
/// speed, whatever came before it.
pub proof fn the_last_interval_is_the_upload_speed(
    result: RunResult,
    artifacts: SdkArtifacts,
    guid: Seq<char>,
    client_is_v6: bool,
    average_text: Seq<char>,
    payload: SdkPayload,
    earlier: Seq<ThroughputInterval>,
    last: ThroughputInterval,
)
    requires
        reports(result, artifacts, guid, client_is_v6, average_text, payload),
        result.upload is Some,
        last.mbps.usable(),
        artifacts.upload_intervals matches Some(list) && list@ == earlier.push(last),
    ensures
        payload.measurements.upload_speeds->0.local->0.combined == last.bps,
        no_reports(result, artifacts) ==> are_units_of(payload.measurements.upload, last.bps)
            && payload.measurements.upload_measurement_method@ == "local"@
            && payload.measurements.upload_speeds->0.remote is None,
{
    assert(earlier.push(last).last() == last);
    if no_reports(result, artifacts) {
        lemma_units(last.bps, payload.measurements.upload->0);
    }
}

/// Without intervals of its own a run is reported with those of the details, and without those
/// with its outcome.
pub proof fn uploads_fall_back_on_details_and_outcome(
    result: RunResult,
    artifacts: SdkArtifacts,
    guid: Seq<char>,
    client_is_v6: bool,
    average_text: Seq<char>,
    payload: SdkPayload,
)
    requires
        reports(result, artifacts, guid, client_is_v6, average_text, payload),
        result.upload is Some,
        artifacts.upload_intervals is None,
    ensures
        result.details is None ==> payload.measurements.upload_speeds->0.local->0.combined
            == result.upload->0.bps,
        result.details is None && artifacts.upload_remote_intervals is None ==> are_units_of(
            payload.measurements.upload,
            result.upload->0.bps,
        ),
        result.details matches Some(details) ==> (details.upload matches Some(upload)
            ==> upload.intervals@.len() > 0 && upload.intervals@.last().mbps.usable()
            ==> payload.measurements.upload_speeds->0.local->0.combined
            == upload.intervals@.last().bps),
{
    if result.details is None && artifacts.upload_remote_intervals is None {
        lemma_units(result.upload->0.bps, payload.measurements.upload->0);
    }
}

/// The download speed that is reported is that of its outcome.
pub proof fn the_download_speed_is_that_of_the_outcome(
    result: RunResult,
    artifacts: SdkArtifacts,
    guid: Seq<char>,
    client_is_v6: bool,
    average_text: Seq<char>,
    payload: SdkPayload,
)
    requires
        reports(result, artifacts, guid, client_is_v6, average_text, payload),
        result.download is Some,
    ensures
        are_units_of(payload.measurements.download, result.download->0.bps),
        payload.measurements.download_speeds->0.local->0.combined == result.download->0.bps,
        payload.measurements.download_speeds->0.remote is None,
{
    lemma_units(result.download->0.bps, payload.measurements.download->0);
}

proof fn lemma_kept_readings(samples: Seq<i64>)
    ensures
        forall|x: i64| #[trigger] kept(samples, 0, i64::MAX).contains(x) <==> samples.contains(x)
            && x >= 0,
{
    broadcast use vstd::seq_lib::group_to_multiset_ensures;

    let valid = kept(samples, 0, i64::MAX);
    assert forall|x: i64| #[trigger] valid.contains(x) <==> samples.contains(x) && x >= 0 by {
        readings_in_range_are_kept(samples, 0, i64::MAX, x);
        assert(valid.contains(x) <==> valid.to_multiset().count(x) > 0);
        assert(samples.contains(x) <==> samples.to_multiset().count(x) > 0);
    }
}

proof fn lemma_rtt_of_readings(samples: Seq<i64>)
    requires
        samples.len() <= u64::MAX,
    ensures
        match rtt_of(PingList::Readings(samples)) {
            Some(rtt) => {
                &&& rtt.min.den == 1 && rtt.max.den == 1
                &&& 0 <= rtt.min.num <= rtt.max.num <= i64::MAX
                &&& samples.contains(rtt.min.num as i64)
                &&& samples.contains(rtt.max.num as i64)
                &&& forall|i: int|
                    0 <= i < samples.len() && #[trigger] samples[i] >= 0 ==> rtt.min.num
                        <= samples[i] <= rtt.max.num
                &&& rtt.min.num * rtt.mean.den <= rtt.mean.num <= rtt.max.num * rtt.mean.den
                &&& rtt.min.num * rtt.iqm.den <= rtt.iqm.num <= rtt.max.num * rtt.iqm.den
            },
            None => forall|i: int| 0 <= i < samples.len() ==> #[trigger] samples[i] < 0,
        },
        valid_ordered(samples).len() <= samples.len(),
{
    broadcast use vstd::seq_lib::group_to_multiset_ensures;

    let sorted = valid_ordered(samples);
    let valid = kept(samples, 0, i64::MAX);
    lemma_kept_readings(samples);
    assert(vstd::relations::total_ordering(crate::speedtest::latency::at_most()));
    valid.lemma_sort_by_ensures(crate::speedtest::latency::at_most());
    assert(sorted.len() == valid.len()) by {
        assert(sorted.to_multiset().len() == valid.to_multiset().len());
    }
    lemma_kept_no_longer(samples);
    if sorted.len() > 0 {
        summaries_stay_within_the_readings(samples, sorted.len() as int / 2);
    } else {
        assert forall|i: int| 0 <= i < samples.len() implies #[trigger] samples[i] < 0 by {
            assert(samples.contains(samples[i]));
            assert(!valid.contains(samples[i]));
        }
    }
}

proof fn lemma_kept_no_longer(samples: Seq<i64>)
    ensures
        kept(samples, 0, i64::MAX).len() <= samples.len(),
    decreases samples.len(),
{
    if samples.len() > 0 {
        lemma_kept_no_longer(samples.drop_last());
    }
}

/// The ping is the lowest valid reading of the selected server: one of them, and none is lower.
pub proof fn the_ping_is_the_lowest_reading(
    result: RunResult,
    artifacts: SdkArtifacts,
    guid: Seq<char>,
    client_is_v6: bool,
    average_text: Seq<char>,
    payload: SdkPayload,
    i: int,
)
    requires
        reports(result, artifacts, guid, client_is_v6, average_text, payload),
        artifacts.selected_latency_samples_ns matches Some(list) && 0 <= i < list@.len() && list@[i]
            >= 0,
    ensures
        ({
            let readings = artifacts.selected_latency_samples_ns->0@;
            let ping = payload.measurements.ping_ns;
            &&& ping.den == 1
            &&& ping.num <= readings[i]
            &&& readings.contains(ping.num as i64)
        }),
{
    let list = artifacts.selected_latency_samples_ns->0;
    let readings = list@;
    assert(readings.len() == list.len());
    let valid = kept(readings, 0, i64::MAX);
    lemma_kept_readings(readings);
    lemma_kept_no_longer(readings);
    assert(readings.contains(readings[i]));
    assert(valid.contains(readings[i]));
    let k = choose|k: int| 0 <= k < valid.len() && valid[k] == readings[i];
    lemma_rtt_of_readings(valid);
    assert(valid[k] >= 0);
    let ping = payload.measurements.ping_ns;
    assert(valid.contains(ping.num as i64));
}

/// Without readings the average of the run stands for them.
pub proof fn without_readings_the_average_is_the_ping(
    result: RunResult,
    artifacts: SdkArtifacts,
    guid: Seq<char>,
    client_is_v6: bool,
    average_text: Seq<char>,
    payload: SdkPayload,
)
    requires
        reports(result, artifacts, guid, client_is_v6, average_text, payload),
        artifacts.selected_latency_samples_ns is None,
        result.details is None,
        result.ping_ns->0.den > 0,
    ensures
        payload.measurements.ping_ns == result.ping_ns->0,
        payload.measurements.jitter_us == 0,
        payload.measurements.latency->0.rtt.mean == result.ping_ns->0,
        payload.measurements.latency->0.count == 1,
{
}

/// Whether a latency figure bounds readings: no valid one lies outside, and both bounds are read.
pub open spec fn bounds_readings(payload: Option<SdkLatencyPayload>, readings: Seq<i64>) -> bool {
    &&& payload matches Some(figure)
    &&& figure.count == readings.len()
    &&& readings.contains(figure.rtt.min.num as i64)
    &&& readings.contains(figure.rtt.max.num as i64)
    &&& figure.rtt.min.den == 1 && figure.rtt.max.den == 1
    &&& forall|i: int|
        0 <= i < readings.len() && #[trigger] readings[i] >= 0 ==> figure.rtt.min.num <= readings[i]
            <= figure.rtt.max.num
}

/// The latency of a direction is that of the readings that were taken while it ran.
pub proof fn loaded_latencies_are_those_of_the_direction(
    result: RunResult,
    artifacts: SdkArtifacts,
    guid: Seq<char>,
    client_is_v6: bool,
    average_text: Seq<char>,
    payload: SdkPayload,
    i: int,
)
    requires
        reports(result, artifacts, guid, client_is_v6, average_text, payload),
    ensures
        result.download is Some ==> (artifacts.download_latency_samples_ns matches Some(list) ==> 0
            <= i < list@.len() && list@[i] >= 0 ==> bounds_readings(
            payload.measurements.download_latency,
            list@,
        )),
        result.upload is Some ==> (artifacts.upload_latency_samples_ns matches Some(list) ==> 0 <= i
            < list@.len() && list@[i] >= 0 ==> bounds_readings(
            payload.measurements.upload_latency,
            list@,
        )),
{
    if result.download is Some && artifacts.download_latency_samples_ns is Some {
        lemma_rtt_of_readings(artifacts.download_latency_samples_ns->0@);
    }
    if result.upload is Some && artifacts.upload_latency_samples_ns is Some {
        lemma_rtt_of_readings(artifacts.upload_latency_samples_ns->0@);
    }
}

/// Where no reading was taken while a direction ran, its latency is that of the selected server.
pub proof fn unloaded_latencies_stand_in(
    result: RunResult,
    artifacts: SdkArtifacts,
    guid: Seq<char>,
    client_is_v6: bool,
    average_text: Seq<char>,
    payload: SdkPayload,
)
    requires
        reports(result, artifacts, guid, client_is_v6, average_text, payload),
        payload.measurements.latency is Some,
    ensures
        result.download is Some && artifacts.download_latency_samples_ns is None
            ==> payload.measurements.download_latency->0.rtt == payload.measurements.latency->0.rtt
            && payload.measurements.download_latency->0.samples is None,
        result.upload is Some && artifacts.upload_latency_samples_ns is None
            ==> payload.measurements.upload_latency->0.rtt == payload.measurements.latency->0.rtt
            && payload.measurements.upload_latency->0.samples is None,
        payload.measurements.latency->0.samples is Some,
{
}

/// An interval more is a sample more where its speed is a usable number, with its own figures, and
/// leaves the samples as they are where it is not.
pub proof fn usable_intervals_are_reported(
    intervals: Seq<ThroughputInterval>,
    next: ThroughputInterval,
)
    ensures
        usable_samples(Seq::<ThroughputInterval>::empty()).len() == 0,
        next.mbps.usable() ==> {
            let after = usable_samples(intervals.push(next));
            &&& after.len() == usable_samples(intervals).len() + 1
            &&& after.drop_last() == usable_samples(intervals)
            &&& after.last().elapsed_ns == next.elapsed_ns
            &&& after.last().bytes == next.bytes
            &&& after.last().bps == next.bps
            &&& after.last().mbps == next.mbps
        },
        !next.mbps.usable() ==> usable_samples(intervals.push(next)) == usable_samples(intervals),
{
    assert(intervals.push(next).drop_last() =~= intervals);
    if next.mbps.usable() {
        assert(usable_samples(intervals.push(next)).drop_last() =~= usable_samples(intervals));
    }
}

proof fn lemma_pinged(servers: Seq<Server>, fallback: Fraction)
    ensures
        forall|k: int|
            0 <= k < pinged(servers, fallback).len() ==> (#[trigger] pinged(
                servers,
                fallback,
            )[k]).ping_ns.den > 0,
        forall|i: int|
            0 <= i < servers.len() && server_ping(#[trigger] servers[i], fallback).den > 0
                ==> pinged(servers, fallback).contains(detail_of(servers[i], fallback)),
        pinged(servers, fallback).len() <= servers.len(),
    decreases servers.len(),
{
    if servers.len() > 0 {
        let before = servers.drop_last();
        lemma_pinged(before, fallback);
        let list = pinged(servers, fallback);
        let shorter = pinged(before, fallback);
        assert forall|i: int|
            0 <= i < servers.len() && server_ping(#[trigger] servers[i], fallback).den
                > 0 implies list.contains(detail_of(servers[i], fallback)) by {
            if i < before.len() {
                assert(before[i] == servers[i]);
                let k = choose|k: int|
                    0 <= k < shorter.len() && shorter[k] == detail_of(servers[i], fallback);
                assert(list[k] == shorter[k]);
            } else {
                assert(list.last() == detail_of(servers[i], fallback));
            }
        }
    }
}

/// The servers to choose from are those of the run, each with its own latency, the lowest first.
pub proof fn servers_are_listed_by_their_ping(
    result: RunResult,
    artifacts: SdkArtifacts,
    guid: Seq<char>,
    client_is_v6: bool,
    average_text: Seq<char>,
    payload: SdkPayload,
    pool: Seq<Server>,
    i: int,
)
    requires
        reports(result, artifacts, guid, client_is_v6, average_text, payload),
        result.server_pool matches Some(list) && list@ == pool,
        0 <= i < pool.len(),
        pool[i].latency_ns matches Some(ns) && ns.den > 0,
    ensures
        ({
            let list = payload.measurements.server_selection->0.closest_ping_details@;
            &&& payload.measurements.server_selection is Some
            &&& list.len() <= pool.len()
            &&& exists|k: int|
                0 <= k < list.len() && (#[trigger] list[k]).id == pool[i].id && list[k].ping_ns
                    == pool[i].latency_ns->0 && list[k].host == pool[i].host
            &&& forall|a: int, b: int|
                #![trigger list[a], list[b]]
                0 <= a < b < list.len() ==> list[a].ping_ns.num * list[b].ping_ns.den
                    <= list[b].ping_ns.num * list[a].ping_ns.den
        }),
{
    let fallback = payload.measurements.ping_ns;
    let servers = run_servers(result, result.server->0);
    assert(servers == pool);
    lemma_pinged(servers, fallback);
    let details = pinged(servers, fallback);
    assert(server_ping(servers[i], fallback).den > 0);
    assert(details.contains(detail_of(servers[i], fallback)));
    let list = payload.measurements.server_selection->0.closest_ping_details@;
    lemma_by_ping(details, list);
    let m = choose|m: int| 0 <= m < details.len() && details[m] == detail_of(servers[i], fallback);
    assert(list.contains(details[m]));
    let k = choose|k: int| 0 <= k < list.len() && list[k] == details[m];
    assert(list[k].id == pool[i].id);
}

proof fn lemma_by_ping(details: Seq<SdkClosestPingDetail>, sorted: Seq<SdkClosestPingDetail>)
    requires
        is_by_ping(details, sorted),
        forall|k: int| 0 <= k < details.len() ==> (#[trigger] details[k]).ping_ns.den > 0,
    ensures
        sorted.len() == details.len(),
        forall|m: int| 0 <= m < details.len() ==> sorted.contains(#[trigger] details[m]),
        forall|a: int, b: int|
            #![trigger sorted[a], sorted[b]]
            0 <= a < b < sorted.len() ==> sorted[a].ping_ns.num * sorted[b].ping_ns.den
                <= sorted[b].ping_ns.num * sorted[a].ping_ns.den,
{
    let keys = pings_of(details);
    let order = choose|order: Seq<usize>| #[trigger]
        is_stable_order(keys, order) && sorted == Seq::new(
            order.len(),
            |k: int| details[order[k] as int],
        );
    assert(all_valid(keys)) by {
        assert forall|k: int| 0 <= k < keys.len() implies (#[trigger] keys[k]).den > 0 by {
            assert(details[k].ping_ns.den > 0);
        }
    }
    stable_orders_are_sorted(keys, order);
    assert forall|m: int| 0 <= m < details.len() implies sorted.contains(#[trigger] details[m]) by {
        assert(occurs(order, m));
        let a = choose|a: int| 0 <= a < order.len() && #[trigger] order[a] == m;
        assert(sorted[a] == details[m]);
    }
    assert forall|a: int, b: int|
        #![trigger sorted[a], sorted[b]]
        0 <= a < b < sorted.len() implies sorted[a].ping_ns.num * sorted[b].ping_ns.den
        <= sorted[b].ping_ns.num * sorted[a].ping_ns.den by {
        let (x, y) = (order[a] as int, order[b] as int);
        assert(!keys[y].less(keys[x]));
    }
}

/// Whether samples are taken one after the other while the total does not shrink.
pub open spec fn running(samples: Seq<SdkThroughputSample>) -> bool {
    &&& forall|i: int| 0 <= i < samples.len() ==> (#[trigger] samples[i]).elapsed_ns > 0
    &&& forall|i: int, j: int|
        0 <= i < j < samples.len() ==> (#[trigger] samples[i]).elapsed_ns < (
        #[trigger] samples[j]).elapsed_ns && samples[i].bytes <= samples[j].bytes
}

proof fn lemma_running(samples: Seq<SdkThroughputSample>)
    requires
        running(samples),
    ensures
        advancing(samples) == samples,
    decreases samples.len(),
{
    if samples.len() > 0 {
        let before = samples.drop_last();
        assert(running(before));
        lemma_running(before);
        assert(samples[samples.len() - 1].elapsed_ns > 0);
        if before.len() > 0 {
            assert(samples[samples.len() - 2].elapsed_ns < samples[samples.len() - 1].elapsed_ns);
        }
        assert(advancing(samples) =~= samples);
    } else {
        assert(advancing(samples) =~= samples);
    }
}

proof fn lemma_sizes(samples: Seq<SdkThroughputSample>, upto: int)
    requires
        running(samples),
        0 <= upto <= samples.len(),
    ensures
        sample_bytes(transfers(samples).take(upto)) == if upto == 0 {
            0
        } else {
            samples[upto - 1].bytes as int
        },
    decreases upto,
{
    lemma_running(samples);
    let all = transfers(samples);
    if upto > 0 {
        lemma_sizes(samples, upto - 1);
        assert(all.take(upto).drop_last() =~= all.take(upto - 1));
        assert(all.take(upto).last() == all[upto - 1]);
        if upto > 1 {
            assert(samples[upto - 2].bytes <= samples[upto - 1].bytes);
        }
    }
}

/// The average speed of a run is all its data over all its time.
pub proof fn the_average_is_all_data_over_all_time(samples: Seq<SdkThroughputSample>)
    requires
        samples.len() > 0,
        running(samples),
    ensures
        average_speed(transfers(samples)) == Some(
            Rate {
                bytes: samples.last().bytes as u128,
                ticks: samples.last().elapsed_ns as u128,
            },
        ),
{
    lemma_running(samples);
    lemma_sizes(samples, samples.len() as int);
    let all = transfers(samples);
    assert(all.take(samples.len() as int) =~= all);
    assert(samples[samples.len() - 1].elapsed_ns > 0);
}

/// Of the buckets behind a trimmed speed the slowest and the fastest are left out, and of the
/// others the fastest are kept: the stated share of them, rounded up, and one at least. With fewer
/// than four there is none.
pub proof fn trimming_keeps_the_faster_share(speeds: Seq<Rate>, keep_num: int, keep_den: int) -> (
    low: int)
    requires
        0 < keep_num <= keep_den,
    ensures
        speeds.len() < 4 ==> trimmed_speed(speeds, keep_num, keep_den) is None,
        speeds.len() >= 4 ==> {
            let top = speeds.len() - 1;
            let share = top - low;
            &&& 1 <= low < top
            &&& trimmed_speed(speeds, keep_num, keep_den) == Some(ranked_speed(speeds, low, top))
            &&& share * keep_den >= (top - 1) * keep_num
            &&& share > 1 ==> (share - 1) * keep_den < (top - 1) * keep_num
        },
{
    let count = speeds.len() as int;
    if count < 4 {
        0
    } else {
        let middle = count - 2;
        let dropped = (middle * (keep_den - keep_num)) / keep_den;
        assert(dropped * keep_den <= middle * (keep_den - keep_num) < (dropped + 1) * keep_den)
            by (nonlinear_arith)
            requires
                keep_den > 0,
                dropped == (middle * (keep_den - keep_num)) / keep_den,
        ;
        assert(middle * (keep_den - keep_num) == middle * keep_den - middle * keep_num)
            by (nonlinear_arith);
        assert(0 <= dropped < middle) by (nonlinear_arith)
            requires
                0 < keep_num <= keep_den,
                middle >= 2,
                dropped * keep_den <= middle * keep_den - middle * keep_num,
                middle * keep_den - middle * keep_num < (dropped + 1) * keep_den,
        ;
        let low = 1 + dropped;
        let share = count - 1 - low;
        assert(share == middle - dropped);
        assert(share * keep_den == middle * keep_den - dropped * keep_den && (share - 1) * keep_den
            == middle * keep_den - (dropped + 1) * keep_den && (dropped + 1) * keep_den == dropped
            * keep_den + keep_den) by (nonlinear_arith)
            requires
                share == middle - dropped,
        ;
        low
    }
}

/// The superspeed is that of a window over the first bucket of the second half, half the test long
/// at least, and no such window is faster.
pub proof fn superspeed_windows_last_half_the_test(
    closed: Seq<SdkThroughputBucket>,
    first_good: int,
    test_duration: int,
    best: Rate,
    i: int,
    j: int,
)
    requires
        is_best_window(closed, first_good, test_duration, Some(best)),
        0 <= i <= first_good <= j < closed.len(),
        closed[j].stop->0 > closed[i].start,
        2 * (closed[j].stop->0 - closed[i].start) >= test_duration,
    ensures
        ({
            let bytes = closed[j].total - (closed[i].total - closed[i].bytes);
            let ticks = closed[j].stop->0 - closed[i].start;
            closed[i].total >= closed[i].bytes && bytes >= 0 ==> bytes * best.denominator()
                <= best.numerator() * ticks
        }),
        exists|a: int, b: int|
            #![trigger span_speed(closed, a, b)]
            0 <= a <= first_good <= b < closed.len() && closed[b].stop->0 > closed[a].start && 2 * (
            closed[b].stop->0 - closed[a].start) >= test_duration && best == span_speed(
                closed,
                a,
                b,
            ),
{
    let window = span_speed(closed, i, j);
    assert(!window.above(best));
}

/// Only buckets that have ended count.
pub proof fn open_buckets_do_not_count(buckets: Seq<SdkThroughputBucket>)
    ensures
        forall|b: SdkThroughputBucket| #[trigger] closed_buckets(buckets).contains(b)
            ==> buckets.contains(b) && b.stop is Some,
        closed_buckets(buckets).len() <= buckets.len(),
    decreases buckets.len(),
{
    if buckets.len() > 0 {
        let before = buckets.drop_last();
        open_buckets_do_not_count(before);
        let list = closed_buckets(buckets);
        let shorter = closed_buckets(before);
        assert forall|b: SdkThroughputBucket| #[trigger] list.contains(b) implies buckets.contains(
            b,
        ) && b.stop is Some by {
            let k = choose|k: int| 0 <= k < list.len() && list[k] == b;
            if k < shorter.len() {
                assert(shorter[k] == b);
                assert(shorter.contains(b));
                let m = choose|m: int| 0 <= m < before.len() && before[m] == b;
                assert(buckets[m] == b);
            } else {
                assert(buckets[buckets.len() - 1] == b);
            }
        }
    }
}

/// Every bucket that was closed after it started counts with its bytes over its own time, in order.
pub proof fn closed_buckets_count_with_their_time(
    buckets: Seq<SdkThroughputBucket>,
    next: SdkThroughputBucket,
)
    ensures
        next.stop is None ==> closed_speeds(buckets.push(next)) == closed_speeds(buckets),
        next.stop matches Some(stop) ==> stop <= next.start ==> closed_speeds(buckets.push(next))
            == closed_speeds(buckets),
        next.stop matches Some(stop) ==> stop > next.start ==> {
            let after = closed_speeds(buckets.push(next));
            &&& after.len() == closed_speeds(buckets).len() + 1
            &&& after.drop_last() == closed_speeds(buckets)
            &&& after.last().bytes == next.bytes
            &&& after.last().ticks == stop - next.start
        },
        closed_speeds(Seq::<SdkThroughputBucket>::empty()).len() == 0,
{
    assert(buckets.push(next).drop_last() =~= buckets);
    let after = closed_speeds(buckets.push(next));
    if after.len() > 0 {
        assert(after.drop_last() =~= closed_speeds(buckets) || after == closed_speeds(buckets));
    }
}

/// The intervals of the run go before those of its details, and with neither the outcome is the one
/// sample.
pub proof fn recorded_intervals_go_first(
    intervals: Option<Seq<ThroughputInterval>>,
    details: Option<Seq<ThroughputInterval>>,
    outcome: BenchmarkResult,
)
    ensures
        intervals matches Some(list) ==> usable_samples(list).len() > 0 ==> direction_samples(
            intervals,
            details,
            outcome,
        ) == usable_samples(list),
        intervals is None && details is Some && usable_samples(details->0).len() > 0
            ==> direction_samples(intervals, details, outcome) == usable_samples(details->0),
        intervals is None && details is None ==> {
            let samples = direction_samples(intervals, details, outcome);
            &&& samples.len() == 1
            &&& samples[0].bytes == outcome.bytes
            &&& samples[0].bps == outcome.bps
            &&& outcome.duration_seconds * 1_000_000_000 <= u64::MAX ==> samples[0].elapsed_ns
                == outcome.duration_seconds * 1_000_000_000
        },
{
}

/// Without movement every figure is the combined speed. Otherwise the average stands in for what
/// could not be measured, and what was measured comes from the buckets of its own length.
pub proof fn profiles_hold_the_measured_speeds(
    combined: u64,
    samples: Seq<SdkThroughputSample>,
    duration_seconds: Option<u64>,
    profile: SdkCombinedSpeed,
)
    requires
        is_profile(combined, samples, duration_seconds, profile),
    ensures
        profile.combined == combined,
        transfers(samples).len() == 0 ==> {
            &&& profile.average == SpeedFigure::Reported(combined)
            &&& profile.mst_66_20 == SpeedFigure::Reported(combined)
            &&& profile.mst_66_30 == SpeedFigure::Reported(combined)
            &&& profile.mst_75_30 == SpeedFigure::Reported(combined)
            &&& profile.superspeed == SpeedFigure::Reported(combined)
        },
        transfers(samples).len() > 0 ==> {
            let long = BucketRules {
                sample_length: 750_000_000,
                minimum_length: 600_000_000,
                test_duration: None,
            };
            let short = BucketRules {
                sample_length: 500_000_000,
                minimum_length: 500_000_000,
                test_duration: None,
            };
            let slow = closed_speeds(long.built(transfers(samples)).buckets);
            let quick = closed_speeds(short.built(transfers(samples)).buckets);
            &&& average_speed(transfers(samples)) matches Some(rate) ==> profile.average
                == SpeedFigure::Measured(rate)
            &&& slow.len() < 4 ==> profile.mst_66_20 == profile.average
            &&& quick.len() < 4 ==> profile.mst_66_30 == profile.average && profile.mst_75_30
                == profile.average
            &&& trimmed_speed(slow, 2, 3) matches Some(rate) ==> profile.mst_66_20
                == SpeedFigure::Measured(rate)
            &&& trimmed_speed(quick, 2, 3) matches Some(rate) ==> profile.mst_66_30
                == SpeedFigure::Measured(rate)
            &&& trimmed_speed(quick, 3, 4) matches Some(rate) ==> profile.mst_75_30
                == SpeedFigure::Measured(rate)
        },
{
}

/// A test spans the time that it was given, or else what was measured of it, a second at least.
pub proof fn tests_span_their_time(seconds: u64, moved: Seq<SdkTransferSample>)
    requires
        seconds * 1_000_000_000 <= u64::MAX,
        moved.len() > 0,
    ensures
        test_span(Some(seconds), moved) == seconds * 1_000_000_000,
        test_span(None, moved) >= 1_000_000_000,
        moved.last().received_at >= 1_000_000_000 ==> test_span(None, moved)
            == moved.last().received_at,
{
}

/// The ping is written out from the lowest reading that is not negative, and from the average where
/// there are no readings.
pub proof fn the_lowest_reading_is_written_out(
    samples: Seq<i64>,
    i: int,
    average: Fraction,
    average_text: Seq<char>,
) -> (lowest: i64)
    requires
        samples.len() <= u64::MAX,
        0 <= i < samples.len(),
        samples[i] >= 0,
    ensures
        ping_text(PingList::Average(average), average_text) == average_text,
        ping_text(PingList::Readings(Seq::empty()), average_text) == average_text,
        ping_text(PingList::Readings(samples), average_text) == millis_text(lowest as int),
        samples.contains(lowest),
        lowest >= 0,
        forall|k: int|
            0 <= k < samples.len() && #[trigger] samples[k] >= 0 ==> lowest <= samples[k],
{
    lemma_rtt_of_readings(samples);
    lemma_kept_readings(samples);
    let sorted = valid_ordered(samples);
    assert(samples.contains(samples[i]));
    summaries_stay_within_the_readings(samples, sorted.len() as int / 2);
    let none = Seq::<i64>::empty();
    assert(kept(none, 0, i64::MAX).len() == 0);
    lemma_rtt_of_readings(none);
    sorted[0]
}

/// A sample counts where it is later than the last one that counts, and else it is passed over.
pub proof fn samples_count_as_time_goes_on(
    samples: Seq<SdkThroughputSample>,
    next: SdkThroughputSample,
)
    ensures
        advancing(samples).len() == 0 && next.elapsed_ns > 0 ==> advancing(samples.push(next))
            == advancing(samples).push(next),
        advancing(samples).len() > 0 && next.elapsed_ns > advancing(samples).last().elapsed_ns
            ==> advancing(samples.push(next)) == advancing(samples).push(next),
        advancing(samples).len() > 0 && next.elapsed_ns <= advancing(samples).last().elapsed_ns
            ==> advancing(samples.push(next)) == advancing(samples),
        next.elapsed_ns == 0 ==> advancing(samples.push(next)) == advancing(samples),
{
    assert(samples.push(next).drop_last() =~= samples);
}

/// What the server reported is taken as it is, where any of it can be used.
pub proof fn usable_reports_are_taken(artifacts: SdkArtifacts)
    ensures
        artifacts.upload_remote_intervals matches Some(list) ==> {
            &&& usable_samples(list@).len() > 0 ==> remote_samples(artifacts) == Some(
                usable_samples(list@),
            )
            &&& usable_samples(list@).len() == 0 ==> remote_samples(artifacts) is None
        },
        artifacts.upload_remote_intervals is None ==> remote_samples(artifacts) is None,
{
}

} // verus!
