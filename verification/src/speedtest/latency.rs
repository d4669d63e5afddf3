//! Statistics over latency readings.
//!
//! A reading is a time in nanoseconds; a negative one is not valid. Averages are exact fractions.

use vstd::prelude::*;
use vstd::relations::{sorted_by, total_ordering};
use vstd::seq_lib::lemma_sorted_unique;

use crate::num::fraction::Fraction;
use crate::num::whole::{greatest, round_div, rounded_quotient, rounding_goes_to_the_nearest};

verus! {

/// A summary of latencies, in nanoseconds.
#[derive(Clone, Copy, Debug, PartialEq, Eq, Structural)]
pub struct RttSummary {
    pub iqm: Fraction,
    pub mean: Fraction,
    pub median: Fraction,
    pub min: i64,
    pub max: i64,
}

/// The readings that lie in `low..=high`, in their order.
pub open spec fn kept(samples: Seq<i64>, low: i64, high: i64) -> Seq<i64>
    decreases samples.len(),
{
    if samples.len() == 0 {
        Seq::empty()
    } else if low <= samples.last() <= high {
        kept(samples.drop_last(), low, high).push(samples.last())
    } else {
        kept(samples.drop_last(), low, high)
    }
}

proof fn lemma_kept_range(samples: Seq<i64>, low: i64, high: i64)
    ensures
        forall|i: int|
            0 <= i < kept(samples, low, high).len() ==> low <= #[trigger] kept(
                samples,
                low,
                high,
            )[i] <= high,
        kept(samples, low, high).len() <= samples.len(),
    decreases samples.len(),
{
    if samples.len() > 0 {
        lemma_kept_range(samples.drop_last(), low, high);
    }
}

pub fn keep_range(samples: &Vec<i64>, low: i64, high: i64) -> (r: Vec<i64>)
    ensures
        r@ == kept(samples@, low, high),
        forall|i: int| 0 <= i < r.len() ==> low <= #[trigger] r[i] <= high,
        r.len() <= samples.len(),
{
    let mut out: Vec<i64> = Vec::new();
    let mut i: usize = 0;
    assert(samples@.take(0) =~= Seq::<i64>::empty());
    while i < samples.len()
        invariant
            i <= samples.len(),
            out@ == kept(samples@.take(i as int), low, high),
        decreases samples.len() - i,
    {
        proof {
            assert(samples@.take(i + 1).drop_last() =~= samples@.take(i as int));
            assert(samples@.take(i + 1).last() == samples@[i as int]);
        }
        if low <= samples[i] && samples[i] <= high {
            out.push(samples[i]);
        }
        i = i + 1;
    }
    assert(samples@.take(i as int) =~= samples@);
    proof {
        lemma_kept_range(samples@, low, high);
    }
    out
}

pub open spec fn at_most() -> spec_fn(i64, i64) -> bool {
    |a: i64, b: i64| a <= b
}

/// The readings from least to greatest.
pub open spec fn ordered(samples: Seq<i64>) -> Seq<i64> {
    samples.sort_by(at_most())
}

proof fn lemma_ordered(samples: Seq<i64>, sorted: Seq<i64>)
    requires
        sorted_by(sorted, at_most()),
        sorted.to_multiset() == samples.to_multiset(),
    ensures
        sorted == ordered(samples),
{
    assert(total_ordering(at_most()));
    samples.lemma_sort_by_ensures(at_most());
    lemma_sorted_unique(sorted, ordered(samples), at_most());
}

pub fn sort_readings(samples: &Vec<i64>) -> (r: Vec<i64>)
    ensures
        r@ == ordered(samples@),
        r@.to_multiset() == samples@.to_multiset(),
        r.len() == samples.len(),
        forall|i: int, j: int| 0 <= i < j < r.len() ==> r[i] <= r[j],
{
    broadcast use vstd::seq_lib::group_to_multiset_ensures;

    let mut out: Vec<i64> = Vec::new();
    let mut i: usize = 0;
    assert(samples@.take(0) =~= out@);
    while i < samples.len()
        invariant
            i <= samples.len(),
            out.len() == i,
            out@.to_multiset() == samples@.take(i as int).to_multiset(),
            forall|a: int, b: int| 0 <= a < b < out.len() ==> out[a] <= out[b],
        decreases samples.len() - i,
    {
        broadcast use vstd::seq_lib::group_to_multiset_ensures;

        let value: i64 = samples[i];
        let mut at: usize = i;
        while at > 0 && value < out[at - 1]
            invariant
                at <= i,
                out.len() == i,
                forall|a: int| at <= a < out.len() ==> value < #[trigger] out[a],
            decreases at,
        {
            at = at - 1;
        }
        let ghost before = out@;
        out.insert(at, value);
        proof {
            vstd::seq_lib::to_multiset_insert(before, at as int, value);
            assert(samples@.take(i + 1) =~= samples@.take(i as int).push(value));
            assert forall|a: int, b: int| 0 <= a < b < out.len() implies out[a] <= out[b] by {
                let pa = if a < at {
                    a
                } else {
                    a - 1
                };
                let pb = if b < at {
                    b
                } else {
                    b - 1
                };
                if b == at {
                    assert(before[at - 1] <= value);
                    if a < at - 1 {
                        assert(before[a] <= before[at - 1]);
                    }
                } else if a == at {
                    assert(out[b] == before[b - 1]);
                } else {
                    assert(out[a] == before[pa] && out[b] == before[pb]);
                }
            }
        }
        i = i + 1;
    }
    assert(samples@.take(i as int) =~= samples@);
    proof {
        lemma_ordered(samples@, out@);
    }
    out
}

/// The sum of the readings `from..to`.
pub open spec fn span_sum(samples: Seq<i64>, from: int, to: int) -> int
    decreases to - from,
{
    if to <= from {
        0
    } else {
        span_sum(samples, from, to - 1) + samples[to - 1]
    }
}

fn sum_span(samples: &Vec<i64>, from: usize, to: usize) -> (r: u128)
    requires
        from <= to <= samples.len(),
        forall|i: int| 0 <= i < samples.len() ==> 0 <= #[trigger] samples[i],
    ensures
        r == span_sum(samples@, from as int, to as int),
        r <= (to - from) * i64::MAX,
        (to - from) * i64::MAX <= u64::MAX * i64::MAX,
{
    let mut sum: u128 = 0;
    let mut i: usize = from;
    while i < to
        invariant
            from <= i <= to <= samples.len(),
            forall|k: int| 0 <= k < samples.len() ==> 0 <= #[trigger] samples[k],
            sum == span_sum(samples@, from as int, i as int),
            sum <= (i - from) * i64::MAX,
        decreases to - i,
    {
        proof {
            assert((i + 1 - from) * i64::MAX == (i - from) * i64::MAX + i64::MAX && (i + 1 - from)
                * i64::MAX <= u64::MAX * i64::MAX) by (nonlinear_arith)
                requires
                    0 <= i - from < u64::MAX,
            ;
        }
        sum = sum + samples[i] as u128;
        i = i + 1;
    }
    proof {
        assert((to - from) * i64::MAX <= u64::MAX * i64::MAX) by (nonlinear_arith)
            requires
                0 <= to - from <= u64::MAX,
        ;
    }
    sum
}

/// All readings together over their number.
pub open spec fn mean(samples: Seq<i64>) -> Fraction {
    Fraction {
        num: span_sum(samples, 0, samples.len() as int) as u128,
        den: samples.len() as u128,
    }
}

/// The mean of the middle half of ordered readings. A reading at an edge of that half counts with
/// the quarter steps that it lies inside.
pub open spec fn interquartile_mean(sorted: Seq<i64>) -> Fraction {
    let n = sorted.len() as int;
    if n == 0 {
        Fraction { num: 0, den: 1 }
    } else if n <= 2 {
        mean(sorted)
    } else {
        let start = (n + 3) / 4;
        let end = (3 * n) / 4;
        let quarters = (3 * n) % 4;
        Fraction {
            num: (quarters * (sorted[start - 1] + sorted[end]) + 4 * span_sum(
                sorted,
                start,
                end,
            )) as u128,
            den: (2 * n) as u128,
        }
    }
}

/// The interquartile mean of ordered readings.
pub fn calculate_iqm(sorted: &Vec<i64>) -> (r: Fraction)
    requires
        forall|i: int| 0 <= i < sorted.len() ==> 0 <= #[trigger] sorted[i],
    ensures
        r == interquartile_mean(sorted@),
{
    let n: usize = sorted.len();
    if n == 0 {
        return Fraction { num: 0, den: 1 };
    }
    if n <= 2 {
        return Fraction { num: sum_span(sorted, 0, n), den: n as u128 };
    }
    let count: u128 = n as u128;
    let start: usize = ((count + 3) / 4) as usize;
    let end: usize = ((3 * count) / 4) as usize;
    let quarters: u128 = (3 * count) % 4;
    let core: u128 = sum_span(sorted, start, end);
    let edge: u128 = sorted[start - 1] as u128 + sorted[end] as u128;
    proof {
        assert(quarters * edge <= 3 * edge) by (nonlinear_arith)
            requires
                0 <= quarters <= 3,
                0 <= edge,
        ;
        assert(core <= (end - start) * i64::MAX);
        assert((end - start) * i64::MAX <= (u64::MAX / 2) * i64::MAX) by (nonlinear_arith)
            requires
                0 <= end - start <= u64::MAX / 2,
        ;
        assert(4 * ((u64::MAX / 2) * i64::MAX) + 3 * (2 * i64::MAX) <= u128::MAX)
            by (nonlinear_arith);
    }
    Fraction { num: quarters * edge + 4 * core, den: 2 * count }
}

/// The sum of the differences between neighbours among the first `upto` readings.
pub open spec fn total_change(samples: Seq<i64>, upto: int) -> int
    decreases upto,
{
    if upto <= 1 {
        0
    } else {
        let step = samples[upto - 1] - samples[upto - 2];
        total_change(samples, upto - 1) + if step < 0 {
            -step
        } else {
            step
        }
    }
}

/// The mean difference between neighbouring readings, in whole microseconds.
pub open spec fn jitter_micros(samples: Seq<i64>) -> int {
    if samples.len() < 2 {
        0
    } else {
        rounded_quotient(
            total_change(samples, samples.len() as int),
            (samples.len() - 1) * 1_000,
        )
    }
}

/// The jitter of the readings, in whole microseconds.
pub fn calculate_jitter(samples: &Vec<i64>) -> (r: u128)
    ensures
        r == jitter_micros(samples@),
{
    if samples.len() < 2 {
        return 0;
    }
    let mut change: u128 = 0;
    let mut i: usize = 1;
    while i < samples.len()
        invariant
            1 <= i <= samples.len(),
            change == total_change(samples@, i as int),
            change <= (i - 1) * u64::MAX,
        decreases samples.len() - i,
    {
        let a: i128 = samples[i - 1] as i128;
        let b: i128 = samples[i] as i128;
        let step: u128 = if b < a {
            (a - b) as u128
        } else {
            (b - a) as u128
        };
        proof {
            assert(i * u64::MAX == (i - 1) * u64::MAX + u64::MAX && i * u64::MAX <= u64::MAX
                * u64::MAX) by (nonlinear_arith)
                requires
                    1 <= i <= u64::MAX,
            ;
            assert(u64::MAX * u64::MAX <= u128::MAX) by (nonlinear_arith);
        }
        change = change + step;
        i = i + 1;
    }
    let pairs: u128 = (samples.len() - 1) as u128;
    round_div(change, pairs * 1_000)
}

/// The valid readings, ordered.
pub open spec fn valid_ordered(samples: Seq<i64>) -> Seq<i64> {
    ordered(kept(samples, 0, i64::MAX))
}

/// The median as the middle reading, or the mean of the two readings that start at `middle` where
/// their number is even; the mean of all for two or fewer.
pub open spec fn median_from(sorted: Seq<i64>, middle: int) -> Fraction {
    let n = sorted.len() as int;
    if n <= 2 {
        mean(sorted)
    } else if n % 2 == 1 {
        Fraction { num: sorted[n / 2] as u128, den: 1 }
    } else {
        Fraction { num: (sorted[middle] + sorted[middle + 1]) as u128, den: 2 }
    }
}

/// The summary of ordered readings whose even-sized median starts at `middle`.
pub open spec fn summary(sorted: Seq<i64>, middle: int) -> RttSummary {
    RttSummary {
        iqm: interquartile_mean(sorted),
        mean: mean(sorted),
        median: median_from(sorted, middle),
        min: sorted[0],
        max: sorted.last(),
    }
}

fn summarize(sorted: &Vec<i64>, middle: usize) -> (r: RttSummary)
    requires
        sorted.len() > 0,
        sorted.len() >= 3 ==> middle + 1 < sorted.len(),
        forall|i: int| 0 <= i < sorted.len() ==> 0 <= #[trigger] sorted[i],
    ensures
        r == summary(sorted@, middle as int),
{
    let n: usize = sorted.len();
    let average = Fraction { num: sum_span(sorted, 0, n), den: n as u128 };
    let median = if n <= 2 {
        average
    } else if n % 2 == 1 {
        Fraction { num: sorted[n / 2] as u128, den: 1 }
    } else {
        Fraction { num: sorted[middle] as u128 + sorted[middle + 1] as u128, den: 2 }
    };
    RttSummary {
        iqm: calculate_iqm(sorted),
        mean: average,
        median,
        min: sorted[0],
        max: sorted[n - 1],
    }
}

fn sorted_valid(samples: &Vec<i64>) -> (r: Vec<i64>)
    ensures
        r@ == valid_ordered(samples@),
        forall|i: int| 0 <= i < r.len() ==> 0 <= #[trigger] r[i],
{
    let valid = keep_range(samples, 0, i64::MAX);
    let sorted = sort_readings(&valid);
    proof {
        lemma_same_members(valid@, sorted@);
    }
    sorted
}

proof fn lemma_same_members(a: Seq<i64>, b: Seq<i64>)
    requires
        a.to_multiset() == b.to_multiset(),
        forall|i: int| 0 <= i < a.len() ==> 0 <= #[trigger] a[i],
    ensures
        forall|i: int| 0 <= i < b.len() ==> 0 <= #[trigger] b[i],
{
    broadcast use vstd::seq_lib::group_to_multiset_ensures;

    assert forall|i: int| 0 <= i < b.len() implies 0 <= #[trigger] b[i] by {
        assert(b.contains(b[i]));
        assert(b.to_multiset().count(b[i]) > 0);
        assert(a.contains(b[i]));
        let k = choose|k: int| 0 <= k < a.len() && a[k] == b[i];
        assert(0 <= a[k]);
    }
}

/// The summary of the valid readings, with the median between the two in the middle.
pub fn calculate_rtt(samples: &Vec<i64>) -> (r: Option<RttSummary>)
    ensures
        ({
            let sorted = valid_ordered(samples@);
            r == if sorted.len() == 0 {
                None
            } else {
                Some(summary(sorted, sorted.len() / 2 - 1))
            }
        }),
{
    let sorted = sorted_valid(samples);
    if sorted.len() == 0 {
        return None;
    }
    if sorted.len() == 1 {
        assert(summary(sorted@, 0) == summary(sorted@, -1));
        return Some(summarize(&sorted, 0));
    }
    Some(summarize(&sorted, sorted.len() / 2 - 1))
}

/// The summary of the valid readings as reports hold it: an even-sized median starts at the upper
/// of the two readings in the middle.
pub fn latency_stats(samples: &Vec<i64>) -> (r: Option<RttSummary>)
    ensures
        ({
            let sorted = valid_ordered(samples@);
            r == if sorted.len() == 0 {
                None
            } else {
                Some(summary(sorted, sorted.len() as int / 2))
            }
        }),
        r matches Some(stats) ==> stats.min >= 0,
{
    let sorted = sorted_valid(samples);
    if sorted.len() == 0 {
        return None;
    }
    Some(summarize(&sorted, sorted.len() / 2))
}

/// The longest latency under load that counts: ten seconds.
pub const LOADED_LATENCY_LIMIT_NS: i64 = 10_000_000_000;

/// From this many readings on, outliers are removed.
pub const OUTLIER_MIN_SAMPLES: usize = 20;

/// The readings under load that are kept for each second of a stage.
pub const LOADED_LATENCY_MAX_SAMPLES_PER_SEC: u64 = 25;

/// The most readings that a stage of that length keeps.
pub open spec fn sample_cap(stage_seconds: u64) -> int {
    greatest(stage_seconds as int, 1) * LOADED_LATENCY_MAX_SAMPLES_PER_SEC
}

/// The readings without those below the first or above the last percentile.
pub open spec fn without_outliers(samples: Seq<i64>) -> Seq<i64> {
    if samples.len() < OUTLIER_MIN_SAMPLES {
        samples
    } else {
        let sorted = ordered(samples);
        let last = samples.len() - 1;
        kept(samples, sorted[last / 100], sorted[(99 * last + 99) / 100])
    }
}

/// `cap` readings taken at even distances.
pub open spec fn thinned(samples: Seq<i64>, cap: int) -> Seq<i64> {
    if samples.len() <= cap {
        samples
    } else {
        Seq::new(cap as nat, |k: int| samples[(k * samples.len()) / cap])
    }
}

/// The readings under load that a stage reports: valid ones up to the limit, without outliers, and
/// no more than its length allows.
pub open spec fn normalized(samples: Seq<i64>, stage_seconds: u64) -> Seq<i64> {
    thinned(
        without_outliers(kept(samples, 0, LOADED_LATENCY_LIMIT_NS)),
        sample_cap(stage_seconds),
    )
}

proof fn lemma_thin_index(k: int, len: int, cap: int)
    requires
        0 <= k < cap < len,
    ensures
        0 <= (k * len) / cap < len,
        0 <= k * len,
{
    assert(0 <= k * len && k * len <= (cap - 1) * len && (cap - 1) * len < cap * len)
        by (nonlinear_arith)
        requires
            0 <= k <= cap - 1,
            0 < len,
    ;
    assert(0 <= (k * len) / cap < len) by (nonlinear_arith)
        requires
            0 <= k * len < cap * len,
            cap > 0,
    ;
}

/// What a stage reports of its latencies is valid, within the limit and bounded by its length.
pub proof fn normalized_readings_are_bounded(samples: Seq<i64>, stage_seconds: u64)
    ensures
        normalized(samples, stage_seconds).len() <= sample_cap(stage_seconds),
        forall|i: int|
            0 <= i < normalized(samples, stage_seconds).len() ==> 0 <= #[trigger] normalized(
                samples,
                stage_seconds,
            )[i] <= LOADED_LATENCY_LIMIT_NS,
{
    let valid = kept(samples, 0, LOADED_LATENCY_LIMIT_NS);
    lemma_kept_range(samples, 0, LOADED_LATENCY_LIMIT_NS);
    let inner = without_outliers(valid);
    assert forall|i: int| 0 <= i < inner.len() implies 0 <= #[trigger] inner[i]
        <= LOADED_LATENCY_LIMIT_NS by {
        if valid.len() >= OUTLIER_MIN_SAMPLES {
            let sorted = ordered(valid);
            let last = valid.len() - 1;
            lemma_kept_members(valid, sorted[last / 100], sorted[(99 * last + 99) / 100], i);
        }
    }
    let cap = sample_cap(stage_seconds);
    let out = normalized(samples, stage_seconds);
    assert forall|i: int| 0 <= i < out.len() implies 0 <= #[trigger] out[i]
        <= LOADED_LATENCY_LIMIT_NS by {
        if inner.len() > cap {
            lemma_thin_index(i, inner.len() as int, cap);
            assert(out[i] == inner[(i * inner.len()) / cap]);
        }
    }
}

proof fn lemma_kept_members(samples: Seq<i64>, low: i64, high: i64, i: int)
    requires
        0 <= i < kept(samples, low, high).len(),
    ensures
        samples.contains(kept(samples, low, high)[i]),
        exists|k: int| 0 <= k < samples.len() && samples[k] == kept(samples, low, high)[i],
    decreases samples.len(),
{
    let front = kept(samples.drop_last(), low, high);
    if i < front.len() {
        lemma_kept_members(samples.drop_last(), low, high, i);
        let k = choose|k: int|
            0 <= k < samples.drop_last().len() && samples.drop_last()[k] == front[i];
        assert(samples[k] == front[i]);
    } else {
        assert(samples[samples.len() - 1] == kept(samples, low, high)[i]);
    }
}

pub fn normalize_loaded_latency_samples(samples: &Vec<i64>, stage_seconds: u64) -> (r: Vec<i64>)
    ensures
        r@ == normalized(samples@, stage_seconds),
        r.len() <= sample_cap(stage_seconds),
        forall|i: int| 0 <= i < r.len() ==> 0 <= #[trigger] r[i] <= LOADED_LATENCY_LIMIT_NS,
{
    proof {
        normalized_readings_are_bounded(samples@, stage_seconds);
    }
    let valid = keep_range(samples, 0, LOADED_LATENCY_LIMIT_NS);
    let inner: Vec<i64> = if valid.len() >= OUTLIER_MIN_SAMPLES {
        let sorted = sort_readings(&valid);
        let last: usize = valid.len() - 1;
        let low: i64 = sorted[last / 100];
        let top: u128 = (99 * (last as u128) + 99) / 100;
        let high: i64 = sorted[top as usize];
        keep_range(&valid, low, high)
    } else {
        valid
    };
    let seconds: u128 = if stage_seconds == 0 {
        1
    } else {
        stage_seconds as u128
    };
    let cap: u128 = seconds * LOADED_LATENCY_MAX_SAMPLES_PER_SEC as u128;
    if inner.len() as u128 <= cap {
        return inner;
    }
    let count: u128 = inner.len() as u128;
    let mut out: Vec<i64> = Vec::new();
    let mut k: u128 = 0;
    while k < cap
        invariant
            cap < count,
            count == inner.len(),
            k <= cap,
            out@ == thinned(inner@, cap as int).take(k as int),
        decreases cap - k,
    {
        proof {
            lemma_thin_index(k as int, count as int, cap as int);
            assert(k * count <= u64::MAX * u64::MAX) by (nonlinear_arith)
                requires
                    0 <= k <= u64::MAX,
                    0 <= count <= u64::MAX,
            ;
            assert(u64::MAX * u64::MAX <= u128::MAX) by (nonlinear_arith);
        }
        let index: u128 = (k * count) / cap;
        out.push(inner[index as usize]);
        k = k + 1;
        assert(out@ =~= thinned(inner@, cap as int).take(k as int));
    }
    assert(out@ =~= thinned(inner@, cap as int));
    out
}

/// The mean of the readings, if there are any.
pub fn average_latency(samples: &Vec<i64>) -> (r: Option<Fraction>)
    requires
        forall|i: int| 0 <= i < samples.len() ==> 0 <= #[trigger] samples[i],
    ensures
        r == if samples.len() == 0 {
            None
        } else {
            Some(mean(samples@))
        },
{
    if samples.len() == 0 {
        return None;
    }
    Some(Fraction { num: sum_span(samples, 0, samples.len()), den: samples.len() as u128 })
}

/// A reading more adds itself to the sum and one to the number.
pub proof fn readings_count_one_by_one(samples: Seq<i64>, next: i64)
    requires
        forall|i: int| 0 <= i < samples.len() ==> 0 <= #[trigger] samples[i],
        next >= 0,
        samples.len() < u64::MAX,
    ensures
        mean(samples.push(next)).num == mean(samples).num + next,
        mean(samples.push(next)).den == samples.len() + 1,
        mean(Seq::<i64>::empty()).num == 0,
{
    let all = samples.push(next);
    let n = samples.len() as int;
    lemma_same_span(samples, all, 0, n);
    lemma_span_bounds(samples, 0, n, 0, i64::MAX as int);
    assert((n + 1) * i64::MAX <= u64::MAX * i64::MAX && u64::MAX * i64::MAX <= u128::MAX)
        by (nonlinear_arith)
        requires
            n + 1 <= u64::MAX,
    ;
    assert((n + 1) * i64::MAX == n * i64::MAX + i64::MAX) by (nonlinear_arith);
}

proof fn lemma_same_span(a: Seq<i64>, b: Seq<i64>, from: int, to: int)
    requires
        forall|i: int| from <= i < to ==> #[trigger] a[i] == b[i],
    ensures
        span_sum(a, from, to) == span_sum(b, from, to),
    decreases to - from,
{
    if from < to {
        lemma_same_span(a, b, from, to - 1);
        assert(a[to - 1] == b[to - 1]);
    }
}

proof fn lemma_span_bounds(samples: Seq<i64>, from: int, to: int, low: int, high: int)
    requires
        from <= to,
        forall|i: int| from <= i < to ==> low <= #[trigger] samples[i] <= high,
    ensures
        (to - from) * low <= span_sum(samples, from, to) <= (to - from) * high,
    decreases to - from,
{
    if from < to {
        lemma_span_bounds(samples, from, to - 1, low, high);
        assert(low <= samples[to - 1] <= high);
        assert((to - from) * low == (to - 1 - from) * low + low && (to - from) * high == (to - 1
            - from) * high + high) by (nonlinear_arith);
    } else {
        assert((to - from) * low == 0 && (to - from) * high == 0) by (nonlinear_arith)
            requires
                to == from,
        ;
    }
}

/// Whether readings are in order, the least first.
pub open spec fn ascending(sorted: Seq<i64>) -> bool {
    forall|i: int, j: int| 0 <= i <= j < sorted.len() ==> sorted[i] <= sorted[j]
}

/// The mean lies between the least and the greatest reading.
pub proof fn the_mean_lies_between(samples: Seq<i64>, low: i64, high: i64)
    requires
        0 < samples.len() <= u64::MAX,
        0 <= low,
        forall|i: int| 0 <= i < samples.len() ==> low <= #[trigger] samples[i] <= high,
    ensures
        low * mean(samples).den <= mean(samples).num <= high * mean(samples).den,
        mean(samples).den == samples.len(),
{
    let n = samples.len() as int;
    lemma_span_bounds(samples, 0, n, low as int, high as int);
    assert(low <= samples[0] <= high);
    assert(0 <= n * low && n * high <= u64::MAX * i64::MAX && u64::MAX * i64::MAX <= u128::MAX)
        by (nonlinear_arith)
        requires
            0 <= n <= u64::MAX,
            0 <= low <= high <= i64::MAX,
    ;
    assert(n * low == low * n && n * high == high * n) by (nonlinear_arith);
}

/// The interquartile mean lies between the readings that bound the middle half, and the readings of
/// the lowest and of the highest quarter do not matter to it.
pub proof fn only_the_middle_half_matters(a: Seq<i64>, b: Seq<i64>)
    requires
        2 < a.len() <= u64::MAX,
        a.len() == b.len(),
        ascending(a),
        a[0] >= 0,
        forall|i: int| a.len() as int / 4 <= i < a.len() - a.len() as int / 4 ==> #[trigger] a[i]
            == b[i],
    ensures
        interquartile_mean(a) == interquartile_mean(b),
        ({
            let n = a.len() as int;
            let m = interquartile_mean(a);
            a[n / 4] * m.den <= m.num <= a[n - 1 - n / 4] * m.den
        }),
{
    let n = a.len() as int;
    let start = (n + 3) / 4;
    let end = (3 * n) / 4;
    let quarters = (3 * n) % 4;
    let low = a[n / 4] as int;
    let high = a[n - 1 - n / 4] as int;
    lemma_same_span(a, b, start, end);
    assert forall|i: int| start <= i < end implies low <= #[trigger] a[i] <= high by {}
    lemma_span_bounds(a, start, end, low, high);
    let edges = quarters * (a[start - 1] + a[end]);
    let others = quarters * (b[start - 1] + b[end]);
    let inner = span_sum(a, start, end);
    if n % 4 == 0 {
        assert(quarters == 0);
        assert(edges == 0 && others == 0) by (nonlinear_arith)
            requires
                edges == quarters * (a[start - 1] + a[end]),
                others == quarters * (b[start - 1] + b[end]),
                quarters == 0,
        ;
    } else {
        assert(start - 1 == n / 4 && end == n - 1 - n / 4);
        assert(edges == others);
        assert(2 * quarters * low <= edges <= 2 * quarters * high) by (nonlinear_arith)
            requires
                edges == quarters * (low + high),
                0 <= quarters,
                low <= high,
        ;
    }
    let width = end - start;
    assert(2 * quarters + 4 * width == 2 * n);
    assert((2 * n) * low == 2 * quarters * low + 4 * (width * low) && (2 * n) * high == 2 * quarters
        * high + 4 * (width * high)) by (nonlinear_arith)
        requires
            2 * quarters + 4 * width == 2 * n,
    ;
    assert(quarters == 0 ==> 2 * quarters * low == 0 && 2 * quarters * high == 0)
        by (nonlinear_arith);
    assert(0 <= (2 * n) * low && (2 * n) * high <= 2 * u64::MAX * i64::MAX && 2 * u64::MAX
        * i64::MAX <= u128::MAX) by (nonlinear_arith)
        requires
            0 <= n <= u64::MAX,
            0 <= low <= high <= i64::MAX,
    ;
    assert((2 * n) * low == low * (2 * n) && (2 * n) * high == high * (2 * n)) by (nonlinear_arith);
}

/// A reading more changes the total by its distance from the one before, whichever is greater.
pub proof fn changes_add_up(samples: Seq<i64>, next: i64)
    requires
        samples.len() > 0,
    ensures
        ({
            let n = samples.len() as int;
            let all = samples.push(next);
            let change = total_change(all, n + 1) - total_change(samples, n);
            &&& change >= 0
            &&& change == next - samples.last() || change == samples.last() - next
        }),
        total_change(seq![next], 1) == 0,
{
    lemma_same_change(samples, samples.push(next), samples.len() as int);
}

proof fn lemma_same_change(a: Seq<i64>, b: Seq<i64>, upto: int)
    requires
        0 <= upto <= a.len(),
        upto <= b.len(),
        forall|i: int| 0 <= i < upto ==> #[trigger] a[i] == b[i],
    ensures
        total_change(a, upto) == total_change(b, upto),
        total_change(a, upto) >= 0,
    decreases upto,
{
    if upto > 1 {
        lemma_same_change(a, b, upto - 1);
        assert(a[upto - 1] == b[upto - 1] && a[upto - 2] == b[upto - 2]);
    }
}

/// The jitter is the mean change in microseconds, off by no more than half of one. Readings that
/// are all the same have none.
pub proof fn jitter_is_the_mean_change(samples: Seq<i64>)
    requires
        samples.len() >= 2,
    ensures
        ({
            let steps = samples.len() - 1;
            let change = total_change(samples, samples.len() as int);
            let jitter = jitter_micros(samples);
            &&& 2 * ((steps * 1_000) * jitter - change) <= steps * 1_000
            &&& 2 * (change - (steps * 1_000) * jitter) < steps * 1_000
        }),
{
    rounding_goes_to_the_nearest(
        total_change(samples, samples.len() as int),
        (samples.len() - 1) * 1_000,
    );
}

/// The readings that are kept are exactly those in range, as often as they were there.
pub proof fn readings_in_range_are_kept(samples: Seq<i64>, low: i64, high: i64, value: i64)
    ensures
        kept(samples, low, high).to_multiset().count(value) == if low <= value <= high {
            samples.to_multiset().count(value)
        } else {
            0
        },
    decreases samples.len(),
{
    broadcast use vstd::seq_lib::group_to_multiset_ensures;

    if samples.len() > 0 {
        let before = samples.drop_last();
        readings_in_range_are_kept(before, low, high, value);
        assert(samples =~= before.push(samples.last()));
    }
}

/// The summary of readings names the least and the greatest of the valid ones, and its averages lie
/// between those.
pub proof fn summaries_stay_within_the_readings(samples: Seq<i64>, middle: int)
    requires
        0 < valid_ordered(samples).len() <= u64::MAX,
        valid_ordered(samples).len() > 2 ==> 0 <= middle && middle + 1 < valid_ordered(
            samples,
        ).len(),
    ensures
        ({
            let sorted = valid_ordered(samples);
            let s = summary(sorted, middle);
            &&& ascending(sorted)
            &&& samples.contains(s.min) && samples.contains(s.max) && 0 <= s.min <= s.max
            &&& forall|i: int|
                0 <= i < samples.len() && #[trigger] samples[i] >= 0 ==> s.min <= samples[i]
                    <= s.max
            &&& s.min * s.mean.den <= s.mean.num <= s.max * s.mean.den
            &&& s.min * s.median.den <= s.median.num <= s.max * s.median.den
            &&& s.min * s.iqm.den <= s.iqm.num <= s.max * s.iqm.den
            &&& s.mean.den > 0 && s.median.den > 0 && s.iqm.den > 0
        }),
{
    let valid = kept(samples, 0, i64::MAX);
    let sorted = valid_ordered(samples);
    let n = sorted.len() as int;
    lemma_valid_ordered(samples);
    let s = summary(sorted, middle);
    assert(sorted.contains(sorted[0]) && sorted.contains(sorted[n - 1]));
    assert forall|i: int| 0 <= i < n implies s.min <= #[trigger] sorted[i] <= s.max by {}
    the_mean_lies_between(sorted, s.min, s.max);
    if n > 2 {
        only_the_middle_half_matters(sorted, sorted);
        let m = s.iqm;
        assert(s.min <= sorted[n / 4] && sorted[n - 1 - n / 4] <= s.max);
        assert(s.min * m.den <= sorted[n / 4] * m.den && sorted[n - 1 - n / 4] * m.den <= s.max
            * m.den) by (nonlinear_arith)
            requires
                s.min <= sorted[n / 4],
                sorted[n - 1 - n / 4] <= s.max,
                m.den >= 0,
        ;
        if n % 2 == 1 {
            assert(s.min <= sorted[n / 2] <= s.max);
        } else {
            assert(s.min <= sorted[middle] <= s.max && s.min <= sorted[middle + 1] <= s.max);
        }
        lemma_one_or_two(s.min as int, s.median.den as int);
        lemma_one_or_two(s.max as int, s.median.den as int);
    }
    assert forall|i: int| 0 <= i < samples.len() && #[trigger] samples[i] >= 0 implies s.min
        <= samples[i] <= s.max by {
        assert(samples.contains(samples[i]));
        assert(sorted.contains(samples[i]));
        let k = choose|k: int| 0 <= k < sorted.len() && sorted[k] == samples[i];
        assert(s.min <= sorted[k] <= s.max);
    }
}

proof fn lemma_one_or_two(x: int, den: int)
    ensures
        den == 1 ==> x * den == x,
        den == 2 ==> x * den == x + x,
{
    if den == 1 {
        assert(x * den == x) by (nonlinear_arith)
            requires
                den == 1,
        ;
    } else if den == 2 {
        assert(x * den == x + x) by (nonlinear_arith)
            requires
                den == 2,
        ;
    }
}

/// The valid readings in order are the valid readings.
proof fn lemma_valid_ordered(samples: Seq<i64>)
    ensures
        ascending(valid_ordered(samples)),
        forall|x: i64| #[trigger] valid_ordered(samples).contains(x) <==> samples.contains(x) && x
            >= 0,
{
    broadcast use vstd::seq_lib::group_to_multiset_ensures;

    let valid = kept(samples, 0, i64::MAX);
    let sorted = valid_ordered(samples);
    assert(total_ordering(at_most()));
    valid.lemma_sort_by_ensures(at_most());
    assert forall|i: int, j: int| 0 <= i <= j < sorted.len() implies sorted[i] <= sorted[j] by {
        if i < j {
            assert(at_most()(sorted[i], sorted[j]));
        }
    }
    assert forall|x: i64| #[trigger] sorted.contains(x) <==> samples.contains(x) && x >= 0 by {
        readings_in_range_are_kept(samples, 0, i64::MAX, x);
        assert(sorted.contains(x) <==> sorted.to_multiset().count(x) > 0);
        assert(valid.to_multiset().count(x) == sorted.to_multiset().count(x));
        assert(samples.contains(x) <==> samples.to_multiset().count(x) > 0);
    }
}

/// The median has as many readings below it as above: with an odd number it is the one in the
/// middle, with an even number it lies between the two that are named.
pub proof fn the_median_stands_in_the_middle(sorted: Seq<i64>, middle: int)
    requires
        sorted.len() > 2,
        sorted[0] >= 0,
        ascending(sorted),
        0 <= middle,
        middle + 1 < sorted.len(),
    ensures
        ({
            let n = sorted.len() as int;
            let m = median_from(sorted, middle);
            &&& m.den > 0
            &&& n % 2 == 1 ==> m.num == sorted[(n - 1) / 2] * m.den
            &&& n % 2 == 0 ==> {
                &&& sorted[middle] * m.den <= m.num <= sorted[middle + 1] * m.den
                &&& m.num - sorted[middle] * m.den == sorted[middle + 1] * m.den - m.num
            }
        }),
{
    assert(0 <= sorted[0] <= sorted[middle] <= sorted[middle + 1]);
    assert(sorted[0] <= sorted[sorted.len() as int / 2]);
    let m = median_from(sorted, middle);
    lemma_one_or_two(sorted[middle] as int, m.den as int);
    lemma_one_or_two(sorted[middle + 1] as int, m.den as int);
    lemma_one_or_two(sorted[(sorted.len() - 1) / 2] as int, m.den as int);
}

/// What a stage reports of its latencies was read, in that order; where there are few readings none
/// is left out that is valid and within ten seconds.
pub proof fn normalized_readings_were_read(samples: Seq<i64>, stage_seconds: u64)
    ensures
        forall|i: int|
            0 <= i < normalized(samples, stage_seconds).len() ==> samples.contains(
                #[trigger] normalized(samples, stage_seconds)[i],
            ),
        samples.len() < 20 ==> normalized(samples, stage_seconds) == kept(
            samples,
            0,
            10_000_000_000,
        ),
{
    let valid = kept(samples, 0, LOADED_LATENCY_LIMIT_NS);
    let inner = without_outliers(valid);
    let cap = sample_cap(stage_seconds);
    let out = normalized(samples, stage_seconds);
    assert forall|i: int| 0 <= i < out.len() implies samples.contains(#[trigger] out[i]) by {
        if inner.len() <= cap {
            lemma_kept_are_read(samples, valid, inner, i);
        } else {
            let k = (i * inner.len()) / cap;
            assert(0 <= k < inner.len()) by (nonlinear_arith)
                requires
                    0 <= i < cap,
                    inner.len() > 0,
                    k == (i * inner.len()) / cap,
            ;
            assert(out[i] == inner[k]);
            lemma_kept_are_read(samples, valid, inner, k);
        }
    }
    lemma_kept_len(samples, 0, LOADED_LATENCY_LIMIT_NS);
    if samples.len() < 20 {
        assert(inner == valid);
        assert(cap >= 25);
    }
}

proof fn lemma_kept_len(samples: Seq<i64>, low: i64, high: i64)
    ensures
        kept(samples, low, high).len() <= samples.len(),
    decreases samples.len(),
{
    if samples.len() > 0 {
        lemma_kept_len(samples.drop_last(), low, high);
    }
}

proof fn lemma_kept_are_read(samples: Seq<i64>, valid: Seq<i64>, inner: Seq<i64>, i: int)
    requires
        valid == kept(samples, 0, LOADED_LATENCY_LIMIT_NS),
        inner == without_outliers(valid),
        0 <= i < inner.len(),
    ensures
        samples.contains(inner[i]),
        valid.contains(inner[i]),
{
    broadcast use vstd::seq_lib::group_to_multiset_ensures;

    let x = inner[i];
    assert(inner.contains(x));
    if valid.len() >= OUTLIER_MIN_SAMPLES {
        let sorted = ordered(valid);
        let last = valid.len() - 1;
        readings_in_range_are_kept(valid, sorted[last / 100], sorted[(99 * last + 99) / 100], x);
        assert(inner.to_multiset().count(x) > 0);
        assert(valid.to_multiset().count(x) > 0);
    }
    assert(valid.contains(x));
    readings_in_range_are_kept(samples, 0, LOADED_LATENCY_LIMIT_NS, x);
    assert(valid.to_multiset().count(x) > 0);
    assert(samples.to_multiset().count(x) > 0);
}

/// Outliers are the extremes: a reading that is left out is beyond every one that is kept.
pub proof fn outliers_are_the_extremes(samples: Seq<i64>, left_out: i64, in_use: i64)
    requires
        samples.contains(left_out),
        !without_outliers(samples).contains(left_out),
        without_outliers(samples).contains(in_use),
    ensures
        samples.len() >= 20,
        left_out != in_use,
        exists|low: i64, high: i64|
            #![trigger kept(samples, low, high)]
            without_outliers(samples) == kept(samples, low, high) && low <= in_use <= high && (
            left_out < low || left_out > high),
{
    broadcast use vstd::seq_lib::group_to_multiset_ensures;

    let sorted = ordered(samples);
    let last = samples.len() - 1;
    let low = sorted[last / 100];
    let high = sorted[(99 * last + 99) / 100];
    readings_in_range_are_kept(samples, low, high, left_out);
    readings_in_range_are_kept(samples, low, high, in_use);
    let inner = without_outliers(samples);
    assert(samples.to_multiset().count(left_out) > 0);
    assert(inner == kept(samples, low, high));
    assert(inner.to_multiset().count(in_use) > 0);
    assert(inner.to_multiset().count(left_out) == 0);
}

/// Where readings are thinned out, the first one stays, and those that stay are as far apart as
/// they can be.
pub proof fn thinning_is_even(samples: Seq<i64>, cap: int, k: int)
    requires
        0 < cap < samples.len(),
        0 <= k < cap,
    ensures
        thinned(samples, cap).len() == cap,
        thinned(samples, cap)[0] == samples[0],
        exists|at: int|
            #![trigger samples[at]]
            0 <= at < samples.len() && thinned(samples, cap)[k] == samples[at] && at * cap <= k
                * samples.len() < (at + 1) * cap,
{
    let n = samples.len() as int;
    let at = (k * n) / cap;
    assert(0 <= at < n && at * cap <= k * n < (at + 1) * cap) by (nonlinear_arith)
        requires
            0 <= k < cap,
            n > 0,
            at == (k * n) / cap,
    ;
    assert((0 * n) / cap == 0) by (nonlinear_arith)
        requires
            cap > 0,
    ;
    assert(thinned(samples, cap)[k] == samples[at]);
}

/// At most one reading in a hundred is an outlier at each end.
pub proof fn few_readings_are_outliers(samples: Seq<i64>)
    requires
        samples.len() > 0,
    ensures
        without_outliers(samples).len() >= samples.len() - 2 * ((samples.len() - 1) / 100),
{
    if samples.len() >= OUTLIER_MIN_SAMPLES {
        broadcast use vstd::seq_lib::group_to_multiset_ensures;

        let sorted = ordered(samples);
        let n = samples.len() as int;
        let a = (n - 1) / 100;
        let b = (99 * (n - 1) + 99) / 100;
        assert(total_ordering(at_most()));
        samples.lemma_sort_by_ensures(at_most());
        assert forall|i: int, j: int| 0 <= i <= j < sorted.len() implies sorted[i] <= sorted[j] by {
            if i < j {
                assert(at_most()(sorted[i], sorted[j]));
            }
        }
        assert(sorted.len() == n) by {
            assert(sorted.to_multiset().len() == samples.to_multiset().len());
        }
        let x = kept(samples, sorted[a], sorted[b]);
        let y = kept(sorted, sorted[a], sorted[b]);
        assert(x.to_multiset() =~= y.to_multiset()) by {
            assert forall|v: i64| x.to_multiset().count(v) == y.to_multiset().count(v) by {
                readings_in_range_are_kept(samples, sorted[a], sorted[b], v);
                readings_in_range_are_kept(sorted, sorted[a], sorted[b], v);
            }
        }
        assert(x.len() == y.len()) by {
            assert(x.to_multiset().len() == y.to_multiset().len());
        }
        lemma_kept_run(sorted, a, b, n);
        assert(sorted.take(n) =~= sorted);
    }
}

proof fn lemma_kept_run(sorted: Seq<i64>, a: int, b: int, upto: int)
    requires
        ascending(sorted),
        0 <= a <= b < sorted.len(),
        0 <= upto <= sorted.len(),
    ensures
        kept(sorted.take(upto), sorted[a], sorted[b]).len() >= (if upto > b {
            b + 1
        } else {
            upto
        }) - a,
    decreases upto,
{
    if upto > 0 {
        lemma_kept_run(sorted, a, b, upto - 1);
        let part = sorted.take(upto);
        assert(part.drop_last() =~= sorted.take(upto - 1));
        assert(part.last() == sorted[upto - 1]);
        if a <= upto - 1 <= b {
            assert(sorted[a] <= sorted[upto - 1] <= sorted[b]);
        }
    }
}

/// No more readings are reported than so many for each second, of which there is at least one.
pub proof fn reported_readings_are_limited(samples: Seq<i64>, stage_seconds: u64)
    ensures
        stage_seconds >= 1 ==> normalized(samples, stage_seconds).len() <= stage_seconds
            * LOADED_LATENCY_MAX_SAMPLES_PER_SEC,
        normalized(samples, 0).len() <= LOADED_LATENCY_MAX_SAMPLES_PER_SEC,
        stage_seconds >= 1 && without_outliers(kept(samples, 0, LOADED_LATENCY_LIMIT_NS)).len()
            <= stage_seconds * LOADED_LATENCY_MAX_SAMPLES_PER_SEC ==> normalized(
            samples,
            stage_seconds,
        ) == without_outliers(kept(samples, 0, LOADED_LATENCY_LIMIT_NS)),
{
}

} // verus!
