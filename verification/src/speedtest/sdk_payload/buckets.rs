//! Buckets of a reported run, built after the fact from its throughput samples.
//!
//! Times are in nanoseconds since the start of the stage.

use vstd::prelude::*;

use crate::num::whole::{
    capped_sum, least, monus, round_div, rounded_quotient, rounding_goes_to_the_nearest,
};

verus! {

/// A transfer: `size` bytes that arrived between two points in time.
#[derive(Clone, Copy, Debug, PartialEq, Eq, Structural)]
pub struct SdkTransferSample {
    pub size: u64,
    pub sent_at: u64,
    pub received_at: u64,
}

/// A bucket, still open while it has no stop time. `total` counts the bytes of this bucket and of
/// all before it.
#[derive(Clone, Copy, Debug, PartialEq, Eq, Structural)]
pub struct SdkThroughputBucket {
    pub bytes: u64,
    pub start: u64,
    pub stop: Option<u64>,
    pub total: u64,
}

/// How a run is cut into buckets.
#[derive(Clone, Copy, Debug, PartialEq, Eq, Structural)]
pub struct BucketRules {
    pub sample_length: u64,
    pub minimum_length: u64,
    pub test_duration: Option<u64>,
}

/// Buckets so far, and the index of the first one that starts in the second half of the test.
pub struct BucketRun {
    pub buckets: Seq<SdkThroughputBucket>,
    pub first_good: Option<int>,
}

/// The span that the buckets of a run cover at most.
pub const MAX_BUCKETED_SPAN: u64 = 15_000_000_000;

impl BucketRules {
    /// Whether the lengths are positive and the buckets can be numbered on this machine.
    pub open spec fn valid(self) -> bool {
        &&& self.sample_length > 0
        &&& self.minimum_length > 0
        &&& self.last_index() < usize::MAX
    }

    /// The last bucket index in use.
    pub open spec fn last_index(self) -> int {
        (MAX_BUCKETED_SPAN + self.minimum_length - 1) / (self.minimum_length as int)
    }

    /// Whether a bucket that starts at `start` lies in the second half of the test.
    pub open spec fn in_second_half(self, start: int) -> bool {
        match self.test_duration {
            Some(duration) => 2 * start > duration,
            None => false,
        }
    }

    /// One more bucket. The open one is closed after its full length, or now if that is earlier,
    /// and the new one starts there.
    pub open spec fn opened(self, run: BucketRun, now: int) -> BucketRun {
        let count = run.buckets.len() as int;
        if count == 0 {
            BucketRun {
                buckets: seq![
                    SdkThroughputBucket { bytes: 0, start: now as u64, stop: None, total: 0 },
                ],
                first_good: if run.first_good is None && self.in_second_half(now) {
                    Some(0)
                } else {
                    run.first_good
                },
            }
        } else {
            let last = run.buckets[count - 1];
            let stop = least(last.start + self.sample_length, now);
            BucketRun {
                buckets: run.buckets.update(
                    count - 1,
                    SdkThroughputBucket { stop: Some(stop as u64), ..last },
                ).push(
                    SdkThroughputBucket {
                        bytes: 0,
                        start: stop as u64,
                        stop: None,
                        total: last.total,
                    },
                ),
                first_good: if run.first_good is None && self.in_second_half(stop) {
                    Some(count)
                } else {
                    run.first_good
                },
            }
        }
    }

    /// The run with buckets opened until there is one with index `target`.
    pub open spec fn grown(self, run: BucketRun, now: int, target: int) -> BucketRun
        decreases target + 1 - run.buckets.len(),
    {
        if run.buckets.len() > target {
            run
        } else {
            self.grown(self.opened(run, now), now, target)
        }
    }

    /// The bucket that a transfer received at `now` belongs to. With a minimum length below the
    /// full one, a new bucket waits until the open one is at least that long.
    pub open spec fn target(self, now: int, buckets: Seq<SdkThroughputBucket>) -> int {
        let by_time = now / (self.sample_length as int);
        let count = buckets.len() as int;
        let index = if self.sample_length == self.minimum_length {
            by_time
        } else if count < by_time + 1 && now >= (if count == 0 {
            self.minimum_length as int
        } else {
            buckets[count - 1].start + self.minimum_length
        }) {
            by_time
        } else {
            monus(count, 1)
        };
        least(index, self.last_index())
    }

    /// The run after one more transfer.
    pub open spec fn with_sample(self, run: BucketRun, sample: SdkTransferSample) -> BucketRun {
        let target = self.target(sample.received_at as int, run.buckets);
        let grown = self.grown(run, sample.received_at as int, target);
        BucketRun {
            buckets: spread(
                grown.buckets,
                sample.sent_at as int,
                sample.received_at as int,
                sample.size as int,
                target,
            ),
            ..grown
        }
    }

    /// The run after all of `samples`, which starts with one empty bucket at time zero.
    pub open spec fn built(self, samples: Seq<SdkTransferSample>) -> BucketRun
        decreases samples.len(),
    {
        if samples.len() == 0 {
            self.opened(BucketRun { buckets: Seq::empty(), first_good: None }, 0)
        } else {
            self.with_sample(self.built(samples.drop_last()), samples.last())
        }
    }
}

/// `size` more bytes in bucket `index`, which every later total counts too.
pub open spec fn added(buckets: Seq<SdkThroughputBucket>, index: int, size: int) -> Seq<
    SdkThroughputBucket,
> {
    Seq::new(
        buckets.len(),
        |i: int|
            SdkThroughputBucket {
                bytes: if i == index {
                    capped_sum(buckets[i].bytes as int, size) as u64
                } else {
                    buckets[i].bytes
                },
                total: if i >= index {
                    capped_sum(buckets[i].total as int, size) as u64
                } else {
                    buckets[i].total
                },
                ..buckets[i]
            },
    )
}

/// The part of a transfer of `remaining` bytes over `sent..received` that arrived after `start`,
/// taken in proportion to the time.
pub open spec fn late_part(sent: int, received: int, start: int, remaining: int) -> int {
    if received > start && received > sent {
        least(rounded_quotient(remaining * (received - start), received - sent), remaining)
    } else {
        0
    }
}

/// Spreads `remaining` bytes over the buckets from `target` back to the one that the transfer
/// began in.
pub open spec fn spread(
    buckets: Seq<SdkThroughputBucket>,
    sent: int,
    received: int,
    remaining: int,
    target: int,
) -> Seq<SdkThroughputBucket>
    decreases target,
{
    if remaining <= 0 {
        buckets
    } else if target <= 0 || sent >= buckets[target].start {
        added(buckets, target, remaining)
    } else {
        let part = late_part(sent, received, buckets[target].start as int, remaining);
        let filled = if part > 0 {
            added(buckets, target, part)
        } else {
            buckets
        };
        match buckets[target - 1].stop {
            Some(stop) => spread(filled, sent, stop as int, remaining - part, target - 1),
            None => if remaining - part > 0 {
                added(filled, target - 1, remaining - part)
            } else {
                filled
            },
        }
    }
}

/// The bytes in all buckets together.
pub open spec fn held_bytes(buckets: Seq<SdkThroughputBucket>) -> int
    decreases buckets.len(),
{
    if buckets.len() == 0 {
        0
    } else {
        held_bytes(buckets.drop_last()) + buckets.last().bytes
    }
}

proof fn lemma_added_bytes(buckets: Seq<SdkThroughputBucket>, index: int, size: int)
    requires
        0 <= index < buckets.len(),
        0 <= size,
        held_bytes(buckets) + size <= u64::MAX,
    ensures
        held_bytes(added(buckets, index, size)) == held_bytes(buckets) + size,
    decreases buckets.len(),
{
    let after = added(buckets, index, size);
    let front = buckets.drop_last();
    lemma_held_is_positive(front);
    if index == buckets.len() - 1 {
        assert forall|i: int| 0 <= i < front.len() implies (#[trigger] after.drop_last()[i]).bytes
            == front[i].bytes by {}
        lemma_same_bytes(after.drop_last(), front);
    } else {
        lemma_added_bytes(front, index, size);
        assert(after.drop_last() =~= added(front, index, size));
    }
}

proof fn lemma_held_is_positive(buckets: Seq<SdkThroughputBucket>)
    ensures
        held_bytes(buckets) >= 0,
    decreases buckets.len(),
{
    if buckets.len() > 0 {
        lemma_held_is_positive(buckets.drop_last());
    }
}

proof fn lemma_same_bytes(a: Seq<SdkThroughputBucket>, b: Seq<SdkThroughputBucket>)
    requires
        a.len() == b.len(),
        forall|i: int| 0 <= i < a.len() ==> (#[trigger] a[i]).bytes == b[i].bytes,
    ensures
        held_bytes(a) == held_bytes(b),
    decreases a.len(),
{
    if a.len() > 0 {
        assert forall|i: int| 0 <= i < a.drop_last().len() implies (
        #[trigger] a.drop_last()[i]).bytes == b.drop_last()[i].bytes by {
            assert(a[i].bytes == b[i].bytes);
        }
        lemma_same_bytes(a.drop_last(), b.drop_last());
        assert(a[a.len() - 1].bytes == b[b.len() - 1].bytes);
    }
}

proof fn lemma_late_part(sent: int, received: int, start: int, remaining: int)
    requires
        remaining >= 0,
    ensures
        0 <= late_part(sent, received, start, remaining) <= remaining,
{
    if received > start && received > sent {
        let whole = remaining * (received - start);
        assert(whole >= 0) by (nonlinear_arith)
            requires
                remaining >= 0,
                received > start,
                whole == remaining * (received - start),
        ;
        assert(rounded_quotient(whole, received - sent) >= 0) by (nonlinear_arith)
            requires
                whole >= 0,
                received - sent > 0,
                rounded_quotient(whole, received - sent) == (2 * whole + (received - sent)) / (2 * (
                received - sent)),
        ;
    }
}

/// Spreading a transfer puts every byte of it into exactly one bucket.
pub proof fn spreading_conserves_bytes(
    buckets: Seq<SdkThroughputBucket>,
    sent: int,
    received: int,
    remaining: int,
    target: int,
)
    requires
        0 <= target < buckets.len(),
        0 <= remaining,
        held_bytes(buckets) + remaining <= u64::MAX,
    ensures
        held_bytes(spread(buckets, sent, received, remaining, target)) == held_bytes(buckets)
            + remaining,
        spread(buckets, sent, received, remaining, target).len() == buckets.len(),
    decreases target,
{
    if remaining > 0 {
        if target == 0 || sent >= buckets[target].start {
            lemma_added_bytes(buckets, target, remaining);
        } else {
            let part = late_part(sent, received, buckets[target].start as int, remaining);
            lemma_late_part(sent, received, buckets[target].start as int, remaining);
            let filled = if part > 0 {
                added(buckets, target, part)
            } else {
                buckets
            };
            if part > 0 {
                lemma_added_bytes(buckets, target, part);
            }
            match buckets[target - 1].stop {
                Some(stop) => spreading_conserves_bytes(
                    filled,
                    sent,
                    stop as int,
                    remaining - part,
                    target - 1,
                ),
                None => {
                    if remaining - part > 0 {
                        lemma_added_bytes(filled, target - 1, remaining - part);
                    }
                },
            }
        }
    }
}

/// The bytes of all samples together.
pub open spec fn sample_bytes(samples: Seq<SdkTransferSample>) -> int
    decreases samples.len(),
{
    if samples.len() == 0 {
        0
    } else {
        sample_bytes(samples.drop_last()) + samples.last().size
    }
}

proof fn lemma_opening_keeps_bytes(rules: BucketRules, run: BucketRun, now: int)
    ensures
        held_bytes(rules.opened(run, now).buckets) == held_bytes(run.buckets),
        rules.opened(run, now).buckets.len() == run.buckets.len() + 1,
{
    let after = rules.opened(run, now).buckets;
    if run.buckets.len() == 0 {
        assert(held_bytes(after.drop_last()) == 0);
    } else {
        assert forall|i: int| 0 <= i < run.buckets.len() implies (
        #[trigger] after.drop_last()[i]).bytes == run.buckets[i].bytes by {}
        lemma_same_bytes(after.drop_last(), run.buckets);
    }
}

proof fn lemma_growing_keeps_bytes(rules: BucketRules, run: BucketRun, now: int, target: int)
    ensures
        held_bytes(rules.grown(run, now, target).buckets) == held_bytes(run.buckets),
        rules.grown(run, now, target).buckets.len() > target,
        rules.grown(run, now, target).buckets.len() >= run.buckets.len(),
    decreases target + 1 - run.buckets.len(),
{
    if run.buckets.len() <= target {
        lemma_opening_keeps_bytes(rules, run, now);
        lemma_growing_keeps_bytes(rules, rules.opened(run, now), now, target);
    }
}

proof fn lemma_target_is_index(rules: BucketRules, now: int, buckets: Seq<SdkThroughputBucket>)
    requires
        rules.valid(),
        now >= 0,
        buckets.len() > 0,
    ensures
        0 <= rules.target(now, buckets) <= rules.last_index(),
        0 <= rules.last_index() <= MAX_BUCKETED_SPAN,
        0 <= now / (rules.sample_length as int) <= now,
{
    let by_time = now / (rules.sample_length as int);
    assert(0 <= by_time <= now) by (nonlinear_arith)
        requires
            by_time == now / (rules.sample_length as int),
            rules.sample_length > 0,
            now >= 0,
    ;
    let top = MAX_BUCKETED_SPAN + rules.minimum_length - 1;
    let last = rules.last_index();
    let min = rules.minimum_length as int;
    vstd::arithmetic::div_mod::lemma_fundamental_div_mod(top as int, min);
    assert(0 <= last) by (nonlinear_arith)
        requires
            last == top / min,
            top >= 0,
            min > 0,
    ;
    assert(last <= MAX_BUCKETED_SPAN) by (nonlinear_arith)
        requires
            min * last <= top,
            top < MAX_BUCKETED_SPAN + min,
            min > 0,
    ;
}

/// No byte of a run is lost: the buckets hold what the samples carried.
pub proof fn building_conserves_bytes(rules: BucketRules, samples: Seq<SdkTransferSample>)
    requires
        rules.valid(),
        sample_bytes(samples) <= u64::MAX,
    ensures
        held_bytes(rules.built(samples).buckets) == sample_bytes(samples),
        rules.built(samples).buckets.len() > 0,
        sample_bytes(samples) >= 0,
    decreases samples.len(),
{
    let start = BucketRun { buckets: Seq::empty(), first_good: None };
    if samples.len() == 0 {
        lemma_opening_keeps_bytes(rules, start, 0);
    } else {
        building_conserves_bytes(rules, samples.drop_last());
        let run = rules.built(samples.drop_last());
        let sample = samples.last();
        let now = sample.received_at as int;
        let target = rules.target(now, run.buckets);
        lemma_target_is_index(rules, now, run.buckets);
        lemma_growing_keeps_bytes(rules, run, now, target);
        spreading_conserves_bytes(
            rules.grown(run, now, target).buckets,
            sample.sent_at as int,
            now,
            sample.size as int,
            target,
        );
    }
}

/// Whether the buckets follow one another from time zero on, each from the stop of the one before,
/// with the last one open.
pub open spec fn chained(buckets: Seq<SdkThroughputBucket>) -> bool {
    &&& buckets.len() > 0
    &&& buckets[0].start == 0
    &&& buckets.last().stop is None
    &&& forall|i: int|
        0 <= i < buckets.len() - 1 ==> (#[trigger] buckets[i]).stop == Some(buckets[i + 1].start)
}

/// Whether each total counts the bytes of its bucket and of all before it.
pub open spec fn totals_add_up(buckets: Seq<SdkThroughputBucket>) -> bool {
    forall|k: int|
        0 <= k < buckets.len() ==> (#[trigger] buckets[k]).total == held_bytes(buckets.take(k + 1))
}

proof fn lemma_held_grows(buckets: Seq<SdkThroughputBucket>, upto: int)
    requires
        0 <= upto <= buckets.len(),
    ensures
        held_bytes(buckets.take(upto)) <= held_bytes(buckets),
    decreases buckets.len(),
{
    if upto == buckets.len() {
        assert(buckets.take(upto) =~= buckets);
    } else {
        lemma_held_grows(buckets.drop_last(), upto);
        assert(buckets.drop_last().take(upto) =~= buckets.take(upto));
    }
}

proof fn lemma_adding_keeps_order(buckets: Seq<SdkThroughputBucket>, index: int, size: int)
    requires
        chained(buckets),
        totals_add_up(buckets),
        0 <= index < buckets.len(),
        0 <= size,
        held_bytes(buckets) + size <= u64::MAX,
    ensures
        chained(added(buckets, index, size)),
        totals_add_up(added(buckets, index, size)),
{
    let after = added(buckets, index, size);
    assert forall|i: int| 0 <= i < after.len() - 1 implies (#[trigger] after[i]).stop == Some(
        after[i + 1].start,
    ) by {
        assert(buckets[i].stop == Some(buckets[i + 1].start));
    }
    assert forall|k: int| 0 <= k < after.len() implies (#[trigger] after[k]).total == held_bytes(
        after.take(k + 1),
    ) by {
        let front = buckets.take(k + 1);
        assert(buckets[k].total == held_bytes(front));
        lemma_held_grows(buckets, k + 1);
        if k >= index {
            lemma_added_bytes(front, index, size);
            assert(after.take(k + 1) =~= added(front, index, size));
        } else {
            lemma_same_bytes(after.take(k + 1), front);
        }
    }
}

proof fn lemma_spreading_keeps_order(
    buckets: Seq<SdkThroughputBucket>,
    sent: int,
    received: int,
    remaining: int,
    target: int,
)
    requires
        chained(buckets),
        totals_add_up(buckets),
        0 <= target < buckets.len(),
        0 <= remaining,
        held_bytes(buckets) + remaining <= u64::MAX,
    ensures
        chained(spread(buckets, sent, received, remaining, target)),
        totals_add_up(spread(buckets, sent, received, remaining, target)),
    decreases target,
{
    if remaining > 0 {
        if target == 0 || sent >= buckets[target].start {
            lemma_adding_keeps_order(buckets, target, remaining);
        } else {
            let part = late_part(sent, received, buckets[target].start as int, remaining);
            lemma_late_part(sent, received, buckets[target].start as int, remaining);
            let filled = if part > 0 {
                added(buckets, target, part)
            } else {
                buckets
            };
            if part > 0 {
                lemma_added_bytes(buckets, target, part);
                lemma_adding_keeps_order(buckets, target, part);
            }
            match buckets[target - 1].stop {
                Some(stop) => lemma_spreading_keeps_order(
                    filled,
                    sent,
                    stop as int,
                    remaining - part,
                    target - 1,
                ),
                None => {
                    if remaining - part > 0 {
                        lemma_adding_keeps_order(filled, target - 1, remaining - part);
                    }
                },
            }
        }
    }
}

proof fn lemma_opening_keeps_order(rules: BucketRules, run: BucketRun, now: int)
    requires
        chained(run.buckets),
        totals_add_up(run.buckets),
    ensures
        chained(rules.opened(run, now).buckets),
        totals_add_up(rules.opened(run, now).buckets),
{
    let before = run.buckets;
    let after = rules.opened(run, now).buckets;
    let count = before.len() as int;
    assert forall|i: int| 0 <= i < after.len() - 1 implies (#[trigger] after[i]).stop == Some(
        after[i + 1].start,
    ) by {
        if i < count - 1 {
            assert(before[i].stop == Some(before[i + 1].start));
        }
    }
    assert forall|k: int| 0 <= k < after.len() implies (#[trigger] after[k]).total == held_bytes(
        after.take(k + 1),
    ) by {
        if k < count {
            assert(before[k].total == held_bytes(before.take(k + 1)));
            lemma_same_bytes(after.take(k + 1), before.take(k + 1));
        } else {
            assert(before[count - 1].total == held_bytes(before.take(count)));
            assert(before.take(count) =~= before);
            assert(after.take(k + 1) =~= after);
            lemma_opening_keeps_bytes(rules, run, now);
        }
    }
}

proof fn lemma_growing_keeps_order(rules: BucketRules, run: BucketRun, now: int, target: int)
    requires
        chained(run.buckets),
        totals_add_up(run.buckets),
    ensures
        chained(rules.grown(run, now, target).buckets),
        totals_add_up(rules.grown(run, now, target).buckets),
    decreases target + 1 - run.buckets.len(),
{
    if run.buckets.len() <= target {
        lemma_opening_keeps_order(rules, run, now);
        lemma_opening_keeps_bytes(rules, run, now);
        lemma_growing_keeps_order(rules, rules.opened(run, now), now, target);
    }
}

/// The buckets of a run follow one another from time zero on without a gap, each total is the sum
/// of the bytes so far, and the last total counts every byte of the samples.
pub proof fn built_buckets_follow_one_another(rules: BucketRules, samples: Seq<SdkTransferSample>)
    requires
        rules.valid(),
        sample_bytes(samples) <= u64::MAX,
    ensures
        chained(rules.built(samples).buckets),
        totals_add_up(rules.built(samples).buckets),
        rules.built(samples).buckets.last().total == sample_bytes(samples),
    decreases samples.len(),
{
    building_conserves_bytes(rules, samples);
    let built = rules.built(samples).buckets;
    if samples.len() == 0 {
        assert(built.take(1) =~= built);
        assert(held_bytes(built.drop_last()) == 0);
    } else {
        let earlier = samples.drop_last();
        let run = rules.built(earlier);
        let sample = samples.last();
        let now = sample.received_at as int;
        let target = rules.target(now, run.buckets);
        built_buckets_follow_one_another(rules, earlier);
        building_conserves_bytes(rules, earlier);
        lemma_target_is_index(rules, now, run.buckets);
        lemma_growing_keeps_order(rules, run, now, target);
        lemma_growing_keeps_bytes(rules, run, now, target);
        lemma_spreading_keeps_order(
            rules.grown(run, now, target).buckets,
            sample.sent_at as int,
            now,
            sample.size as int,
            target,
        );
    }
    let n = built.len() as int;
    assert(built[n - 1].total == held_bytes(built.take(n)));
    assert(built.take(n) =~= built);
}

/// A built run.
#[derive(Debug)]
pub struct BucketedThroughput {
    pub buckets: Vec<SdkThroughputBucket>,
    pub first_good: Option<usize>,
}

impl View for BucketedThroughput {
    type V = BucketRun;

    open spec fn view(&self) -> BucketRun {
        BucketRun {
            buckets: self.buckets@,
            first_good: match self.first_good {
                Some(index) => Some(index as int),
                None => None,
            },
        }
    }
}

fn open_bucket(rules: &BucketRules, run: &mut BucketedThroughput, now: u64)
    requires
        old(run).buckets.len() < usize::MAX,
    ensures
        final(run)@ == rules.opened(old(run)@, now as int),
{
    let count: usize = run.buckets.len();
    let mut start: u64 = now;
    let mut total: u64 = 0;
    if count > 0 {
        let last = run.buckets[count - 1];
        let full: u64 = last.start.saturating_add(rules.sample_length);
        let stop: u64 = if full <= now {
            full
        } else {
            now
        };
        let closed = SdkThroughputBucket {
            bytes: last.bytes,
            start: last.start,
            stop: Some(stop),
            total: last.total,
        };
        run.buckets.set(count - 1, closed);
        start = stop;
        total = last.total;
    }
    run.buckets.push(SdkThroughputBucket { bytes: 0, start, stop: None, total });
    assert(run.buckets@ =~= rules.opened(old(run)@, now as int).buckets);
    if run.first_good.is_none() {
        if let Some(duration) = rules.test_duration {
            if start as u128 * 2 > duration as u128 {
                run.first_good = Some(count);
            }
        }
    }
}

fn add_bytes(buckets: &mut Vec<SdkThroughputBucket>, index: usize, size: u64)
    requires
        index < old(buckets).len(),
    ensures
        final(buckets)@ == added(old(buckets)@, index as int, size as int),
{
    let ghost before = buckets@;
    let mut i: usize = index;
    while i < buckets.len()
        invariant
            index <= i <= buckets.len(),
            index < buckets.len(),
            buckets.len() == before.len(),
            forall|k: int| 0 <= k < i ==> buckets[k] == added(before, index as int, size as int)[k],
            forall|k: int| i <= k < buckets.len() ==> buckets[k] == before[k],
        decreases buckets.len() - i,
    {
        let b = buckets[i];
        let grown = SdkThroughputBucket {
            bytes: if i == index {
                b.bytes.saturating_add(size)
            } else {
                b.bytes
            },
            start: b.start,
            stop: b.stop,
            total: b.total.saturating_add(size),
        };
        buckets.set(i, grown);
        i = i + 1;
    }
    assert(buckets@ =~= added(before, index as int, size as int));
}

fn compute_late_part(sent: u64, received: u64, start: u64, remaining: u64) -> (r: u64)
    ensures
        r == late_part(sent as int, received as int, start as int, remaining as int),
        r <= remaining,
{
    proof {
        lemma_late_part(sent as int, received as int, start as int, remaining as int);
    }
    if received > start && received > sent {
        proof {
            assert(remaining * (received - start) <= u64::MAX * u64::MAX) by (nonlinear_arith)
                requires
                    0 <= remaining <= u64::MAX,
                    0 <= received - start <= u64::MAX,
            ;
            assert(u64::MAX * u64::MAX <= u128::MAX) by (nonlinear_arith);
        }
        let part: u128 = round_div(
            remaining as u128 * ((received - start) as u128),
            (received - sent) as u128,
        );
        if part < remaining as u128 {
            part as u64
        } else {
            remaining
        }
    } else {
        0
    }
}

fn spread_sample(buckets: &mut Vec<SdkThroughputBucket>, sample: &SdkTransferSample, target: usize)
    requires
        target < old(buckets).len(),
    ensures
        final(buckets)@ == spread(
            old(buckets)@,
            sample.sent_at as int,
            sample.received_at as int,
            sample.size as int,
            target as int,
        ),
{
    let ghost whole = spread(
        buckets@,
        sample.sent_at as int,
        sample.received_at as int,
        sample.size as int,
        target as int,
    );
    let mut remaining: u64 = sample.size;
    let mut received: u64 = sample.received_at;
    let mut index: usize = target;
    while remaining > 0 && index > 0 && sample.sent_at < buckets[index].start
        invariant
            index < buckets.len(),
            whole == spread(
                old(buckets)@,
                sample.sent_at as int,
                sample.received_at as int,
                sample.size as int,
                target as int,
            ),
            whole == spread(
                buckets@,
                sample.sent_at as int,
                received as int,
                remaining as int,
                index as int,
            ),
        decreases index,
    {
        let ghost before = buckets@;
        let part: u64 = compute_late_part(
            sample.sent_at,
            received,
            buckets[index].start,
            remaining,
        );
        if part > 0 {
            add_bytes(buckets, index, part);
            remaining = remaining - part;
        }
        index = index - 1;
        assert(buckets[index as int].stop == before[index as int].stop);
        match buckets[index].stop {
            Some(stop) => {
                received = stop;
            },
            None => {
                if remaining > 0 {
                    add_bytes(buckets, index, remaining);
                }
                assert(buckets@ == whole);
                return ;
            },
        }
    }
    if remaining > 0 {
        add_bytes(buckets, index, remaining);
    }
}

fn find_target(rules: &BucketRules, now: u64, buckets: &Vec<SdkThroughputBucket>) -> (r: u64)
    requires
        rules.valid(),
        buckets.len() > 0,
    ensures
        r == rules.target(now as int, buckets@),
        r < usize::MAX,
{
    proof {
        lemma_target_is_index(*rules, now as int, buckets@);
    }
    let by_time: u64 = now / rules.sample_length;
    let count: usize = buckets.len();
    let index: u64 = if rules.sample_length == rules.minimum_length {
        by_time
    } else {
        let ready: u128 = buckets[count - 1].start as u128 + rules.minimum_length as u128;
        if count as u64 <= by_time && now as u128 >= ready {
            by_time
        } else {
            (count - 1) as u64
        }
    };
    let whole: u128 = MAX_BUCKETED_SPAN as u128 + rules.minimum_length as u128 - 1;
    let last: u64 = (whole / rules.minimum_length as u128) as u64;
    if index <= last {
        index
    } else {
        last
    }
}

/// Cuts the transfers of a run into buckets.
pub fn build_buckets(rules: &BucketRules, samples: &Vec<SdkTransferSample>) -> (run:
    BucketedThroughput)
    requires
        rules.valid(),
    ensures
        run@ == rules.built(samples@),
        run.buckets.len() > 0,
{
    let mut run = BucketedThroughput { buckets: Vec::new(), first_good: None };
    assert(run@.buckets =~= Seq::<SdkThroughputBucket>::empty());
    open_bucket(rules, &mut run, 0);
    let mut i: usize = 0;
    assert(samples@.take(0) =~= Seq::<SdkTransferSample>::empty());
    while i < samples.len()
        invariant
            rules.valid(),
            i <= samples.len(),
            run@ == rules.built(samples@.take(i as int)),
            run.buckets.len() > 0,
        decreases samples.len() - i,
    {
        let sample = samples[i];
        let ghost before = run@;
        let now: u64 = sample.received_at;
        let target: u64 = find_target(rules, now, &run.buckets);
        while run.buckets.len() as u64 <= target
            invariant
                target < usize::MAX,
                run.buckets.len() > 0,
                rules.grown(run@, now as int, target as int) == rules.grown(
                    before,
                    now as int,
                    target as int,
                ),
            decreases target + 1 - run.buckets.len(),
        {
            let ghost inner = run@;
            open_bucket(rules, &mut run, now);
            proof {
                lemma_opening_keeps_bytes(*rules, inner, now as int);
            }
        }
        spread_sample(&mut run.buckets, &sample, target as usize);
        proof {
            let upto = samples@.take(i + 1);
            assert(upto.drop_last() =~= samples@.take(i as int));
            assert(upto.last() == sample);
            lemma_spread_len(
                rules.grown(before, now as int, target as int).buckets,
                sample.sent_at as int,
                now as int,
                sample.size as int,
                target as int,
            );
        }
        i = i + 1;
    }
    assert(samples@.take(i as int) =~= samples@);
    run
}

proof fn lemma_spread_len(
    buckets: Seq<SdkThroughputBucket>,
    sent: int,
    received: int,
    remaining: int,
    target: int,
)
    ensures
        spread(buckets, sent, received, remaining, target).len() == buckets.len(),
    decreases target,
{
    if remaining > 0 && target > 0 && sent < buckets[target].start {
        let part = late_part(sent, received, buckets[target].start as int, remaining);
        let filled = if part > 0 {
            added(buckets, target, part)
        } else {
            buckets
        };
        if let Some(stop) = buckets[target - 1].stop {
            lemma_spread_len(filled, sent, stop as int, remaining - part, target - 1);
        }
    }
}

/// A new bucket starts where the one before it stops: after the full length, or now if that is
/// earlier. The first bucket that starts beyond half of the test is remembered.
pub proof fn buckets_open_where_the_last_one_stops(rules: BucketRules, run: BucketRun, now: u64)
    ensures
        ({
            let after = rules.opened(run, now as int);
            let count = run.buckets.len() as int;
            &&& after.buckets.len() == count + 1
            &&& after.buckets.last().stop is None
            &&& after.buckets.last().bytes == 0
            &&& count == 0 ==> after.buckets[0].start == now
            &&& count > 0 ==> {
                let closed = after.buckets[count - 1];
                &&& closed.stop == Some(after.buckets.last().start)
                &&& closed.stop->0 <= now && closed.stop->0 <= closed.start + rules.sample_length
                &&& closed.stop->0 == now || closed.stop->0 == closed.start + rules.sample_length
                &&& closed.bytes == run.buckets.last().bytes
                &&& closed.start == run.buckets.last().start
            }
            &&& forall|k: int| 0 <= k < count - 1 ==> #[trigger] after.buckets[k] == run.buckets[k]
            &&& run.first_good is Some ==> after.first_good == run.first_good
            &&& run.first_good is None ==> match rules.test_duration {
                Some(duration) => if 2 * after.buckets.last().start > duration {
                    after.first_good == Some(count)
                } else {
                    after.first_good is None
                },
                None => after.first_good is None,
            }
        }),
{
}

/// Bytes that are added count in their bucket alone, and in the totals from there on.
pub proof fn added_bytes_count_from_their_bucket_on(
    buckets: Seq<SdkThroughputBucket>,
    index: int,
    size: int,
    i: int,
)
    requires
        0 <= i < buckets.len(),
        0 <= size,
        buckets[i].bytes + size <= u64::MAX,
        buckets[i].total + size <= u64::MAX,
    ensures
        added(buckets, index, size).len() == buckets.len(),
        added(buckets, index, size)[i].start == buckets[i].start,
        added(buckets, index, size)[i].stop == buckets[i].stop,
        i != index ==> added(buckets, index, size)[i].bytes == buckets[i].bytes,
        i == index ==> added(buckets, index, size)[i].bytes == buckets[i].bytes + size,
        i < index ==> added(buckets, index, size)[i].total == buckets[i].total,
        i >= index ==> added(buckets, index, size)[i].total == buckets[i].total + size,
{
}

/// Buckets of one fixed length are chosen by the time. Otherwise a new bucket waits until the open
/// one has its least length.
pub proof fn transfers_go_to_the_bucket_of_their_time(
    rules: BucketRules,
    now: u64,
    buckets: Seq<SdkThroughputBucket>,
)
    requires
        rules.valid(),
        buckets.len() > 0,
    ensures
        ({
            let index = rules.target(now as int, buckets);
            let length = rules.sample_length as int;
            &&& rules.sample_length == rules.minimum_length && index < rules.last_index() ==> index
                * length <= now < (index + 1) * length
            &&& rules.sample_length != rules.minimum_length && now < buckets.last().start
                + rules.minimum_length && buckets.len() <= rules.last_index() ==> index
                == buckets.len() - 1
            &&& index <= rules.last_index()
            &&& rules.last_index() * rules.minimum_length >= MAX_BUCKETED_SPAN
        }),
{
    lemma_target_is_index(rules, now as int, buckets);
    let by_time = now as int / (rules.sample_length as int);
    let length = rules.sample_length as int;
    assert(by_time * length <= now < (by_time + 1) * length) by (nonlinear_arith)
        requires
            by_time == now as int / length,
            length > 0,
    ;
    let least_length = rules.minimum_length as int;
    let last = rules.last_index();
    assert(last * least_length >= MAX_BUCKETED_SPAN) by (nonlinear_arith)
        requires
            last == (MAX_BUCKETED_SPAN + least_length - 1) / least_length,
            least_length > 0,
    ;
}

/// A transfer is spread in proportion to the time that it took: what came after a point in time is
/// the share of the time after it, to the nearest byte, and all of it where it was sent then.
pub proof fn late_parts_are_in_proportion(sent: int, received: int, start: int, remaining: int)
    requires
        0 <= remaining,
        sent < received,
    ensures
        start <= sent ==> late_part(sent, received, start, remaining) == remaining,
        start >= received ==> late_part(sent, received, start, remaining) == 0,
        sent <= start < received ==> {
            let part = late_part(sent, received, start, remaining);
            let span = received - sent;
            &&& 2 * (span * part - remaining * (received - start)) <= span
            &&& 2 * (remaining * (received - start) - span * part) <= span
        },
{
    let span = received - sent;
    let late = received - start;
    if start < received {
        let whole = remaining * late;
        let part = rounded_quotient(whole, span);
        rounding_goes_to_the_nearest(whole, span);
        if start <= sent {
            assert(whole >= remaining * span) by (nonlinear_arith)
                requires
                    whole == remaining * late,
                    late >= span,
                    remaining >= 0,
            ;
            assert(part >= remaining) by (nonlinear_arith)
                requires
                    whole >= remaining * span,
                    2 * (whole - span * part) < span,
                    span > 0,
            ;
        }
        if sent <= start {
            assert(whole <= remaining * span) by (nonlinear_arith)
                requires
                    whole == remaining * late,
                    0 <= late <= span,
                    remaining >= 0,
            ;
            if part > remaining {
                assert(false) by (nonlinear_arith)
                    requires
                        part >= remaining + 1,
                        whole <= remaining * span,
                        2 * (span * part - whole) <= span,
                        span > 0,
                ;
            }
        }
    }
}

} // verus!
