//! Moving Sample Trimmed (MST) throughput measurement.
//!
//! Cumulative samples are cut into time buckets of 500 ms and 750 ms. The trimmed speeds, the
//! blended speed, the superspeed window and the early-exit test are all computed from those
//! buckets in exact arithmetic: a speed is a [`Rate`], never a rounded number.

use vstd::arithmetic::div_mod::lemma_fundamental_div_mod_converse;
use vstd::prelude::*;

use crate::num::fraction::Fraction;
use crate::num::fullest::{
    amounts, chosen_among, chosen_bytes, one_length, order_does_not_matter,
    the_last_places_are_fullest,
};
use crate::num::rate::Rate;
use crate::num::trim::{
    middle_speed, ranked_entries, ranked_speed, ranks_are_a_permutation, word_sized,
};
use crate::num::whole::{clamped, greatest, least, monus};
use crate::num::wide::Wide;

verus! {

/// A time bucket: the bytes that arrived in it, and the total at its end.
#[derive(Clone, Copy, Debug, PartialEq, Eq, Structural)]
pub struct Bucket {
    pub start_ms: u64,
    pub stop_ms: u64,
    pub bytes: u64,
    pub total_bytes: u64,
}

impl Bucket {
    pub open spec fn speed(self) -> Rate {
        Rate {
            bytes: self.bytes as u128,
            ticks: monus(self.stop_ms as int, self.start_ms as int) as u128,
        }
    }

    /// The speed over this bucket.
    pub fn bandwidth_bytes_per_sec(&self) -> (r: Rate)
        ensures
            r == self.speed(),
    {
        Rate {
            bytes: self.bytes as u128,
            ticks: self.stop_ms.saturating_sub(self.start_ms) as u128,
        }
    }
}

/// What a [`BucketStream`] holds.
pub struct StreamModel {
    pub sample_length_ms: int,
    pub buckets: Seq<Bucket>,
    pub current_start_ms: int,
    pub bytes_at_current_start: int,
    pub started: bool,
}

impl StreamModel {
    pub open spec fn empty(sample_length_ms: int) -> StreamModel {
        StreamModel {
            sample_length_ms,
            buckets: Seq::empty(),
            current_start_ms: 0,
            bytes_at_current_start: 0,
            started: false,
        }
    }

    /// How many buckets a sample at `elapsed_ms` closes.
    pub open spec fn closed_by(self, elapsed_ms: int) -> int {
        monus(elapsed_ms, self.current_start_ms) / self.sample_length_ms
    }

    /// The `j`-th bucket that a sample closes. The first takes all the bytes that arrived since
    /// the last close, the others are empty.
    pub open spec fn closed_bucket(self, j: int, cumulative_bytes: int) -> Bucket {
        Bucket {
            start_ms: (self.current_start_ms + j * self.sample_length_ms) as u64,
            stop_ms: (self.current_start_ms + (j + 1) * self.sample_length_ms) as u64,
            bytes: if j == 0 {
                monus(cumulative_bytes, self.bytes_at_current_start) as u64
            } else {
                0
            },
            total_bytes: cumulative_bytes as u64,
        }
    }

    /// The stream after one more sample. The first sample only sets the origin.
    pub open spec fn recorded(self, elapsed_ms: int, cumulative_bytes: int) -> StreamModel {
        if !self.started {
            StreamModel {
                started: true,
                current_start_ms: elapsed_ms,
                bytes_at_current_start: cumulative_bytes,
                ..self
            }
        } else {
            let closed = self.closed_by(elapsed_ms);
            StreamModel {
                buckets: self.buckets + Seq::new(
                    closed as nat,
                    |j: int| self.closed_bucket(j, cumulative_bytes),
                ),
                current_start_ms: self.current_start_ms + closed * self.sample_length_ms,
                bytes_at_current_start: if closed > 0 {
                    cumulative_bytes
                } else {
                    self.bytes_at_current_start
                },
                ..self
            }
        }
    }

    /// The buckets have one length, follow each other without a gap and end where the open
    /// bucket starts.
    pub open spec fn contiguous(self) -> bool {
        &&& self.sample_length_ms > 0
        &&& 0 <= self.current_start_ms <= u64::MAX
        &&& 0 <= self.bytes_at_current_start <= u64::MAX
        &&& !self.started ==> self.buckets.len() == 0
        &&& forall|i: int|
            0 <= i < self.buckets.len() ==> (#[trigger] self.buckets[i]).stop_ms
                - self.buckets[i].start_ms == self.sample_length_ms
        &&& forall|i: int|
            0 < i < self.buckets.len() ==> (#[trigger] self.buckets[i]).start_ms == self.buckets[i
                - 1].stop_ms
        &&& self.buckets.len() > 0 ==> self.buckets.last().stop_ms == self.current_start_ms
    }
}

/// The bytes of the buckets together.
pub open spec fn bucket_bytes(buckets: Seq<Bucket>) -> int
    decreases buckets.len(),
{
    if buckets.len() == 0 {
        0
    } else {
        bucket_bytes(buckets.drop_last()) + buckets.last().bytes
    }
}

/// Recording a sample keeps the buckets contiguous and of one length.
pub proof fn recording_keeps_contiguity(stream: StreamModel, elapsed_ms: int, cumulative_bytes: int)
    requires
        stream.contiguous(),
        0 <= elapsed_ms <= u64::MAX,
        0 <= cumulative_bytes <= u64::MAX,
    ensures
        stream.recorded(elapsed_ms, cumulative_bytes).contiguous(),
{
    if stream.started {
        let after = stream.recorded(elapsed_ms, cumulative_bytes);
        let len = stream.sample_length_ms;
        let closed = stream.closed_by(elapsed_ms);
        let span = monus(elapsed_ms, stream.current_start_ms);
        assert(0 <= closed && closed * len <= span) by (nonlinear_arith)
            requires
                closed == span / len,
                len > 0,
                span >= 0,
        ;
        let old_count = stream.buckets.len();
        assert forall|j: int| 0 <= j < closed implies {
            &&& (#[trigger] stream.closed_bucket(j, cumulative_bytes)).start_ms
                == stream.current_start_ms + j * len
            &&& stream.closed_bucket(j, cumulative_bytes).stop_ms == stream.current_start_ms + (j
                + 1) * len
            &&& (j + 1) * len == j * len + len
        } by {
            assert((j + 1) * len <= closed * len && (j + 1) * len == j * len + len && j * len >= 0)
                by (nonlinear_arith)
                requires
                    0 <= j,
                    j + 1 <= closed,
                    len > 0,
            ;
        }
        assert forall|i: int| 0 <= i < after.buckets.len() implies (
        #[trigger] after.buckets[i]).stop_ms - after.buckets[i].start_ms == len by {
            if i >= old_count {
                assert(after.buckets[i] == stream.closed_bucket(i - old_count, cumulative_bytes));
            }
        }
        assert forall|i: int| 0 < i < after.buckets.len() implies (
        #[trigger] after.buckets[i]).start_ms == after.buckets[i - 1].stop_ms by {
            if i >= old_count {
                let j = i - old_count;
                assert(after.buckets[i] == stream.closed_bucket(j, cumulative_bytes));
                if j > 0 {
                    assert(after.buckets[i - 1] == stream.closed_bucket(j - 1, cumulative_bytes));
                } else {
                    assert(0 * len == 0);
                    assert(after.buckets[i - 1] == stream.buckets.last());
                }
            }
        }
        if closed > 0 {
            assert(after.buckets.last() == stream.closed_bucket(closed - 1, cumulative_bytes));
        } else {
            assert(after.buckets =~= stream.buckets);
            assert(closed * len == 0) by (nonlinear_arith)
                requires
                    closed == 0,
            ;
        }
    }
}

proof fn lemma_bucket_bytes_append(front: Seq<Bucket>, back: Seq<Bucket>)
    ensures
        bucket_bytes(front + back) == bucket_bytes(front) + bucket_bytes(back),
    decreases back.len(),
{
    if back.len() == 0 {
        assert(front + back =~= front);
    } else {
        assert((front + back).drop_last() =~= front + back.drop_last());
        lemma_bucket_bytes_append(front, back.drop_last());
    }
}

proof fn lemma_only_first_bucket_filled(buckets: Seq<Bucket>)
    requires
        forall|i: int| 0 < i < buckets.len() ==> (#[trigger] buckets[i]).bytes == 0,
    ensures
        bucket_bytes(buckets) == if buckets.len() == 0 {
            0
        } else {
            buckets[0].bytes as int
        },
    decreases buckets.len(),
{
    if buckets.len() > 1 {
        lemma_only_first_bucket_filled(buckets.drop_last());
        assert(buckets.drop_last()[0] == buckets[0]);
        assert(buckets.last() == buckets[buckets.len() - 1]);
    } else if buckets.len() == 1 {
        assert(bucket_bytes(buckets.drop_last()) == 0);
    }
}

/// No byte is lost or counted twice: as long as the total only grows, the buckets hold what
/// arrived between the origin and the start of the open bucket.
pub proof fn recording_accounts_for_every_byte(
    stream: StreamModel,
    origin_bytes: int,
    elapsed_ms: int,
    cumulative_bytes: int,
)
    requires
        stream.contiguous(),
        stream.started,
        bucket_bytes(stream.buckets) == stream.bytes_at_current_start - origin_bytes,
        0 <= elapsed_ms <= u64::MAX,
        stream.bytes_at_current_start <= cumulative_bytes <= u64::MAX,
    ensures
        ({
            let after = stream.recorded(elapsed_ms, cumulative_bytes);
            bucket_bytes(after.buckets) == after.bytes_at_current_start - origin_bytes
        }),
{
    let closed = stream.closed_by(elapsed_ms);
    let span = monus(elapsed_ms, stream.current_start_ms);
    assert(0 <= closed) by (nonlinear_arith)
        requires
            closed == span / stream.sample_length_ms,
            stream.sample_length_ms > 0,
            span >= 0,
    ;
    let fresh = Seq::new(closed as nat, |j: int| stream.closed_bucket(j, cumulative_bytes));
    lemma_bucket_bytes_append(stream.buckets, fresh);
    lemma_only_first_bucket_filled(fresh);
}

/// Cuts cumulative samples into buckets of a fixed length.
#[derive(Debug)]
pub struct BucketStream {
    sample_length_ms: u64,
    buckets: Vec<Bucket>,
    current_start_ms: u64,
    bytes_at_current_start: u64,
    started: bool,
}

impl View for BucketStream {
    type V = StreamModel;

    closed spec fn view(&self) -> StreamModel {
        StreamModel {
            sample_length_ms: self.sample_length_ms as int,
            buckets: self.buckets@,
            current_start_ms: self.current_start_ms as int,
            bytes_at_current_start: self.bytes_at_current_start as int,
            started: self.started,
        }
    }
}

impl BucketStream {
    pub fn new(sample_length_ms: u64) -> (stream: BucketStream)
        requires
            sample_length_ms > 0,
        ensures
            stream@ == StreamModel::empty(sample_length_ms as int),
            stream@.contiguous(),
    {
        BucketStream {
            sample_length_ms,
            buckets: Vec::new(),
            current_start_ms: 0,
            bytes_at_current_start: 0,
            started: false,
        }
    }

    pub fn record(&mut self, elapsed_ms: u64, cumulative_bytes: u64)
        requires
            old(self)@.contiguous(),
        ensures
            final(self)@ == old(self)@.recorded(elapsed_ms as int, cumulative_bytes as int),
            final(self)@.contiguous(),
    {
        let ghost before = self@;
        proof {
            recording_keeps_contiguity(before, elapsed_ms as int, cumulative_bytes as int);
        }
        if !self.started {
            self.started = true;
            self.current_start_ms = elapsed_ms;
            self.bytes_at_current_start = cumulative_bytes;
            return ;
        }
        let ghost mut closed: int = 0;
        let ghost len: int = self.sample_length_ms as int;
        assert(self.buckets@ =~= before.buckets + Seq::new(
            0,
            |j: int| before.closed_bucket(j, cumulative_bytes as int),
        ));
        assert(0 * len == 0);
        while elapsed_ms >= self.current_start_ms && elapsed_ms - self.current_start_ms
            >= self.sample_length_ms
            invariant
                before.contiguous(),
                before.started,
                closed >= 0,
                len == before.sample_length_ms,
                self.sample_length_ms == len,
                self.started,
                self.current_start_ms == before.current_start_ms + closed * len,
                closed > 0 ==> self.current_start_ms <= elapsed_ms,
                self.bytes_at_current_start == (if closed > 0 {
                    cumulative_bytes as int
                } else {
                    before.bytes_at_current_start
                }),
                self.buckets@ == before.buckets + Seq::new(
                    closed as nat,
                    |j: int| before.closed_bucket(j, cumulative_bytes as int),
                ),
            decreases elapsed_ms - self.current_start_ms,
        {
            let bucket_end: u64 = self.current_start_ms + self.sample_length_ms;
            let bytes: u64 = cumulative_bytes.saturating_sub(self.bytes_at_current_start);
            let bucket = Bucket {
                start_ms: self.current_start_ms,
                stop_ms: bucket_end,
                bytes,
                total_bytes: cumulative_bytes,
            };
            self.buckets.push(bucket);
            self.current_start_ms = bucket_end;
            self.bytes_at_current_start = cumulative_bytes;
            proof {
                assert((closed + 1) * len == closed * len + len) by (nonlinear_arith);
                assert(bucket == before.closed_bucket(closed, cumulative_bytes as int));
                closed = closed + 1;
                assert(self.buckets@ =~= before.buckets + Seq::new(
                    closed as nat,
                    |j: int| before.closed_bucket(j, cumulative_bytes as int),
                ));
            }
        }
        proof {
            let span = monus(elapsed_ms as int, before.current_start_ms);
            if closed > 0 || elapsed_ms >= before.current_start_ms {
                assert(closed >= 0 ==> closed * len >= 0) by (nonlinear_arith)
                    requires
                        len > 0,
                ;
                assert(span == closed * len + (elapsed_ms - self.current_start_ms));
                assert(span == len * closed + (elapsed_ms - self.current_start_ms))
                    by (nonlinear_arith)
                    requires
                        span == closed * len + (elapsed_ms - self.current_start_ms),
                ;
                lemma_fundamental_div_mod_converse(
                    span,
                    len,
                    closed,
                    elapsed_ms - self.current_start_ms,
                );
            } else {
                lemma_fundamental_div_mod_converse(0, len, 0, 0);
            }
            assert(closed == before.closed_by(elapsed_ms as int));
        }
    }

    pub fn buckets(&self) -> (r: &Vec<Bucket>)
        ensures
            r@ == self@.buckets,
    {
        &self.buckets
    }
}

/// Configuration of a transfer stage.
#[derive(Clone, Copy, Debug)]
pub struct TransferConfig {
    pub connections: usize,
    pub initial_connections: usize,
    pub max_seconds: u64,
    pub progress_interval_nanos: Option<u64>,
    pub request_target_ms: u64,
    pub start_request_size: usize,
    pub min_request_size: usize,
    pub max_request_size: usize,
}

impl TransferConfig {
    /// The connections to open at the start: at least one, and no more than may be open at all.
    pub fn initial_connections(&self) -> (r: usize)
        ensures
            r == clamped(
                self.initial_connections as int,
                1,
                if self.connections == 0 {
                    1
                } else {
                    self.connections as int
                },
            ),
    {
        let limit: usize = if self.connections == 0 {
            1
        } else {
            self.connections
        };
        if self.initial_connections < 1 {
            1
        } else if self.initial_connections > limit {
            limit
        } else {
            self.initial_connections
        }
    }
}

/// Parameters of one trimming variant.
#[derive(Clone, Copy, Debug, PartialEq, Eq, Structural)]
pub struct MstAlgoConfig {
    /// The share of the buckets that is kept, in percent.
    pub keep_percent: u64,
    /// The buckets at the start that are left out.
    pub warmup_buckets: usize,
}

/// How many of `total` buckets are dropped: the share that is not kept, to the nearest whole
/// number, halves upwards. None is dropped where all are kept or more.
pub open spec fn dropped_count(total: int, keep_percent: int) -> int {
    if keep_percent >= 100 {
        0
    } else {
        ((100 - keep_percent) * total * 2 + 100) / 200
    }
}

/// The speeds of the buckets.
pub open spec fn bucket_speeds(buckets: Seq<Bucket>) -> Seq<Rate> {
    buckets.map_values(|b: Bucket| b.speed())
}

/// The trimmed speed: the warm-up buckets and then the slowest of the rest are left out, and what
/// remains is averaged. Zero where nothing remains.
pub open spec fn mst_speed(buckets: Seq<Bucket>, config: MstAlgoConfig) -> Rate {
    if buckets.len() <= config.warmup_buckets {
        Rate::none()
    } else {
        let speeds = bucket_speeds(buckets.skip(config.warmup_buckets as int));
        let total = speeds.len() as int;
        let kept = ranked_speed(speeds, dropped_count(total, config.keep_percent as int), total);
        if kept.ticks == 0 {
            Rate::none()
        } else {
            kept
        }
    }
}

/// The trimmed speed of a run of buckets.
pub fn compute_mst(buckets: &Vec<Bucket>, config: &MstAlgoConfig) -> (r: Rate)
    ensures
        r == mst_speed(buckets@, *config),
{
    if buckets.len() <= config.warmup_buckets {
        return Rate::zero();
    }
    let warmup: usize = config.warmup_buckets;
    let total: usize = buckets.len() - warmup;
    let ghost active = buckets@.skip(warmup as int);
    let mut speeds: Vec<Rate> = Vec::new();
    let mut i: usize = warmup;
    while i < buckets.len()
        invariant
            warmup <= i <= buckets.len(),
            active == buckets@.skip(warmup as int),
            speeds@ == bucket_speeds(active.take(i - warmup)),
            word_sized(speeds@),
        decreases buckets.len() - i,
    {
        let speed = buckets[i].bandwidth_bytes_per_sec();
        speeds.push(speed);
        i = i + 1;
        assert(active[i - 1 - warmup].speed() == speed);
        assert(speeds@ =~= bucket_speeds(active.take(i - warmup)));
    }
    assert(active.take(i - warmup) =~= active);
    let dropped: u128 = if config.keep_percent >= 100 {
        0
    } else {
        assert(0 <= (100 - config.keep_percent) * total <= 100 * total) by (nonlinear_arith)
            requires
                0 <= config.keep_percent <= 100,
                total >= 0,
        ;
        ((100 - config.keep_percent) as u128 * (total as u128) * 2 + 100) / 200
    };
    let kept = middle_speed(&speeds, dropped, total as u128);
    if kept.ticks == 0 {
        return Rate::zero();
    }
    kept
}

/// All buckets after the warm-up but the dropped ones count.
pub proof fn mst_keeps_the_stated_share(buckets: Seq<Bucket>, config: MstAlgoConfig)
    requires
        buckets.len() > config.warmup_buckets,
    ensures
        ({
            let speeds = bucket_speeds(buckets.skip(config.warmup_buckets as int));
            let dropped = dropped_count(speeds.len() as int, config.keep_percent as int);
            &&& 0 <= dropped <= speeds.len()
            &&& ranked_entries(speeds, dropped, speeds.len() as int).len() == speeds.len() - dropped
        }),
{
    let speeds = bucket_speeds(buckets.skip(config.warmup_buckets as int));
    let total = speeds.len() as int;
    if config.keep_percent < 100 {
        let share = (100 - config.keep_percent) * total;
        assert(0 <= share <= 100 * total) by (nonlinear_arith)
            requires
                share == (100 - config.keep_percent) * total,
                0 <= config.keep_percent <= 100,
                total >= 0,
        ;
    }
    ranks_are_a_permutation(speeds, dropped_count(total, config.keep_percent as int), total);
}

/// Whether all buckets are of one length.
pub open spec fn evenly_long(buckets: Seq<Bucket>, length_ms: int) -> bool {
    length_ms > 0 && forall|i: int|
        0 <= i < buckets.len() ==> (#[trigger] buckets[i]).stop_ms - buckets[i].start_ms
            == length_ms
}

/// The bytes of the buckets.
pub open spec fn bucket_amounts(buckets: Seq<Bucket>) -> Seq<int> {
    buckets.map_values(|b: Bucket| b.bytes as int)
}

proof fn lemma_even_speeds(buckets: Seq<Bucket>, length_ms: int)
    requires
        evenly_long(buckets, length_ms),
    ensures
        one_length(bucket_speeds(buckets), length_ms),
        amounts(bucket_speeds(buckets)) == bucket_amounts(buckets),
{
    assert forall|i: int| 0 <= i < bucket_speeds(buckets).len() implies (
    #[trigger] bucket_speeds(buckets)[i]).ticks == length_ms by {
        assert(buckets[i].stop_ms - buckets[i].start_ms == length_ms);
    }
    assert(amounts(bucket_speeds(buckets)) =~= bucket_amounts(buckets));
}

proof fn lemma_chosen_bytes_bound(rates: Seq<Rate>, chosen: Set<int>, upto: int)
    requires
        0 <= upto <= rates.len(),
        word_sized(rates),
    ensures
        0 <= chosen_bytes(rates, chosen, upto) <= upto * u64::MAX,
    decreases upto,
{
    if upto > 0 {
        lemma_chosen_bytes_bound(rates, chosen, upto - 1);
        assert(upto * u64::MAX == (upto - 1) * u64::MAX + u64::MAX) by (nonlinear_arith);
    }
}

/// Among buckets of one length the trimmed speed is that of the fullest: as many as are kept, with
/// no bucket left out that holds more than one of them. No other choice of as many of the buckets
/// after the warm-up is faster.
pub proof fn mst_is_the_fastest_choice(
    buckets: Seq<Bucket>,
    config: MstAlgoConfig,
    length_ms: int,
    chosen: Set<int>,
)
    requires
        config.warmup_buckets < buckets.len() <= u64::MAX,
        evenly_long(buckets.skip(config.warmup_buckets as int), length_ms),
        chosen_among(chosen, buckets.len() - config.warmup_buckets),
        chosen.len() > 0,
        chosen.len() == buckets.len() - config.warmup_buckets - dropped_count(
            buckets.len() - config.warmup_buckets,
            config.keep_percent as int,
        ),
    ensures
        ({
            let active = buckets.skip(config.warmup_buckets as int);
            let speeds = bucket_speeds(active);
            let n = active.len() as int;
            let kept = ranked_entries(
                speeds,
                dropped_count(n, config.keep_percent as int),
                n,
            );
            let speed = mst_speed(buckets, config);
            &&& kept.len() == chosen.len()
            &&& speed.ticks == chosen.len() * length_ms
            &&& speed.bytes == chosen_bytes(speeds, kept, n)
            &&& chosen_bytes(speeds, chosen, n) <= speed.bytes
            &&& forall|i: int, j: int|
                #![trigger active[i], active[j]]
                kept.contains(i) && 0 <= j < n && !kept.contains(j) ==> active[j].bytes
                    <= active[i].bytes
        }),
{
    let active = buckets.skip(config.warmup_buckets as int);
    let speeds = bucket_speeds(active);
    let n = active.len() as int;
    let low = dropped_count(n, config.keep_percent as int);
    mst_keeps_the_stated_share(buckets, config);
    lemma_even_speeds(active, length_ms);
    the_last_places_are_fullest(speeds, length_ms, low, chosen);
    let kept = ranked_entries(speeds, low, n);
    lemma_chosen_bytes_bound(speeds, kept, n);
    assert(active[0].stop_ms - active[0].start_ms == length_ms);
    let ticks = length_ms * (n - low);
    assert(0 < ticks <= u64::MAX * u64::MAX && n * u64::MAX <= u64::MAX * u64::MAX)
        by (nonlinear_arith)
        requires
            0 < length_ms <= u64::MAX,
            0 < n - low <= u64::MAX,
            0 <= n <= u64::MAX,
            ticks == length_ms * (n - low),
    ;
    assert(u64::MAX * u64::MAX <= u128::MAX) by (nonlinear_arith);
    assert(chosen.len() * length_ms == length_ms * (n - low)) by (nonlinear_arith)
        requires
            chosen.len() == n - low,
    ;
    assert forall|i: int, j: int|
        #![trigger active[i], active[j]]
        kept.contains(i) && 0 <= j < n && !kept.contains(j) implies active[j].bytes
        <= active[i].bytes by {
        assert(speeds[i].bytes == active[i].bytes && speeds[j].bytes == active[j].bytes);
    }
}

/// Neither the warm-up buckets nor the order of the others matter to the trimmed speed: where the
/// buckets after the warm-up are of one length, it depends on their bytes alone.
pub proof fn warm_up_and_order_do_not_matter(
    a: Seq<Bucket>,
    b: Seq<Bucket>,
    config: MstAlgoConfig,
    length_ms: int,
)
    requires
        config.warmup_buckets < a.len(),
        config.warmup_buckets < b.len(),
        evenly_long(a.skip(config.warmup_buckets as int), length_ms),
        evenly_long(b.skip(config.warmup_buckets as int), length_ms),
        bucket_amounts(a.skip(config.warmup_buckets as int)).to_multiset() == bucket_amounts(
            b.skip(config.warmup_buckets as int),
        ).to_multiset(),
    ensures
        mst_speed(a, config) == mst_speed(b, config),
{
    let active_a = a.skip(config.warmup_buckets as int);
    let active_b = b.skip(config.warmup_buckets as int);
    lemma_even_speeds(active_a, length_ms);
    lemma_even_speeds(active_b, length_ms);
    mst_keeps_the_stated_share(a, config);
    order_does_not_matter(
        bucket_speeds(active_a),
        bucket_speeds(active_b),
        length_ms,
        dropped_count(active_a.len() as int, config.keep_percent as int),
    );
}

/// The blend of the plain average and the trimmed speed.
#[derive(Clone, Copy, Debug, PartialEq, Eq, Structural)]
pub enum BlendedRate {
    /// The average alone.
    Average(Rate),
    /// `mst * weight + average * (1 - weight)`, where the weight is
    /// `elapsed_ms / duration_ms`.
    Mixed { average: Rate, mst: Rate, elapsed_ms: u64, duration_ms: u64 },
}

impl BlendedRate {
    /// The speed in bytes per millisecond is `numerator() / denominator()`.
    pub open spec fn numerator(self) -> int {
        match self {
            BlendedRate::Average(rate) => rate.numerator(),
            BlendedRate::Mixed { average, mst, elapsed_ms, duration_ms } => elapsed_ms * (
            mst.numerator() * average.denominator()) + (duration_ms - elapsed_ms) * (
            average.numerator() * mst.denominator()),
        }
    }

    pub open spec fn denominator(self) -> int {
        match self {
            BlendedRate::Average(rate) => rate.denominator(),
            BlendedRate::Mixed { average, mst, elapsed_ms, duration_ms } => duration_ms * (
            mst.denominator() * average.denominator()),
        }
    }
}

/// The speed to report after `elapsed_ms` of a test of `duration_ms`: it moves from the average to
/// the trimmed speed in step with the time, and is the average where the trimmed speed is not
/// the greater one.
pub open spec fn blended(duration_ms: u64, average: Rate, mst: Rate, elapsed_ms: u64) -> BlendedRate {
    if duration_ms == 0 || !average.above(Rate::none()) || !mst.above(average) {
        BlendedRate::Average(average)
    } else {
        BlendedRate::Mixed {
            average,
            mst,
            elapsed_ms: if elapsed_ms > duration_ms {
                duration_ms
            } else {
                elapsed_ms
            },
            duration_ms,
        }
    }
}

/// The blended speed is never below the average, and never above the greater of the average and
/// the trimmed speed.
pub proof fn blend_stays_between(duration_ms: u64, average: Rate, mst: Rate, elapsed_ms: u64)
    ensures
        ({
            let b = blended(duration_ms, average, mst, elapsed_ms);
            &&& b.denominator() > 0
            &&& b.numerator() * average.denominator() >= average.numerator() * b.denominator()
            &&& b.numerator() * average.denominator() > average.numerator() * b.denominator()
                ==> b.numerator() * mst.denominator() <= mst.numerator() * b.denominator()
        }),
{
    let b = blended(duration_ms, average, mst, elapsed_ms);
    if let BlendedRate::Mixed { elapsed_ms: e, duration_ms: d, .. } = b {
        let (an, ad) = (average.numerator(), average.denominator());
        let (mn, md) = (mst.numerator(), mst.denominator());
        let high = mn * ad;
        let low = an * md;
        assert(high >= low);
        let e = e as int;
        let d = d as int;
        assert(b.denominator() > 0) by (nonlinear_arith)
            requires
                b.denominator() == d * (md * ad),
                d > 0,
                md > 0,
                ad > 0,
        ;
        assert(d * low <= e * high + (d - e) * low <= d * high) by (nonlinear_arith)
            requires
                0 <= e <= d,
                high >= low,
        ;
        assert(b.numerator() * ad >= an * b.denominator()) by (nonlinear_arith)
            requires
                b.numerator() >= d * low,
                low == an * md,
                b.denominator() == d * (md * ad),
                ad > 0,
        ;
        assert(b.numerator() * md <= mn * b.denominator()) by (nonlinear_arith)
            requires
                b.numerator() <= d * high,
                high == mn * ad,
                b.denominator() == d * (md * ad),
                md > 0,
        ;
    }
}

/// Blends the average and the trimmed speed of a test of `duration_ms`.
pub fn blend(duration_ms: u64, average: Rate, mst: Rate, elapsed_ms: u64) -> (r: BlendedRate)
    ensures
        r == blended(duration_ms, average, mst, elapsed_ms),
{
    if duration_ms == 0 || !average.is_positive() || !mst.exceeds(average) {
        return BlendedRate::Average(average);
    }
    let weight: u64 = if elapsed_ms > duration_ms {
        duration_ms
    } else {
        elapsed_ms
    };
    BlendedRate::Mixed { average, mst, elapsed_ms: weight, duration_ms }
}

/// The outcome of a finished measurement.
#[derive(Debug)]
pub struct ThroughputResult {
    pub average_bps: Rate,
    pub mst_66_30_bps: Rate,
    pub mst_66_20_bps: Rate,
    pub mst_75_30_bps: Rate,
    pub blended_bps: BlendedRate,
    pub superspeed_bps: Rate,
    pub buckets_500ms: Vec<Bucket>,
    pub total_bytes: u64,
    pub elapsed_ms: u64,
}

/// What a [`ThroughputCalculator`] holds.
pub struct CalculatorModel {
    pub duration_ms: u64,
    pub stream_500: StreamModel,
    pub stream_750: StreamModel,
    pub last_elapsed_ms: u64,
    pub last_cumulative_bytes: u64,
    pub locked_connections: Option<usize>,
}

/// The share of the buckets that the primary variant keeps, in percent.
pub const KEEP_66: u64 = 66;

/// The share of the buckets that the wider variant keeps, in percent.
pub const KEEP_75: u64 = 75;

/// The buckets at the start that every variant leaves out.
pub const WARMUP_BUCKETS: usize = 2;

/// The variant that keeps `keep_percent` percent of the buckets.
pub open spec fn variant(keep_percent: u64) -> MstAlgoConfig {
    MstAlgoConfig { keep_percent, warmup_buckets: WARMUP_BUCKETS }
}

fn variant_config(keep_percent: u64) -> (r: MstAlgoConfig)
    ensures
        r == variant(keep_percent),
{
    MstAlgoConfig { keep_percent, warmup_buckets: WARMUP_BUCKETS }
}

/// The sum of `values`.
pub open spec fn total(values: Seq<int>) -> int
    decreases values.len(),
{
    if values.len() == 0 {
        0
    } else {
        total(values.drop_last()) + values.last()
    }
}

/// Whether the coefficient of variation of `values`, their standard deviation over their mean, is
/// below 1/20. With `n` values, sum `s` and sum of squares `q` it is the root of
/// `(n * q - s * s) / (s * s)`.
pub open spec fn steady(values: Seq<int>) -> bool {
    let n = values.len() as int;
    let s = total(values);
    let q = total(values.map_values(|v: int| v * v));
    s > 0 && 400 * (n * q - s * s) < s * s
}

/// The bytes of the last six buckets.
pub open spec fn last_six_bytes(buckets: Seq<Bucket>) -> Seq<int> {
    Seq::new(6, |i: int| buckets[buckets.len() - 6 + i].bytes as int)
}

/// The speed from the start of bucket `i` to the end of bucket `j`.
pub open spec fn window_speed(buckets: Seq<Bucket>, i: int, j: int) -> Rate {
    let before = monus(buckets[i].total_bytes as int, buckets[i].bytes as int);
    Rate {
        bytes: monus(buckets[j].total_bytes as int, before) as u128,
        ticks: monus(buckets[j].stop_ms as int, buckets[i].start_ms as int) as u128,
    }
}

/// A speed in bytes per millisecond in megabits per second.
pub open spec fn rate_mbps(rate: Rate) -> Fraction {
    if rate.ticks == 0 {
        Fraction { num: 0, den: 1 }
    } else {
        Fraction { num: rate.bytes, den: (rate.ticks * 125) as u128 }
    }
}

pub fn rate_to_mbps(rate: Rate) -> (r: Fraction)
    requires
        rate.ticks <= u64::MAX,
    ensures
        r == rate_mbps(rate),
        r.den > 0,
{
    if rate.ticks == 0 {
        return Fraction { num: 0, den: 1 };
    }
    Fraction { num: rate.bytes, den: rate.ticks * 125 }
}

impl ThroughputResult {
    /// The plain average in megabits per second.
    pub fn average_mbps(&self) -> (r: Fraction)
        requires
            self.average_bps.ticks <= u64::MAX,
        ensures
            r == rate_mbps(self.average_bps),
    {
        rate_to_mbps(self.average_bps)
    }

    /// The trimmed speed of the primary variant in megabits per second.
    pub fn mst_mbps(&self) -> (r: Fraction)
        requires
            self.mst_66_30_bps.ticks <= u64::MAX,
        ensures
            r == rate_mbps(self.mst_66_30_bps),
    {
        rate_to_mbps(self.mst_66_30_bps)
    }
}

impl CalculatorModel {
    pub open spec fn valid(self) -> bool {
        &&& self.stream_500.contiguous()
        &&& self.stream_500.sample_length_ms == 500
        &&& self.stream_750.contiguous()
        &&& self.stream_750.sample_length_ms == 750
    }

    pub open spec fn fresh(duration_ms: u64) -> CalculatorModel {
        CalculatorModel {
            duration_ms,
            stream_500: StreamModel::empty(500),
            stream_750: StreamModel::empty(750),
            last_elapsed_ms: 0,
            last_cumulative_bytes: 0,
            locked_connections: None,
        }
    }

    pub open spec fn recorded(self, elapsed_ms: u64, cumulative_bytes: u64) -> CalculatorModel {
        CalculatorModel {
            stream_500: self.stream_500.recorded(elapsed_ms as int, cumulative_bytes as int),
            stream_750: self.stream_750.recorded(elapsed_ms as int, cumulative_bytes as int),
            last_elapsed_ms: elapsed_ms,
            last_cumulative_bytes: cumulative_bytes,
            ..self
        }
    }

    /// All the data over all the time.
    pub open spec fn average(self) -> Rate {
        Rate { bytes: self.last_cumulative_bytes as u128, ticks: self.last_elapsed_ms as u128 }
    }

    pub open spec fn blended_speed(self) -> BlendedRate {
        blended(
            self.duration_ms,
            self.average(),
            mst_speed(self.stream_500.buckets, variant(KEEP_66)),
            self.last_elapsed_ms,
        )
    }

    /// Whether the speeds of the last six 500 ms buckets are steady. The buckets have one length,
    /// so their speeds vary as their bytes do.
    pub open spec fn stable(self, min_duration_ms: u64) -> bool {
        &&& self.last_elapsed_ms >= min_duration_ms
        &&& self.stream_500.buckets.len() >= 6
        &&& steady(last_six_bytes(self.stream_500.buckets))
    }

    /// One connection for each 6 Mbit/s of the average, to the nearest whole number (6 Mbit/s are
    /// 750 bytes per millisecond), but at most `max`. At less than 3 Mbit/s that is none.
    pub open spec fn wanted_connections(self, max: int) -> int {
        let rounded = if self.last_elapsed_ms == 0 {
            0
        } else {
            (2 * self.last_cumulative_bytes + 750 * self.last_elapsed_ms) / (1500
                * self.last_elapsed_ms)
        };
        least(rounded, max)
    }

    /// The connections that are advised: the frozen number, else the one that is wanted now.
    pub open spec fn advised_connections(self, max: int) -> int {
        match self.locked_connections {
            Some(locked) => locked as int,
            None => self.wanted_connections(max),
        }
    }

    /// What is held once connections have been advised.
    pub open spec fn advised(self, max: int) -> CalculatorModel {
        CalculatorModel {
            locked_connections: if self.locked_connections is None && self.half_elapsed() {
                Some(self.wanted_connections(max) as usize)
            } else {
                self.locked_connections
            },
            ..self
        }
    }

    /// Whether the number of connections is frozen from here on.
    pub open spec fn half_elapsed(self) -> bool {
        self.last_elapsed_ms >= self.duration_ms / 2
    }

    /// The length in time that one request aims at: in the last two seconds half of what remains,
    /// but at least a tenth of a second.
    pub open spec fn request_target(time_remaining_ms: u64, config: TransferConfig) -> int {
        if time_remaining_ms < 2000 {
            greatest((time_remaining_ms / 2) as int, 100)
        } else {
            config.request_target_ms as int
        }
    }

    /// What one of `num_connections` connections transfers in the target time at the average
    /// speed.
    pub open spec fn request_size(
        self,
        num_connections: usize,
        time_remaining_ms: u64,
        config: TransferConfig,
    ) -> int {
        if !self.average().above(Rate::none()) || num_connections == 0 {
            config.min_request_size as int
        } else {
            clamped(
                (Self::request_target(time_remaining_ms, config) * self.last_cumulative_bytes) / (
                self.last_elapsed_ms * num_connections),
                config.min_request_size as int,
                config.max_request_size as int,
            )
        }
    }

    /// Whether the buckets `i..=j` are a superspeed window: it starts in the second half of the
    /// time so far and is at least half the configured duration long.
    pub open spec fn superspeed_window(self, i: int, j: int) -> bool {
        let buckets = self.stream_500.buckets;
        &&& 0 <= i <= j < buckets.len()
        &&& buckets[i].start_ms >= self.last_elapsed_ms / 2
        &&& monus(buckets[j].stop_ms as int, buckets[i].start_ms as int) >= self.duration_ms / 2
    }

    /// Whether `best` is the greatest speed over all superspeed windows, zero where there is none.
    pub open spec fn is_superspeed(self, best: Rate) -> bool {
        &&& forall|i: int, j: int|
            #![trigger window_speed(self.stream_500.buckets, i, j)]
            self.last_elapsed_ms > 0 && self.superspeed_window(i, j) ==> !window_speed(
                self.stream_500.buckets,
                i,
                j,
            ).above(best)
        &&& best == Rate::none() || exists|i: int, j: int|
            #![trigger window_speed(self.stream_500.buckets, i, j)]
            self.last_elapsed_ms > 0 && self.superspeed_window(i, j) && best == window_speed(
                self.stream_500.buckets,
                i,
                j,
            )
    }

    pub open spec fn finished(self, result: ThroughputResult) -> bool {
        &&& result.average_bps == self.average()
        &&& result.mst_66_30_bps == mst_speed(self.stream_500.buckets, variant(KEEP_66))
        &&& result.mst_66_20_bps == mst_speed(self.stream_750.buckets, variant(KEEP_66))
        &&& result.mst_75_30_bps == mst_speed(self.stream_500.buckets, variant(KEEP_75))
        &&& result.blended_bps == self.blended_speed()
        &&& self.is_superspeed(result.superspeed_bps)
        &&& result.buckets_500ms@ == self.stream_500.buckets
        &&& result.total_bytes == self.last_cumulative_bytes
        &&& result.elapsed_ms == self.last_elapsed_ms
    }
}

/// Measures throughput from cumulative samples, with two streams of buckets.
#[derive(Debug)]
pub struct ThroughputCalculator {
    duration_ms: u64,
    stream_500: BucketStream,
    stream_750: BucketStream,
    last_elapsed_ms: u64,
    last_cumulative_bytes: u64,
    locked_connections: Option<usize>,
}

impl View for ThroughputCalculator {
    type V = CalculatorModel;

    closed spec fn view(&self) -> CalculatorModel {
        CalculatorModel {
            duration_ms: self.duration_ms,
            stream_500: self.stream_500@,
            stream_750: self.stream_750@,
            last_elapsed_ms: self.last_elapsed_ms,
            last_cumulative_bytes: self.last_cumulative_bytes,
            locked_connections: self.locked_connections,
        }
    }
}

impl ThroughputCalculator {
    /// A calculator for a test of the given configured duration.
    pub fn new(duration_ms: u64) -> (calc: ThroughputCalculator)
        ensures
            calc@ == CalculatorModel::fresh(duration_ms),
            calc@.valid(),
    {
        ThroughputCalculator {
            duration_ms,
            stream_500: BucketStream::new(500),
            stream_750: BucketStream::new(750),
            last_elapsed_ms: 0,
            last_cumulative_bytes: 0,
            locked_connections: None,
        }
    }

    /// Records a cumulative sample and returns the blended speed so far.
    pub fn record_sample(&mut self, elapsed_ms: u64, cumulative_bytes: u64) -> (r: BlendedRate)
        requires
            old(self)@.valid(),
        ensures
            final(self)@ == old(self)@.recorded(elapsed_ms, cumulative_bytes),
            final(self)@.valid(),
            r == final(self)@.blended_speed(),
    {
        self.stream_500.record(elapsed_ms, cumulative_bytes);
        self.stream_750.record(elapsed_ms, cumulative_bytes);
        self.last_elapsed_ms = elapsed_ms;
        self.last_cumulative_bytes = cumulative_bytes;
        let average = self.compute_average();
        let mst = compute_mst(self.stream_500.buckets(), &variant_config(KEEP_66));
        blend(self.duration_ms, average, mst, elapsed_ms)
    }

    /// The result over everything that was recorded.
    pub fn finish(&self) -> (result: ThroughputResult)
        ensures
            self@.finished(result),
    {
        let average_bps = self.compute_average();
        let mst_66_30_bps = compute_mst(self.stream_500.buckets(), &variant_config(KEEP_66));
        let mst_66_20_bps = compute_mst(self.stream_750.buckets(), &variant_config(KEEP_66));
        let mst_75_30_bps = compute_mst(self.stream_500.buckets(), &variant_config(KEEP_75));
        let blended_bps = blend(self.duration_ms, average_bps, mst_66_30_bps, self.last_elapsed_ms);
        let superspeed_bps = self.compute_superspeed();
        let source = self.stream_500.buckets();
        let mut buckets_500ms: Vec<Bucket> = Vec::new();
        let mut i: usize = 0;
        while i < source.len()
            invariant
                i <= source.len(),
                buckets_500ms@ == source@.take(i as int),
            decreases source.len() - i,
        {
            buckets_500ms.push(source[i]);
            i = i + 1;
            assert(buckets_500ms@ =~= source@.take(i as int));
        }
        assert(source@.take(i as int) =~= source@);
        ThroughputResult {
            average_bps,
            mst_66_30_bps,
            mst_66_20_bps,
            mst_75_30_bps,
            blended_bps,
            superspeed_bps,
            buckets_500ms,
            total_bytes: self.last_cumulative_bytes,
            elapsed_ms: self.last_elapsed_ms,
        }
    }

    /// Whether the measurement is stable enough to end the test early: at least
    /// `min_duration_ms` have passed, and the speeds of the last six 500 ms buckets have a
    /// coefficient of variation below 1/20.
    pub fn should_stop_early(&self, min_duration_ms: u64) -> (r: bool)
        ensures
            r == self@.stable(min_duration_ms),
    {
        if self.last_elapsed_ms < min_duration_ms {
            return false;
        }
        let buckets = self.stream_500.buckets();
        if buckets.len() < 6 {
            return false;
        }
        is_steady(buckets)
    }

    /// The number of connections that the speed calls for, frozen once half the configured duration
    /// has passed. Where it is zero, it is for the stage to keep a worker.
    pub fn desired_connections(&mut self, max: usize) -> (r: usize)
        ensures
            r == old(self)@.advised_connections(max as int),
            final(self)@ == old(self)@.advised(max as int),
    {
        if let Some(locked) = self.locked_connections {
            return locked;
        }
        let desired: usize = self.compute_desired_connections(max);
        if self.last_elapsed_ms >= self.duration_ms / 2 {
            self.locked_connections = Some(desired);
        }
        desired
    }

    fn compute_desired_connections(&self, max: usize) -> (r: usize)
        ensures
            r == self@.wanted_connections(max as int),
    {
        if self.last_elapsed_ms == 0 {
            return 0;
        }
        let bytes: u128 = self.last_cumulative_bytes as u128;
        let millis: u128 = self.last_elapsed_ms as u128;
        let rounded: u128 = (2 * bytes + 750 * millis) / (1500 * millis);
        if rounded > max as u128 {
            max
        } else {
            rounded as usize
        }
    }

    /// The size of the next request on each of `num_connections` connections. Near the end of the
    /// test the target time shrinks, so that no large request is in flight when it ends.
    pub fn suggested_request_size(
        &self,
        num_connections: usize,
        time_remaining_ms: u64,
        config: &TransferConfig,
    ) -> (r: usize)
        requires
            self@.average().above(Rate::none()) && num_connections > 0 ==> config.min_request_size
                <= config.max_request_size,
        ensures
            r == self@.request_size(num_connections, time_remaining_ms, *config),
    {
        if !self.compute_average().is_positive() || num_connections == 0 {
            return config.min_request_size;
        }
        let half: u64 = time_remaining_ms / 2;
        let target: u64 = if time_remaining_ms < 2000 {
            if half < 100 {
                100
            } else {
                half
            }
        } else {
            config.request_target_ms
        };
        let bytes: u128 = self.last_cumulative_bytes as u128;
        let millis: u128 = self.last_elapsed_ms as u128;
        let connections: u128 = num_connections as u128;
        proof {
            assert(0 <= target * bytes <= u64::MAX * u64::MAX) by (nonlinear_arith)
                requires
                    target <= u64::MAX,
                    bytes <= u64::MAX,
            ;
            assert(0 < millis * connections <= u64::MAX * u64::MAX) by (nonlinear_arith)
                requires
                    0 < millis <= u64::MAX,
                    0 < connections <= u64::MAX,
            ;
            assert(u64::MAX * u64::MAX <= u128::MAX) by (nonlinear_arith);
        }
        let size: u128 = (target as u128 * bytes) / (millis * connections);
        if size < config.min_request_size as u128 {
            config.min_request_size
        } else if size > config.max_request_size as u128 {
            config.max_request_size
        } else {
            size as usize
        }
    }

    fn compute_average(&self) -> (r: Rate)
        ensures
            r == self@.average(),
    {
        Rate { bytes: self.last_cumulative_bytes as u128, ticks: self.last_elapsed_ms as u128 }
    }

    /// The greatest speed over a window in the second half of the test.
    fn compute_superspeed(&self) -> (best: Rate)
        ensures
            self@.is_superspeed(best),
    {
        let buckets = self.stream_500.buckets();
        let mut best = Rate::zero();
        if self.last_elapsed_ms == 0 {
            return best;
        }
        let half_elapsed: u64 = self.last_elapsed_ms / 2;
        let half_duration: u64 = self.duration_ms / 2;
        let ghost model = self@;
        let mut i: usize = 0;
        while i < buckets.len()
            invariant
                model == self@,
                buckets@ == model.stream_500.buckets,
                i <= buckets.len(),
                model.last_elapsed_ms > 0,
                half_elapsed == model.last_elapsed_ms / 2,
                half_duration == model.duration_ms / 2,
                forall|a: int, b: int|
                    #![trigger window_speed(buckets@, a, b)]
                    a < i && model.superspeed_window(a, b) ==> !window_speed(buckets@, a, b).above(
                        best,
                    ),
                best == Rate::none() || exists|a: int, b: int|
                    #![trigger window_speed(buckets@, a, b)]
                    model.superspeed_window(a, b) && best == window_speed(buckets@, a, b),
            decreases buckets.len() - i,
        {
            let first = buckets[i];
            if first.start_ms >= half_elapsed {
                let before: u64 = first.total_bytes.saturating_sub(first.bytes);
                let mut j: usize = i;
                while j < buckets.len()
                    invariant
                        buckets@ == model.stream_500.buckets,
                        i <= j <= buckets.len(),
                        i < buckets.len(),
                        first == buckets@[i as int],
                        before == monus(first.total_bytes as int, first.bytes as int),
                        first.start_ms >= half_elapsed,
                        model.last_elapsed_ms > 0,
                        half_elapsed == model.last_elapsed_ms / 2,
                        half_duration == model.duration_ms / 2,
                        forall|a: int, b: int|
                            #![trigger window_speed(buckets@, a, b)]
                            (a < i || (a == i && b < j)) && model.superspeed_window(a, b)
                                ==> !window_speed(buckets@, a, b).above(best),
                        best == Rate::none() || exists|a: int, b: int|
                            #![trigger window_speed(buckets@, a, b)]
                            model.superspeed_window(a, b) && best == window_speed(buckets@, a, b),
                    decreases buckets.len() - j,
                {
                    let window_ms: u64 = buckets[j].stop_ms.saturating_sub(first.start_ms);
                    if window_ms >= half_duration {
                        let window = Rate {
                            bytes: buckets[j].total_bytes.saturating_sub(before) as u128,
                            ticks: window_ms as u128,
                        };
                        assert(window == window_speed(buckets@, i as int, j as int));
                        assert(model.superspeed_window(i as int, j as int));
                        if window.exceeds(best) {
                            let ghost older = best;
                            best = window;
                            proof {
                                assert forall|a: int, b: int|
                                    #![trigger window_speed(buckets@, a, b)]
                                    (a < i || (a == i && b <= j)) && model.superspeed_window(
                                        a,
                                        b,
                                    ) implies !window_speed(buckets@, a, b).above(best) by {
                                    let w = window_speed(buckets@, a, b);
                                    if w.above(best) {
                                        crate::num::rate::above_is_asymmetric(best, older);
                                        crate::num::rate::above_is_transitive(w, best, older);
                                    }
                                }
                            }
                        }
                    }
                    j = j + 1;
                }
            }
            i = i + 1;
        }
        best
    }
}

/// Whether the last six buckets carry steady amounts.
fn is_steady(buckets: &Vec<Bucket>) -> (r: bool)
    requires
        buckets.len() >= 6,
    ensures
        r == steady(last_six_bytes(buckets@)),
{
    let base: usize = buckets.len() - 6;
    let b0: u128 = buckets[base].bytes as u128;
    let b1: u128 = buckets[base + 1].bytes as u128;
    let b2: u128 = buckets[base + 2].bytes as u128;
    let b3: u128 = buckets[base + 3].bytes as u128;
    let b4: u128 = buckets[base + 4].bytes as u128;
    let b5: u128 = buckets[base + 5].bytes as u128;
    let sum: u128 = b0 + b1 + b2 + b3 + b4 + b5;
    if sum == 0 {
        proof {
            lemma_six(buckets@, sum as int);
        }
        return false;
    }
    let squares = scaled_square(b0).plus(scaled_square(b1)).plus(scaled_square(b2)).plus(
        scaled_square(b3),
    ).plus(scaled_square(b4)).plus(scaled_square(b5));
    let limit = Wide::product(sum, 401 * sum);
    proof {
        lemma_six(buckets@, sum as int);
        assert(sum * (401 * sum) == 401 * (sum * sum)) by (nonlinear_arith);
    }
    squares.below(limit)
}

/// `2400 * b * b`.
fn scaled_square(b: u128) -> (r: Wide)
    requires
        b <= u64::MAX,
    ensures
        r.value() == 2400 * (b * b),
        0 <= r.value() <= 2400 * (u64::MAX * u64::MAX),
{
    proof {
        assert(0 <= b * b <= u64::MAX * u64::MAX && b * (2400 * b) == 2400 * (b * b))
            by (nonlinear_arith)
            requires
                0 <= b <= u64::MAX,
        ;
    }
    Wide::product(b, 2400 * b)
}

proof fn lemma_six(buckets: Seq<Bucket>, sum: int)
    requires
        buckets.len() >= 6,
        ({
            let v = last_six_bytes(buckets);
            sum == v[0] + v[1] + v[2] + v[3] + v[4] + v[5]
        }),
    ensures
        ({
            let v = last_six_bytes(buckets);
            let q = v[0] * v[0] + v[1] * v[1] + v[2] * v[2] + v[3] * v[3] + v[4] * v[4] + v[5]
                * v[5];
            steady(v) == (sum > 0 && 2400 * q < 401 * (sum * sum))
        }),
{
    let v = last_six_bytes(buckets);
    let w = v.map_values(|x: int| x * x);
    reveal_with_fuel(total, 7);
    assert(total(v) == sum);
    assert(total(w) == w[0] + w[1] + w[2] + w[3] + w[4] + w[5]);
}

/// Once the number of connections is frozen, neither samples nor advice change it.
pub proof fn frozen_connections_stay_frozen(
    calc: CalculatorModel,
    locked: usize,
    elapsed_ms: u64,
    cumulative_bytes: u64,
    max: int,
)
    requires
        calc.locked_connections == Some(locked),
    ensures
        calc.recorded(elapsed_ms, cumulative_bytes).locked_connections == Some(locked),
        calc.advised(max).locked_connections == Some(locked),
        calc.advised_connections(max) == locked,
{
}

/// Where nothing was transferred, the blended speed is zero and the smallest request is advised.
pub proof fn no_data_means_no_speed(
    calc: CalculatorModel,
    connections: usize,
    time_remaining_ms: u64,
    config: TransferConfig,
)
    requires
        calc.last_cumulative_bytes == 0,
    ensures
        calc.blended_speed().numerator() == 0,
        calc.request_size(connections, time_remaining_ms, config) == config.min_request_size,
{
    let average = calc.average();
    assert(average.numerator() == 0);
    assert(!average.above(Rate::none())) by {
        assert(average.numerator() * 1 == 0 && 0 * average.denominator() == 0);
    }
}

/// The advised number of connections is at most the number that is allowed, and it stays so when it
/// is frozen. It is zero exactly where the average is below 3 Mbit/s or none are allowed.
pub proof fn advice_is_in_range(calc: CalculatorModel, max: usize)
    requires
        calc.locked_connections matches Some(locked) ==> locked <= max,
    ensures
        0 <= calc.advised_connections(max as int) <= max,
        calc.advised(max as int).locked_connections matches Some(locked) ==> locked <= max,
        calc.locked_connections is None ==> (calc.advised_connections(max as int) == 0 <==> (max
            == 0 || calc.last_elapsed_ms == 0 || calc.last_cumulative_bytes < 375
            * calc.last_elapsed_ms)),
{
    let bytes = calc.last_cumulative_bytes as int;
    let millis = calc.last_elapsed_ms as int;
    if millis > 0 {
        let num = 2 * bytes + 750 * millis;
        let rounded = num / (1500 * millis);
        assert(rounded >= 0 && (rounded == 0 <==> num < 1500 * millis)) by (nonlinear_arith)
            requires
                rounded == num / (1500 * millis),
                num >= 0,
                millis > 0,
        ;
    }
}

/// Towards the end of a stage requests shrink: in the last two seconds none aims at more than a
/// second, and none at more than with more time left.
pub proof fn requests_shrink_towards_the_end(less_ms: u64, more_ms: u64, config: TransferConfig)
    requires
        less_ms <= more_ms < 2000,
    ensures
        CalculatorModel::request_target(less_ms, config) <= CalculatorModel::request_target(
            more_ms,
            config,
        ) < 1000,
{
}

/// The average of a measurement is the last total over the last time.
pub proof fn the_average_follows_the_last_sample(
    calc: CalculatorModel,
    elapsed_ms: u64,
    cumulative_bytes: u64,
)
    ensures
        ({
            let after = calc.recorded(elapsed_ms, cumulative_bytes);
            &&& after.average().bytes == cumulative_bytes
            &&& after.average().ticks == elapsed_ms
            &&& after.duration_ms == calc.duration_ms
        }),
{
}

/// The speed that is reported starts at the average and ends at the trimmed speed, where that is
/// greater: once the time is over it is exactly that.
pub proof fn blending_ends_at_the_trimmed_speed(
    duration_ms: u64,
    average: Rate,
    mst: Rate,
    elapsed_ms: u64,
)
    requires
        duration_ms > 0,
        average.above(Rate::none()),
        mst.above(average),
    ensures
        elapsed_ms >= duration_ms ==> {
            let b = blended(duration_ms, average, mst, elapsed_ms);
            b.numerator() * mst.denominator() == mst.numerator() * b.denominator()
        },
        ({
            let b = blended(duration_ms, average, mst, 0);
            b.numerator() * average.denominator() == average.numerator() * b.denominator()
        }),
{
    let (an, ad) = (average.numerator(), average.denominator());
    let (mn, md) = (mst.numerator(), mst.denominator());
    let d = duration_ms as int;
    if elapsed_ms >= duration_ms {
        let b = blended(duration_ms, average, mst, elapsed_ms);
        assert(b.numerator() == d * (mn * ad) + 0 * (an * md));
        assert((d * (mn * ad) + 0 * (an * md)) * md == mn * (d * (md * ad))) by (nonlinear_arith);
    }
    let b = blended(duration_ms, average, mst, 0);
    assert(b.numerator() == 0 * (mn * ad) + d * (an * md));
    assert((0 * (mn * ad) + d * (an * md)) * ad == an * (d * (md * ad))) by (nonlinear_arith);
}

/// The share of the buckets that is dropped is the nearest to what is not kept.
pub proof fn the_dropped_share_is_the_nearest(total: int, keep_percent: int)
    requires
        total >= 0,
        0 <= keep_percent <= 100,
    ensures
        ({
            let dropped = dropped_count(total, keep_percent);
            &&& 2 * (100 * dropped - (100 - keep_percent) * total) <= 100
            &&& 2 * ((100 - keep_percent) * total - 100 * dropped) < 100
        }),
        dropped_count(total, 100) == 0,
        dropped_count(total, 0) == total,
{
    let left = (100 - keep_percent) * total;
    assert((100 - keep_percent) * total * 2 == 2 * left) by (nonlinear_arith)
        requires
            left == (100 - keep_percent) * total,
    ;
    if keep_percent == 100 {
        assert((100 - keep_percent) * total == 0) by (nonlinear_arith)
            requires
                keep_percent == 100,
        ;
    }
    assert((100 - 0) * total * 2 == 200 * total) by (nonlinear_arith);
}

/// One connection is advised for each 6 Mbit/s, to the nearest whole number, where so many are
/// allowed: 6 Mbit/s are 750 bytes in a millisecond.
pub proof fn connections_follow_the_speed(calc: CalculatorModel, max: int)
    requires
        calc.last_elapsed_ms > 0,
        calc.locked_connections is None,
        calc.advised_connections(max) < max,
    ensures
        ({
            let advised = calc.advised_connections(max);
            let (bytes, ms) = (calc.last_cumulative_bytes, calc.last_elapsed_ms);
            &&& 2 * (750 * (advised * ms) - bytes) <= 750 * ms
            &&& 2 * (bytes - 750 * (advised * ms)) < 750 * ms
        }),
{
    let advised = calc.advised_connections(max);
    let (bytes, ms) = (calc.last_cumulative_bytes as int, calc.last_elapsed_ms as int);
    let top = 2 * bytes + 750 * ms;
    assert(advised == top / (1500 * ms));
    assert(1500 * ms * advised <= top < 1500 * ms * advised + 1500 * ms) by (nonlinear_arith)
        requires
            ms > 0,
            advised == top / (1500 * ms),
    ;
    assert(1500 * ms * advised == 1500 * (advised * ms)) by (nonlinear_arith);
}

/// The advice is free to change in the first half of a test and is held from then on.
pub proof fn advice_is_held_from_half_time_on(calc: CalculatorModel, max: usize)
    requires
        calc.locked_connections is None,
    ensures
        2 * calc.last_elapsed_ms >= calc.duration_ms ==> calc.advised(
            max as int,
        ).locked_connections == Some(calc.advised_connections(max as int) as usize),
        2 * calc.last_elapsed_ms + 1 < calc.duration_ms ==> calc.advised(
            max as int,
        ).locked_connections is None,
{
}

/// A request is as large as one connection can transfer in the time that it aims at, within the
/// bounds for requests.
pub proof fn requests_take_the_time_they_aim_at(
    calc: CalculatorModel,
    connections: usize,
    time_remaining_ms: u64,
    config: TransferConfig,
)
    requires
        calc.last_elapsed_ms > 0,
        calc.last_cumulative_bytes > 0,
        connections > 0,
        config.min_request_size <= config.max_request_size,
    ensures
        ({
            let size = calc.request_size(connections, time_remaining_ms, config);
            let aim = if time_remaining_ms >= 2_000 {
                config.request_target_ms as int
            } else if time_remaining_ms >= 200 {
                time_remaining_ms as int / 2
            } else {
                100
            };
            &&& config.min_request_size <= size <= config.max_request_size
            &&& size > config.min_request_size ==> size * (calc.last_elapsed_ms * connections)
                <= aim * calc.last_cumulative_bytes
            &&& size < config.max_request_size ==> (size + 1) * (calc.last_elapsed_ms * connections)
                > aim * calc.last_cumulative_bytes
        }),
{
    let aim = CalculatorModel::request_target(time_remaining_ms, config);
    let per = calc.last_elapsed_ms * connections;
    let all = aim * calc.last_cumulative_bytes;
    let exact = all / per;
    assert(per > 0 && exact * per <= all < (exact + 1) * per) by (nonlinear_arith)
        requires
            calc.last_elapsed_ms > 0,
            connections > 0,
            per == calc.last_elapsed_ms * connections,
            exact == all / per,
    ;
    assert(calc.average().above(Rate::none()));
    let size = calc.request_size(connections, time_remaining_ms, config);
    if size > config.min_request_size {
        assert(size <= exact);
        assert(size * per <= exact * per) by (nonlinear_arith)
            requires
                size <= exact,
                per > 0,
        ;
    }
    if size < config.max_request_size {
        assert(size >= exact);
        assert((size + 1) * per >= (exact + 1) * per) by (nonlinear_arith)
            requires
                size >= exact,
                per > 0,
        ;
    }
}

/// Six equal amounts are steady, and five with a gap are not.
pub proof fn even_amounts_are_steady(amount: int)
    requires
        amount > 0,
    ensures
        steady(seq![amount, amount, amount, amount, amount, amount]),
        !steady(seq![0, amount, amount, amount, amount, amount]),
        !steady(seq![0, 0, 0, 0, 0, 0]),
{
    reveal_with_fuel(total, 7);
    let even = seq![amount, amount, amount, amount, amount, amount];
    let gap = seq![0, amount, amount, amount, amount, amount];
    let none = seq![0int, 0, 0, 0, 0, 0];
    let sq = amount * amount;
    lemma_total_six(amount, amount, amount, amount, amount, amount);
    lemma_total_six(0, amount, amount, amount, amount, amount);
    lemma_total_six(0, 0, 0, 0, 0, 0);
    lemma_total_six(sq, sq, sq, sq, sq, sq);
    lemma_total_six(0, sq, sq, sq, sq, sq);
    assert(0int * 0int == 0) by (nonlinear_arith);
    assert(even.map_values(|v: int| v * v) =~= seq![sq, sq, sq, sq, sq, sq]);
    assert(gap.map_values(|v: int| v * v) =~= seq![0, sq, sq, sq, sq, sq]);
    assert((6 * amount) * (6 * amount) == 36 * sq && (5 * amount) * (5 * amount) == 25 * sq && sq
        > 0) by (nonlinear_arith)
        requires
            sq == amount * amount,
            amount > 0,
    ;
}

proof fn lemma_total_six(a: int, b: int, c: int, d: int, e: int, f: int)
    ensures
        total(seq![a, b, c, d, e, f]) == a + b + c + d + e + f,
{
    reveal_with_fuel(total, 7);
    let s = seq![a, b, c, d, e, f];
    assert(s.drop_last() =~= seq![a, b, c, d, e]);
    assert(seq![a, b, c, d, e].drop_last() =~= seq![a, b, c, d]);
    assert(seq![a, b, c, d].drop_last() =~= seq![a, b, c]);
    assert(seq![a, b, c].drop_last() =~= seq![a, b]);
    assert(seq![a, b].drop_last() =~= seq![a]);
    assert(seq![a].drop_last() =~= Seq::<int>::empty());
}

/// A test may end early only after its least time and with six buckets, by the last six of them.
pub proof fn tests_end_early_only_when_steady(calc: CalculatorModel, min_duration_ms: u64)
    requires
        calc.stable(min_duration_ms),
    ensures
        calc.last_elapsed_ms >= min_duration_ms,
        calc.stream_500.buckets.len() >= 6,
        steady(
            Seq::new(
                6,
                |i: int|
                    calc.stream_500.buckets[calc.stream_500.buckets.len() - 6 + i].bytes as int,
            ),
        ),
{
    assert(last_six_bytes(calc.stream_500.buckets) =~= Seq::new(
        6,
        |i: int| calc.stream_500.buckets[calc.stream_500.buckets.len() - 6 + i].bytes as int,
    ));
}

/// The superspeed is at least that of every window in the second half of the test that is half its
/// length long.
pub proof fn no_long_late_window_is_faster(calc: CalculatorModel, best: Rate, i: int, j: int)
    requires
        calc.is_superspeed(best),
        calc.last_elapsed_ms > 0,
        0 <= i <= j < calc.stream_500.buckets.len(),
        2 * calc.stream_500.buckets[i].start_ms >= calc.last_elapsed_ms,
        calc.stream_500.buckets[j].stop_ms >= calc.stream_500.buckets[i].start_ms,
        2 * (calc.stream_500.buckets[j].stop_ms - calc.stream_500.buckets[i].start_ms)
            >= calc.duration_ms,
    ensures
        ({
            let buckets = calc.stream_500.buckets;
            let bytes = buckets[j].total_bytes - (buckets[i].total_bytes - buckets[i].bytes);
            let ticks = buckets[j].stop_ms - buckets[i].start_ms;
            buckets[i].total_bytes >= buckets[i].bytes && bytes >= 0 && ticks > 0 ==> bytes
                * best.denominator() <= best.numerator() * ticks
        }),
{
    assert(!window_speed(calc.stream_500.buckets, i, j).above(best));
}

/// A sample closes as many buckets as have passed since the open one started, and the first of them
/// takes what has arrived since.
pub proof fn samples_close_the_buckets_that_have_passed(
    stream: StreamModel,
    elapsed_ms: int,
    cumulative_bytes: int,
)
    requires
        stream.contiguous(),
        stream.started,
        stream.current_start_ms <= elapsed_ms <= u64::MAX,
        stream.bytes_at_current_start <= cumulative_bytes <= u64::MAX,
    ensures
        ({
            let after = stream.recorded(elapsed_ms, cumulative_bytes);
            let n = after.buckets.len() - stream.buckets.len();
            &&& n >= 0
            &&& after.current_start_ms <= elapsed_ms < after.current_start_ms
                + stream.sample_length_ms
            &&& after.current_start_ms == stream.current_start_ms + n * stream.sample_length_ms
            &&& n > 0 ==> after.buckets[stream.buckets.len() as int].bytes == cumulative_bytes
                - stream.bytes_at_current_start
            &&& forall|i: int|
                0 <= i < stream.buckets.len() ==> #[trigger] after.buckets[i] == stream.buckets[i]
        }),
{
    let n = stream.closed_by(elapsed_ms);
    let d = elapsed_ms - stream.current_start_ms;
    let l = stream.sample_length_ms;
    assert(n >= 0 && n * l <= d < n * l + l) by (nonlinear_arith)
        requires
            n == d / l,
            d >= 0,
            l > 0,
    ;
    let after = stream.recorded(elapsed_ms, cumulative_bytes);
    if n > 0 {
        assert(after.buckets[stream.buckets.len() as int] == stream.closed_bucket(
            0,
            cumulative_bytes,
        ));
    }
}

/// A rate in megabits per second is eight bits for each byte, over the time in milliseconds and a
/// thousand.
pub proof fn rates_count_eight_bits_a_byte(rate: Rate)
    requires
        0 < rate.ticks,
        rate.ticks * 125 <= u128::MAX,
        rate.bytes <= u128::MAX,
    ensures
        rate_mbps(rate).num * (1_000 * rate.ticks) == (8 * rate.bytes) * rate_mbps(rate).den,
        rate_mbps(rate).den > 0,
{
    let (b, t) = (rate.bytes as int, rate.ticks as int);
    assert(b * (1_000 * t) == (8 * b) * (t * 125)) by (nonlinear_arith);
}

/// A superspeed is that of a window in the second half of what was measured, over at least half of
/// the planned time.
pub proof fn superspeeds_come_from_long_late_windows(
    calc: CalculatorModel,
    best: Rate,
) -> (window: (int, int))
    requires
        calc.is_superspeed(best),
        best != Rate::none(),
    ensures
        ({
            let buckets = calc.stream_500.buckets;
            let (i, j) = window;
            &&& 0 <= i <= j < buckets.len()
            &&& 2 * buckets[i].start_ms >= calc.last_elapsed_ms - 1
            &&& calc.duration_ms >= 2 ==> 2 * (buckets[j].stop_ms - buckets[i].start_ms)
                >= calc.duration_ms - 1
            &&& best == window_speed(buckets, i, j)
        }),
{
    let buckets = calc.stream_500.buckets;
    let (i, j) = choose|i: int, j: int|
        #![trigger window_speed(buckets, i, j)]
        calc.last_elapsed_ms > 0 && calc.superspeed_window(i, j) && best == window_speed(
            buckets,
            i,
            j,
        );
    (i, j)
}

/// A result holds the speeds of the measurement that it ends, each from the buckets of its own
/// length, and all that was transferred.
pub proof fn results_hold_what_was_measured(calc: CalculatorModel, result: ThroughputResult)
    requires
        calc.finished(result),
    ensures
        result.total_bytes == calc.last_cumulative_bytes,
        result.elapsed_ms == calc.last_elapsed_ms,
        result.average_bps == calc.average(),
        result.buckets_500ms@ == calc.stream_500.buckets,
        result.mst_66_20_bps == mst_speed(calc.stream_750.buckets, variant(66)),
        result.mst_66_30_bps == mst_speed(calc.stream_500.buckets, variant(66)),
        result.mst_75_30_bps == mst_speed(calc.stream_500.buckets, variant(75)),
{
}

/// A measurement starts from nothing.
pub proof fn measurements_start_from_nothing(duration_ms: u64)
    ensures
        ({
            let calc = CalculatorModel::fresh(duration_ms);
            &&& calc.duration_ms == duration_ms
            &&& calc.last_elapsed_ms == 0 && calc.last_cumulative_bytes == 0
            &&& calc.stream_500.buckets.len() == 0 && calc.stream_750.buckets.len() == 0
            &&& calc.stream_500.sample_length_ms == 500 && calc.stream_750.sample_length_ms == 750
            &&& calc.stream_500.current_start_ms == 0 && calc.stream_500.bytes_at_current_start == 0
            &&& !calc.stream_500.started && !calc.stream_750.started
            &&& calc.locked_connections is None
        }),
{
}

} // verus!
