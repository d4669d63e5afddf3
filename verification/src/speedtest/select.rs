//! Choosing test servers by distance and by latency.

use vstd::prelude::*;

use crate::num::fraction::{lemma_less_steps, Fraction};
use crate::num::order::{
    all_valid, is_stable_order, occurs, stable_order, stable_orders_are_sorted, stands_before,
    SortKey,
};
use crate::num::scalar::Scalar;
use crate::num::whole::{clamped, greatest, least};
use crate::num::wide::Wide;
use crate::speedtest::latency::{average_latency, mean, span_sum};
use crate::speedtest::servers::SpeedtestServer;
use crate::text::{decimal, to_decimal};

verus! {

impl Fraction {
    /// Whether the fraction is a mean of readings.
    pub open spec fn is_mean(self) -> bool {
        0 < self.den <= u64::MAX && self.num <= u64::MAX * i64::MAX
    }
}

/// A server with its measured latency.
#[derive(Debug)]
pub struct ServerLatency {
    pub server: SpeedtestServer,
    pub average: Fraction,
    pub variance_ms: Scalar,
    pub samples_ns: Vec<i64>,
}

impl ServerLatency {
    pub open spec fn same_as(self, other: ServerLatency) -> bool {
        &&& self.server == other.server
        &&& self.average == other.average
        &&& self.variance_ms == other.variance_ms
        &&& self.samples_ns@ == other.samples_ns@
    }

    pub open spec fn key(self) -> LatencyKey {
        LatencyKey {
            average: self.average,
            variance: self.variance_ms.order() as i64,
            distance: self.server.distance_km.order() as i64,
        }
    }

    /// Whether the entry can be ranked: its figures are numbers.
    pub open spec fn rankable(self) -> bool {
        &&& self.average.is_mean()
        &&& !self.variance_ms.not_a_number()
        &&& !self.server.distance_km.not_a_number()
    }

    pub fn duplicate(&self) -> (r: ServerLatency)
        ensures
            r.same_as(*self),
    {
        ServerLatency {
            server: self.server.clone(),
            average: self.average,
            variance_ms: self.variance_ms,
            samples_ns: copy_readings(&self.samples_ns),
        }
    }
}

pub fn copy_readings(samples: &Vec<i64>) -> (r: Vec<i64>)
    ensures
        r@ == samples@,
{
    let mut out: Vec<i64> = Vec::new();
    let mut i: usize = 0;
    while i < samples.len()
        invariant
            i <= samples.len(),
            out@ == samples@.take(i as int),
        decreases samples.len() - i,
    {
        out.push(samples[i]);
        i = i + 1;
        assert(out@ =~= samples@.take(i as int));
    }
    assert(out@ =~= samples@);
    out
}

/// What servers are ranked by: the average latency, then its variance, then the distance.
#[derive(Clone, Copy, Debug, PartialEq, Eq, Structural)]
pub struct LatencyKey {
    pub average: Fraction,
    pub variance: i64,
    pub distance: i64,
}

impl SortKey for LatencyKey {
    open spec fn valid(self) -> bool {
        self.average.is_mean()
    }

    open spec fn below(self, other: LatencyKey) -> bool {
        self.average.less(other.average) || (!other.average.less(self.average) && (self.variance
            < other.variance || (self.variance == other.variance && self.distance
            < other.distance)))
    }

    proof fn below_is_asymmetric(a: LatencyKey, b: LatencyKey) {
    }

    proof fn below_is_transitive(a: LatencyKey, b: LatencyKey, c: LatencyKey) {
        lemma_less_steps(a.average, b.average, c.average);
        lemma_less_steps(c.average, b.average, a.average);
        lemma_less_steps(b.average, c.average, a.average);
    }

    fn is_below(&self, other: &LatencyKey) -> (r: bool) {
        self.average.is_less(other.average) || (!other.average.is_less(self.average) && (
        self.variance < other.variance || (self.variance == other.variance && self.distance
            < other.distance)))
    }
}

pub open spec fn distances(servers: Seq<SpeedtestServer>) -> Seq<i64> {
    servers.map_values(|s: SpeedtestServer| s.distance_km.order() as i64)
}

/// Whether `chosen` are the first `count` of `servers` in order of distance, with servers of one
/// distance in their order.
pub open spec fn is_nearest(
    servers: Seq<SpeedtestServer>,
    count: int,
    chosen: Seq<SpeedtestServer>,
) -> bool {
    exists|order: Seq<usize>| #[trigger]
        is_stable_order(distances(servers), order) && chosen == Seq::new(
            if count < servers.len() {
                count as nat
            } else {
                servers.len()
            },
            |k: int| servers[order[k] as int],
        )
}

/// The `count` nearest servers, nearest first.
pub fn select_nearest(servers: &Vec<SpeedtestServer>, count: usize) -> (r: Vec<SpeedtestServer>)
    requires
        forall|i: int|
            0 <= i < servers.len() ==> !(#[trigger] servers[i]).distance_km.not_a_number(),
    ensures
        is_nearest(servers@, count as int, r@),
{
    let mut keys: Vec<i64> = Vec::new();
    let mut i: usize = 0;
    while i < servers.len()
        invariant
            i <= servers.len(),
            keys@ == distances(servers@).take(i as int),
        decreases servers.len() - i,
    {
        keys.push(servers[i].distance_km.order_key());
        i = i + 1;
        assert(keys@ =~= distances(servers@).take(i as int));
    }
    assert(keys@ =~= distances(servers@));
    let order = stable_order(&keys);
    let limit: usize = if count < servers.len() {
        count
    } else {
        servers.len()
    };
    let mut out: Vec<SpeedtestServer> = Vec::new();
    let mut k: usize = 0;
    let ghost wanted = Seq::new(limit as nat, |k: int| servers@[order@[k] as int]);
    while k < limit
        invariant
            k <= limit <= servers.len(),
            order.len() == servers.len(),
            forall|a: int| 0 <= a < order.len() ==> (#[trigger] order[a]) < servers.len(),
            wanted == Seq::new(limit as nat, |k: int| servers@[order@[k] as int]),
            out@ == wanted.take(k as int),
        decreases limit - k,
    {
        let chosen = order[k];
        out.push(servers[chosen].clone());
        k = k + 1;
        assert(out@ =~= wanted.take(k as int));
    }
    assert(out@ =~= wanted);
    out
}

pub open spec fn keys_of(scored: Seq<ServerLatency>) -> Seq<LatencyKey> {
    scored.map_values(|s: ServerLatency| s.key())
}

pub open spec fn all_rankable(scored: Seq<ServerLatency>) -> bool {
    forall|i: int| 0 <= i < scored.len() ==> (#[trigger] scored[i]).rankable()
}

fn collect_keys(scored: &Vec<ServerLatency>) -> (keys: Vec<LatencyKey>)
    requires
        all_rankable(scored@),
    ensures
        keys@ == keys_of(scored@),
        all_valid(keys@),
{
    let mut keys: Vec<LatencyKey> = Vec::new();
    let mut i: usize = 0;
    while i < scored.len()
        invariant
            all_rankable(scored@),
            i <= scored.len(),
            keys@ == keys_of(scored@).take(i as int),
        decreases scored.len() - i,
    {
        let key = LatencyKey {
            average: scored[i].average,
            variance: scored[i].variance_ms.order_key(),
            distance: scored[i].server.distance_km.order_key(),
        };
        assert(key == scored@[i as int].key());
        keys.push(key);
        i = i + 1;
        assert(keys@ =~= keys_of(scored@).take(i as int));
    }
    assert(keys@ =~= keys_of(scored@));
    assert forall|k: int| 0 <= k < keys.len() implies (#[trigger] keys[k]).valid() by {
        assert(scored@[k].rankable());
    }
    keys
}

/// Whether `ranked` holds the entries of `scored` in their stable order.
pub open spec fn is_ranking(scored: Seq<ServerLatency>, ranked: Seq<ServerLatency>) -> bool {
    exists|order: Seq<usize>| #[trigger]
        is_stable_order(keys_of(scored), order) && ranked.len() == scored.len() && forall|k: int|
            0 <= k < ranked.len() ==> (#[trigger] ranked[k]).same_as(scored[order[k] as int])
}

/// Why a server cannot be chosen.
#[derive(Clone, Copy, Debug, PartialEq, Eq, Structural)]
pub enum SelectError {
    /// No samples were asked for.
    NoSamplesRequested,
    /// There are no servers to probe.
    NoCandidates,
    /// No probe succeeded.
    AllProbesFailed,
    /// Fewer than half of the samples were taken.
    InsufficientSamples { server_id: u64, taken: usize, requested: usize },
    /// No sample was taken.
    NoMeasurements,
    /// The wanted server is not in the catalog.
    ServerNotFound { server_id: u64 },
}

impl SelectError {
    pub open spec fn text(self) -> Seq<char> {
        match self {
            SelectError::NoSamplesRequested => "latency_samples must be greater than zero"@,
            SelectError::NoCandidates => "no speedtest servers available for latency probing"@,
            SelectError::AllProbesFailed =>
                "all candidate server latency probes failed; try a different proxy or network"@,
            SelectError::InsufficientSamples { server_id, taken, requested } =>
                "insufficient latency samples for server id="@ + decimal(server_id as int) + " ("@
                    + decimal(taken as int) + " of "@ + decimal(requested as int) + ")"@,
            SelectError::NoMeasurements =>
                "latency sampling produced no successful measurements"@,
            SelectError::ServerNotFound { server_id } => "server id "@ + decimal(server_id as int)
                + " not found in provided server list"@,
        }
    }

    pub fn message(&self) -> (r: String)
        ensures
            r@ == self.text(),
    {
        match self {
            SelectError::NoSamplesRequested => {
                "latency_samples must be greater than zero".to_owned()
            },
            SelectError::NoCandidates => {
                "no speedtest servers available for latency probing".to_owned()
            },
            SelectError::AllProbesFailed => {
                "all candidate server latency probes failed; try a different proxy or network".to_owned()
            },
            SelectError::InsufficientSamples { server_id, taken, requested } => {
                let mut out = "insufficient latency samples for server id=".to_owned();
                out.append(to_decimal(*server_id).as_str());
                out.append(" (");
                out.append(to_decimal(*taken as u64).as_str());
                out.append(" of ");
                out.append(to_decimal(*requested as u64).as_str());
                out.append(")");
                out
            },
            SelectError::NoMeasurements => {
                "latency sampling produced no successful measurements".to_owned()
            },
            SelectError::ServerNotFound { server_id } => {
                let mut out = "server id ".to_owned();
                out.append(to_decimal(*server_id).as_str());
                out.append(" not found in provided server list");
                out
            },
        }
    }
}

/// The most probes that run at a time.
pub const LATENCY_PROBE_WORKERS: usize = 8;

/// How many probes of so many candidates run at a time.
pub fn probe_workers(candidates: usize) -> (r: usize)
    ensures
        r == clamped(candidates as int, 1, LATENCY_PROBE_WORKERS as int),
{
    if candidates < 1 {
        1
    } else if candidates > LATENCY_PROBE_WORKERS {
        LATENCY_PROBE_WORKERS
    } else {
        candidates
    }
}

/// The servers to probe: the nearest ones, at least one.
pub fn choose_candidates(
    servers: &Vec<SpeedtestServer>,
    candidate_count: usize,
    latency_samples: usize,
) -> (r: Result<Vec<SpeedtestServer>, SelectError>)
    requires
        forall|i: int|
            0 <= i < servers.len() ==> !(#[trigger] servers[i]).distance_km.not_a_number(),
    ensures
        match r {
            Ok(candidates) => latency_samples > 0 && servers.len() > 0 && is_nearest(
                servers@,
                greatest(candidate_count as int, 1),
                candidates@,
            ),
            Err(SelectError::NoSamplesRequested) => latency_samples == 0,
            Err(SelectError::NoCandidates) => latency_samples > 0 && servers.len() == 0,
            Err(_) => false,
        },
{
    if latency_samples == 0 {
        return Err(SelectError::NoSamplesRequested);
    }
    let count: usize = if candidate_count == 0 {
        1
    } else {
        candidate_count
    };
    let candidates = select_nearest(servers, count);
    if candidates.len() == 0 {
        return Err(SelectError::NoCandidates);
    }
    Ok(candidates)
}

/// How many samples are taken in HTTP requests where a probe under load of so many seconds got
/// none otherwise: ten for each second, and so at least ten.
pub fn loaded_fallback_samples(stage_seconds: u64) -> (r: u128)
    ensures
        r == greatest(stage_seconds as int, 1) * 10,
{
    let seconds: u128 = if stage_seconds == 0 {
        1
    } else {
        stage_seconds as u128
    };
    seconds * 10
}

/// How many probes run at once while a stage loads the connection.
pub const LOADED_LATENCY_WORKERS: usize = 8;

/// How many readings are taken over HTTP after a stage: none where other probes have read any.
pub fn fallback_after(readings: &Vec<i64>, stage_seconds: u64) -> (r: Option<u128>)
    ensures
        r == if readings.len() > 0 {
            None
        } else {
            Some((greatest(stage_seconds as int, 1) * 10) as u128)
        },
{
    if readings.len() > 0 {
        None
    } else {
        Some(loaded_fallback_samples(stage_seconds))
    }
}

/// The entries in order of their latency, best first.
pub fn rank_candidates(scored: &Vec<ServerLatency>) -> (r: Result<Vec<ServerLatency>, SelectError>)
    requires
        all_rankable(scored@),
    ensures
        match r {
            Ok(ranked) => scored.len() > 0 && is_ranking(scored@, ranked@),
            Err(error) => scored.len() == 0 && error == SelectError::AllProbesFailed,
        },
{
    if scored.len() == 0 {
        return Err(SelectError::AllProbesFailed);
    }
    let keys = collect_keys(scored);
    let order = stable_order(&keys);
    let mut out: Vec<ServerLatency> = Vec::new();
    let mut k: usize = 0;
    while k < order.len()
        invariant
            k <= order.len(),
            order.len() == scored.len(),
            forall|a: int| 0 <= a < order.len() ==> (#[trigger] order[a]) < scored.len(),
            out.len() == k,
            forall|a: int| 0 <= a < k ==> (#[trigger] out[a]).same_as(scored@[order[a] as int]),
        decreases order.len() - k,
    {
        let chosen = order[k];
        out.push(scored[chosen].duplicate());
        k = k + 1;
    }
    Ok(out)
}

/// Whether entry `i` is the best of `scored`: it stands before all others.
pub open spec fn is_best(scored: Seq<ServerLatency>, i: int) -> bool {
    &&& 0 <= i < scored.len()
    &&& forall|j: int|
        0 <= j < scored.len() && j != i ==> #[trigger] stands_before(keys_of(scored), i, j)
}

/// The entry with the best latency.
pub fn select_best_latency(scored: &Vec<ServerLatency>) -> (r: Option<ServerLatency>)
    requires
        all_rankable(scored@),
    ensures
        match r {
            Some(best) => exists|i: int| #[trigger]
                is_best(scored@, i) && best.same_as(scored@[i]),
            None => scored.len() == 0,
        },
{
    if scored.len() == 0 {
        return None;
    }
    let keys = collect_keys(scored);
    let order = stable_order(&keys);
    let first = order[0];
    proof {
        assert forall|j: int| 0 <= j < scored.len() && j != first implies #[trigger] stands_before(
            keys_of(scored@),
            first as int,
            j,
        ) by {
            assert(occurs(order@, j));
            let b = choose|b: int| 0 <= b < order@.len() && #[trigger] order@[b] == j;
            assert(stands_before(keys@, order@[0] as int, order@[b] as int));
        }
        assert(is_best(scored@, first as int));
    }
    Some(scored[first].duplicate())
}

/// A server's place in a ranking.
#[derive(Clone, Copy, Debug, PartialEq, Eq, Structural)]
pub struct LatencyRanking {
    pub server_id: u64,
    pub average: Fraction,
    pub variance_ms: Scalar,
    pub distance_km: Scalar,
}

impl LatencyRanking {
    pub open spec fn key(self) -> LatencyKey {
        LatencyKey {
            average: self.average,
            variance: self.variance_ms.order() as i64,
            distance: self.distance_km.order() as i64,
        }
    }

    pub open spec fn rankable(self) -> bool {
        self.average.is_mean() && !self.variance_ms.not_a_number()
            && !self.distance_km.not_a_number()
    }
}

pub open spec fn ranking_keys(rankings: Seq<LatencyRanking>) -> Seq<LatencyKey> {
    rankings.map_values(|s: LatencyRanking| s.key())
}

/// Puts the rankings in order of average, then variance, then distance.
pub fn sort_latency_rankings(rankings: &mut Vec<LatencyRanking>)
    requires
        forall|i: int| 0 <= i < old(rankings).len() ==> (#[trigger] old(rankings)[i]).rankable(),
    ensures
        exists|order: Seq<usize>| #[trigger]
            is_stable_order(ranking_keys(old(rankings)@), order) && final(rankings)@ == Seq::new(
                old(rankings)@.len(),
                |k: int| old(rankings)@[order[k] as int],
            ),
        final(rankings).len() == old(rankings).len(),
        forall|i: int|
            0 <= i < old(rankings).len() ==> final(rankings)@.contains(#[trigger] old(rankings)[i]),
        forall|a: int, b: int|
            #![trigger final(rankings)[a], final(rankings)[b]]
            0 <= a < b < final(rankings).len() ==> no_slower(
                final(rankings)[a].average,
                final(rankings)[b].average,
            ),
{
    let ghost before = rankings@;
    let mut keys: Vec<LatencyKey> = Vec::new();
    let mut i: usize = 0;
    while i < rankings.len()
        invariant
            i <= rankings.len(),
            rankings@ == before,
            keys@ == ranking_keys(before).take(i as int),
        decreases rankings.len() - i,
    {
        let key = LatencyKey {
            average: rankings[i].average,
            variance: rankings[i].variance_ms.order_key(),
            distance: rankings[i].distance_km.order_key(),
        };
        assert(key == before[i as int].key());
        keys.push(key);
        i = i + 1;
        assert(keys@ =~= ranking_keys(before).take(i as int));
    }
    assert(keys@ =~= ranking_keys(before));
    assert forall|k: int| 0 <= k < keys.len() implies (#[trigger] keys[k]).valid() by {
        assert(before[k].rankable());
    }
    let order = stable_order(&keys);
    let mut out: Vec<LatencyRanking> = Vec::new();
    let mut k: usize = 0;
    let ghost wanted = Seq::new(before.len(), |k: int| before[order@[k] as int]);
    while k < order.len()
        invariant
            k <= order.len(),
            order.len() == before.len(),
            rankings@ == before,
            forall|a: int| 0 <= a < order.len() ==> (#[trigger] order[a]) < before.len(),
            wanted == Seq::new(before.len(), |k: int| before[order@[k] as int]),
            out@ == wanted.take(k as int),
        decreases order.len() - k,
    {
        let chosen = order[k];
        out.push(rankings[chosen]);
        k = k + 1;
        assert(out@ =~= wanted.take(k as int));
    }
    assert(out@ =~= wanted);
    proof {
        stable_orders_are_sorted(keys@, order@);
        assert forall|i: int| 0 <= i < before.len() implies out@.contains(
            #[trigger] before[i],
        ) by {
            assert(occurs(order@, i));
            let a = choose|a: int| 0 <= a < order@.len() && #[trigger] order@[a] == i;
            assert(out@[a] == before[i]);
        }
        assert forall|a: int, b: int|
            #![trigger out[a], out[b]]
            0 <= a < b < out.len() implies no_slower(out[a].average, out[b].average) by {
            assert(!keys@[order@[b] as int].below(keys@[order@[a] as int]));
        }
    }
    *rankings = out;
}

/// 8 ms, the latency above the best one that a server of the pool may always have.
pub const POOL_SLACK_NS: u128 = 8_000_000;

/// Whether a latency is close enough to the best one: within 8 ms of it, or at most two and a half
/// times it.
pub open spec fn close_enough(average: Fraction, best: Fraction) -> bool {
    average.num * best.den <= (best.num + POOL_SLACK_NS * best.den) * average.den || average.num * (
    2 * best.den) <= best.num * (5 * average.den)
}

fn is_close_enough(average: Fraction, best: Fraction) -> (r: bool)
    requires
        average.is_mean(),
        best.is_mean(),
    ensures
        r == close_enough(average, best),
{
    proof {
        assert(POOL_SLACK_NS * best.den <= POOL_SLACK_NS * u64::MAX) by (nonlinear_arith)
            requires
                0 < best.den <= u64::MAX,
        ;
        assert(u64::MAX * i64::MAX + POOL_SLACK_NS * u64::MAX <= u128::MAX) by (nonlinear_arith);
    }
    let raised: u128 = best.num + POOL_SLACK_NS * best.den;
    if !Wide::product(raised, average.den).below(Wide::product(average.num, best.den)) {
        return true;
    }
    !Wide::product(best.num, 5 * average.den).below(Wide::product(average.num, 2 * best.den))
}

/// The servers of the first `upto` entries that are close enough to the best latency, no more than
/// `limit`.
pub open spec fn pooled(
    ranked: Seq<ServerLatency>,
    limit: int,
    upto: int,
) -> Seq<SpeedtestServer>
    decreases upto,
{
    if upto <= 0 {
        Seq::empty()
    } else {
        let before = pooled(ranked, limit, upto - 1);
        if before.len() < limit && close_enough(ranked[upto - 1].average, ranked[0].average) {
            before.push(ranked[upto - 1].server)
        } else {
            before
        }
    }
}

/// A server of the pool is close to the best one: its latency is at most two and a half times the
/// best one or at most 8 ms above it. Every such server is in the pool, at its place in the
/// ranking, until the pool is full; the others are not.
pub proof fn the_pool_holds_the_close_servers(ranked: Seq<ServerLatency>, pool_size: usize) -> (
    places: Seq<int>)
    ensures
        ({
            let pool = transfer_pool(ranked, pool_size);
            let limit = if pool_size == 0 {
                1
            } else {
                pool_size as int
            };
            let best = ranked[0].average;
            &&& places.len() == pool.len() <= limit
            &&& forall|k: int| 0 <= k < pool.len() ==> 0 <= #[trigger] places[k] < ranked.len()
            &&& forall|k: int|
                0 <= k < pool.len() ==> (#[trigger] pool[k]) == ranked[places[k]].server
            &&& forall|a: int, b: int| 0 <= a < b < places.len() ==> places[a] < places[b]
            &&& forall|i: int|
                0 <= i < ranked.len() ==> ({
                    let near = {
                        ||| 2 * ((#[trigger] ranked[i]).average.num * best.den) <= 5 * (best.num
                            * ranked[i].average.den)
                        ||| ranked[i].average.num * best.den <= best.num * ranked[i].average.den
                            + 8_000_000 * (best.den * ranked[i].average.den)
                    };
                    &&& places.contains(i) ==> near
                    &&& near && pool.len() < limit ==> places.contains(i)
                    &&& near && !places.contains(i) ==> forall|k: int|
                        0 <= k < places.len() ==> #[trigger] places[k] < i
                })
        }),
{
    let limit = if pool_size == 0 {
        1
    } else {
        pool_size as int
    };
    lemma_pool_places(ranked, limit, ranked.len() as int)
}

/// The servers to transfer with: one at least may be.
pub open spec fn transfer_pool(ranked: Seq<ServerLatency>, pool_size: usize) -> Seq<
    SpeedtestServer,
> {
    pooled(
        ranked,
        if pool_size == 0 {
            1
        } else {
            pool_size as int
        },
        ranked.len() as int,
    )
}

spec fn near(average: Fraction, best: Fraction) -> bool {
    ||| 2 * (average.num * best.den) <= 5 * (best.num * average.den)
    ||| average.num * best.den <= best.num * average.den + 8_000_000 * (best.den * average.den)
}

proof fn lemma_near(average: Fraction, best: Fraction)
    ensures
        close_enough(average, best) == near(average, best),
{
    let (an, ad) = (average.num as int, average.den as int);
    let (bn, bd) = (best.num as int, best.den as int);
    assert((bn + POOL_SLACK_NS * bd) * ad == bn * ad + POOL_SLACK_NS * (bd * ad) && an * (2 * bd)
        == 2 * (an * bd) && bn * (5 * ad) == 5 * (bn * ad)) by (nonlinear_arith);
}

proof fn lemma_pool_places(ranked: Seq<ServerLatency>, limit: int, upto: int) -> (places: Seq<int>)
    requires
        limit >= 1,
        0 <= upto <= ranked.len(),
    ensures
        ({
            let pool = pooled(ranked, limit, upto);
            let best = ranked[0].average;
            &&& places.len() == pool.len() <= limit
            &&& forall|k: int| 0 <= k < pool.len() ==> 0 <= #[trigger] places[k] < upto
            &&& forall|k: int|
                0 <= k < pool.len() ==> (#[trigger] pool[k]) == ranked[places[k]].server
            &&& forall|a: int, b: int| 0 <= a < b < places.len() ==> places[a] < places[b]
            &&& forall|i: int|
                0 <= i < upto ==> ({
                    let close = near((#[trigger] ranked[i]).average, best);
                    &&& places.contains(i) ==> close
                    &&& close && pool.len() < limit ==> places.contains(i)
                    &&& close && !places.contains(i) ==> forall|k: int|
                        0 <= k < places.len() ==> #[trigger] places[k] < i
                })
        }),
    decreases upto,
{
    if upto <= 0 {
        Seq::empty()
    } else {
        let before = lemma_pool_places(ranked, limit, upto - 1);
        let best = ranked[0].average;
        let pool = pooled(ranked, limit, upto - 1);
        lemma_near(ranked[upto - 1].average, best);
        if pool.len() < limit && close_enough(ranked[upto - 1].average, best) {
            let after = before.push(upto - 1);
            assert(after.last() == upto - 1);
            assert forall|i: int| 0 <= i < upto implies ({
                let close = near((#[trigger] ranked[i]).average, best);
                &&& after.contains(i) ==> close
                &&& close ==> after.contains(i)
            }) by {
                if i < upto - 1 {
                    if before.contains(i) {
                        let k = choose|k: int| 0 <= k < before.len() && before[k] == i;
                        assert(after[k] == i);
                    }
                    if after.contains(i) {
                        let k = choose|k: int| 0 <= k < after.len() && after[k] == i;
                        assert(before[k] == i);
                    }
                }
            }
            after
        } else {
            before
        }
    }
}

/// The servers to transfer with: the best ones of a ranking, without those that are much slower to
/// answer than the best.
pub fn build_transfer_pool(ranked: &Vec<ServerLatency>, pool_size: usize) -> (r: Vec<
    SpeedtestServer,
>)
    requires
        all_rankable(ranked@),
    ensures
        r@ == pooled(
            ranked@,
            if pool_size == 0 {
                1
            } else {
                pool_size as int
            },
            ranked.len() as int,
        ),
        r@ == transfer_pool(ranked@, pool_size),
        ranked.len() > 0 ==> r.len() > 0 && r@[0] == ranked@[0].server,
{
    let limit: usize = if pool_size == 0 {
        1
    } else {
        pool_size
    };
    let mut out: Vec<SpeedtestServer> = Vec::new();
    let mut i: usize = 0;
    while i < ranked.len()
        invariant
            all_rankable(ranked@),
            limit >= 1,
            i <= ranked.len(),
            out@ == pooled(ranked@, limit as int, i as int),
            i > 0 ==> out.len() > 0 && out@[0] == ranked@[0].server,
        decreases ranked.len() - i,
    {
        assert(ranked@[i as int].rankable() && ranked@[0].rankable());
        if i == 0 {
            proof {
                lemma_best_is_close(ranked@[0].average);
                assert(pooled(ranked@, limit as int, 0).len() == 0);
            }
        }
        if out.len() < limit && is_close_enough(ranked[i].average, ranked[0].average) {
            out.push(ranked[i].server.clone());
        }
        i = i + 1;
    }
    out
}

proof fn lemma_best_is_close(best: Fraction)
    requires
        best.is_mean(),
    ensures
        close_enough(best, best),
{
    assert(best.num * best.den <= (best.num + POOL_SLACK_NS * best.den) * best.den)
        by (nonlinear_arith)
        requires
            best.den > 0,
            best.num >= 0,
    ;
}

/// How many samples the slower way of probing has to add.
pub fn missing_samples(requested: usize, taken: usize) -> (r: usize)
    ensures
        r == if taken < requested {
            requested - taken
        } else {
            0
        },
{
    if taken < requested {
        requested - taken
    } else {
        0
    }
}

/// The average of a probe: at least half of the requested samples, and at least one.
pub fn finish_probe(server_id: u64, samples: &Vec<i64>, requested: usize) -> (r: Result<
    Fraction,
    SelectError,
>)
    requires
        forall|i: int| 0 <= i < samples.len() ==> 0 <= #[trigger] samples[i],
    ensures
        match r {
            Ok(average) => {
                &&& requested > 0
                &&& 2 * samples.len() >= requested
                &&& samples.len() > 0
                &&& average == mean(samples@)
                &&& average.is_mean()
            },
            Err(SelectError::NoSamplesRequested) => requested == 0,
            Err(SelectError::InsufficientSamples { server_id: id, taken, requested: wanted }) => {
                &&& 2 * samples.len() < requested
                &&& id == server_id
                &&& taken == samples.len()
                &&& wanted == requested
            },
            Err(_) => false,
        },
{
    if requested == 0 {
        return Err(SelectError::NoSamplesRequested);
    }
    if (samples.len() as u128) * 2 < requested as u128 {
        return Err(
            SelectError::InsufficientSamples { server_id, taken: samples.len(), requested },
        );
    }
    match average_latency(samples) {
        Some(average) => {
            proof {
                lemma_sum_bound(samples@, samples.len() as int);
            }
            Ok(average)
        },
        None => Err(SelectError::NoMeasurements),
    }
}

proof fn lemma_sum_bound(samples: Seq<i64>, upto: int)
    requires
        0 <= upto <= samples.len() <= u64::MAX,
        forall|i: int| 0 <= i < samples.len() ==> 0 <= #[trigger] samples[i],
    ensures
        0 <= span_sum(samples, 0, upto) <= upto * i64::MAX,
        upto * i64::MAX <= u64::MAX * i64::MAX,
    decreases upto,
{
    assert(upto * i64::MAX <= u64::MAX * i64::MAX) by (nonlinear_arith)
        requires
            upto <= u64::MAX,
    ;
    if upto > 0 {
        lemma_sum_bound(samples, upto - 1);
        assert(upto * i64::MAX == (upto - 1) * i64::MAX + i64::MAX) by (nonlinear_arith);
        assert(samples[upto - 1] >= 0);
    }
}

/// The index of the first server with the given id.
pub open spec fn first_with_id(servers: Seq<SpeedtestServer>, id: u64, from: int) -> Option<int>
    decreases servers.len() - from,
{
    if from < 0 || from >= servers.len() {
        None
    } else if servers[from].id == id {
        Some(from)
    } else {
        first_with_id(servers, id, from + 1)
    }
}

/// A server that is found has the wanted id, and no server before it has it. Where none is found,
/// no server has it.
pub proof fn the_wanted_server_is_found(servers: Seq<SpeedtestServer>, id: u64)
    ensures
        match first_with_id(servers, id, 0) {
            Some(i) => {
                &&& 0 <= i < servers.len()
                &&& servers[i].id == id
                &&& forall|k: int| 0 <= k < i ==> (#[trigger] servers[k]).id != id
            },
            None => forall|k: int| 0 <= k < servers.len() ==> (#[trigger] servers[k]).id != id,
        },
{
    lemma_first_with_id(servers, id, 0);
}

proof fn lemma_first_with_id(servers: Seq<SpeedtestServer>, id: u64, from: int)
    requires
        0 <= from <= servers.len(),
    ensures
        match first_with_id(servers, id, from) {
            Some(i) => {
                &&& from <= i < servers.len()
                &&& servers[i].id == id
                &&& forall|k: int| from <= k < i ==> (#[trigger] servers[k]).id != id
            },
            None => forall|k: int| from <= k < servers.len() ==> (#[trigger] servers[k]).id != id,
        },
    decreases servers.len() - from,
{
    if from < servers.len() && servers[from].id != id {
        lemma_first_with_id(servers, id, from + 1);
    }
}

/// The first server with the given id.
pub fn find_server(servers: &Vec<SpeedtestServer>, server_id: u64) -> (r: Result<
    SpeedtestServer,
    SelectError,
>)
    ensures
        match r {
            Ok(server) => first_with_id(servers@, server_id, 0) is Some && server
                == servers@[first_with_id(servers@, server_id, 0)->0],
            Err(error) => first_with_id(servers@, server_id, 0) is None && error
                == (SelectError::ServerNotFound { server_id }),
        },
        r is Ok ==> r->Ok_0.id == server_id && servers@.contains(r->Ok_0),
        r is Err ==> forall|k: int| 0 <= k < servers.len() ==> (#[trigger] servers[k]).id
            != server_id,
{
    proof {
        the_wanted_server_is_found(servers@, server_id);
    }
    let mut i: usize = 0;
    while i < servers.len()
        invariant
            first_with_id(servers@, server_id, 0) == first_with_id(servers@, server_id, i as int),
        decreases servers.len() - i,
    {
        if servers[i].id == server_id {
            return Ok(servers[i].clone());
        }
        i = i + 1;
    }
    Err(SelectError::ServerNotFound { server_id })
}

/// Whether a latency is at most another.
pub open spec fn no_slower(a: Fraction, b: Fraction) -> bool {
    a.num * b.den <= b.num * a.den
}

/// The nearest servers are chosen, as many as are asked for or there are, the nearest first. None
/// is chosen twice, and none is left out that is nearer than a chosen one.
pub proof fn the_nearest_are_chosen(
    servers: Seq<SpeedtestServer>,
    count: int,
    chosen: Seq<SpeedtestServer>,
) -> (places: Seq<usize>)
    requires
        is_nearest(servers, count, chosen),
        count >= 0,
    ensures
        chosen.len() == least(count, servers.len() as int),
        places.len() == chosen.len(),
        places.no_duplicates(),
        forall|k: int|
            0 <= k < chosen.len() ==> (#[trigger] places[k]) < servers.len() && chosen[k]
                == servers[places[k] as int],
        forall|a: int, b: int|
            #![trigger chosen[a], chosen[b]]
            0 <= a < b < chosen.len() ==> chosen[a].distance_km.order()
                <= chosen[b].distance_km.order(),
        forall|i: int, k: int|
            #![trigger servers[i], chosen[k]]
            0 <= i < servers.len() && 0 <= k < chosen.len() && !places.contains(i as usize)
                ==> chosen[k].distance_km.order() <= servers[i].distance_km.order(),
{
    let keys = distances(servers);
    let order = choose|order: Seq<usize>| #[trigger]
        is_stable_order(keys, order) && chosen == Seq::new(
            if count < servers.len() {
                count as nat
            } else {
                servers.len()
            },
            |k: int| servers[order[k] as int],
        );
    stable_orders_are_sorted(keys, order);
    let places = order.take(chosen.len() as int);
    assert forall|a: int, b: int| 0 <= a < b < order.len() implies order[a] != order[b] by {
        assert(stands_before(keys, order[a] as int, order[b] as int));
    }
    assert forall|a: int, b: int|
        #![trigger chosen[a], chosen[b]]
        0 <= a < b < chosen.len() implies chosen[a].distance_km.order()
        <= chosen[b].distance_km.order() by {
        assert(!keys[order[b] as int].below(keys[order[a] as int]));
    }
    assert forall|i: int, k: int|
        #![trigger servers[i], chosen[k]]
        0 <= i < servers.len() && 0 <= k < chosen.len() && !places.contains(
            i as usize,
        ) implies chosen[k].distance_km.order() <= servers[i].distance_km.order() by {
        assert(occurs(order, i));
        let b = choose|b: int| 0 <= b < order.len() && #[trigger] order[b] == i;
        if b < chosen.len() {
            assert(places[b] == i as usize);
        }
        assert(!keys[order[b] as int].below(keys[order[k] as int]));
    }
    places
}

/// Whether an entry is in the list.
pub open spec fn is_listed(list: Seq<ServerLatency>, entry: ServerLatency) -> bool {
    exists|a: int| 0 <= a < list.len() && (#[trigger] list[a]).same_as(entry)
}

/// A ranking holds every entry that was scored, the lowest average first.
pub proof fn rankings_start_with_the_lowest_average(
    scored: Seq<ServerLatency>,
    ranked: Seq<ServerLatency>,
)
    requires
        all_rankable(scored),
        is_ranking(scored, ranked),
    ensures
        ranked.len() == scored.len(),
        forall|a: int, b: int|
            #![trigger ranked[a], ranked[b]]
            0 <= a < b < ranked.len() ==> {
                let (x, y) = (ranked[a], ranked[b]);
                &&& x.average.num * y.average.den <= y.average.num * x.average.den
                &&& x.average.num * y.average.den == y.average.num * x.average.den ==> {
                    ||| x.variance_ms.order() < y.variance_ms.order()
                    ||| x.variance_ms.order() == y.variance_ms.order()
                        && x.server.distance_km.order() <= y.server.distance_km.order()
                }
            },
        forall|i: int| 0 <= i < scored.len() ==> is_listed(ranked, #[trigger] scored[i]),
{
    let keys = keys_of(scored);
    assert forall|k: int| 0 <= k < keys.len() implies (#[trigger] keys[k]).valid() by {
        assert(scored[k].rankable());
    }
    let order = choose|order: Seq<usize>| #[trigger]
        is_stable_order(keys, order) && ranked.len() == scored.len() && forall|k: int|
            0 <= k < ranked.len() ==> (#[trigger] ranked[k]).same_as(scored[order[k] as int]);
    stable_orders_are_sorted(keys, order);
    assert forall|a: int, b: int|
        #![trigger ranked[a], ranked[b]]
        0 <= a < b < ranked.len() implies {
        let (x, y) = (ranked[a], ranked[b]);
        &&& x.average.num * y.average.den <= y.average.num * x.average.den
        &&& x.average.num * y.average.den == y.average.num * x.average.den ==> {
            ||| x.variance_ms.order() < y.variance_ms.order()
            ||| x.variance_ms.order() == y.variance_ms.order() && x.server.distance_km.order()
                <= y.server.distance_km.order()
        }
    } by {
        assert(!keys[order[b] as int].below(keys[order[a] as int]));
        assert(ranked[a].same_as(scored[order[a] as int]));
        assert(ranked[b].same_as(scored[order[b] as int]));
    }
    assert forall|i: int| 0 <= i < scored.len() implies is_listed(ranked, #[trigger] scored[i]) by {
        assert(occurs(order, i));
        let a = choose|a: int| 0 <= a < order.len() && #[trigger] order[a] == i;
        assert(ranked[a].same_as(scored[order[a] as int]));
    }
}

/// No server that was probed has a lower average than the best one.
pub proof fn the_best_has_the_lowest_average(scored: Seq<ServerLatency>, i: int)
    requires
        all_rankable(scored),
        is_best(scored, i),
    ensures
        forall|j: int|
            0 <= j < scored.len() ==> scored[i].average.num * (
            #[trigger] scored[j]).average.den <= scored[j].average.num * scored[i].average.den,
{
    let keys = keys_of(scored);
    assert forall|j: int| 0 <= j < scored.len() implies scored[i].average.num * (
    #[trigger] scored[j]).average.den <= scored[j].average.num * scored[i].average.den by {
        if j != i {
            assert(stands_before(keys, i, j));
            if keys[i].below(keys[j]) {
                assert(scored[i].rankable() && scored[j].rankable());
                LatencyKey::below_is_asymmetric(keys[i], keys[j]);
            }
        }
    }
}

} // verus!
