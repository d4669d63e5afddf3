//! Averages over the middle of a set of speeds.

use vstd::prelude::*;
use vstd::relations::injective_on;
use vstd::set_lib::{lemma_int_range, lemma_map_size, lemma_subset_equality, set_int_range};

use crate::num::rate::{above_is_asymmetric, above_is_transitive, Rate};

verus! {

/// Whether speed `j` stands before speed `i` when the speeds are put in order, slowest first, with
/// equal speeds left in the order they came in.
pub open spec fn slower(rates: Seq<Rate>, j: int, i: int) -> bool {
    rates[i].above(rates[j]) || (!rates[j].above(rates[i]) && j < i)
}

/// How many of the first `upto` speeds stand before speed `i`.
pub open spec fn slower_count(rates: Seq<Rate>, i: int, upto: int) -> int
    decreases upto,
{
    if upto <= 0 {
        0
    } else {
        slower_count(rates, i, upto - 1) + if slower(rates, upto - 1, i) {
            1int
        } else {
            0
        }
    }
}

/// The place of speed `i` in order, counted from the slowest.
pub open spec fn speed_rank(rates: Seq<Rate>, i: int) -> int {
    slower_count(rates, i, rates.len() as int)
}

/// The data of those of the first `upto` speeds whose place is in `low..high`.
pub open spec fn ranked_bytes(rates: Seq<Rate>, low: int, high: int, upto: int) -> int
    decreases upto,
{
    if upto <= 0 {
        0
    } else {
        ranked_bytes(rates, low, high, upto - 1) + if low <= speed_rank(rates, upto - 1) < high {
            rates[upto - 1].bytes as int
        } else {
            0
        }
    }
}

/// The time of those of the first `upto` speeds whose place is in `low..high`.
pub open spec fn ranked_ticks(rates: Seq<Rate>, low: int, high: int, upto: int) -> int
    decreases upto,
{
    if upto <= 0 {
        0
    } else {
        ranked_ticks(rates, low, high, upto - 1) + if low <= speed_rank(rates, upto - 1) < high {
            rates[upto - 1].ticks as int
        } else {
            0
        }
    }
}

/// All the data over all the time of the speeds whose place is in `low..high`.
pub open spec fn ranked_speed(rates: Seq<Rate>, low: int, high: int) -> Rate {
    Rate {
        bytes: ranked_bytes(rates, low, high, rates.len() as int) as u128,
        ticks: ranked_ticks(rates, low, high, rates.len() as int) as u128,
    }
}

/// Whether every speed is made of a 64-bit amount and a 64-bit time.
pub open spec fn word_sized(rates: Seq<Rate>) -> bool {
    forall|i: int|
        0 <= i < rates.len() ==> (#[trigger] rates[i]).bytes <= u64::MAX && rates[i].ticks
            <= u64::MAX
}

fn rank_of(rates: &Vec<Rate>, i: usize) -> (rank: usize)
    requires
        i < rates.len(),
    ensures
        rank == speed_rank(rates@, i as int),
{
    let own = rates[i];
    let mut rank: usize = 0;
    let mut j: usize = 0;
    while j < rates.len()
        invariant
            i < rates.len(),
            j <= rates.len(),
            own == rates[i as int],
            rank == slower_count(rates@, i as int, j as int),
            rank <= j,
        decreases rates.len() - j,
    {
        let other = rates[j];
        if own.exceeds(other) || (!other.exceeds(own) && j < i) {
            rank = rank + 1;
        }
        j = j + 1;
    }
    rank
}

/// The speed over those entries whose place in order of speed is in `low..high`.
pub fn middle_speed(rates: &Vec<Rate>, low: u128, high: u128) -> (r: Rate)
    requires
        word_sized(rates@),
    ensures
        r == ranked_speed(rates@, low as int, high as int),
        r.bytes == ranked_bytes(rates@, low as int, high as int, rates.len() as int),
        r.ticks == ranked_ticks(rates@, low as int, high as int, rates.len() as int),
{
    let mut bytes: u128 = 0;
    let mut ticks: u128 = 0;
    let mut i: usize = 0;
    while i < rates.len()
        invariant
            word_sized(rates@),
            i <= rates.len(),
            bytes == ranked_bytes(rates@, low as int, high as int, i as int),
            ticks == ranked_ticks(rates@, low as int, high as int, i as int),
            bytes <= i * u64::MAX,
            ticks <= i * u64::MAX,
        decreases rates.len() - i,
    {
        assert((i + 1) * u64::MAX == i * u64::MAX + u64::MAX && (i + 1) * u64::MAX <= u64::MAX
            * u64::MAX) by (nonlinear_arith)
            requires
                i + 1 <= u64::MAX,
        ;
        assert(u64::MAX * u64::MAX <= u128::MAX) by (nonlinear_arith);
        let rank: u128 = rank_of(rates, i) as u128;
        if low <= rank && rank < high {
            bytes = bytes + rates[i].bytes;
            ticks = ticks + rates[i].ticks;
        }
        i = i + 1;
    }
    Rate { bytes, ticks }
}

proof fn lemma_slower_is_transitive(rates: Seq<Rate>, k: int, i: int, j: int)
    requires
        slower(rates, k, i),
        slower(rates, i, j),
    ensures
        slower(rates, k, j),
{
    let (rk, ri, rj) = (rates[k], rates[i], rates[j]);
    if rj.above(ri) {
        above_is_asymmetric(ri, rk);
        above_is_transitive(rj, ri, rk);
    } else if ri.above(rk) {
        if !rj.above(rk) {
            above_is_transitive(ri, rk, rj);
        }
    } else {
        if rk.above(rj) {
            above_is_transitive(rk, rj, ri);
        }
    }
}

pub(crate) proof fn lemma_rank_grows(rates: Seq<Rate>, i: int, j: int, upto: int)
    requires
        slower(rates, i, j),
        0 <= upto,
        0 <= i,
    ensures
        0 <= slower_count(rates, i, upto) <= upto,
        slower_count(rates, i, upto) + (if i < upto {
            1int
        } else {
            0
        }) <= slower_count(rates, j, upto),
    decreases upto,
{
    if upto > 0 {
        let k = upto - 1;
        lemma_rank_grows(rates, i, j, k);
        above_is_asymmetric(rates[i], rates[i]);
        if slower(rates, k, i) {
            lemma_slower_is_transitive(rates, k, i, j);
        }
    }
}

pub(crate) proof fn lemma_rank_in_range(rates: Seq<Rate>, i: int, upto: int)
    requires
        0 <= i,
        0 <= upto,
    ensures
        0 <= slower_count(rates, i, upto) <= upto - (if i < upto {
            1int
        } else {
            0
        }),
    decreases upto,
{
    if upto > 0 {
        lemma_rank_in_range(rates, i, upto - 1);
        above_is_asymmetric(rates[i], rates[i]);
    }
}

/// The entries whose place is in `low..high`.
pub open spec fn ranked_entries(rates: Seq<Rate>, low: int, high: int) -> Set<int> {
    Set::new(|i: int| 0 <= i < rates.len() && low <= speed_rank(rates, i) < high)
}

/// Every place in the order is taken by exactly one entry, so `high - low` entries have their
/// place in `low..high`.
pub proof fn ranks_are_a_permutation(rates: Seq<Rate>, low: int, high: int)
    requires
        0 <= low <= high <= rates.len(),
    ensures
        ranked_entries(rates, low, high).finite(),
        ranked_entries(rates, low, high).len() == high - low,
{
    let n = rates.len() as int;
    let all = set_int_range(0, n);
    let rank = |i: int| speed_rank(rates, i);
    lemma_int_range(0, n);
    lemma_int_range(low, high);
    assert forall|i: int| all.contains(i) implies all.contains(#[trigger] rank(i)) by {
        lemma_rank_in_range(rates, i, n);
    }
    assert forall|i: int, j: int|
        all.contains(i) && all.contains(j) && #[trigger] rank(i) == #[trigger] rank(j) implies i
        == j by {
        if i != j {
            above_is_asymmetric(rates[i], rates[j]);
            if slower(rates, i, j) {
                lemma_rank_grows(rates, i, j, n);
            } else {
                assert(slower(rates, j, i));
                lemma_rank_grows(rates, j, i, n);
            }
        }
    }
    assert(injective_on(rank, all));
    let image = all.map(rank);
    lemma_map_size(all, image, rank);
    lemma_subset_equality(image, all);
    let chosen = ranked_entries(rates, low, high);
    let places = set_int_range(low, high);
    assert(chosen.subset_of(all));
    vstd::set_lib::lemma_len_subset(chosen, all);
    assert(injective_on(rank, chosen));
    assert(chosen.map(rank) =~= places) by {
        assert forall|r: int| places.contains(r) implies chosen.map(rank).contains(r) by {
            assert(image.contains(r));
            let i = choose|i: int| all.contains(i) && rank(i) == r;
            assert(chosen.contains(i) && rank(i) == r);
        }
    }
    lemma_map_size(chosen, places, rank);
}

} // verus!
