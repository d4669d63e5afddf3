//! The fastest choice among amounts that took one length of time each.

use vstd::prelude::*;
use vstd::seq_lib::{commutative_foldl, lemma_fold_left_permutation};

use crate::num::rate::Rate;
use crate::num::trim::{
    lemma_rank_grows, lemma_rank_in_range, ranked_bytes, ranked_entries, ranked_ticks,
    ranks_are_a_permutation, slower, speed_rank,
};

verus! {

/// Whether all speeds were measured over the same time.
pub open spec fn one_length(rates: Seq<Rate>, ticks: int) -> bool {
    ticks > 0 && forall|i: int| 0 <= i < rates.len() ==> (#[trigger] rates[i]).ticks == ticks
}

/// Whether the chosen places are places among `count`.
pub open spec fn chosen_among(chosen: Set<int>, count: int) -> bool {
    forall|i: int| #[trigger] chosen.contains(i) ==> 0 <= i < count
}

/// The data of those of the first `upto` speeds that are chosen.
pub open spec fn chosen_bytes(rates: Seq<Rate>, chosen: Set<int>, upto: int) -> int
    decreases upto,
{
    if upto <= 0 {
        0
    } else {
        chosen_bytes(rates, chosen, upto - 1) + if chosen.contains(upto - 1) {
            rates[upto - 1].bytes as int
        } else {
            0
        }
    }
}

/// The amounts of data.
pub open spec fn amounts(rates: Seq<Rate>) -> Seq<int> {
    rates.map_values(|rate: Rate| rate.bytes as int)
}

spec fn chosen_count(chosen: Set<int>, upto: int) -> int
    decreases upto,
{
    if upto <= 0 {
        0
    } else {
        chosen_count(chosen, upto - 1) + if chosen.contains(upto - 1) {
            1int
        } else {
            0
        }
    }
}

proof fn lemma_count_without(chosen: Set<int>, out: int, upto: int)
    requires
        upto <= out,
    ensures
        chosen_count(chosen.remove(out), upto) == chosen_count(chosen, upto),
    decreases upto,
{
    if upto > 0 {
        lemma_count_without(chosen, out, upto - 1);
    }
}

proof fn lemma_count(chosen: Set<int>, upto: int)
    requires
        0 <= upto,
        chosen_among(chosen, upto),
    ensures
        chosen.finite(),
        chosen.len() == chosen_count(chosen, upto),
    decreases upto,
{
    if upto == 0 {
        assert(chosen =~= Set::<int>::empty());
    } else {
        let last = upto - 1;
        let rest = chosen.remove(last);
        lemma_count(rest, last);
        lemma_count_without(chosen, last, last);
        if chosen.contains(last) {
            assert(rest.insert(last) =~= chosen);
        } else {
            assert(rest =~= chosen);
        }
    }
}

spec fn beyond(amount: int, limit: int) -> int {
    if amount > limit {
        amount - limit
    } else {
        0
    }
}

/// How much of the first `upto` amounts lies beyond a limit.
spec fn excess(amounts: Seq<int>, limit: int, upto: int) -> int
    decreases upto,
{
    if upto <= 0 {
        0
    } else {
        excess(amounts, limit, upto - 1) + beyond(amounts[upto - 1], limit)
    }
}

/// A choice holds at most its share of the limit and all that lies beyond.
proof fn lemma_choice_is_limited(rates: Seq<Rate>, chosen: Set<int>, limit: int, upto: int)
    requires
        0 <= upto <= rates.len(),
    ensures
        chosen_bytes(rates, chosen, upto) <= excess(amounts(rates), limit, upto) + limit
            * chosen_count(chosen, upto),
    decreases upto,
{
    if upto > 0 {
        lemma_choice_is_limited(rates, chosen, limit, upto - 1);
        assert(amounts(rates)[upto - 1] == rates[upto - 1].bytes);
        let count = chosen_count(chosen, upto - 1);
        assert(limit * (count + 1) == limit * count + limit) by (nonlinear_arith);
    }
}

/// A choice of what reaches the limit, with nothing beyond it left out, holds exactly that.
proof fn lemma_best_choice(rates: Seq<Rate>, chosen: Set<int>, limit: int, upto: int)
    requires
        0 <= upto <= rates.len(),
        forall|i: int|
            0 <= i < rates.len() && chosen.contains(i) ==> limit <= (#[trigger] rates[i]).bytes,
        forall|i: int|
            0 <= i < rates.len() && !chosen.contains(i) ==> (#[trigger] rates[i]).bytes <= limit,
    ensures
        chosen_bytes(rates, chosen, upto) == excess(amounts(rates), limit, upto) + limit
            * chosen_count(chosen, upto),
    decreases upto,
{
    if upto > 0 {
        lemma_best_choice(rates, chosen, limit, upto - 1);
        assert(amounts(rates)[upto - 1] == rates[upto - 1].bytes);
        let count = chosen_count(chosen, upto - 1);
        assert(limit * (count + 1) == limit * count + limit) by (nonlinear_arith);
    }
}

/// What stands before in order has no more data.
proof fn lemma_rank_is_amount(rates: Seq<Rate>, ticks: int, i: int, j: int)
    requires
        one_length(rates, ticks),
        0 <= i < rates.len(),
        0 <= j < rates.len(),
        speed_rank(rates, i) <= speed_rank(rates, j),
    ensures
        rates[i].bytes <= rates[j].bytes,
{
    if rates[i].bytes > rates[j].bytes {
        let (more, less) = (rates[i].bytes as int, rates[j].bytes as int);
        assert(more * ticks > less * ticks) by (nonlinear_arith)
            requires
                more > less,
                ticks > 0,
        ;
        assert(rates[i].above(rates[j]));
        assert(slower(rates, j, i));
        lemma_rank_grows(rates, j, i, rates.len() as int);
    }
}

/// The amount at a place of the order.
proof fn lemma_limit(rates: Seq<Rate>, ticks: int, low: int) -> (limit: int)
    requires
        one_length(rates, ticks),
        0 <= low < rates.len(),
    ensures
        ({
            let kept = ranked_entries(rates, low, rates.len() as int);
            &&& forall|i: int|
                0 <= i < rates.len() && kept.contains(i) ==> limit <= (#[trigger] rates[i]).bytes
            &&& forall|i: int|
                0 <= i < rates.len() && !kept.contains(i) ==> (#[trigger] rates[i]).bytes <= limit
        }),
{
    let n = rates.len() as int;
    let kept = ranked_entries(rates, low, n);
    let here = ranked_entries(rates, low, low + 1);
    ranks_are_a_permutation(rates, low, low + 1);
    assert(exists|i: int| here.contains(i)) by {
        if forall|i: int| !here.contains(i) {
            assert(here =~= Set::<int>::empty());
        }
    }
    let at = choose|i: int| here.contains(i);
    assert(speed_rank(rates, at) == low);
    let limit = rates[at].bytes as int;
    assert forall|i: int| 0 <= i < n && kept.contains(i) implies limit <= (
    #[trigger] rates[i]).bytes by {
        lemma_rank_is_amount(rates, ticks, at, i);
    }
    assert forall|i: int| 0 <= i < n && !kept.contains(i) implies (#[trigger] rates[i]).bytes
        <= limit by {
        lemma_rank_in_range(rates, i, n);
        lemma_rank_is_amount(rates, ticks, i, at);
    }
    limit
}

/// What is kept is a choice.
proof fn lemma_kept(rates: Seq<Rate>, ticks: int, low: int, upto: int)
    requires
        one_length(rates, ticks),
        0 <= upto <= rates.len(),
    ensures
        ({
            let n = rates.len() as int;
            let kept = ranked_entries(rates, low, n);
            &&& ranked_bytes(rates, low, n, upto) == chosen_bytes(rates, kept, upto)
            &&& ranked_ticks(rates, low, n, upto) == ticks * chosen_count(kept, upto)
        }),
    decreases upto,
{
    if upto > 0 {
        lemma_kept(rates, ticks, low, upto - 1);
        let count = chosen_count(ranked_entries(rates, low, rates.len() as int), upto - 1);
        assert(rates[upto - 1].ticks == ticks);
        assert(ticks * (count + 1) == ticks * count + ticks) by (nonlinear_arith);
    }
}

/// Of speeds that were measured over one length of time, those from place `low` on are the fullest,
/// and no other choice of as many holds more data.
pub proof fn the_last_places_are_fullest(
    rates: Seq<Rate>,
    ticks: int,
    low: int,
    chosen: Set<int>,
)
    requires
        one_length(rates, ticks),
        0 <= low < rates.len(),
        chosen_among(chosen, rates.len() as int),
        chosen.len() == rates.len() - low,
    ensures
        ({
            let n = rates.len() as int;
            let kept = ranked_entries(rates, low, n);
            &&& kept.len() == n - low
            &&& ranked_ticks(rates, low, n, n) == ticks * (n - low)
            &&& ranked_bytes(rates, low, n, n) == chosen_bytes(rates, kept, n)
            &&& chosen_bytes(rates, chosen, n) <= chosen_bytes(rates, kept, n)
            &&& forall|i: int, j: int|
                #![trigger rates[i], rates[j]]
                kept.contains(i) && 0 <= j < n && !kept.contains(j) ==> rates[j].bytes
                    <= rates[i].bytes
        }),
{
    let n = rates.len() as int;
    let kept = ranked_entries(rates, low, n);
    ranks_are_a_permutation(rates, low, n);
    lemma_count(kept, n);
    lemma_count(chosen, n);
    lemma_kept(rates, ticks, low, n);
    let limit = lemma_limit(rates, ticks, low);
    lemma_best_choice(rates, kept, limit, n);
    lemma_choice_is_limited(rates, chosen, limit, n);
}

proof fn lemma_excess_folds(amounts: Seq<int>, limit: int, upto: int)
    requires
        0 <= upto <= amounts.len(),
    ensures
        excess(amounts, limit, upto) == amounts.take(upto).fold_left(
            0int,
            |sum: int, amount: int| sum + beyond(amount, limit),
        ),
    decreases upto,
{
    if upto > 0 {
        lemma_excess_folds(amounts, limit, upto - 1);
        assert(amounts.take(upto).drop_last() =~= amounts.take(upto - 1));
    }
}

proof fn lemma_same_excess(a: Seq<int>, b: Seq<int>, limit: int)
    requires
        a.to_multiset() == b.to_multiset(),
    ensures
        excess(a, limit, a.len() as int) == excess(b, limit, b.len() as int),
{
    let add_on = |sum: int, amount: int| sum + beyond(amount, limit);
    lemma_excess_folds(a, limit, a.len() as int);
    lemma_excess_folds(b, limit, b.len() as int);
    assert(a.take(a.len() as int) =~= a);
    assert(b.take(b.len() as int) =~= b);
    assert(commutative_foldl(add_on));
    lemma_fold_left_permutation(a, b, add_on, 0int);
}

proof fn lemma_no_more(a: Seq<Rate>, b: Seq<Rate>, ticks: int, low: int)
    requires
        one_length(a, ticks),
        one_length(b, ticks),
        amounts(a).to_multiset() == amounts(b).to_multiset(),
        a.len() == b.len(),
        0 <= low < a.len(),
    ensures
        ranked_bytes(a, low, a.len() as int, a.len() as int) <= ranked_bytes(
            b,
            low,
            b.len() as int,
            b.len() as int,
        ),
{
    let n = a.len() as int;
    let kept_a = ranked_entries(a, low, n);
    let kept_b = ranked_entries(b, low, n);
    ranks_are_a_permutation(a, low, n);
    ranks_are_a_permutation(b, low, n);
    lemma_count(kept_a, n);
    lemma_count(kept_b, n);
    lemma_kept(a, ticks, low, n);
    lemma_kept(b, ticks, low, n);
    let limit = lemma_limit(b, ticks, low);
    lemma_best_choice(b, kept_b, limit, n);
    lemma_choice_is_limited(a, kept_a, limit, n);
    lemma_same_excess(amounts(a), amounts(b), limit);
}

/// Nothing is kept from the end on.
proof fn lemma_nothing_kept(rates: Seq<Rate>, upto: int)
    requires
        0 <= upto <= rates.len(),
    ensures
        ranked_bytes(rates, rates.len() as int, rates.len() as int, upto) == 0,
        ranked_ticks(rates, rates.len() as int, rates.len() as int, upto) == 0,
    decreases upto,
{
    if upto > 0 {
        lemma_nothing_kept(rates, upto - 1);
    }
}

/// Of speeds that were measured over one length of time, only the amounts matter to what is kept,
/// not their order.
pub proof fn order_does_not_matter(a: Seq<Rate>, b: Seq<Rate>, ticks: int, low: int)
    requires
        one_length(a, ticks),
        one_length(b, ticks),
        amounts(a).to_multiset() == amounts(b).to_multiset(),
        0 <= low <= a.len(),
    ensures
        a.len() == b.len(),
        ranked_bytes(a, low, a.len() as int, a.len() as int) == ranked_bytes(
            b,
            low,
            b.len() as int,
            b.len() as int,
        ),
        ranked_ticks(a, low, a.len() as int, a.len() as int) == ranked_ticks(
            b,
            low,
            b.len() as int,
            b.len() as int,
        ),
{
    broadcast use vstd::seq_lib::group_to_multiset_ensures;

    let n = a.len() as int;
    assert(amounts(a).to_multiset().len() == a.len());
    assert(amounts(b).to_multiset().len() == b.len());
    if low < n {
        lemma_no_more(a, b, ticks, low);
        lemma_no_more(b, a, ticks, low);
        ranks_are_a_permutation(a, low, n);
        ranks_are_a_permutation(b, low, n);
        lemma_count(ranked_entries(a, low, n), n);
        lemma_count(ranked_entries(b, low, n), n);
        lemma_kept(a, ticks, low, n);
        lemma_kept(b, ticks, low, n);
    } else {
        lemma_nothing_kept(a, n);
        lemma_nothing_kept(b, n);
    }
}

} // verus!
