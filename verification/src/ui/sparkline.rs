//! A row of bars.

use vstd::arithmetic::div_mod::lemma_fundamental_div_mod_converse;
use vstd::prelude::*;

use crate::num::scalar::{Scalar, INFINITY_BITS, SIGN};
use crate::num::signs::{
    lemma_positive, not_negative, scaled, units_follow_the_order, Multiple,
};
use crate::num::whole::{clamped, least, rounded_quotient};
use crate::speedtest::latency::{ordered, sort_readings};

verus! {

/// A row of values, one for each column; a column may be empty.
#[derive(Debug)]
pub struct Sparkline {
    samples: Vec<Option<Scalar>>,
}

/// The places among all numbers of the values that are there, in the order of their columns.
pub open spec fn present(samples: Seq<Option<Scalar>>) -> Seq<i64>
    decreases samples.len(),
{
    if samples.len() == 0 {
        Seq::empty()
    } else {
        let before = present(samples.drop_last());
        match samples.last() {
            Some(value) => before.push(value.order() as i64),
            None => before,
        }
    }
}

/// Whether `low` and `high` bound the bars: the least and the greatest value, or with four values
/// and more the ends of the range without the lowest and the highest twentieth.
pub open spec fn are_bounds(values: Seq<i64>, low: Scalar, high: Scalar) -> bool {
    let sorted = ordered(values);
    let n = values.len() as int;
    if n < 4 {
        low.order() == sorted[0] && high.order() == sorted[n - 1]
    } else {
        low.order() == sorted[n / 20] && high.order() == sorted[least((19 * n + 19) / 20, n - 1)]
    }
}

/// The least distance of the bounds, in units of 2^-1074, that counts as one: what is nearer to
/// 2^-52 than to the double before it.
pub open spec fn narrowest() -> int {
    scaled(0x3f_ffff_ffff_ffff, 968)
}

/// The least distance of the bounds, in units of 2^-1074, that is beyond every finite double.
pub open spec fn widest() -> int {
    scaled(0x3f_ffff_ffff_ffff, 2_044)
}

/// A value in units of 2^-1074, moved between the bounds.
pub open spec fn held(value: Scalar, low: int, high: int) -> int {
    if value.finite() {
        clamped(value.units(), low, high)
    } else if value.negative() {
        low
    } else {
        high
    }
}

/// The height of a bar from 0 to 7: the nearest step between the bounds, halves upwards, with
/// values outside them at the ends, and the middle where the bounds are one. Without finite bounds
/// at a finite distance, and for what is not a number, the lowest.
pub open spec fn bar_height(value: Scalar, low: Scalar, high: Scalar) -> int {
    let range = high.units() - low.units();
    if !low.finite() || !high.finite() {
        0
    } else if range < narrowest() {
        3
    } else if range >= widest() || value.not_a_number() {
        0
    } else {
        rounded_quotient(7 * (held(value, low.units(), high.units()) - low.units()), range)
    }
}

/// The character of a bar.
pub open spec fn bar_char(height: int) -> char {
    if height <= 0 {
        '\u{2581}'
    } else if height == 1 {
        '\u{2582}'
    } else if height == 2 {
        '\u{2583}'
    } else if height == 3 {
        '\u{2584}'
    } else if height == 4 {
        '\u{2585}'
    } else if height == 5 {
        '\u{2586}'
    } else if height == 6 {
        '\u{2587}'
    } else {
        '\u{2588}'
    }
}

/// The colour of a bar: red for the two lowest heights, green for the three highest, else yellow.
pub open spec fn bar_color(height: int) -> Seq<char> {
    if height <= 1 {
        "\x1b[31m"@
    } else if height <= 4 {
        "\x1b[33m"@
    } else {
        "\x1b[32m"@
    }
}

/// One column of the row.
pub open spec fn column(sample: Option<Scalar>, low: Scalar, high: Scalar) -> Seq<char> {
    match sample {
        Some(value) => bar_color(bar_height(value, low, high)).push(
            bar_char(bar_height(value, low, high)),
        ),
        None => seq![' '],
    }
}

pub open spec fn columns(samples: Seq<Option<Scalar>>, low: Scalar, high: Scalar) -> Seq<char>
    decreases samples.len(),
{
    if samples.len() == 0 {
        Seq::empty()
    } else {
        columns(samples.drop_last(), low, high) + column(samples.last(), low, high)
    }
}

pub open spec fn blanks(count: int) -> Seq<char> {
    Seq::new(count as nat, |i: int| ' ')
}

/// Whether the text is the row: blank where no value is there, else the columns with the colour
/// reset behind them.
pub open spec fn is_row(samples: Seq<Option<Scalar>>, text: Seq<char>) -> bool {
    if samples.len() == 0 {
        text == Seq::<char>::empty()
    } else if present(samples).len() == 0 {
        text == blanks(samples.len() as int)
    } else {
        exists|low: Scalar, high: Scalar| #[trigger]
            are_bounds(present(samples), low, high) && text == columns(samples, low, high)
                + "\x1b[0m"@
    }
}

fn to_bar(height: usize) -> (r: char)
    ensures
        r == bar_char(height as int),
{
    if height == 0 {
        '\u{2581}'
    } else if height == 1 {
        '\u{2582}'
    } else if height == 2 {
        '\u{2583}'
    } else if height == 3 {
        '\u{2584}'
    } else if height == 4 {
        '\u{2585}'
    } else if height == 5 {
        '\u{2586}'
    } else if height == 6 {
        '\u{2587}'
    } else {
        '\u{2588}'
    }
}

fn to_color(height: usize) -> (r: &'static str)
    ensures
        r@ == bar_color(height as int),
{
    if height <= 1 {
        "\x1b[31m"
    } else if height <= 4 {
        "\x1b[33m"
    } else {
        "\x1b[32m"
    }
}

/// Whether the bounds are at least `0x3f_ffff_ffff_ffff * 2^shift` units apart.
fn are_apart(low: Scalar, high: Scalar, shift: u64) -> (r: bool)
    requires
        low.finite(),
        high.finite(),
    ensures
        r == (high.units() - low.units() >= scaled(0x3f_ffff_ffff_ffff, shift as int)),
{
    let distance = Multiple { factor: -1, digits: 0x3f_ffff_ffff_ffff, shift };
    not_negative(Multiple::of(1, high), Multiple::of(-1, low), distance)
}

/// Whether a value is nearer to a step than to the one below it, or above both.
fn reaches_step(value: Scalar, low: Scalar, high: Scalar, step: i64) -> (r: bool)
    requires
        value.finite(),
        low.finite(),
        high.finite(),
        1 <= step <= 7,
    ensures
        r == (14 * (value.units() - low.units()) >= (2 * step - 1) * (high.units() - low.units())),
{
    proof {
        let (v, l, h) = (value.units(), low.units(), high.units());
        assert(14 * v + (1 - 2 * step) * h + (2 * step - 15) * l == 14 * (v - l) - (2 * step - 1)
            * (h - l)) by (nonlinear_arith);
    }
    not_negative(
        Multiple::of(14, value),
        Multiple::of(1 - 2 * step, high),
        Multiple::of(2 * step - 15, low),
    )
}

/// The nearest step is the last one that a value reaches.
proof fn lemma_step(above: int, range: int, step: int)
    requires
        0 < range,
        0 <= step <= 7,
        step > 0 ==> 14 * above >= (2 * step - 1) * range,
        step < 7 ==> 14 * above < (2 * step + 1) * range,
    ensures
        rounded_quotient(7 * clamped(above, 0, range), range) == step,
{
    let inside = clamped(above, 0, range);
    let rest = 2 * (7 * inside) + range - step * (2 * range);
    assert(2 * step * range - range <= 14 * inside < 2 * step * range + range) by {
        assert((2 * step - 1) * range == 2 * step * range - range && (2 * step + 1) * range == 2
            * step * range + range) by (nonlinear_arith);
        assert(step > 0 ==> 2 * step * range - range <= 13 * range) by (nonlinear_arith)
            requires
                step <= 7,
                range > 0,
        ;
        assert(step >= 7 ==> 14 * range < 2 * step * range + range) by (nonlinear_arith)
            requires
                range > 0,
        ;
        assert(0 < 2 * step * range + range) by (nonlinear_arith)
            requires
                step >= 0,
                range > 0,
        ;
        assert(step == 0 ==> 2 * step * range == 0) by (nonlinear_arith);
    }
    assert(step * (2 * range) == 2 * step * range) by (nonlinear_arith);
    lemma_fundamental_div_mod_converse(
        2 * (7 * inside) + range,
        2 * range,
        step,
        rest,
    );
}

proof fn lemma_narrowest()
    ensures
        narrowest() > 0,
{
    lemma_positive(0x3f_ffff_ffff_ffff, 968);
}

/// The height of the bar for a value.
pub fn height_of(value: Scalar, low: Scalar, high: Scalar) -> (r: usize)
    ensures
        r == bar_height(value, low, high),
        r <= 7,
{
    if !low.is_finite() || !high.is_finite() {
        return 0;
    }
    if !are_apart(low, high, 968) {
        return 3;
    }
    let ghost range = high.units() - low.units();
    let ghost above = value.units() - low.units();
    proof {
        lemma_narrowest();
    }
    if are_apart(low, high, 2_044) || value.bits % SIGN > INFINITY_BITS {
        return 0;
    }
    if !value.is_finite() {
        proof {
            assert((2 * 0 + 1) * range == range && (2 * 7 - 1) * range == 13 * range)
                by (nonlinear_arith);
            lemma_step(0, range, 0);
            lemma_step(range, range, 7);
        }
        return if value.bits >= SIGN {
            0
        } else {
            7
        };
    }
    let mut step: i64 = 0;
    while step < 7 && reaches_step(value, low, high, step + 1)
        invariant
            value.finite(),
            low.finite(),
            high.finite(),
            range == high.units() - low.units(),
            above == value.units() - low.units(),
            0 <= step <= 7,
            step > 0 ==> 14 * above >= (2 * step - 1) * range,
        ensures
            0 <= step <= 7,
            step > 0 ==> 14 * above >= (2 * step - 1) * range,
            step < 7 ==> 14 * above < (2 * step + 1) * range,
        decreases 7 - step,
    {
        step = step + 1;
    }
    proof {
        lemma_step(above, range, step as int);
    }
    step as usize
}

/// The least and the greatest index of the sorted values that bound the bars.
fn bound_indices(count: usize) -> (r: (usize, usize))
    requires
        count > 0,
    ensures
        count < 4 ==> r.0 == 0 && r.1 == count - 1,
        count >= 4 ==> r.0 == count as int / 20 && r.1 == least(
            (19 * count as int + 19) / 20,
            count - 1,
        ),
        r.0 < count,
        r.1 < count,
{
    if count < 4 {
        return (0, count - 1);
    }
    let wide: u128 = (19 * count as u128 + 19) / 20;
    let high: usize = if wide < (count - 1) as u128 {
        wide as usize
    } else {
        count - 1
    };
    (count / 20, high)
}

/// Every place is that of a number, so its distance from zero fits too.
proof fn lemma_present(samples: Seq<Option<Scalar>>)
    ensures
        forall|i: int|
            0 <= i < present(samples).len() ==> #[trigger] present(samples)[i] > i64::MIN,
    decreases samples.len(),
{
    if samples.len() > 0 {
        let before = present(samples.drop_last());
        lemma_present(samples.drop_last());
        if let Some(value) = samples.last() {
            assert(i64::MIN < value.order() <= i64::MAX);
            assert(present(samples) == before.push(value.order() as i64));
            assert forall|i: int| 0 <= i < present(samples).len() implies #[trigger] present(
                samples,
            )[i] > i64::MIN by {
                if i < before.len() {
                    assert(before[i] > i64::MIN);
                }
            }
        }
    }
}

proof fn lemma_places(values: Seq<i64>, sorted: Seq<i64>)
    requires
        values.to_multiset() == sorted.to_multiset(),
        forall|i: int| 0 <= i < values.len() ==> #[trigger] values[i] > i64::MIN,
    ensures
        forall|i: int| 0 <= i < sorted.len() ==> #[trigger] sorted[i] > i64::MIN,
{
    broadcast use vstd::seq_lib::group_to_multiset_ensures;

    assert forall|i: int| 0 <= i < sorted.len() implies #[trigger] sorted[i] > i64::MIN by {
        assert(sorted.contains(sorted[i]));
        assert(sorted.to_multiset().contains(sorted[i]));
        assert(values.to_multiset().contains(sorted[i]));
        assert(values.contains(sorted[i]));
    }
}

impl Sparkline {
    pub closed spec fn slots(self) -> Seq<Option<Scalar>> {
        self.samples@
    }

    pub fn new(max_width: usize) -> (r: Sparkline)
        ensures
            r.slots() == Seq::new(max_width as nat, |i: int| None::<Scalar>),
    {
        let mut samples: Vec<Option<Scalar>> = Vec::new();
        let mut i: usize = 0;
        while i < max_width
            invariant
                i <= max_width,
                samples@ == Seq::new(i as nat, |k: int| None::<Scalar>),
            decreases max_width - i,
        {
            samples.push(None);
            i = i + 1;
            assert(samples@ =~= Seq::new(i as nat, |k: int| None::<Scalar>));
        }
        Sparkline { samples }
    }

    pub fn width(&self) -> (r: usize)
        ensures
            r == self.slots().len(),
    {
        self.samples.len()
    }

    /// What stands in a column.
    pub fn sample(&self, index: usize) -> (r: Option<Scalar>)
        requires
            index < self.slots().len(),
        ensures
            r == self.slots()[index as int],
    {
        self.samples[index]
    }

    /// Puts a value into a column, or into the last one where there is no such column.
    pub fn set(&mut self, index: usize, value: Scalar)
        requires
            !value.not_a_number(),
        ensures
            final(self).slots() == if old(self).slots().len() == 0 {
                old(self).slots()
            } else {
                old(self).slots().update(
                    least(index as int, old(self).slots().len() - 1),
                    Some(value),
                )
            },
    {
        let count: usize = self.samples.len();
        if count == 0 {
            return ;
        }
        let at: usize = if index < count - 1 {
            index
        } else {
            count - 1
        };
        self.samples.set(at, Some(value));
    }

    fn values(&self) -> (r: Vec<i64>)
        ensures
            r@ == present(self.slots()),
    {
        let mut out: Vec<i64> = Vec::new();
        let mut i: usize = 0;
        assert(self.samples@.take(0) =~= Seq::<Option<Scalar>>::empty());
        while i < self.samples.len()
            invariant
                i <= self.samples.len(),
                out@ == present(self.samples@.take(i as int)),
            decreases self.samples.len() - i,
        {
            assert(self.samples@.take(i + 1).drop_last() =~= self.samples@.take(i as int));
            assert(self.samples@.take(i + 1).last() == self.samples@[i as int]);
            if let Some(value) = self.samples[i] {
                out.push(value.order_key());
            }
            i = i + 1;
        }
        assert(self.samples@.take(i as int) =~= self.samples@);
        out
    }

    /// The bounds of the bars, where there is a value.
    fn percentile_range(&self) -> (r: Option<(Scalar, Scalar)>)
        ensures
            match r {
                Some((low, high)) => present(self.slots()).len() > 0 && are_bounds(
                    present(self.slots()),
                    low,
                    high,
                ),
                None => present(self.slots()).len() == 0,
            },
    {
        let values = self.values();
        if values.len() == 0 {
            return None;
        }
        let sorted = sort_readings(&values);
        let (low, high) = bound_indices(sorted.len());
        proof {
            lemma_present(self.slots());
            lemma_places(values@, sorted@);
        }
        Some((Scalar::at_place(sorted[low]), Scalar::at_place(sorted[high])))
    }

    /// The row as text.
    pub fn render(&self) -> (r: String)
        ensures
            is_row(self.slots(), r@),
    {
        let count: usize = self.samples.len();
        let mut out = String::new();
        if count == 0 {
            assert(out@ =~= Seq::<char>::empty());
            return out;
        }
        match self.percentile_range() {
            None => {
                let mut i: usize = 0;
                assert(out@ =~= blanks(0));
                while i < count
                    invariant
                        i <= count,
                        out@ == blanks(i as int),
                    decreases count - i,
                {
                    out.push(' ');
                    i = i + 1;
                    assert(out@ =~= blanks(i as int));
                }
                out
            },
            Some((low, high)) => {
                let mut i: usize = 0;
                assert(self.samples@.take(0) =~= Seq::<Option<Scalar>>::empty());
                assert(out@ =~= Seq::<char>::empty());
                while i < count
                    invariant
                        i <= count,
                        count == self.samples.len(),
                        out@ == columns(self.samples@.take(i as int), low, high),
                    decreases count - i,
                {
                    let ghost before = out@;
                    assert(self.samples@.take(i + 1).drop_last() =~= self.samples@.take(i as int));
                    assert(self.samples@.take(i + 1).last() == self.samples@[i as int]);
                    match self.samples[i] {
                        Some(value) => {
                            let height: usize = height_of(value, low, high);
                            out.append(to_color(height));
                            out.push(to_bar(height));
                        },
                        None => {
                            out.push(' ');
                        },
                    }
                    assert(out@ =~= before + column(self.samples@[i as int], low, high));
                    i = i + 1;
                }
                assert(self.samples@.take(i as int) =~= self.samples@);
                out.append("\x1b[0m");
                out
            },
        }
    }
}

/// A greater value has a bar that is at least as high, and every bar has one of eight heights.
pub proof fn higher_values_have_higher_bars(a: Scalar, b: Scalar, low: Scalar, high: Scalar)
    requires
        !a.not_a_number(),
        !b.not_a_number(),
        a.order() <= b.order(),
    ensures
        0 <= bar_height(a, low, high) <= bar_height(b, low, high) <= 7,
{
    let (l, h) = (low.units(), high.units());
    let range = h - l;
    lemma_narrowest();
    if range >= narrowest() {
        units_follow_the_order(a, b);
        let x = held(a, l, h) - l;
        let y = held(b, l, h) - l;
        let p = rounded_quotient(7 * x, range);
        let q = rounded_quotient(7 * y, range);
        assert(0 <= p <= q <= 7) by (nonlinear_arith)
            requires
                p == (2 * (7 * x) + range) / (2 * range),
                q == (2 * (7 * y) + range) / (2 * range),
                0 <= x <= y <= range,
                range > 0,
        ;
    }
}

/// The bounds of the bars are values of the row. With fewer than four values they are the least and
/// the greatest, with more they leave out no more than a twentieth at each end.
pub proof fn bounds_leave_out_a_twentieth(values: Seq<i64>, low: Scalar, high: Scalar) -> (ends: (
    int,
    int,
))
    requires
        values.len() > 0,
        are_bounds(values, low, high),
    ensures
        ({
            let sorted = ordered(values);
            let n = values.len() as int;
            &&& 0 <= ends.0 <= ends.1 < n
            &&& low.order() == sorted[ends.0]
            &&& high.order() == sorted[ends.1]
            &&& 20 * ends.0 <= n < 20 * (ends.0 + 1)
            &&& n < 20 ==> ends.1 == n - 1
            &&& n >= 20 ==> 20 * (n - ends.1) <= n < 20 * (n - ends.1 + 1)
        }),
{
    let n = values.len() as int;
    if n < 4 {
        (0, n - 1)
    } else {
        (n / 20, least((19 * n + 19) / 20, n - 1))
    }
}

/// Taller bars have taller characters, and the colours go from red over yellow to green.
pub proof fn bars_grow_with_their_height(height: int)
    ensures
        0 <= height <= 7 ==> bar_char(height) as int == 0x2581 + height,
        height < 2 ==> bar_color(height) == "\x1b[31m"@,
        2 <= height < 5 ==> bar_color(height) == "\x1b[33m"@,
        height >= 5 ==> bar_color(height) == "\x1b[32m"@,
{
}

/// A row has one column for each place: a coloured bar where there is a value, and a blank where
/// there is none. Only the values count for the bounds.
pub proof fn columns_follow_each_other(
    samples: Seq<Option<Scalar>>,
    value: Scalar,
    low: Scalar,
    high: Scalar,
)
    ensures
        ({
            let height = bar_height(value, low, high);
            &&& columns(samples.push(Some(value)), low, high) == columns(samples, low, high)
                + bar_color(height) + seq![bar_char(height)]
            &&& columns(samples.push(None), low, high) == columns(samples, low, high) + seq![' ']
            &&& present(samples.push(Some(value))) == present(samples).push(value.order() as i64)
            &&& present(samples.push(None)) == present(samples)
        }),
{
    let height = bar_height(value, low, high);
    assert(samples.push(Some(value)).drop_last() =~= samples);
    assert(samples.push(None::<Scalar>).drop_last() =~= samples);
    assert(columns(samples, low, high) + bar_color(height) + seq![bar_char(height)] =~= columns(
        samples,
        low,
        high,
    ) + bar_color(height).push(bar_char(height)));
}

/// A row without places is empty, and one without values is blank.
pub proof fn rows_without_values_are_blank(samples: Seq<Option<Scalar>>, text: Seq<char>)
    requires
        is_row(samples, text),
        present(samples).len() == 0,
    ensures
        text.len() == samples.len(),
        forall|i: int| 0 <= i < text.len() ==> #[trigger] text[i] == ' ',
{
}

} // verus!
