//! Ids, units and the checksum of a report.

use vstd::prelude::*;

use crate::clock::now_nanos;
use crate::model::BenchmarkResult;
use crate::num::whole::{round_div, rounded_quotient, rounding_goes_to_the_nearest};
use crate::text::{
    begins_with, decimal, digit_char, hex_char, hex_digits, number_value, to_decimal, to_hex_digits,
};

verus! {

/// The id of a report: 64 bits of a time and 64 bits of a count, in five groups. The last group
/// mixes the low 48 bits of both.
pub open spec fn guid_text(counter: u64, now_nanos: u64) -> Seq<char> {
    let mixed = ((counter as int % 0x1_0000_0000_0000) as u64) ^ ((now_nanos as int
        % 0x1_0000_0000_0000) as u64);
    hex_digits(now_nanos as int / 0x1_0000_0000, 8) + seq!['-'] + hex_digits(
        (now_nanos as int / 0x1_0000) % 0x1_0000,
        4,
    ) + seq!['-'] + hex_digits(now_nanos as int % 0x1_0000, 4) + seq!['-'] + hex_digits(
        counter as int / 0x1_0000_0000_0000,
        4,
    ) + seq!['-'] + hex_digits(mixed as int, 12)
}

/// The id of the `counter`-th report at the given time.
pub fn sdk_guid(counter: u64, now_nanos: u64) -> (r: String)
    ensures
        r@ == guid_text(counter, now_nanos),
{
    let low_count: u64 = counter % 0x1_0000_0000_0000;
    let low_time: u64 = now_nanos % 0x1_0000_0000_0000;
    let mut out = to_hex_digits(now_nanos / 0x1_0000_0000, 8);
    out.push('-');
    out.append(to_hex_digits((now_nanos / 0x1_0000) % 0x1_0000, 4).as_str());
    out.push('-');
    out.append(to_hex_digits(now_nanos % 0x1_0000, 4).as_str());
    out.push('-');
    out.append(to_hex_digits(counter / 0x1_0000_0000_0000, 4).as_str());
    out.push('-');
    out.append(to_hex_digits(low_count ^ low_time, 12).as_str());
    assert(out@ =~= guid_text(counter, now_nanos));
    out
}

/// The id of the `counter`-th report, at this time.
pub fn generate_sdk_guid(counter: u64) -> (r: String)
    ensures
        exists|now: u64| r@ == #[trigger] guid_text(counter, now),
{
    sdk_guid(counter, now_nanos())
}

proof fn lemma_hex_length(n: int, width: int)
    requires
        width >= 0,
    ensures
        hex_digits(n, width).len() == width,
    decreases width,
{
    if width > 0 {
        lemma_hex_length(n / 16, width - 1);
    }
}

/// An id has 36 characters, with dashes behind the eighth and then behind every fourth of the next
/// twelve digits.
pub proof fn guids_have_one_shape(counter: u64, now_nanos: u64)
    ensures
        guid_text(counter, now_nanos).len() == 36,
        guid_text(counter, now_nanos)[8] == '-',
        guid_text(counter, now_nanos)[13] == '-',
        guid_text(counter, now_nanos)[18] == '-',
        guid_text(counter, now_nanos)[23] == '-',
{
    let mixed = ((counter as int % 0x1_0000_0000_0000) as u64) ^ ((now_nanos as int
        % 0x1_0000_0000_0000) as u64);
    lemma_hex_length(now_nanos as int / 0x1_0000_0000, 8);
    lemma_hex_length((now_nanos as int / 0x1_0000) % 0x1_0000, 4);
    lemma_hex_length(now_nanos as int % 0x1_0000, 4);
    lemma_hex_length(counter as int / 0x1_0000_0000_0000, 4);
    lemma_hex_length(mixed as int, 12);
}

/// How many numbers have so many hexadecimal digits.
spec fn hex_range(width: int) -> int
    decreases width,
{
    if width <= 0 {
        1
    } else {
        16 * hex_range(width - 1)
    }
}

proof fn lemma_hex_differs(a: int, b: int, width: int)
    requires
        0 <= a < hex_range(width),
        0 <= b < hex_range(width),
        hex_digits(a, width) == hex_digits(b, width),
        width >= 0,
    ensures
        a == b,
    decreases width,
{
    if width > 0 {
        let (left, right) = (hex_digits(a, width), hex_digits(b, width));
        assert(left.last() == hex_char(a % 16) && right.last() == hex_char(b % 16));
        assert(left.drop_last() =~= hex_digits(a / 16, width - 1));
        assert(right.drop_last() =~= hex_digits(b / 16, width - 1));
        lemma_hex_differs(a / 16, b / 16, width - 1);
    }
}

proof fn lemma_hex_ranges()
    ensures
        hex_range(4) == 0x1_0000,
        hex_range(8) == 0x1_0000_0000,
        hex_range(12) == 0x1_0000_0000_0000,
{
    reveal_with_fuel(hex_range, 5);
    assert(hex_range(4) == 0x1_0000);
    assert(hex_range(8) == 0x1_0000 * hex_range(4));
    assert(hex_range(12) == 0x1_0000 * hex_range(8));
}

/// Ids of different reports differ: those of different counts, and those of different times.
pub proof fn ids_of_different_reports_differ(
    counter: u64,
    now_nanos: u64,
    other_counter: u64,
    other_nanos: u64,
)
    requires
        counter != other_counter || now_nanos != other_nanos,
    ensures
        guid_text(counter, now_nanos) != guid_text(other_counter, other_nanos),
{
    if guid_text(counter, now_nanos) == guid_text(other_counter, other_nanos) {
        lemma_groups(counter, now_nanos);
        lemma_groups(other_counter, other_nanos);
        lemma_same_time(now_nanos, other_nanos);
        lemma_same_count(counter, other_counter, now_nanos);
    }
}

proof fn lemma_same_time(a: u64, b: u64)
    requires
        hex_digits(a as int / 0x1_0000_0000, 8) == hex_digits(b as int / 0x1_0000_0000, 8),
        hex_digits((a as int / 0x1_0000) % 0x1_0000, 4) == hex_digits(
            (b as int / 0x1_0000) % 0x1_0000,
            4,
        ),
        hex_digits(a as int % 0x1_0000, 4) == hex_digits(b as int % 0x1_0000, 4),
    ensures
        a == b,
{
    let (t, u) = (a as int, b as int);
    lemma_hex_ranges();
    lemma_hex_differs(t / 0x1_0000_0000, u / 0x1_0000_0000, 8);
    lemma_hex_differs((t / 0x1_0000) % 0x1_0000, (u / 0x1_0000) % 0x1_0000, 4);
    lemma_hex_differs(t % 0x1_0000, u % 0x1_0000, 4);
    lemma_parts(t);
    lemma_parts(u);
}

/// A number is made of its parts.
proof fn lemma_parts(n: int)
    requires
        n >= 0,
    ensures
        n == 0x1_0000_0000 * (n / 0x1_0000_0000) + 0x1_0000 * ((n / 0x1_0000) % 0x1_0000) + n
            % 0x1_0000,
{
    let upper = n / 0x1_0000;
    vstd::arithmetic::div_mod::lemma_div_denominator(n, 0x1_0000, 0x1_0000);
    assert(n == 0x1_0000 * upper + n % 0x1_0000);
    assert(upper == 0x1_0000 * (upper / 0x1_0000) + upper % 0x1_0000);
}

proof fn lemma_same_count(a: u64, b: u64, time: u64)
    requires
        hex_digits(a as int / 0x1_0000_0000_0000, 4) == hex_digits(
            b as int / 0x1_0000_0000_0000,
            4,
        ),
        hex_digits(
            (((a as int % 0x1_0000_0000_0000) as u64) ^ ((time as int
                % 0x1_0000_0000_0000) as u64)) as int,
            12,
        ) == hex_digits(
            (((b as int % 0x1_0000_0000_0000) as u64) ^ ((time as int
                % 0x1_0000_0000_0000) as u64)) as int,
            12,
        ),
    ensures
        a == b,
{
    let low_a = (a as int % 0x1_0000_0000_0000) as u64;
    let low_b = (b as int % 0x1_0000_0000_0000) as u64;
    let low_time = (time as int % 0x1_0000_0000_0000) as u64;
    lemma_hex_ranges();
    lemma_hex_differs(a as int / 0x1_0000_0000_0000, b as int / 0x1_0000_0000_0000, 4);
    assert(low_a ^ low_time < 0x1_0000_0000_0000 && low_b ^ low_time < 0x1_0000_0000_0000)
        by (bit_vector)
        requires
            low_a < 0x1_0000_0000_0000,
            low_b < 0x1_0000_0000_0000,
            low_time < 0x1_0000_0000_0000,
    ;
    lemma_hex_differs((low_a ^ low_time) as int, (low_b ^ low_time) as int, 12);
    assert(low_a == low_b) by (bit_vector)
        requires
            low_a ^ low_time == low_b ^ low_time,
    ;
}

/// The groups of an id.
proof fn lemma_groups(counter: u64, now_nanos: u64)
    ensures
        ({
            let text = guid_text(counter, now_nanos);
            let mixed = ((counter as int % 0x1_0000_0000_0000) as u64) ^ ((now_nanos as int
                % 0x1_0000_0000_0000) as u64);
            &&& text.subrange(0, 8) == hex_digits(now_nanos as int / 0x1_0000_0000, 8)
            &&& text.subrange(9, 13) == hex_digits((now_nanos as int / 0x1_0000) % 0x1_0000, 4)
            &&& text.subrange(14, 18) == hex_digits(now_nanos as int % 0x1_0000, 4)
            &&& text.subrange(19, 23) == hex_digits(counter as int / 0x1_0000_0000_0000, 4)
            &&& text.subrange(24, 36) == hex_digits(mixed as int, 12)
        }),
{
    let text = guid_text(counter, now_nanos);
    let mixed = ((counter as int % 0x1_0000_0000_0000) as u64) ^ ((now_nanos as int
        % 0x1_0000_0000_0000) as u64);
    lemma_hex_length(now_nanos as int / 0x1_0000_0000, 8);
    lemma_hex_length((now_nanos as int / 0x1_0000) % 0x1_0000, 4);
    lemma_hex_length(now_nanos as int % 0x1_0000, 4);
    lemma_hex_length(counter as int / 0x1_0000_0000_0000, 4);
    lemma_hex_length(mixed as int, 12);
    assert(text.subrange(0, 8) =~= hex_digits(now_nanos as int / 0x1_0000_0000, 8));
    assert(text.subrange(9, 13) =~= hex_digits((now_nanos as int / 0x1_0000) % 0x1_0000, 4));
    assert(text.subrange(14, 18) =~= hex_digits(now_nanos as int % 0x1_0000, 4));
    assert(text.subrange(19, 23) =~= hex_digits(counter as int / 0x1_0000_0000_0000, 4));
    assert(text.subrange(24, 36) =~= hex_digits(mixed as int, 12));
}

/// The speed of a direction in bits per second, where it is a finite number and not negative.
pub fn mbps_to_bps(result: &BenchmarkResult) -> (r: Option<u64>)
    ensures
        r == if result.mbps.usable() {
            Some(result.bps)
        } else {
            None
        },
{
    if result.mbps.is_usable() {
        Some(result.bps)
    } else {
        None
    }
}

/// Bits per second in the unit of the report, which is 125 bits per second, to the nearest whole
/// number.
pub open spec fn sdk_units(bps: u64) -> int {
    rounded_quotient(bps as int, 125)
}

pub fn bps_to_sdk_units(bps: u64) -> (r: u64)
    ensures
        r == sdk_units(bps),
{
    let units: u128 = round_div(bps as u128, 125);
    assert(units <= bps) by (nonlinear_arith)
        requires
            units == (2 * bps + 125) / 250,
            0 <= bps,
    ;
    units as u64
}

/// The decimal places of a number below 1_000_000 as a fraction of it, without zeros at the end.
pub open spec fn decimals(rest: int, width: int) -> Seq<char>
    decreases width,
{
    if width <= 0 || rest == 0 {
        Seq::empty()
    } else {
        seq![crate::text::digit_char(rest / tens(width - 1))] + decimals(
            rest % tens(width - 1),
            width - 1,
        )
    }
}

pub open spec fn tens(n: int) -> int
    decreases n,
{
    if n <= 0 {
        1
    } else {
        10 * tens(n - 1)
    }
}

/// Nanoseconds as milliseconds, in decimal digits.
pub open spec fn millis_text(ns: int) -> Seq<char> {
    if ns % 1_000_000 == 0 {
        decimal(ns / 1_000_000)
    } else {
        decimal(ns / 1_000_000) + seq!['.'] + decimals(ns % 1_000_000, 6)
    }
}

fn push_decimals(out: &mut String, rest: u64, width: u64, unit: u64)
    requires
        width <= 6,
        unit == tens(width as int),
        rest < unit,
    ensures
        final(out)@ == old(out)@ + decimals(rest as int, width as int),
    decreases width,
{
    if width == 0 || rest == 0 {
        assert(out@ + Seq::<char>::empty() =~= out@);
        return ;
    }
    let smaller: u64 = unit / 10;
    proof {
        assert(tens(width as int) == 10 * tens(width - 1));
        assert(smaller == tens(width - 1));
        assert(rest / smaller <= 9) by (nonlinear_arith)
            requires
                rest < 10 * smaller,
                smaller > 0,
        ;
    }
    let digit: u64 = rest / smaller;
    let ghost before = out@;
    out.push((48u8 + digit as u8) as char);
    push_decimals(out, rest % smaller, width - 1, smaller);
    assert(out@ =~= before + decimals(rest as int, width as int));
}

pub fn format_millis(ns: u64) -> (r: String)
    ensures
        r@ == millis_text(ns as int),
{
    let mut out = to_decimal(ns / 1_000_000);
    let rest: u64 = ns % 1_000_000;
    if rest == 0 {
        return out;
    }
    out.push('.');
    assert(tens(6) == 1_000_000) by {
        reveal_with_fuel(tens, 7);
    }
    push_decimals(&mut out, rest, 6, 1_000_000);
    assert(out@ =~= millis_text(ns as int));
    out
}

/// What the checksum of a report is taken of. `ping` is the ping in milliseconds, as it is written.
pub open spec fn hash_text(ping: Seq<char>, upload: Option<u64>, download: Option<u64>) -> Seq<
    char,
> {
    ping + seq!['-'] + decimal(
        match upload {
            Some(n) => n as int,
            None => 0,
        },
    ) + seq!['-'] + decimal(
        match download {
            Some(n) => n as int,
            None => 0,
        },
    ) + "-817d699764d33f89c"@
}

pub fn hash_input(ping: &str, upload: Option<u64>, download: Option<u64>) -> (r: String)
    ensures
        r@ == hash_text(ping@, upload, download),
{
    let up: u64 = match upload {
        Some(n) => n,
        None => 0,
    };
    let down: u64 = match download {
        Some(n) => n,
        None => 0,
    };
    let mut out = ping.to_owned();
    out.push('-');
    out.append(to_decimal(up).as_str());
    out.push('-');
    out.append(to_decimal(down).as_str());
    out.append("-817d699764d33f89c");
    assert(out@ =~= hash_text(ping@, upload, download));
    out
}

/// What `md5::compute` makes of a text in UTF-8, in hexadecimal digits.
pub uninterp spec fn md5_text(text: Seq<char>) -> Seq<char>;

/// `md5::compute`, its digest written with `{:x}`: 16 bytes as two digits each. The contract names
/// the digest, which depends on the text alone, and gives its length.
#[verifier::external_body]
fn md5_hex(text: &str) -> (r: String)
    ensures
        r@ == md5_text(text@),
        r@.len() == 32,
{
    format!("{:x}", md5::compute(text))
}

/// The checksum of a report with a ping that is written so.
pub fn hash_with(ping: &str, upload: Option<u64>, download: Option<u64>) -> (r: String)
    ensures
        r@ == md5_text(hash_text(ping@, upload, download)),
        r@.len() == 32,
{
    md5_hex(hash_input(ping, upload, download).as_str())
}

/// The checksum of a report.
pub fn calculate_result_hash(ping_ns: u64, upload: Option<u64>, download: Option<u64>) -> (r:
    String)
    ensures
        r@ == md5_text(hash_text(millis_text(ping_ns as int), upload, download)),
        r@.len() == 32,
{
    hash_with(format_millis(ping_ns).as_str(), upload, download)
}

/// The reported unit is 125 bits per second, to the nearest.
pub proof fn units_are_of_125_bits(bps: u64)
    ensures
        2 * (125 * sdk_units(bps) - bps) <= 125,
        2 * (bps - 125 * sdk_units(bps)) <= 125,
        bps % 125 == 0 ==> 125 * sdk_units(bps) == bps,
{
    rounding_goes_to_the_nearest(bps as int, 125);
}

proof fn lemma_leading_digit(d: int, rest: Seq<char>)
    requires
        0 <= d <= 9,
    ensures
        number_value(seq![digit_char(d)] + rest) == d * tens(rest.len() as int) + number_value(
            rest,
        ),
    decreases rest.len(),
{
    let text = seq![digit_char(d)] + rest;
    if rest.len() == 0 {
        assert(text.drop_last() =~= Seq::empty());
        assert(number_value(text.drop_last()) == 0);
    } else {
        lemma_leading_digit(d, rest.drop_last());
        assert(text.drop_last() =~= seq![digit_char(d)] + rest.drop_last());
        let t = tens(rest.len() - 1);
        assert(d * (10 * t) == 10 * (d * t)) by (nonlinear_arith);
    }
}

proof fn lemma_tens(n: int)
    ensures
        tens(n) > 0,
    decreases n,
{
    if n > 0 {
        lemma_tens(n - 1);
    }
}

proof fn lemma_decimals(rest: int, width: int)
    requires
        0 <= width,
        0 <= rest < tens(width),
    ensures
        decimals(rest, width).len() <= width,
        number_value(decimals(rest, width)) * tens(width - decimals(rest, width).len()) == rest,
    decreases width,
{
    if width > 0 && rest > 0 {
        let t = tens(width - 1);
        lemma_tens(width - 1);
        let d = rest / t;
        let r = rest % t;
        assert(0 <= d <= 9 && 0 <= r < t && d * t + r == rest) by (nonlinear_arith)
            requires
                d == rest / t,
                r == rest % t,
                t > 0,
                0 <= rest < 10 * t,
        ;
        lemma_decimals(r, width - 1);
        let tail = decimals(r, width - 1);
        let n = tail.len() as int;
        lemma_leading_digit(d, tail);
        lemma_tens_sum(n, width - 1 - n);
        let (a, b, v) = (tens(n), tens(width - 1 - n), number_value(tail));
        assert((d * a + v) * b == d * (a * b) + v * b) by (nonlinear_arith);
    }
}

proof fn lemma_tens_sum(a: int, b: int)
    requires
        0 <= a,
        0 <= b,
    ensures
        tens(a) * tens(b) == tens(a + b),
    decreases a,
{
    if a > 0 {
        lemma_tens_sum(a - 1, b);
        let (x, y) = (tens(a - 1), tens(b));
        assert((10 * x) * y == 10 * (x * y)) by (nonlinear_arith);
    } else {
        assert(1 * tens(b) == tens(b));
    }
}

/// Nanoseconds are written as milliseconds, whole ones without a point. Behind the point stand at
/// most six digits, which are the rest to the nanosecond.
pub proof fn milliseconds_are_written_to_the_nanosecond(ns: int)
    requires
        0 <= ns,
    ensures
        ns % 1_000_000 == 0 ==> millis_text(ns) == decimal(ns / 1_000_000),
        ns % 1_000_000 != 0 ==> {
            let front = decimal(ns / 1_000_000) + seq!['.'];
            let rest = millis_text(ns).skip(front.len() as int);
            &&& begins_with(millis_text(ns), front)
            &&& rest.len() <= 6
            &&& number_value(rest) * tens(6 - rest.len()) == ns % 1_000_000
        },
        tens(6) == 1_000_000,
{
    reveal_with_fuel(tens, 7);
    if ns % 1_000_000 != 0 {
        let front = decimal(ns / 1_000_000) + seq!['.'];
        let rest = decimals(ns % 1_000_000, 6);
        lemma_decimals(ns % 1_000_000, 6);
        assert(millis_text(ns).take(front.len() as int) =~= front);
        assert(millis_text(ns).skip(front.len() as int) =~= rest);
    }
}

} // verus!
