//! Strings as sequences of characters: searching, cutting, and numbers in text.

use vstd::prelude::*;
use vstd::utf8::{encode_utf8, valid_utf8};

verus! {

/// `String::push` of std: puts the character at the end.
pub assume_specification[ String::push ](text: &mut String, c: char)
    ensures
        final(text)@ == old(text)@.push(c),
;

/// The characters of a text.
pub fn to_chars(text: &str) -> (r: Vec<char>)
    ensures
        r@ == text@,
{
    broadcast use vstd::string::group_string_axioms;

    let mut out: Vec<char> = Vec::new();
    for c in it: text.chars()
        invariant
            out@ == text@.take(it.index()),
            it.seq() == text@,
    {
        out.push(c);
        assert(out@ =~= text@.take(it.index() + 1));
    }
    assert(out@ =~= text@);
    out
}

/// The text made of the characters `from..to`.
pub fn from_chars(chars: &Vec<char>, from: usize, to: usize) -> (r: String)
    requires
        from <= to <= chars.len(),
    ensures
        r@ == chars@.subrange(from as int, to as int),
{
    let mut out = String::new();
    let mut i: usize = from;
    while i < to
        invariant
            from <= i <= to <= chars.len(),
            out@ == chars@.subrange(from as int, i as int),
        decreases to - i,
    {
        out.push(chars[i]);
        i = i + 1;
        assert(out@ =~= chars@.subrange(from as int, i as int));
    }
    out
}

pub fn same_text(a: &str, b: &str) -> (r: bool)
    ensures
        r == (a@ == b@),
{
    a.to_owned() == b.to_owned()
}

pub fn copy_opt(text: &Option<String>) -> (r: Option<String>)
    ensures
        r == *text,
{
    match text {
        Some(t) => Some(t.clone()),
        None => None,
    }
}

pub open spec fn str_view(text: Option<&str>) -> Option<Seq<char>> {
    match text {
        Some(t) => Some(t@),
        None => None,
    }
}

/// Characters of `text` that stand for the text `prefix` at its start.
pub open spec fn begins_with(text: Seq<char>, prefix: Seq<char>) -> bool {
    text.len() >= prefix.len() && text.take(prefix.len() as int) == prefix
}

pub fn starts_with(text: &Vec<char>, prefix: &str) -> (r: bool)
    ensures
        r == begins_with(text@, prefix@),
{
    let wanted = to_chars(prefix);
    matches_at(text, 0, &wanted)
}

/// Whether `part` stands in `text` from index `at` on.
pub open spec fn stands_at(text: Seq<char>, at: int, part: Seq<char>) -> bool {
    0 <= at && at + part.len() <= text.len() && text.subrange(at, at + part.len()) == part
}

pub(crate) fn matches_at(text: &Vec<char>, at: usize, part: &Vec<char>) -> (r: bool)
    requires
        at <= text.len(),
    ensures
        r == stands_at(text@, at as int, part@),
        at == 0 ==> r == begins_with(text@, part@),
{
    if text.len() - at < part.len() {
        return false;
    }
    let mut i: usize = 0;
    while i < part.len()
        invariant
            at + part.len() <= text.len(),
            i <= part.len(),
            forall|k: int| 0 <= k < i ==> text[at + k] == part[k],
        decreases part.len() - i,
    {
        if text[at + i] != part[i] {
            assert(text@.subrange(at as int, at + part.len())[i as int] != part@[i as int]);
            assert(text@.take(part.len() as int) =~= text@.subrange(0, part.len() as int));
            return false;
        }
        i = i + 1;
    }
    assert(text@.subrange(at as int, at + part.len()) =~= part@);
    assert(text@.take(part.len() as int) =~= text@.subrange(0, part.len() as int));
    true
}

/// Whether `part` stands anywhere in `text`.
pub open spec fn holds(text: Seq<char>, part: Seq<char>) -> bool {
    exists|at: int| stands_at(text, at, part)
}

pub fn contains(text: &str, part: &str) -> (r: bool)
    ensures
        r == holds(text@, part@),
{
    let chars = to_chars(text);
    let wanted = to_chars(part);
    let mut at: usize = 0;
    while at < chars.len()
        invariant
            at <= chars.len(),
            chars@ == text@,
            wanted@ == part@,
            forall|k: int| 0 <= k < at ==> !stands_at(text@, k, part@),
        decreases chars.len() - at,
    {
        if matches_at(&chars, at, &wanted) {
            return true;
        }
        at = at + 1;
    }
    matches_at(&chars, at, &wanted)
}

/// The first index of `c` at or after `from`.
pub open spec fn first_index(text: Seq<char>, c: char, from: int) -> Option<int>
    decreases text.len() - from,
{
    if from < 0 || from >= text.len() {
        None
    } else if text[from] == c {
        Some(from)
    } else {
        first_index(text, c, from + 1)
    }
}

/// The last index of `c` before `to`.
pub open spec fn last_index(text: Seq<char>, c: char, to: int) -> Option<int>
    decreases to,
{
    if to <= 0 || to > text.len() {
        None
    } else if text[to - 1] == c {
        Some(to - 1)
    } else {
        last_index(text, c, to - 1)
    }
}

pub open spec fn as_index(found: Option<usize>) -> Option<int> {
    match found {
        Some(i) => Some(i as int),
        None => None,
    }
}

pub fn find_char(text: &Vec<char>, c: char, from: usize) -> (r: Option<usize>)
    ensures
        as_index(r) == first_index(text@, c, from as int),
        r matches Some(i) ==> from <= i < text.len() && text[i as int] == c,
{
    let mut i: usize = from;
    while i < text.len()
        invariant
            from <= i,
            first_index(text@, c, from as int) == first_index(text@, c, i as int),
        decreases text.len() - i,
    {
        if text[i] == c {
            return Some(i);
        }
        i = i + 1;
    }
    None
}

pub fn find_last_char(text: &Vec<char>, c: char) -> (r: Option<usize>)
    ensures
        as_index(r) == last_index(text@, c, text.len() as int),
        r matches Some(i) ==> i < text.len() && text[i as int] == c,
{
    let mut i: usize = text.len();
    while i > 0
        invariant
            i <= text.len(),
            last_index(text@, c, text.len() as int) == last_index(text@, c, i as int),
        decreases i,
    {
        if text[i - 1] == c {
            return Some(i - 1);
        }
        i = i - 1;
    }
    None
}

/// The pieces of `text` between occurrences of `sep`; always at least one.
pub open spec fn pieces(text: Seq<char>, sep: char) -> Seq<Seq<char>>
    decreases text.len(),
    via pieces_decreases
{
    match first_index(text, sep, 0) {
        Some(i) => seq![text.take(i)] + pieces(text.skip(i + 1), sep),
        None => seq![text],
    }
}

proof fn lemma_first_index_bounds(text: Seq<char>, c: char, from: int)
    ensures
        first_index(text, c, from) matches Some(i) ==> from <= i < text.len() && text[i] == c,
    decreases text.len() - from,
{
    if 0 <= from < text.len() && text[from] != c {
        lemma_first_index_bounds(text, c, from + 1);
    }
}

#[via_fn]
proof fn pieces_decreases(text: Seq<char>, sep: char) {
    lemma_first_index_bounds(text, sep, 0);
}

pub open spec fn views(texts: Seq<String>) -> Seq<Seq<char>> {
    texts.map_values(|t: String| t@)
}

proof fn lemma_first_index_skip(text: Seq<char>, c: char, base: int, from: int)
    requires
        0 <= base <= text.len(),
        0 <= from,
    ensures
        first_index(text, c, base + from) == match first_index(text.skip(base), c, from) {
            Some(i) => Some(base + i),
            None => None::<int>,
        },
    decreases text.len() - base - from,
{
    if from < text.len() - base {
        lemma_first_index_skip(text, c, base, from + 1);
    }
}

pub fn split(text: &str, sep: char) -> (r: Vec<String>)
    ensures
        views(r@) == pieces(text@, sep),
        r.len() > 0,
{
    let chars = to_chars(text);
    let mut out: Vec<String> = Vec::new();
    let mut from: usize = 0;
    assert(chars@.skip(0) =~= chars@);
    assert(views(out@) =~= Seq::<Seq<char>>::empty());
    assert(Seq::<Seq<char>>::empty() + pieces(chars@, sep) =~= pieces(chars@, sep));
    loop
        invariant_except_break
            from <= chars.len(),
            chars@ == text@,
            pieces(chars@, sep) == views(out@) + pieces(chars@.skip(from as int), sep),
        ensures
            views(out@) == pieces(chars@, sep),
            out.len() > 0,
        decreases chars.len() - from,
    {
        let ghost rest = chars@.skip(from as int);
        let ghost before = views(out@);
        proof {
            lemma_first_index_skip(chars@, sep, from as int, 0);
        }
        match find_char(&chars, sep, from) {
            Some(i) => {
                let piece = from_chars(&chars, from, i);
                proof {
                    assert(rest.take(i - from) =~= piece@);
                    assert(rest.skip(i - from + 1) =~= chars@.skip(i + 1));
                }
                out.push(piece);
                proof {
                    assert(views(out@) =~= before.push(piece@));
                    assert(views(out@) + pieces(chars@.skip(i + 1), sep) =~= before + (seq![piece@]
                        + pieces(chars@.skip(i + 1), sep)));
                }
                from = i + 1;
            },
            None => {
                let piece = from_chars(&chars, from, chars.len());
                out.push(piece);
                proof {
                    assert(piece@ =~= rest);
                    assert(views(out@) =~= before.push(rest));
                    assert(before + seq![rest] =~= before.push(rest));
                }
                break;
            },
        }
    }
    out
}

/// The characters that Unicode calls white space.
pub open spec fn is_space(c: char) -> bool {
    let n = c as int;
    9 <= n <= 13 || n == 0x20 || n == 0x85 || n == 0xa0 || n == 0x1680 || 0x2000 <= n <= 0x200a || n
        == 0x2028 || n == 0x2029 || n == 0x202f || n == 0x205f || n == 0x3000
}

fn space(c: char) -> (r: bool)
    ensures
        r == is_space(c),
{
    let n: u32 = c as u32;
    (9 <= n && n <= 13) || n == 0x20 || n == 0x85 || n == 0xa0 || n == 0x1680 || (0x2000 <= n && n
        <= 0x200a) || n == 0x2028 || n == 0x2029 || n == 0x202f || n == 0x205f || n == 0x3000
}

pub open spec fn trim_start(text: Seq<char>) -> Seq<char>
    decreases text.len(),
{
    if text.len() > 0 && is_space(text[0]) {
        trim_start(text.drop_first())
    } else {
        text
    }
}

pub open spec fn trim_end(text: Seq<char>) -> Seq<char>
    decreases text.len(),
{
    if text.len() > 0 && is_space(text.last()) {
        trim_end(text.drop_last())
    } else {
        text
    }
}

/// The text without white space at its ends.
pub open spec fn trimmed(text: Seq<char>) -> Seq<char> {
    trim_end(trim_start(text))
}

pub fn trim(text: &str) -> (r: String)
    ensures
        r@ == trimmed(text@),
{
    let chars = to_chars(text);
    let mut from: usize = 0;
    assert(chars@.skip(0) =~= chars@);
    while from < chars.len() && space(chars[from])
        invariant
            from <= chars.len(),
            trim_start(chars@) == trim_start(chars@.skip(from as int)),
        decreases chars.len() - from,
    {
        assert(chars@.skip(from as int).drop_first() =~= chars@.skip(from + 1));
        from = from + 1;
    }
    let ghost start = chars@.skip(from as int);
    assert(trim_start(start) == start);
    let mut to: usize = chars.len();
    assert(chars@.subrange(from as int, to as int) =~= start);
    while to > from && space(chars[to - 1])
        invariant
            from <= to <= chars.len(),
            trim_end(start) == trim_end(chars@.subrange(from as int, to as int)),
        decreases to,
    {
        assert(chars@.subrange(from as int, to as int).drop_last() =~= chars@.subrange(
            from as int,
            to - 1,
        ));
        to = to - 1;
    }
    from_chars(&chars, from, to)
}

/// A capital letter of ASCII made small.
pub open spec fn lower(c: char) -> char {
    if 'A' <= c <= 'Z' {
        ((c as int) + 32) as char
    } else {
        c
    }
}

/// A text with its capital letters of ASCII made small.
pub open spec fn lowered(text: Seq<char>) -> Seq<char> {
    text.map_values(|c: char| lower(c))
}

pub fn to_lower(text: &str) -> (r: String)
    ensures
        r@ == lowered(text@),
{
    let chars = to_chars(text);
    let mut out = String::new();
    let mut i: usize = 0;
    while i < chars.len()
        invariant
            i <= chars.len(),
            chars@ == text@,
            out@ == lowered(text@).take(i as int),
        decreases chars.len() - i,
    {
        out.push(lower_char(chars[i]));
        i = i + 1;
        assert(out@ =~= lowered(text@).take(i as int));
    }
    assert(out@ =~= lowered(text@));
    out
}

/// Whether two texts are the same but for the case of ASCII letters.
pub open spec fn same_but_case(a: Seq<char>, b: Seq<char>) -> bool {
    lowered(a) == lowered(b)
}

fn lower_char(c: char) -> (r: char)
    ensures
        r == lower(c),
{
    if 'A' <= c && c <= 'Z' {
        ((c as u32) as u8 + 32) as char
    } else {
        c
    }
}

pub fn eq_ignore_case(a: &str, b: &str) -> (r: bool)
    ensures
        r == same_but_case(a@, b@),
{
    let x = to_chars(a);
    let y = to_chars(b);
    let ghost la = lowered(a@);
    let ghost lb = lowered(b@);
    if x.len() != y.len() {
        assert(la.len() != lb.len());
        return false;
    }
    let mut i: usize = 0;
    while i < x.len()
        invariant
            x.len() == y.len(),
            x@ == a@,
            y@ == b@,
            i <= x.len(),
            la == lowered(a@),
            lb == lowered(b@),
            forall|k: int| 0 <= k < i ==> lower(x[k]) == lower(y[k]),
        decreases x.len() - i,
    {
        if lower_char(x[i]) != lower_char(y[i]) {
            assert(la[i as int] != lb[i as int]);
            return false;
        }
        i = i + 1;
    }
    assert(la =~= lb);
    true
}

pub open spec fn is_digit(c: char) -> bool {
    '0' <= c <= '9'
}

pub open spec fn digit_value(c: char) -> int {
    c as int - '0' as int
}

pub open spec fn all_digits(text: Seq<char>) -> bool {
    forall|i: int| 0 <= i < text.len() ==> is_digit(#[trigger] text[i])
}

/// The number that decimal digits stand for.
pub open spec fn number_value(digits: Seq<char>) -> int
    decreases digits.len(),
{
    if digits.len() == 0 {
        0
    } else {
        number_value(digits.drop_last()) * 10 + digit_value(digits.last())
    }
}

/// The number that a text stands for: decimal digits, a plus sign before them or not, and no
/// more than `max`.
pub open spec fn parsed_number(text: Seq<char>, max: int) -> Option<int> {
    let digits = if text.len() > 0 && text[0] == '+' {
        text.drop_first()
    } else {
        text
    };
    if digits.len() > 0 && all_digits(digits) && number_value(digits) <= max {
        Some(number_value(digits))
    } else {
        None
    }
}

proof fn lemma_number_grows(digits: Seq<char>, upto: int)
    requires
        all_digits(digits),
        0 <= upto <= digits.len(),
    ensures
        0 <= number_value(digits.take(upto)) <= number_value(digits),
    decreases digits.len(),
{
    if upto == digits.len() {
        assert(digits.take(upto) =~= digits);
        if digits.len() > 0 {
            lemma_number_grows(digits.drop_last(), digits.len() - 1);
            assert(digits.drop_last().take(digits.len() - 1) =~= digits.drop_last());
        }
    } else {
        lemma_number_grows(digits.drop_last(), upto);
        assert(digits.drop_last().take(upto) =~= digits.take(upto));
    }
}

fn digits_value(chars: &Vec<char>, from: usize, max: u64) -> (r: Option<u64>)
    requires
        from <= chars.len(),
    ensures
        ({
            let digits = chars@.skip(from as int);
            match r {
                Some(n) => digits.len() > 0 && all_digits(digits) && n == number_value(digits) && n
                    <= max,
                None => digits.len() == 0 || !all_digits(digits) || number_value(digits) > max,
            }
        }),
{
    let ghost digits = chars@.skip(from as int);
    if from == chars.len() {
        return None;
    }
    let mut value: u64 = 0;
    let mut too_large: bool = false;
    let mut i: usize = from;
    assert(digits.take(0) =~= Seq::<char>::empty());
    while i < chars.len()
        invariant
            from <= i <= chars.len(),
            digits == chars@.skip(from as int),
            all_digits(digits.take(i - from)),
            !too_large ==> value == number_value(digits.take(i - from)) && value <= max,
            too_large ==> number_value(digits.take(i - from)) > max,
        decreases chars.len() - i,
    {
        let c = chars[i];
        assert(digits[i - from] == c);
        if c < '0' || c > '9' {
            assert(!is_digit(digits[i - from]));
            return None;
        }
        let digit: u64 = (c as u32 - 48) as u64;
        let ghost next = digits.take(i + 1 - from);
        proof {
            assert(next.drop_last() =~= digits.take(i - from));
            assert(next.last() == c);
            assert forall|k: int| 0 <= k < next.len() implies is_digit(#[trigger] next[k]) by {
                if k < i - from {
                    assert(digits.take(i - from)[k] == next[k]);
                }
            }
            lemma_number_grows(next, i - from);
            assert(next.take(i - from) =~= digits.take(i - from));
        }
        if !too_large {
            let wide: u128 = value as u128 * 10 + digit as u128;
            if wide > max as u128 {
                too_large = true;
            } else {
                value = wide as u64;
            }
        }
        i = i + 1;
    }
    assert(digits.take(i - from) =~= digits);
    if too_large {
        None
    } else {
        Some(value)
    }
}

pub open spec fn as_number(found: Option<u64>) -> Option<int> {
    match found {
        Some(n) => Some(n as int),
        None => None,
    }
}

/// Reads a decimal number that is at most `max`.
pub fn parse_number(text: &str, max: u64) -> (r: Option<u64>)
    ensures
        as_number(r) == parsed_number(text@, max as int),
        r matches Some(n) ==> n <= max,
{
    let chars = to_chars(text);
    let from: usize = if chars.len() > 0 && chars[0] == '+' {
        1
    } else {
        0
    };
    assert(chars@.skip(0) =~= chars@);
    assert(chars.len() > 0 ==> chars@.skip(1) =~= chars@.drop_first());
    digits_value(&chars, from, max)
}

/// The number that a text with an optional sign stands for, if it fits an `i64`.
pub open spec fn parsed_signed(text: Seq<char>) -> Option<int> {
    if text.len() > 0 && text[0] == '-' {
        let digits = text.drop_first();
        if digits.len() > 0 && all_digits(digits) && number_value(digits) <= i64::MAX + 1 {
            Some(-number_value(digits))
        } else {
            None
        }
    } else {
        parsed_number(text, i64::MAX as int)
    }
}

pub fn parse_signed(text: &str) -> (r: Option<i64>)
    ensures
        match r {
            Some(n) => parsed_signed(text@) == Some(n as int),
            None => parsed_signed(text@) is None,
        },
{
    let chars = to_chars(text);
    if chars.len() > 0 && chars[0] == '-' {
        assert(chars@.skip(1) =~= chars@.drop_first());
        match digits_value(&chars, 1, 0x8000_0000_0000_0000) {
            Some(n) => if n == 0x8000_0000_0000_0000 {
                Some(i64::MIN)
            } else {
                Some(-(n as i64))
            },
            None => None,
        }
    } else {
        match parse_number(text, 0x7fff_ffff_ffff_ffff) {
            Some(n) => Some(n as i64),
            None => None,
        }
    }
}

pub open spec fn digit_char(d: int) -> char {
    (d + '0' as int) as char
}

/// A number in decimal digits.
pub open spec fn decimal(n: int) -> Seq<char>
    decreases n,
{
    if n < 10 {
        seq![digit_char(n)]
    } else {
        decimal(n / 10).push(digit_char(n % 10))
    }
}

pub fn to_decimal(n: u64) -> (r: String)
    ensures
        r@ == decimal(n as int),
    decreases n,
{
    let mut out = if n < 10 {
        String::new()
    } else {
        to_decimal(n / 10)
    };
    out.push((48u8 + (n % 10) as u8) as char);
    assert(n < 10 ==> out@ =~= seq![digit_char(n as int)]);
    out
}

/// Reading a number back from its decimal digits gives that number.
pub proof fn decimal_reads_back(n: int)
    requires
        0 <= n,
    ensures
        all_digits(decimal(n)),
        number_value(decimal(n)) == n,
        decimal(n).len() > 0,
        parsed_number(decimal(n), n) == Some(n),
    decreases n,
{
    if n >= 10 {
        decimal_reads_back(n / 10);
        assert(decimal(n).drop_last() =~= decimal(n / 10));
        let text = decimal(n);
        assert forall|i: int| 0 <= i < text.len() implies is_digit(#[trigger] text[i]) by {
            if i < text.len() - 1 {
                assert(decimal(n / 10)[i] == text[i]);
            }
        }
    } else {
        assert(number_value(decimal(n).drop_last()) == 0);
    }
    assert(is_digit(decimal(n)[0]));
}

pub open spec fn hex_char(d: int) -> char {
    if d < 10 {
        (d + '0' as int) as char
    } else {
        (d - 10 + 'a' as int) as char
    }
}

/// The low `width` hexadecimal digits of a number.
pub open spec fn hex_digits(n: int, width: int) -> Seq<char>
    decreases width,
{
    if width <= 0 {
        Seq::empty()
    } else {
        hex_digits(n / 16, width - 1).push(hex_char(n % 16))
    }
}

/// A number in hexadecimal digits, without leading zeros.
pub open spec fn hexadecimal(n: int) -> Seq<char>
    decreases n,
{
    if n < 16 {
        seq![hex_char(n)]
    } else {
        hexadecimal(n / 16).push(hex_char(n % 16))
    }
}

fn hex_digit(d: u8) -> (r: char)
    requires
        d < 16,
    ensures
        r == hex_char(d as int),
{
    if d < 10 {
        (48u8 + d) as char
    } else {
        (87u8 + d) as char
    }
}

pub fn to_hex_digits(n: u64, width: u64) -> (r: String)
    ensures
        r@ == hex_digits(n as int, width as int),
    decreases width,
{
    if width == 0 {
        let out = String::new();
        assert(out@ =~= hex_digits(n as int, 0));
        return out;
    }
    let mut out = to_hex_digits(n / 16, width - 1);
    out.push(hex_digit((n % 16) as u8));
    out
}

pub fn to_hexadecimal(n: u128) -> (r: String)
    ensures
        r@ == hexadecimal(n as int),
    decreases n,
{
    let mut out = if n < 16 {
        String::new()
    } else {
        to_hexadecimal(n / 16)
    };
    out.push(hex_digit((n % 16) as u8));
    assert(n < 16 ==> out@ =~= seq![hex_char(n as int)]);
    out
}

/// Whether a text stands before another in the order of their characters.
pub open spec fn text_before(a: Seq<char>, b: Seq<char>) -> bool
    decreases a.len(),
{
    if b.len() == 0 {
        false
    } else if a.len() == 0 {
        true
    } else if a[0] != b[0] {
        a[0] < b[0]
    } else {
        text_before(a.drop_first(), b.drop_first())
    }
}

pub proof fn lemma_before_is_strict(a: Seq<char>, b: Seq<char>)
    ensures
        text_before(a, b) ==> !text_before(b, a) && a != b,
        !text_before(a, a),
    decreases a.len(),
{
    if a.len() > 0 {
        lemma_before_is_strict(a.drop_first(), a.drop_first());
        if b.len() > 0 && a[0] == b[0] {
            lemma_before_is_strict(a.drop_first(), b.drop_first());
        }
    }
}

pub proof fn lemma_before_is_transitive(a: Seq<char>, b: Seq<char>, c: Seq<char>)
    requires
        text_before(a, b),
        text_before(b, c),
    ensures
        text_before(a, c),
    decreases a.len(),
{
    if a.len() > 0 && a[0] == b[0] && b[0] == c[0] {
        lemma_before_is_transitive(a.drop_first(), b.drop_first(), c.drop_first());
    }
}

pub proof fn lemma_before_is_total(a: Seq<char>, b: Seq<char>)
    ensures
        text_before(a, b) || text_before(b, a) || a == b,
    decreases a.len(),
{
    if a.len() > 0 && b.len() > 0 {
        if a[0] == b[0] {
            lemma_before_is_total(a.drop_first(), b.drop_first());
            if a.drop_first() == b.drop_first() {
                assert(a =~= seq![a[0]] + a.drop_first());
                assert(b =~= seq![b[0]] + b.drop_first());
            }
        }
    } else if a.len() == 0 && b.len() == 0 {
        assert(a =~= b);
    }
}

/// Whether a text stands before another.
pub fn text_below(a: &str, b: &str) -> (r: bool)
    ensures
        r == text_before(a@, b@),
{
    let x = to_chars(a);
    let y = to_chars(b);
    let mut i: usize = 0;
    assert(x@.skip(0) =~= x@ && y@.skip(0) =~= y@);
    while i < x.len() && i < y.len()
        invariant
            x@ == a@,
            y@ == b@,
            i <= x.len(),
            i <= y.len(),
            text_before(a@, b@) == text_before(x@.skip(i as int), y@.skip(i as int)),
        decreases x.len() - i,
    {
        if x[i] != y[i] {
            return x[i] < y[i];
        }
        assert(x@.skip(i as int).drop_first() =~= x@.skip(i + 1));
        assert(y@.skip(i as int).drop_first() =~= y@.skip(i + 1));
        i = i + 1;
    }
    i < y.len()
}

/// The texts with `sep` between them.
pub open spec fn joined(parts: Seq<Seq<char>>, sep: Seq<char>) -> Seq<char>
    decreases parts.len(),
{
    if parts.len() == 0 {
        Seq::empty()
    } else if parts.len() == 1 {
        parts[0]
    } else {
        joined(parts.drop_last(), sep) + sep + parts.last()
    }
}

/// The first `upto` texts with `sep` between them.
pub fn join(parts: &Vec<String>, upto: usize, sep: &str) -> (r: String)
    requires
        upto <= parts.len(),
    ensures
        r@ == joined(views(parts@).take(upto as int), sep@),
{
    let ghost all = views(parts@);
    let mut out = String::new();
    let mut i: usize = 0;
    assert(all.take(0) =~= Seq::<Seq<char>>::empty());
    while i < upto
        invariant
            i <= upto <= parts.len(),
            all == views(parts@),
            out@ == joined(all.take(i as int), sep@),
        decreases upto - i,
    {
        let ghost before = out@;
        if i > 0 {
            out.append(sep);
        }
        out.append(parts[i].as_str());
        proof {
            let next = all.take(i + 1);
            assert(next.drop_last() =~= all.take(i as int));
            assert(next.last() == parts@[i as int]@);
            if i == 0 {
                assert(out@ =~= next[0]);
            } else {
                assert(out@ =~= before + sep@ + next.last());
            }
        }
        i = i + 1;
    }
    out
}

/// The texts without those that stood before.
pub open spec fn deduped(list: Seq<Seq<char>>) -> Seq<Seq<char>>
    decreases list.len(),
{
    if list.len() == 0 {
        Seq::empty()
    } else {
        let before = deduped(list.drop_last());
        if before.contains(list.last()) {
            before
        } else {
            before.push(list.last())
        }
    }
}

/// Whether `text` is in the list.
pub fn list_contains(list: &Vec<String>, text: &str) -> (r: bool)
    ensures
        r == views(list@).contains(text@),
{
    let mut i: usize = 0;
    while i < list.len()
        invariant
            i <= list.len(),
            forall|k: int| 0 <= k < i ==> views(list@)[k] != text@,
        decreases list.len() - i,
    {
        assert(views(list@)[i as int] == list@[i as int]@);
        if same_text(list[i].as_str(), text) {
            return true;
        }
        i = i + 1;
    }
    false
}

pub fn dedup(list: &Vec<String>) -> (r: Vec<String>)
    ensures
        views(r@) == deduped(views(list@)),
{
    let ghost all = views(list@);
    let mut out: Vec<String> = Vec::new();
    let mut i: usize = 0;
    assert(all.take(0) =~= Seq::<Seq<char>>::empty());
    assert(views(out@) =~= Seq::<Seq<char>>::empty());
    while i < list.len()
        invariant
            i <= list.len(),
            all == views(list@),
            views(out@) == deduped(all.take(i as int)),
        decreases list.len() - i,
    {
        let ghost before = views(out@);
        proof {
            assert(all.take(i + 1).drop_last() =~= all.take(i as int));
            assert(all.take(i + 1).last() == list@[i as int]@);
        }
        if !list_contains(&out, list[i].as_str()) {
            out.push(list[i].clone());
            assert(views(out@) =~= before.push(list@[i as int]@));
        }
        i = i + 1;
    }
    assert(all.take(i as int) =~= all);
    out
}

/// A list without repetitions holds the texts of the first list, each once, and keeps the first.
pub proof fn deduped_keeps_each_once(list: Seq<Seq<char>>)
    ensures
        deduped(list).no_duplicates(),
        forall|t: Seq<char>| deduped(list).contains(t) <==> list.contains(t),
        list.len() > 0 ==> deduped(list).len() > 0 && deduped(list)[0] == list[0],
        deduped(list).len() <= list.len(),
    decreases list.len(),
{
    if list.len() > 0 {
        let front = list.drop_last();
        deduped_keeps_each_once(front);
        let before = deduped(front);
        let now = deduped(list);
        assert forall|t: Seq<char>| now.contains(t) <==> list.contains(t) by {
            if list.contains(t) {
                let i = choose|i: int| 0 <= i < list.len() && list[i] == t;
                if i < front.len() {
                    assert(front[i] == t);
                    assert(front.contains(t));
                    assert(before.contains(t));
                    let k = choose|k: int| 0 <= k < before.len() && before[k] == t;
                    assert(now[k] == t);
                } else if !before.contains(t) {
                    assert(now[before.len() as int] == t);
                }
            }
            if now.contains(t) {
                let k = choose|k: int| 0 <= k < now.len() && now[k] == t;
                if k < before.len() {
                    assert(before[k] == t);
                    assert(front.contains(t));
                    let i = choose|i: int| 0 <= i < front.len() && front[i] == t;
                    assert(list[i] == t);
                } else {
                    assert(list[list.len() - 1] == t);
                }
            }
        }
    }
}

/// The texts that are not empty.
pub open spec fn nonempty(list: Seq<Seq<char>>) -> Seq<Seq<char>>
    decreases list.len(),
{
    if list.len() == 0 {
        Seq::empty()
    } else if list.last().len() > 0 {
        nonempty(list.drop_last()).push(list.last())
    } else {
        nonempty(list.drop_last())
    }
}

pub fn drop_empty(list: &Vec<String>) -> (r: Vec<String>)
    ensures
        views(r@) == nonempty(views(list@)),
{
    let ghost all = views(list@);
    let mut out: Vec<String> = Vec::new();
    let mut i: usize = 0;
    assert(all.take(0) =~= Seq::<Seq<char>>::empty());
    assert(views(out@) =~= Seq::<Seq<char>>::empty());
    while i < list.len()
        invariant
            i <= list.len(),
            all == views(list@),
            views(out@) == nonempty(all.take(i as int)),
        decreases list.len() - i,
    {
        let ghost before = views(out@);
        proof {
            assert(all.take(i + 1).drop_last() =~= all.take(i as int));
            assert(all.take(i + 1).last() == list@[i as int]@);
        }
        if !list[i].as_str().is_empty() {
            out.push(list[i].clone());
            assert(views(out@) =~= before.push(list@[i as int]@));
        }
        i = i + 1;
    }
    assert(all.take(i as int) =~= all);
    out
}

/// The index of the first character from `from` on that is white space, or that is not; the
/// length of the text where there is none.
pub open spec fn next_edge(text: Seq<char>, from: int, at_space: bool) -> int
    decreases text.len() - from,
{
    if from < 0 || from >= text.len() {
        text.len() as int
    } else if is_space(text[from]) == at_space {
        from
    } else {
        next_edge(text, from + 1, at_space)
    }
}

fn find_edge(text: &Vec<char>, from: usize, at_space: bool) -> (r: usize)
    requires
        from <= text.len(),
    ensures
        r == next_edge(text@, from as int, at_space),
        from <= r <= text.len(),
        r < text.len() ==> is_space(text[r as int]) == at_space,
        r > from ==> is_space(text[from as int]) != at_space,
{
    let mut i: usize = from;
    while i < text.len() && space(text[i]) != at_space
        invariant
            from <= i <= text.len(),
            next_edge(text@, from as int, at_space) == next_edge(text@, i as int, at_space),
            i > from ==> is_space(text[from as int]) != at_space,
        decreases text.len() - i,
    {
        i = i + 1;
    }
    i
}

/// The first two words of a text, where words are separated by white space.
pub open spec fn leading_words(text: Seq<char>) -> (Option<Seq<char>>, Option<Seq<char>>) {
    let from = next_edge(text, 0, false);
    let to = next_edge(text, from, true);
    let next = next_edge(text, to, false);
    let end = next_edge(text, next, true);
    (
        if from < text.len() {
            Some(text.subrange(from, to))
        } else {
            None
        },
        if next < text.len() {
            Some(text.subrange(next, end))
        } else {
            None
        },
    )
}

pub fn two_words(text: &str) -> (r: (Option<String>, Option<String>))
    ensures
        match (r.0, leading_words(text@).0) {
            (Some(word), Some(seen)) => word@ == seen,
            (None, None) => true,
            _ => false,
        },
        match (r.1, leading_words(text@).1) {
            (Some(word), Some(seen)) => word@ == seen,
            (None, None) => true,
            _ => false,
        },
{
    let chars = to_chars(text);
    let from: usize = find_edge(&chars, 0, false);
    let to: usize = find_edge(&chars, from, true);
    let next: usize = find_edge(&chars, to, false);
    let end: usize = find_edge(&chars, next, true);
    let first = if from < chars.len() {
        Some(from_chars(&chars, from, to))
    } else {
        None
    };
    let second = if next < chars.len() {
        Some(from_chars(&chars, next, end))
    } else {
        None
    };
    (first, second)
}

/// A text without the line ends behind it.
pub open spec fn without_line_end(text: Seq<char>) -> Seq<char>
    decreases text.len(),
{
    if text.len() > 0 && (text.last() == '\r' || text.last() == '\n') {
        without_line_end(text.drop_last())
    } else {
        text
    }
}

pub fn trim_line_end(text: &str) -> (r: String)
    ensures
        r@ == without_line_end(text@),
{
    let chars = to_chars(text);
    let mut to: usize = chars.len();
    assert(chars@.take(to as int) =~= chars@);
    while to > 0 && (chars[to - 1] == '\r' || chars[to - 1] == '\n')
        invariant
            to <= chars.len(),
            without_line_end(chars@) == without_line_end(chars@.take(to as int)),
        decreases to,
    {
        assert(chars@.take(to as int).drop_last() =~= chars@.take(to - 1));
        to = to - 1;
    }
    let out = from_chars(&chars, 0, to);
    assert(out@ =~= chars@.take(to as int));
    out
}

/// `String::from_utf8` of std: the text whose UTF-8 encoding the bytes are, where they are one.
#[verifier::external_body]
pub(crate) fn utf8_text(bytes: Vec<u8>) -> (r: Option<String>)
    ensures
        match r {
            Some(text) => encode_utf8(text@) == bytes@,
            None => !valid_utf8(bytes@),
        },
{
    String::from_utf8(bytes).ok()
}

/// What `String::from_utf8_lossy` makes of bytes.
pub uninterp spec fn lossy_text(bytes: Seq<u8>) -> Seq<char>;

/// `String::from_utf8_lossy` of std: the text that the bytes encode, with replacement characters
/// where they are not UTF-8. The contract names the text, which depends on the bytes alone, and
/// says what it is for valid UTF-8.
#[verifier::external_body]
pub(crate) fn read_lossy(bytes: &Vec<u8>) -> (r: String)
    ensures
        r@ == lossy_text(bytes@),
        valid_utf8(bytes@) ==> encode_utf8(r@) == bytes@,
{
    String::from_utf8_lossy(bytes).into_owned()
}

/// A text with spaces behind it up to a width.
pub open spec fn padded(text: Seq<char>, width: int) -> Seq<char>
    decreases width - text.len(),
{
    if text.len() >= width {
        text
    } else {
        padded(text.push(' '), width)
    }
}

pub fn pad_right(text: &str, width: usize) -> (r: String)
    ensures
        r@ == padded(text@, width as int),
{
    let mut out = text.to_owned();
    let mut length: usize = text.unicode_len();
    while length < width
        invariant
            length == out@.len(),
            padded(text@, width as int) == padded(out@, width as int),
        decreases width - length,
    {
        out.push(' ');
        length = length + 1;
    }
    out
}

/// The first place of a character is one, and none before it is.
pub proof fn the_first_place_is_the_first(text: Seq<char>, c: char, from: int)
    requires
        0 <= from <= text.len(),
    ensures
        match first_index(text, c, from) {
            Some(i) => {
                &&& from <= i < text.len()
                &&& text[i] == c
                &&& forall|k: int| from <= k < i ==> #[trigger] text[k] != c
            },
            None => forall|k: int| from <= k < text.len() ==> #[trigger] text[k] != c,
        },
    decreases text.len() - from,
{
    if from < text.len() && text[from] != c {
        the_first_place_is_the_first(text, c, from + 1);
    }
}

/// The last place of a character is one, and none behind it is.
pub proof fn the_last_place_is_the_last(text: Seq<char>, c: char, to: int)
    requires
        0 <= to <= text.len(),
    ensures
        match last_index(text, c, to) {
            Some(i) => {
                &&& 0 <= i < to
                &&& text[i] == c
                &&& forall|k: int| i < k < to ==> #[trigger] text[k] != c
            },
            None => forall|k: int| 0 <= k < to ==> #[trigger] text[k] != c,
        },
    decreases to,
{
    if to > 0 && text[to - 1] != c {
        the_last_place_is_the_last(text, c, to - 1);
    }
}

/// The pieces of a text are free of the separator, and with it between them they are the text.
pub proof fn pieces_make_up_the_text(text: Seq<char>, sep: char)
    ensures
        pieces(text, sep).len() > 0,
        joined(pieces(text, sep), seq![sep]) == text,
        forall|i: int|
            0 <= i < pieces(text, sep).len() ==> !(#[trigger] pieces(text, sep)[i]).contains(sep),
    decreases text.len(),
{
    the_first_place_is_the_first(text, sep, 0);
    match first_index(text, sep, 0) {
        Some(i) => {
            let rest = text.skip(i + 1);
            let first = text.take(i);
            let later = pieces(rest, sep);
            pieces_make_up_the_text(rest, sep);
            let all = seq![first] + later;
            assert(pieces(text, sep) == all);
            assert(!first.contains(sep)) by {
                if first.contains(sep) {
                    let k = choose|k: int| 0 <= k < first.len() && first[k] == sep;
                    assert(text[k] == sep);
                }
            }
            assert forall|k: int| 0 <= k < all.len() implies !(#[trigger] all[k]).contains(sep) by {
                if k > 0 {
                    assert(all[k] == later[k - 1]);
                }
            }
            lemma_joined_front(first, later, seq![sep]);
            assert(joined(all, seq![sep]) =~= first + seq![sep] + rest);
            assert(first + seq![sep] + rest =~= text);
        },
        None => {
            assert(pieces(text, sep) == seq![text]);
        },
    }
}

proof fn lemma_joined_front(first: Seq<char>, rest: Seq<Seq<char>>, sep: Seq<char>)
    requires
        rest.len() > 0,
    ensures
        joined(seq![first] + rest, sep) == first + sep + joined(rest, sep),
    decreases rest.len(),
{
    let all = seq![first] + rest;
    if rest.len() == 1 {
        assert(all.drop_last() =~= seq![first]);
        assert(joined(all.drop_last(), sep) == first);
        assert(joined(all, sep) =~= first + sep + joined(rest, sep));
    } else {
        assert(all.drop_last() =~= seq![first] + rest.drop_last());
        lemma_joined_front(first, rest.drop_last(), sep);
        assert(joined(all, sep) =~= first + sep + joined(rest, sep));
    }
}

/// Trimming takes white space off both ends, all of it and nothing else.
pub proof fn trimming_takes_off_the_white_space(text: Seq<char>) -> (places: (int, int))
    ensures
        0 <= places.0 <= places.1 <= text.len(),
        trimmed(text) == text.subrange(places.0, places.1),
        forall|k: int| 0 <= k < places.0 ==> is_space(#[trigger] text[k]),
        forall|k: int| places.1 <= k < text.len() ==> is_space(#[trigger] text[k]),
        trimmed(text).len() > 0 ==> !is_space(trimmed(text)[0]) && !is_space(trimmed(text).last()),
{
    let from = lemma_trim_start(text);
    let front = trim_start(text);
    let to = lemma_trim_end(front);
    assert(trimmed(text) =~= text.subrange(from, from + to));
    assert forall|k: int| from + to <= k < text.len() implies is_space(#[trigger] text[k]) by {
        assert(front[k - from] == text[k]);
    }
    if trimmed(text).len() > 0 {
        assert(trimmed(text)[0] == front[0]);
    }
    (from, from + to)
}

proof fn lemma_trim_start(text: Seq<char>) -> (from: int)
    ensures
        0 <= from <= text.len(),
        trim_start(text) == text.skip(from),
        forall|k: int| 0 <= k < from ==> is_space(#[trigger] text[k]),
        trim_start(text).len() > 0 ==> !is_space(trim_start(text)[0]),
    decreases text.len(),
{
    if text.len() > 0 && is_space(text[0]) {
        let rest = text.drop_first();
        let inner = lemma_trim_start(rest);
        assert(rest.skip(inner) =~= text.skip(inner + 1));
        assert forall|k: int| 0 <= k < inner + 1 implies is_space(#[trigger] text[k]) by {
            if k > 0 {
                assert(rest[k - 1] == text[k]);
            }
        }
        inner + 1
    } else {
        assert(text.skip(0) =~= text);
        0
    }
}

proof fn lemma_trim_end(text: Seq<char>) -> (to: int)
    ensures
        0 <= to <= text.len(),
        trim_end(text) == text.take(to),
        forall|k: int| to <= k < text.len() ==> is_space(#[trigger] text[k]),
        trim_end(text).len() > 0 ==> !is_space(trim_end(text).last()),
    decreases text.len(),
{
    if text.len() > 0 && is_space(text.last()) {
        let rest = text.drop_last();
        let to = lemma_trim_end(rest);
        assert(rest.take(to) =~= text.take(to));
        assert forall|k: int| to <= k < text.len() implies is_space(#[trigger] text[k]) by {
            if k < rest.len() {
                assert(rest[k] == text[k]);
            }
        }
        to
    } else {
        assert(text.take(text.len() as int) =~= text);
        text.len() as int
    }
}

/// Small letters stay, capital ones become the small ones 32 places on, and nothing else changes.
pub proof fn lowering_touches_capitals_only(text: Seq<char>)
    ensures
        lowered(text).len() == text.len(),
        lowered(lowered(text)) == lowered(text),
        forall|i: int|
            0 <= i < text.len() ==> {
                &&& 'A' <= #[trigger] text[i] <= 'Z' ==> lowered(text)[i] as int == text[i] as int
                    + 32
                &&& !('A' <= text[i] <= 'Z') ==> lowered(text)[i] == text[i]
            },
{
    assert(lowered(lowered(text)) =~= lowered(text));
}

/// A text holds every part of itself, and only such.
pub proof fn texts_hold_their_parts(text: Seq<char>, part: Seq<char>, from: int, to: int)
    requires
        0 <= from <= to <= text.len(),
    ensures
        holds(text, text.subrange(from, to)),
        holds(text, text),
        part.len() > text.len() ==> !holds(text, part),
        part.len() == text.len() && part != text ==> !holds(text, part),
{
    let inner = text.subrange(from, to);
    assert(text.subrange(from, from + inner.len()) =~= inner);
    assert(stands_at(text, from, inner));
    assert(text.subrange(0, text.len() as int) =~= text);
    assert(stands_at(text, 0, text));
}

/// A minus sign before the digits of a number makes it negative.
pub proof fn signed_numbers_read_back(n: int)
    requires
        0 <= n <= i64::MAX,
    ensures
        parsed_signed(decimal(n)) == Some(n),
        parsed_signed(seq!['-'] + decimal(n)) == Some(-n),
        parsed_number(seq!['+'] + decimal(n), n) == Some(n),
        n > 0 ==> parsed_number(decimal(n), n - 1) is None,
        parsed_number(seq!['-'] + decimal(n), n) is None,
{
    decimal_reads_back(n);
    let text = seq!['-'] + decimal(n);
    let plus = seq!['+'] + decimal(n);
    assert(text.drop_first() =~= decimal(n));
    assert(plus.drop_first() =~= decimal(n));
    assert(is_digit(decimal(n)[0]));
    assert(text[0] == '-' && !is_digit(text[0]));
}

/// Only the empty texts are left out.
pub proof fn only_empty_texts_are_dropped(list: Seq<Seq<char>>)
    ensures
        forall|t: Seq<char>| #[trigger]
            nonempty(list).contains(t) <==> list.contains(t) && t.len() > 0,
        nonempty(list).len() <= list.len(),
    decreases list.len(),
{
    if list.len() > 0 {
        let before = list.drop_last();
        only_empty_texts_are_dropped(before);
        assert forall|t: Seq<char>| #[trigger]
            nonempty(list).contains(t) <==> list.contains(t) && t.len() > 0 by {
            if list.contains(t) {
                let k = choose|k: int| 0 <= k < list.len() && list[k] == t;
                if k < before.len() {
                    assert(before[k] == t);
                }
            }
            if before.contains(t) {
                let k = choose|k: int| 0 <= k < before.len() && before[k] == t;
                assert(list[k] == t);
            }
            if nonempty(list).contains(t) {
                let k = choose|k: int| 0 <= k < nonempty(list).len() && nonempty(list)[k] == t;
                if k < nonempty(before).len() {
                    assert(nonempty(before)[k] == t);
                }
            }
            if nonempty(before).contains(t) {
                let k = choose|k: int| 0 <= k < nonempty(before).len() && nonempty(before)[k] == t;
                assert(nonempty(list)[k] == t);
            }
            if list.last() == t && t.len() > 0 {
                assert(nonempty(list).last() == t);
            }
        }
    }
}

/// A padded text is the text, with spaces behind it up to the width.
pub proof fn padding_adds_spaces(text: Seq<char>, width: int)
    ensures
        padded(text, width).len() == if text.len() >= width {
            text.len() as int
        } else {
            width
        },
        forall|i: int| 0 <= i < text.len() ==> #[trigger] padded(text, width)[i] == text[i],
        forall|i: int|
            text.len() <= i < padded(text, width).len() ==> #[trigger] padded(text, width)[i]
                == ' ',
    decreases width - text.len(),
{
    if text.len() < width {
        padding_adds_spaces(text.push(' '), width);
        assert forall|i: int| 0 <= i < text.len() implies #[trigger] padded(text, width)[i]
            == text[i] by {
            assert(text.push(' ')[i] == text[i]);
        }
        assert(text.push(' ')[text.len() as int] == ' ');
    }
}

/// The first place where two texts differ decides which stands first, and a text stands before its
/// continuations.
pub proof fn the_first_difference_decides(
    common: Seq<char>,
    a: char,
    b: char,
    rest: Seq<char>,
    other: Seq<char>,
)
    requires
        a < b,
    ensures
        text_before(common + seq![a] + rest, common + seq![b] + other),
        text_before(common, common + seq![a] + rest),
    decreases common.len(),
{
    let x = common + seq![a] + rest;
    let y = common + seq![b] + other;
    if common.len() > 0 {
        let shorter = common.drop_first();
        the_first_difference_decides(shorter, a, b, rest, other);
        assert(x.drop_first() =~= shorter + seq![a] + rest);
        assert(y.drop_first() =~= shorter + seq![b] + other);
        assert(x[0] == y[0] && x[0] == common[0]);
    } else {
        assert(x[0] == a && y[0] == b);
        assert(text_before(common, x));
    }
}

/// A line without its ends: they are all taken off, and nothing else.
pub proof fn line_ends_are_taken_off(text: Seq<char>)
    requires
        text.len() > 0 ==> text.last() != '\r' && text.last() != '\n',
    ensures
        without_line_end(text) == text,
        without_line_end(text.push('\n')) == text,
        without_line_end(text.push('\r').push('\n')) == text,
{
    assert(text.push('\n').drop_last() =~= text);
    assert(text.push('\r').push('\n').drop_last() =~= text.push('\r'));
    assert(text.push('\r').drop_last() =~= text);
    assert(without_line_end(text.push('\r')) == without_line_end(text));
}

proof fn lemma_edge(text: Seq<char>, from: int, to: int, at_space: bool)
    requires
        0 <= from <= to <= text.len(),
        forall|k: int| from <= k < to ==> is_space(#[trigger] text[k]) != at_space,
        to < text.len() ==> is_space(text[to]) == at_space,
    ensures
        next_edge(text, from, at_space) == to,
    decreases to - from,
{
    if from < to {
        lemma_edge(text, from + 1, to, at_space);
    }
}

/// Two words with white space between them are read as they are, whatever follows.
pub proof fn words_are_read_as_they_are(first: Seq<char>, second: Seq<char>, rest: Seq<char>)
    requires
        first.len() > 0,
        second.len() > 0,
        forall|k: int| 0 <= k < first.len() ==> !is_space(#[trigger] first[k]),
        forall|k: int| 0 <= k < second.len() ==> !is_space(#[trigger] second[k]),
        rest.len() > 0 ==> is_space(rest[0]),
    ensures
        leading_words(first + seq![' '] + second + rest) == (Some(first), Some(second)),
        leading_words(first) == (Some(first), None::<Seq<char>>),
{
    let text = first + seq![' '] + second + rest;
    let a = first.len() as int;
    let b = a + 1 + second.len();
    assert forall|k: int| 0 <= k < a implies !is_space(#[trigger] text[k]) by {
        assert(text[k] == first[k]);
    }
    assert(text[a] == ' ' && is_space(' '));
    assert forall|k: int| a + 1 <= k < b implies !is_space(#[trigger] text[k]) by {
        assert(text[k] == second[k - a - 1]);
    }
    if b < text.len() {
        assert(text[b] == rest[0]);
    }
    lemma_edge(text, 0, 0, false);
    lemma_edge(text, 0, a, true);
    lemma_edge(text, a, a + 1, false);
    lemma_edge(text, a + 1, b, true);
    assert(text.subrange(0, a) =~= first);
    assert(text.subrange(a + 1, b) =~= second);
    lemma_edge(first, 0, 0, false);
    lemma_edge(first, 0, a, true);
    lemma_edge(first, a, a, false);
    assert(first.subrange(0, a) =~= first);
}

/// A text that is put together of two holds what one of them holds.
pub proof fn sums_hold_what_their_parts_hold(a: Seq<char>, b: Seq<char>, part: Seq<char>)
    ensures
        holds(a, part) || holds(b, part) ==> holds(a + b, part),
{
    let n = part.len() as int;
    if holds(a, part) {
        let at = choose|at: int| stands_at(a, at, part);
        assert((a + b).subrange(at, at + n) =~= a.subrange(at, at + n));
        assert(stands_at(a + b, at, part));
    } else if holds(b, part) {
        let at = choose|at: int| stands_at(b, at, part);
        let to = a.len() + at;
        assert((a + b).subrange(to, to + n) =~= b.subrange(at, at + n));
        assert(stands_at(a + b, to, part));
    }
}

/// A padded text holds what the text holds.
pub proof fn padding_keeps_the_text(text: Seq<char>, width: int, part: Seq<char>)
    requires
        holds(text, part),
    ensures
        holds(padded(text, width), part),
    decreases width - text.len(),
{
    if text.len() < width {
        sums_hold_what_their_parts_hold(text, seq![' '], part);
        assert(text + seq![' '] =~= text.push(' '));
        padding_keeps_the_text(text.push(' '), width, part);
    }
}

/// The number that hexadecimal digits stand for.
pub open spec fn hex_value(text: Seq<char>) -> int
    decreases text.len(),
{
    if text.len() == 0 {
        0
    } else {
        16 * hex_value(text.drop_last()) + if is_digit(text.last()) {
            digit_value(text.last())
        } else {
            text.last() as int - 'a' as int + 10
        }
    }
}

/// Hexadecimal digits stand for the number they were written for, cut to the digits there are.
pub proof fn hexadecimals_read_back(n: int)
    requires
        0 <= n,
    ensures
        hex_value(hexadecimal(n)) == n,
        hexadecimal(n).len() > 0,
        n > 0 ==> hexadecimal(n)[0] != '0',
        forall|k: int|
            0 <= k < hexadecimal(n).len() ==> {
                ||| '0' <= #[trigger] hexadecimal(n)[k] <= '9'
                ||| 'a' <= hexadecimal(n)[k] <= 'f'
            },
    decreases n,
{
    let text = hexadecimal(n);
    if n < 16 {
        assert(text.drop_last() =~= Seq::empty());
        assert(hex_value(text.drop_last()) == 0);
    } else {
        hexadecimals_read_back(n / 16);
        assert(text.drop_last() =~= hexadecimal(n / 16));
        assert forall|k: int| 0 <= k < text.len() implies {
            ||| '0' <= #[trigger] text[k] <= '9'
            ||| 'a' <= text[k] <= 'f'
        } by {
            if k < text.len() - 1 {
                assert(text[k] == hexadecimal(n / 16)[k]);
            }
        }
    }
}

} // verus!
