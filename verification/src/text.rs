//! Character-level helpers: decimal numbers as text, and searching in text.
//!
//! Text is modelled as `Seq<char>`, the view of `str` and `String`.

use vstd::prelude::*;

verus! {

/// `String::push` of the standard library: appends one character at the end
/// and leaves what was there untouched.
pub assume_specification[ String::push ](s: &mut String, c: char)
    ensures
        final(s)@ == old(s)@.push(c),
;

/// Whether `c` is one of the ASCII digits `0` to `9`.
pub open spec fn is_digit(c: char) -> bool {
    '0' <= c <= '9'
}

/// The number that the ASCII digit `c` stands for.
pub open spec fn digit_value(c: char) -> int {
    c as int - 48
}

/// The ASCII digit that stands for `d`, for `d` from 0 to 9.
pub open spec fn digit_char(d: int) -> char {
    (d + 48) as u8 as char
}

/// Whether every character of `s` is an ASCII digit.
pub open spec fn all_digits(s: Seq<char>) -> bool {
    forall|i: int| 0 <= i < s.len() ==> is_digit(#[trigger] s[i])
}

/// The number written by the digits of `s` in base ten; 0 for no digits.
pub open spec fn decimal_value(s: Seq<char>) -> nat
    decreases s.len(),
{
    if s.len() == 0 {
        0
    } else {
        (decimal_value(s.drop_last()) * 10 + digit_value(s.last())) as nat
    }
}

/// The number that `s` writes, if `s` is one or more digits and the number
/// is at most `limit`.
pub open spec fn bounded_decimal(s: Seq<char>, limit: nat) -> Option<nat> {
    if s.len() > 0 && all_digits(s) && decimal_value(s) <= limit {
        Some(decimal_value(s))
    } else {
        None
    }
}

/// What text stands for an unsigned 32-bit number: an optional `+`, then one
/// or more digits, the number within range.
pub open spec fn parse_u32_spec(s: Seq<char>) -> Option<u32> {
    let digits = if s.len() > 0 && s[0] == '+' {
        s.skip(1)
    } else {
        s
    };
    match bounded_decimal(digits, u32::MAX as nat) {
        Some(v) => Some(v as u32),
        None => None,
    }
}

/// What text stands for a signed 32-bit number: an optional `+` or `-`, then
/// one or more digits, the number within range.
pub open spec fn parse_i32_spec(s: Seq<char>) -> Option<i32> {
    if s.len() > 0 && s[0] == '-' {
        match bounded_decimal(s.skip(1), 0x8000_0000) {
            Some(v) => Some((-v) as i32),
            None => None,
        }
    } else {
        let digits = if s.len() > 0 && s[0] == '+' {
            s.skip(1)
        } else {
            s
        };
        match bounded_decimal(digits, i32::MAX as nat) {
            Some(v) => Some(v as i32),
            None => None,
        }
    }
}

/// The digits of `n` in base ten, most significant first, without leading
/// zeros; `0` is written as one digit.
pub open spec fn decimal_digits(n: nat) -> Seq<char>
    decreases n,
{
    if n < 10 {
        seq![digit_char(n as int)]
    } else {
        decimal_digits(n / 10).push(digit_char((n % 10) as int))
    }
}

/// `count` times the digit `0`.
pub open spec fn zeros(count: nat) -> Seq<char> {
    Seq::new(count, |i: int| '0')
}

/// `n` in base ten, filled with zeros after the sign up to `width`
/// characters: a `-` for a negative number, then the zeros, then the digits.
/// A number that needs more than `width` characters is written in full.
pub open spec fn padded_decimal(n: int, width: nat) -> Seq<char> {
    let sign = if n < 0 {
        seq!['-']
    } else {
        Seq::<char>::empty()
    };
    let digits = decimal_digits((if n < 0 { -n } else { n }) as nat);
    let fill = if sign.len() + digits.len() < width {
        width - sign.len() - digits.len()
    } else {
        0
    };
    sign + zeros(fill as nat) + digits
}

/// `n` in base ten, as short as it can be.
pub open spec fn decimal_text(n: int) -> Seq<char> {
    padded_decimal(n, 0)
}

/// Whether `needle` stands in `hay` at position `at`.
pub open spec fn occurs_at(hay: Seq<char>, needle: Seq<char>, at: int) -> bool {
    0 <= at && at + needle.len() <= hay.len() && hay.subrange(at, at + needle.len()) == needle
}

/// Whether `needle` stands somewhere in `hay`.
pub open spec fn contains_text(hay: Seq<char>, needle: Seq<char>) -> bool {
    exists|at: int| occurs_at(hay, needle, at)
}

/// A value never shrinks when a digit is appended.
pub proof fn lemma_decimal_value_push(s: Seq<char>, c: char)
    requires
        is_digit(c),
    ensures
        decimal_value(s.push(c)) == decimal_value(s) * 10 + digit_value(c),
        decimal_value(s.push(c)) >= decimal_value(s),
{
    assert(s.push(c).drop_last() == s);
    assert(s.push(c).last() == c);
}

/// The value of a run of digits is at least the value of each of its
/// beginnings.
pub proof fn lemma_decimal_value_prefix(s: Seq<char>, k: int)
    requires
        all_digits(s),
        0 <= k <= s.len(),
    ensures
        decimal_value(s.subrange(0, k)) <= decimal_value(s),
    decreases s.len() - k,
{
    if k == s.len() {
        assert(s.subrange(0, k) == s);
    } else {
        lemma_decimal_value_prefix(s, k + 1);
        let longer = s.subrange(0, k + 1);
        assert(longer.drop_last() == s.subrange(0, k));
        assert(longer.last() == s[k]);
        assert(is_digit(s[k]));
    }
}

/// Each digit of a number's decimal form is a digit.
pub proof fn lemma_decimal_digits_are_digits(n: nat)
    ensures
        all_digits(decimal_digits(n)),
        decimal_digits(n).len() >= 1,
    decreases n,
{
    if n >= 10 {
        lemma_decimal_digits_are_digits(n / 10);
    }
}

/// Reading back the decimal form of a number gives the number.
pub proof fn lemma_decimal_round_trip(n: nat)
    ensures
        decimal_value(decimal_digits(n)) == n,
    decreases n,
{
    if n < 10 {
        let s = decimal_digits(n);
        assert(s.drop_last().len() == 0);
        assert(decimal_value(s.drop_last()) == 0);
    } else {
        lemma_decimal_round_trip(n / 10);
        lemma_decimal_value_push(decimal_digits(n / 10), digit_char((n % 10) as int));
    }
}

/// A number of at most `width` digits, for a width up to four, is written
/// in exactly `width` digits when it is filled up to that width.
pub proof fn lemma_padded_decimal_fills(n: int, width: nat)
    requires
        0 <= n,
        width == 1 && n < 10 || width == 2 && n < 100 || width == 3 && n < 1000 || width == 4 && n
            < 10000,
    ensures
        padded_decimal(n, width).len() == width,
        all_digits(padded_decimal(n, width)),
{
    let digits = decimal_digits(n as nat);
    lemma_decimal_digits_are_digits(n as nat);
    assert(digits.len() <= width) by {
        reveal_with_fuel(decimal_digits, 5);
    }
    let text = padded_decimal(n, width);
    let fill = (width - digits.len()) as nat;
    assert(text =~= zeros(fill) + digits);
    assert forall|i: int| 0 <= i < text.len() implies is_digit(#[trigger] text[i]) by {
        if i >= fill {
            assert(text[i] == digits[i - fill]);
        }
    }
}

/// The decimal text of a 32-bit number parses back to that number.
pub proof fn lemma_parse_decimal_text(n: i32)
    ensures
        parse_i32_spec(decimal_text(n as int)) == Some(n),
{
    let magnitude = (if n < 0 { -n } else { n as int }) as nat;
    let digits = decimal_digits(magnitude);
    lemma_decimal_digits_are_digits(magnitude);
    lemma_decimal_round_trip(magnitude);
    assert(zeros(0) == Seq::<char>::empty());
    if n < 0 {
        let text = decimal_text(n as int);
        assert(text == seq!['-'] + digits);
        assert(text.skip(1) == digits);
        assert(text[0] == '-');
    } else {
        let text = decimal_text(n as int);
        assert(text == digits);
        assert(is_digit(text[0]));
    }
}

/// The characters of `s`, one by one.
pub fn chars_of(s: &str) -> (v: Vec<char>)
    ensures
        v@ == s@,
{
    let mut v: Vec<char> = Vec::new();
    for c in it: s.chars()
        invariant
            v@ == it.seq().take(it.index() as int),
            it.seq() == s@,
    {
        v.push(c);
    }
    v
}

/// The text made of the characters of `v`.
pub fn string_of(v: &Vec<char>) -> (s: String)
    ensures
        s@ == v@,
{
    let mut s = String::new();
    let mut i: usize = 0;
    while i < v.len()
        invariant
            i <= v.len(),
            s@ == v@.take(i as int),
        decreases v.len() - i,
    {
        s.push(v[i]);
        i += 1;
    }
    s
}

/// Reads the digits of `chars` from `start` to the end as a number of at
/// most `limit`.
fn parse_digits(chars: &Vec<char>, start: usize, limit: u64) -> (r: Option<u64>)
    requires
        start <= chars.len(),
        limit <= 0x1_0000_0000,
    ensures
        r == match bounded_decimal(chars@.skip(start as int), limit as nat) {
            Some(v) => Some(v as u64),
            None => None,
        },
{
    let n: usize = chars.len();
    let ghost digits = chars@.skip(start as int);
    if start == n {
        return None;
    }
    let mut value: u64 = 0;
    let mut i: usize = start;
    while i < n
        invariant
            start <= i <= n,
            n == chars.len(),
            digits == chars@.skip(start as int),
            limit <= 0x1_0000_0000,
            all_digits(digits.subrange(0, i - start)),
            value == decimal_value(digits.subrange(0, i - start)),
            value <= limit,
        decreases n - i,
    {
        let c: char = chars[i];
        if !(c >= '0' && c <= '9') {
            assert(!is_digit(digits[i - start]));
            return None;
        }
        let d: u64 = (c as u8 - 48) as u64;
        let next: u64 = value * 10 + d;
        proof {
            let shorter = digits.subrange(0, i - start);
            let longer = digits.subrange(0, i + 1 - start);
            assert(longer == shorter.push(c));
            lemma_decimal_value_push(shorter, c);
            assert forall|j: int| 0 <= j < longer.len() implies is_digit(#[trigger] longer[j]) by {
                if j < shorter.len() {
                    assert(longer[j] == shorter[j]);
                }
            }
        }
        if next > limit {
            proof {
                if all_digits(digits) {
                    lemma_decimal_value_prefix(digits, i + 1 - start);
                }
            }
            return None;
        }
        value = next;
        i += 1;
    }
    assert(digits.subrange(0, n - start) == digits);
    Some(value)
}

/// Reads `s` as an unsigned 32-bit number in base ten.
pub fn parse_u32(s: &str) -> (r: Option<u32>)
    ensures
        r == parse_u32_spec(s@),
{
    let chars = chars_of(s);
    let start: usize = if chars.len() > 0 && chars[0] == '+' {
        1
    } else {
        0
    };
    assert(chars@.skip(0) == chars@);
    match parse_digits(&chars, start, 0xffff_ffff) {
        Some(v) => Some(v as u32),
        None => None,
    }
}

/// Reads `s` as a signed 32-bit number in base ten.
pub fn parse_i32(s: &str) -> (r: Option<i32>)
    ensures
        r == parse_i32_spec(s@),
{
    let chars = chars_of(s);
    assert(chars@.skip(0) == chars@);
    if chars.len() > 0 && chars[0] == '-' {
        match parse_digits(&chars, 1, 0x8000_0000) {
            Some(v) => Some((0 - (v as i64)) as i32),
            None => None,
        }
    } else {
        let start: usize = if chars.len() > 0 && chars[0] == '+' {
            1
        } else {
            0
        };
        match parse_digits(&chars, start, 0x7fff_ffff) {
            Some(v) => Some(v as i32),
            None => None,
        }
    }
}

/// How many digits the decimal form of `n` has.
fn digit_count(n: u32) -> (count: usize)
    ensures
        count == decimal_digits(n as nat).len(),
        1 <= count <= 10,
    decreases n,
{
    if n < 10 {
        1
    } else {
        let shorter: usize = digit_count(n / 10);
        proof {
            lemma_digit_count_bound((n / 10) as nat);
        }
        shorter + 1
    }
}

/// A number below a power of ten has no more digits than that power has
/// zeros.
proof fn lemma_digit_count_bound(n: nat)
    ensures
        n < 10 ==> decimal_digits(n).len() == 1,
        n < 1_000_000_000 ==> decimal_digits(n).len() <= 9,
{
    reveal_with_fuel(decimal_digits, 10);
}

/// Appends the digits of `n` to `out`.
pub fn push_digits(out: &mut String, n: u32)
    ensures
        final(out)@ == old(out)@ + decimal_digits(n as nat),
    decreases n,
{
    if n >= 10 {
        push_digits(out, n / 10);
    }
    let d: u8 = (n % 10) as u8;
    out.push((d + 48) as char);
    assert(out@ =~= old(out)@ + decimal_digits(n as nat));
}

/// Appends `n` in base ten to `out`, filled with zeros up to `width`
/// characters.
pub fn push_padded(out: &mut String, n: i32, width: usize)
    ensures
        final(out)@ == old(out)@ + padded_decimal(n as int, width as nat),
{
    let magnitude: u32 = if n < 0 {
        (0 - (n as i64)) as u32
    } else {
        n as u32
    };
    let mut used: usize = digit_count(magnitude);
    if n < 0 {
        out.push('-');
        used += 1;
    }
    let ghost signed = out@;
    let fill: usize = if used < width {
        width - used
    } else {
        0
    };
    let mut i: usize = 0;
    while i < fill
        invariant
            i <= fill,
            out@ == signed + zeros(i as nat),
        decreases fill - i,
    {
        out.push('0');
        i += 1;
        assert(zeros((i - 1) as nat).push('0') == zeros(i as nat));
    }
    push_digits(out, magnitude);
    assert(out@ == old(out)@ + padded_decimal(n as int, width as nat));
}

/// Appends `n` in base ten to `out`.
pub fn push_decimal(out: &mut String, n: i32)
    ensures
        final(out)@ == old(out)@ + decimal_text(n as int),
{
    push_padded(out, n, 0);
}

/// The characters of `v` from position `from` up to position `to`.
pub fn slice_of(v: &Vec<char>, from: usize, to: usize) -> (part: Vec<char>)
    requires
        from <= to <= v.len(),
    ensures
        part@ == v@.subrange(from as int, to as int),
{
    let mut part: Vec<char> = Vec::new();
    let mut i: usize = from;
    while i < to
        invariant
            from <= i <= to <= v.len(),
            part@ == v@.subrange(from as int, i as int),
        decreases to - i,
    {
        part.push(v[i]);
        i += 1;
        assert(part@ =~= v@.subrange(from as int, i as int));
    }
    part
}

/// Whether `s` begins with `head`.
pub fn starts_with(s: &Vec<char>, head: &Vec<char>) -> (r: bool)
    ensures
        r == head@.is_prefix_of(s@),
{
    if head.len() > s.len() {
        return false;
    }
    let mut i: usize = 0;
    while i < head.len()
        invariant
            i <= head.len() <= s.len(),
            forall|j: int| 0 <= j < i ==> s[j] == head[j],
        decreases head.len() - i,
    {
        if s[i] != head[i] {
            assert(s@.subrange(0, head.len() as int)[i as int] != head@[i as int]);
            return false;
        }
        i += 1;
    }
    assert(head@ =~= s@.subrange(0, head.len() as int));
    true
}

/// Whether `s` ends with `tail`.
pub fn ends_with(s: &Vec<char>, tail: &Vec<char>) -> (r: bool)
    ensures
        r == tail@.is_suffix_of(s@),
{
    if tail.len() > s.len() {
        return false;
    }
    let offset: usize = s.len() - tail.len();
    let mut i: usize = 0;
    while i < tail.len()
        invariant
            i <= tail.len(),
            offset + tail.len() == s.len(),
            forall|j: int| 0 <= j < i ==> s[offset + j] == tail[j],
        decreases tail.len() - i,
    {
        if s[offset + i] != tail[i] {
            assert(s@.subrange(offset as int, s.len() as int)[i as int] != tail@[i as int]);
            return false;
        }
        i += 1;
    }
    assert(tail@ =~= s@.subrange(offset as int, s.len() as int));
    true
}

/// Whether `needle` stands in `hay` at position `at`.
fn matches_at(hay: &Vec<char>, needle: &Vec<char>, at: usize) -> (r: bool)
    requires
        at + needle.len() <= hay.len(),
    ensures
        r == occurs_at(hay@, needle@, at as int),
{
    let mut i: usize = 0;
    while i < needle.len()
        invariant
            i <= needle.len(),
            at + needle.len() <= hay.len(),
            forall|j: int| 0 <= j < i ==> hay[at + j] == needle[j],
        decreases needle.len() - i,
    {
        if hay[at + i] != needle[i] {
            assert(hay@.subrange(at as int, at + needle.len())[i as int] != needle@[i as int]);
            return false;
        }
        i += 1;
    }
    assert(hay@.subrange(at as int, at + needle.len()) =~= needle@);
    true
}

/// Whether `needle` stands somewhere in `hay`.
pub fn contains(hay: &Vec<char>, needle: &Vec<char>) -> (r: bool)
    ensures
        r == contains_text(hay@, needle@),
{
    if needle.len() > hay.len() {
        return false;
    }
    let last: usize = hay.len() - needle.len();
    let mut at: usize = 0;
    while at < last
        invariant
            at <= last,
            last + needle.len() == hay.len(),
            forall|k: int| 0 <= k < at ==> !occurs_at(hay@, needle@, k),
        decreases last - at,
    {
        if matches_at(hay, needle, at) {
            return true;
        }
        at += 1;
    }
    matches_at(hay, needle, last)
}

} // verus!
