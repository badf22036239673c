//! Decimal numbers in text.

use vstd::prelude::*;
use crate::text::chars::push_text;
use crate::text::class::{is_digit, Class};
use crate::text::search::{all_in, all_of, skip, span, span_of};

verus! {

/// The value of a decimal digit.
pub open spec fn digit_value(c: char) -> nat {
    if is_digit(c) {
        (c as int - '0' as int) as nat
    } else {
        0
    }
}

/// The digit that stands for a value below ten.
pub open spec fn digit_char(n: nat) -> char {
    if n == 0 { '0' }
    else if n == 1 { '1' }
    else if n == 2 { '2' }
    else if n == 3 { '3' }
    else if n == 4 { '4' }
    else if n == 5 { '5' }
    else if n == 6 { '6' }
    else if n == 7 { '7' }
    else if n == 8 { '8' }
    else { '9' }
}

/// The number that a sequence of decimal digits spells.
pub open spec fn digits_value(s: Seq<char>) -> nat
    decreases s.len(),
{
    if s.len() == 0 {
        0
    } else {
        digits_value(s.drop_last()) * 10 + digit_value(s.last())
    }
}

/// The number spelled by one or more decimal digits, and nothing else.
pub open spec fn digits_number(s: Seq<char>) -> Option<nat> {
    if s.len() > 0 && all_in(s, Class::Digit) {
        Some(digits_value(s))
    } else {
        None
    }
}

/// A number of at most `max`, with an optional plus sign.
pub open spec fn parse_unsigned(s: Seq<char>, max: nat) -> Option<nat> {
    let digits = if s.len() > 0 && s[0] == '+' { s.skip(1) } else { s };
    match digits_number(digits) {
        Some(n) if n <= max => Some(n),
        _ => None,
    }
}

/// A 32-bit number with an optional sign.
pub open spec fn parse_i32(s: Seq<char>) -> Option<i32> {
    if s.len() > 0 && s[0] == '-' {
        match digits_number(s.skip(1)) {
            Some(n) if n <= 0x8000_0000 => Some((0 - n) as i32),
            _ => None,
        }
    } else {
        match parse_unsigned(s, 0x7fff_ffff) {
            Some(n) => Some(n as i32),
            None => None,
        }
    }
}

/// The decimal spelling of a number, without leading zeros.
pub open spec fn dec(n: nat) -> Seq<char>
    decreases n,
{
    if n < 10 {
        seq![digit_char(n)]
    } else {
        dec(n / 10).push(digit_char(n % 10))
    }
}

/// The decimal spelling of a number, with a minus sign where it is negative.
pub open spec fn dec_int(n: int) -> Seq<char> {
    if n < 0 {
        seq!['-'] + dec((0 - n) as nat)
    } else {
        dec(n as nat)
    }
}

/// An exponent: `e` or `E`, an optional sign, one or more digits.
pub open spec fn is_exponent(s: Seq<char>) -> bool {
    &&& s.len() > 0
    &&& s[0] == 'e' || s[0] == 'E'
    &&& {
        let t = s.skip(1);
        let digits = if t.len() > 0 && (t[0] == '+' || t[0] == '-') { t.skip(1) } else { t };
        digits_number(digits) is Some
    }
}

/// Digits with at most one point among or around them, at least one digit, and
/// an optional exponent.
pub open spec fn is_decimal(s: Seq<char>) -> bool {
    let whole = span(s, Class::Digit, true);
    let rest = s.skip(whole);
    let fraction = if rest.len() > 0 && rest[0] == '.' { span(rest.skip(1), Class::Digit, true) } else { 0 };
    let tail = if rest.len() > 0 && rest[0] == '.' { rest.skip(1).skip(fraction) } else { rest };
    whole + fraction > 0 && (tail.len() == 0 || is_exponent(tail))
}

/// The literal of a floating-point number: an optional sign, then a decimal
/// number or one of the words `inf`, `infinity` and `nan` in any case.
pub open spec fn is_real_literal(s: Seq<char>) -> bool {
    let t = if s.len() > 0 && (s[0] == '+' || s[0] == '-') { s.skip(1) } else { s };
    let word = crate::text::class::ascii_lower(t);
    is_decimal(t) || word == "inf"@ || word == "infinity"@ || word == "nan"@
}

/// A longer run of digits spells no smaller number.
proof fn lemma_digits_value_grows(s: Seq<char>, n: int)
    requires
        0 <= n <= s.len(),
    ensures
        digits_value(s.take(n)) <= digits_value(s),
    decreases s.len(),
{
    if n < s.len() {
        let t = s.drop_last();
        lemma_digits_value_grows(t, n);
        assert(t.take(n) =~= s.take(n));
    } else {
        assert(s.take(n) =~= s);
    }
}

/// The value of a decimal digit.
fn digit_of(c: char) -> (r: u64)
    requires
        is_digit(c),
    ensures
        r as nat == digit_value(c),
        r <= 9,
{
    (c as u32 - '0' as u32) as u64
}

/// The executable form of [`digits_number`], up to `max`.
pub fn digits_number_of(cs: &[char], max: u64) -> (r: Option<u64>)
    ensures
        match (r, digits_number(cs@)) {
            (Some(v), Some(n)) => v as nat == n && n <= max,
            (None, Some(n)) => n > max,
            (Some(_), None) => false,
            (None, None) => true,
        },
{
    if cs.len() == 0 || !all_of(cs, Class::Digit) {
        return None;
    }
    let mut v: u64 = 0;
    let mut i: usize = 0;
    while i < cs.len()
        invariant
            i <= cs@.len(),
            all_in(cs@, Class::Digit),
            v as nat == digits_value(cs@.take(i as int)),
            v <= max,
            digits_number(cs@) == Some(digits_value(cs@)),
        decreases cs@.len() - i,
    {
        assert(Class::Digit.has(cs@[i as int]));
        let d: u64 = digit_of(cs[i]);
        let ghost longer = cs@.take(i as int + 1);
        assert(longer.drop_last() =~= cs@.take(i as int));
        assert(longer.last() == cs@[i as int]);
        proof {
            lemma_digits_value_grows(cs@, i as int + 1);
        }
        if d > max || v > (max - d) / 10 {
            assert(v as int * 10 + d > max) by (nonlinear_arith)
                requires
                    d > max || v > (max - d) / 10,
                    0 <= d,
                    0 <= v,
            ;
            return None;
        }
        assert(v as int * 10 + d <= max) by (nonlinear_arith)
            requires
                d <= max,
                v <= (max - d) / 10,
                0 <= d,
                0 <= v,
        ;
        v = v * 10 + d;
        i += 1;
    }
    assert(cs@.take(i as int) =~= cs@);
    Some(v)
}

/// The executable form of [`parse_unsigned`].
pub fn unsigned_of(cs: &[char], max: u64) -> (r: Option<u64>)
    ensures
        match r {
            Some(v) => parse_unsigned(cs@, max as nat) == Some(v as nat) && v <= max,
            None => parse_unsigned(cs@, max as nat) is None,
        },
{
    if cs.len() > 0 && cs[0] == '+' {
        digits_number_of(skip(cs, 1), max)
    } else {
        digits_number_of(cs, max)
    }
}

/// The executable form of [`parse_i32`].
pub fn i32_of(cs: &[char]) -> (r: Option<i32>)
    ensures
        r == parse_i32(cs@),
{
    if cs.len() > 0 && cs[0] == '-' {
        match digits_number_of(skip(cs, 1), 0x8000_0000) {
            Some(v) => Some((0 - v as i64) as i32),
            None => None,
        }
    } else {
        match unsigned_of(cs, 0x7fff_ffff) {
            Some(v) => Some(v as i32),
            None => None,
        }
    }
}

/// The executable form of [`digit_char`].
fn char_of_digit(n: u64) -> (r: char)
    ensures
        r == digit_char(n as nat),
{
    match n {
        0 => '0',
        1 => '1',
        2 => '2',
        3 => '3',
        4 => '4',
        5 => '5',
        6 => '6',
        7 => '7',
        8 => '8',
        _ => '9',
    }
}

/// The decimal spelling of `n`.
pub fn u64_text(n: u64) -> (r: String)
    ensures
        r@ == dec(n as nat),
    decreases n,
{
    if n < 10 {
        let mut r: String = String::new();
        r.push(char_of_digit(n));
        assert(r@ =~= dec(n as nat));
        r
    } else {
        let mut r: String = u64_text(n / 10);
        r.push(char_of_digit(n % 10));
        r
    }
}

/// The decimal spelling of `n`.
pub fn i32_text(n: i32) -> (r: String)
    ensures
        r@ == dec_int(n as int),
{
    if n < 0 {
        let mut r: String = String::new();
        r.push('-');
        let digits: String = u64_text((0 - n as i64) as u64);
        push_text(&mut r, digits.as_str());
        assert(r@ =~= dec_int(n as int));
        r
    } else {
        u64_text(n as u64)
    }
}

/// Reading the decimal spelling of a number gives the number back.
pub proof fn law_dec_reads_back(n: nat)
    ensures
        digits_number(dec(n)) == Some(n),
    decreases n,
{
    if n < 10 {
        assert(dec(n).drop_last() =~= seq![]);
        assert(digits_value(dec(n).drop_last()) == 0);
    } else {
        law_dec_reads_back(n / 10);
        let s = dec(n);
        assert(s.drop_last() =~= dec(n / 10));
        assert forall|i: int| 0 <= i < s.len() implies Class::Digit.has(#[trigger] s[i]) by {
            if i < s.len() - 1 {
                assert(s[i] == dec(n / 10)[i]);
            }
        }
    }
}

/// The executable form of [`is_exponent`].
fn exponent(cs: &[char]) -> (r: bool)
    ensures
        r == is_exponent(cs@),
{
    if cs.len() == 0 || !(cs[0] == 'e' || cs[0] == 'E') {
        return false;
    }
    let t: &[char] = skip(cs, 1);
    let digits: &[char] = if t.len() > 0 && (t[0] == '+' || t[0] == '-') { skip(t, 1) } else { t };
    digits.len() > 0 && all_of(digits, Class::Digit)
}

/// The executable form of [`is_decimal`].
fn decimal(cs: &[char]) -> (r: bool)
    ensures
        r == is_decimal(cs@),
{
    let whole: usize = span_of(cs, Class::Digit, true);
    let rest: &[char] = skip(cs, whole);
    let mut tail: &[char] = rest;
    let mut fraction: usize = 0;
    if rest.len() > 0 && rest[0] == '.' {
        let after: &[char] = skip(rest, 1);
        fraction = span_of(after, Class::Digit, true);
        tail = skip(after, fraction);
    }
    (whole > 0 || fraction > 0) && (tail.len() == 0 || exponent(tail))
}

/// The executable form of [`is_real_literal`].
pub fn real_literal(cs: &[char]) -> (r: bool)
    ensures
        r == is_real_literal(cs@),
{
    let t: &[char] = if cs.len() > 0 && (cs[0] == '+' || cs[0] == '-') { skip(cs, 1) } else { cs };
    if decimal(t) {
        return true;
    }
    let lowered: Vec<char> = crate::text::class::to_ascii_lower(t);
    let word: &[char] = lowered.as_slice();
    crate::text::chars::is_word(word, "inf") || crate::text::chars::is_word(word, "infinity")
        || crate::text::chars::is_word(word, "nan")
}

} // verus!
