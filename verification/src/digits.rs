//! Decimal text: rendering non-negative integers as decimal strings
//! (optionally zero-padded) and parsing decimal strings back, specified
//! over character sequences.

use vstd::prelude::*;
use crate::text::{char_repeat, push_char};

verus! {

/// The ten decimal digit characters.
pub open spec fn is_ascii_digit(c: char) -> bool {
    '0' <= c && c <= '9'
}

/// Numeric value of a decimal digit character.
pub open spec fn digit_val(c: char) -> int
    recommends
        is_ascii_digit(c),
{
    c as int - '0' as int
}

/// Digit character for a value in `0 ..= 9`.
pub open spec fn digit_char(d: int) -> char
    recommends
        0 <= d <= 9,
{
    (('0' as u8 + d as u8) as char)
}

/// Every character of the string is a decimal digit.
pub open spec fn all_digits(s: Seq<char>) -> bool {
    forall|i: int| 0 <= i < s.len() ==> is_ascii_digit(#[trigger] s[i])
}

/// Decimal representation of a non-negative integer, most significant
/// digit first, no leading zeros (except for zero itself).
pub open spec fn spec_digits(n: int) -> Seq<char>
    recommends
        0 <= n,
    decreases n,
{
    if n < 10 {
        seq![digit_char(n)]
    } else {
        spec_digits(n / 10).push(digit_char(n % 10))
    }
}

/// Value of a string of decimal digits, most significant first.
pub open spec fn dec_value(s: Seq<char>) -> int
    recommends
        all_digits(s),
    decreases s.len(),
{
    if s.len() == 0 {
        0
    } else {
        dec_value(s.drop_last()) * 10 + digit_val(s.last())
    }
}

/// Decimal representation of `n` left-padded with zeros to at least
/// `width` characters.
pub open spec fn spec_zero_padded(n: int, width: int) -> Seq<char>
    recommends
        0 <= n,
{
    let d = spec_digits(n);
    if d.len() >= width {
        d
    } else {
        char_repeat('0', width - d.len()) + d
    }
}

/// Powers of ten.
pub open spec fn pow10(k: int) -> int
    decreases k,
{
    if k <= 0 {
        1
    } else {
        10 * pow10(k - 1)
    }
}

/// The value of two digit strings laid end to end: the left value shifted
/// by the length of the right, plus the right value.
proof fn lemma_dec_value_concat(x: Seq<char>, y: Seq<char>)
    ensures
        dec_value(x + y) == dec_value(x) * pow10(y.len() as int) + dec_value(y),
    decreases y.len(),
{
    if y.len() == 0 {
        assert(x + y =~= x);
    } else {
        assert((x + y).drop_last() =~= x + y.drop_last());
        assert((x + y).last() == y.last());
        lemma_dec_value_concat(x, y.drop_last());
        assert((dec_value(x) * pow10(y.len() - 1) + dec_value(y.drop_last())) * 10 + digit_val(
            y.last(),
        ) == dec_value(x) * (10 * pow10(y.len() - 1)) + (dec_value(y.drop_last()) * 10
            + digit_val(y.last()))) by (nonlinear_arith);
    }
}

/// A run of zeros is all digits and has value zero.
proof fn lemma_dec_value_zeros(k: int)
    requires
        0 <= k,
    ensures
        all_digits(char_repeat('0', k)),
        dec_value(char_repeat('0', k)) == 0,
    decreases k,
{
    if k == 0 {
        assert(char_repeat('0', 0) =~= Seq::<char>::empty());
    } else {
        assert(char_repeat('0', k).drop_last() =~= char_repeat('0', k - 1));
        lemma_dec_value_zeros(k - 1);
    }
}

/// Rendering a number in decimal and reading the digits back returns the
/// number; the rendering is never empty and is all digits.
pub proof fn lemma_digits_roundtrip(n: int)
    requires
        0 <= n,
    ensures
        all_digits(spec_digits(n)),
        dec_value(spec_digits(n)) == n,
        spec_digits(n).len() >= 1,
    decreases n,
{
    if n < 10 {
        let s = spec_digits(n);
        assert(s == seq![digit_char(n)]);
        assert(s.drop_last() =~= Seq::<char>::empty());
        assert(is_ascii_digit(digit_char(n)));
        assert(digit_val(digit_char(n)) == n);
        assert(dec_value(s) == dec_value(s.drop_last()) * 10 + digit_val(s.last()));
        assert(dec_value(s.drop_last()) == 0);
        assert(forall|i: int| 0 <= i < s.len() ==> is_ascii_digit(#[trigger] s[i]));
    } else {
        vstd::arithmetic::div_mod::lemma_fundamental_div_mod(n, 10);
        assert(n / 10 < n && 1 <= n / 10 && 0 <= n % 10 < 10) by (nonlinear_arith)
            requires
                10 <= n,
                n == 10 * (n / 10) + n % 10,
                0 <= n % 10 < 10,
        ;
        lemma_digits_roundtrip(n / 10);
        let s = spec_digits(n);
        assert(s == spec_digits(n / 10).push(digit_char(n % 10)));
        assert(s.drop_last() =~= spec_digits(n / 10));
        assert(s.last() == digit_char(n % 10));
        assert(digit_val(digit_char(n % 10)) == n % 10);
        assert(dec_value(s) == dec_value(s.drop_last()) * 10 + digit_val(s.last()));
        assert(dec_value(s) == (n / 10) * 10 + n % 10);
        assert((n / 10) * 10 + n % 10 == n);
        assert forall|i: int| 0 <= i < s.len() implies is_ascii_digit(#[trigger] s[i]) by {
            if i < s.len() - 1 {
                assert(s[i] == spec_digits(n / 10)[i]);
            } else {
                assert(s[i] == digit_char(n % 10));
            }
        }
    }
}

/// The zero-padded rendering is all digits and still reads back as the
/// number.
pub proof fn lemma_zero_padded_value(n: int, w: int)
    requires
        0 <= n,
    ensures
        all_digits(spec_zero_padded(n, w)),
        dec_value(spec_zero_padded(n, w)) == n,
        spec_zero_padded(n, w).len() >= 1,
    decreases w,
{
    lemma_digits_roundtrip(n);
    let d = spec_digits(n);
    if d.len() < w {
        let k = w - d.len();
        lemma_dec_value_zeros(k);
        lemma_dec_value_concat(char_repeat('0', k), d);
        assert(0 * pow10(d.len() as int) == 0) by (nonlinear_arith);
        assert forall|i: int|
            0 <= i < spec_zero_padded(n, w).len() implies is_ascii_digit(
            #[trigger] spec_zero_padded(n, w)[i],
        ) by {
            if i < k {
                assert(spec_zero_padded(n, w)[i] == char_repeat('0', k)[i]);
            } else {
                assert(spec_zero_padded(n, w)[i] == d[i - k]);
            }
        }
    }
}

/// Law: the zero-padded rendering pins the number down — equal renderings
/// mean equal numbers.
pub proof fn lemma_zero_padded_injective(a: int, b: int, w: int)
    requires
        0 <= a,
        0 <= b,
        spec_zero_padded(a, w) == spec_zero_padded(b, w),
    ensures
        a == b,
{
    lemma_zero_padded_value(a, w);
    lemma_zero_padded_value(b, w);
}

/// The digit character for a value in `0 ..= 9`.
fn digit_char_of(d: u64) -> (c: char)
    requires
        d <= 9,
    ensures
        c == digit_char(d as int),
{
    match d {
        0 => '0',
        1 => '1',
        2 => '2',
        3 => '3',
        4 => '4',
        5 => '5',
        6 => '6',
        7 => '7',
        8 => '8',
        _ => '9',
    }
}

/// Renders a non-negative integer in decimal.
pub fn u64_to_string(n: u64) -> (s: String)
    ensures
        s@ == spec_digits(n as int),
    decreases n,
{
    if n < 10 {
        let mut s = String::new();
        push_char(&mut s, digit_char_of(n));
        proof {
            assert(Seq::<char>::empty() + seq![digit_char(n as int)] =~= seq![
                digit_char(n as int),
            ]);
        }
        s
    } else {
        proof {
            assert(n as int / 10 < n as int) by (nonlinear_arith)
                requires
                    10 <= n as int,
            ;
        }
        let mut s = u64_to_string(n / 10);
        push_char(&mut s, digit_char_of(n % 10));
        proof {
            assert(spec_digits(n as int / 10) + seq![digit_char(n as int % 10)] =~= spec_digits(
                n as int / 10,
            ).push(digit_char(n as int % 10)));
        }
        s
    }
}

/// Renders a non-negative integer in decimal, left-padded with zeros to at
/// least `width` characters.
pub fn u64_to_zero_padded(n: u64, width: usize) -> (s: String)
    ensures
        s@ == spec_zero_padded(n as int, width as int),
{
    let digits = u64_to_string(n);
    let dl = digits.as_str().unicode_len();
    if dl >= width {
        proof {
            assert(digits@ == spec_zero_padded(n as int, width as int));
        }
        return digits;
    }
    let pad = crate::text::repeat_char('0', width - dl);
    pad.concat(digits.as_str())
}

/// Parsed value of a decimal string with an optional leading minus sign,
/// when it is well formed and its magnitude stays within `i32::MAX`.
pub open spec fn spec_parse_i32(s: Seq<char>) -> Option<int> {
    if s.len() >= 1 && s[0] == '-' {
        if s.len() >= 2 && all_digits(s.skip(1)) && dec_value(s.skip(1)) <= i32::MAX as int {
            Some(-dec_value(s.skip(1)))
        } else {
            None
        }
    } else if s.len() >= 1 && all_digits(s) && dec_value(s) <= i32::MAX as int {
        Some(dec_value(s))
    } else {
        None
    }
}

/// A digit string's value is non-negative, and appending a digit scales it.
proof fn lemma_dec_value_take(s: Seq<char>, i: int)
    requires
        0 <= i < s.len(),
        forall|k: int| 0 <= k <= i ==> is_ascii_digit(#[trigger] s[k]),
    ensures
        dec_value(s.take(i + 1)) == dec_value(s.take(i)) * 10 + digit_val(s[i]),
        dec_value(s.take(i)) >= 0,
    decreases i,
{
    assert(s.take(i + 1).drop_last() =~= s.take(i));
    assert(s.take(i + 1).last() == s[i]);
    assert(forall|k: int|
        0 <= k < s.take(i + 1).len() ==> is_ascii_digit(#[trigger] s.take(i + 1)[k]));
    if i == 0 {
        assert(s.take(0) =~= Seq::<char>::empty());
    } else {
        lemma_dec_value_take(s, i - 1);
        assert(dec_value(s.take(i)) == dec_value(s.take(i - 1)) * 10 + digit_val(s[i - 1]));
        assert(dec_value(s.take(i - 1)) * 10 >= 0) by (nonlinear_arith)
            requires
                dec_value(s.take(i - 1)) >= 0,
        ;
    }
}

/// Once a digit-string prefix exceeds `i32::MAX`, every longer prefix does.
proof fn lemma_dec_value_grows(s: Seq<char>, i: int)
    requires
        0 <= i < s.len(),
        forall|k: int| 0 <= k <= i ==> is_ascii_digit(#[trigger] s[k]),
    ensures
        dec_value(s.take(i + 1)) >= dec_value(s.take(i)),
{
    lemma_dec_value_take(s, i);
    assert(dec_value(s.take(i)) * 10 >= dec_value(s.take(i))) by (nonlinear_arith)
        requires
            dec_value(s.take(i)) >= 0,
    ;
}

/// Prefix growth carried to the whole string.
proof fn lemma_dec_value_prefix_le(s: Seq<char>, i: int)
    requires
        0 <= i <= s.len(),
        all_digits(s),
    ensures
        dec_value(s.take(i)) <= dec_value(s),
    decreases s.len() - i,
{
    if i == s.len() {
        assert(s.take(i) =~= s);
    } else {
        lemma_dec_value_grows(s, i);
        lemma_dec_value_prefix_le(s, i + 1);
    }
}

/// Parses the digits of `s` starting at `from`, all of which must be
/// checked by the caller to exist; returns the value when every character
/// from `from` on is a digit, there is at least one, and the value fits.
fn parse_digits(s: &str, from: usize) -> (r: Option<i32>)
    requires
        from as int <= s@.len(),
    ensures
        match r {
            Some(v) => {
                &&& all_digits(s@.skip(from as int))
                &&& s@.len() - from >= 1
                &&& v as int == dec_value(s@.skip(from as int))
            },
            None => s@.len() - from < 1 || !all_digits(s@.skip(from as int)) || dec_value(
                s@.skip(from as int),
            ) > i32::MAX as int,
        },
{
    let l = s.unicode_len();
    if from >= l {
        return None;
    }
    let ghost t = s@.skip(from as int);
    let mut acc: u64 = 0;
    let mut i: usize = from;
    while i < l
        invariant
            from <= i <= l,
            l == s@.len(),
            t == s@.skip(from as int),
            t.len() == l - from,
            forall|k: int| 0 <= k < i - from ==> is_ascii_digit(#[trigger] t[k]),
            acc as int == dec_value(t.take(i - from)),
            acc <= i32::MAX as u64,
        decreases l - i,
    {
        let c = s.get_char(i);
        let cv: u32 = c as u32;
        if cv < 48 || cv > 57 {
            proof {
                assert(t[i - from] == s@[i as int]);
                assert(!is_ascii_digit(t[i - from]));
            }
            return None;
        }
        let d: u64 = (cv - 48) as u64;
        proof {
            assert(t[i - from] == s@[i as int]);
            assert(is_ascii_digit(t[i - from]));
            assert(digit_val(t[i - from]) == d as int);
            lemma_dec_value_take(t, i - from);
        }
        let next: u64 = acc * 10 + d;
        if next > i32::MAX as u64 {
            proof {
                assert(dec_value(t.take(i - from + 1)) > i32::MAX as int);
            }
            return parse_digits_overflow(s, from, i);
        }
        acc = next;
        i = i + 1;
    }
    proof {
        assert(t.take(t.len() as int) =~= t);
        assert(all_digits(t));
    }
    Some(acc as i32)
}

/// The overflow tail of `parse_digits`: the digits seen so far already
/// exceed `i32::MAX`, so the parse fails whatever follows — unless a later
/// character is not a digit, in which case it fails for that reason.
fn parse_digits_overflow(s: &str, from: usize, at: usize) -> (r: Option<i32>)
    requires
        from <= at,
        (at as int) < s@.len(),
        forall|k: int|
            0 <= k <= at - from ==> is_ascii_digit(#[trigger] s@.skip(from as int)[k]),
        dec_value(s@.skip(from as int).take(at - from + 1)) > i32::MAX as int,
    ensures
        r is None,
        !all_digits(s@.skip(from as int)) || dec_value(s@.skip(from as int)) > i32::MAX as int,
{
    let ghost t = s@.skip(from as int);
    let l = s.unicode_len();
    let mut i: usize = at + 1;
    while i < l
        invariant
            at + 1 <= i <= l,
            l == s@.len(),
            t == s@.skip(from as int),
            t.len() == l - from,
            from <= at < l,
            forall|k: int| 0 <= k <= at - from ==> is_ascii_digit(#[trigger] t[k]),
            dec_value(t.take(at - from + 1)) > i32::MAX as int,
            forall|k: int| at - from < k < i - from ==> is_ascii_digit(#[trigger] t[k]),
        decreases l - i,
    {
        let c = s.get_char(i);
        let cv: u32 = c as u32;
        if cv < 48 || cv > 57 {
            proof {
                assert(t[i - from] == s@[i as int]);
                assert(!is_ascii_digit(t[i - from]));
            }
            return None;
        }
        i = i + 1;
    }
    proof {
        assert(all_digits(t));
        lemma_overflow_whole(t, at - from);
    }
    None
}

/// If some prefix of a digit string exceeds `i32::MAX`, so does the whole.
proof fn lemma_overflow_whole(t: Seq<char>, j: int)
    requires
        all_digits(t),
        0 <= j < t.len(),
        dec_value(t.take(j + 1)) > i32::MAX as int,
    ensures
        dec_value(t) > i32::MAX as int,
    decreases t.len() - j,
{
    if j + 1 == t.len() {
        assert(t.take(j + 1) =~= t);
    } else {
        lemma_dec_value_grows(t, j + 1);
        lemma_overflow_whole(t, j + 1);
    }
}

/// Parses a decimal integer with an optional leading minus sign, as the
/// configuration and key-sequence readers need.
pub fn parse_i32(s: &str) -> (r: Option<i32>)
    ensures
        match r {
            Some(v) => spec_parse_i32(s@) == Some(v as int),
            None => spec_parse_i32(s@) is None,
        },
{
    let l = s.unicode_len();
    if l == 0 {
        return None;
    }
    if s.get_char(0) == '-' {
        let mag = parse_digits(s, 1);
        proof {
            if s@.len() >= 2 && all_digits(s@.skip(1)) {
                lemma_dec_value_nonneg(s@.skip(1));
            }
        }
        match mag {
            Some(v) => Some(0 - v),
            None => None,
        }
    } else {
        proof {
            assert(s@.skip(0) =~= s@);
        }
        parse_digits(s, 0)
    }
}

/// A digit string's value is never negative.
proof fn lemma_dec_value_nonneg(s: Seq<char>)
    requires
        all_digits(s),
    ensures
        dec_value(s) >= 0,
    decreases s.len(),
{
    if s.len() > 0 {
        assert(forall|k: int|
            0 <= k < s.drop_last().len() ==> is_ascii_digit(#[trigger] s.drop_last()[k]));
        lemma_dec_value_nonneg(s.drop_last());
        assert(dec_value(s.drop_last()) * 10 >= 0) by (nonlinear_arith)
            requires
                dec_value(s.drop_last()) >= 0,
        ;
    }
}

} // verus!
