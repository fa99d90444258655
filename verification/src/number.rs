//! Decimal numbers as text: reading and writing integers, and reading
//! fixed-point values in thousandths.

use vstd::prelude::*;
use vstd::slice::*;
use crate::text::{
    ascii_lowered, find_char, first_index, lemma_first_index, push_char,
    same_text_ignore_ascii_case,
};

verus! {

/// Whether a character is one of the ten ASCII digits.
pub open spec fn is_digit(c: char) -> bool {
    '0' <= c && c <= '9'
}

/// The value of a decimal digit.
pub open spec fn digit_value(c: char) -> int {
    c as int - '0' as int
}

/// The character of a decimal digit.
pub open spec fn digit_char(d: int) -> char {
    (d + 48) as u8 as char
}

/// Whether a text holds nothing but digits.
pub open spec fn all_digits(s: Seq<char>) -> bool {
    forall|i: int| 0 <= i < s.len() ==> is_digit(#[trigger] s[i])
}

/// The number that a run of decimal digits writes, most significant first.
pub open spec fn decimal_value(s: Seq<char>) -> int
    decreases s.len(),
{
    if s.len() == 0 {
        0
    } else {
        decimal_value(s.drop_last()) * 10 + digit_value(s.last())
    }
}

/// The decimal digits of `n`, without leading zeros.
pub open spec fn decimal_text(n: nat) -> Seq<char>
    decreases n,
{
    if n < 10 {
        seq![digit_char(n as int)]
    } else {
        decimal_text(n / 10).push(digit_char((n % 10) as int))
    }
}

/// Reading back what `decimal_text` wrote gives the number again.
pub proof fn lemma_decimal_round_trip(n: nat)
    ensures
        all_digits(decimal_text(n)),
        decimal_text(n).len() > 0,
        decimal_value(decimal_text(n)) == n,
    decreases n,
{
    if n < 10 {
        let s = decimal_text(n);
        assert(s.drop_last() =~= Seq::<char>::empty());
        assert(decimal_value(s.drop_last()) == 0);
    } else {
        lemma_decimal_round_trip(n / 10);
        let s = decimal_text(n);
        assert(s.drop_last() =~= decimal_text(n / 10));
    }
}

/// A run of digits is worth at least as much as any of its prefixes.
pub proof fn lemma_decimal_value_prefix(s: Seq<char>, k: int)
    requires
        all_digits(s),
        0 <= k <= s.len(),
    ensures
        0 <= decimal_value(s.take(k)) <= decimal_value(s),
    decreases s.len() - k,
{
    lemma_decimal_value_nonneg(s.take(k));
    if k == s.len() {
        assert(s.take(k) =~= s);
    } else {
        lemma_decimal_value_prefix(s, k + 1);
        assert(s.take(k + 1).drop_last() =~= s.take(k));
        assert(is_digit(s[k]));
        assert(s.take(k + 1).last() == s[k]);
    }
}

/// A run of digits is worth no less than zero.
pub proof fn lemma_decimal_value_nonneg(s: Seq<char>)
    requires
        all_digits(s),
    ensures
        0 <= decimal_value(s),
    decreases s.len(),
{
    if s.len() > 0 {
        assert(is_digit(s[s.len() - 1]));
        lemma_decimal_value_nonneg(s.drop_last());
    }
}

/// Tells whether a character is a digit.
pub fn is_digit_char(c: char) -> (digit: bool)
    ensures
        digit == is_digit(c),
{
    '0' <= c && c <= '9'
}

/// Appends the decimal digits of `n` to `out`.
pub fn append_decimal(out: &mut String, n: u64)
    ensures
        final(out)@ == old(out)@ + decimal_text(n as nat),
    decreases n,
{
    if n >= 10 {
        append_decimal(out, n / 10);
    }
    let d: u8 = (n % 10) as u8;
    push_char(out, (48u8 + d) as char);
    proof {
        if n >= 10 {
            assert(out@ =~= old(out)@ + decimal_text(n as nat));
        } else {
            assert(out@ =~= old(out)@ + decimal_text(n as nat));
        }
    }
}

/// The decimal digits of `n` as a string.
pub fn decimal_string(n: u64) -> (s: String)
    ensures
        s@ == decimal_text(n as nat),
{
    let mut s = String::new();
    append_decimal(&mut s, n);
    assert(Seq::<char>::empty() + decimal_text(n as nat) =~= decimal_text(n as nat));
    s
}

/// What a non-empty run of decimal digits is worth; `None` for anything else.
pub open spec fn unsigned_value(s: Seq<char>) -> Option<int> {
    if s.len() > 0 && all_digits(s) {
        Some(decimal_value(s))
    } else {
        None
    }
}

/// A value, kept only where it does not exceed `limit`.
pub open spec fn within(v: Option<int>, limit: int) -> Option<int> {
    match v {
        Some(n) if n <= limit => Some(n),
        _ => None,
    }
}

/// Reads a non-empty run of decimal digits worth at most `limit`.
pub fn parse_unsigned(chars: &[char], limit: u64) -> (value: Option<u64>)
    ensures
        match within(unsigned_value(chars@), limit as int) {
            Some(n) => value == Some(n as u64),
            None => value.is_none(),
        },
{
    if chars.len() == 0 {
        return None;
    }
    let mut acc: u64 = 0;
    let mut i: usize = 0;
    assert(chars@.take(0) =~= Seq::<char>::empty());
    while i < chars.len()
        invariant
            i <= chars.len(),
            all_digits(chars@.take(i as int)),
            acc == decimal_value(chars@.take(i as int)),
            acc <= limit,
        decreases chars.len() - i,
    {
        let c = chars[i];
        if !is_digit_char(c) {
            return None;
        }
        let d: u64 = (c as u32 - '0' as u32) as u64;
        proof {
            assert(chars@.take(i + 1).drop_last() =~= chars@.take(i as int));
            assert(chars@.take(i + 1).last() == c);
            assert forall|k: int| 0 <= k < i + 1 implies is_digit(#[trigger] chars@.take(i + 1)[k]) by {
                if k < i {
                    assert(chars@.take(i as int)[k] == chars@[k]);
                }
            }
            assert(decimal_value(chars@.take(i + 1)) == acc * 10 + d);
        }
        if limit < d || acc > (limit - d) / 10 {
            proof {
                assert(acc * 10 + d > limit);
                if all_digits(chars@) {
                    lemma_decimal_value_prefix(chars@, i + 1);
                }
            }
            return None;
        }
        acc = acc * 10 + d;
        i = i + 1;
    }
    assert(chars@.take(chars@.len() as int) =~= chars@);
    Some(acc)
}

/// What a decimal integer with an optional sign is worth: `+` or `-`, then a
/// non-empty run of digits.
pub open spec fn signed_value(s: Seq<char>) -> Option<int> {
    if s.len() > 0 && s[0] == '-' {
        match unsigned_value(s.skip(1)) {
            Some(n) => Some(-n),
            None => None,
        }
    } else if s.len() > 0 && s[0] == '+' {
        unsigned_value(s.skip(1))
    } else {
        unsigned_value(s)
    }
}

/// The 32-bit signed integer that `s` writes, if it writes one.
pub open spec fn i32_value(s: Seq<char>) -> Option<int> {
    match signed_value(s) {
        Some(n) if i32::MIN <= n <= i32::MAX => Some(n),
        _ => None,
    }
}

/// Reads a decimal integer with an optional sign that fits in 32 bits.
pub fn parse_i32(chars: &[char]) -> (value: Option<i32>)
    ensures
        match i32_value(chars@) {
            Some(n) => value == Some(n as i32),
            None => value.is_none(),
        },
{
    if chars.len() > 0 && chars[0] == '-' {
        let rest = slice_subrange(chars, 1, chars.len());
        assert(rest@ =~= chars@.skip(1));
        proof {
            if unsigned_value(rest@).is_some() {
                lemma_decimal_value_nonneg(rest@);
            }
        }
        match parse_unsigned(rest, 2147483648) {
            Some(n) => {
                if n == 2147483648 {
                    Some(i32::MIN)
                } else {
                    Some(-(n as i32))
                }
            },
            None => None,
        }
    } else if chars.len() > 0 && chars[0] == '+' {
        let rest = slice_subrange(chars, 1, chars.len());
        assert(rest@ =~= chars@.skip(1));
        proof {
            if unsigned_value(rest@).is_some() {
                lemma_decimal_value_nonneg(rest@);
            }
        }
        match parse_unsigned(rest, 2147483647) {
            Some(n) => Some(n as i32),
            None => None,
        }
    } else {
        proof {
            if unsigned_value(chars@).is_some() {
                lemma_decimal_value_nonneg(chars@);
            }
        }
        match parse_unsigned(chars, 2147483647) {
            Some(n) => Some(n as i32),
            None => None,
        }
    }
}

/// The 32-bit unsigned integer that `s` writes, if it writes one: an
/// optional `+`, then a non-empty run of digits.
pub open spec fn u32_value(s: Seq<char>) -> Option<int> {
    if s.len() > 0 && s[0] == '+' {
        within(unsigned_value(s.skip(1)), u32::MAX as int)
    } else {
        within(unsigned_value(s), u32::MAX as int)
    }
}

/// Reads a decimal integer that fits in 32 bits without a sign bit.
pub fn parse_u32(chars: &[char]) -> (value: Option<u32>)
    ensures
        match u32_value(chars@) {
            Some(n) => value == Some(n as u32),
            None => value.is_none(),
        },
{
    let digits = if chars.len() > 0 && chars[0] == '+' {
        let rest = slice_subrange(chars, 1, chars.len());
        assert(rest@ =~= chars@.skip(1));
        rest
    } else {
        chars
    };
    proof {
        if unsigned_value(digits@).is_some() {
            lemma_decimal_value_nonneg(digits@);
        }
    }
    match parse_unsigned(digits, 4294967295) {
        Some(n) => Some(n as u32),
        None => None,
    }
}

/// What the digits after the point are worth in thousandths, rounded to
/// the nearest by the fourth digit: the first three digits, and one more
/// where the fourth is 5 or above.
pub open spec fn fraction_millis(frac: Seq<char>) -> int {
    (if frac.len() > 0 {
        digit_value(frac[0]) * 100
    } else {
        0
    }) + (if frac.len() > 1 {
        digit_value(frac[1]) * 10
    } else {
        0
    }) + (if frac.len() > 2 {
        digit_value(frac[2])
    } else {
        0
    }) + (if frac.len() > 3 && digit_value(frac[3]) >= 5 {
        1int
    } else {
        0int
    })
}

/// The digits before the point of a decimal number.
pub open spec fn whole_part(s: Seq<char>) -> Seq<char> {
    s.take(first_index(s, '.'))
}

/// The digits after the point of a decimal number; none without a point.
pub open spec fn fraction_part(s: Seq<char>) -> Seq<char> {
    if first_index(s, '.') < s.len() {
        s.skip(first_index(s, '.') + 1)
    } else {
        Seq::empty()
    }
}

/// Whether `s` is an unsigned decimal number: digits, optionally a point
/// and more digits, with at least one digit in all.
pub open spec fn is_decimal(s: Seq<char>) -> bool {
    &&& all_digits(whole_part(s))
    &&& all_digits(fraction_part(s))
    &&& whole_part(s).len() + fraction_part(s).len() > 0
}

/// What an unsigned decimal number is worth in thousandths, rounded to the
/// nearest by its fourth decimal place.
pub open spec fn millis_value(s: Seq<char>) -> Option<int> {
    if is_decimal(s) {
        Some(decimal_value(whole_part(s)) * 1000 + fraction_millis(fraction_part(s)))
    } else {
        None
    }
}

/// Whether every character of `chars` is a decimal digit.
pub fn only_digits(chars: &[char]) -> (all: bool)
    ensures
        all == all_digits(chars@),
{
    let mut i: usize = 0;
    while i < chars.len()
        invariant
            i <= chars.len(),
            forall|k: int| 0 <= k < i ==> is_digit(#[trigger] chars@[k]),
        decreases chars.len() - i,
    {
        if !is_digit_char(chars[i]) {
            return false;
        }
        i = i + 1;
    }
    true
}

/// Reads an unsigned decimal number in thousandths, where that fits in 64
/// bits.
pub fn parse_millis(chars: &[char]) -> (value: Option<u64>)
    ensures
        match within(millis_value(chars@), u64::MAX as int) {
            Some(n) => value == Some(n as u64),
            None => value.is_none(),
        },
{
    let k = find_char(chars, '.');
    proof {
        lemma_first_index(chars@, '.');
    }
    let whole = slice_subrange(chars, 0, k);
    assert(whole@ =~= whole_part(chars@));
    let frac = if k < chars.len() {
        slice_subrange(chars, k + 1, chars.len())
    } else {
        slice_subrange(chars, k, k)
    };
    assert(frac@ =~= fraction_part(chars@));
    if !only_digits(frac) || whole.len() + frac.len() == 0 {
        return None;
    }
    let mut f: u64 = 0;
    if frac.len() > 0 {
        f = f + (frac[0] as u32 - '0' as u32) as u64 * 100;
    }
    if frac.len() > 1 {
        f = f + (frac[1] as u32 - '0' as u32) as u64 * 10;
    }
    if frac.len() > 2 {
        f = f + (frac[2] as u32 - '0' as u32) as u64;
    }
    if frac.len() > 3 && frac[3] >= '5' {
        f = f + 1;
    }
    assert(f == fraction_millis(frac@));
    if whole.len() == 0 {
        assert(whole@ =~= Seq::<char>::empty());
        return Some(f);
    }
    proof {
        if all_digits(whole@) {
            lemma_decimal_value_nonneg(whole@);
        }
    }
    match parse_unsigned(whole, (u64::MAX - f) / 1000) {
        Some(w) => Some(w * 1000 + f),
        None => None,
    }
}

/// A count of thousandths written with three decimal places.
pub open spec fn fixed3_text(n: nat) -> Seq<char> {
    decimal_text(n / 1000) + seq![
        '.',
        digit_char((n / 100 % 10) as int),
        digit_char((n / 10 % 10) as int),
        digit_char((n % 10) as int),
    ]
}

/// A count of hundredths written with two decimal places.
pub open spec fn fixed2_text(n: nat) -> Seq<char> {
    decimal_text(n / 100) + seq!['.', digit_char((n / 10 % 10) as int), digit_char((n % 10) as int)]
}

/// Appends one digit.
fn push_digit(out: &mut String, d: u64)
    requires
        d < 10,
    ensures
        final(out)@ == old(out)@.push(digit_char(d as int)),
{
    push_char(out, (48u8 + d as u8) as char);
}

/// Appends `n` thousandths with three decimal places.
pub fn append_fixed3(out: &mut String, n: u64)
    ensures
        final(out)@ == old(out)@ + fixed3_text(n as nat),
{
    append_decimal(out, n / 1000);
    push_char(out, '.');
    push_digit(out, n / 100 % 10);
    push_digit(out, n / 10 % 10);
    push_digit(out, n % 10);
    assert(out@ =~= old(out)@ + fixed3_text(n as nat));
}

/// Appends `n` hundredths with two decimal places.
pub fn append_fixed2(out: &mut String, n: u64)
    ensures
        final(out)@ == old(out)@ + fixed2_text(n as nat),
{
    append_decimal(out, n / 100);
    push_char(out, '.');
    push_digit(out, n / 10 % 10);
    push_digit(out, n % 10);
    assert(out@ =~= old(out)@ + fixed2_text(n as nat));
}

/// `n` thousandths as the nearest count of whole units, a half going up.
pub open spec fn rounded_units(n: int) -> int {
    (n + 500) / 1000
}

/// `s` without a sign at its start.
pub open spec fn unsigned_part(s: Seq<char>) -> Seq<char> {
    if s.len() > 0 && (s[0] == '+' || s[0] == '-') {
        s.skip(1)
    } else {
        s
    }
}

/// Where the exponent mark of a number stands: the first `e` or `E`, or the
/// length where there is none.
pub open spec fn exponent_index(s: Seq<char>) -> int {
    if first_index(s, 'e') <= first_index(s, 'E') {
        first_index(s, 'e')
    } else {
        first_index(s, 'E')
    }
}

/// What stands before the exponent mark.
pub open spec fn mantissa(s: Seq<char>) -> Seq<char> {
    s.take(exponent_index(s))
}

/// Whether `s` is the exponent of a number: an optional sign and at least
/// one digit.
pub open spec fn is_exponent(s: Seq<char>) -> bool {
    unsigned_part(s).len() > 0 && all_digits(unsigned_part(s))
}

/// Whether `s` is a decimal number with an optional exponent.
pub open spec fn is_finite_number(s: Seq<char>) -> bool {
    is_decimal(mantissa(s)) && (exponent_index(s) == s.len() || is_exponent(
        s.skip(exponent_index(s) + 1),
    ))
}

/// Whether `s` spells infinity, in any case.
pub open spec fn is_infinity_word(s: Seq<char>) -> bool {
    ascii_lowered(s) == "inf"@ || ascii_lowered(s) == "infinity"@
}

/// Whether `s` spells "not a number", in any case.
pub open spec fn is_nan_word(s: Seq<char>) -> bool {
    ascii_lowered(s) == "nan"@
}

/// Whether `s` writes a number: an optional sign, then a decimal number
/// with an optional exponent, or one of the words for infinity and "not a
/// number".
pub open spec fn is_number(s: Seq<char>) -> bool {
    is_finite_number(unsigned_part(s)) || is_infinity_word(unsigned_part(s)) || is_nan_word(
        unsigned_part(s),
    )
}

/// Whether some digit of `s` is not zero.
pub open spec fn has_nonzero_digit(s: Seq<char>) -> bool {
    exists|i: int| 0 <= i < s.len() && '1' <= s[i] && s[i] <= '9'
}

/// Whether `s` writes a number above zero: no minus sign, and infinity or
/// a mantissa with a digit other than zero. The size of the exponent plays
/// no part.
pub open spec fn is_positive_number(s: Seq<char>) -> bool {
    &&& is_number(s)
    &&& !(s.len() > 0 && s[0] == '-')
    &&& !is_nan_word(unsigned_part(s))
    &&& (is_infinity_word(unsigned_part(s)) || has_nonzero_digit(mantissa(unsigned_part(s))))
}

/// Tells whether some digit is not zero.
fn has_nonzero_digit_in(chars: &[char]) -> (found: bool)
    ensures
        found == has_nonzero_digit(chars@),
{
    let mut i: usize = 0;
    while i < chars.len()
        invariant
            i <= chars.len(),
            forall|k: int| 0 <= k < i ==> !('1' <= chars@[k] && chars@[k] <= '9'),
        decreases chars.len() - i,
    {
        if '1' <= chars[i] && chars[i] <= '9' {
            return true;
        }
        i = i + 1;
    }
    false
}

/// Tells whether the text is an unsigned decimal number.
fn is_decimal_text(chars: &[char]) -> (decimal: bool)
    ensures
        decimal == is_decimal(chars@),
{
    let k = find_char(chars, '.');
    proof {
        lemma_first_index(chars@, '.');
    }
    let whole = slice_subrange(chars, 0, k);
    assert(whole@ =~= whole_part(chars@));
    let frac = if k < chars.len() {
        slice_subrange(chars, k + 1, chars.len())
    } else {
        slice_subrange(chars, k, k)
    };
    assert(frac@ =~= fraction_part(chars@));
    only_digits(whole) && only_digits(frac) && whole.len() + frac.len() > 0
}

/// The text after its sign, if it has one.
fn strip_sign(chars: &[char]) -> (rest: &[char])
    ensures
        rest@ == unsigned_part(chars@),
{
    if chars.len() > 0 && (chars[0] == '+' || chars[0] == '-') {
        let rest = slice_subrange(chars, 1, chars.len());
        assert(rest@ =~= chars@.skip(1));
        rest
    } else {
        chars
    }
}

/// Tells whether the text is a decimal number with an optional exponent.
fn is_finite_number_text(chars: &[char]) -> (finite: bool)
    ensures
        finite == is_finite_number(chars@),
{
    let lower = find_char(chars, 'e');
    let upper = find_char(chars, 'E');
    let at = if lower <= upper {
        lower
    } else {
        upper
    };
    proof {
        lemma_first_index(chars@, 'e');
        lemma_first_index(chars@, 'E');
    }
    let head = slice_subrange(chars, 0, at);
    assert(head@ =~= mantissa(chars@));
    if !is_decimal_text(head) {
        return false;
    }
    if at == chars.len() {
        return true;
    }
    let tail = slice_subrange(chars, at + 1, chars.len());
    assert(tail@ =~= chars@.skip(at + 1));
    let digits = strip_sign(tail);
    digits.len() > 0 && only_digits(digits)
}

/// Tells whether the text writes a number, and if so whether that number
/// is above zero.
pub fn number_sign(chars: &[char]) -> (positive: Option<bool>)
    ensures
        positive.is_some() == is_number(chars@),
        positive == Some(true) <==> is_positive_number(chars@),
{
    proof {
        reveal_strlit("inf");
        reveal_strlit("infinity");
        reveal_strlit("nan");
        assert(ascii_lowered("inf"@) =~= "inf"@);
        assert(ascii_lowered("infinity"@) =~= "infinity"@);
        assert(ascii_lowered("nan"@) =~= "nan"@);
    }
    let minus = chars.len() > 0 && chars[0] == '-';
    let body = strip_sign(chars);
    if same_text_ignore_ascii_case(body, "nan") {
        Some(false)
    } else if same_text_ignore_ascii_case(body, "inf") || same_text_ignore_ascii_case(
        body,
        "infinity",
    ) {
        Some(!minus)
    } else if is_finite_number_text(body) {
        let lower = find_char(body, 'e');
        let upper = find_char(body, 'E');
        let at = if lower <= upper {
            lower
        } else {
            upper
        };
        proof {
            lemma_first_index(body@, 'e');
            lemma_first_index(body@, 'E');
        }
        let head = slice_subrange(body, 0, at);
        assert(head@ =~= mantissa(body@));
        Some(!minus && has_nonzero_digit_in(head))
    } else {
        None
    }
}

/// Three decimal places are exactly three: a point, then three digits,
/// after the digits of the whole part.
pub proof fn lemma_fixed3_shape(n: nat)
    ensures
        fixed3_text(n).len() == decimal_text(n / 1000).len() + 4,
        fixed3_text(n).take(decimal_text(n / 1000).len() as int) == decimal_text(n / 1000),
        fixed3_text(n)[fixed3_text(n).len() - 4] == '.',
        is_digit(fixed3_text(n)[fixed3_text(n).len() - 3]),
        is_digit(fixed3_text(n)[fixed3_text(n).len() - 2]),
        is_digit(fixed3_text(n)[fixed3_text(n).len() - 1]),
{
    let whole = decimal_text(n / 1000);
    let text = fixed3_text(n);
    assert(text.take(whole.len() as int) =~= whole);
}

/// The digits `a`, `b`, `c` written in a row are worth `100a + 10b + c`.
pub proof fn lemma_three_digits(a: int, b: int, c: int)
    requires
        0 <= a <= 9,
        0 <= b <= 9,
        0 <= c <= 9,
    ensures
        decimal_value(seq![digit_char(a), digit_char(b), digit_char(c)]) == 100 * a + 10 * b + c,
{
    let x = digit_char(a);
    let y = digit_char(b);
    let z = digit_char(c);
    assert(seq![x].drop_last() =~= Seq::<char>::empty());
    assert(seq![x, y].drop_last() =~= seq![x]);
    assert(seq![x, y, z].drop_last() =~= seq![x, y]);
    assert(decimal_value(Seq::<char>::empty()) == 0);
    assert(decimal_value(seq![x]) == a);
    assert(decimal_value(seq![x, y]) == 10 * a + b);
}

/// What `fixed3_text` writes is worth the number: the whole part before the
/// point, the thousandths after it.
pub proof fn lemma_fixed3_value(n: nat)
    ensures
        decimal_value(decimal_text(n / 1000)) == n / 1000,
        decimal_value(fixed3_text(n).skip(fixed3_text(n).len() - 3)) == n % 1000,
{
    lemma_decimal_round_trip(n / 1000);
    let a = (n / 100 % 10) as int;
    let b = (n / 10 % 10) as int;
    let c = (n % 10) as int;
    let whole = decimal_text(n / 1000);
    let tail = seq!['.', digit_char(a), digit_char(b), digit_char(c)];
    let digits = seq![digit_char(a), digit_char(b), digit_char(c)];
    assert(fixed3_text(n) == whole + tail);
    assert((whole + tail).skip(whole.len() as int + 1) =~= digits);
    lemma_three_digits(a, b, c);
    lemma_last_three_digits(n);
}

/// The last three decimal digits of a number make up what is left of it
/// after the thousands.
pub proof fn lemma_last_three_digits(n: nat)
    ensures
        100 * (n / 100 % 10) + 10 * (n / 10 % 10) + n % 10 == n % 1000,
{
    let x = n as int;
    vstd::arithmetic::div_mod::lemma_div_denominator(x, 10, 10);
    vstd::arithmetic::div_mod::lemma_div_denominator(x, 100, 10);
    let q1 = x / 10;
    let q2 = x / 100;
    let q3 = x / 1000;
    assert(q2 == q1 / 10);
    assert(q3 == q2 / 10);
    assert(x == 10 * q1 + x % 10);
    assert(q1 == 10 * q2 + q1 % 10);
    assert(q2 == 10 * q3 + q2 % 10);
    assert(x == 1000 * q3 + x % 1000);
}

} // verus!
