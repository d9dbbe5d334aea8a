//! Decimal numerals in ASCII text: unsigned integers and floating-point
//! literals, each as a grammar over bytes with a recogniser proved against it.

use vstd::prelude::*;

verus! {

/// `+`
pub const PLUS: u8 = 0x2b;

/// `-`
pub const MINUS: u8 = 0x2d;

/// `.`
pub const POINT: u8 = 0x2e;

/// `0`
pub const ZERO: u8 = 0x30;

/// `9`
pub const NINE: u8 = 0x39;

/// `E`
pub const UPPER_E: u8 = 0x45;

/// `e`
pub const LOWER_E: u8 = 0x65;

/// Whether `b` is one of the ASCII digits `0` to `9`.
pub open spec fn is_digit(b: u8) -> bool {
    ZERO <= b <= NINE
}

/// Whether every byte of `s` is an ASCII digit.
pub open spec fn all_digits(s: Seq<u8>) -> bool {
    forall|i: int| 0 <= i < s.len() ==> is_digit(#[trigger] s[i])
}

/// The number that a string of ASCII digits denotes, most significant digit
/// first. The empty string denotes zero.
pub open spec fn digits_value(s: Seq<u8>) -> nat
    decreases s.len(),
{
    if s.len() == 0 {
        0
    } else {
        digits_value(s.drop_last()) * 10 + (s.last() - ZERO) as nat
    }
}

/// The number that an unsigned decimal literal denotes: an optional `+`
/// followed by one or more digits and nothing else. Leading zeros count as
/// digits; a `-`, a blank or an empty string make it no literal.
pub open spec fn unsigned_literal(s: Seq<u8>) -> Option<nat> {
    let digits = if s.len() > 0 && s[0] == PLUS {
        s.skip(1)
    } else {
        s
    };
    if digits.len() > 0 && all_digits(digits) {
        Some(digits_value(digits))
    } else {
        None
    }
}

/// The value of an unsigned decimal literal that is at most `max`.
pub open spec fn literal_up_to(s: Seq<u8>, max: nat) -> Option<nat> {
    match unsigned_literal(s) {
        Some(v) => if v <= max {
            Some(v)
        } else {
            None
        },
        None => None,
    }
}

/// The value of an unsigned decimal literal that fits in 32 bits.
pub open spec fn u32_literal(s: Seq<u8>) -> Option<u32> {
    match literal_up_to(s, u32::MAX as nat) {
        Some(v) => Some(v as u32),
        None => None,
    }
}

/// The value of an unsigned decimal literal that fits in 8 bits.
pub open spec fn u8_literal(s: Seq<u8>) -> Option<u8> {
    match literal_up_to(s, u8::MAX as nat) {
        Some(v) => Some(v as u8),
        None => None,
    }
}

/// A digit string denotes at least as much as each of its prefixes.
pub proof fn lemma_digits_value_prefix(s: Seq<u8>, k: int)
    requires
        0 <= k <= s.len(),
    ensures
        digits_value(s.take(k)) <= digits_value(s),
    decreases s.len() - k,
{
    if k == s.len() {
        assert(s.take(k) =~= s);
    } else {
        lemma_digits_value_prefix(s.drop_last(), k);
        assert(s.drop_last().take(k) =~= s.take(k));
    }
}

/// Reads an unsigned decimal literal of value at most `max`.
fn parse_up_to(text: &[u8], max: u32) -> (r: Option<u32>)
    ensures
        match r {
            Some(v) => literal_up_to(text@, max as nat) == Some(v as nat),
            None => literal_up_to(text@, max as nat) is None,
        },
{
    let n = text.len();
    let start: usize = if n > 0 && text[0] == PLUS {
        1
    } else {
        0
    };
    let ghost digits = text@.subrange(start as int, n as int);
    assert(digits =~= if text@.len() > 0 && text@[0] == PLUS {
        text@.skip(1)
    } else {
        text@
    });
    if start == n {
        return None;
    }
    let mut acc: u32 = 0;
    let mut i: usize = start;
    while i < n
        invariant
            start <= i <= n,
            n == text@.len(),
            digits == text@.subrange(start as int, n as int),
            digits == if text@.len() > 0 && text@[0] == PLUS {
                text@.skip(1)
            } else {
                text@
            },
            all_digits(digits.take(i - start)),
            acc == digits_value(digits.take(i - start)),
            acc <= max,
        decreases n - i,
    {
        let b = text[i];
        if b < ZERO || b > NINE {
            assert(!is_digit(digits[i - start]));
            return None;
        }
        let d: u32 = (b - ZERO) as u32;
        proof {
            let next = digits.take(i - start + 1);
            assert(next.drop_last() =~= digits.take(i - start));
            assert(all_digits(next));
            lemma_digits_value_prefix(digits, i - start + 1);
        }
        if d > max || acc > (max - d) / 10 {
            return None;
        }
        acc = acc * 10 + d;
        i += 1;
    }
    proof {
        assert(digits.take(i - start) =~= digits);
    }
    Some(acc)
}

/// Reads an unsigned decimal literal that fits in 32 bits, as
/// `u32::from_str` does.
pub fn parse_u32(text: &[u8]) -> (r: Option<u32>)
    ensures
        r == u32_literal(text@),
{
    parse_up_to(text, u32::MAX)
}

/// Reads an unsigned decimal literal that fits in 8 bits, as `u8::from_str`
/// does.
pub fn parse_u8(text: &[u8]) -> (r: Option<u8>)
    ensures
        r == u8_literal(text@),
{
    match parse_up_to(text, 255) {
        Some(v) => Some(v as u8),
        None => None,
    }
}

/// Whether `b` is `+` or `-`.
pub open spec fn is_sign(b: u8) -> bool {
    b == PLUS || b == MINUS
}

/// `s` without the sign that it may begin with.
pub open spec fn without_sign(s: Seq<u8>) -> Seq<u8> {
    if s.len() > 0 && is_sign(s[0]) {
        s.skip(1)
    } else {
        s
    }
}

/// The index at which the run of digits that begins at index `from` ends:
/// that of the first byte at or after `from` that is no digit, or the length
/// of `s`.
pub open spec fn digits_end(s: Seq<u8>, from: int) -> int
    decreases s.len() - from,
{
    if 0 <= from < s.len() && is_digit(s[from]) {
        digits_end(s, from + 1)
    } else {
        from
    }
}

/// An ASCII capital letter as its small letter; any other byte unchanged.
pub open spec fn to_lower(b: u8) -> u8 {
    if 0x41 <= b <= 0x5a {
        (b + 0x20) as u8
    } else {
        b
    }
}

/// Whether `s` is `word` when its capital letters are read as small ones.
pub open spec fn spells(s: Seq<u8>, word: Seq<u8>) -> bool {
    &&& s.len() == word.len()
    &&& forall|i: int| 0 <= i < s.len() ==> to_lower(#[trigger] s[i]) == word[i]
}

/// The bytes of `inf`.
pub open spec fn word_inf() -> Seq<u8> {
    seq![0x69u8, 0x6eu8, 0x66u8]
}

/// The bytes of `infinity`.
pub open spec fn word_infinity() -> Seq<u8> {
    seq![0x69u8, 0x6eu8, 0x66u8, 0x69u8, 0x6eu8, 0x69u8, 0x74u8, 0x79u8]
}

/// The bytes of `nan`.
pub open spec fn word_nan() -> Seq<u8> {
    seq![0x6eu8, 0x61u8, 0x6eu8]
}

/// `inf`, `infinity` or `nan`, in small or capital letters.
pub open spec fn is_special(s: Seq<u8>) -> bool {
    spells(s, word_inf()) || spells(s, word_infinity()) || spells(s, word_nan())
}

/// Nothing, or an exponent: `e` or `E`, an optional sign, one or more digits.
pub open spec fn is_optional_exponent(s: Seq<u8>) -> bool {
    s.len() == 0 || {
        let digits = without_sign(s.skip(1));
        &&& s[0] == LOWER_E || s[0] == UPPER_E
        &&& digits.len() > 0
        &&& all_digits(digits)
    }
}

/// Whether `s` is a decimal number whose digits before the point end at
/// index `point` and whose exponent, if it has one, begins at index `end`.
/// Between the two stands nothing, or a point and the digits after it.
pub open spec fn is_number_with(s: Seq<u8>, point: int, end: int) -> bool {
    &&& 0 <= point <= end <= s.len()
    &&& all_digits(s.subrange(0, point))
    &&& end > point ==> s[point] == POINT && all_digits(s.subrange(point + 1, end))
    &&& point > 0 || end > point + 1
    &&& is_optional_exponent(s.skip(end))
}

/// A decimal number: digits, optionally a point and more digits, with at
/// least one digit before or after the point, then optionally an exponent.
pub open spec fn is_number(s: Seq<u8>) -> bool {
    exists|point: int, end: int| is_number_with(s, point, end)
}

/// Whether `s` is a decimal number when it is read from the left, each run
/// of digits taken as far as it goes.
pub open spec fn scans_as_number(s: Seq<u8>) -> bool {
    let point = digits_end(s, 0);
    let end = if point < s.len() && s[point] == POINT {
        digits_end(s, point + 1)
    } else {
        point
    };
    &&& point > 0 || end > point + 1
    &&& is_optional_exponent(s.skip(end))
}

/// Whether `s` is a floating-point literal as `f32::from_str` accepts it:
///
/// ```text
/// Float  ::= Sign? ( 'inf' | 'infinity' | 'nan' | Number )
/// Number ::= ( Digit+ | Digit+ '.' Digit* | Digit* '.' Digit+ ) Exp?
/// Exp    ::= 'e' Sign? Digit+
/// Sign   ::= [+-]
/// Digit  ::= [0-9]
/// ```
///
/// with capital letters read as small ones. Blanks, underscores and
/// non-ASCII bytes make it no literal.
pub open spec fn is_float_literal(s: Seq<u8>) -> bool {
    let body = without_sign(s);
    is_number(body) || is_special(body)
}

/// The run of digits that begins at `from` holds digits only, ends within
/// `s`, and is followed by no further digit.
pub proof fn lemma_digits_end(s: Seq<u8>, from: int)
    requires
        0 <= from <= s.len(),
    ensures
        from <= digits_end(s, from) <= s.len(),
        all_digits(s.subrange(from, digits_end(s, from))),
        digits_end(s, from) < s.len() ==> !is_digit(s[digits_end(s, from)]),
    decreases s.len() - from,
{
    if from < s.len() && is_digit(s[from]) {
        lemma_digits_end(s, from + 1);
        let end = digits_end(s, from);
        assert forall|i: int| 0 <= i < end - from implies is_digit(
            #[trigger] s.subrange(from, end)[i],
        ) by {
            if i > 0 {
                assert(s.subrange(from, end)[i] == s.subrange(from + 1, end)[i - 1]);
            }
        }
    }
}

/// A run of digits that is followed by no further digit is the whole run
/// that begins where it begins.
pub proof fn lemma_digits_end_is(s: Seq<u8>, from: int, end: int)
    requires
        0 <= from <= end <= s.len(),
        all_digits(s.subrange(from, end)),
        end < s.len() ==> !is_digit(s[end]),
    ensures
        digits_end(s, from) == end,
    decreases end - from,
{
    if from < end {
        assert(s[from] == s.subrange(from, end)[0]);
        assert forall|i: int| 0 <= i < end - from - 1 implies is_digit(
            #[trigger] s.subrange(from + 1, end)[i],
        ) by {
            assert(s.subrange(from + 1, end)[i] == s.subrange(from, end)[i + 1]);
        }
        lemma_digits_end_is(s, from + 1, end);
    }
}

/// A decimal number can be read in one way only: from the left, each run of
/// digits taken as far as it goes.
pub proof fn lemma_number_scan(s: Seq<u8>)
    ensures
        is_number(s) <==> scans_as_number(s),
{
    let point = digits_end(s, 0);
    lemma_digits_end(s, 0);
    let pointed = point < s.len() && s[point] == POINT;
    let end = if pointed {
        digits_end(s, point + 1)
    } else {
        point
    };
    if pointed {
        lemma_digits_end(s, point + 1);
    }
    if scans_as_number(s) {
        assert(is_number_with(s, point, end));
    }
    if is_number(s) {
        let (p, e): (int, int) = choose|p: int, e: int| is_number_with(s, p, e);
        lemma_digits_end_is(s, 0, p);
        if e > p {
            lemma_digits_end_is(s, p + 1, e);
        }
    }
}

/// A floating-point literal is made of ASCII bytes, so that it is text.
pub proof fn lemma_float_literal_is_ascii(s: Seq<u8>)
    requires
        is_float_literal(s),
    ensures
        forall|i: int| 0 <= i < s.len() ==> #[trigger] s[i] < 0x80,
{
    let body = without_sign(s);
    let signed: int = if s.len() > 0 && is_sign(s[0]) {
        1
    } else {
        0
    };
    assert forall|i: int| 0 <= i < body.len() implies #[trigger] body[i] < 0x80 by {
        if !is_special(body) {
            let (p, e): (int, int) = choose|p: int, e: int| is_number_with(body, p, e);
            if i < p {
                assert(body.subrange(0, p)[i] == body[i]);
            } else if p < i < e {
                assert(body.subrange(p + 1, e)[i - p - 1] == body[i]);
            } else if i > e {
                let after = body.skip(e).skip(1);
                assert(after[i - e - 1] == body[i]);
                if after.len() > 0 && is_sign(after[0]) && i > e + 1 {
                    assert(without_sign(after)[i - e - 2] == body[i]);
                }
            }
        }
    }
    assert forall|i: int| 0 <= i < s.len() implies #[trigger] s[i] < 0x80 by {
        if i >= signed {
            assert(body[i - signed] == s[i]);
        }
    }
}

/// Finds the end of the run of digits that begins at `from`.
fn skip_digits(text: &[u8], from: usize) -> (end: usize)
    requires
        from <= text.len(),
    ensures
        from <= end <= text.len(),
        end == digits_end(text@, from as int),
{
    let mut i: usize = from;
    while i < text.len() && ZERO <= text[i] && text[i] <= NINE
        invariant
            from <= i <= text.len(),
            digits_end(text@, from as int) == digits_end(text@, i as int),
        decreases text.len() - i,
    {
        i += 1;
    }
    i
}

/// Tells whether every byte of `text` is a digit.
fn only_digits(text: &[u8]) -> (r: bool)
    ensures
        r == all_digits(text@),
{
    let mut i: usize = 0;
    while i < text.len()
        invariant
            i <= text.len(),
            forall|j: int| 0 <= j < i ==> is_digit(#[trigger] text@[j]),
        decreases text.len() - i,
    {
        if text[i] < ZERO || text[i] > NINE {
            return false;
        }
        i += 1;
    }
    true
}

/// Tells whether `text` is `word` when its capital letters are read as small
/// ones.
fn spells_word(text: &[u8], word: &[u8]) -> (r: bool)
    ensures
        r == spells(text@, word@),
{
    if text.len() != word.len() {
        return false;
    }
    let mut i: usize = 0;
    while i < text.len()
        invariant
            i <= text.len(),
            text.len() == word.len(),
            forall|j: int| 0 <= j < i ==> to_lower(#[trigger] text@[j]) == word@[j],
        decreases text.len() - i,
    {
        let b = text[i];
        let low: u8 = if 0x41 <= b && b <= 0x5a {
            b + 0x20
        } else {
            b
        };
        if low != word[i] {
            return false;
        }
        i += 1;
    }
    true
}

/// Tells whether `text` is `inf`, `infinity` or `nan`.
fn is_special_text(text: &[u8]) -> (r: bool)
    ensures
        r == is_special(text@),
{
    let inf: [u8; 3] = [0x69, 0x6e, 0x66];
    let infinity: [u8; 8] = [0x69, 0x6e, 0x66, 0x69, 0x6e, 0x69, 0x74, 0x79];
    let nan: [u8; 3] = [0x6e, 0x61, 0x6e];
    spells_word(text, inf.as_slice()) || spells_word(text, infinity.as_slice()) || spells_word(
        text,
        nan.as_slice(),
    )
}

/// Tells whether `text` is empty or an exponent.
fn is_optional_exponent_text(text: &[u8]) -> (r: bool)
    ensures
        r == is_optional_exponent(text@),
{
    let n = text.len();
    if n == 0 {
        return true;
    }
    if text[0] != LOWER_E && text[0] != UPPER_E {
        return false;
    }
    let start: usize = if n > 1 && (text[1] == PLUS || text[1] == MINUS) {
        2
    } else {
        1
    };
    let digits = &text[start..n];
    assert(digits@ =~= without_sign(text@.skip(1)));
    digits.len() > 0 && only_digits(digits)
}

/// Tells whether `text` is a decimal number.
fn is_number_text(text: &[u8]) -> (r: bool)
    ensures
        r == is_number(text@),
{
    let n = text.len();
    let point = skip_digits(text, 0);
    let end: usize = if point < n && text[point] == POINT {
        skip_digits(text, point + 1)
    } else {
        point
    };
    proof {
        lemma_number_scan(text@);
    }
    if point == 0 && end <= point + 1 {
        return false;
    }
    let rest = &text[end..n];
    is_optional_exponent_text(rest)
}

/// Tells whether `text` is a floating-point literal.
pub fn is_float_text(text: &[u8]) -> (r: bool)
    ensures
        r == is_float_literal(text@),
{
    let n = text.len();
    let start: usize = if n > 0 && (text[0] == PLUS || text[0] == MINUS) {
        1
    } else {
        0
    };
    let body = &text[start..n];
    assert(body@ =~= without_sign(text@));
    is_number_text(body) || is_special_text(body)
}

} // verus!
