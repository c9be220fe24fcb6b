//! Numbers as text: decimal digits, unsigned integers, and the grammar of
//! floating-point literals.

use crate::text::{lemma_span, skip_run, span, CharSet};
use crate::ansi::no_escape;
use vstd::prelude::*;

verus! {

/// The character of the decimal digit `d`.
pub open spec fn digit_char(d: nat) -> char {
    if d == 0 {
        '0'
    } else if d == 1 {
        '1'
    } else if d == 2 {
        '2'
    } else if d == 3 {
        '3'
    } else if d == 4 {
        '4'
    } else if d == 5 {
        '5'
    } else if d == 6 {
        '6'
    } else if d == 7 {
        '7'
    } else if d == 8 {
        '8'
    } else {
        '9'
    }
}

/// `n` in decimal, without leading zeros.
pub open spec fn decimal(n: nat) -> Seq<char>
    decreases n,
{
    if n < 10 {
        seq![digit_char(n)]
    } else {
        decimal(n / 10).push(digit_char(n % 10))
    }
}

/// The character of the decimal digit `d`.
fn digit_of(d: u128) -> (c: char)
    requires
        d < 10,
    ensures
        c == digit_char(d as nat),
{
    if d == 0 {
        '0'
    } else if d == 1 {
        '1'
    } else if d == 2 {
        '2'
    } else if d == 3 {
        '3'
    } else if d == 4 {
        '4'
    } else if d == 5 {
        '5'
    } else if d == 6 {
        '6'
    } else if d == 7 {
        '7'
    } else if d == 8 {
        '8'
    } else {
        '9'
    }
}

/// Appends `n` in decimal to `out`.
pub fn push_decimal(out: &mut Vec<char>, n: u128)
    ensures
        final(out)@ == old(out)@ + decimal(n as nat),
    decreases n,
{
    if n >= 10 {
        push_decimal(out, n / 10);
    }
    out.push(digit_of(n % 10));
    assert(out@ == old(out)@ + decimal(n as nat));
}

/// The decimal digits of a number hold no escape character.
pub proof fn lemma_decimal_holds_no_escape(n: nat)
    ensures
        no_escape(decimal(n)),
    decreases n,
{
    if n >= 10 {
        lemma_decimal_holds_no_escape(n / 10);
    }
}

/// What the decimal digit `c` counts.
pub open spec fn digit_value(c: char) -> nat {
    (c as u32 - '0' as u32) as nat
}

/// The number that the decimal digits `s` write.
pub open spec fn decimal_value(s: Seq<char>) -> nat
    decreases s.len(),
{
    if s.len() == 0 {
        0
    } else {
        10 * decimal_value(s.drop_last()) + digit_value(s.last())
    }
}

/// Whether every character of `s` is a decimal digit.
pub open spec fn all_digits(s: Seq<char>) -> bool {
    span(s, 0, CharSet::Digit) == s.len()
}

/// The unsigned integer that `s` writes: an optional `+`, then one decimal
/// digit or more and nothing else, for a number that `usize` holds.
pub open spec fn unsigned_of(s: Seq<char>) -> Option<nat> {
    let digits = if s.len() > 0 && s[0] == '+' {
        s.skip(1)
    } else {
        s
    };
    if digits.len() > 0 && all_digits(digits) && decimal_value(digits) <= usize::MAX {
        Some(decimal_value(digits))
    } else {
        None
    }
}

/// A longer run of digits writes a number that is no smaller.
proof fn lemma_decimal_value_grows(s: Seq<char>, k: int)
    requires
        0 <= k <= s.len(),
    ensures
        decimal_value(s.take(k)) <= decimal_value(s),
    decreases s.len() - k,
{
    if k < s.len() {
        lemma_decimal_value_grows(s, k + 1);
        assert(s.take(k + 1).drop_last() == s.take(k));
    } else {
        assert(s.take(k) == s);
    }
}

/// Reads an unsigned integer from `s`.
pub fn parse_unsigned(s: &[char]) -> (r: Option<usize>)
    ensures
        r is Some == unsigned_of(s@) is Some,
        r matches Some(n) ==> unsigned_of(s@) == Some(n as nat),
{
    let digits = if s.len() > 0 && s[0] == '+' {
        &s[1..s.len()]
    } else {
        s
    };
    let n = digits.len();
    if n == 0 || skip_run(digits, 0, CharSet::Digit) != n {
        return None;
    }
    proof {
        lemma_span(digits@, 0, CharSet::Digit);
    }
    let ghost whole = decimal_value(digits@);
    assert(unsigned_of(s@) == if whole <= usize::MAX {
        Some(whole)
    } else {
        None
    });
    let mut acc: usize = 0;
    let mut k: usize = 0;
    while k < n
        invariant
            n == digits@.len(),
            whole == decimal_value(digits@),
            unsigned_of(s@) == if whole <= usize::MAX {
                Some(whole)
            } else {
                None
            },
            k <= n,
            forall|j: int| 0 <= j < n ==> CharSet::Digit.has(#[trigger] digits@[j]),
            acc == decimal_value(digits@.take(k as int)),
        decreases n - k,
    {
        let d: usize = (digits[k] as u32 - '0' as u32) as usize;
        assert(digits@.take(k + 1).drop_last() == digits@.take(k as int));
        assert(CharSet::Digit.has(digits@[k as int]));
        if acc > (usize::MAX - d) / 10 {
            proof {
                assert(decimal_value(digits@.take(k + 1)) == 10 * acc + d);
                assert(10 * acc + d > usize::MAX);
                lemma_decimal_value_grows(digits@, k + 1);
            }
            return None;
        }
        acc = acc * 10 + d;
        k += 1;
    }
    assert(digits@.take(k as int) == digits@);
    Some(acc)
}

/// `c` in lower case, if it is an ASCII capital; else `c`.
pub open spec fn ascii_lower(c: char) -> char {
    if 'A' <= c <= 'Z' {
        ((c as u8 + 32) as u8) as char
    } else {
        c
    }
}

/// Whether `s` is `word` up to the case of ASCII letters. `word` is in lower case.
pub open spec fn is_word(s: Seq<char>, word: Seq<char>) -> bool {
    s.len() == word.len() && forall|k: int| 0 <= k < s.len() ==> ascii_lower(s[k]) == word[k]
}

/// Whether `s` names a float that is no number: `inf`, `infinity` or `nan`,
/// in any case.
pub open spec fn is_named_float(s: Seq<char>) -> bool {
    ||| is_word(s, seq!['i', 'n', 'f'])
    ||| is_word(s, seq!['n', 'a', 'n'])
    ||| is_word(s, seq!['i', 'n', 'f', 'i', 'n', 'i', 't', 'y'])
}

/// Whether `s` from `i` on is an exponent: an optional sign, then one digit
/// or more and nothing else.
pub open spec fn is_exponent(s: Seq<char>, i: int) -> bool {
    let k = if i < s.len() && (s[i] == '+' || s[i] == '-') {
        i + 1
    } else {
        i
    };
    k < s.len() && span(s, k, CharSet::Digit) == s.len()
}

/// Whether `s` is an unsigned decimal number: digits with at most one point
/// among them, at least one digit in all, and an optional exponent behind `e`
/// or `E`.
pub open spec fn is_decimal_number(s: Seq<char>) -> bool {
    let a = span(s, 0, CharSet::Digit);
    let point = a < s.len() && s[a] == '.';
    let f = if point {
        span(s, a + 1, CharSet::Digit)
    } else {
        a
    };
    let digits = if point {
        f - 1
    } else {
        f
    };
    digits > 0 && (f == s.len() || ((s[f] == 'e' || s[f] == 'E') && is_exponent(s, f + 1)))
}

/// Whether `s` without its sign, if it has one, is a number or names a float.
pub open spec fn float_body(s: Seq<char>) -> Seq<char> {
    if s.len() > 0 && (s[0] == '+' || s[0] == '-') {
        s.skip(1)
    } else {
        s
    }
}

/// Whether `s` is a floating-point literal: an optional sign, then a
/// decimal number, or one of `inf`, `infinity`, `nan` in any case.
pub open spec fn is_float_text(s: Seq<char>) -> bool {
    is_decimal_number(float_body(s)) || is_named_float(float_body(s))
}

/// Tests whether `s` is `word` up to the case of ASCII letters.
fn word_is(s: &[char], word: &[char]) -> (b: bool)
    ensures
        b == is_word(s@, word@),
{
    if s.len() != word.len() {
        return false;
    }
    let mut k: usize = 0;
    while k < s.len()
        invariant
            s@.len() == word@.len(),
            k <= s@.len(),
            forall|j: int| 0 <= j < k ==> ascii_lower(s@[j]) == word@[j],
        decreases s@.len() - k,
    {
        let c = s[k];
        let low = if 'A' <= c && c <= 'Z' {
            (c as u8 + 32) as char
        } else {
            c
        };
        if low != word[k] {
            return false;
        }
        k += 1;
    }
    true
}

/// Tests whether `s` is a floating-point literal.
pub fn is_float(s: &[char]) -> (b: bool)
    ensures
        b == is_float_text(s@),
{
    let body = if s.len() > 0 && (s[0] == '+' || s[0] == '-') {
        &s[1..s.len()]
    } else {
        s
    };
    let n = body.len();
    let a = skip_run(body, 0, CharSet::Digit);
    let point = a < n && body[a] == '.';
    let f = if point {
        skip_run(body, a + 1, CharSet::Digit)
    } else {
        a
    };
    let digits = if point {
        f - 1
    } else {
        f
    };
    let mut number = false;
    if digits > 0 {
        if f == n {
            number = true;
        } else if body[f] == 'e' || body[f] == 'E' {
            let i = f + 1;
            let k = if i < n && (body[i] == '+' || body[i] == '-') {
                i + 1
            } else {
                i
            };
            number = k < n && skip_run(body, k, CharSet::Digit) == n;
        }
    }
    assert(number == is_decimal_number(body@));
    if number {
        return true;
    }
    let inf: [char; 3] = ['i', 'n', 'f'];
    let nan: [char; 3] = ['n', 'a', 'n'];
    let infinity: [char; 8] = ['i', 'n', 'f', 'i', 'n', 'i', 't', 'y'];
    assert(inf@ == seq!['i', 'n', 'f']);
    assert(nan@ == seq!['n', 'a', 'n']);
    assert(infinity@ == seq!['i', 'n', 'f', 'i', 'n', 'i', 't', 'y']);
    word_is(body, inf.as_slice()) || word_is(body, nan.as_slice()) || word_is(
        body,
        infinity.as_slice(),
    )
}

} // verus!
