//! The time between two checkpoints, as the panel shows it.
//!
//! A time below a millisecond is shown in whole microseconds. A longer one
//! is shown in milliseconds with one decimal, or in seconds with two. The
//! number shown is the one that double-precision arithmetic gives: the
//! microseconds as a double, divided by a thousand or by a million, and the
//! quotient rounded to the decimals shown. It is computed here in integers,
//! so that every step is exact.

use crate::number::{decimal, digit_char, push_decimal};
use crate::palette::{Colors, Paint, Palette};
use crate::text::{chars_of, push_all, string_of};
use vstd::prelude::*;

verus! {

/// Two to the power of 53: a double holds every integer below it.
pub const EXACT_LIMIT: u128 = 9007199254740992;

/// Two to the power of 52: the least mantissa of a double.
pub const MANTISSA_MIN: u128 = 4503599627370496;

/// `n / d` rounded to the nearest integer, a tie to the even one.
pub open spec fn round_half_even(n: nat, d: nat) -> nat {
    let q = n / d;
    let r = n % d;
    if 2 * r > d || (2 * r == d && q % 2 == 1) {
        q + 1
    } else {
        q
    }
}

/// The power of two in whose multiples a double counts near `q`: one while
/// `q` has 53 binary digits at most, and twice as much for each digit more.
pub open spec fn double_unit(q: nat) -> nat
    decreases q,
{
    if q < EXACT_LIMIT {
        1
    } else {
        2 * double_unit(q / 2)
    }
}

/// The double nearest to the integer `m`, which is an integer itself.
pub open spec fn nearest_double(m: nat) -> nat {
    (round_half_even(m, double_unit(m)) * double_unit(m)) as nat
}

/// A numerator, and the power of two that it was multiplied by.
pub struct Scaled {
    pub value: nat,
    pub unit: nat,
}

/// `s` doubled until its value reaches `limit`.
pub open spec fn normalize(s: Scaled, limit: nat) -> Scaled
    decreases 2 * limit - s.value,
{
    if s.value >= limit || s.value == 0 {
        s
    } else {
        normalize(Scaled { value: 2 * s.value, unit: 2 * s.unit }, limit)
    }
}

/// The double nearest to `a / d`, written with the decimals that `scale`
/// stands for (10 for one, 100 for two) and without the point. The mantissa
/// of the quotient is `a` times a power of two over `d`, rounded; the
/// number shown is that mantissa times `scale` over the same power of two,
/// rounded again.
pub open spec fn quotient_shown(a: nat, d: nat, scale: nat) -> nat {
    let s = normalize(Scaled { value: a, unit: 1 }, (d * MANTISSA_MIN) as nat);
    round_half_even(round_half_even(s.value, d) * scale, s.unit)
}

/// A number of tenths as text, with one decimal.
pub open spec fn tenths_text(n: nat) -> Seq<char> {
    decimal(n / 10) + seq!['.', digit_char(n % 10)]
}

/// A number of hundredths as text, with two decimals.
pub open spec fn hundredths_text(n: nat) -> Seq<char> {
    decimal(n / 100) + seq!['.', digit_char((n / 10) % 10), digit_char(n % 10)]
}

/// A time of `micros` microseconds with its unit.
pub open spec fn amount(micros: nat) -> Seq<char> {
    if micros < 1000 {
        decimal(micros) + "µs"@
    } else if micros < 1_000_000 {
        tenths_text(quotient_shown(nearest_double(micros), 1000, 10)) + "ms"@
    } else {
        hundredths_text(quotient_shown(nearest_double(micros), 1_000_000, 100)) + "s"@
    }
}

/// The note that tells the time since the last checkpoint: a space, then
/// in gray a plus sign and the time with its unit.
pub open spec fn elapsed_note(micros: nat, p: Palette) -> Seq<char> {
    seq![' '] + p.gray + seq!['+'] + amount(micros) + p.reset
}

/// Divides and rounds to the nearest integer, a tie to the even one.
fn round_div(n: u128, d: u128) -> (q: u128)
    requires
        d > 0,
        n < 0x1_0000_0000_0000_0000_0000_0000,
        d < 0x1_0000_0000_0000_0000_0000_0000,
    ensures
        q == round_half_even(n as nat, d as nat),
        n / d <= q <= n / d + 1,
        q * d <= n + d,
{
    let q = n / d;
    let r = n % d;
    proof {
        vstd::arithmetic::div_mod::lemma_fundamental_div_mod(n as int, d as int);
        assert((q + 1) * d <= n + d && q * d <= n) by (nonlinear_arith)
            requires
                n == d * q + r,
                0 <= r,
                0 < d,
        {
        }
    }
    if 2 * r > d || (2 * r == d && q % 2 == 1) {
        q + 1
    } else {
        q
    }
}

/// The power of two in whose multiples a double counts near `q`.
fn unit_of(q: u64) -> (unit: u128)
    ensures
        unit == double_unit(q as nat),
        unit >= 1,
        unit == 1 || unit * MANTISSA_MIN <= q,
    decreases q,
{
    if (q as u128) < EXACT_LIMIT {
        1
    } else {
        2 * unit_of(q / 2)
    }
}

/// The double nearest to `m`.
fn to_double(m: u64) -> (a: u128)
    ensures
        a == nearest_double(m as nat),
        a <= m + 4096,
        m >= 1 ==> a >= 1,
{
    if (m as u128) < EXACT_LIMIT {
        return m as u128;
    }
    let unit = unit_of(m);
    let q = round_div(m as u128, unit);
    assert(q >= 1) by {
        assert(m / (unit as u64) >= 1) by (nonlinear_arith)
            requires
                unit * MANTISSA_MIN <= m,
                unit >= 1,
        {
        }
    }
    assert(q * unit >= 1) by (nonlinear_arith)
        requires
            q >= 1,
            unit >= 1,
    {
    }
    q * unit
}

/// The quotient `a / d` as a double, written with the decimals that `scale`
/// stands for and without the point.
fn show_quotient(a: u128, d: u128, scale: u128) -> (shown: u128)
    requires
        1 <= a < d * MANTISSA_MIN,
        1 <= d <= 1_000_000,
        1 <= scale <= 100,
    ensures
        shown == quotient_shown(a as nat, d as nat, scale as nat),
{
    let limit = d * MANTISSA_MIN;
    let mut n: u128 = a;
    let mut unit: u128 = 1;
    while n < limit
        invariant
            limit == d * MANTISSA_MIN,
            1 <= d <= 1_000_000,
            1 <= unit <= n,
            n < 2 * limit,
            normalize(Scaled { value: a as nat, unit: 1 }, limit as nat) == normalize(
                Scaled { value: n as nat, unit: unit as nat },
                limit as nat,
            ),
        decreases 2 * limit - n,
    {
        n = 2 * n;
        unit = 2 * unit;
    }
    let mantissa = round_div(n, d);
    assert(mantissa <= 2 * MANTISSA_MIN + 1) by (nonlinear_arith)
        requires
            mantissa <= (n as int) / (d as int) + 1,
            n < 2 * (d * MANTISSA_MIN),
            d >= 1,
    {
    }
    assert(mantissa * scale <= (2 * MANTISSA_MIN + 1) * 100) by (nonlinear_arith)
        requires
            mantissa <= 2 * MANTISSA_MIN + 1,
            scale <= 100,
    {
    }
    round_div(mantissa * scale, unit)
}

/// Appends a number of tenths with one decimal.
fn push_tenths(out: &mut Vec<char>, n: u128)
    ensures
        final(out)@ == old(out)@ + tenths_text(n as nat),
{
    push_decimal(out, n / 10);
    out.push('.');
    let mut digit: Vec<char> = Vec::new();
    push_decimal(&mut digit, n % 10);
    out.push(digit[0]);
    assert(out@ == old(out)@ + tenths_text(n as nat));
}

/// Appends a number of hundredths with two decimals.
fn push_hundredths(out: &mut Vec<char>, n: u128)
    ensures
        final(out)@ == old(out)@ + hundredths_text(n as nat),
{
    push_decimal(out, n / 100);
    out.push('.');
    let mut high: Vec<char> = Vec::new();
    push_decimal(&mut high, (n / 10) % 10);
    let mut low: Vec<char> = Vec::new();
    push_decimal(&mut low, n % 10);
    out.push(high[0]);
    out.push(low[0]);
    assert(out@ == old(out)@ + hundredths_text(n as nat));
}

/// Appends a time of `micros` microseconds with its unit.
fn push_amount(out: &mut Vec<char>, micros: u64)
    ensures
        final(out)@ == old(out)@ + amount(micros as nat),
{
    if micros < 1000 {
        let unit = chars_of("µs");
        push_decimal(out, micros as u128);
        push_all(out, unit.as_slice());
    } else if micros < 1_000_000 {
        let unit = chars_of("ms");
        let a = to_double(micros);
        push_tenths(out, show_quotient(a, 1000, 10));
        push_all(out, unit.as_slice());
    } else {
        let unit = chars_of("s");
        let a = to_double(micros);
        push_hundredths(out, show_quotient(a, 1_000_000, 100));
        push_all(out, unit.as_slice());
    }
}

/// Formats the time since the last checkpoint for the top line of the
/// panel: in microseconds below a millisecond, in milliseconds with one
/// decimal below a second, and else in seconds with two decimals.
pub fn format_elapsed(micros: u64, c: &Colors) -> (out: String)
    ensures
        out@ == elapsed_note(micros as nat, c@),
{
    let paint = Paint::new(c);
    let mut out: Vec<char> = Vec::new();
    out.push(' ');
    push_all(&mut out, paint.gray.as_slice());
    out.push('+');
    push_amount(&mut out, micros);
    push_all(&mut out, paint.reset.as_slice());
    string_of(out.as_slice())
}

} // verus!
