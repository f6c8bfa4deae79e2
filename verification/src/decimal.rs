//! Fixed-point decimal numbers as `rust_decimal` represents them: a signed
//! mantissa below 2^96 in magnitude and a scale (number of fractional digits)
//! of at most 28. The value of `(mantissa, scale)` is `mantissa / 10^scale`.
//!
//! The arithmetic is done by `rust_decimal`; this module states what each of
//! its operations returns, in terms of mantissa and scale.

use rust_decimal::Decimal;
use std::str::FromStr;
use vstd::prelude::*;

verus! {

/// Largest magnitude a decimal mantissa can have: 2^96 - 1.
pub const MAX_MANTISSA: i128 = 79228162514264337593543950335i128;

/// Largest scale a decimal can have.
pub const MAX_SCALE: u32 = 28u32;

/// The mathematical view of a decimal: `mantissa / 10^scale`.
pub struct DecimalValue {
    pub mantissa: int,
    pub scale: nat,
}

/// The decimal with the given mantissa and scale.
pub open spec fn dv(mantissa: int, scale: nat) -> DecimalValue {
    DecimalValue { mantissa, scale }
}

pub open spec fn pow10(n: nat) -> nat
    decreases n,
{
    if n == 0 {
        1
    } else {
        10 * pow10((n - 1) as nat)
    }
}

pub open spec fn abs(x: int) -> nat {
    if x < 0 {
        (-x) as nat
    } else {
        x as nat
    }
}

/// Mantissa and scale are within the range `rust_decimal` can represent.
pub open spec fn is_valid_decimal(v: DecimalValue) -> bool {
    &&& -(MAX_MANTISSA as int) <= v.mantissa <= MAX_MANTISSA as int
    &&& v.scale <= MAX_SCALE as nat
}

/// Two decimals denote the same number.
pub open spec fn same_value(a: DecimalValue, b: DecimalValue) -> bool {
    a.mantissa * pow10(b.scale) == b.mantissa * pow10(a.scale)
}

/// Rounding to `dp` fractional digits, ties to the even neighbour
/// ("banker's rounding"). A decimal with at most `dp` fractional digits is
/// left as it is.
pub open spec fn round_dp_value(v: DecimalValue, dp: nat) -> DecimalValue {
    if v.scale <= dp {
        v
    } else {
        let f = pow10((v.scale - dp) as nat);
        let q = abs(v.mantissa) / f;
        let r = abs(v.mantissa) % f;
        let q2: int = if 2 * r > f || (2 * r == f && q % 2 == 1) {
            (q + 1) as int
        } else {
            q as int
        };
        dv(if v.mantissa < 0 { -q2 } else { q2 }, dp)
    }
}

/// Multiplying a magnitude by ten at most `steps` times while it stays
/// representable: the new magnitude and the number of multiplications done.
pub open spec fn widen_magnitude(mag: nat, steps: nat) -> (nat, nat)
    decreases steps,
{
    if steps == 0 || mag * 10 > MAX_MANTISSA as int {
        (mag, 0)
    } else {
        let (m, k) = widen_magnitude(mag * 10, (steps - 1) as nat);
        (m, k + 1)
    }
}

/// Raising the scale towards `target` without changing the value: as many
/// trailing zeros are added as the mantissa can hold.
pub open spec fn rescale_up_value(v: DecimalValue, target: nat) -> DecimalValue {
    if target <= v.scale {
        v
    } else {
        let (m, k) = widen_magnitude(abs(v.mantissa), (target - v.scale) as nat);
        dv(if v.mantissa < 0 { -(m as int) } else { m as int }, v.scale + k)
    }
}

pub open spec fn digit_char(d: nat) -> char {
    if d == 0 { '0' }
    else if d == 1 { '1' }
    else if d == 2 { '2' }
    else if d == 3 { '3' }
    else if d == 4 { '4' }
    else if d == 5 { '5' }
    else if d == 6 { '6' }
    else if d == 7 { '7' }
    else if d == 8 { '8' }
    else { '9' }
}

/// Decimal digits of `n`, most significant first; empty for zero.
pub open spec fn digits(n: nat) -> Seq<char>
    decreases n,
{
    if n == 0 {
        Seq::empty()
    } else {
        digits(n / 10).push(digit_char(n % 10))
    }
}

/// `s` with zeros added in front until it is `width` long.
pub open spec fn zero_pad(s: Seq<char>, width: nat) -> Seq<char> {
    if s.len() >= width {
        s
    } else {
        Seq::new((width - s.len()) as nat, |i: int| '0') + s
    }
}

/// The text of a decimal: a minus sign for a negative value, the integer
/// part (at least one digit), then, when the scale is positive, a point and
/// exactly `scale` fractional digits.
pub open spec fn decimal_text(v: DecimalValue) -> Seq<char> {
    let sign: Seq<char> = if v.mantissa < 0 { seq!['-'] } else { Seq::empty() };
    let d = zero_pad(digits(abs(v.mantissa)), v.scale);
    let whole = (d.len() - v.scale) as int;
    let body: Seq<char> = if v.scale == 0 {
        if d.len() == 0 { seq!['0'] } else { d }
    } else {
        (if whole == 0 { seq!['0'] } else { d.take(whole) }) + seq!['.'] + d.skip(whole)
    };
    sign + body
}

/// What `Decimal::from_str` makes of a text, as mantissa and scale.
pub uninterp spec fn decimal_parse(text: Seq<char>) -> Option<(i128, u32)>;

/// Calls `Decimal::from_str` (`rust_decimal`). The contract names the result
/// and claims what every `Decimal` satisfies: a scale of at most 28 and a
/// mantissa below 2^96 in magnitude. The grammar accepted is left unsaid.
#[verifier::external_body]
pub(crate) fn decimal_from_str(text: &str) -> (r: Option<(i128, u32)>)
    ensures
        r == decimal_parse(text@),
        r matches Some(p) ==> is_valid_decimal(dv(p.0 as int, p.1 as nat)),
{
    Decimal::from_str(text).ok().map(|d| (d.mantissa(), d.scale()))
}

/// Calls `Decimal::round_dp` (`rust_decimal`) on the decimal
/// `mantissa / 10^scale`. The contract claims the source's rounding: ties to
/// even, nothing changed when there are at most `dp` fractional digits.
#[verifier::external_body]
pub(crate) fn decimal_round_dp(mantissa: i128, scale: u32, dp: u32) -> (r: (i128, u32))
    requires
        is_valid_decimal(dv(mantissa as int, scale as nat)),
    ensures
        dv(r.0 as int, r.1 as nat) == round_dp_value(
            dv(mantissa as int, scale as nat),
            dp as nat,
        ),
{
    let d = Decimal::from_i128_with_scale(mantissa, scale).round_dp(dp);
    (d.mantissa(), d.scale())
}

/// Calls `Decimal::rescale` (`rust_decimal`) towards a scale that is not
/// below the current one. The contract claims the source's behaviour there:
/// the value is kept and as many trailing zeros are added as fit.
#[verifier::external_body]
pub(crate) fn decimal_rescale_up(mantissa: i128, scale: u32, target: u32) -> (r: (i128, u32))
    requires
        is_valid_decimal(dv(mantissa as int, scale as nat)),
        scale <= target <= MAX_SCALE,
    ensures
        dv(r.0 as int, r.1 as nat) == rescale_up_value(
            dv(mantissa as int, scale as nat),
            target as nat,
        ),
{
    let mut d = Decimal::from_i128_with_scale(mantissa, scale);
    d.rescale(target);
    (d.mantissa(), d.scale())
}

/// Calls `Decimal::to_string` (`rust_decimal`'s `Display` without width or
/// precision). The contract claims the text the source writes.
#[verifier::external_body]
pub(crate) fn decimal_to_string(mantissa: i128, scale: u32) -> (r: String)
    requires
        is_valid_decimal(dv(mantissa as int, scale as nat)),
    ensures
        r@ == decimal_text(dv(mantissa as int, scale as nat)),
{
    Decimal::from_i128_with_scale(mantissa, scale).to_string()
}

/// Calls `Decimal`'s `==` (`rust_decimal`), which compares numeric values.
#[verifier::external_body]
pub(crate) fn decimal_eq(m1: i128, s1: u32, m2: i128, s2: u32) -> (r: bool)
    requires
        is_valid_decimal(dv(m1 as int, s1 as nat)),
        is_valid_decimal(dv(m2 as int, s2 as nat)),
    ensures
        r == same_value(
            dv(m1 as int, s1 as nat),
            dv(m2 as int, s2 as nat),
        ),
{
    Decimal::from_i128_with_scale(m1, s1) == Decimal::from_i128_with_scale(m2, s2)
}

} // verus!
