//! Fractions of one, and how a fraction becomes an 8-bit channel.
//!
//! Hue, saturation, value and opacity are given as exact fractions, so the
//! conversions that take them are exact too: a result is rounded once, at the
//! very end, when it becomes a channel.

use vstd::prelude::*;

verus! {

/// The non-negative rational number `numer / denom`.
///
/// Two fractions are equal when their numerators and their denominators are:
/// `1/2` and `2/4` stand for the same number and are different values.
#[derive(Clone, Copy, Debug, PartialEq, Eq, Structural)]
pub struct Fraction {
    /// The numerator.
    pub numer: u32,
    /// The denominator. A fraction with denominator zero stands for no number.
    pub denom: u32,
}

/// `255 * numer / denom` rounded to the nearest whole number, a half rounding
/// up, and held to the largest channel value, 255.
pub open spec fn nearest_channel(numer: int, denom: int) -> u8
    recommends
        0 <= numer,
        0 < denom,
{
    let nearest = (2 * (255 * numer) + denom) / (2 * denom);
    if nearest >= 255 {
        255u8
    } else {
        nearest as u8
    }
}

/// Rounds `255 * numer / denom` to a channel.
pub fn round_channel(numer: u128, denom: u128) -> (channel: u8)
    requires
        0 < denom,
        2 * denom <= u128::MAX,
        2 * (255 * numer) + denom <= u128::MAX,
    ensures
        channel == nearest_channel(numer as int, denom as int),
{
    let nearest: u128 = (2 * (255 * numer) + denom) / (2 * denom);
    if nearest >= 255 {
        255
    } else {
        nearest as u8
    }
}

impl Fraction {
    /// Whether the fraction lies in the half-open interval from 0 (included)
    /// to 1 (excluded): its numerator is less than its denominator.
    pub open spec fn spec_is_proper(self) -> bool {
        self.numer < self.denom
    }

    /// Whether the two fractions stand for the same number, as `1/2` and `2/4`
    /// do.
    pub open spec fn same_value(self, other: Fraction) -> bool {
        &&& self.denom > 0
        &&& other.denom > 0
        &&& self.numer * other.denom == other.numer * self.denom
    }

    /// The channel nearest to 255 times the fraction, a half rounding up; 255
    /// for a fraction of one or more.
    pub open spec fn spec_to_channel(self) -> u8 {
        nearest_channel(self.numer as int, self.denom as int)
    }

    /// The fraction `numer / denom`, whatever the two are.
    pub fn new(numer: u32, denom: u32) -> (fraction: Fraction)
        ensures
            fraction == (Fraction { numer, denom }),
    {
        Fraction { numer, denom }
    }

    /// Whether the fraction lies in the half-open interval from 0 to 1.
    #[verifier::when_used_as_spec(spec_is_proper)]
    pub fn is_proper(self) -> (proper: bool)
        ensures
            proper == self.spec_is_proper(),
    {
        self.numer < self.denom
    }

    /// The channel nearest to 255 times the fraction, a half rounding up; 255
    /// for a fraction of one or more.
    #[verifier::when_used_as_spec(spec_to_channel)]
    pub fn to_channel(self) -> (channel: u8)
        requires
            self.denom > 0,
        ensures
            channel == self.spec_to_channel(),
    {
        round_channel(self.numer as u128, self.denom as u128)
    }
}

/// A channel made from a fraction of at most one is the whole number nearest
/// to 255 times the fraction: the two differ by at most a half, and by exactly
/// a half only where the channel is the larger. Nothing is cut off at 255.
pub proof fn lemma_nearest_channel_is_nearest(numer: int, denom: int)
    requires
        0 <= numer <= denom,
        0 < denom,
    ensures
        nearest_channel(numer, denom) == (2 * (255 * numer) + denom) / (2 * denom),
        2 * nearest_channel(numer, denom) * denom - denom <= 2 * (255 * numer),
        2 * (255 * numer) < 2 * nearest_channel(numer, denom) * denom + denom,
{
    let top = 2 * (255 * numer) + denom;
    let bottom = 2 * denom;
    let k = top / bottom;
    assert(top == bottom * k + top % bottom && 0 <= top % bottom < bottom) by {
        vstd::arithmetic::div_mod::lemma_fundamental_div_mod(top, bottom);
        vstd::arithmetic::div_mod::lemma_mod_bound(top, bottom);
    }
    assert(0 <= k <= 255 && bottom * k == 2 * k * denom) by (nonlinear_arith)
        requires
            top == bottom * k + top % bottom,
            0 <= top % bottom < bottom,
            0 <= top <= 511 * denom,
            bottom == 2 * denom,
            0 < denom,
    ;
}

/// Two quotients of the same ratio are equal, rounded down as they are.
pub proof fn lemma_same_ratio_same_quotient(a: int, b: int, c: int, d: int)
    requires
        0 < b,
        0 < d,
        a * d == c * b,
    ensures
        a / b == c / d,
{
    let q = a / b;
    assert(a == b * q + a % b && 0 <= a % b < b) by {
        vstd::arithmetic::div_mod::lemma_fundamental_div_mod(a, b);
        vstd::arithmetic::div_mod::lemma_mod_bound(a, b);
    }
    let rest = c - q * d;
    assert(0 <= rest < d) by (nonlinear_arith)
        requires
            rest == c - q * d,
            a * d == c * b,
            b * q <= a < b * q + b,
            0 < b,
            0 < d,
    ;
    vstd::arithmetic::div_mod::lemma_fundamental_div_mod_converse(c, d, q, rest);
}

/// The channel of a fraction is the channel of the number it stands for: two
/// ways of writing one number give one channel.
pub proof fn lemma_nearest_channel_respects_value(
    numer: int,
    denom: int,
    other_numer: int,
    other_denom: int,
)
    requires
        0 < denom,
        0 < other_denom,
        numer * other_denom == other_numer * denom,
    ensures
        nearest_channel(numer, denom) == nearest_channel(other_numer, other_denom),
{
    let a = 2 * (255 * numer) + denom;
    let b = 2 * denom;
    let c = 2 * (255 * other_numer) + other_denom;
    let d = 2 * other_denom;
    assert(a * d == c * b) by (nonlinear_arith)
        requires
            a == 2 * (255 * numer) + denom,
            b == 2 * denom,
            c == 2 * (255 * other_numer) + other_denom,
            d == 2 * other_denom,
            numer * other_denom == other_numer * denom,
    ;
    lemma_same_ratio_same_quotient(a, b, c, d);
}

} // verus!
