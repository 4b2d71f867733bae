//! Conversion from hue, saturation and value to a color.
//!
//! The three inputs are fractions of one. Hue runs once round the color
//! circle, which is cut into six sectors of equal width. Within a sector one
//! channel carries the chroma, one the secondary component and one nothing;
//! the match value is then added to all three. All of it is computed exactly,
//! over the common denominator of the three inputs, and each channel is
//! rounded once.

use vstd::prelude::*;
use crate::color::Color;
use crate::fraction::{
    lemma_nearest_channel_respects_value, lemma_same_ratio_same_quotient, nearest_channel,
    round_channel, Fraction,
};

verus! {

/// The sector of the color circle in which the hue lies: six times the hue,
/// rounded down.
pub open spec fn region(h: Fraction) -> int {
    (6 * h.numer) / (h.denom as int)
}

/// How far six times the hue is from the nearest odd number, as a numerator
/// over the hue's denominator.
pub open spec fn fold(h: Fraction) -> int {
    let phase = (6 * h.numer) % (2 * h.denom);
    if phase >= h.denom {
        phase - h.denom
    } else {
        h.denom - phase
    }
}

/// The denominator over which chroma, secondary component and match value
/// are numerators.
pub open spec fn scale(h: Fraction, s: Fraction, v: Fraction) -> int {
    h.denom * s.denom * v.denom
}

/// The chroma, value times saturation, as a numerator over `scale`.
pub open spec fn chroma(h: Fraction, s: Fraction, v: Fraction) -> int {
    v.numer * s.numer * h.denom
}

/// The secondary component, the chroma times one less `fold`, as a numerator
/// over `scale`.
pub open spec fn secondary(h: Fraction, s: Fraction, v: Fraction) -> int {
    v.numer * s.numer * (h.denom - fold(h))
}

/// The match value, value less chroma, as a numerator over `scale`.
pub open spec fn match_value(h: Fraction, s: Fraction, v: Fraction) -> int {
    v.numer * (s.denom - s.numer) * h.denom
}

/// Red, green and blue of a sector before the match value is added: chroma
/// `c` and secondary component `x` change places from sector to sector.
/// Outside the six sectors all three are `zero`.
pub open spec fn sector_primes<T>(region: int, c: T, x: T, zero: T) -> (T, T, T) {
    if region == 0 {
        (c, x, zero)
    } else if region == 1 {
        (x, c, zero)
    } else if region == 2 {
        (zero, c, x)
    } else if region == 3 {
        (zero, x, c)
    } else if region == 4 {
        (x, zero, c)
    } else if region == 5 {
        (c, zero, x)
    } else {
        (zero, zero, zero)
    }
}

/// The color of a hue, a saturation and a value: fully opaque, each channel
/// the sector's component plus the match value, times 255 and rounded to the
/// nearest whole number.
pub open spec fn hsv_color(h: Fraction, s: Fraction, v: Fraction) -> Color {
    let primes = sector_primes(region(h), chroma(h, s, v), secondary(h, s, v), 0int);
    let m = match_value(h, s, v);
    let d = scale(h, s, v);
    Color {
        a: 255,
        r: nearest_channel(primes.0 + m, d),
        g: nearest_channel(primes.1 + m, d),
        b: nearest_channel(primes.2 + m, d),
    }
}

/// Picks red, green and blue of a sector from chroma `c`, secondary component
/// `x` and `zero`, whatever kind of number the three are.
pub fn select_primes<T: Copy>(region: i32, c: T, x: T, zero: T) -> (primes: (T, T, T))
    ensures
        primes == sector_primes(region as int, c, x, zero),
{
    match region {
        0 => (c, x, zero),
        1 => (x, c, zero),
        2 => (zero, c, x),
        3 => (zero, x, c),
        4 => (x, zero, c),
        5 => (c, zero, x),
        _ => (zero, zero, zero),
    }
}

/// The product of three numbers below 2^32 is below 2^96.
proof fn lemma_product_fits(a: int, b: int, c: int)
    requires
        0 <= a <= 0xFFFF_FFFF,
        0 <= b <= 0xFFFF_FFFF,
        0 <= c <= 0xFFFF_FFFF,
    ensures
        0 <= a * b <= 0xFFFF_FFFF * 0xFFFF_FFFF,
        0 <= a * b * c <= 0xFFFF_FFFF * 0xFFFF_FFFF * 0xFFFF_FFFF,
{
    assert(0 <= a * b <= 0xFFFF_FFFF * 0xFFFF_FFFF) by (nonlinear_arith)
        requires
            0 <= a <= 0xFFFF_FFFF,
            0 <= b <= 0xFFFF_FFFF,
    ;
    let ab = a * b;
    assert(0 <= ab * c <= 0xFFFF_FFFF * 0xFFFF_FFFF * 0xFFFF_FFFF) by (nonlinear_arith)
        requires
            0 <= ab <= 0xFFFF_FFFF * 0xFFFF_FFFF,
            0 <= c <= 0xFFFF_FFFF,
    ;
}

/// A hue below one lies in one of the six sectors.
pub proof fn lemma_region_is_a_sector(h: Fraction)
    requires
        h.is_proper(),
    ensures
        0 <= region(h) <= 5,
{
    let turn = 6 * h.numer;
    let d = h.denom as int;
    assert(0 <= turn / d <= 5) by (nonlinear_arith)
        requires
            0 <= turn < 6 * d,
            0 < d,
    ;
}

/// `fold` of a hue lies between nothing and the whole denominator.
pub proof fn lemma_fold_bounds(h: Fraction)
    requires
        h.denom > 0,
    ensures
        0 <= fold(h) <= h.denom,
{
    vstd::arithmetic::div_mod::lemma_mod_bound(6 * h.numer, 2 * h.denom);
}

/// Chroma and match value together make up the value, and no component of a
/// sector is more than the chroma. So what becomes a channel lies between
/// nothing and the value, below one: no channel of `hsv_color` is cut off.
pub proof fn lemma_channels_are_below_one(h: Fraction, s: Fraction, v: Fraction)
    requires
        h.is_proper(),
        s.is_proper(),
        v.is_proper(),
    ensures
        chroma(h, s, v) + match_value(h, s, v) == v.numer * s.denom * h.denom,
        0 <= secondary(h, s, v) <= chroma(h, s, v),
        ({
            let primes = sector_primes(region(h), chroma(h, s, v), secondary(h, s, v), 0int);
            let m = match_value(h, s, v);
            let d = scale(h, s, v);
            &&& 0 <= primes.0 + m < d
            &&& 0 <= primes.1 + m < d
            &&& 0 <= primes.2 + m < d
        }),
{
    lemma_fold_bounds(h);
    let hd = h.denom as int;
    let sn = s.numer as int;
    let sd = s.denom as int;
    let vn = v.numer as int;
    let vd = v.denom as int;
    let rest = hd - fold(h);
    assert(vn * sn * hd + vn * (sd - sn) * hd == vn * sd * hd) by (nonlinear_arith);
    assert(0 <= vn * sn * rest <= vn * sn * hd) by (nonlinear_arith)
        requires
            0 <= rest <= hd,
            0 <= vn,
            0 <= sn,
    ;
    assert(0 <= vn * (sd - sn) * hd) by (nonlinear_arith)
        requires
            0 <= vn,
            0 <= sd - sn,
            0 <= hd,
    ;
    assert(vn * sd * hd < hd * sd * vd) by (nonlinear_arith)
        requires
            0 <= vn < vd,
            0 < sd,
            0 < hd,
    ;
}

/// Two ways of writing one hue lie in one sector and have `fold` of one
/// value.
pub proof fn lemma_hue_respects_value(h: Fraction, other: Fraction)
    requires
        h.same_value(other),
    ensures
        region(h) == region(other),
        fold(h) * other.denom == fold(other) * h.denom,
{
    let n1 = h.numer as int;
    let d1 = h.denom as int;
    let n2 = other.numer as int;
    let d2 = other.denom as int;
    assert((6 * n1) * d2 == (6 * n2) * d1 && (6 * n1) * (2 * d2) == (6 * n2) * (2 * d1))
        by (nonlinear_arith)
        requires
            n1 * d2 == n2 * d1,
    ;
    lemma_same_ratio_same_quotient(6 * n1, d1, 6 * n2, d2);
    lemma_same_ratio_same_quotient(6 * n1, 2 * d1, 6 * n2, 2 * d2);
    let k = (6 * n1) / (2 * d1);
    let phase1 = (6 * n1) % (2 * d1);
    let phase2 = (6 * n2) % (2 * d2);
    vstd::arithmetic::div_mod::lemma_fundamental_div_mod(6 * n1, 2 * d1);
    vstd::arithmetic::div_mod::lemma_fundamental_div_mod(6 * n2, 2 * d2);
    assert((phase1 - d1) * d2 == (phase2 - d2) * d1) by (nonlinear_arith)
        requires
            6 * n1 == (2 * d1) * k + phase1,
            6 * n2 == (2 * d2) * k + phase2,
            n1 * d2 == n2 * d1,
    ;
    assert(phase1 >= d1 <==> phase2 >= d2) by (nonlinear_arith)
        requires
            (phase1 - d1) * d2 == (phase2 - d2) * d1,
            0 < d1,
            0 < d2,
    ;
    assert(fold(h) * d2 == fold(other) * d1) by (nonlinear_arith)
        requires
            (phase1 - d1) * d2 == (phase2 - d2) * d1,
            phase1 >= d1 <==> phase2 >= d2,
            fold(h) == (if phase1 >= d1 {
                phase1 - d1
            } else {
                d1 - phase1
            }),
            fold(other) == (if phase2 >= d2 {
                phase2 - d2
            } else {
                d2 - phase2
            }),
    ;
}

/// The color of a hue, a saturation and a value is the color of the three
/// numbers they stand for: written another way, each of them, they give the
/// same color.
pub proof fn lemma_hsv_respects_value(
    h: Fraction,
    s: Fraction,
    v: Fraction,
    other_h: Fraction,
    other_s: Fraction,
    other_v: Fraction,
)
    requires
        h.same_value(other_h),
        s.same_value(other_s),
        v.same_value(other_v),
    ensures
        hsv_color(h, s, v) == hsv_color(other_h, other_s, other_v),
{
    lemma_hue_respects_value(h, other_h);
    let hd1 = h.denom as int;
    let hd2 = other_h.denom as int;
    let sn1 = s.numer as int;
    let sd1 = s.denom as int;
    let sn2 = other_s.numer as int;
    let sd2 = other_s.denom as int;
    let vn1 = v.numer as int;
    let vd1 = v.denom as int;
    let vn2 = other_v.numer as int;
    let vd2 = other_v.denom as int;
    let rest1 = hd1 - fold(h);
    let rest2 = hd2 - fold(other_h);
    let d1 = scale(h, s, v);
    let d2 = scale(other_h, other_s, other_v);
    let c1 = chroma(h, s, v);
    let c2 = chroma(other_h, other_s, other_v);
    let x1 = secondary(h, s, v);
    let x2 = secondary(other_h, other_s, other_v);
    let m1 = match_value(h, s, v);
    let m2 = match_value(other_h, other_s, other_v);

    // Each product is regrouped into what belongs to the value, to the
    // saturation and to the hue; the three groups agree pair by pair.
    let value1 = vn1 * vd2;
    let value2 = vn2 * vd1;
    let saturation1 = sn1 * sd2;
    let saturation2 = sn2 * sd1;
    let complement1 = (sd1 - sn1) * sd2;
    let complement2 = (sd2 - sn2) * sd1;
    let whole = hd1 * hd2;
    let part1 = rest1 * hd2;
    let part2 = rest2 * hd1;
    assert(complement1 == complement2) by (nonlinear_arith)
        requires
            complement1 == (sd1 - sn1) * sd2,
            complement2 == (sd2 - sn2) * sd1,
            sn1 * sd2 == sn2 * sd1,
    ;
    assert(part1 == part2) by (nonlinear_arith)
        requires
            part1 == (hd1 - fold(h)) * hd2,
            part2 == (hd2 - fold(other_h)) * hd1,
            fold(h) * hd2 == fold(other_h) * hd1,
    ;
    assert(c1 * d2 == value1 * saturation1 * whole) by (nonlinear_arith)
        requires
            c1 == vn1 * sn1 * hd1,
            d2 == hd2 * sd2 * vd2,
            value1 == vn1 * vd2,
            saturation1 == sn1 * sd2,
            whole == hd1 * hd2,
    ;
    assert(c2 * d1 == value2 * saturation2 * whole) by (nonlinear_arith)
        requires
            c2 == vn2 * sn2 * hd2,
            d1 == hd1 * sd1 * vd1,
            value2 == vn2 * vd1,
            saturation2 == sn2 * sd1,
            whole == hd1 * hd2,
    ;
    assert(x1 * d2 == value1 * saturation1 * part1) by (nonlinear_arith)
        requires
            x1 == vn1 * sn1 * rest1,
            d2 == hd2 * sd2 * vd2,
            value1 == vn1 * vd2,
            saturation1 == sn1 * sd2,
            part1 == rest1 * hd2,
    ;
    assert(x2 * d1 == value2 * saturation2 * part2) by (nonlinear_arith)
        requires
            x2 == vn2 * sn2 * rest2,
            d1 == hd1 * sd1 * vd1,
            value2 == vn2 * vd1,
            saturation2 == sn2 * sd1,
            part2 == rest2 * hd1,
    ;
    assert(m1 * d2 == value1 * complement1 * whole) by (nonlinear_arith)
        requires
            m1 == vn1 * (sd1 - sn1) * hd1,
            d2 == hd2 * sd2 * vd2,
            value1 == vn1 * vd2,
            complement1 == (sd1 - sn1) * sd2,
            whole == hd1 * hd2,
    ;
    assert(m2 * d1 == value2 * complement2 * whole) by (nonlinear_arith)
        requires
            m2 == vn2 * (sd2 - sn2) * hd2,
            d1 == hd1 * sd1 * vd1,
            value2 == vn2 * vd1,
            complement2 == (sd2 - sn2) * sd1,
            whole == hd1 * hd2,
    ;
    assert(d1 > 0 && d2 > 0) by (nonlinear_arith)
        requires
            d1 == hd1 * sd1 * vd1,
            d2 == hd2 * sd2 * vd2,
            hd1 > 0,
            sd1 > 0,
            vd1 > 0,
            hd2 > 0,
            sd2 > 0,
            vd2 > 0,
    ;
    assert((c1 + m1) * d2 == (c2 + m2) * d1 && (x1 + m1) * d2 == (x2 + m2) * d1 && (0 + m1) * d2
        == (0 + m2) * d1) by (nonlinear_arith)
        requires
            c1 * d2 == c2 * d1,
            x1 * d2 == x2 * d1,
            m1 * d2 == m2 * d1,
    ;
    lemma_nearest_channel_respects_value(c1 + m1, d1, c2 + m2, d2);
    lemma_nearest_channel_respects_value(x1 + m1, d1, x2 + m2, d2);
    lemma_nearest_channel_respects_value(0 + m1, d1, 0 + m2, d2);
}

impl Color {
    /// The color of hue `h`, saturation `s` and value `v`, each a fraction
    /// below one.
    pub fn hsv(h: Fraction, s: Fraction, v: Fraction) -> (color: Color)
        requires
            h.is_proper(),
            s.is_proper(),
            v.is_proper(),
        ensures
            color == hsv_color(h, s, v),
            color.a == 255,
    {
        let hn = h.numer as u128;
        let hd = h.denom as u128;
        let sn = s.numer as u128;
        let sd = s.denom as u128;
        let vn = v.numer as u128;
        let vd = v.denom as u128;

        let turn: u128 = 6 * hn;
        let sector: u128 = turn / hd;
        let phase: u128 = turn % (2 * hd);
        let fold: u128 = if phase >= hd {
            phase - hd
        } else {
            hd - phase
        };
        proof {
            lemma_region_is_a_sector(h);
            lemma_fold_bounds(h);
            lemma_product_fits(hd as int, sd as int, vd as int);
            lemma_product_fits(vn as int, sn as int, hd as int);
            lemma_product_fits(vn as int, sn as int, hd - fold);
            lemma_product_fits(vn as int, sd - sn, hd as int);
        }
        let region: i32 = sector as i32;
        let scale: u128 = hd * sd * vd;
        let c: u128 = vn * sn * hd;
        let x: u128 = vn * sn * (hd - fold);
        let m: u128 = vn * (sd - sn) * hd;
        assert(scale > 0) by (nonlinear_arith)
            requires
                scale == hd * sd * vd,
                hd > 0,
                sd > 0,
                vd > 0,
        ;
        let primes = select_primes(region, c, x, 0u128);
        Color::rgb(
            round_channel(primes.0 + m, scale),
            round_channel(primes.1 + m, scale),
            round_channel(primes.2 + m, scale),
        )
    }

    /// `hsv` for any three fractions: `None` exactly when one of them is not
    /// below one.
    pub fn try_hsv(h: Fraction, s: Fraction, v: Fraction) -> (color: Option<Color>)
        ensures
            h.is_proper() && s.is_proper() && v.is_proper() ==> color == Some(hsv_color(h, s, v)),
            !(h.is_proper() && s.is_proper() && v.is_proper()) ==> color.is_none(),
    {
        if h.is_proper() && s.is_proper() && v.is_proper() {
            Some(Color::hsv(h, s, v))
        } else {
            None
        }
    }
}

} // verus!
