//! Conversion of user-facing units into the bridge's native encodings.

use crate::common::LuciaError;
use vstd::prelude::*;

verus! {

/// The lowest colour temperature, in kelvin or in mired, whose reciprocal
/// fits sixteen bits.
pub const MIN_TEMPERATURE: u16 = 16;

/// `n / d` rounded to the nearest integer, a tie going up.
pub open spec fn round_div(n: int, d: int) -> int
    recommends
        d > 0,
{
    (2 * n + d) / (2 * d)
}

/// The device brightness for `value` out of `full_scale`.
pub open spec fn spec_scale_to_device(value: int, full_scale: int) -> int {
    round_div(255 * value, full_scale)
}

/// The device brightness for a whole percentage.
pub open spec fn spec_to_device_brightness(percent: int) -> int {
    spec_scale_to_device(percent, 100)
}

/// The mired value of a colour temperature in kelvin.
pub open spec fn spec_to_mired(kelvin: int) -> int {
    round_div(1_000_000, kelvin)
}

/// The whole percentage for a device brightness.
pub open spec fn spec_from_device_brightness(level: int) -> int {
    round_div(100 * level, 255)
}

/// The colour temperature in kelvin of a mired value. A mired is a million
/// over a kelvin, so the same division goes both ways.
pub open spec fn spec_from_mired(mired: int) -> int {
    round_div(1_000_000, mired)
}

/// `round_div(n, d)` is the integer nearest to the fraction `n / d`: it is the
/// one `r` with `2 * n - d < 2 * d * r <= 2 * n + d`.
pub proof fn lemma_round_div_nearest(n: int, d: int)
    requires
        d > 0,
    ensures
        2 * n - d < 2 * d * round_div(n, d) <= 2 * n + d,
{
    let r = round_div(n, d);
    let m = 2 * n + d;
    let e = 2 * d;
    assert(m == e * (m / e) + m % e && 0 <= m % e < e) by (nonlinear_arith)
        requires
            e > 0,
    ;
    assert(e * r == 2 * d * r) by (nonlinear_arith)
        requires
            e == 2 * d,
    ;
}

/// Among integers, only `round_div(n, d)` lies within half a unit of `n / d`
/// with the tie going up.
pub proof fn lemma_round_div_unique(n: int, d: int, r: int)
    requires
        d > 0,
        2 * n - d < 2 * d * r <= 2 * n + d,
    ensures
        r == round_div(n, d),
{
    let q = round_div(n, d);
    lemma_round_div_nearest(n, d);
    assert(r == q) by (nonlinear_arith)
        requires
            d > 0,
            2 * n - d < 2 * d * r <= 2 * n + d,
            2 * n - d < 2 * d * q <= 2 * n + d,
    ;
}

/// A larger numerator never rounds to a smaller quotient.
pub proof fn lemma_round_div_monotonic(a: int, b: int, d: int)
    requires
        d > 0,
        a <= b,
    ensures
        round_div(a, d) <= round_div(b, d),
{
    lemma_round_div_nearest(a, d);
    lemma_round_div_nearest(b, d);
    let x = round_div(a, d);
    let y = round_div(b, d);
    assert(x <= y) by (nonlinear_arith)
        requires
            d > 0,
            a <= b,
            2 * a - d < 2 * d * x <= 2 * a + d,
            2 * b - d < 2 * d * y <= 2 * b + d,
    ;
}

/// A larger denominator never rounds a non-negative numerator to a larger
/// quotient.
pub proof fn lemma_round_div_antitonic(n: int, c: int, d: int)
    requires
        n >= 0,
        0 < c <= d,
    ensures
        round_div(n, d) <= round_div(n, c),
{
    lemma_round_div_nearest(n, c);
    lemma_round_div_nearest(n, d);
    let x = round_div(n, c);
    let y = round_div(n, d);
    assert(y <= x) by (nonlinear_arith)
        requires
            n >= 0,
            0 < c <= d,
            2 * n - c < 2 * c * x <= 2 * n + c,
            2 * n - d < 2 * d * y <= 2 * n + d,
    ;
}

/// Rounds `n / d` to the nearest integer, a tie going up.
pub fn round_div_u64(n: u64, d: u64) -> (r: u64)
    requires
        d > 0,
    ensures
        r == round_div(n as int, d as int),
        r <= n,
{
    let q: u64 = n / d;
    let m: u64 = n % d;
    proof {
        assert(n == d * q + m) by (nonlinear_arith)
            requires
                d > 0,
                q == n / d,
                m == n % d,
        ;
        let up: int = if m >= d - m { q + 1 } else { q as int };
        assert(2 * n - d < 2 * d * up <= 2 * n + d) by (nonlinear_arith)
            requires
                d > 0,
                0 <= m < d,
                n == d * q + m,
                up == if m >= d - m { q + 1 } else { q as int },
        ;
        lemma_round_div_unique(n as int, d as int, up);
        assert(up <= n) by (nonlinear_arith)
            requires
                d > 0,
                0 <= m < d,
                0 <= q,
                n == d * q + m,
                up == if m >= d - m { q + 1 } else { q as int },
        ;
    }
    if m >= d - m {
        q + 1
    } else {
        q
    }
}

/// A device brightness is a byte, and a larger value never gives a smaller
/// one.
pub proof fn lemma_scale_to_device_monotonic(a: int, b: int, full_scale: int)
    requires
        full_scale > 0,
        0 <= a <= b <= full_scale,
    ensures
        0 <= spec_scale_to_device(a, full_scale) <= spec_scale_to_device(b, full_scale) <= 255,
        spec_scale_to_device(0, full_scale) == 0,
        spec_scale_to_device(full_scale, full_scale) == 255,
{
    lemma_round_div_unique(0, full_scale, 0);
    lemma_round_div_unique(255 * full_scale, full_scale, 255);
    lemma_round_div_monotonic(0, 255 * a, full_scale);
    lemma_round_div_monotonic(255 * a, 255 * b, full_scale);
    lemma_round_div_monotonic(255 * b, 255 * full_scale, full_scale);
}

/// For every percentage from 0 to 100 the device brightness lies from 0 to
/// 255, and a larger percentage never gives a smaller brightness.
pub proof fn lemma_brightness_monotonic(p: int, q: int)
    requires
        0 <= p <= q <= 100,
    ensures
        0 <= spec_to_device_brightness(p) <= spec_to_device_brightness(q) <= 255,
{
    lemma_scale_to_device_monotonic(p, q, 100);
}

/// Two different whole percentages give two different brightnesses: the
/// larger one the larger.
pub proof fn lemma_brightness_strictly_monotonic(p: int, q: int)
    requires
        0 <= p < q <= 100,
    ensures
        spec_to_device_brightness(p) < spec_to_device_brightness(q),
{
    lemma_round_div_nearest(255 * p, 100);
    lemma_round_div_nearest(255 * q, 100);
}

/// A whole percentage comes back unchanged from its device brightness.
pub proof fn lemma_brightness_round_trip(p: int)
    requires
        0 <= p <= 100,
    ensures
        spec_from_device_brightness(spec_to_device_brightness(p)) == p,
{
    let level = spec_to_device_brightness(p);
    lemma_round_div_nearest(255 * p, 100);
    lemma_round_div_unique(100 * level, 255, p);
}

/// A higher colour temperature never gives a larger mired value, so the mired
/// values of a range of temperatures lie between those of its two ends.
pub proof fn lemma_mired_antitonic(low: int, kelvin: int, high: int)
    requires
        0 < low <= kelvin <= high,
    ensures
        0 <= spec_to_mired(high) <= spec_to_mired(kelvin) <= spec_to_mired(low),
{
    lemma_round_div_antitonic(1_000_000, low, kelvin);
    lemma_round_div_antitonic(1_000_000, kelvin, high);
    lemma_round_div_nearest(1_000_000, high);
    let m = spec_to_mired(high);
    assert(m >= 0) by (nonlinear_arith)
        requires
            high > 0,
            2 * 1_000_000 - high < 2 * high * m,
    ;
}

/// Two colour temperatures that lie at least one mired apart, as fractions,
/// have different mired values: the higher temperature the smaller one.
/// Closer ones may round to the same value.
pub proof fn lemma_mired_strictly_antitonic(low: int, high: int)
    requires
        0 < low < high,
        1_000_000 * (high - low) >= low * high,
    ensures
        spec_to_mired(high) < spec_to_mired(low),
{
    let x = spec_to_mired(low);
    let y = spec_to_mired(high);
    lemma_round_div_nearest(1_000_000, low);
    lemma_round_div_nearest(1_000_000, high);
    if x <= y {
        assert(2 * low * x * high <= 2 * low * y * high) by (nonlinear_arith)
            requires
                x <= y,
                low > 0,
                high > 0,
        ;
        assert((2 * 1_000_000 - low) * high < 2 * low * x * high) by (nonlinear_arith)
            requires
                2 * 1_000_000 - low < 2 * low * x,
                high > 0,
        ;
        assert(2 * low * y * high <= (2 * 1_000_000 + high) * low) by (nonlinear_arith)
            requires
                2 * high * y <= 2 * 1_000_000 + high,
                low > 0,
        ;
        assert(false) by (nonlinear_arith)
            requires
                (2 * 1_000_000 - low) * high < (2 * 1_000_000 + high) * low,
                1_000_000 * (high - low) >= low * high,
        ;
    }
}

/// A colour temperature comes back from its mired value within the rounding
/// of the two divisions: twice the distance, times the mired value, is at
/// most the sum of the two.
pub proof fn lemma_mired_round_trip(kelvin: int)
    requires
        0 < kelvin <= 1_000_000,
    ensures
        ({
            let mired = spec_to_mired(kelvin);
            let back = spec_from_mired(mired);
            mired > 0 && 2 * mired * (back - kelvin) <= kelvin + mired && 2 * mired * (kelvin
                - back) <= kelvin + mired
        }),
{
    let mired = spec_to_mired(kelvin);
    lemma_round_div_nearest(1_000_000, kelvin);
    assert(mired > 0) by (nonlinear_arith)
        requires
            0 < kelvin <= 1_000_000,
            2 * 1_000_000 - kelvin < 2 * kelvin * mired,
    ;
    let back = spec_from_mired(mired);
    lemma_round_div_nearest(1_000_000, mired);
    assert(2 * mired * (back - kelvin) <= kelvin + mired && 2 * mired * (kelvin - back) <= kelvin
        + mired) by (nonlinear_arith)
        requires
            2 * 1_000_000 - kelvin < 2 * kelvin * mired <= 2 * 1_000_000 + kelvin,
            2 * 1_000_000 - mired < 2 * mired * back <= 2 * 1_000_000 + mired,
    ;
}

/// The device brightness for `value` out of `full_scale`, rounded to the
/// nearest level.
pub fn scale_to_device(value: u32, full_scale: u32) -> (level: u8)
    requires
        full_scale > 0,
        value <= full_scale,
    ensures
        level == spec_scale_to_device(value as int, full_scale as int),
{
    proof {
        lemma_scale_to_device_monotonic(value as int, full_scale as int, full_scale as int);
    }
    let level: u64 = round_div_u64(255 * (value as u64), full_scale as u64);
    level as u8
}

/// The device brightness for `value` out of `full_scale`, or an error where
/// the scale is zero or the value lies beyond it.
pub fn checked_scale_to_device(value: u32, full_scale: u32) -> (level: Result<u8, LuciaError>)
    ensures
        level == if full_scale > 0 && value <= full_scale {
            Ok::<u8, LuciaError>(spec_scale_to_device(value as int, full_scale as int) as u8)
        } else {
            Err(LuciaError::ValueOutOfRange)
        },
{
    if full_scale > 0 && value <= full_scale {
        Ok(scale_to_device(value, full_scale))
    } else {
        Err(LuciaError::ValueOutOfRange)
    }
}

/// The device brightness for a whole percentage.
pub fn to_device_brightness(percent: u8) -> (level: u8)
    requires
        percent <= 100,
    ensures
        level == spec_to_device_brightness(percent as int),
{
    scale_to_device(percent as u32, 100)
}

/// The whole percentage for a device brightness.
pub fn from_device_brightness(level: u8) -> (percent: u8)
    ensures
        percent == spec_from_device_brightness(level as int),
        percent <= 100,
{
    proof {
        lemma_round_div_monotonic(100 * level, 25_500, 255);
        lemma_round_div_unique(25_500, 255, 100);
    }
    let percent: u64 = round_div_u64(100 * (level as u64), 255);
    percent as u8
}

/// The mired value of a colour temperature in kelvin.
pub fn to_mired(kelvin: u16) -> (mired: u16)
    requires
        kelvin >= MIN_TEMPERATURE,
    ensures
        mired == spec_to_mired(kelvin as int),
{
    proof {
        lemma_mired_antitonic(16, kelvin as int, kelvin as int);
        lemma_round_div_unique(1_000_000, 16, 62_500);
    }
    let mired: u64 = round_div_u64(1_000_000, kelvin as u64);
    mired as u16
}

/// The mired value of a colour temperature in kelvin, or an error where it
/// would not fit sixteen bits.
pub fn checked_to_mired(kelvin: u16) -> (mired: Result<u16, LuciaError>)
    ensures
        mired == if kelvin >= MIN_TEMPERATURE {
            Ok::<u16, LuciaError>(spec_to_mired(kelvin as int) as u16)
        } else {
            Err(LuciaError::ValueOutOfRange)
        },
{
    if kelvin >= MIN_TEMPERATURE {
        Ok(to_mired(kelvin))
    } else {
        Err(LuciaError::ValueOutOfRange)
    }
}

/// The colour temperature in kelvin of a mired value.
pub fn from_mired(mired: u16) -> (kelvin: u16)
    requires
        mired >= MIN_TEMPERATURE,
    ensures
        kelvin == spec_from_mired(mired as int),
{
    to_mired(mired)
}

} // verus!
