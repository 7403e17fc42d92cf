//! Fixed-point arithmetic for angles and intensities.
//!
//! Every angle and intensity in this crate is an `i64` holding the value
//! times [`SCALE`] (nine decimal places).  Degree/radian conversion and the
//! sine used by the flux integral are defined here, each pinned to a spec
//! function over mathematical integers.

use vstd::prelude::*;

verus! {

/// Number of fixed-point units in 1.0: nine decimal places.
pub const SCALE: i64 = 1_000_000_000;

/// The circle constant pi in fixed-point units (rounded to nearest).
pub const PI_FP: i64 = 3_141_592_654;

/// pi / 2 in fixed-point units.
pub const HALF_PI_FP: i64 = 1_570_796_327;

/// 2 * pi in fixed-point units.
pub const TWO_PI_FP: i64 = 6_283_185_308;

/// 180 degrees in fixed-point units.
pub const DEG_HALF_TURN: i64 = 180_000_000_000;

/// 360 degrees in fixed-point units.
pub const DEG_FULL_TURN: i64 = 360_000_000_000;

/// Largest magnitude a parsed fixed-point value may take (ten million).
pub const MAX_FIXED: i64 = 10_000_000_000_000_000;

/// Degree/radian conversion, on fixed-point degrees.
pub open spec fn spec_deg_to_rad(d: int) -> int {
    d * (PI_FP as int) / (180 * (SCALE as int))
}

/// Radian/degree conversion, on fixed-point radians.
pub open spec fn spec_rad_to_deg(r: int) -> int {
    r * 180 * (SCALE as int) / (PI_FP as int)
}

/// Converts a given angle in degrees into radians (both fixed-point).
pub fn degrees_to_radians(deg: i64) -> (r: i64)
    requires
        0 <= deg <= DEG_FULL_TURN,
    ensures
        r == spec_deg_to_rad(deg as int),
        0 <= r <= TWO_PI_FP,
{
    let wide: u128 = (deg as u128) * (PI_FP as u128);
    let q: u128 = wide / (180 * (SCALE as u128));
    proof {
        assert(wide == deg * (PI_FP as int));
        vstd::arithmetic::div_mod::lemma_div_is_ordered(
            wide as int,
            (DEG_FULL_TURN as int) * (PI_FP as int),
            180 * (SCALE as int),
        );
        assert(wide <= (DEG_FULL_TURN as int) * (PI_FP as int)) by (nonlinear_arith)
            requires
                wide == deg * (PI_FP as int),
                0 <= deg <= DEG_FULL_TURN,
        ;
        assert((DEG_FULL_TURN as int) * (PI_FP as int) / (180 * (SCALE as int))
            == TWO_PI_FP as int);
    }
    q as i64
}

/// Converts a given angle in radians into degrees (both fixed-point).
pub fn radians_to_degrees(rad: i64) -> (d: i64)
    requires
        0 <= rad <= TWO_PI_FP,
    ensures
        d == spec_rad_to_deg(rad as int),
        0 <= d <= DEG_FULL_TURN,
{
    let wide: u128 = (rad as u128) * 180 * (SCALE as u128);
    let q: u128 = wide / (PI_FP as u128);
    proof {
        assert(wide == rad * 180 * (SCALE as int));
        vstd::arithmetic::div_mod::lemma_div_is_ordered(
            wide as int,
            (TWO_PI_FP as int) * 180 * (SCALE as int),
            PI_FP as int,
        );
        assert(wide <= (TWO_PI_FP as int) * 180 * (SCALE as int)) by (nonlinear_arith)
            requires
                wide == rad * 180 * (SCALE as int),
                0 <= rad <= TWO_PI_FP,
        ;
        assert((TWO_PI_FP as int) * 180 * (SCALE as int) / (PI_FP as int)
            <= DEG_FULL_TURN as int);
    }
    q as i64
}

/// The symmetric circular distance between two angles, both in fixed-point
/// radians: the result is always in `[0, pi]`, wrapping around `2 * pi`.
pub open spec fn spec_angle_difference(a: int, b: int) -> int {
    let d = abs_int(a - b) % (TWO_PI_FP as int);
    if d > PI_FP as int {
        (TWO_PI_FP as int) - d
    } else {
        d
    }
}

/// The magnitude of a mathematical integer.
pub open spec fn abs_int(x: int) -> int {
    if x < 0 {
        -x
    } else {
        x
    }
}

/// Gets the difference between two angles (fixed-point radians), accounting
/// for wraparound at 0 / 2 pi.
pub fn angle_difference(angle1: i64, angle2: i64) -> (d: i64)
    requires
        0 <= angle1 <= 200_000_000_000,
        0 <= angle2 <= 200_000_000_000,
    ensures
        d == spec_angle_difference(angle1 as int, angle2 as int),
        0 <= d <= PI_FP,
{
    let raw: i64 = if angle1 >= angle2 {
        angle1 - angle2
    } else {
        angle2 - angle1
    };
    let folded: i64 = raw % TWO_PI_FP;
    if folded > PI_FP {
        TWO_PI_FP - folded
    } else {
        folded
    }
}

/// Minimum spacing of secondary angles, in fixed-point degrees (a thousandth
/// of a degree): enough to keep converted radians strictly increasing.
pub const DEG_STEP_MIN: i64 = 1_000_000;

/// Degree/radian conversion is monotone.
pub proof fn lemma_deg_to_rad_mono(d1: int, d2: int)
    requires
        0 <= d1 <= d2,
    ensures
        spec_deg_to_rad(d1) <= spec_deg_to_rad(d2),
        0 <= spec_deg_to_rad(d1),
{
    let p = PI_FP as int;
    let c = 180 * (SCALE as int);
    vstd::arithmetic::mul::lemma_mul_inequality(d1, d2, p);
    vstd::arithmetic::div_mod::lemma_div_is_ordered(d1 * p, d2 * p, c);
    vstd::arithmetic::mul::lemma_mul_inequality(0, d1, p);
    vstd::arithmetic::div_mod::lemma_div_is_ordered(0, d1 * p, c);
}

/// Degrees at least [`DEG_STEP_MIN`] apart convert to strictly increasing
/// radians.
pub proof fn lemma_deg_to_rad_strict(d1: int, d2: int)
    requires
        0 <= d1,
        d1 + DEG_STEP_MIN <= d2,
    ensures
        spec_deg_to_rad(d1) < spec_deg_to_rad(d2),
{
    let p = PI_FP as int;
    let c = 180 * (SCALE as int);
    let q1 = d1 * p / c;
    vstd::arithmetic::mul::lemma_mul_inequality(d1 + DEG_STEP_MIN, d2, p);
    assert((d1 + DEG_STEP_MIN) * p == d1 * p + (DEG_STEP_MIN as int) * p)
        by (nonlinear_arith);
    vstd::arithmetic::div_mod::lemma_fundamental_div_mod(d1 * p, c);
    vstd::arithmetic::div_mod::lemma_mod_bound(d1 * p, c);
    assert(d2 * p >= c * q1 + c);
    assert(c * q1 + c == c * (q1 + 1)) by (nonlinear_arith);
    vstd::arithmetic::div_mod::lemma_div_is_ordered(c * (q1 + 1), d2 * p, c);
    vstd::arithmetic::div_mod::lemma_div_multiples_vanish(q1 + 1, c);
}

/// Converting at most a half turn of degrees lands in `[0, pi]` radians.
pub proof fn lemma_deg_to_rad_half_turn(d: int)
    requires
        0 <= d <= DEG_HALF_TURN,
    ensures
        0 <= spec_deg_to_rad(d) <= PI_FP,
{
    lemma_deg_to_rad_mono(d, DEG_HALF_TURN as int);
    lemma_deg_to_rad_mono(0, d);
    let c = 180 * (SCALE as int);
    vstd::arithmetic::div_mod::lemma_div_multiples_vanish(PI_FP as int, c);
    assert((DEG_HALF_TURN as int) * (PI_FP as int) == (180 * (SCALE as int)) * (PI_FP as int))
        by (nonlinear_arith);
}

/// Converting at most a full turn of degrees lands in `[0, 2 * pi]` radians.
pub proof fn lemma_deg_to_rad_full_turn(d: int)
    requires
        0 <= d <= DEG_FULL_TURN,
    ensures
        0 <= spec_deg_to_rad(d) <= TWO_PI_FP,
{
    lemma_deg_to_rad_mono(d, DEG_FULL_TURN as int);
    lemma_deg_to_rad_mono(0, d);
    let c = 180 * (SCALE as int);
    vstd::arithmetic::div_mod::lemma_div_multiples_vanish(TWO_PI_FP as int, c);
    assert((DEG_FULL_TURN as int) * (PI_FP as int) == (180 * (SCALE as int)) * (TWO_PI_FP as int))
        by (nonlinear_arith);
}

/// 90 degrees in fixed-point units.
pub const DEG_QUARTER_TURN: i64 = 90_000_000_000;

/// Converting at most a quarter turn of degrees lands in `[0, pi/2]`.
pub proof fn lemma_deg_to_rad_quarter_turn(d: int)
    requires
        0 <= d <= DEG_QUARTER_TURN,
    ensures
        0 <= spec_deg_to_rad(d) <= HALF_PI_FP,
{
    lemma_deg_to_rad_mono(d, DEG_QUARTER_TURN as int);
    lemma_deg_to_rad_mono(0, d);
    let c = 180 * (SCALE as int);
    vstd::arithmetic::div_mod::lemma_div_multiples_vanish(HALF_PI_FP as int, c);
    assert((DEG_QUARTER_TURN as int) * (PI_FP as int) == (180 * (SCALE as int)) * (
    HALF_PI_FP as int)) by (nonlinear_arith);
}

/// One Horner stage of the sine polynomial: `1 - s * h / d`, all fixed-point.
pub open spec fn spec_sin_stage(s: int, h: int, d: int) -> int {
    (SCALE as int) - s * h / (SCALE as int) / d
}

/// The sine polynomial on the first quarter turn, `x` in `[0, pi/2]`
/// fixed-point radians: a degree-eleven Taylor approximation, evaluated by
/// Horner's rule in integer arithmetic.
pub open spec fn spec_sin_quarter(x: int) -> int {
    let sc = SCALE as int;
    let s = x * x / sc;
    let h5 = sc - s / 110;
    let h4 = spec_sin_stage(s, h5, 72);
    let h3 = spec_sin_stage(s, h4, 42);
    let h2 = spec_sin_stage(s, h3, 20);
    let h1 = spec_sin_stage(s, h2, 6);
    x * h1 / sc
}

/// The sine of an angle in `[0, pi]` fixed-point radians, by reflecting the
/// second quarter turn onto the first.
pub open spec fn spec_sin(x: int) -> int {
    if x <= HALF_PI_FP as int {
        spec_sin_quarter(x)
    } else {
        spec_sin_quarter((PI_FP as int) - x)
    }
}

fn sin_stage(s: u128, h: u128, d: u128) -> (r: u128)
    requires
        s <= 2_470_000_000,
        h <= SCALE as u128,
        6 <= d <= 110,
    ensures
        r == spec_sin_stage(s as int, h as int, d as int),
        r <= SCALE as u128,
{
    proof {
        let sc = SCALE as int;
        assert(s * h <= s * sc) by (nonlinear_arith)
            requires
                0 <= s,
                0 <= h <= sc,
        ;
        assert(s * sc <= 2_470_000_000int * sc) by (nonlinear_arith)
            requires
                0 <= s <= 2_470_000_000,
                0 <= sc,
        ;
        vstd::arithmetic::div_mod::lemma_div_is_ordered((s * h) as int, s * sc, sc);
        vstd::arithmetic::div_mod::lemma_div_multiples_vanish(s as int, sc);
        vstd::arithmetic::div_mod::lemma_div_is_ordered_by_denominator(
            s * h / sc,
            6,
            d as int,
        );
        vstd::arithmetic::div_mod::lemma_div_is_ordered(s * h / sc, 2_470_000_000int, 6);
    }
    let m: u128 = s * h;
    let q: u128 = m / (SCALE as u128) / d;
    (SCALE as u128) - q
}

/// The sine of an angle given in fixed-point radians, as a fixed-point
/// value; exact with respect to [`spec_sin`].
pub fn sin_fixed(x: i64) -> (r: i64)
    requires
        0 <= x <= PI_FP,
    ensures
        r == spec_sin(x as int),
        0 <= r <= HALF_PI_FP,
{
    let xq: i64 = if x <= HALF_PI_FP {
        x
    } else {
        PI_FP - x
    };
    let xu: u128 = xq as u128;
    proof {
        let sc = SCALE as int;
        assert(xu * xu <= 1_570_796_327int * 1_570_796_327int) by (nonlinear_arith)
            requires
                0 <= xu <= 1_570_796_327,
        ;
        vstd::arithmetic::div_mod::lemma_div_is_ordered(
            (xu * xu) as int,
            1_570_796_327int * 1_570_796_327int,
            sc,
        );
        assert(1_570_796_327int * 1_570_796_327int / sc <= 2_470_000_000int);
    }
    let s: u128 = xu * xu / (SCALE as u128);
    proof {
        vstd::arithmetic::div_mod::lemma_div_is_ordered(s as int, 2_470_000_000int, 110);
    }
    let h5: u128 = (SCALE as u128) - s / 110;
    let h4: u128 = sin_stage(s, h5, 72);
    let h3: u128 = sin_stage(s, h4, 42);
    let h2: u128 = sin_stage(s, h3, 20);
    let h1: u128 = sin_stage(s, h2, 6);
    proof {
        let sc = SCALE as int;
        assert(xu * h1 <= xu * sc) by (nonlinear_arith)
            requires
                0 <= xu,
                0 <= h1 <= sc,
        ;
        assert(xu * sc <= 1_570_796_327int * sc) by (nonlinear_arith)
            requires
                0 <= xu <= 1_570_796_327,
                0 <= sc,
        ;
        vstd::arithmetic::div_mod::lemma_div_is_ordered((xu * h1) as int, xu * sc, sc);
        vstd::arithmetic::div_mod::lemma_div_multiples_vanish(xu as int, sc);
    }
    let r: u128 = xu * h1 / (SCALE as u128);
    r as i64
}

} // verus!
