//! Angles in fixed-point radians, and the circular functions on them.
//!
//! The functions are polynomial approximations evaluated in fixed-point
//! arithmetic. They are total and deterministic, and accurate to a few
//! millionths on the ranges the camera rig uses.

use vstd::prelude::*;
use crate::scalar::{
    fx_abs, fx_add, fx_clamp, fx_div, fx_div_int, fx_mul, fx_mul_spec, fx_sub, isqrt_near,
    lemma_div_of_zero, lemma_mul_lower, lemma_mul_one, lemma_mul_zero, lemma_near_sqrt,
    lemma_near_sqrt_of_square, near_sqrt, MINUS_ONE, ONE,
};

verus! {

/// A quarter turn.
pub const HALF_PI: i64 = 1_570_796;

/// Half a turn.
pub const PI: i64 = 3_141_592;

/// A full turn.
pub const TAU: i64 = 6_283_184;

/// An eighth of a turn.
pub const QUARTER_PI: i64 = 785_398;

/// The tangent of a sixteenth of a turn, where `atan_unit` changes branch.
pub const TAN_EIGHTH_PI: i64 = 414_214;

/// The angle in `(-PI, PI]` that differs from `a` by whole turns.
pub open spec fn wrap_angle_spec(a: i64) -> i64 {
    let m = (a as int) % (TAU as int);
    if m > PI {
        (m - TAU) as i64
    } else {
        m as i64
    }
}

/// One Horner step of an alternating series: `1 - (x2 * t) / k`.
pub open spec fn series_step_spec(x2: i64, t: i64, k: i64) -> i64 {
    fx_sub(ONE, fx_div_int(fx_mul(x2, t), k))
}

/// The sine of an angle between zero and a quarter turn: the Taylor polynomial
/// of degree eleven, limited to the range from zero to one.
#[verifier::opaque]
pub open spec fn sin_quarter_spec(x: i64) -> i64 {
    let x2 = fx_mul(x, x);
    let t1 = series_step_spec(x2, ONE, 110);
    let t2 = series_step_spec(x2, t1, 72);
    let t3 = series_step_spec(x2, t2, 42);
    let t4 = series_step_spec(x2, t3, 20);
    let t5 = series_step_spec(x2, t4, 6);
    fx_clamp(fx_mul(x, t5), 0, ONE)
}

/// The sine of `a`, between minus one and one.
#[verifier::opaque]
pub open spec fn sin_spec(a: i64) -> i64 {
    let w = wrap_angle_spec(a);
    let m = if w < 0 { (-w) as i64 } else { w };
    let f = if m > HALF_PI { (PI - m) as i64 } else { m };
    let s = sin_quarter_spec(f);
    if w < 0 {
        (-s) as i64
    } else {
        s
    }
}

/// The cosine of `a`: the sine of `a` advanced by a quarter turn.
pub open spec fn cos_spec(a: i64) -> i64 {
    sin_spec((wrap_angle_spec(a) + HALF_PI) as i64)
}

/// The arctangent of a ratio between zero and `TAN_EIGHTH_PI`: the Taylor
/// polynomial of degree eleven.
#[verifier::opaque]
pub open spec fn atan_small_spec(t: i64) -> i64 {
    let t2 = fx_mul(t, t);
    let u1 = fx_sub(111_111, fx_mul(t2, 90_909));
    let u2 = fx_sub(142_857, fx_mul(t2, u1));
    let u3 = fx_sub(200_000, fx_mul(t2, u2));
    let u4 = fx_sub(333_333, fx_mul(t2, u3));
    let u5 = fx_sub(ONE, fx_mul(t2, u4));
    fx_mul(t, u5)
}

/// The arctangent of a ratio between zero and one, between zero and an eighth
/// of a turn. Above `TAN_EIGHTH_PI` it uses
/// `atan(r) = PI/4 - atan((1 - r) / (1 + r))`.
#[verifier::opaque]
pub open spec fn atan_unit_spec(r: i64) -> i64 {
    if r <= TAN_EIGHTH_PI {
        fx_clamp(atan_small_spec(r), 0, QUARTER_PI)
    } else {
        fx_clamp(
            fx_sub(QUARTER_PI, atan_small_spec(fx_div(fx_sub(ONE, r), fx_add(ONE, r)))),
            0,
            QUARTER_PI,
        )
    }
}

/// The angle of the point `(x, y)` seen from the origin, measured from the
/// positive `x` axis toward the positive `y` axis, in `[-PI, PI]`. The origin
/// itself has angle zero.
#[verifier::opaque]
pub open spec fn atan2_spec(y: i64, x: i64) -> i64 {
    let ax = fx_abs(x);
    let ay = fx_abs(y);
    let base = if ax == 0 && ay == 0 {
        0
    } else if ax >= ay {
        atan_unit_spec(fx_div(ay, ax))
    } else {
        (HALF_PI - atan_unit_spec(fx_div(ax, ay))) as i64
    };
    let half = if x < 0 { (PI - base) as i64 } else { base };
    if y < 0 {
        (-half) as i64
    } else {
        half
    }
}

/// The arcsine of `v` limited to the range from minus one to one, in
/// `[-HALF_PI, HALF_PI]`.
#[verifier::opaque]
pub open spec fn asin_spec(v: i64) -> i64 {
    let c = fx_clamp(v, MINUS_ONE, ONE);
    atan2_spec(c, near_sqrt(ONE * ONE - c * c) as i64)
}

/// The sine lies between minus one and one.
pub proof fn lemma_sin_range(a: i64)
    ensures
        -ONE <= sin_spec(a) <= ONE,
{
    reveal(sin_spec);
    reveal(sin_quarter_spec);
}

/// The cosine lies between minus one and one.
pub proof fn lemma_cos_range(a: i64)
    ensures
        -ONE <= cos_spec(a) <= ONE,
{
    lemma_sin_range((wrap_angle_spec(a) + HALF_PI) as i64);
}

/// At the quarter turns the sine and the cosine are exact.
pub proof fn lemma_quarter_turns()
    ensures
        sin_spec(0) == 0,
        cos_spec(0) == ONE,
        sin_spec(HALF_PI) == ONE,
        cos_spec(HALF_PI) == 0,
        sin_spec(PI) == 0,
        cos_spec(PI) == MINUS_ONE,
{
    reveal(sin_spec);
    assert(sin_quarter_spec(0) == 0) by {
        reveal(sin_quarter_spec);
        lemma_mul_zero(0);
        lemma_mul_zero(ONE);
    }
    assert(sin_quarter_spec(HALF_PI) == ONE) by {
        reveal(sin_quarter_spec);
        reveal(fx_mul_spec);
        assert(fx_mul(1_570_796, 1_570_796) == 2_467_400);
        assert(fx_mul(2_467_400, 1_000_000) == 2_467_400);
        assert(series_step_spec(2_467_400, 1_000_000, 110) == 977_570);
        assert(fx_mul(2_467_400, 977_570) == 2_412_056);
        assert(series_step_spec(2_467_400, 977_570, 72) == 966_500);
        assert(fx_mul(2_467_400, 966_500) == 2_384_742);
        assert(series_step_spec(2_467_400, 966_500, 42) == 943_221);
        assert(fx_mul(2_467_400, 943_221) == 2_327_303);
        assert(series_step_spec(2_467_400, 943_221, 20) == 883_635);
        assert(fx_mul(2_467_400, 883_635) == 2_180_280);
        assert(series_step_spec(2_467_400, 883_635, 6) == 636_620);
        assert(fx_mul(1_570_796, 636_620) == 1_000_000);
    }
}

/// The angle of a point on an axis is exact: zero on the positive `x` axis and
/// at the origin, a quarter turn on the positive `y` axis, half a turn on the
/// negative `x` axis, and a quarter turn back on the negative `y` axis.
pub proof fn lemma_atan2_on_axes(t: i64)
    requires
        t > 0,
    ensures
        atan2_spec(0, 0) == 0,
        atan2_spec(0, t) == 0,
        atan2_spec(t, 0) == HALF_PI,
        atan2_spec(0, (-t) as i64) == PI,
        atan2_spec((-t) as i64, 0) == -HALF_PI,
{
    reveal(atan2_spec);
    reveal(atan_unit_spec);
    lemma_div_of_zero(t);
    assert(atan_small_spec(0) == 0) by {
        reveal(atan_small_spec);
        lemma_mul_zero(0);
        let t2 = fx_mul(0, 0);
        let u1 = fx_sub(111_111, fx_mul(t2, 90_909));
        let u2 = fx_sub(142_857, fx_mul(t2, u1));
        let u3 = fx_sub(200_000, fx_mul(t2, u2));
        let u4 = fx_sub(333_333, fx_mul(t2, u3));
        let u5 = fx_sub(ONE, fx_mul(t2, u4));
        lemma_mul_zero(u5);
    }
}

/// The arcsine of zero is zero.
pub proof fn lemma_asin_zero()
    ensures
        asin_spec(0) == 0,
{
    reveal(asin_spec);
    let c: i64 = 0;
    assert(ONE * ONE - c * c == 1_000_000_000_000) by (nonlinear_arith)
        requires
            c == 0,
            ONE == 1_000_000,
    ;
    lemma_near_sqrt_of_square(1_000_000);
    lemma_atan2_on_axes(ONE);
}

/// The sine is not negative on the upper half turn and not positive on the
/// lower one.
pub proof fn lemma_sin_side(a: i64)
    requires
        -PI <= a <= PI,
    ensures
        a >= 0 ==> sin_spec(a) >= 0,
        a <= 0 ==> sin_spec(a) <= 0,
{
    reveal(sin_spec);
    reveal(sin_quarter_spec);
    lemma_quarter_turns();
}

/// The cosine is not negative within a quarter turn of zero, and not positive
/// beyond.
pub proof fn lemma_cos_side(a: i64)
    requires
        -PI <= a <= PI,
    ensures
        -HALF_PI <= a <= HALF_PI ==> cos_spec(a) >= 0,
        a <= -HALF_PI || a >= HALF_PI ==> cos_spec(a) <= 0,
{
    reveal(sin_spec);
    reveal(sin_quarter_spec);
    lemma_quarter_turns();
}

/// The angle of a point lies on the side of the `x` axis on which the point
/// lies, with half a turn for the negative `x` axis itself, and within a
/// quarter turn of zero exactly where `x` is not negative.
pub proof fn lemma_atan2_side(y: i64, x: i64)
    ensures
        -PI <= atan2_spec(y, x) <= PI,
        y >= 0 ==> atan2_spec(y, x) >= 0,
        y < 0 ==> atan2_spec(y, x) <= 0,
        y == 0 ==> atan2_spec(y, x) == 0 || atan2_spec(y, x) == PI,
        x >= 0 ==> -HALF_PI <= atan2_spec(y, x) <= HALF_PI,
        x <= 0 && (x != 0 || y != 0) ==> atan2_spec(y, x) <= -HALF_PI || atan2_spec(y, x)
            >= HALF_PI,
{
    reveal(atan2_spec);
    lemma_atan2_on_axes(1);
    lemma_div_of_zero(fx_abs(x));
    lemma_div_of_zero(fx_abs(y));
    assert(atan_unit_spec(0) == 0) by {
        reveal(atan2_spec);
        lemma_div_of_zero(1);
    }
    assert(0 <= atan_unit_spec(fx_div(fx_abs(y), fx_abs(x))) <= QUARTER_PI) by {
        reveal(atan_unit_spec);
    }
    assert(0 <= atan_unit_spec(fx_div(fx_abs(x), fx_abs(y))) <= QUARTER_PI) by {
        reveal(atan_unit_spec);
    }
}

/// On the first quarter turn the sine is at least 0.588 times the angle.
pub proof fn lemma_sin_quarter_lower(x: i64)
    requires
        0 <= x <= HALF_PI,
    ensures
        sin_quarter_spec(x) >= (x * 588_767) / 1_000_000,
{
    reveal(sin_quarter_spec);
    let x2 = fx_mul(x, x);
    assert(0 <= x2 <= 2_467_400) by {
        reveal(fx_mul_spec);
        assert(0 <= (x as int) * (x as int) <= 2_467_400_073_616) by (nonlinear_arith)
            requires
                0 <= x as int <= 1_570_796,
        ;
    }
    lemma_mul_one(x2);
    let t1 = series_step_spec(x2, ONE, 110);
    assert(0 <= t1 <= ONE);
    lemma_mul_lower(x2, t1, 0);
    let t2 = series_step_spec(x2, t1, 72);
    assert(0 <= t2 <= ONE);
    lemma_mul_lower(x2, t2, 0);
    let t3 = series_step_spec(x2, t2, 42);
    assert(0 <= t3 <= ONE);
    lemma_mul_lower(x2, t3, 0);
    let t4 = series_step_spec(x2, t3, 20);
    assert(0 <= t4 <= ONE);
    lemma_mul_lower(x2, t4, 0);
    let t5 = series_step_spec(x2, t4, 6);
    assert(588_767 <= t5 <= ONE);
    lemma_mul_lower(x, t5, 588_767);
}

/// The cosine of an angle that keeps a distance `margin` from the two quarter
/// turns is positive: at least 0.588 times the margin.
pub proof fn lemma_cos_lower(a: i64, margin: i64)
    requires
        0 <= margin <= HALF_PI,
        -HALF_PI + margin <= a <= HALF_PI - margin,
    ensures
        cos_spec(a) >= (margin * 588_767) / 1_000_000,
{
    reveal(sin_spec);
    let arg = (wrap_angle_spec(a) + HALF_PI) as i64;
    assert(wrap_angle_spec(a) == a);
    assert(wrap_angle_spec(arg) == arg);
    let f = if arg > HALF_PI { (PI - arg) as i64 } else { arg };
    assert(margin <= f <= HALF_PI);
    lemma_sin_quarter_lower(f);
}

/// Of the sine and the cosine of an angle, one is at least 0.4 in size.
pub proof fn lemma_sin_or_cos_large(a: i64)
    ensures
        sin_spec(a) >= 400_000 || sin_spec(a) <= -400_000 || cos_spec(a) >= 400_000 || cos_spec(a)
            <= -400_000,
{
    reveal(sin_spec);
    let w = wrap_angle_spec(a);
    let m = if w < 0 { (-w) as i64 } else { w };
    let f = if m > HALF_PI { (PI - m) as i64 } else { m };
    lemma_sin_quarter_lower(f);
    let arg = (w + HALF_PI) as i64;
    let w2 = wrap_angle_spec(arg);
    let m2 = if w2 < 0 { (-w2) as i64 } else { w2 };
    let f2 = if m2 > HALF_PI { (PI - m2) as i64 } else { m2 };
    lemma_sin_quarter_lower(f2);
    if f < QUARTER_PI {
        assert(f2 >= QUARTER_PI);
    }
}

/// Brings an angle into `(-PI, PI]` by adding or removing whole turns.
#[verifier::when_used_as_spec(wrap_angle_spec)]
pub fn wrap_angle(a: i64) -> (r: i64)
    ensures
        r == wrap_angle_spec(a),
        -PI < r <= PI,
        (r - a) % (TAU as int) == 0,
{
    let m: i64 = if a >= 0 {
        a % 6_283_184
    } else {
        let k: i128 = (-(a as i128)) % 6_283_184;
        if k == 0 {
            0
        } else {
            (6_283_184 - k) as i64
        }
    };
    if m > PI {
        m - TAU
    } else {
        m
    }
}

fn series_step(x2: i64, t: i64, k: i64) -> (r: i64)
    ensures
        r == series_step_spec(x2, t, k),
{
    fx_sub(ONE, fx_div_int(fx_mul(x2, t), k))
}

fn sin_quarter(x: i64) -> (r: i64)
    ensures
        r == sin_quarter_spec(x),
        0 <= r <= ONE,
{
    reveal(sin_quarter_spec);
    let x2 = fx_mul(x, x);
    let t1 = series_step(x2, ONE, 110);
    let t2 = series_step(x2, t1, 72);
    let t3 = series_step(x2, t2, 42);
    let t4 = series_step(x2, t3, 20);
    let t5 = series_step(x2, t4, 6);
    fx_clamp(fx_mul(x, t5), 0, ONE)
}

/// The sine of `a`.
#[verifier::when_used_as_spec(sin_spec)]
pub fn sin(a: i64) -> (r: i64)
    ensures
        r == sin_spec(a),
        -ONE <= r <= ONE,
{
    reveal(sin_spec);
    let w = wrap_angle(a);
    let m: i64 = if w < 0 { -w } else { w };
    let f: i64 = if m > HALF_PI { PI - m } else { m };
    let s = sin_quarter(f);
    if w < 0 {
        -s
    } else {
        s
    }
}

/// The cosine of `a`.
#[verifier::when_used_as_spec(cos_spec)]
pub fn cos(a: i64) -> (r: i64)
    ensures
        r == cos_spec(a),
        -ONE <= r <= ONE,
{
    sin(wrap_angle(a) + HALF_PI)
}

fn atan_small(t: i64) -> (r: i64)
    ensures
        r == atan_small_spec(t),
{
    reveal(atan_small_spec);
    let t2 = fx_mul(t, t);
    let u1 = fx_sub(111_111, fx_mul(t2, 90_909));
    let u2 = fx_sub(142_857, fx_mul(t2, u1));
    let u3 = fx_sub(200_000, fx_mul(t2, u2));
    let u4 = fx_sub(333_333, fx_mul(t2, u3));
    let u5 = fx_sub(ONE, fx_mul(t2, u4));
    fx_mul(t, u5)
}

fn atan_unit(r: i64) -> (a: i64)
    ensures
        a == atan_unit_spec(r),
        0 <= a <= QUARTER_PI,
{
    reveal(atan_unit_spec);
    if r <= TAN_EIGHTH_PI {
        fx_clamp(atan_small(r), 0, QUARTER_PI)
    } else {
        let t = fx_div(fx_sub(ONE, r), fx_add(ONE, r));
        fx_clamp(fx_sub(QUARTER_PI, atan_small(t)), 0, QUARTER_PI)
    }
}

/// The angle of the point `(x, y)` seen from the origin.
#[verifier::when_used_as_spec(atan2_spec)]
pub fn atan2(y: i64, x: i64) -> (a: i64)
    ensures
        a == atan2_spec(y, x),
        -PI <= a <= PI,
        x >= 0 ==> -HALF_PI <= a <= HALF_PI,
        y >= 0 ==> a >= 0,
{
    reveal(atan2_spec);
    let ax = fx_abs(x);
    let ay = fx_abs(y);
    let base: i64 = if ax == 0 && ay == 0 {
        0
    } else if ax >= ay {
        atan_unit(fx_div(ay, ax))
    } else {
        HALF_PI - atan_unit(fx_div(ax, ay))
    };
    let half: i64 = if x < 0 { PI - base } else { base };
    if y < 0 {
        -half
    } else {
        half
    }
}

/// The arcsine of `v`, after limiting `v` to the range from minus one to one.
#[verifier::when_used_as_spec(asin_spec)]
pub fn asin(v: i64) -> (a: i64)
    ensures
        a == asin_spec(v),
        -HALF_PI <= a <= HALF_PI,
{
    reveal(asin_spec);
    let c = fx_clamp(v, MINUS_ONE, ONE);
    assert(0 <= (c as int) * (c as int) <= 1_000_000_000_000) by (nonlinear_arith)
        requires
            -1_000_000 <= c as int <= 1_000_000,
    ;
    let rest: u128 = (1_000_000_000_000i128 - (c as i128) * (c as i128)) as u128;
    let root = isqrt_near(rest);
    proof {
        lemma_near_sqrt(rest as int);
    }
    assert(root as int <= 1_000_000) by (nonlinear_arith)
        requires
            0 <= root as int,
            (root as int) * (root as int) - (root as int) <= 1_000_000_000_000,
    ;
    atan2(c, root as i64)
}

} // verus!
