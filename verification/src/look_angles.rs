//! Yaw and pitch of a viewing direction, with a guard that keeps the pitch away
//! from the poles.
//!
//! At yaw zero and pitch zero the direction is the negative third axis, the way
//! a camera looks. A positive yaw turns the direction toward the negative first
//! axis, a positive pitch raises it.

use vstd::prelude::*;
use crate::angle::{
    asin, asin_spec, atan2, cos, lemma_atan2_on_axes, lemma_atan2_side, lemma_cos_lower,
    lemma_cos_range, lemma_cos_side, lemma_quarter_turns, lemma_sin_or_cos_large, lemma_sin_range,
    lemma_sin_side, sin,
    HALF_PI,
};
use crate::scalar::{
    fx_add, fx_clamp, fx_mul, fx_mul_spec, fx_neg, lemma_mul_side, lemma_near_sqrt,
    lemma_near_sqrt_of_square, lemma_rescale_nonzero, near_sqrt, ONE,
};
use crate::vector::{lemma_length_not_negative, lemma_resized_length, Vec3};

verus! {

/// How far the pitch is kept from a quarter turn.
pub const POLE_MARGIN: i64 = 10_000;

/// The pitch stays strictly between `-PITCH_LIMIT` and `PITCH_LIMIT`: a quarter
/// turn less the pole margin.
pub const PITCH_LIMIT: i64 = 1_560_796;

/// The largest pitch inside the guard.
pub const MAX_PITCH: i64 = 1_560_795;

/// The smallest pitch inside the guard.
pub const MIN_PITCH: i64 = -1_560_795;

/// A viewing direction as two angles in radians.
#[derive(Clone, Copy, Debug, PartialEq, Eq, Structural)]
pub struct LookAngles {
    /// The turn about the vertical axis. It is not limited: the circular
    /// functions take it modulo a full turn.
    pub yaw: i64,
    /// The elevation above the horizontal plane.
    pub pitch: i64,
}

/// The product of two numbers between minus one and one lies between minus
/// one and one.
pub proof fn lemma_unit_product(a: i64, b: i64)
    requires
        -ONE <= a <= ONE,
        -ONE <= b <= ONE,
    ensures
        -ONE <= fx_mul(a, b) <= ONE,
{
    reveal(fx_mul_spec);
    assert(-1_000_000_000_000 <= (a as int) * (b as int) <= 1_000_000_000_000)
        by (nonlinear_arith)
        requires
            -1_000_000 <= a as int <= 1_000_000,
            -1_000_000 <= b as int <= 1_000_000,
    ;
}

impl LookAngles {
    /// Whether the pitch lies strictly inside the pole guard.
    pub open spec fn is_guarded(self) -> bool {
        -PITCH_LIMIT < self.pitch < PITCH_LIMIT
    }

    /// The pitch of a direction before the guard is applied: the angle of the
    /// vertical part over the length of the horizontal part. For a direction
    /// of unit length this is the arcsine of the vertical part; taken from
    /// both parts, it keeps its precision near the poles.
    pub open spec fn raw_pitch_spec(direction: Vec3) -> i64 {
        atan2(direction.y, (Vec3 { x: direction.x, y: 0, z: direction.z }).length())
    }

    /// Whether the pitch of a direction lies inside the pole guard as it is.
    pub open spec fn is_inside_guard_spec(direction: Vec3) -> bool {
        MIN_PITCH <= LookAngles::raw_pitch_spec(direction) <= MAX_PITCH
    }

    /// The angles of a unit direction: the yaw from the horizontal part, the
    /// pitch from the vertical part, clamped into the pole guard.
    pub open spec fn from_vector_spec(direction: Vec3) -> LookAngles {
        LookAngles {
            yaw: atan2(fx_neg(direction.x), fx_neg(direction.z)),
            pitch: fx_clamp(LookAngles::raw_pitch_spec(direction), MIN_PITCH, MAX_PITCH),
        }
    }

    /// The direction of the angles: the negative third axis turned by the yaw
    /// and raised by the pitch.
    pub open spec fn unit_vector_spec(self) -> Vec3 {
        let level = cos(self.pitch);
        Vec3 {
            x: fx_neg(fx_mul(sin(self.yaw), level)),
            y: sin(self.pitch),
            z: fx_neg(fx_mul(cos(self.yaw), level)),
        }
    }

    /// The angles with the yaw changed by `delta`.
    pub open spec fn add_yaw_spec(self, delta: i64) -> LookAngles {
        LookAngles { yaw: fx_add(self.yaw, delta), pitch: self.pitch }
    }

    /// The angles with the pitch changed by `delta`.
    pub open spec fn add_pitch_spec(self, delta: i64) -> LookAngles {
        LookAngles { yaw: self.yaw, pitch: fx_add(self.pitch, delta) }
    }

    /// The angles with the pitch brought to the nearest value inside the pole
    /// guard.
    pub open spec fn clamp_pitch_spec(self) -> LookAngles {
        LookAngles { yaw: self.yaw, pitch: fx_clamp(self.pitch, MIN_PITCH, MAX_PITCH) }
    }

    /// The pitch of a direction before the guard is applied.
    #[verifier::when_used_as_spec(raw_pitch_spec)]
    pub fn raw_pitch(direction: Vec3) -> (r: i64)
        ensures
            r == LookAngles::raw_pitch_spec(direction),
            -HALF_PI <= r <= HALF_PI,
    {
        atan2(direction.y, (Vec3 { x: direction.x, y: 0, z: direction.z }).length())
    }

    /// Whether the pitch of a direction lies inside the pole guard as it is,
    /// so that `from_vector` does not have to clamp it.
    #[verifier::when_used_as_spec(is_inside_guard_spec)]
    pub fn is_inside_guard(direction: Vec3) -> (r: bool)
        ensures
            r == LookAngles::is_inside_guard_spec(direction),
    {
        let pitch = LookAngles::raw_pitch(direction);
        MIN_PITCH <= pitch && pitch <= MAX_PITCH
    }

    /// The angles of a unit direction. The yaw is the angle of the horizontal
    /// part, the pitch the arcsine of the vertical part, taken as the angle of
    /// the vertical part over the length of the horizontal part and brought
    /// inside the pole guard: a vertical direction gives the steepest pitch
    /// that the guard admits.
    #[verifier::when_used_as_spec(from_vector_spec)]
    pub fn from_vector(direction: Vec3) -> (r: LookAngles)
        ensures
            r == LookAngles::from_vector_spec(direction),
            r.is_guarded(),
    {
        LookAngles {
            yaw: atan2(fx_neg(direction.x), fx_neg(direction.z)),
            pitch: fx_clamp(LookAngles::raw_pitch(direction), MIN_PITCH, MAX_PITCH),
        }
    }

    /// The direction that the angles describe: the negative third axis turned
    /// by the yaw, then raised by the pitch. Every component lies between
    /// minus one and one.
    #[verifier::when_used_as_spec(unit_vector_spec)]
    pub fn unit_vector(self) -> (r: Vec3)
        ensures
            r == self.unit_vector_spec(),
            -ONE <= r.x <= ONE,
            -ONE <= r.y <= ONE,
            -ONE <= r.z <= ONE,
    {
        let level = cos(self.pitch);
        let s = sin(self.yaw);
        let c = cos(self.yaw);
        proof {
            lemma_unit_product(s, level);
            lemma_unit_product(c, level);
        }
        Vec3 { x: fx_neg(fx_mul(s, level)), y: sin(self.pitch), z: fx_neg(fx_mul(c, level)) }
    }

    /// The turn about the vertical axis.
    pub fn get_yaw(self) -> (r: i64)
        ensures
            r == self.yaw,
    {
        self.yaw
    }

    /// The elevation above the horizontal plane.
    pub fn get_pitch(self) -> (r: i64)
        ensures
            r == self.pitch,
    {
        self.pitch
    }

    /// Turns by `delta`. The yaw is not limited.
    pub fn add_yaw(&mut self, delta: i64)
        ensures
            *final(self) == old(self).add_yaw_spec(delta),
    {
        self.yaw = fx_add(self.yaw, delta);
    }

    /// Raises the direction by `delta`. The result may leave the pole guard
    /// until `clamp_pitch` is called.
    pub fn add_pitch(&mut self, delta: i64)
        ensures
            *final(self) == old(self).add_pitch_spec(delta),
    {
        self.pitch = fx_add(self.pitch, delta);
    }

    /// Brings the pitch back inside the pole guard, to the nearest admitted
    /// value.
    pub fn clamp_pitch(&mut self)
        ensures
            *final(self) == old(self).clamp_pitch_spec(),
            final(self).is_guarded(),
            old(self).is_guarded() ==> *final(self) == *old(self),
    {
        self.pitch = fx_clamp(self.pitch, MIN_PITCH, MAX_PITCH);
    }
}

/// The angles after raising them by each of `deltas` in turn.
pub open spec fn pitch_run(start: LookAngles, deltas: Seq<i64>) -> LookAngles
    decreases deltas.len(),
{
    if deltas.len() == 0 {
        start
    } else {
        pitch_run(start, deltas.drop_last()).add_pitch_spec(deltas.last())
    }
}

/// The pole guard holds after any run of pitch changes, however far they push
/// toward a pole: once clamped, the pitch lies strictly inside the guard, and
/// the direction of the angles has every component between minus one and one.
pub proof fn pole_guard_holds(start: LookAngles, deltas: Seq<i64>)
    ensures
        pitch_run(start, deltas).clamp_pitch_spec().is_guarded(),
        -PITCH_LIMIT < pitch_run(start, deltas).clamp_pitch_spec().pitch < PITCH_LIMIT,
        ({
            let v = pitch_run(start, deltas).clamp_pitch_spec().unit_vector_spec();
            &&& -ONE <= v.x <= ONE
            &&& -ONE <= v.y <= ONE
            &&& -ONE <= v.z <= ONE
        }),
{
    let a = pitch_run(start, deltas).clamp_pitch_spec();
    lemma_unit_range(a);
}

/// The direction of any angles has every component between minus one and one.
pub proof fn lemma_unit_range(a: LookAngles)
    ensures
        -ONE <= a.unit_vector_spec().x <= ONE,
        -ONE <= a.unit_vector_spec().y <= ONE,
        -ONE <= a.unit_vector_spec().z <= ONE,
{
    lemma_sin_range(a.yaw);
    lemma_sin_range(a.pitch);
    lemma_cos_range(a.yaw);
    lemma_cos_range(a.pitch);
    lemma_unit_product(sin(a.yaw), cos(a.pitch));
    lemma_unit_product(cos(a.yaw), cos(a.pitch));
}

/// Inside the pole guard a direction never stands upright: its first or its
/// third component is at least 0.002 in size.
pub proof fn guarded_direction_is_not_vertical(a: LookAngles)
    requires
        a.is_guarded(),
    ensures
        ({
            let v = a.unit_vector_spec();
            v.x >= 2_000 || v.x <= -2_000 || v.z >= 2_000 || v.z <= -2_000
        }),
{
    lemma_cos_lower(a.pitch, POLE_MARGIN);
    let level = cos(a.pitch);
    assert(level >= 5_887);
    lemma_sin_or_cos_large(a.yaw);
    let s = sin(a.yaw);
    let c = cos(a.yaw);
    lemma_sin_range(a.yaw);
    lemma_cos_range(a.yaw);
    lemma_cos_range(a.pitch);
    if s >= 400_000 || s <= -400_000 {
        lemma_product_size(s, level);
    } else {
        lemma_product_size(c, level);
    }
}

proof fn lemma_product_size(a: i64, level: i64)
    requires
        a >= 400_000 || a <= -400_000,
        -ONE <= a <= ONE,
        5_887 <= level <= ONE,
    ensures
        fx_mul(a, level) >= 2_000 || fx_mul(a, level) <= -2_000,
{
    reveal(fx_mul_spec);
    if a > 0 {
        assert(2_354_800_000 <= (a as int) * (level as int) <= 1_000_000_000_000)
            by (nonlinear_arith)
            requires
                400_000 <= a as int <= 1_000_000,
                5_887 <= level as int <= 1_000_000,
        ;
    } else {
        assert(2_354_800_000 <= (-(a as int)) * (level as int) <= 1_000_000_000_000 && (-(a as int))
            * (level as int) == -((a as int) * (level as int))) by (nonlinear_arith)
            requires
                400_000 <= -(a as int) <= 1_000_000,
                5_887 <= level as int <= 1_000_000,
        ;
    }
}

/// A direction inside the pole guard, brought to a length of `MIN_RADIUS` or
/// more, is not the zero vector: its first or its third component is not zero.
pub proof fn guarded_offset_is_not_zero(a: LookAngles, reach: i64)
    requires
        a.is_guarded(),
        reach >= 1_000,
    ensures
        a.unit_vector_spec().resized(reach).x != 0 || a.unit_vector_spec().resized(reach).z != 0,
{
    guarded_direction_is_not_vertical(a);
    lemma_unit_range(a);
    let v = a.unit_vector_spec();
    let n = v.x * v.x + v.y * v.y + v.z * v.z;
    assert(0 <= n <= 3_000_000_000_000) by (nonlinear_arith)
        requires
            n == v.x * v.x + v.y * v.y + v.z * v.z,
            -1_000_000 <= v.x <= 1_000_000,
            -1_000_000 <= v.y <= 1_000_000,
            -1_000_000 <= v.z <= 1_000_000,
    ;
    lemma_near_sqrt(n);
    let own = near_sqrt(n);
    assert(own <= 2_000_000) by (nonlinear_arith)
        requires
            0 <= own,
            own * own - own <= n,
            n <= 3_000_000_000_000,
    ;
    lemma_length_not_negative(v);
    assert(2_000 * reach >= own) by (nonlinear_arith)
        requires
            reach >= 1_000,
            own <= 2_000_000,
    ;
    if v.x >= 2_000 || v.x <= -2_000 {
        lemma_rescale_nonzero(v.x, reach, v.length_spec(), 2_000);
    } else {
        lemma_rescale_nonzero(v.z, reach, v.length_spec(), 2_000);
    }
}

proof fn lemma_level_product(a: i64, level: i64)
    requires
        a >= 400_000 || a <= -400_000,
        -ONE <= a <= ONE,
        400_000 <= level <= ONE,
    ensures
        fx_mul(a, level) >= 160_000 || fx_mul(a, level) <= -160_000,
{
    reveal(fx_mul_spec);
    if a > 0 {
        assert(160_000_000_000 <= (a as int) * (level as int) <= 1_000_000_000_000)
            by (nonlinear_arith)
            requires
                400_000 <= a as int <= 1_000_000,
                400_000 <= level as int <= 1_000_000,
        ;
    } else {
        assert(160_000_000_000 <= (-(a as int)) * (level as int) <= 1_000_000_000_000 && (-(
        a as int)) * (level as int) == -((a as int) * (level as int))) by (nonlinear_arith)
            requires
                400_000 <= -(a as int) <= 1_000_000,
                400_000 <= level as int <= 1_000_000,
        ;
    }
}

/// The direction of angles inside the pole guard is 0.16 long at least.
pub proof fn guarded_direction_has_length(a: LookAngles)
    requires
        a.is_guarded(),
    ensures
        a.unit_vector_spec().length_spec() >= 160_000,
{
    let v = a.unit_vector_spec();
    lemma_unit_range(a);
    lemma_sin_or_cos_large(a.pitch);
    lemma_sin_or_cos_large(a.yaw);
    lemma_sin_range(a.yaw);
    lemma_cos_range(a.yaw);
    lemma_cos_range(a.pitch);
    lemma_cos_lower(a.pitch, POLE_MARGIN);
    let level = cos(a.pitch);
    if level >= 400_000 {
        if sin(a.yaw) >= 400_000 || sin(a.yaw) <= -400_000 {
            lemma_level_product(sin(a.yaw), level);
        } else {
            lemma_level_product(cos(a.yaw), level);
        }
    }
    let n = v.x * v.x + v.y * v.y + v.z * v.z;
    assert(25_600_000_000 <= n <= 3_000_000_000_000) by (nonlinear_arith)
        requires
            n == v.x * v.x + v.y * v.y + v.z * v.z,
            -1_000_000 <= v.x <= 1_000_000,
            -1_000_000 <= v.y <= 1_000_000,
            -1_000_000 <= v.z <= 1_000_000,
            v.x >= 160_000 || v.x <= -160_000 || v.y >= 400_000 || v.y <= -400_000 || v.z
                >= 160_000 || v.z <= -160_000,
    ;
    lemma_near_sqrt(n);
    let own = near_sqrt(n);
    assert(160_000 <= own <= 2_000_000) by (nonlinear_arith)
        requires
            0 <= own,
            own * own - own <= n <= own * own + own,
            25_600_000_000 <= n <= 3_000_000_000_000,
    ;
}

/// A view that is rebuilt from angles inside the pole guard has the length
/// that was asked for, within a hundred-and-sixty-thousandth of it and
/// twenty-four units of the last place.
pub proof fn rebuilt_view_has_its_length(a: LookAngles, reach: i64)
    requires
        a.is_guarded(),
        0 <= reach <= 1_000_000_000_000_000,
    ensures
        -(reach / 160_000 + 24) <= a.unit_vector_spec().resized(reach).length() - reach <= reach
            / 160_000 + 24,
{
    lemma_unit_range(a);
    guarded_direction_has_length(a);
    lemma_resized_length(a.unit_vector_spec(), reach);
}

/// A level direction along the negative third axis has yaw zero and pitch
/// zero.
pub proof fn angles_of_the_forward_axis(depth: i64)
    requires
        depth < 0,
        depth > i64::MIN,
    ensures
        LookAngles::from_vector_spec(Vec3 { x: 0, y: 0, z: depth }) == (LookAngles {
            yaw: 0,
            pitch: 0,
        }),
{
    let reach = -depth;
    let level = Vec3 { x: 0, y: 0, z: depth };
    let squares = level.x * level.x + level.y * level.y + level.z * level.z;
    assert(squares == reach * reach) by (nonlinear_arith)
        requires
            squares == level.x * level.x + level.y * level.y + level.z * level.z,
            level.x == 0,
            level.y == 0,
            level.z == depth,
            reach == -depth,
    ;
    lemma_near_sqrt_of_square(reach);
    assert(level.length_spec() == reach);
    lemma_atan2_on_axes(reach as i64);
}

/// For a direction of exactly unit length the pitch is the arcsine of the
/// vertical part.
pub proof fn pitch_of_a_unit_vector(direction: Vec3)
    requires
        direction.x * direction.x + direction.y * direction.y + direction.z * direction.z == ONE
            * ONE,
    ensures
        LookAngles::raw_pitch_spec(direction) == asin(direction.y),
{
    reveal(asin_spec);
    let x = direction.x as int;
    let y = direction.y as int;
    let z = direction.z as int;
    assert(-1_000_000 <= y <= 1_000_000 && x * x + 0 * 0 + z * z == ONE * ONE - y * y && 0 <= x * x
        + z * z <= 1_000_000_000_000) by (nonlinear_arith)
        requires
            x * x + y * y + z * z == ONE * ONE,
            ONE == 1_000_000,
    ;
    let level = Vec3 { x: direction.x, y: 0, z: direction.z };
    let n = level.x * level.x + level.y * level.y + level.z * level.z;
    assert(n == ONE * ONE - y * y);
    lemma_near_sqrt(n);
    let r = near_sqrt(n);
    assert(r <= 1_000_000) by (nonlinear_arith)
        requires
            0 <= r,
            r * r - r <= n,
            n <= 1_000_000_000_000,
    ;
}

/// The way from a direction to its angles and back keeps the side of every
/// component: a component that is not negative comes back not negative, and
/// one that is not positive comes back not positive. For the two horizontal
/// components this holds of every direction that is not vertical.
pub proof fn round_trip_keeps_the_octant(v: Vec3)
    ensures
        ({
            let u = LookAngles::from_vector_spec(v).unit_vector_spec();
            &&& (v.y >= 0 ==> u.y >= 0)
            &&& (v.y <= 0 ==> u.y <= 0)
            &&& (v.x != 0 || v.z != 0) ==> {
                &&& (v.x >= 0 ==> u.x >= 0)
                &&& (v.x <= 0 ==> u.x <= 0)
                &&& (v.z >= 0 ==> u.z >= 0)
                &&& (v.z <= 0 ==> u.z <= 0)
            }
        }),
{
    let a = LookAngles::from_vector_spec(v);
    let level_length = (Vec3 { x: v.x, y: 0, z: v.z }).length();
    lemma_length_not_negative(Vec3 { x: v.x, y: 0, z: v.z });
    lemma_atan2_side(fx_neg(v.x), fx_neg(v.z));
    lemma_atan2_side(v.y, level_length);
    lemma_sin_side(a.yaw);
    lemma_sin_side(a.pitch);
    lemma_cos_side(a.yaw);
    lemma_cos_side(a.pitch);
    lemma_mul_side(sin(a.yaw), cos(a.pitch));
    lemma_mul_side(cos(a.yaw), cos(a.pitch));
    lemma_quarter_turns();
}

} // verus!
