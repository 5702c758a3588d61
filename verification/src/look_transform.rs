//! The pose of a camera: where it is, what it looks at, and which way is up.

use vstd::prelude::*;
use crate::angle::{cos, lemma_quarter_turns, sin};
use crate::scalar::{
    fx_div_spec, fx_neg, lemma_div_of_zero, lemma_mul_one, lemma_mul_zero, lemma_near_sqrt_of_square,
    ONE,
};
use crate::vector::Vec3;

verus! {

/// The least distance that a controller leaves between eye and target.
pub const MIN_RADIUS: i64 = 1_000;

/// An eye position, the point it looks at, and the up direction of the world.
#[derive(Clone, Copy, Debug, PartialEq, Eq, Structural)]
pub struct LookTransform {
    pub eye: Vec3,
    pub target: Vec3,
    pub up: Vec3,
}

/// The axes of a rig turned about the vertical by a yaw, and by nothing else,
/// so that moving forward or sideways stays level whatever the pitch.
#[derive(Clone, Copy, Debug, PartialEq, Eq, Structural)]
pub struct YawBasis {
    pub x_axis: Vec3,
    pub y_axis: Vec3,
    pub z_axis: Vec3,
}

impl LookTransform {
    /// Whether eye and target differ, so that the pose has a direction.
    pub open spec fn is_valid(self) -> bool {
        self.eye != self.target
    }

    /// The pose with the given eye and target, and the second axis as up.
    pub open spec fn new_spec(eye: Vec3, target: Vec3) -> LookTransform {
        LookTransform { eye, target, up: Vec3::unit_y() }
    }

    /// The vector from eye to target, divided by its length.
    pub open spec fn look_direction_spec(&self) -> Vec3 {
        self.target.minus(self.eye).normalized()
    }

    /// The length of the vector from eye to target.
    pub open spec fn radius_spec(&self) -> i64 {
        self.target.minus(self.eye).length()
    }

    /// A pose with the second axis as up.
    #[verifier::when_used_as_spec(new_spec)]
    pub fn new(eye: Vec3, target: Vec3) -> (r: LookTransform)
        ensures
            r == LookTransform::new_spec(eye, target),
    {
        LookTransform { eye, target, up: Vec3::unit_y() }
    }

    /// The direction from eye to target, of unit length; the zero vector where
    /// eye and target coincide.
    #[verifier::when_used_as_spec(look_direction_spec)]
    pub fn look_direction(&self) -> (r: Vec3)
        ensures
            r == self.look_direction_spec(),
            !self.is_valid() ==> r == Vec3::zero(),
    {
        proof {
            lemma_div_of_zero(self.target.minus(self.eye).length());
        }
        self.target.minus(self.eye).normalized()
    }

    /// The distance from eye to target. It is zero exactly where they
    /// coincide.
    #[verifier::when_used_as_spec(radius_spec)]
    pub fn radius(&self) -> (r: i64)
        ensures
            r == self.radius_spec(),
            r >= 0,
            r == 0 <==> !self.is_valid(),
    {
        self.target.minus(self.eye).length()
    }
}

impl YawBasis {
    /// The axes of the world turned about the vertical by `yaw`.
    pub open spec fn from_yaw_spec(yaw: i64) -> YawBasis {
        YawBasis {
            x_axis: Vec3 { x: cos(yaw), y: 0, z: fx_neg(sin(yaw)) },
            y_axis: Vec3::unit_y(),
            z_axis: Vec3 { x: sin(yaw), y: 0, z: cos(yaw) },
        }
    }

    /// The sum of the three axes, each scaled by its coordinate in `local`.
    pub open spec fn to_world_spec(self, local: Vec3) -> Vec3 {
        self.x_axis.scaled(local.x).plus(self.y_axis.scaled(local.y)).plus(
            self.z_axis.scaled(local.z),
        )
    }

    /// The three axes turned about the vertical by `yaw`. At yaw zero they are
    /// the axes of the world.
    #[verifier::when_used_as_spec(from_yaw_spec)]
    pub fn from_yaw(yaw: i64) -> (r: YawBasis)
        ensures
            r == YawBasis::from_yaw_spec(yaw),
            r.y_axis == Vec3::unit_y(),
    {
        let s = sin(yaw);
        let c = cos(yaw);
        YawBasis {
            x_axis: Vec3 { x: c, y: 0, z: fx_neg(s) },
            y_axis: Vec3::unit_y(),
            z_axis: Vec3 { x: s, y: 0, z: c },
        }
    }

    /// The world vector with the coordinates `local` along the three axes.
    #[verifier::when_used_as_spec(to_world_spec)]
    pub fn to_world(self, local: Vec3) -> (r: Vec3)
        ensures
            r == self.to_world_spec(local),
    {
        self.x_axis.scaled(local.x).plus(self.y_axis.scaled(local.y)).plus(
            self.z_axis.scaled(local.z),
        )
    }
}

/// At yaw zero the axes of the rig are those of the world, and coordinates in
/// the rig are coordinates in the world.
pub proof fn basis_at_yaw_zero(local: Vec3)
    ensures
        YawBasis::from_yaw_spec(0) == (YawBasis {
            x_axis: Vec3::unit_x(),
            y_axis: Vec3::unit_y(),
            z_axis: Vec3::unit_z(),
        }),
        YawBasis::from_yaw_spec(0).to_world_spec(local) == local,
{
    lemma_quarter_turns();
    lemma_mul_one(local.x);
    lemma_mul_one(local.y);
    lemma_mul_one(local.z);
    lemma_mul_zero(local.x);
    lemma_mul_zero(local.y);
    lemma_mul_zero(local.z);
}

/// A pose whose target lies straight down the negative third axis from the eye
/// looks along that axis: its direction is the negative third unit vector, and
/// its radius is the distance along the axis.
pub proof fn looking_down_the_forward_axis(transform: LookTransform)
    requires
        transform.target.x == transform.eye.x,
        transform.target.y == transform.eye.y,
        i64::MIN < transform.target.z - transform.eye.z < 0,
    ensures
        transform.look_direction_spec() == Vec3::unit_z().negated(),
        transform.radius_spec() == transform.eye.z - transform.target.z,
{
    let depth = transform.target.z - transform.eye.z;
    let reach = -depth;
    let d = transform.target.minus(transform.eye);
    assert(d.x == 0 && d.y == 0 && d.z == depth);
    let squares = d.x * d.x + d.y * d.y + d.z * d.z;
    assert(squares == reach * reach) by (nonlinear_arith)
        requires
            squares == d.x * d.x + d.y * d.y + d.z * d.z,
            d.x == 0,
            d.y == 0,
            d.z == depth,
            reach == -depth,
    ;
    lemma_near_sqrt_of_square(reach);
    assert(d.length_spec() == reach);
    lemma_div_of_zero(reach as i64);
    assert(fx_div_spec(depth as i64, reach as i64) == -ONE) by {
        reveal(fx_div_spec);
        assert((reach * 1_000_000) / reach == 1_000_000) by (nonlinear_arith)
            requires
                reach > 0,
        ;
    }
}

} // verus!
