//! Vectors and rotations with fixed-point components.

use vstd::prelude::*;
use crate::scalar::{
    between, div_near, fx_add, fx_div, fx_mix, fx_mul, fx_neg, fx_rescale, fx_rescale_spec, fx_sub,
    gap, isqrt_near, lemma_div_near_error, lemma_near_sqrt, lemma_rescaled_square,
    lemma_root_near_length, near_sqrt, saturate, ONE,
};

verus! {

/// A pair of scalars: a pointer motion, or a sensitivity for each axis.
#[derive(Clone, Copy, Debug, PartialEq, Eq, Structural)]
pub struct Vec2 {
    pub x: i64,
    pub y: i64,
}

/// A point or a direction in space.
#[derive(Clone, Copy, Debug, PartialEq, Eq, Structural)]
pub struct Vec3 {
    pub x: i64,
    pub y: i64,
    pub z: i64,
}

/// A rotation in space, as a quaternion of unit length.
#[derive(Clone, Copy, Debug, PartialEq, Eq, Structural)]
pub struct Quat {
    pub x: i64,
    pub y: i64,
    pub z: i64,
    pub w: i64,
}

impl Vec2 {
    /// The vector with the given components.
    pub open spec fn new_spec(x: i64, y: i64) -> Vec2 {
        Vec2 { x, y }
    }

    /// The vector whose components are zero.
    pub open spec fn zero_spec() -> Vec2 {
        Vec2 { x: 0, y: 0 }
    }

    /// The sum, component by component, saturated.
    pub open spec fn plus_spec(self, rhs: Vec2) -> Vec2 {
        Vec2 { x: fx_add(self.x, rhs.x), y: fx_add(self.y, rhs.y) }
    }

    /// The product, component by component.
    pub open spec fn times_spec(self, rhs: Vec2) -> Vec2 {
        Vec2 { x: fx_mul(self.x, rhs.x), y: fx_mul(self.y, rhs.y) }
    }

    /// The vector with the given components.
    #[verifier::when_used_as_spec(new_spec)]
    pub fn new(x: i64, y: i64) -> (r: Vec2)
        ensures
            r == Vec2::new_spec(x, y),
    {
        Vec2 { x, y }
    }

    /// The vector whose components are zero.
    #[verifier::when_used_as_spec(zero_spec)]
    pub fn zero() -> (r: Vec2)
        ensures
            r == Vec2::zero_spec(),
    {
        Vec2 { x: 0, y: 0 }
    }

    /// The sum, component by component.
    #[verifier::when_used_as_spec(plus_spec)]
    pub fn plus(self, rhs: Vec2) -> (r: Vec2)
        ensures
            r == self.plus_spec(rhs),
    {
        Vec2 { x: fx_add(self.x, rhs.x), y: fx_add(self.y, rhs.y) }
    }

    /// The product, component by component.
    #[verifier::when_used_as_spec(times_spec)]
    pub fn times(self, rhs: Vec2) -> (r: Vec2)
        ensures
            r == self.times_spec(rhs),
    {
        Vec2 { x: fx_mul(self.x, rhs.x), y: fx_mul(self.y, rhs.y) }
    }
}

/// The sum of a sequence of vectors, taken from the first to the last.
pub open spec fn vec2_sum(s: Seq<Vec2>) -> Vec2
    decreases s.len(),
{
    if s.len() == 0 {
        Vec2::zero()
    } else {
        vec2_sum(s.drop_last()).plus(s.last())
    }
}

/// Adds up the vectors of `s`.
pub fn sum_vec2(s: &Vec<Vec2>) -> (r: Vec2)
    ensures
        r == vec2_sum(s@),
{
    let mut total = Vec2::zero();
    let mut i: usize = 0;
    while i < s.len()
        invariant
            i <= s.len(),
            total == vec2_sum(s@.take(i as int)),
        decreases s.len() - i,
    {
        assert(s@.take(i + 1).drop_last() == s@.take(i as int));
        total = total.plus(s[i]);
        i += 1;
    }
    assert(s@.take(s.len() as int) == s@);
    total
}

fn square_wide(a: i64) -> (r: u128)
    ensures
        r as int == (a as int) * (a as int),
        r <= 0x4000_0000_0000_0000_0000_0000_0000_0000,
{
    assert(0 <= (a as int) * (a as int) <= 0x4000_0000_0000_0000_0000_0000_0000_0000)
        by (nonlinear_arith)
        requires
            -0x8000_0000_0000_0000 <= a as int <= 0x8000_0000_0000_0000,
    ;
    ((a as i128) * (a as i128)) as u128
}

impl Vec3 {
    /// The vector with the given components.
    pub open spec fn new_spec(x: i64, y: i64, z: i64) -> Vec3 {
        Vec3 { x, y, z }
    }

    /// The vector whose components are zero.
    pub open spec fn zero_spec() -> Vec3 {
        Vec3 { x: 0, y: 0, z: 0 }
    }

    /// The unit vector along the first axis.
    pub open spec fn unit_x_spec() -> Vec3 {
        Vec3 { x: ONE, y: 0, z: 0 }
    }

    /// The unit vector along the second axis, which points up.
    pub open spec fn unit_y_spec() -> Vec3 {
        Vec3 { x: 0, y: ONE, z: 0 }
    }

    /// The unit vector along the third axis.
    pub open spec fn unit_z_spec() -> Vec3 {
        Vec3 { x: 0, y: 0, z: ONE }
    }

    /// The sum, component by component, saturated.
    pub open spec fn plus_spec(self, rhs: Vec3) -> Vec3 {
        Vec3 { x: fx_add(self.x, rhs.x), y: fx_add(self.y, rhs.y), z: fx_add(self.z, rhs.z) }
    }

    /// The difference, component by component, saturated.
    pub open spec fn minus_spec(self, rhs: Vec3) -> Vec3 {
        Vec3 { x: fx_sub(self.x, rhs.x), y: fx_sub(self.y, rhs.y), z: fx_sub(self.z, rhs.z) }
    }

    /// The opposite vector.
    pub open spec fn negated_spec(self) -> Vec3 {
        Vec3 { x: fx_neg(self.x), y: fx_neg(self.y), z: fx_neg(self.z) }
    }

    /// The vector with every component multiplied by `s`.
    pub open spec fn scaled_spec(self, s: i64) -> Vec3 {
        Vec3 { x: fx_mul(self.x, s), y: fx_mul(self.y, s), z: fx_mul(self.z, s) }
    }

    /// The scalar product.
    pub open spec fn dot_spec(self, rhs: Vec3) -> i64 {
        fx_add(fx_add(fx_mul(self.x, rhs.x), fx_mul(self.y, rhs.y)), fx_mul(self.z, rhs.z))
    }

    /// The vector product.
    pub open spec fn cross_spec(self, rhs: Vec3) -> Vec3 {
        Vec3 {
            x: fx_sub(fx_mul(self.y, rhs.z), fx_mul(self.z, rhs.y)),
            y: fx_sub(fx_mul(self.z, rhs.x), fx_mul(self.x, rhs.z)),
            z: fx_sub(fx_mul(self.x, rhs.y), fx_mul(self.y, rhs.x)),
        }
    }

    /// The point between `fresh` and `self` that keeps the share `weight` of
    /// `self`, component by component.
    pub open spec fn mix_spec(self, fresh: Vec3, weight: i64) -> Vec3 {
        Vec3 {
            x: fx_mix(self.x, fresh.x, weight),
            y: fx_mix(self.y, fresh.y, weight),
            z: fx_mix(self.z, fresh.z, weight),
        }
    }

    /// Whether the sum with `rhs` can be represented, so that adding `rhs`
    /// does not saturate.
    pub open spec fn sum_fits(self, rhs: Vec3) -> bool {
        &&& i64::MIN <= self.x + rhs.x <= i64::MAX
        &&& i64::MIN <= self.y + rhs.y <= i64::MAX
        &&& i64::MIN <= self.z + rhs.z <= i64::MAX
    }

    /// Whether every component lies between those of `a` and `b`.
    pub open spec fn is_between(self, a: Vec3, b: Vec3) -> bool {
        between(self.x, a.x, b.x) && between(self.y, a.y, b.y) && between(self.z, a.z, b.z)
    }

    /// The largest distance between two components of the same name.
    pub open spec fn gap_to(self, rhs: Vec3) -> int {
        let gx = gap(self.x, rhs.x);
        let gy = gap(self.y, rhs.y);
        let gz = gap(self.z, rhs.z);
        if gx >= gy && gx >= gz {
            gx
        } else if gy >= gz {
            gy
        } else {
            gz
        }
    }

    /// The Euclidean length: the square root of the sum of the squared
    /// components, to the nearest unit of the last place, saturated.
    pub open spec fn length_spec(self) -> i64 {
        saturate(near_sqrt(self.x * self.x + self.y * self.y + self.z * self.z)) as i64
    }

    /// The vector brought to the length `length`, each component to the
    /// nearest unit of the last place; the zero vector where the length of the
    /// vector is zero.
    pub open spec fn resized_spec(self, length: i64) -> Vec3 {
        let own = self.length_spec();
        Vec3 {
            x: fx_rescale(self.x, length, own),
            y: fx_rescale(self.y, length, own),
            z: fx_rescale(self.z, length, own),
        }
    }

    /// The vector divided by its length; the zero vector where the length is
    /// zero.
    pub open spec fn normalized_spec(self) -> Vec3 {
        let len = self.length_spec();
        Vec3 { x: fx_div(self.x, len), y: fx_div(self.y, len), z: fx_div(self.z, len) }
    }

    /// The vector with the given components.
    #[verifier::when_used_as_spec(new_spec)]
    pub fn new(x: i64, y: i64, z: i64) -> (r: Vec3)
        ensures
            r == Vec3::new_spec(x, y, z),
    {
        Vec3 { x, y, z }
    }

    /// The vector whose components are zero.
    #[verifier::when_used_as_spec(zero_spec)]
    pub fn zero() -> (r: Vec3)
        ensures
            r == Vec3::zero_spec(),
    {
        Vec3 { x: 0, y: 0, z: 0 }
    }

    /// The unit vector along the first axis.
    #[verifier::when_used_as_spec(unit_x_spec)]
    pub fn unit_x() -> (r: Vec3)
        ensures
            r == Vec3::unit_x_spec(),
    {
        Vec3 { x: ONE, y: 0, z: 0 }
    }

    /// The unit vector along the second axis, which points up.
    #[verifier::when_used_as_spec(unit_y_spec)]
    pub fn unit_y() -> (r: Vec3)
        ensures
            r == Vec3::unit_y_spec(),
    {
        Vec3 { x: 0, y: ONE, z: 0 }
    }

    /// The unit vector along the third axis.
    #[verifier::when_used_as_spec(unit_z_spec)]
    pub fn unit_z() -> (r: Vec3)
        ensures
            r == Vec3::unit_z_spec(),
    {
        Vec3 { x: 0, y: 0, z: ONE }
    }

    /// The sum, component by component.
    #[verifier::when_used_as_spec(plus_spec)]
    pub fn plus(self, rhs: Vec3) -> (r: Vec3)
        ensures
            r == self.plus_spec(rhs),
    {
        Vec3 { x: fx_add(self.x, rhs.x), y: fx_add(self.y, rhs.y), z: fx_add(self.z, rhs.z) }
    }

    /// The difference, component by component.
    #[verifier::when_used_as_spec(minus_spec)]
    pub fn minus(self, rhs: Vec3) -> (r: Vec3)
        ensures
            r == self.minus_spec(rhs),
    {
        Vec3 { x: fx_sub(self.x, rhs.x), y: fx_sub(self.y, rhs.y), z: fx_sub(self.z, rhs.z) }
    }

    /// The opposite vector.
    #[verifier::when_used_as_spec(negated_spec)]
    pub fn negated(self) -> (r: Vec3)
        ensures
            r == self.negated_spec(),
    {
        Vec3 { x: fx_neg(self.x), y: fx_neg(self.y), z: fx_neg(self.z) }
    }

    /// The vector with every component multiplied by `s`.
    #[verifier::when_used_as_spec(scaled_spec)]
    pub fn scaled(self, s: i64) -> (r: Vec3)
        ensures
            r == self.scaled_spec(s),
    {
        Vec3 { x: fx_mul(self.x, s), y: fx_mul(self.y, s), z: fx_mul(self.z, s) }
    }

    /// The scalar product.
    #[verifier::when_used_as_spec(dot_spec)]
    pub fn dot(self, rhs: Vec3) -> (r: i64)
        ensures
            r == self.dot_spec(rhs),
    {
        fx_add(fx_add(fx_mul(self.x, rhs.x), fx_mul(self.y, rhs.y)), fx_mul(self.z, rhs.z))
    }

    /// The vector product.
    #[verifier::when_used_as_spec(cross_spec)]
    pub fn cross(self, rhs: Vec3) -> (r: Vec3)
        ensures
            r == self.cross_spec(rhs),
    {
        Vec3 {
            x: fx_sub(fx_mul(self.y, rhs.z), fx_mul(self.z, rhs.y)),
            y: fx_sub(fx_mul(self.z, rhs.x), fx_mul(self.x, rhs.z)),
            z: fx_sub(fx_mul(self.x, rhs.y), fx_mul(self.y, rhs.x)),
        }
    }

    /// The point between `fresh` and `self` that keeps the share `weight` of
    /// `self`, component by component.
    #[verifier::when_used_as_spec(mix_spec)]
    pub fn mix(self, fresh: Vec3, weight: i64) -> (r: Vec3)
        ensures
            r == self.mix_spec(fresh, weight),
            r.is_between(fresh, self),
    {
        Vec3 {
            x: fx_mix(self.x, fresh.x, weight),
            y: fx_mix(self.y, fresh.y, weight),
            z: fx_mix(self.z, fresh.z, weight),
        }
    }

    /// The Euclidean length.
    #[verifier::when_used_as_spec(length_spec)]
    pub fn length(self) -> (r: i64)
        ensures
            r == self.length_spec(),
            r >= 0,
            r == 0 <==> self == Vec3::zero(),
    {
        let sum: u128 = square_wide(self.x) + square_wide(self.y) + square_wide(self.z);
        let root: u128 = isqrt_near(sum);
        proof {
            lemma_length_not_negative(self);
        }
        if root > 0x7fff_ffff_ffff_ffff {
            i64::MAX
        } else {
            root as i64
        }
    }

    /// The vector brought to the length `length`.
    #[verifier::when_used_as_spec(resized_spec)]
    pub fn resized(self, length: i64) -> (r: Vec3)
        ensures
            r == self.resized_spec(length),
    {
        let own = self.length();
        Vec3 {
            x: fx_rescale(self.x, length, own),
            y: fx_rescale(self.y, length, own),
            z: fx_rescale(self.z, length, own),
        }
    }

    /// The vector divided by its length; the zero vector where the length is
    /// zero.
    #[verifier::when_used_as_spec(normalized_spec)]
    pub fn normalized(self) -> (r: Vec3)
        ensures
            r == self.normalized_spec(),
    {
        let len = self.length();
        Vec3 { x: fx_div(self.x, len), y: fx_div(self.y, len), z: fx_div(self.z, len) }
    }
}

/// A length is not negative, and it is zero for the zero vector alone.
pub proof fn lemma_length_not_negative(v: Vec3)
    ensures
        v.length_spec() >= 0,
        v != Vec3::zero_spec() ==> v.length_spec() >= 1,
        v == Vec3::zero_spec() ==> v.length_spec() == 0,
{
    let n = v.x * v.x + v.y * v.y + v.z * v.z;
    assert(n >= 0 && (v.x != 0 || v.y != 0 || v.z != 0 ==> n >= 1) && (v.x == 0 && v.y == 0 && v.z
        == 0 ==> n == 0)) by (nonlinear_arith)
        requires
            n == v.x * v.x + v.y * v.y + v.z * v.z,
    ;
    lemma_near_sqrt(n);
}

proof fn lemma_rescaled_component(c: i64, length: i64, own: int) -> (q: int)
    requires
        -ONE <= c <= ONE,
        160_000 <= own <= 2_000_000,
        0 <= length <= 1_000_000_000_000_000,
    ensures
        q == fx_rescale_spec(c, length, own as i64),
        -(4_000_000 * (own * length) + own * own) <= 4 * ((q * q) * (own * own) - (c * c) * (length
            * length)) <= 4_000_000 * (own * length) + own * own,
{
    reveal(fx_rescale_spec);
    let n = c * length;
    let near = div_near(n, own);
    lemma_div_near_error(n, own);
    assert(-1_000_000_000_000_000_000_000 <= n <= 1_000_000_000_000_000_000_000)
        by (nonlinear_arith)
        requires
            n == c * length,
            -1_000_000 <= c <= 1_000_000,
            0 <= length <= 1_000_000_000_000_000,
    ;
    assert(-10_000_000_000_000_000 <= near <= 10_000_000_000_000_000) by (nonlinear_arith)
        requires
            -own <= 2 * (near * own - n) <= own,
            160_000 <= own <= 2_000_000,
            -1_000_000_000_000_000_000_000 <= n <= 1_000_000_000_000_000_000_000,
    ;
    lemma_rescaled_square(near, c as int, length as int, own);
    near
}

/// A vector brought to a length has that length, within a
/// hundred-and-sixty-thousandth of it and twenty-four units of the last place,
/// if its components are no larger than one and its own length is 0.16 at
/// least.
pub proof fn lemma_resized_length(v: Vec3, length: i64)
    requires
        -ONE <= v.x <= ONE,
        -ONE <= v.y <= ONE,
        -ONE <= v.z <= ONE,
        v.length_spec() >= 160_000,
        0 <= length <= 1_000_000_000_000_000,
    ensures
        -(length / 160_000 + 24) <= v.resized_spec(length).length_spec() - length <= length
            / 160_000 + 24,
{
    let n = v.x * v.x + v.y * v.y + v.z * v.z;
    assert(0 <= n <= 3_000_000_000_000) by (nonlinear_arith)
        requires
            n == v.x * v.x + v.y * v.y + v.z * v.z,
            -1_000_000 <= v.x <= 1_000_000,
            -1_000_000 <= v.y <= 1_000_000,
            -1_000_000 <= v.z <= 1_000_000,
    ;
    lemma_near_sqrt(n);
    let own = near_sqrt(n);
    assert(own <= 2_000_000) by (nonlinear_arith)
        requires
            0 <= own,
            own * own - own <= n,
            n <= 3_000_000_000_000,
    ;
    assert(v.length_spec() == own);
    let l = length as int;
    let qx = lemma_rescaled_component(v.x, length, own);
    let qy = lemma_rescaled_component(v.y, length, own);
    let qz = lemma_rescaled_component(v.z, length, own);
    let number = qx * qx + qy * qy + qz * qz;
    let oo = own * own;
    let ll = l * l;
    let ol = own * l;
    assert(number * oo == (qx * qx) * oo + (qy * qy) * oo + (qz * qz) * oo) by (nonlinear_arith)
        requires
            number == qx * qx + qy * qy + qz * qz,
    ;
    assert(n * ll == (v.x * v.x) * ll + (v.y * v.y) * ll + (v.z * v.z) * ll) by (nonlinear_arith)
        requires
            n == v.x * v.x + v.y * v.y + v.z * v.z,
    ;
    assert(-(12_000_000 * ol + 3 * oo) <= 4 * (number * oo - n * ll) <= 12_000_000 * ol + 3 * oo);
    assert(-(own * ll) <= n * ll - oo * ll <= own * ll) by (nonlinear_arith)
        requires
            oo == own * own,
            oo - own <= n <= oo + own,
            ll >= 0,
    ;
    assert(ll >= 0 && 0 <= number) by (nonlinear_arith)
        requires
            ll == l * l,
            number == qx * qx + qy * qy + qz * qz,
    ;
    let x = number - ll;
    assert(x * oo == number * oo - oo * ll && x * oo == (x * own) * own && own * ll == (l * l)
        * own && ol == l * own && oo == own * own) by (nonlinear_arith)
        requires
            x == number - ll,
            oo == own * own,
            ll == l * l,
            ol == own * l,
    ;
    let bound = 12_000_000 * l + 3 * own + 4 * ll;
    assert(-(bound * own) <= 4 * ((x * own) * own) <= bound * own) by (nonlinear_arith)
        requires
            bound == 12_000_000 * l + 3 * own + 4 * ll,
            -(12_000_000 * (l * own) + 3 * (own * own) + 4 * (ll * own)) <= 4 * ((x * own) * own)
                <= 12_000_000 * (l * own) + 3 * (own * own) + 4 * (ll * own),
    ;
    assert(-bound <= 4 * (x * own) <= bound) by (nonlinear_arith)
        requires
            -(bound * own) <= 4 * ((x * own) * own) <= bound * own,
            own > 0,
    ;
    lemma_root_near_length(number, l, own);
}

/// The opposite of a vector is as long as the vector, unless a component
/// stands at the lower limit of the numbers.
pub proof fn lemma_length_of_the_opposite(v: Vec3)
    requires
        v.x > i64::MIN,
        v.y > i64::MIN,
        v.z > i64::MIN,
    ensures
        v.negated().length_spec() == v.length_spec(),
{
    let w = v.negated();
    assert(w.x * w.x == v.x * v.x && w.y * w.y == v.y * v.y && w.z * w.z == v.z * v.z)
        by (nonlinear_arith)
        requires
            w.x == -v.x,
            w.y == -v.y,
            w.z == -v.z,
    ;
}

/// Where a sum can be represented, the way from the start to the sum is what
/// was added.
pub proof fn lemma_plus_minus(a: Vec3, b: Vec3)
    requires
        a.sum_fits(b),
    ensures
        a.plus(b).minus(a) == b,
{
}

/// Where a sum can be represented, the way back from the sum to the start is
/// the opposite of what was added.
pub proof fn lemma_minus_plus(a: Vec3, b: Vec3)
    requires
        a.sum_fits(b),
    ensures
        a.minus(a.plus(b)) == b.negated(),
{
}

impl Quat {
    /// The rotation that moves nothing.
    pub open spec fn identity_spec() -> Quat {
        Quat { x: 0, y: 0, z: 0, w: ONE }
    }

    /// The image of `v` under the rotation: with `b` the vector part and `w`
    /// the scalar part, `v (w^2 - b.b) + 2 b (v.b) + 2 w (b x v)`.
    pub open spec fn rotate_spec(self, v: Vec3) -> Vec3 {
        let b = Vec3 { x: self.x, y: self.y, z: self.z };
        let keep = fx_sub(fx_mul(self.w, self.w), b.dot(b));
        let along = fx_mul(v.dot(b), 2_000_000);
        let around = fx_mul(self.w, 2_000_000);
        v.scaled(keep).plus(b.scaled(along)).plus(b.cross(v).scaled(around))
    }

    /// The rotation that moves nothing.
    #[verifier::when_used_as_spec(identity_spec)]
    pub fn identity() -> (r: Quat)
        ensures
            r == Quat::identity_spec(),
    {
        Quat { x: 0, y: 0, z: 0, w: ONE }
    }

    /// The image of `v` under the rotation.
    #[verifier::when_used_as_spec(rotate_spec)]
    pub fn rotate(self, v: Vec3) -> (r: Vec3)
        ensures
            r == self.rotate_spec(v),
    {
        let b = Vec3 { x: self.x, y: self.y, z: self.z };
        let keep = fx_sub(fx_mul(self.w, self.w), b.dot(b));
        let along = fx_mul(v.dot(b), 2_000_000);
        let around = fx_mul(self.w, 2_000_000);
        v.scaled(keep).plus(b.scaled(along)).plus(b.cross(v).scaled(around))
    }
}

} // verus!
