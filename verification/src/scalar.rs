//! Fixed-point scalars.
//!
//! A scalar is an `i64` counting millionths: the raw value `1_000_000` stands for
//! one. Every operation is total. A result that does not fit is saturated to the
//! nearest representable value, and inexact quotients are truncated toward zero.

use vstd::prelude::*;

verus! {

/// The raw value of the number one.
pub const ONE: i64 = 1_000_000;

/// The raw value of the number minus one.
pub const MINUS_ONE: i64 = -1_000_000;

/// The nearest `i64` to `x`.
pub open spec fn saturate(x: int) -> int {
    if x < i64::MIN as int {
        i64::MIN as int
    } else if x > i64::MAX as int {
        i64::MAX as int
    } else {
        x
    }
}

/// `n / d` rounded toward zero, for a divisor that is not zero.
pub open spec fn div_toward_zero(n: int, d: int) -> int {
    if d > 0 {
        if n >= 0 {
            n / d
        } else {
            -((-n) / d)
        }
    } else {
        if n >= 0 {
            -(n / (-d))
        } else {
            (-n) / (-d)
        }
    }
}

/// The sum, saturated.
pub open spec fn fx_add_spec(a: i64, b: i64) -> i64 {
    saturate(a + b) as i64
}

/// The difference, saturated.
pub open spec fn fx_sub_spec(a: i64, b: i64) -> i64 {
    saturate(a - b) as i64
}

/// The opposite number, saturated.
pub open spec fn fx_neg_spec(a: i64) -> i64 {
    saturate(-a) as i64
}

/// The product of the two numbers that `a` and `b` stand for: the product of
/// the raw values divided by a million, truncated toward zero and saturated.
#[verifier::opaque]
pub open spec fn fx_mul_spec(a: i64, b: i64) -> i64 {
    saturate(div_toward_zero(a * b, ONE as int)) as i64
}

/// The quotient of the two numbers that `a` and `b` stand for: a million times
/// `a` divided by `b`, truncated toward zero and saturated; zero where `b` is
/// zero.
#[verifier::opaque]
pub open spec fn fx_div_spec(a: i64, b: i64) -> i64 {
    if b == 0 {
        0
    } else {
        saturate(div_toward_zero(a * ONE, b as int)) as i64
    }
}

/// `a` divided by the whole number `k`, truncated toward zero and saturated;
/// zero where `k` is zero.
pub open spec fn fx_div_int_spec(a: i64, k: i64) -> i64 {
    if k == 0 {
        0
    } else {
        saturate(div_toward_zero(a as int, k as int)) as i64
    }
}

/// `x` where it lies between `lo` and `hi`, else the nearer of the two.
pub open spec fn fx_clamp_spec(x: i64, lo: i64, hi: i64) -> i64 {
    if x < lo {
        lo
    } else if x > hi {
        hi
    } else {
        x
    }
}

/// The larger of the two.
pub open spec fn fx_max_spec(a: i64, b: i64) -> i64 {
    if a >= b {
        a
    } else {
        b
    }
}

/// The size of `a`, saturated.
pub open spec fn fx_abs_spec(a: i64) -> i64 {
    if a < 0 {
        fx_neg_spec(a)
    } else {
        a
    }
}

/// The point between `fresh` and `kept` that keeps the share `weight` of
/// `kept`: `fresh + (kept - fresh) * weight`, the product truncated toward
/// zero. The weight is limited to the range from zero to one.
#[verifier::opaque]
pub open spec fn fx_mix_spec(kept: i64, fresh: i64, weight: i64) -> i64 {
    (fresh + div_toward_zero((kept - fresh) * fx_clamp_spec(weight, 0, ONE), ONE as int)) as i64
}

/// The distance between two scalars.
pub open spec fn gap(a: i64, b: i64) -> int {
    if a >= b {
        a - b
    } else {
        b - a
    }
}

/// Whether `x` lies between `a` and `b`, whichever of them is the larger.
pub open spec fn between(x: i64, a: i64, b: i64) -> bool {
    (a <= x <= b) || (b <= x <= a)
}

/// Whether `r` is the largest whole number whose square does not exceed `n`.
pub open spec fn is_floor_sqrt(n: int, r: int) -> bool {
    0 <= r && r * r <= n && n < (r + 1) * (r + 1)
}

/// The floor of the square root of a number that is not negative.
pub open spec fn floor_sqrt(n: int) -> int {
    choose|r: int| is_floor_sqrt(n, r)
}

/// The whole number nearest to the square root of a number that is not
/// negative: the floor of the root, or one more where the number lies above
/// the middle between the squares of the two.
pub open spec fn near_sqrt(n: int) -> int {
    let r = floor_sqrt(n);
    if n - r * r > r {
        r + 1
    } else {
        r
    }
}

/// The square root of the number that `a` stands for, to the nearest unit of
/// the last place: the root of a million times the raw value, and zero for a
/// number that is not positive.
pub open spec fn fx_sqrt_spec(a: i64) -> i64 {
    if a <= 0 {
        0
    } else {
        near_sqrt(a * ONE) as i64
    }
}

/// `n / d` to the nearest whole number, halves away from zero, for a positive
/// divisor.
pub open spec fn div_near(n: int, d: int) -> int {
    if n >= 0 {
        n / d + if n % d >= d - n % d { 1int } else { 0int }
    } else {
        -((-n) / d + if (-n) % d >= d - (-n) % d { 1int } else { 0int })
    }
}

/// The component `c` of a vector of length `own`, after the vector is brought
/// to the length `length`: `c * length / own` to the nearest unit, saturated,
/// and zero where `own` is not positive.
#[verifier::opaque]
pub open spec fn fx_rescale_spec(c: i64, length: i64, own: i64) -> i64 {
    if own <= 0 {
        0
    } else {
        saturate(div_near(c * length, own as int)) as i64
    }
}

/// The product of the two numbers that `a` and `b` stand for, to the nearest
/// unit of the last place, halves away from zero, and saturated.
#[verifier::opaque]
pub open spec fn fx_mul_near_spec(a: i64, b: i64) -> i64 {
    if a * b >= 0 {
        saturate((a * b + 500_000) / 1_000_000) as i64
    } else {
        saturate(-((-(a * b) + 500_000) / 1_000_000)) as i64
    }
}

pub(crate) fn narrow(x: i128) -> (r: i64)
    ensures
        r as int == saturate(x as int),
{
    if x < i64::MIN as i128 {
        i64::MIN
    } else if x > i64::MAX as i128 {
        i64::MAX
    } else {
        x as i64
    }
}

/// Saturating sum.
#[verifier::when_used_as_spec(fx_add_spec)]
pub fn fx_add(a: i64, b: i64) -> (r: i64)
    ensures
        r == fx_add_spec(a, b),
{
    narrow(a as i128 + b as i128)
}

/// Saturating difference.
#[verifier::when_used_as_spec(fx_sub_spec)]
pub fn fx_sub(a: i64, b: i64) -> (r: i64)
    ensures
        r == fx_sub_spec(a, b),
{
    narrow(a as i128 - b as i128)
}

/// Saturating negation.
#[verifier::when_used_as_spec(fx_neg_spec)]
pub fn fx_neg(a: i64) -> (r: i64)
    ensures
        r == fx_neg_spec(a),
{
    narrow(-(a as i128))
}

pub(crate) fn wide_div_toward_zero(n: i128, d: i128) -> (q: i128)
    requires
        d != 0,
        n > i128::MIN,
        d > i128::MIN,
    ensures
        q as int == div_toward_zero(n as int, d as int),
{
    let nn: i128 = if n >= 0 { n } else { -n };
    let dd: i128 = if d > 0 { d } else { -d };
    let q: i128 = nn / dd;
    if (n >= 0) == (d > 0) {
        q
    } else {
        -q
    }
}

/// Saturating fixed-point product, truncated toward zero.
#[verifier::when_used_as_spec(fx_mul_spec)]
pub fn fx_mul(a: i64, b: i64) -> (r: i64)
    ensures
        r == fx_mul_spec(a, b),
{
    reveal(fx_mul_spec);
    assert(-0x4000_0000_0000_0000_0000_0000_0000_0000 <= (a as int) * (b as int)
        <= 0x4000_0000_0000_0000_0000_0000_0000_0000) by (nonlinear_arith)
        requires
            -0x8000_0000_0000_0000 <= a as int <= 0x8000_0000_0000_0000,
            -0x8000_0000_0000_0000 <= b as int <= 0x8000_0000_0000_0000,
    ;
    let p: i128 = (a as i128) * (b as i128);
    narrow(wide_div_toward_zero(p, ONE as i128))
}

/// Saturating fixed-point quotient, truncated toward zero. Dividing by zero
/// gives zero.
#[verifier::when_used_as_spec(fx_div_spec)]
pub fn fx_div(a: i64, b: i64) -> (r: i64)
    ensures
        r == fx_div_spec(a, b),
{
    reveal(fx_div_spec);
    if b == 0 {
        0
    } else {
        narrow(wide_div_toward_zero((a as i128) * 1_000_000, b as i128))
    }
}

/// Quotient by a whole number, truncated toward zero. Dividing by zero gives
/// zero.
#[verifier::when_used_as_spec(fx_div_int_spec)]
pub fn fx_div_int(a: i64, k: i64) -> (r: i64)
    ensures
        r == fx_div_int_spec(a, k),
{
    if k == 0 {
        0
    } else {
        narrow(wide_div_toward_zero(a as i128, k as i128))
    }
}

/// The value of `x` limited to the range from `lo` to `hi`.
#[verifier::when_used_as_spec(fx_clamp_spec)]
pub fn fx_clamp(x: i64, lo: i64, hi: i64) -> (r: i64)
    ensures
        r == fx_clamp_spec(x, lo, hi),
{
    if x < lo {
        lo
    } else if x > hi {
        hi
    } else {
        x
    }
}

/// The larger of two scalars.
#[verifier::when_used_as_spec(fx_max_spec)]
pub fn fx_max(a: i64, b: i64) -> (r: i64)
    ensures
        r == fx_max_spec(a, b),
{
    if a >= b {
        a
    } else {
        b
    }
}

/// Saturating absolute value.
#[verifier::when_used_as_spec(fx_abs_spec)]
pub fn fx_abs(a: i64) -> (r: i64)
    ensures
        r == fx_abs_spec(a),
        r >= 0,
{
    if a < 0 {
        fx_neg(a)
    } else {
        a
    }
}

/// Any witness of `is_floor_sqrt` is the floor square root.
pub proof fn lemma_floor_sqrt_unique(n: int, r: int)
    requires
        is_floor_sqrt(n, r),
    ensures
        floor_sqrt(n) == r,
{
    let c = floor_sqrt(n);
    assert(is_floor_sqrt(n, c));
    if c < r {
        assert((c + 1) * (c + 1) <= r * r) by (nonlinear_arith)
            requires
                0 <= c + 1 <= r,
        ;
    } else if r < c {
        assert((r + 1) * (r + 1) <= c * c) by (nonlinear_arith)
            requires
                0 <= r + 1 <= c,
        ;
    }
}

/// Every number that is not negative has a floor square root.
pub proof fn lemma_floor_sqrt_exists(n: int)
    requires
        n >= 0,
    ensures
        is_floor_sqrt(n, floor_sqrt(n)),
    decreases n,
{
    if n == 0 {
        assert(is_floor_sqrt(0, 0));
    } else {
        lemma_floor_sqrt_exists(n - 1);
        let r = floor_sqrt(n - 1);
        if n < (r + 1) * (r + 1) {
            assert(is_floor_sqrt(n, r));
        } else {
            assert((r + 2) * (r + 2) > (r + 1) * (r + 1)) by (nonlinear_arith)
                requires
                    r >= 0,
            ;
            assert(is_floor_sqrt(n, r + 1));
        }
    }
}

/// The square root of a weight between zero and one is a weight between zero
/// and one, pinned by its square to half a unit of the last place; it is below
/// one where the weight is, and zero where the weight is; and its square gives
/// the weight back within one unit of the last place.
pub proof fn lemma_sqrt_of_weight(w: i64)
    requires
        0 <= w <= ONE,
    ensures
        0 <= fx_sqrt_spec(w) <= ONE,
        fx_sqrt_spec(w) * fx_sqrt_spec(w) - fx_sqrt_spec(w) <= w * ONE,
        w * ONE <= fx_sqrt_spec(w) * fx_sqrt_spec(w) + fx_sqrt_spec(w),
        w < ONE ==> fx_sqrt_spec(w) < ONE,
        w == 0 ==> fx_sqrt_spec(w) == 0,
        w <= fx_sqrt_spec(w),
        w - 1 <= fx_mul_near_spec(fx_sqrt_spec(w), fx_sqrt_spec(w)) <= w + 1,
{
    reveal(fx_mul_near_spec);
    if w > 0 {
        let n = w * ONE;
        lemma_floor_sqrt_exists(n);
        let f = floor_sqrt(n);
        assert(f >= w) by (nonlinear_arith)
            requires
                0 <= f,
                0 < w <= 1_000_000,
                n == w * 1_000_000,
                n < (f + 1) * (f + 1),
        ;
        assert(f <= 1_000_000 && (n <= 999_999_000_000 ==> f <= 999_999 && (f == 999_999 ==> n - f
            * f <= f))) by (nonlinear_arith)
            requires
                0 <= f,
                f * f <= n,
                n <= 1_000_000_000_000,
        ;
        assert((f + 1) * (f + 1) == f * f + 2 * f + 1) by (nonlinear_arith);
        let r = fx_sqrt_spec(w) as int;
        assert(r * r - r <= n <= r * r + r && 0 <= r * r) by (nonlinear_arith)
            requires
                0 <= f,
                f * f <= n,
                n < f * f + 2 * f + 1,
                r == if n - f * f > f { f + 1 } else { f },
        ;
    }
}

/// The nearest root is pinned by its square to half a unit; it is zero for
/// zero alone, and exact for a square.
pub proof fn lemma_near_sqrt(n: int)
    requires
        n >= 0,
    ensures
        near_sqrt(n) >= 0,
        near_sqrt(n) * near_sqrt(n) - near_sqrt(n) <= n <= near_sqrt(n) * near_sqrt(n) + near_sqrt(n),
        n == 0 <==> near_sqrt(n) == 0,
{
    lemma_floor_sqrt_exists(n);
    let f = floor_sqrt(n);
    let r = near_sqrt(n);
    assert((f + 1) * (f + 1) == f * f + 2 * f + 1) by (nonlinear_arith);
    assert(r * r - r <= n <= r * r + r && (r == 0 ==> n == 0) && (n == 0 ==> f == 0))
        by (nonlinear_arith)
        requires
            0 <= f,
            f * f <= n,
            n < f * f + 2 * f + 1,
            r == if n - f * f > f { f + 1 } else { f },
    ;
}

/// The nearest root of the square of a whole number is that number.
pub proof fn lemma_near_sqrt_of_square(k: int)
    requires
        k >= 0,
    ensures
        near_sqrt(k * k) == k,
{
    assert(k * k < (k + 1) * (k + 1) && k * k >= 0) by (nonlinear_arith)
        requires
            k >= 0,
    ;
    lemma_floor_sqrt_unique(k * k, k);
}

/// The whole number nearest to the square root of `n`.
pub fn isqrt_near(n: u128) -> (r: u128)
    ensures
        r as int == near_sqrt(n as int),
        r <= 0x1_0000_0000_0000_0000,
{
    let root = isqrt(n);
    assert(0 <= (root as int) * (root as int) <= 0xffff_ffff_ffff_ffff_ffff_ffff_ffff_ffff)
        by (nonlinear_arith)
        requires
            0 <= root as int,
            (root as int) * (root as int) <= n as int,
            n as int <= 0xffff_ffff_ffff_ffff_ffff_ffff_ffff_ffff,
    ;
    let square: u128 = (root as u128) * (root as u128);
    if n - square > root as u128 {
        root as u128 + 1
    } else {
        root as u128
    }
}

/// The square root of the number that `a` stands for.
#[verifier::when_used_as_spec(fx_sqrt_spec)]
pub fn fx_sqrt(a: i64) -> (r: i64)
    ensures
        r == fx_sqrt_spec(a),
        r >= 0,
{
    if a <= 0 {
        0
    } else {
        let n: u128 = (a as u128) * 1_000_000;
        let root = isqrt_near(n);
        proof {
            lemma_near_sqrt(n as int);
        }
        assert(root as int <= 0x4_0000_0000_0000) by (nonlinear_arith)
            requires
                0 <= root as int,
                (root as int) * (root as int) - (root as int) <= n as int,
                n as int <= 0x8000_0000_0000_0000 * 1_000_000,
        ;
        root as i64
    }
}

/// The component `c` of a vector of length `own`, after the vector is brought
/// to the length `length`.
#[verifier::when_used_as_spec(fx_rescale_spec)]
pub fn fx_rescale(c: i64, length: i64, own: i64) -> (r: i64)
    ensures
        r == fx_rescale_spec(c, length, own),
{
    reveal(fx_rescale_spec);
    if own <= 0 {
        0
    } else {
        assert(-0x4000_0000_0000_0000_0000_0000_0000_0000 <= (c as int) * (length as int)
            <= 0x4000_0000_0000_0000_0000_0000_0000_0000) by (nonlinear_arith)
            requires
                -0x8000_0000_0000_0000 <= c as int <= 0x8000_0000_0000_0000,
                -0x8000_0000_0000_0000 <= length as int <= 0x8000_0000_0000_0000,
        ;
        let p: i128 = (c as i128) * (length as i128);
        let d: i128 = own as i128;
        let m: i128 = if p >= 0 { p } else { -p };
        let q: i128 = m / d;
        let rest: i128 = m % d;
        let near: i128 = if rest >= d - rest { q + 1 } else { q };
        if p >= 0 {
            narrow(near)
        } else {
            narrow(-near)
        }
    }
}

/// A larger share of a number that is not negative, taken to the nearest
/// unit, is not smaller.
pub proof fn lemma_mul_near_monotone(a: i64, lo: i64, hi: i64)
    requires
        0 <= a,
        0 <= lo <= hi <= ONE,
    ensures
        fx_mul_near_spec(a, lo) <= fx_mul_near_spec(a, hi),
{
    reveal(fx_mul_near_spec);
    assert(0 <= (a as int) * (lo as int) <= (a as int) * (hi as int) <= (a as int) * 1_000_000)
        by (nonlinear_arith)
        requires
            0 <= a as int,
            0 <= lo as int <= hi as int <= 1_000_000,
    ;
}

/// Taking the square root of a weight twice as a share loses at most three
/// units of the last place against taking the weight once.
pub proof fn lemma_near_chain(acc: i64, next: i64, root: i64)
    requires
        0 <= acc <= ONE,
        0 <= next <= ONE,
        0 <= root <= ONE,
        root * ONE <= next * next + next,
    ensures
        fx_mul_near_spec(fx_mul_near_spec(acc, next), next) >= fx_mul_near_spec(acc, root) - 3,
{
    reveal(fx_mul_near_spec);
    let a = acc as int;
    let n = next as int;
    let r = root as int;
    let first = a * n;
    assert(0 <= first <= 1_000_000_000_000) by (nonlinear_arith)
        requires
            first == a * n,
            0 <= a <= 1_000_000,
            0 <= n <= 1_000_000,
    ;
    let share = (first + 500_000) / 1_000_000;
    let second = share * n;
    let once = a * r;
    assert(0 <= second && 0 <= once <= 1_000_000_000_000 && (second - once) * 1_000_000 >= -1_500_000_000_000)
        by (nonlinear_arith)
        requires
            first == a * n,
            second == share * n,
            once == a * r,
            0 <= a <= 1_000_000,
            0 <= n <= 1_000_000,
            0 <= r <= 1_000_000,
            r * 1_000_000 <= n * n + n,
            share * 1_000_000 >= first - 499_999,
            0 <= share,
    ;
    assert(share <= 1_000_000);
    assert(second <= 1_000_000_000_000) by (nonlinear_arith)
        requires
            second == share * n,
            0 <= share <= 1_000_000,
            0 <= n <= 1_000_000,
    ;
}

/// A quotient to the nearest whole number is within half the divisor of the
/// dividend, once multiplied back.
pub proof fn lemma_div_near_error(n: int, d: int)
    requires
        d > 0,
    ensures
        -d <= 2 * (div_near(n, d) * d - n) <= d,
{
    let m = if n >= 0 { n } else { -n };
    let k = m / d;
    let rest = m % d;
    assert(m == k * d + rest && 0 <= rest < d) by (nonlinear_arith)
        requires
            d > 0,
            k == m / d,
            rest == m % d,
    ;
    let near = if rest >= d - rest { k + 1 } else { k };
    assert(near * d == k * d + (near - k) * d) by (nonlinear_arith);
    assert((near - k) * d == if rest >= d - rest { d } else { 0 }) by (nonlinear_arith)
        requires
            near == if rest >= d - rest { k + 1 } else { k },
    ;
    assert((-near) * d == -(near * d)) by (nonlinear_arith);
}

/// The square of a rescaled component, times the square of the old length,
/// is near the square of the component times the square of the new length.
pub proof fn lemma_rescaled_square(q: int, c: int, length: int, own: int)
    requires
        own > 0,
        0 <= length,
        -1_000_000 <= c <= 1_000_000,
        -own <= 2 * (q * own - c * length) <= own,
    ensures
        -(4_000_000 * (own * length) + own * own) <= 4 * ((q * q) * (own * own) - (c * c) * (length
            * length)) <= 4_000_000 * (own * length) + own * own,
{
    let e = q * own - c * length;
    let t = c * length;
    assert(-1_000_000 * length <= t <= 1_000_000 * length) by (nonlinear_arith)
        requires
            t == c * length,
            0 <= length,
            -1_000_000 <= c <= 1_000_000,
    ;
    assert((q * q) * (own * own) - (c * c) * (length * length) == e * e + 2 * (e * t))
        by (nonlinear_arith)
        requires
            e == q * own - c * length,
            t == c * length,
    ;
    assert(0 <= 4 * (e * e) <= own * own) by (nonlinear_arith)
        requires
            -own <= 2 * e <= own,
            own > 0,
    ;
    assert(-(1_000_000 * (own * length)) <= 2 * (e * t) <= 1_000_000 * (own * length))
        by (nonlinear_arith)
        requires
            -own <= 2 * e <= own,
            own > 0,
            0 <= length,
            -1_000_000 * length <= t <= 1_000_000 * length,
    ;
}

/// Where a number is near the square of a length, its nearest root is near
/// the length: within a hundred-and-sixty-thousandth of it and twenty-four
/// units.
pub proof fn lemma_root_near_length(number: int, length: int, own: int)
    requires
        160_000 <= own <= 2_000_000,
        0 <= length,
        0 <= number,
        -(12_000_000 * length + 3 * own + 4 * (length * length)) <= 4 * ((number - length * length)
            * own) <= 12_000_000 * length + 3 * own + 4 * (length * length),
    ensures
        -(length / 160_000 + 24) <= near_sqrt(number) - length <= length / 160_000 + 24,
{
    lemma_near_sqrt(number);
    let r = near_sqrt(number);
    let room = length / 160_000 + 24;
    let x = number - length * length;
    assert(room * 160_000 >= length + 3_680_001);
    if r > length + room {
        let e = room + 1;
        assert(r * r - r >= (length + e) * (length + e) - (length + e)) by (nonlinear_arith)
            requires
                r >= length + e,
                length + e >= 1,
        ;
        assert((length + e) * (length + e) - (length + e) - length * length >= length * (2 * e - 1))
            by (nonlinear_arith)
            requires
                e >= 1,
                length >= 0,
        ;
        assert(x >= length * (2 * e - 1));
        assert(x * own >= (length * (2 * e - 1)) * 160_000) by (nonlinear_arith)
            requires
                x >= length * (2 * e - 1),
                length * (2 * e - 1) >= 0,
                own >= 160_000,
        ;
        assert(length * (2 * e - 1) >= 0 && (length * (2 * e - 1)) * 160_000 >= length * (2 * length
            + 7_000_000)) by (nonlinear_arith)
            requires
                e * 160_000 >= length + 3_680_001,
                length >= 0,
                e >= 1,
        ;
        assert(length * (2 * length + 7_000_000) == 2 * (length * length) + 7_000_000 * length)
            by (nonlinear_arith);
        if length == 0 {
            assert(number == 0) by (nonlinear_arith)
                requires
                    4 * (number * own) <= 3 * own,
                    own > 0,
                    number >= 0,
            ;
        }
        assert(false);
    }
    if r < length - room {
        let e = room + 1;
        assert(r * r + r <= (length - e) * (length - e) + (length - e)) by (nonlinear_arith)
            requires
                0 <= r <= length - e,
        ;
        assert(length * length - ((length - e) * (length - e) + (length - e)) >= length * (e - 1))
            by (nonlinear_arith)
            requires
                1 <= e <= length,
        ;
        assert(-x >= length * (e - 1));
        assert((-x) * own >= (length * (e - 1)) * 160_000 && (-x) * own == -(x * own))
            by (nonlinear_arith)
            requires
                -x >= length * (e - 1),
                length * (e - 1) >= 0,
                own >= 160_000,
        ;
        assert(length * (e - 1) >= 0 && (length * (e - 1)) * 160_000 >= length * (length
            + 3_520_000)) by (nonlinear_arith)
            requires
                e * 160_000 >= length + 3_680_001,
                length >= 0,
                e >= 1,
        ;
        assert(length * (length + 3_520_000) == length * length + 3_520_000 * length)
            by (nonlinear_arith);
        let loss = (-x) * own;
        assert(loss == -(x * own));
        assert(loss >= length * length + 3_520_000 * length);
        assert(4 * loss <= 12_000_000 * length + 3 * own + 4 * (length * length));
        assert(2_080_000 * length <= 3 * own);
        assert(length >= 25);
        assert(false);
    }
}

/// A component that is large enough comes out of a rescaling to a length that
/// is large enough not zero, on the side on which it was.
pub proof fn lemma_rescale_nonzero(c: i64, length: i64, own: i64, least: i64)
    requires
        0 < own,
        0 < least,
        c >= least || c <= -least,
        length > 0,
        least * length >= own,
    ensures
        c > 0 ==> fx_rescale_spec(c, length, own) > 0,
        c < 0 ==> fx_rescale_spec(c, length, own) < 0,
{
    reveal(fx_rescale_spec);
    let n = if c > 0 { c * length } else { -(c * length) };
    assert(n >= own && n >= 0 && n / (own as int) >= 1) by (nonlinear_arith)
        requires
            n == if c > 0 { c * length } else { -(c * length) },
            c >= least || c <= -least,
            0 < least,
            length > 0,
            least * length >= own,
            own > 0,
    ;
}

/// The product to the nearest unit of the last place.
#[verifier::when_used_as_spec(fx_mul_near_spec)]
pub fn fx_mul_near(a: i64, b: i64) -> (r: i64)
    ensures
        r == fx_mul_near_spec(a, b),
{
    reveal(fx_mul_near_spec);
    assert(-0x4000_0000_0000_0000_0000_0000_0000_0000 <= (a as int) * (b as int)
        <= 0x4000_0000_0000_0000_0000_0000_0000_0000) by (nonlinear_arith)
        requires
            -0x8000_0000_0000_0000 <= a as int <= 0x8000_0000_0000_0000,
            -0x8000_0000_0000_0000 <= b as int <= 0x8000_0000_0000_0000,
    ;
    let p: i128 = (a as i128) * (b as i128);
    if p >= 0 {
        narrow((p + 500_000) / 1_000_000)
    } else {
        narrow(-((-p + 500_000) / 1_000_000))
    }
}

/// A share of a number that is not negative, taken to the nearest unit, is not
/// negative and not larger than the number; the share one is the number, and
/// the share nothing is nothing.
pub proof fn lemma_mul_near_share(a: i64, share: i64)
    requires
        0 <= a,
        0 <= share <= ONE,
    ensures
        0 <= fx_mul_near_spec(a, share) <= a,
        0 <= fx_mul_near_spec(share, a) <= a,
        fx_mul_near_spec(ONE, a) == a,
        fx_mul_near_spec(share, 0) == 0,
{
    reveal(fx_mul_near_spec);
    assert(0 <= (a as int) * (share as int) <= (a as int) * 1_000_000 && (share as int) * (a as int)
        == (a as int) * (share as int)) by (nonlinear_arith)
        requires
            0 <= a as int,
            0 <= share as int <= 1_000_000,
    ;
    assert((share as int) * 0 == 0);
}

/// The floor of the square root of `n`.
pub fn isqrt(n: u128) -> (r: u64)
    ensures
        r as int == floor_sqrt(n as int),
        is_floor_sqrt(n as int, r as int),
{
    let mut lo: u128 = 0;
    let mut hi: u128 = 0x1_0000_0000_0000_0000;
    assert(0x1_0000_0000_0000_0000int * 0x1_0000_0000_0000_0000int
        == 0x1_0000_0000_0000_0000_0000_0000_0000_0000int) by (nonlinear_arith);
    while hi - lo > 1
        invariant
            lo < hi <= 0x1_0000_0000_0000_0000,
            (lo as int) * (lo as int) <= n as int,
            (n as int) < (hi as int) * (hi as int),
        decreases hi - lo,
    {
        let mid: u128 = lo + (hi - lo) / 2;
        assert(0 <= (mid as int) * (mid as int) <= 0xffff_ffff_ffff_ffff_ffff_ffff_ffff_ffff)
            by (nonlinear_arith)
            requires
                0 <= mid as int <= 0xffff_ffff_ffff_ffff,
        ;
        if mid * mid <= n {
            lo = mid;
        } else {
            hi = mid;
        }
    }
    proof {
        lemma_floor_sqrt_unique(n as int, lo as int);
    }
    lo as u64
}

/// Zero divided by anything is zero.
pub proof fn lemma_div_of_zero(b: i64)
    ensures
        fx_div_spec(0, b) == 0,
{
    reveal(fx_div_spec);
}

/// Multiplying by zero gives zero.
pub proof fn lemma_mul_zero(a: i64)
    ensures
        fx_mul_spec(a, 0) == 0,
        fx_mul_spec(0, a) == 0,
{
    reveal(fx_mul_spec);
}

/// Multiplying by one changes nothing.
pub proof fn lemma_mul_one(a: i64)
    ensures
        fx_mul_spec(a, ONE) == a,
        fx_mul_spec(ONE, a) == a,
{
    reveal(fx_mul_spec);
}

/// A share of a number that is not negative is not negative and not larger
/// than the number.
pub proof fn lemma_mul_share(a: i64, share: i64)
    requires
        0 <= a,
        0 <= share <= ONE,
    ensures
        0 <= fx_mul_spec(a, share) <= a,
        0 <= fx_mul_spec(share, a) <= a,
        share < ONE && a > 0 ==> fx_mul_spec(a, share) < a,
{
    reveal(fx_mul_spec);
    assert(0 <= (a as int) * (share as int) <= (a as int) * 1_000_000) by (nonlinear_arith)
        requires
            0 <= a as int,
            0 <= share as int <= 1_000_000,
    ;
    assert((share as int) * (a as int) == (a as int) * (share as int)) by (nonlinear_arith);
    if share < ONE && a > 0 {
        assert((a as int) * (share as int) <= (a as int) * 1_000_000 - (a as int))
            by (nonlinear_arith)
            requires
                0 < a as int,
                0 <= share as int <= 999_999,
        ;
    }
}

/// A product with a factor between `lo` and one is at least the share `lo` of
/// the other factor, and not larger than that factor.
pub proof fn lemma_mul_lower(a: i64, b: i64, lo: i64)
    requires
        0 <= a,
        0 <= lo <= b <= ONE,
    ensures
        fx_mul_spec(a, b) >= (a * lo) / 1_000_000,
        fx_mul_spec(b, a) >= (a * lo) / 1_000_000,
        fx_mul_spec(a, b) <= a,
{
    reveal(fx_mul_spec);
    assert(0 <= (a as int) * (lo as int) <= (a as int) * (b as int) <= (a as int) * 1_000_000)
        by (nonlinear_arith)
        requires
            0 <= a as int,
            0 <= lo as int <= b as int <= 1_000_000,
    ;
    assert((b as int) * (a as int) == (a as int) * (b as int)) by (nonlinear_arith);
}

/// A product with a factor that is not negative lies on the side of zero on
/// which the other factor lies.
pub proof fn lemma_mul_side(a: i64, b: i64)
    requires
        b >= 0,
    ensures
        a >= 0 ==> fx_mul_spec(a, b) >= 0,
        a <= 0 ==> fx_mul_spec(a, b) <= 0,
{
    reveal(fx_mul_spec);
    assert((a >= 0 ==> (a as int) * (b as int) >= 0) && (a <= 0 ==> (a as int) * (b as int) <= 0))
        by (nonlinear_arith)
        requires
            b as int >= 0,
    ;
}

/// A larger share of a number that is not negative is not smaller.
pub proof fn lemma_mul_monotone(a: i64, lo: i64, hi: i64)
    requires
        0 <= a,
        0 <= lo <= hi <= ONE,
    ensures
        fx_mul_spec(a, lo) <= fx_mul_spec(a, hi),
{
    reveal(fx_mul_spec);
    assert(0 <= (a as int) * (lo as int) <= (a as int) * (hi as int) <= (a as int) * 1_000_000)
        by (nonlinear_arith)
        requires
            0 <= a as int,
            0 <= lo as int <= hi as int <= 1_000_000,
    ;
}

/// A mix lies between its two ends: it never passes the fresh value, and
/// never falls behind the kept one.
pub proof fn lemma_mix_between(kept: i64, fresh: i64, weight: i64)
    ensures
        between(fx_mix_spec(kept, fresh, weight), fresh, kept),
        gap(fx_mix_spec(kept, fresh, weight), fresh) <= gap(kept, fresh),
        fx_mix_spec(kept, fresh, weight) as int == fresh + div_toward_zero(
            (kept - fresh) * fx_clamp_spec(weight, 0, ONE),
            ONE as int,
        ),
{
    reveal(fx_mix_spec);
    let w = fx_clamp_spec(weight, 0, ONE) as int;
    let d = kept - fresh;
    if d >= 0 {
        assert(0 <= d * w <= d * 1_000_000) by (nonlinear_arith)
            requires
                0 <= d,
                0 <= w <= 1_000_000,
        ;
    } else {
        assert(0 <= (-d) * w <= (-d) * 1_000_000 && (-d) * w == -(d * w)) by (nonlinear_arith)
            requires
                d < 0,
                0 <= w <= 1_000_000,
        ;
    }
}

/// With a weight below one, a mix is strictly nearer to the fresh value than
/// the kept value was, unless they were equal.
pub proof fn lemma_mix_progress(kept: i64, fresh: i64, weight: i64)
    requires
        weight < ONE,
        kept != fresh,
    ensures
        gap(fx_mix_spec(kept, fresh, weight), fresh) < gap(kept, fresh),
{
    reveal(fx_mix_spec);
    lemma_mix_between(kept, fresh, weight);
    let w = fx_clamp_spec(weight, 0, ONE) as int;
    let d = kept - fresh;
    if d >= 0 {
        assert(0 <= d * w <= d * 1_000_000 - d) by (nonlinear_arith)
            requires
                0 < d,
                0 <= w <= 999_999,
        ;
    } else {
        assert(0 <= (-d) * w <= (-d) * 1_000_000 - (-d) && (-d) * w == -(d * w))
            by (nonlinear_arith)
            requires
                d < 0,
                0 <= w <= 999_999,
        ;
    }
}

/// The point between `fresh` and `kept` that keeps the share `weight` of
/// `kept`.
#[verifier::when_used_as_spec(fx_mix_spec)]
pub fn fx_mix(kept: i64, fresh: i64, weight: i64) -> (r: i64)
    ensures
        r == fx_mix_spec(kept, fresh, weight),
        between(r, fresh, kept),
{
    let w = fx_clamp(weight, 0, ONE);
    let d: i128 = kept as i128 - fresh as i128;
    assert(-0x1_0000_0000_0000_0000 * 1_000_000 <= (d as int) * (w as int)
        <= 0x1_0000_0000_0000_0000 * 1_000_000) by (nonlinear_arith)
        requires
            -0x1_0000_0000_0000_0000 <= d as int <= 0x1_0000_0000_0000_0000,
            0 <= w as int <= 1_000_000,
    ;
    let q = wide_div_toward_zero(d * (w as i128), 1_000_000);
    proof {
        reveal(fx_mix_spec);
        lemma_mix_between(kept, fresh, weight);
    }
    (fresh as i128 + q) as i64
}

} // verus!
