//! An exponential smoother for poses: each output keeps a share of the output
//! before it and takes the rest from the new input.

use vstd::prelude::*;
use crate::look_transform::LookTransform;
use crate::scalar::{
    fx_clamp, fx_mix, fx_mul, fx_mul_near, fx_sqrt, gap, lemma_mix_between, lemma_mix_progress,
    lemma_mul_monotone, lemma_mul_near_monotone, lemma_mul_near_share, lemma_mul_one,
    lemma_mul_share, lemma_mul_zero, lemma_near_chain, lemma_sqrt_of_weight, ONE,
};
use crate::vector::Vec3;

verus! {

/// The length of the tick that the lag weight refers to: two to the
/// fourteenth millionths of a second, which is a sixty-first of a second.
pub const REFERENCE_TICK: i64 = 16_384;

/// The largest lag weight: just below one.
pub const MAX_LAG_WEIGHT: i64 = 999_999;

/// `base` multiplied by itself `n` times, starting from one.
pub open spec fn fx_pow(base: i64, n: nat) -> i64
    decreases n,
{
    if n == 0 {
        ONE
    } else {
        fx_mul(fx_pow(base, (n - 1) as nat), base)
    }
}

/// The length in time of a binary place of the fraction of a tick: one
/// millionth of a second for the first place, and twice the place before for
/// each further one. The fourteenth place is half a tick.
pub open spec fn span_of(place: nat) -> int
    decreases place,
{
    if place == 0 {
        0
    } else if place == 1 {
        1
    } else {
        2 * span_of((place - 1) as nat)
    }
}

/// The power of a weight over a fraction of a tick, by square roots.
///
/// `part` is the fraction, in millionths of a second, and `places` the number
/// of binary places of it that are still to be read, from the longest down.
/// `root` is the power of the weight over twice the span of the next place, so
/// that its square root is the power over that span. Where the place is set in
/// `part`, that square root is multiplied into `acc`. Roots and products are
/// taken to the nearest unit of the last place.
pub open spec fn fraction_power(acc: i64, root: i64, part: int, places: nat) -> i64
    decreases places,
{
    if places == 0 {
        acc
    } else {
        let next = fx_sqrt(root);
        if part >= span_of(places) {
            fraction_power(fx_mul_near(acc, next), next, part - span_of(places), (places - 1) as nat)
        } else {
            fraction_power(acc, next, part, (places - 1) as nat)
        }
    }
}

/// The share of the previous output that is kept after the time `dt`: the lag
/// weight to the power of `dt` counted in reference ticks.
///
/// The power over the whole ticks is a repeated product. The power over the
/// rest of a tick is a product of repeated square roots of the lag weight, one
/// for each binary place of the rest. A time that is not positive keeps
/// everything.
pub open spec fn retained_weight(lag_weight: i64, dt: i64) -> i64 {
    if dt <= 0 {
        ONE
    } else {
        let whole = dt as int / REFERENCE_TICK as int;
        let part = dt as int % REFERENCE_TICK as int;
        fx_mul(fx_pow(lag_weight, whole as nat), fraction_power(ONE, lag_weight, part, 14))
    }
}

/// The pose between `previous` and `raw` that keeps the share `weight` of
/// `previous` in eye and target. The up direction is that of `raw`.
pub open spec fn blend(previous: LookTransform, raw: LookTransform, weight: i64) -> LookTransform {
    LookTransform {
        eye: previous.eye.mix(raw.eye, weight),
        target: previous.target.mix(raw.target, weight),
        up: raw.up,
    }
}

/// The output for the input `raw` after the time `dt`: `raw` itself where there
/// was no output before, else the blend of the previous output and `raw`.
pub open spec fn smooth_spec(
    current: Option<LookTransform>,
    raw: LookTransform,
    lag_weight: i64,
    dt: i64,
) -> LookTransform {
    match current {
        None => raw,
        Some(previous) => blend(previous, raw, retained_weight(lag_weight, dt)),
    }
}

/// A power of a weight between zero and one lies between zero and one, and
/// from the first power on it is not above the weight.
pub proof fn lemma_pow_range(base: i64, n: nat)
    requires
        0 <= base <= ONE,
    ensures
        0 <= fx_pow(base, n) <= ONE,
        n >= 1 ==> fx_pow(base, n) <= base,
    decreases n,
{
    if n > 0 {
        lemma_pow_range(base, (n - 1) as nat);
        lemma_mul_share(fx_pow(base, (n - 1) as nat), base);
        lemma_mul_share(base, fx_pow(base, (n - 1) as nat));
    }
}

/// Once a power is zero, every later power is zero.
pub proof fn lemma_pow_stays_zero(base: i64, m: nat, n: nat)
    requires
        m <= n,
        fx_pow(base, m) == 0,
    ensures
        fx_pow(base, n) == 0,
    decreases n - m,
{
    if m < n {
        lemma_pow_stays_zero(base, m, (n - 1) as nat);
        lemma_mul_zero(base);
    }
}

/// The fourteenth binary place is half a reference tick.
pub proof fn lemma_half_tick()
    ensures
        span_of(14) == 8_192,
        2 * span_of(14) == REFERENCE_TICK,
{
    reveal_with_fuel(span_of, 15);
}

/// A power over a fraction of a tick takes from `acc` and never adds to it.
pub proof fn lemma_fraction_range(acc: i64, root: i64, part: int, places: nat)
    requires
        0 <= acc <= ONE,
        0 <= root <= ONE,
    ensures
        0 <= fraction_power(acc, root, part, places) <= acc,
    decreases places,
{
    if places > 0 {
        let next = fx_sqrt(root);
        lemma_sqrt_of_weight(root);
        lemma_mul_near_share(acc, next);
        if part >= span_of(places) {
            lemma_fraction_range(
                fx_mul_near(acc, next),
                next,
                part - span_of(places),
                (places - 1) as nat,
            );
        } else {
            lemma_fraction_range(acc, next, part, (places - 1) as nat);
        }
    }
}

/// Over a fraction that is not nothing, a weight below one has a power below
/// one, and the weight zero has the power zero.
pub proof fn lemma_fraction_below(acc: i64, root: i64, part: int, places: nat)
    requires
        0 <= acc <= ONE,
        0 <= root < ONE,
        1 <= part < 2 * span_of(places),
    ensures
        fraction_power(acc, root, part, places) < ONE,
        root == 0 ==> fraction_power(acc, root, part, places) == 0,
    decreases places,
{
    if places > 0 {
        let next = fx_sqrt(root);
        lemma_sqrt_of_weight(root);
        if part >= span_of(places) {
            lemma_mul_near_share(next, acc);
            lemma_mul_near_share(0, acc);
            lemma_fraction_range(
                fx_mul_near(acc, next),
                next,
                part - span_of(places),
                (places - 1) as nat,
            );
        } else {
            lemma_fraction_below(acc, next, part, (places - 1) as nat);
        }
    }
}

/// Over no fraction at all the power is one: `acc` stays as it is.
pub proof fn lemma_fraction_none(acc: i64, root: i64, places: nat)
    ensures
        fraction_power(acc, root, 0, places) == acc,
        places >= 1 ==> span_of(places) >= 1,
    decreases places,
{
    if places > 0 {
        lemma_fraction_none(acc, fx_sqrt(root), (places - 1) as nat);
    }
}

/// The retained weight lies between zero and one, and a step of positive
/// length retains less than all.
pub proof fn lemma_retained_weight_range(lag_weight: i64, dt: i64)
    requires
        0 <= lag_weight < ONE,
    ensures
        0 <= retained_weight(lag_weight, dt) <= ONE,
        dt > 0 ==> retained_weight(lag_weight, dt) < ONE,
{
    if dt > 0 {
        let whole = dt as int / REFERENCE_TICK as int;
        let part = dt as int % REFERENCE_TICK as int;
        let power = fx_pow(lag_weight, whole as nat);
        let fraction = fraction_power(ONE, lag_weight, part, 14);
        lemma_half_tick();
        lemma_pow_range(lag_weight, whole as nat);
        lemma_fraction_range(ONE, lag_weight, part, 14);
        lemma_mul_share(power, fraction);
        if whole == 0 {
            lemma_fraction_below(ONE, lag_weight, part, 14);
            lemma_mul_one(fraction);
        }
    }
}

fn pow_of_weight(base: i64, n: u64) -> (r: i64)
    requires
        0 <= base < ONE,
    ensures
        r == fx_pow(base, n as nat),
        0 <= r <= ONE,
{
    let mut p: i64 = ONE;
    let mut i: u64 = 0;
    while i < n && p != 0
        invariant
            0 <= base < ONE,
            i <= n,
            p == fx_pow(base, i as nat),
            0 <= p <= ONE,
        decreases n - i,
    {
        proof {
            lemma_pow_range(base, (i + 1) as nat);
        }
        p = fx_mul(p, base);
        i += 1;
    }
    proof {
        if i < n {
            lemma_pow_stays_zero(base, i as nat, n as nat);
        }
    }
    p
}

fn power_over_fraction(lag_weight: i64, part: i64) -> (r: i64)
    requires
        0 <= part,
    ensures
        r == fraction_power(ONE, lag_weight, part as int, 14),
{
    let mut acc: i64 = ONE;
    let mut root: i64 = lag_weight;
    let mut rest: i64 = part;
    let mut span: i64 = 8_192;
    let mut places: u32 = 14;
    proof {
        lemma_half_tick();
    }
    while places > 0
        invariant
            0 <= rest,
            0 <= span <= 8_192,
            span == span_of(places as nat),
            fraction_power(acc, root, rest as int, places as nat) == fraction_power(
                ONE,
                lag_weight,
                part as int,
                14,
            ),
        decreases places,
    {
        root = fx_sqrt(root);
        if rest >= span {
            acc = fx_mul_near(acc, root);
            rest = rest - span;
        }
        span = span / 2;
        places = places - 1;
    }
    acc
}

fn retained(lag_weight: i64, dt: i64) -> (w: i64)
    requires
        0 <= lag_weight < ONE,
    ensures
        w == retained_weight(lag_weight, dt),
        0 <= w <= ONE,
{
    proof {
        lemma_retained_weight_range(lag_weight, dt);
    }
    if dt <= 0 {
        ONE
    } else {
        let whole: i64 = dt / 16_384;
        let part: i64 = dt % 16_384;
        fx_mul(pow_of_weight(lag_weight, whole as u64), power_over_fraction(lag_weight, part))
    }
}

/// The state of the smoother of one camera.
pub struct Smoother {
    lag_weight: i64,
    current: Option<LookTransform>,
}

impl Smoother {
    #[verifier::type_invariant]
    spec fn lag_in_range(self) -> bool {
        0 <= self.lag_weight < ONE
    }

    /// The share of the previous output kept over one reference tick.
    pub closed spec fn lag_weight_spec(&self) -> i64 {
        self.lag_weight
    }

    /// The last output, if there was one since the last reset.
    pub closed spec fn current_spec(&self) -> Option<LookTransform> {
        self.current
    }

    /// A smoother that has seen no input. The lag weight is the share of the
    /// previous output kept over one reference tick; it is brought into the
    /// range from zero to just below one.
    pub fn new(lag_weight: i64) -> (r: Smoother)
        ensures
            r.lag_weight() == fx_clamp(lag_weight, 0, MAX_LAG_WEIGHT),
            r.current() is None,
    {
        Smoother { lag_weight: fx_clamp(lag_weight, 0, MAX_LAG_WEIGHT), current: None }
    }

    /// The share of the previous output kept over one reference tick.
    #[verifier::when_used_as_spec(lag_weight_spec)]
    pub fn lag_weight(&self) -> (r: i64)
        ensures
            r == self.lag_weight_spec(),
            0 <= r < ONE,
    {
        proof {
            use_type_invariant(self);
        }
        self.lag_weight
    }

    /// The last output, if there was one since the last reset.
    #[verifier::when_used_as_spec(current_spec)]
    pub fn current(&self) -> (r: Option<LookTransform>)
        ensures
            r == self.current_spec(),
    {
        self.current
    }

    /// Forgets the last output, so that the next input passes unchanged. For a
    /// camera that has jumped.
    pub fn reset(&mut self)
        ensures
            final(self).current() is None,
            final(self).lag_weight() == old(self).lag_weight(),
    {
        proof {
            use_type_invariant(&*self);
        }
        self.current = None;
    }

    /// Takes the input `raw`, which comes the time `dt` after the input before
    /// it, and gives the smoothed pose, which it also keeps for the next call.
    /// The first input after a reset passes unchanged.
    pub fn smooth(&mut self, raw: LookTransform, dt: i64) -> (out: LookTransform)
        ensures
            out == smooth_spec(old(self).current(), raw, old(self).lag_weight(), dt),
            final(self).current() == Some(out),
            final(self).lag_weight() == old(self).lag_weight(),
    {
        proof {
            use_type_invariant(&*self);
        }
        let out = match self.current {
            None => raw,
            Some(previous) => {
                let weight = retained(self.lag_weight, dt);
                LookTransform {
                    eye: previous.eye.mix(raw.eye, weight),
                    target: previous.target.mix(raw.target, weight),
                    up: raw.up,
                }
            },
        };
        self.current = Some(out);
        out
    }
}

/// Over whole reference ticks the retained share is the power of the lag
/// weight: one step of `ticks` reference ticks keeps what `ticks` steps of one
/// reference tick keep of a weight.
pub proof fn retained_weight_of_whole_ticks(lag_weight: i64, ticks: nat)
    requires
        0 <= lag_weight < ONE,
        0 < ticks,
        ticks * REFERENCE_TICK <= i64::MAX,
    ensures
        retained_weight(lag_weight, (ticks * REFERENCE_TICK) as i64) == fx_pow(lag_weight, ticks),
        retained_weight(lag_weight, REFERENCE_TICK) == lag_weight,
{
    let dt = (ticks * REFERENCE_TICK) as i64;
    assert(dt as int / REFERENCE_TICK as int == ticks);
    assert(dt as int % REFERENCE_TICK as int == 0);
    lemma_fraction_none(ONE, lag_weight, 14);
    lemma_mul_one(fx_pow(lag_weight, ticks));
    assert(fx_pow(lag_weight, 1) == fx_mul(fx_pow(lag_weight, 0), lag_weight));
    lemma_mul_one(lag_weight);
}

/// Without lag nothing is retained: with the lag weight zero a step of any
/// positive length gives the new input.
pub proof fn nothing_is_retained_without_lag(dt: i64)
    requires
        dt > 0,
    ensures
        retained_weight(0, dt) == 0,
{
    let whole = dt as int / REFERENCE_TICK as int;
    let part = dt as int % REFERENCE_TICK as int;
    let fraction = fraction_power(ONE, 0, part, 14);
    lemma_half_tick();
    lemma_mul_zero(fraction);
    assert(REFERENCE_TICK == 16_384);
    assert(whole == dt as int / 16_384 && part == dt as int % 16_384);
    if whole == 0 {
        assert(1 <= part < 16_384);
        lemma_fraction_below(ONE, 0, part, 14);
        lemma_mul_zero(fx_pow(0, 0));
    } else {
        lemma_mul_zero(fx_pow(0, (whole - 1) as nat));
    }
}

/// Half a reference tick retains the square root of the lag weight, to half a
/// unit of the last place, so that two half ticks retain what one tick retains
/// within one unit of the last place.
pub proof fn half_a_tick_retains_the_square_root(lag_weight: i64)
    requires
        0 <= lag_weight < ONE,
    ensures
        ({
            let half = retained_weight(lag_weight, 8_192);
            let whole = retained_weight(lag_weight, REFERENCE_TICK);
            &&& half == fx_sqrt(lag_weight)
            &&& whole == lag_weight
            &&& half * half - half <= lag_weight * ONE <= half * half + half
            &&& whole - 1 <= fx_mul_near(half, half) <= whole + 1
        }),
{
    lemma_half_tick();
    lemma_sqrt_of_weight(lag_weight);
    let half = fx_sqrt(lag_weight);
    lemma_mul_one(half);
    lemma_mul_near_share(half, ONE);
    lemma_fraction_none(fx_mul_near(ONE, half), half, 13);
    assert(fraction_power(ONE, lag_weight, 8_192, 14) == fraction_power(
        fx_mul_near(ONE, half),
        half,
        0,
        13,
    ));
    retained_weight_of_whole_ticks(lag_weight, 1);
}

/// The root of a weight after `halvings` repeated square roots, each to the
/// nearest unit of the last place: the weight to the power of one over two to
/// the `halvings`.
pub open spec fn fx_root(w: i64, halvings: nat) -> i64
    decreases halvings,
{
    if halvings == 0 {
        w
    } else {
        fx_root(fx_sqrt(w), (halvings - 1) as nat)
    }
}

/// The spans of the binary places grow with the place.
pub proof fn lemma_spans_grow(lower: nat, upper: nat)
    requires
        1 <= lower <= upper,
    ensures
        1 <= span_of(lower) <= span_of(upper),
        lower < upper ==> span_of(lower) < span_of(upper),
    decreases upper,
{
    if lower < upper {
        lemma_spans_grow(lower, (upper - 1) as nat);
    } else if lower > 1 {
        lemma_spans_grow((lower - 1) as nat, (lower - 1) as nat);
    }
}

proof fn lemma_fraction_of_one_place(root: i64, place: nat, places: nat)
    requires
        0 <= root <= ONE,
        1 <= place <= places,
    ensures
        fraction_power(ONE, root, span_of(place), places) == fx_root(
            root,
            (places - place + 1) as nat,
        ),
    decreases places,
{
    let next = fx_sqrt(root);
    lemma_sqrt_of_weight(root);
    lemma_spans_grow(place, places);
    if place == places {
        lemma_mul_near_share(next, ONE);
        lemma_fraction_none(fx_mul_near(ONE, next), next, (places - 1) as nat);
        assert(fx_root(root, 1) == fx_root(next, 0));
    } else {
        lemma_fraction_of_one_place(next, place, (places - 1) as nat);
    }
}

/// A step as long as one binary place of a tick retains the matching root of
/// the lag weight: half a tick the square root, a quarter of a tick the fourth
/// root, and so on down to the fourteenth place.
pub proof fn a_binary_part_of_a_tick_retains_a_root(lag_weight: i64, place: nat)
    requires
        0 <= lag_weight < ONE,
        1 <= place <= 14,
    ensures
        1 <= span_of(place) <= 8_192,
        retained_weight(lag_weight, span_of(place) as i64) == fx_root(
            lag_weight,
            (15 - place) as nat,
        ),
{
    lemma_half_tick();
    lemma_spans_grow(place, 14);
    lemma_fraction_of_one_place(lag_weight, place, 14);
    let dt = span_of(place) as i64;
    assert(dt as int / REFERENCE_TICK as int == 0);
    assert(dt as int % REFERENCE_TICK as int == dt);
    lemma_mul_one(fraction_power(ONE, lag_weight, dt as int, 14));
}

proof fn lemma_fraction_lower(acc: i64, root: i64, part: int, places: nat)
    requires
        0 <= acc <= ONE,
        0 <= root <= ONE,
    ensures
        fraction_power(acc, root, part, places) >= fx_mul_near(acc, root) - 3 * places,
    decreases places,
{
    lemma_mul_near_share(acc, root);
    if places > 0 {
        let next = fx_sqrt(root);
        lemma_sqrt_of_weight(root);
        lemma_mul_near_share(acc, next);
        if part >= span_of(places) {
            lemma_fraction_lower(
                fx_mul_near(acc, next),
                next,
                part - span_of(places),
                (places - 1) as nat,
            );
            lemma_near_chain(acc, next, root);
        } else {
            lemma_fraction_lower(acc, next, part, (places - 1) as nat);
            lemma_mul_near_monotone(acc, root, next);
        }
    }
}

/// Over every step of positive length the retained share lies between what
/// the whole ticks of the step retain and what one tick more retains, but for
/// forty-two units of the last place; and a step shorter than a tick retains
/// the lag weight at least, but for as much.
pub proof fn retained_weight_is_bracketed(lag_weight: i64, dt: i64)
    requires
        0 <= lag_weight < ONE,
        dt > 0,
    ensures
        ({
            let whole = (dt as int / REFERENCE_TICK as int) as nat;
            let least = if lag_weight >= 42 { (lag_weight - 42) as i64 } else { 0i64 };
            &&& fx_mul(fx_pow(lag_weight, whole), least) <= retained_weight(lag_weight, dt)
            &&& retained_weight(lag_weight, dt) <= fx_pow(lag_weight, whole)
            &&& dt < REFERENCE_TICK ==> lag_weight - 42 <= retained_weight(lag_weight, dt)
        }),
{
    let whole = (dt as int / REFERENCE_TICK as int) as nat;
    let part = dt as int % REFERENCE_TICK as int;
    let power = fx_pow(lag_weight, whole);
    let fraction = fraction_power(ONE, lag_weight, part, 14);
    let least = if lag_weight >= 42 { (lag_weight - 42) as i64 } else { 0i64 };
    lemma_pow_range(lag_weight, whole);
    lemma_fraction_range(ONE, lag_weight, part, 14);
    lemma_fraction_lower(ONE, lag_weight, part, 14);
    lemma_mul_near_share(lag_weight, ONE);
    lemma_mul_share(power, fraction);
    lemma_mul_monotone(power, least, fraction);
    if dt < REFERENCE_TICK {
        assert(whole == 0);
        lemma_mul_one(fraction);
    }
}

/// A step of whole ticks and a rest retains the product of what the whole
/// ticks retain and what the rest retains.
pub proof fn retained_weight_splits(lag_weight: i64, ticks: nat, rest: i64)
    requires
        0 <= lag_weight < ONE,
        0 < ticks,
        0 < rest < REFERENCE_TICK,
        ticks * REFERENCE_TICK + rest <= i64::MAX,
    ensures
        retained_weight(lag_weight, (ticks * REFERENCE_TICK + rest) as i64) == fx_mul(
            retained_weight(lag_weight, (ticks * REFERENCE_TICK) as i64),
            retained_weight(lag_weight, rest),
        ),
{
    let dt = (ticks * REFERENCE_TICK + rest) as i64;
    assert(dt as int / REFERENCE_TICK as int == ticks);
    assert(dt as int % REFERENCE_TICK as int == rest);
    assert(rest as int / REFERENCE_TICK as int == 0);
    assert(rest as int % REFERENCE_TICK as int == rest);
    retained_weight_of_whole_ticks(lag_weight, ticks);
    lemma_mul_one(fraction_power(ONE, lag_weight, rest as int, 14));
}

/// The output after feeding the same input `raw` once for each of the time
/// steps `dts`, to a smoother whose last output was `start`.
pub open spec fn smooth_run(
    start: LookTransform,
    raw: LookTransform,
    lag_weight: i64,
    dts: Seq<i64>,
) -> LookTransform
    decreases dts.len(),
{
    if dts.len() == 0 {
        start
    } else {
        blend(
            smooth_run(start, raw, lag_weight, dts.drop_last()),
            raw,
            retained_weight(lag_weight, dts.last()),
        )
    }
}

/// The largest distance between two coordinates of the same name in the eyes
/// and in the targets of two poses.
pub open spec fn pose_gap(a: LookTransform, b: LookTransform) -> int {
    if a.eye.gap_to(b.eye) >= a.target.gap_to(b.target) {
        a.eye.gap_to(b.eye)
    } else {
        a.target.gap_to(b.target)
    }
}

proof fn lemma_mix_step(kept: i64, fresh: i64, weight: i64)
    requires
        weight < ONE,
    ensures
        gap(fx_mix(kept, fresh, weight), fresh) <= gap(kept, fresh),
        gap(kept, fresh) > 0 ==> gap(fx_mix(kept, fresh, weight), fresh) < gap(kept, fresh),
{
    lemma_mix_between(kept, fresh, weight);
    if kept != fresh {
        lemma_mix_progress(kept, fresh, weight);
    }
}

proof fn lemma_vec_mix_step(kept: Vec3, fresh: Vec3, weight: i64)
    requires
        weight < ONE,
    ensures
        kept.mix(fresh, weight).gap_to(fresh) <= kept.gap_to(fresh),
        kept.gap_to(fresh) > 0 ==> kept.mix(fresh, weight).gap_to(fresh) < kept.gap_to(fresh),
{
    lemma_mix_step(kept.x, fresh.x, weight);
    lemma_mix_step(kept.y, fresh.y, weight);
    lemma_mix_step(kept.z, fresh.z, weight);
}

proof fn lemma_vec_mix_between(kept: Vec3, fresh: Vec3, weight: i64)
    ensures
        kept.mix(fresh, weight).is_between(fresh, kept),
        kept.mix(fresh, weight).gap_to(fresh) <= kept.gap_to(fresh),
{
    lemma_mix_between(kept.x, fresh.x, weight);
    lemma_mix_between(kept.y, fresh.y, weight);
    lemma_mix_between(kept.z, fresh.z, weight);
}

/// A smoother never overshoots. Fed the same input again and again, whatever
/// the time steps, every coordinate of its output stays between the coordinate
/// of the input and that of the output it started from, and the output never
/// moves away from the input.
pub proof fn smoother_never_overshoots(
    start: LookTransform,
    raw: LookTransform,
    lag_weight: i64,
    dts: Seq<i64>,
)
    ensures
        smooth_run(start, raw, lag_weight, dts).eye.is_between(raw.eye, start.eye),
        smooth_run(start, raw, lag_weight, dts).target.is_between(raw.target, start.target),
        pose_gap(smooth_run(start, raw, lag_weight, dts), raw) <= pose_gap(start, raw),
    decreases dts.len(),
{
    if dts.len() > 0 {
        let before = smooth_run(start, raw, lag_weight, dts.drop_last());
        let weight = retained_weight(lag_weight, dts.last());
        smoother_never_overshoots(start, raw, lag_weight, dts.drop_last());
        lemma_vec_mix_between(before.eye, raw.eye, weight);
        lemma_vec_mix_between(before.target, raw.target, weight);
    }
}

/// A smoother converges. Fed the same input again and again, with time steps
/// of positive length, the distance of its output from the input shrinks by at
/// least one unit of the last place with every step until it is zero: after as
/// many steps as the distance at the start, eye and target of the output are
/// those of the input.
pub proof fn smoother_converges(
    start: LookTransform,
    raw: LookTransform,
    lag_weight: i64,
    dts: Seq<i64>,
)
    requires
        0 <= lag_weight < ONE,
        forall|i: int| 0 <= i < dts.len() ==> dts[i] > 0,
    ensures
        pose_gap(smooth_run(start, raw, lag_weight, dts), raw) <= pose_gap(start, raw),
        pose_gap(smooth_run(start, raw, lag_weight, dts), raw) + dts.len() <= pose_gap(start, raw)
            || pose_gap(smooth_run(start, raw, lag_weight, dts), raw) == 0,
        dts.len() >= pose_gap(start, raw) ==> {
            &&& smooth_run(start, raw, lag_weight, dts).eye == raw.eye
            &&& smooth_run(start, raw, lag_weight, dts).target == raw.target
        },
    decreases dts.len(),
{
    if dts.len() > 0 {
        let before = smooth_run(start, raw, lag_weight, dts.drop_last());
        let weight = retained_weight(lag_weight, dts.last());
        smoother_converges(start, raw, lag_weight, dts.drop_last());
        lemma_retained_weight_range(lag_weight, dts.last());
        lemma_vec_mix_step(before.eye, raw.eye, weight);
        lemma_vec_mix_step(before.target, raw.target, weight);
    }
}

} // verus!
