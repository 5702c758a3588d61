//! The orbit controller: the pointer swings the eye around the target, the
//! middle button pans the target, the wheel changes the distance.

use vstd::prelude::*;
use crate::look_angles::{guarded_offset_is_not_zero, rebuilt_view_has_its_length, LookAngles};
use crate::look_transform::{LookTransform, MIN_RADIUS};
use crate::scalar::{fx_max, fx_mul, fx_neg, fx_sub, lemma_mul_one, ONE};
use crate::vector::{
    lemma_length_not_negative, lemma_length_of_the_opposite, lemma_minus_plus, sum_vec2, vec2_sum,
    Quat, Vec2, Vec3,
};

verus! {

/// A 3rd person camera that orbits around the target.
#[derive(Clone, Copy, Debug, PartialEq, Eq, Structural)]
pub struct OrbitCameraController {
    pub enabled: bool,
    /// Radians of swing for each unit of pointer motion, for each axis.
    pub mouse_rotate_sensitivity: Vec2,
    /// Distance of pan for each unit of pointer motion, for each axis.
    pub mouse_translate_sensitivity: Vec2,
    /// The share of the distance that one step of the wheel takes away.
    pub mouse_wheel_zoom_sensitivity: i64,
}

impl Default for OrbitCameraController {
    fn default() -> (r: Self)
        ensures
            r == (OrbitCameraController {
                enabled: true,
                mouse_rotate_sensitivity: Vec2 { x: 6_000, y: 6_000 },
                mouse_translate_sensitivity: Vec2 { x: 8_000, y: 8_000 },
                mouse_wheel_zoom_sensitivity: 150_000,
            }),
    {
        OrbitCameraController {
            enabled: true,
            mouse_rotate_sensitivity: Vec2 { x: 6_000, y: 6_000 },
            mouse_translate_sensitivity: Vec2 { x: 8_000, y: 8_000 },
            mouse_wheel_zoom_sensitivity: 150_000,
        }
    }
}

/// What the orbit controller is asked to do.
#[derive(Clone, Copy, Debug, PartialEq, Eq, Structural)]
pub enum OrbitControlEvent {
    /// Swing the eye around the target.
    Orbit(Vec2),
    /// Move the target in the plane of the screen.
    TranslateTarget(Vec2),
    /// Multiply the distance from the target by a factor.
    Zoom(i64),
}

/// The factor of one step of the wheel: one less the step times the
/// sensitivity.
pub open spec fn zoom_factor(step: i64, sensitivity: i64) -> i64 {
    fx_sub(ONE, fx_mul(step, sensitivity))
}

/// The factor of all the steps of a tick: the product of their factors, taken
/// from the first to the last, and one where there is none.
pub open spec fn zoom_scalar(steps: Seq<i64>, sensitivity: i64) -> i64
    decreases steps.len(),
{
    if steps.len() == 0 {
        ONE
    } else {
        fx_mul(zoom_scalar(steps.drop_last(), sensitivity), zoom_factor(steps.last(), sensitivity))
    }
}

/// The events of one tick. Without a controller, or with a disabled one, there
/// are none, and the input is dropped. Otherwise there is one `Orbit` with the
/// sum of the pointer motions scaled by the rotate sensitivity; then, if the
/// middle button is held, one `TranslateTarget` with the same sum scaled by the
/// translate sensitivity; then one `Zoom`, whether the wheel moved or not.
pub open spec fn map_orbit_input_spec(
    controller: Option<&OrbitCameraController>,
    middle_held: bool,
    motion: Seq<Vec2>,
    wheel: Seq<i64>,
) -> Seq<OrbitControlEvent> {
    match controller {
        None => Seq::empty(),
        Some(c) => if !c.enabled {
            Seq::empty()
        } else {
            let cursor_delta = vec2_sum(motion);
            let orbit = seq![OrbitControlEvent::Orbit(c.mouse_rotate_sensitivity.times(cursor_delta))];
            let pan = if middle_held {
                seq![
                    OrbitControlEvent::TranslateTarget(
                        c.mouse_translate_sensitivity.times(cursor_delta),
                    ),
                ]
            } else {
                Seq::empty()
            };
            let zoom = seq![
                OrbitControlEvent::Zoom(zoom_scalar(wheel, c.mouse_wheel_zoom_sensitivity)),
            ];
            orbit + pan + zoom
        },
    }
}

/// Multiplies up the factors of the steps of the wheel.
pub fn accumulate_zoom(steps: &Vec<i64>, sensitivity: i64) -> (scalar: i64)
    ensures
        scalar == zoom_scalar(steps@, sensitivity),
{
    let mut scalar: i64 = ONE;
    let mut i: usize = 0;
    while i < steps.len()
        invariant
            i <= steps.len(),
            scalar == zoom_scalar(steps@.take(i as int), sensitivity),
        decreases steps.len() - i,
    {
        assert(steps@.take(i + 1).drop_last() == steps@.take(i as int));
        scalar = fx_mul(scalar, fx_sub(ONE, fx_mul(steps[i], sensitivity)));
        i += 1;
    }
    assert(steps@.take(steps.len() as int) == steps@);
    scalar
}

/// Turns the input of one tick into events for the controller of the active
/// camera.
pub fn map_orbit_input(
    controller: Option<&OrbitCameraController>,
    middle_held: bool,
    motion: &Vec<Vec2>,
    wheel: &Vec<i64>,
) -> (events: Vec<OrbitControlEvent>)
    ensures
        events@ == map_orbit_input_spec(controller, middle_held, motion@, wheel@),
        controller is None ==> events@.len() == 0,
        controller matches Some(c) && !c.enabled ==> events@.len() == 0,
{
    let mut events: Vec<OrbitControlEvent> = Vec::new();
    match controller {
        None => {},
        Some(c) => {
            if c.enabled {
                let cursor_delta = sum_vec2(motion);
                events.push(OrbitControlEvent::Orbit(c.mouse_rotate_sensitivity.times(cursor_delta)));
                if middle_held {
                    events.push(
                        OrbitControlEvent::TranslateTarget(
                            c.mouse_translate_sensitivity.times(cursor_delta),
                        ),
                    );
                }
                let scalar = accumulate_zoom(wheel, c.mouse_wheel_zoom_sensitivity);
                events.push(OrbitControlEvent::Zoom(scalar));
            }
        },
    }
    events
}

/// What the events of a tick have made of the rig so far: its angles, not yet
/// clamped, its target, and the factor by which the distance is to change.
#[derive(Clone, Copy, Debug, PartialEq, Eq, Structural)]
pub struct OrbitProgress {
    pub angles: LookAngles,
    pub target: Vec3,
    pub radius_scalar: i64,
}

impl OrbitProgress {
    /// One event applied. `Orbit` lowers the yaw by the first component and
    /// raises the pitch by the second. `TranslateTarget` moves the target along
    /// the right and up directions of the screen. `Zoom` multiplies the factor.
    pub open spec fn apply(self, right: Vec3, up: Vec3, event: OrbitControlEvent) -> OrbitProgress {
        match event {
            OrbitControlEvent::Orbit(delta) => OrbitProgress {
                angles: self.angles.add_yaw_spec(fx_neg(delta.x)).add_pitch_spec(delta.y),
                target: self.target,
                radius_scalar: self.radius_scalar,
            },
            OrbitControlEvent::TranslateTarget(delta) => OrbitProgress {
                angles: self.angles,
                target: self.target.plus(right.scaled(delta.x).plus(up.scaled(delta.y))),
                radius_scalar: self.radius_scalar,
            },
            OrbitControlEvent::Zoom(scalar) => OrbitProgress {
                angles: self.angles,
                target: self.target,
                radius_scalar: fx_mul(self.radius_scalar, scalar),
            },
        }
    }

    /// The events applied in the order of their arrival.
    pub open spec fn apply_all(
        self,
        right: Vec3,
        up: Vec3,
        events: Seq<OrbitControlEvent>,
    ) -> OrbitProgress
        decreases events.len(),
    {
        if events.len() == 0 {
            self
        } else {
            self.apply_all(right, up, events.drop_last()).apply(right, up, events.last())
        }
    }

    /// The vector from the target to the eye that the progress asks for, given
    /// the distance before the tick: the direction of the clamped angles, as
    /// long as the scaled distance, and at least `MIN_RADIUS`.
    pub open spec fn offset(self, radius: i64) -> Vec3 {
        self.angles.clamp_pitch_spec().unit_vector().resized(
            fx_max(fx_mul(self.radius_scalar, radius), MIN_RADIUS),
        )
    }
}

/// The right direction of the screen of a camera with the world rotation
/// `rotation`: the image of the negative first axis.
pub open spec fn screen_right(rotation: Quat) -> Vec3 {
    rotation.rotate(Vec3::unit_x().negated())
}

/// The up direction of the screen of a camera with the world rotation
/// `rotation`: the image of the second axis.
pub open spec fn screen_up(rotation: Quat) -> Vec3 {
    rotation.rotate(Vec3::unit_y())
}

/// Where the events of a tick start from: the angles of the direction from the
/// target to the eye, the target, and the factor one.
pub open spec fn orbit_start(transform: LookTransform) -> OrbitProgress {
    OrbitProgress {
        angles: LookAngles::from_vector(transform.look_direction().negated()),
        target: transform.target,
        radius_scalar: ONE,
    }
}

/// Whether a tick has left the arm from the target to the eye as it was: the
/// pose was in order, with the direction of the arm inside the pole guard and
/// its length not below `MIN_RADIUS`, and the events have left the angles where
/// they started and the factor of the distance at one.
pub open spec fn orbit_keeps_arm(transform: LookTransform, end: OrbitProgress) -> bool {
    &&& LookAngles::is_inside_guard(transform.look_direction().negated())
    &&& transform.radius() >= MIN_RADIUS
    &&& end.angles == orbit_start(transform).angles
    &&& end.radius_scalar == ONE
}

/// The vector from the target to the eye that a tick installs: the old one
/// where the tick has left the arm as it was, else the direction of the clamped
/// angles, as long as the scaled distance, and `MIN_RADIUS` at least.
pub open spec fn orbit_arm(transform: LookTransform, end: OrbitProgress) -> Vec3 {
    if orbit_keeps_arm(transform, end) {
        transform.eye.minus(transform.target)
    } else {
        end.offset(transform.radius())
    }
}

/// The pose after one tick of the orbit controller.
///
/// A disabled controller leaves the pose as it is. An enabled one takes the
/// angles afresh from the direction from the target to the eye, applies the
/// events in order, clamps the pitch, and puts the eye at the scaled distance
/// from the new target, along the new direction. The target is the pivot: the
/// eye follows it. Where the tick has left the arm as it was, the vector from
/// the target to the eye is kept as it is, which is what the new direction and
/// the distance give but for rounding: an arm that is neither swung nor
/// stretched does not creep.
pub open spec fn control_orbit_camera_spec(
    controller: OrbitCameraController,
    transform: LookTransform,
    rotation: Quat,
    events: Seq<OrbitControlEvent>,
) -> LookTransform {
    if !controller.enabled {
        transform
    } else {
        let end = orbit_start(transform).apply_all(
            screen_right(rotation),
            screen_up(rotation),
            events,
        );
        LookTransform {
            eye: end.target.plus(orbit_arm(transform, end)),
            target: end.target,
            up: transform.up,
        }
    }
}

/// Runs one tick of the orbit controller on the pose of the active camera,
/// whose world rotation is `rotation`, and empties the queue of events, whether
/// the controller is enabled or not.
pub fn control_orbit_camera(
    controller: &OrbitCameraController,
    transform: &mut LookTransform,
    rotation: Quat,
    events: &mut Vec<OrbitControlEvent>,
)
    ensures
        *final(transform) == control_orbit_camera_spec(
            *controller,
            *old(transform),
            rotation,
            old(events)@,
        ),
        !controller.enabled ==> *final(transform) == *old(transform),
        final(events)@.len() == 0,
{
    if controller.enabled {
        let direction = transform.look_direction().negated();
        let first = LookAngles::from_vector(direction);
        let mut angles = first;
        let radius = transform.radius();
        let in_order = LookAngles::is_inside_guard(direction) && radius >= MIN_RADIUS;
        let old_arm = transform.eye.minus(transform.target);
        let right = rotation.rotate(Vec3::unit_x().negated());
        let up = rotation.rotate(Vec3::unit_y());
        let mut target = transform.target;
        let mut radius_scalar: i64 = ONE;
        let ghost start = orbit_start(*transform);
        let mut i: usize = 0;
        while i < events.len()
            invariant
                i <= events.len(),
                events@ == old(events)@,
                (OrbitProgress { angles, target, radius_scalar }) == start.apply_all(
                    right,
                    up,
                    events@.take(i as int),
                ),
            decreases events.len() - i,
        {
            assert(events@.take(i + 1).drop_last() == events@.take(i as int));
            match events[i] {
                OrbitControlEvent::Orbit(delta) => {
                    angles.add_yaw(fx_neg(delta.x));
                    angles.add_pitch(delta.y);
                },
                OrbitControlEvent::TranslateTarget(delta) => {
                    target = target.plus(right.scaled(delta.x).plus(up.scaled(delta.y)));
                },
                OrbitControlEvent::Zoom(scalar) => {
                    radius_scalar = fx_mul(radius_scalar, scalar);
                },
            }
            i += 1;
        }
        assert(events@.take(events.len() as int) == events@);
        let keeps = in_order && angles.yaw == first.yaw && angles.pitch == first.pitch
            && radius_scalar == ONE;
        angles.clamp_pitch();
        let reach = fx_max(fx_mul(radius_scalar, radius), MIN_RADIUS);
        transform.target = target;
        if keeps {
            transform.eye = target.plus(old_arm);
        } else {
            transform.eye = target.plus(angles.unit_vector().resized(reach));
        }
    }
    events.clear();
}

/// Zoom is multiplicative. Two steps of the wheel in one tick give the product
/// of their two factors, and each further step multiplies the factor of the
/// steps before it by its own.
pub proof fn zoom_is_multiplicative(steps: Seq<i64>, y1: i64, y2: i64, sensitivity: i64)
    ensures
        zoom_scalar(seq![y1, y2], sensitivity) == fx_mul(
            fx_sub(ONE, fx_mul(y1, sensitivity)),
            fx_sub(ONE, fx_mul(y2, sensitivity)),
        ),
        zoom_scalar(steps.push(y1), sensitivity) == fx_mul(
            zoom_scalar(steps, sensitivity),
            zoom_factor(y1, sensitivity),
        ),
        zoom_scalar(Seq::empty(), sensitivity) == ONE,
{
    let two = seq![y1, y2];
    assert(two.drop_last() =~= seq![y1]);
    assert(seq![y1].drop_last() =~= Seq::<i64>::empty());
    assert(zoom_scalar(Seq::empty(), sensitivity) == ONE);
    assert(zoom_scalar(seq![y1], sensitivity) == fx_mul(ONE, zoom_factor(y1, sensitivity)));
    lemma_mul_one(zoom_factor(y1, sensitivity));
    assert(steps.push(y1).drop_last() =~= steps);
}

/// The factor that a `Zoom` event carries is applied to the distance before the
/// tick: after a tick with that one event the eye stands off the target by the
/// old distance times the factor, and by `MIN_RADIUS` at least, along the
/// direction from the target to the eye.
pub proof fn zoom_scales_radius(
    controller: OrbitCameraController,
    transform: LookTransform,
    rotation: Quat,
    scalar: i64,
)
    requires
        controller.enabled,
        scalar != ONE,
    ensures
        ({
            let after = control_orbit_camera_spec(
                controller,
                transform,
                rotation,
                seq![OrbitControlEvent::Zoom(scalar)],
            );
            let direction = LookAngles::from_vector(
                transform.look_direction().negated(),
            ).unit_vector();
            &&& after.target == transform.target
            &&& after.eye == transform.target.plus(
                direction.resized(fx_max(fx_mul(scalar, transform.radius()), MIN_RADIUS)),
            )
        }),
{
    let events = seq![OrbitControlEvent::Zoom(scalar)];
    let start = orbit_start(transform);
    assert(events.drop_last() =~= Seq::<OrbitControlEvent>::empty());
    assert(start.apply_all(screen_right(rotation), screen_up(rotation), events.drop_last())
        == start);
    lemma_mul_one(scalar);
}

/// Whether every event moves the target, or is a zoom by the factor one, or is
/// a swing by nothing, as the mapper emits it when the pointer has not moved.
pub open spec fn is_pure_pan(events: Seq<OrbitControlEvent>) -> bool {
    forall|i: int|
        0 <= i < events.len() ==> (#[trigger] events[i] is TranslateTarget || events[i]
            == OrbitControlEvent::Zoom(ONE) || events[i] == OrbitControlEvent::Orbit(
            Vec2::zero(),
        ))
}

/// Events that only pan leave the angles and the factor of the distance as they
/// were.
pub proof fn lemma_pan_keeps_angles(
    start: OrbitProgress,
    right: Vec3,
    up: Vec3,
    events: Seq<OrbitControlEvent>,
)
    requires
        is_pure_pan(events),
        start.radius_scalar == ONE,
    ensures
        start.apply_all(right, up, events).angles == start.angles,
        start.apply_all(right, up, events).radius_scalar == ONE,
    decreases events.len(),
{
    if events.len() > 0 {
        let head = events.drop_last();
        assert forall|i: int| 0 <= i < head.len() implies (#[trigger] head[i] is TranslateTarget
            || head[i] == OrbitControlEvent::Zoom(ONE) || head[i] == OrbitControlEvent::Orbit(
            Vec2::zero(),
        )) by {
            assert(head[i] == events[i]);
        }
        lemma_pan_keeps_angles(start, right, up, head);
        assert(events.last() == events[events.len() - 1]);
        lemma_mul_one(ONE);
    }
}

/// A pure pan carries the eye along with the target. For a pose that is in
/// order, the vector from the target to the eye after a tick of panning is
/// exactly the one before it, so that the distance between eye and target is
/// exactly what it was, tick after tick; and a tick without events leaves the
/// pose exactly as it was.
pub proof fn pan_preserves_radius(
    controller: OrbitCameraController,
    transform: LookTransform,
    rotation: Quat,
    events: Seq<OrbitControlEvent>,
)
    requires
        controller.enabled,
        is_pure_pan(events),
        LookAngles::is_inside_guard(transform.look_direction().negated()),
        transform.radius() >= MIN_RADIUS,
    ensures
        ({
            let panned = control_orbit_camera_spec(controller, transform, rotation, events);
            let arm = transform.eye.minus(transform.target);
            &&& panned.eye == panned.target.plus(arm)
            &&& panned.target.sum_fits(arm) && transform.target.plus(arm) == transform.eye
                ==> panned.radius() == transform.radius()
            &&& events.len() == 0 && transform.target.plus(arm) == transform.eye ==> panned
                == transform
        }),
{
    let start = orbit_start(transform);
    let right = screen_right(rotation);
    let up = screen_up(rotation);
    lemma_pan_keeps_angles(start, right, up, events);
    let panned = control_orbit_camera_spec(controller, transform, rotation, events);
    let arm = transform.eye.minus(transform.target);
    if panned.target.sum_fits(arm) && transform.target.plus(arm) == transform.eye {
        lemma_minus_plus(panned.target, arm);
        assert(transform.target.minus(transform.eye) == arm.negated());
    }
}

/// Every tick puts the eye at the distance that it asks for. After a tick of
/// an enabled controller the distance from eye to target is the distance before
/// it times the factor of the zoom events, or `MIN_RADIUS` where that is less,
/// within a hundred-and-sixty-thousandth of it and twenty-four units of the
/// last place, whatever the events; where the new eye can be represented.
pub proof fn orbit_tick_keeps_the_distance(
    controller: OrbitCameraController,
    transform: LookTransform,
    rotation: Quat,
    events: Seq<OrbitControlEvent>,
)
    requires
        controller.enabled,
        transform.target.plus(transform.eye.minus(transform.target)) == transform.eye,
        ({
            let end = orbit_start(transform).apply_all(
                screen_right(rotation),
                screen_up(rotation),
                events,
            );
            &&& fx_mul(end.radius_scalar, transform.radius()) <= 1_000_000_000_000_000
            &&& transform.radius() <= 1_000_000_000_000_000
            &&& end.target.sum_fits(orbit_arm(transform, end))
            &&& orbit_arm(transform, end).x > i64::MIN
            &&& orbit_arm(transform, end).y > i64::MIN
            &&& orbit_arm(transform, end).z > i64::MIN
        }),
    ensures
        ({
            let after = control_orbit_camera_spec(controller, transform, rotation, events);
            let end = orbit_start(transform).apply_all(
                screen_right(rotation),
                screen_up(rotation),
                events,
            );
            let reach = fx_max(fx_mul(end.radius_scalar, transform.radius()), MIN_RADIUS);
            -(reach / 160_000 + 24) <= after.radius() - reach <= reach / 160_000 + 24
        }),
{
    let end = orbit_start(transform).apply_all(
        screen_right(rotation),
        screen_up(rotation),
        events,
    );
    let reach = fx_max(fx_mul(end.radius_scalar, transform.radius()), MIN_RADIUS);
    let arm = orbit_arm(transform, end);
    lemma_length_not_negative(transform.target.minus(transform.eye));
    lemma_minus_plus(end.target, arm);
    lemma_length_of_the_opposite(arm);
    if orbit_keeps_arm(transform, end) {
        lemma_mul_one(transform.radius());
        assert(transform.target.minus(transform.eye) == arm.negated());
    } else {
        rebuilt_view_has_its_length(end.angles.clamp_pitch_spec(), reach);
    }
}

/// An enabled controller leaves a pose that has a direction. Whatever the
/// events, and even if they zoom the distance away, the new eye differs from
/// the new target, unless the target stands at the very limit of the numbers.
pub proof fn orbit_update_keeps_a_direction(
    controller: OrbitCameraController,
    transform: LookTransform,
    rotation: Quat,
    events: Seq<OrbitControlEvent>,
)
    requires
        controller.enabled,
        ({
            let after = control_orbit_camera_spec(controller, transform, rotation, events);
            &&& i64::MIN < after.target.x < i64::MAX
            &&& i64::MIN < after.target.y < i64::MAX
            &&& i64::MIN < after.target.z < i64::MAX
        }),
    ensures
        control_orbit_camera_spec(controller, transform, rotation, events).is_valid(),
{
    let end = orbit_start(transform).apply_all(
        screen_right(rotation),
        screen_up(rotation),
        events,
    );
    guarded_offset_is_not_zero(
        end.angles.clamp_pitch_spec(),
        fx_max(fx_mul(end.radius_scalar, transform.radius()), MIN_RADIUS),
    );
    lemma_length_not_negative(transform.target.minus(transform.eye));
    if transform.eye.minus(transform.target) == Vec3::zero() {
        assert(transform.target.minus(transform.eye) == Vec3::zero());
    }
}

} // verus!
