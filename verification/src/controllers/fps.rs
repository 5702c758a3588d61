//! The first-person controller: the pointer turns the view, six keys move the
//! eye in the axes of the rig.

use vstd::prelude::*;
use crate::look_angles::{
    angles_of_the_forward_axis, guarded_offset_is_not_zero, rebuilt_view_has_its_length, LookAngles,
};
use crate::look_transform::{
    basis_at_yaw_zero, looking_down_the_forward_axis, LookTransform, YawBasis, MIN_RADIUS,
};
use crate::scalar::{fx_max, fx_neg, MINUS_ONE};
use crate::vector::{
    lemma_length_not_negative, lemma_plus_minus, sum_vec2, vec2_sum, Vec2, Vec3,
};

verus! {

/// Your typical first-person camera controller.
#[derive(Clone, Copy, Debug, PartialEq, Eq, Structural)]
pub struct FpsCameraController {
    pub enabled: bool,
    /// Radians of turn for each unit of pointer motion, for each axis.
    pub mouse_rotate_sensitivity: Vec2,
    /// The distance that one held key moves the eye in one tick.
    pub translate_sensitivity: i64,
}

impl Default for FpsCameraController {
    fn default() -> (r: Self)
        ensures
            r == (FpsCameraController {
                enabled: true,
                mouse_rotate_sensitivity: Vec2 { x: 2_000, y: 2_000 },
                translate_sensitivity: 500_000,
            }),
    {
        FpsCameraController {
            enabled: true,
            mouse_rotate_sensitivity: Vec2 { x: 2_000, y: 2_000 },
            translate_sensitivity: 500_000,
        }
    }
}

/// What the first-person controller is asked to do.
#[derive(Clone, Copy, Debug, PartialEq, Eq, Structural)]
pub enum FPSControlEvent {
    /// Turn the view: the first component to the right, the second down.
    Rotate(Vec2),
    /// Move the eye by a vector given in the axes of the rig.
    TranslateEye(Vec3),
}

/// Which of the six movement keys are held.
#[derive(Clone, Copy, Debug, PartialEq, Eq, Structural)]
pub struct HeldKeys {
    pub forward: bool,
    pub left: bool,
    pub back: bool,
    pub right: bool,
    pub down: bool,
    pub up: bool,
}

/// The event of one key: a step of length `step` along `direction` if the key
/// is held, nothing if it is not.
#[verifier::opaque]
pub open spec fn key_events(held: bool, direction: Vec3, step: i64) -> Seq<FPSControlEvent> {
    if held {
        seq![FPSControlEvent::TranslateEye(direction.scaled(step))]
    } else {
        Seq::empty()
    }
}

/// The events of the held keys, in the order forward, left, back, right, down,
/// up. Forward is the positive third axis of the rig, right the positive first
/// axis, up the positive second axis.
pub open spec fn translation_events(keys: HeldKeys, step: i64) -> Seq<FPSControlEvent> {
    key_events(keys.forward, Vec3::unit_z(), step)
        + key_events(keys.left, Vec3::unit_x().negated(), step)
        + key_events(keys.back, Vec3::unit_z().negated(), step)
        + key_events(keys.right, Vec3::unit_x(), step)
        + key_events(keys.down, Vec3::unit_y().negated(), step)
        + key_events(keys.up, Vec3::unit_y(), step)
}

/// The events of one tick. Without a controller, or with a disabled one, there
/// are none, and the input is dropped. Otherwise one `Rotate` carries the sum
/// of the pointer motions scaled by the sensitivity of each axis, and one
/// `TranslateEye` follows for each held key.
pub open spec fn map_fps_input_spec(
    controller: Option<&FpsCameraController>,
    keys: &HeldKeys,
    motion: Seq<Vec2>,
) -> Seq<FPSControlEvent> {
    match controller {
        None => Seq::empty(),
        Some(c) => if !c.enabled {
            Seq::empty()
        } else {
            seq![FPSControlEvent::Rotate(c.mouse_rotate_sensitivity.times(vec2_sum(motion)))]
                + translation_events(*keys, c.translate_sensitivity)
        },
    }
}

fn push_key_event(events: &mut Vec<FPSControlEvent>, held: bool, direction: Vec3, step: i64)
    ensures
        final(events)@ == old(events)@ + key_events(held, direction, step),
{
    reveal(key_events);
    if held {
        events.push(FPSControlEvent::TranslateEye(direction.scaled(step)));
    }
}

fn push_translation_events(events: &mut Vec<FPSControlEvent>, keys: &HeldKeys, step: i64)
    ensures
        final(events)@ == old(events)@ + translation_events(*keys, step),
{
    let ghost k1 = key_events(keys.forward, Vec3::unit_z(), step);
    let ghost k2 = key_events(keys.left, Vec3::unit_x().negated(), step);
    let ghost k3 = key_events(keys.back, Vec3::unit_z().negated(), step);
    let ghost k4 = key_events(keys.right, Vec3::unit_x(), step);
    let ghost k5 = key_events(keys.down, Vec3::unit_y().negated(), step);
    let ghost k6 = key_events(keys.up, Vec3::unit_y(), step);
    push_key_event(events, keys.forward, Vec3::unit_z(), step);
    push_key_event(events, keys.left, Vec3::unit_x().negated(), step);
    assert(events@ =~= old(events)@ + (k1 + k2));
    push_key_event(events, keys.back, Vec3::unit_z().negated(), step);
    assert(events@ =~= old(events)@ + (k1 + k2 + k3));
    push_key_event(events, keys.right, Vec3::unit_x(), step);
    assert(events@ =~= old(events)@ + (k1 + k2 + k3 + k4));
    push_key_event(events, keys.down, Vec3::unit_y().negated(), step);
    assert(events@ =~= old(events)@ + (k1 + k2 + k3 + k4 + k5));
    push_key_event(events, keys.up, Vec3::unit_y(), step);
    assert(events@ =~= old(events)@ + (k1 + k2 + k3 + k4 + k5 + k6));
}

/// Turns the input of one tick into events for the controller of the active
/// camera.
pub fn map_fps_input(
    controller: Option<&FpsCameraController>,
    keys: &HeldKeys,
    motion: &Vec<Vec2>,
) -> (events: Vec<FPSControlEvent>)
    ensures
        events@ == map_fps_input_spec(controller, keys, motion@),
        controller is None ==> events@.len() == 0,
        controller matches Some(c) && !c.enabled ==> events@.len() == 0,
{
    let mut events: Vec<FPSControlEvent> = Vec::new();
    match controller {
        None => {},
        Some(c) => {
            if c.enabled {
                let cursor_delta = sum_vec2(motion);
                events.push(FPSControlEvent::Rotate(c.mouse_rotate_sensitivity.times(cursor_delta)));
                assert(events@ =~= seq![
                    FPSControlEvent::Rotate(c.mouse_rotate_sensitivity.times(vec2_sum(motion@))),
                ]);
                push_translation_events(&mut events, keys, c.translate_sensitivity);
            }
        },
    }
    events
}

/// What the events of a tick have made of the rig so far: its angles, not yet
/// clamped, and its eye.
#[derive(Clone, Copy, Debug, PartialEq, Eq, Structural)]
pub struct FpsProgress {
    pub angles: LookAngles,
    pub eye: Vec3,
}

impl FpsProgress {
    /// One event applied. `Rotate` lowers the yaw by the first component and
    /// the pitch by the second. `TranslateEye` moves the eye by the vector that
    /// has the given coordinates in `basis`.
    pub open spec fn apply(self, basis: YawBasis, event: FPSControlEvent) -> FpsProgress {
        match event {
            FPSControlEvent::Rotate(delta) => FpsProgress {
                angles: self.angles.add_yaw_spec(fx_neg(delta.x)).add_pitch_spec(fx_neg(delta.y)),
                eye: self.eye,
            },
            FPSControlEvent::TranslateEye(delta) => FpsProgress {
                angles: self.angles,
                eye: self.eye.plus(basis.to_world(delta)),
            },
        }
    }

    /// The events applied in the order of their arrival.
    pub open spec fn apply_all(self, basis: YawBasis, events: Seq<FPSControlEvent>) -> FpsProgress
        decreases events.len(),
    {
        if events.len() == 0 {
            self
        } else {
            self.apply_all(basis, events.drop_last()).apply(basis, events.last())
        }
    }
}

/// Whether a tick has left the view as it was: the pose was in order, with its
/// direction inside the pole guard and its distance not below `MIN_RADIUS`, and
/// the events have left the angles where they started.
pub open spec fn fps_keeps_view(transform: LookTransform, end: FpsProgress) -> bool {
    &&& LookAngles::is_inside_guard(transform.look_direction())
    &&& transform.radius() >= MIN_RADIUS
    &&& end.angles == LookAngles::from_vector(transform.look_direction())
}

/// The vector from the eye to the target that a tick installs: the old one
/// where the tick has left the view as it was, else the direction of the
/// clamped angles, as long as the old distance, and `MIN_RADIUS` at least.
pub open spec fn fps_view(transform: LookTransform, end: FpsProgress) -> Vec3 {
    if fps_keeps_view(transform, end) {
        transform.target.minus(transform.eye)
    } else {
        end.angles.clamp_pitch_spec().unit_vector().resized(
            fx_max(transform.radius(), MIN_RADIUS),
        )
    }
}

/// The pose after one tick of the first-person controller.
///
/// A disabled controller leaves the pose as it is. An enabled one takes the
/// angles afresh from the look direction, and the axes of the rig from the yaw
/// before any event. It applies the events in order, clamps the pitch, and
/// puts the target at the old distance from the new eye, along the new
/// direction. The distance is at least `MIN_RADIUS`. Where the tick has left
/// the view as it was, the vector from eye to target is kept as it is, which is
/// what the new direction and the old distance give but for rounding: a view
/// that is not turned does not creep.
pub open spec fn control_fps_camera_spec(
    controller: FpsCameraController,
    transform: LookTransform,
    events: Seq<FPSControlEvent>,
) -> LookTransform {
    if !controller.enabled {
        transform
    } else {
        let start = LookAngles::from_vector(transform.look_direction());
        let radius = fx_max(transform.radius(), MIN_RADIUS);
        let basis = YawBasis::from_yaw(start.yaw);
        let end = (FpsProgress { angles: start, eye: transform.eye }).apply_all(basis, events);
        LookTransform {
            eye: end.eye,
            target: end.eye.plus(fps_view(transform, end)),
            up: transform.up,
        }
    }
}

/// Runs one tick of the first-person controller on the pose of the active
/// camera, and empties the queue of events, whether the controller is enabled
/// or not.
pub fn control_fps_camera(
    controller: &FpsCameraController,
    transform: &mut LookTransform,
    events: &mut Vec<FPSControlEvent>,
)
    ensures
        *final(transform) == control_fps_camera_spec(*controller, *old(transform), old(events)@),
        !controller.enabled ==> *final(transform) == *old(transform),
        final(events)@.len() == 0,
{
    if controller.enabled {
        let direction = transform.look_direction();
        let first = LookAngles::from_vector(direction);
        let mut angles = first;
        let measured = transform.radius();
        let radius = fx_max(measured, MIN_RADIUS);
        let in_order = LookAngles::is_inside_guard(direction) && measured >= MIN_RADIUS;
        let old_view = transform.target.minus(transform.eye);
        let basis = YawBasis::from_yaw(angles.get_yaw());
        let mut eye = transform.eye;
        let ghost start = FpsProgress { angles, eye };
        let mut i: usize = 0;
        while i < events.len()
            invariant
                i <= events.len(),
                events@ == old(events)@,
                (FpsProgress { angles, eye }) == start.apply_all(basis, events@.take(i as int)),
            decreases events.len() - i,
        {
            assert(events@.take(i + 1).drop_last() == events@.take(i as int));
            match events[i] {
                FPSControlEvent::Rotate(delta) => {
                    angles.add_yaw(fx_neg(delta.x));
                    angles.add_pitch(fx_neg(delta.y));
                },
                FPSControlEvent::TranslateEye(delta) => {
                    eye = eye.plus(basis.to_world(delta));
                },
            }
            i += 1;
        }
        assert(events@.take(events.len() as int) == events@);
        let keeps = in_order && angles.yaw == first.yaw && angles.pitch == first.pitch;
        angles.clamp_pitch();
        transform.eye = eye;
        if keeps {
            transform.target = eye.plus(old_view);
        } else {
            transform.target = eye.plus(angles.unit_vector().resized(radius));
        }
    }
    events.clear();
}

/// An enabled controller leaves a pose that has a direction. Whatever the
/// events, and even if eye and target coincided before, the new target differs
/// from the new eye, unless the eye stands at the very limit of the numbers.
pub proof fn fps_update_keeps_a_direction(
    controller: FpsCameraController,
    transform: LookTransform,
    events: Seq<FPSControlEvent>,
)
    requires
        controller.enabled,
        ({
            let after = control_fps_camera_spec(controller, transform, events);
            &&& i64::MIN < after.eye.x < i64::MAX
            &&& i64::MIN < after.eye.y < i64::MAX
            &&& i64::MIN < after.eye.z < i64::MAX
        }),
    ensures
        control_fps_camera_spec(controller, transform, events).is_valid(),
{
    let start = LookAngles::from_vector(transform.look_direction());
    let radius = fx_max(transform.radius(), MIN_RADIUS);
    let basis = YawBasis::from_yaw(start.yaw);
    let end = (FpsProgress { angles: start, eye: transform.eye }).apply_all(basis, events);
    guarded_offset_is_not_zero(end.angles.clamp_pitch_spec(), radius);
    lemma_length_not_negative(transform.target.minus(transform.eye));
}

/// Every tick keeps the distance. After a tick of an enabled controller the
/// distance from eye to target is the distance before it, or `MIN_RADIUS` where
/// that was less, within a hundred-and-sixty-thousandth of it and twenty-four
/// units of the last place, whatever the events; where the new target can be
/// represented.
pub proof fn fps_tick_keeps_the_distance(
    controller: FpsCameraController,
    transform: LookTransform,
    events: Seq<FPSControlEvent>,
)
    requires
        controller.enabled,
        transform.radius() <= 1_000_000_000_000_000,
        ({
            let start = LookAngles::from_vector(transform.look_direction());
            let end = (FpsProgress { angles: start, eye: transform.eye }).apply_all(
                YawBasis::from_yaw(start.yaw),
                events,
            );
            end.eye.sum_fits(fps_view(transform, end))
        }),
    ensures
        ({
            let after = control_fps_camera_spec(controller, transform, events);
            let reach = fx_max(transform.radius(), MIN_RADIUS);
            -(reach / 160_000 + 24) <= after.radius() - reach <= reach / 160_000 + 24
        }),
{
    let start = LookAngles::from_vector(transform.look_direction());
    let reach = fx_max(transform.radius(), MIN_RADIUS);
    let basis = YawBasis::from_yaw(start.yaw);
    let end = (FpsProgress { angles: start, eye: transform.eye }).apply_all(basis, events);
    lemma_length_not_negative(transform.target.minus(transform.eye));
    lemma_plus_minus(end.eye, fps_view(transform, end));
    if !fps_keeps_view(transform, end) {
        rebuilt_view_has_its_length(end.angles.clamp_pitch_spec(), reach);
    }
}

/// Whether every event moves the eye, or is a turn by nothing, as the mapper
/// emits it when the pointer has not moved.
pub open spec fn is_pure_translation(events: Seq<FPSControlEvent>) -> bool {
    forall|i: int|
        0 <= i < events.len() ==> (#[trigger] events[i] is TranslateEye || events[i]
            == FPSControlEvent::Rotate(Vec2::zero()))
}

/// Events that only move the eye leave the angles as they were.
pub proof fn lemma_translation_keeps_angles(
    start: FpsProgress,
    basis: YawBasis,
    events: Seq<FPSControlEvent>,
)
    requires
        is_pure_translation(events),
    ensures
        start.apply_all(basis, events).angles == start.angles,
        events.len() == 0 ==> start.apply_all(basis, events) == start,
    decreases events.len(),
{
    if events.len() > 0 {
        let head = events.drop_last();
        assert forall|i: int| 0 <= i < head.len() implies (#[trigger] head[i] is TranslateEye
            || head[i] == FPSControlEvent::Rotate(Vec2::zero())) by {
            assert(head[i] == events[i]);
        }
        lemma_translation_keeps_angles(start, basis, head);
        assert(events.last() == events[events.len() - 1]);
    }
}

/// A view that is not turned does not creep. For a pose that is in order, a
/// tick whose events only move the eye carries the target along by the same
/// vector, so that direction and distance are exactly what they were; and a
/// tick without events leaves the pose exactly as it was.
pub proof fn translation_keeps_the_view(
    controller: FpsCameraController,
    transform: LookTransform,
    events: Seq<FPSControlEvent>,
)
    requires
        controller.enabled,
        LookAngles::is_inside_guard(transform.look_direction()),
        transform.radius() >= MIN_RADIUS,
        is_pure_translation(events),
    ensures
        ({
            let after = control_fps_camera_spec(controller, transform, events);
            let view = transform.target.minus(transform.eye);
            &&& after.target == after.eye.plus(view)
            &&& after.eye.sum_fits(view) && transform.eye.sum_fits(view) ==> after.radius()
                == transform.radius()
            &&& events.len() == 0 && transform.eye.plus(view) == transform.target ==> after
                == transform
        }),
{
    let start = FpsProgress {
        angles: LookAngles::from_vector(transform.look_direction()),
        eye: transform.eye,
    };
    let basis = YawBasis::from_yaw(start.angles.yaw);
    lemma_translation_keeps_angles(start, basis, events);
    let after = control_fps_camera_spec(controller, transform, events);
    let view = transform.target.minus(transform.eye);
    if after.eye.sum_fits(view) && transform.eye.sum_fits(view) {
        lemma_plus_minus(after.eye, view);
        lemma_plus_minus(transform.eye, view);
    }
}

/// Translation happens in the axes of the rig. For a camera that looks down the
/// negative third axis the yaw is zero and those are the axes of the world: a
/// `TranslateEye` event moves the eye by the vector that it carries.
pub proof fn translation_at_yaw_zero(
    controller: FpsCameraController,
    transform: LookTransform,
    delta: Vec3,
)
    requires
        controller.enabled,
        transform.target.x == transform.eye.x,
        transform.target.y == transform.eye.y,
        i64::MIN < transform.target.z - transform.eye.z < 0,
    ensures
        LookAngles::from_vector(transform.look_direction()).yaw == 0,
        control_fps_camera_spec(
            controller,
            transform,
            seq![FPSControlEvent::TranslateEye(delta)],
        ).eye == transform.eye.plus(delta),
{
    looking_down_the_forward_axis(transform);
    angles_of_the_forward_axis(MINUS_ONE);
    basis_at_yaw_zero(delta);
    let events = seq![FPSControlEvent::TranslateEye(delta)];
    let start = FpsProgress {
        angles: LookAngles::from_vector(transform.look_direction()),
        eye: transform.eye,
    };
    let basis = YawBasis::from_yaw(0);
    assert(events.drop_last() =~= Seq::<FPSControlEvent>::empty());
    assert(start.apply_all(basis, events.drop_last()) == start);
    assert(start.apply_all(basis, events) == start.apply(basis, events.last()));
}

} // verus!
