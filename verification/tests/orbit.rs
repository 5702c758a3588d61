use camera_rig::controllers::orbit::{
    accumulate_zoom, control_orbit_camera, map_orbit_input, OrbitCameraController,
    OrbitControlEvent,
};
use camera_rig::look_transform::{LookTransform, MIN_RADIUS};
use camera_rig::scalar::{fx_mul, fx_sub, ONE};
use camera_rig::vector::{Quat, Vec2, Vec3};

#[test]
fn orbit_defaults() {
    let c = OrbitCameraController::default();
    assert!(c.enabled);
    assert_eq!(c.mouse_rotate_sensitivity, Vec2 { x: 6_000, y: 6_000 });
    assert_eq!(c.mouse_translate_sensitivity, Vec2 { x: 8_000, y: 8_000 });
    assert_eq!(c.mouse_wheel_zoom_sensitivity, 150_000);
}

#[test]
fn orbit_mapper_without_a_camera_emits_nothing() {
    let motion = vec![Vec2::new(ONE, ONE)];
    let wheel = vec![ONE];
    assert_eq!(map_orbit_input(None, true, &motion, &wheel), vec![]);
}

#[test]
fn orbit_mapper_drops_input_when_disabled() {
    let mut c = OrbitCameraController::default();
    c.enabled = false;
    let motion = vec![Vec2::new(ONE, ONE)];
    let wheel = vec![ONE];
    assert_eq!(map_orbit_input(Some(&c), true, &motion, &wheel), vec![]);
}

#[test]
fn orbit_mapper_emits_orbit_and_zoom_without_any_input() {
    let c = OrbitCameraController::default();
    let motion: Vec<Vec2> = Vec::new();
    let wheel: Vec<i64> = Vec::new();
    assert_eq!(
        map_orbit_input(Some(&c), false, &motion, &wheel),
        vec![OrbitControlEvent::Orbit(Vec2 { x: 0, y: 0 }), OrbitControlEvent::Zoom(ONE)]
    );
}

#[test]
fn orbit_mapper_pans_only_with_the_middle_button() {
    let c = OrbitCameraController::default();
    let motion = vec![Vec2::new(10 * ONE, -ONE), Vec2::new(5 * ONE, -2 * ONE)];
    let wheel: Vec<i64> = Vec::new();
    assert_eq!(
        map_orbit_input(Some(&c), false, &motion, &wheel),
        vec![
            OrbitControlEvent::Orbit(Vec2 { x: 90_000, y: -18_000 }),
            OrbitControlEvent::Zoom(ONE),
        ]
    );
    assert_eq!(
        map_orbit_input(Some(&c), true, &motion, &wheel),
        vec![
            OrbitControlEvent::Orbit(Vec2 { x: 90_000, y: -18_000 }),
            OrbitControlEvent::TranslateTarget(Vec2 { x: 120_000, y: -24_000 }),
            OrbitControlEvent::Zoom(ONE),
        ]
    );
}

#[test]
fn zoom_multiplicativity() {
    let s = 150_000;
    let y1 = ONE;
    let y2 = -2 * ONE;
    let expected = fx_mul(fx_sub(ONE, fx_mul(y1, s)), fx_sub(ONE, fx_mul(y2, s)));
    assert_eq!(expected, 1_105_000);
    assert_eq!(accumulate_zoom(&vec![y1, y2], s), expected);
    let c = OrbitCameraController::default();
    let motion: Vec<Vec2> = Vec::new();
    let events = map_orbit_input(Some(&c), false, &motion, &vec![y1, y2]);
    assert_eq!(events.len(), 2);
    assert_eq!(events[1], OrbitControlEvent::Zoom(1_105_000));
}

#[test]
fn zoom_compounds_geometrically() {
    assert_eq!(accumulate_zoom(&vec![], 150_000), ONE);
    assert_eq!(accumulate_zoom(&vec![ONE], 150_000), 850_000);
    assert_eq!(accumulate_zoom(&vec![ONE, ONE], 150_000), 722_500);
    assert_eq!(accumulate_zoom(&vec![ONE, ONE, ONE], 150_000), 614_125);
    assert_eq!(accumulate_zoom(&vec![-ONE], 150_000), 1_150_000);
}

#[test]
fn zoom_of_two_steps_scales_the_radius_of_the_tick() {
    let c = OrbitCameraController::default();
    let mut t = LookTransform::new(Vec3::new(0, 0, 5 * ONE), Vec3::zero());
    let motion: Vec<Vec2> = Vec::new();
    let mut events = map_orbit_input(Some(&c), false, &motion, &vec![ONE, -2 * ONE]);
    control_orbit_camera(&c, &mut t, Quat::identity(), &mut events);
    assert_eq!(t.target, Vec3::zero());
    assert_eq!(t.eye, Vec3 { x: 0, y: 0, z: 5_525_000 });
    assert_eq!(t.radius(), fx_mul(1_105_000, 5 * ONE));
}

#[test]
fn orbit_disabled_controller_leaves_the_pose_and_drains_the_queue() {
    let mut c = OrbitCameraController::default();
    c.enabled = false;
    let before = LookTransform::new(Vec3::new(0, 0, 5 * ONE), Vec3::zero());
    let mut t = before;
    let mut events = vec![
        OrbitControlEvent::Orbit(Vec2::new(100_000, 200_000)),
        OrbitControlEvent::TranslateTarget(Vec2::new(ONE, ONE)),
        OrbitControlEvent::Zoom(500_000),
    ];
    control_orbit_camera(&c, &mut t, Quat::identity(), &mut events);
    assert_eq!(t, before);
    assert!(events.is_empty());
}

#[test]
fn orbit_disabled_tick_from_input_to_pose_changes_nothing() {
    let mut c = OrbitCameraController::default();
    c.enabled = false;
    let before = LookTransform::new(Vec3::new(ONE, 2 * ONE, 3 * ONE), Vec3::new(-ONE, 0, 0));
    let mut t = before;
    let motion = vec![Vec2::new(40 * ONE, -30 * ONE)];
    let mut events = map_orbit_input(Some(&c), true, &motion, &vec![ONE, ONE]);
    control_orbit_camera(&c, &mut t, Quat::identity(), &mut events);
    assert_eq!(t, before);
}

#[test]
fn orbit_tick_without_events_keeps_a_pose_on_an_axis() {
    let c = OrbitCameraController::default();
    let before = LookTransform::new(Vec3::new(0, 0, 5 * ONE), Vec3::zero());
    let mut t = before;
    let mut events: Vec<OrbitControlEvent> = Vec::new();
    control_orbit_camera(&c, &mut t, Quat::identity(), &mut events);
    assert_eq!(t, before);
    let before = LookTransform::new(Vec3::new(3 * ONE, 4 * ONE, 0), Vec3::zero());
    let mut t = before;
    control_orbit_camera(&c, &mut t, Quat::identity(), &mut events);
    assert_eq!(t, before);
}

#[test]
fn orbit_radius_preserved_under_pure_pan() {
    let c = OrbitCameraController::default();
    let before = LookTransform::new(Vec3::new(0, 0, 5 * ONE), Vec3::zero());
    let mut t = before;
    let mut events = vec![OrbitControlEvent::TranslateTarget(Vec2::new(ONE, 2 * ONE))];
    control_orbit_camera(&c, &mut t, Quat::identity(), &mut events);
    assert_eq!(t.target, Vec3 { x: -ONE, y: 2 * ONE, z: 0 });
    assert_eq!(t.eye, Vec3 { x: -ONE, y: 2 * ONE, z: 5 * ONE });
    assert_eq!(t.radius(), before.radius());
    assert!(events.is_empty());
}

#[test]
fn orbit_radius_preserved_under_pan_with_neutral_zoom() {
    let c = OrbitCameraController::default();
    let before = LookTransform::new(Vec3::new(0, 0, 5 * ONE), Vec3::zero());
    let mut t = before;
    let mut events = vec![
        OrbitControlEvent::TranslateTarget(Vec2::new(ONE, 2 * ONE)),
        OrbitControlEvent::Zoom(ONE),
    ];
    control_orbit_camera(&c, &mut t, Quat::identity(), &mut events);
    assert_eq!(t.eye, Vec3 { x: -ONE, y: 2 * ONE, z: 5 * ONE });
    assert_eq!(t.radius(), before.radius());
}

#[test]
fn orbit_pan_keeps_the_radius_of_the_tick_without_pan() {
    let c = OrbitCameraController::default();
    let before = LookTransform::new(
        Vec3::new(1_234_567, -2_345_678, 3_456_789),
        Vec3::new(-987_654, 876_543, -765_432),
    );
    let mut still = before;
    let mut none: Vec<OrbitControlEvent> = Vec::new();
    control_orbit_camera(&c, &mut still, Quat::identity(), &mut none);
    let mut panned = before;
    let mut events = vec![
        OrbitControlEvent::TranslateTarget(Vec2::new(3 * ONE, -7 * ONE)),
        OrbitControlEvent::TranslateTarget(Vec2::new(-ONE, 123)),
    ];
    control_orbit_camera(&c, &mut panned, Quat::identity(), &mut events);
    assert_eq!(still, before);
    assert_eq!(panned.radius(), before.radius());
    assert_eq!(panned.eye.minus(panned.target), before.eye.minus(before.target));
    assert_eq!(panned.target, Vec3 { x: -987_654 - 2 * ONE, y: 876_543 - 7 * ONE + 123, z: -765_432 });
}

#[test]
fn orbit_pan_follows_the_rotation_of_the_camera() {
    let c = OrbitCameraController::default();
    let mut t = LookTransform::new(Vec3::new(0, 0, 5 * ONE), Vec3::zero());
    let quarter_turn = Quat { x: 0, y: 707_107, z: 0, w: 707_107 };
    let mut events = vec![OrbitControlEvent::TranslateTarget(Vec2::new(ONE, 2 * ONE))];
    control_orbit_camera(&c, &mut t, quarter_turn, &mut events);
    assert_eq!(t.target, Vec3 { x: 0, y: 2 * ONE, z: ONE });
    assert_eq!(t.eye, Vec3 { x: 0, y: 2 * ONE, z: 6 * ONE });
}

#[test]
fn orbit_zoom_scales_the_distance() {
    let c = OrbitCameraController::default();
    let mut t = LookTransform::new(Vec3::new(0, 0, 5 * ONE), Vec3::zero());
    let mut events = vec![OrbitControlEvent::Zoom(500_000)];
    control_orbit_camera(&c, &mut t, Quat::identity(), &mut events);
    assert_eq!(t.eye, Vec3 { x: 0, y: 0, z: 2_500_000 });
    assert_eq!(t.target, Vec3::zero());
    let mut events = vec![OrbitControlEvent::Zoom(2 * ONE), OrbitControlEvent::Zoom(2 * ONE)];
    control_orbit_camera(&c, &mut t, Quat::identity(), &mut events);
    assert_eq!(t.eye, Vec3 { x: 0, y: 0, z: 10 * ONE });
}

#[test]
fn orbit_zoom_to_nothing_stops_at_the_radius_floor() {
    let c = OrbitCameraController::default();
    let mut t = LookTransform::new(Vec3::new(0, 0, 5 * ONE), Vec3::zero());
    let mut events = vec![OrbitControlEvent::Zoom(0)];
    control_orbit_camera(&c, &mut t, Quat::identity(), &mut events);
    assert_eq!(t.eye, Vec3 { x: 0, y: 0, z: MIN_RADIUS });
    assert_eq!(t.radius(), MIN_RADIUS);
    let mut t = LookTransform::new(Vec3::new(0, 0, 5 * ONE), Vec3::zero());
    let mut events = vec![OrbitControlEvent::Zoom(-3 * ONE)];
    control_orbit_camera(&c, &mut t, Quat::identity(), &mut events);
    assert_eq!(t.eye, Vec3 { x: 0, y: 0, z: MIN_RADIUS });
}

#[test]
fn orbit_swings_the_eye_around_the_target() {
    let c = OrbitCameraController::default();
    let mut t = LookTransform::new(Vec3::new(0, 0, 5 * ONE), Vec3::zero());
    let mut events = vec![OrbitControlEvent::Orbit(Vec2::new(100_000, 200_000))];
    control_orbit_camera(&c, &mut t, Quat::identity(), &mut events);
    assert_eq!(t.target, Vec3::zero());
    assert_eq!(t.eye, Vec3 { x: -489_215, y: 993_344, z: 4_875_850 });
    assert!((t.radius() - 5 * ONE).abs() <= 10);
    let x = -5.0 * f64::sin(0.1) * f64::cos(0.2);
    let y = 5.0 * f64::sin(0.2);
    let z = 5.0 * f64::cos(0.1) * f64::cos(0.2);
    assert!((t.eye.x as f64 / 1e6 - x).abs() <= 3e-5);
    assert!((t.eye.y as f64 / 1e6 - y).abs() <= 3e-5);
    assert!((t.eye.z as f64 / 1e6 - z).abs() <= 3e-5);
}

#[test]
fn orbit_pitch_is_clamped_at_the_pole() {
    let c = OrbitCameraController::default();
    let mut t = LookTransform::new(Vec3::new(0, 0, 5 * ONE), Vec3::zero());
    let mut events = vec![OrbitControlEvent::Orbit(Vec2::new(0, 9 * ONE))];
    control_orbit_camera(&c, &mut t, Quat::identity(), &mut events);
    assert_eq!(t.eye, Vec3 { x: 0, y: 4_999_750, z: 50_000 });
    assert!(t.eye.z > 0);
}

#[test]
fn orbit_rotates_before_it_places_the_eye_at_the_new_distance() {
    let c = OrbitCameraController::default();
    let mut a = LookTransform::new(Vec3::new(0, 0, 5 * ONE), Vec3::zero());
    let mut events = vec![
        OrbitControlEvent::Zoom(500_000),
        OrbitControlEvent::Orbit(Vec2::new(-1_570_796, 0)),
    ];
    control_orbit_camera(&c, &mut a, Quat::identity(), &mut events);
    assert_eq!(a.eye, Vec3 { x: 2_500_000, y: 0, z: 0 });
}

#[test]
fn orbit_pan_of_a_short_arm_keeps_the_radius_exactly() {
    let c = OrbitCameraController::default();
    let before = LookTransform::new(Vec3::new(30_000, 40_000, 10_000), Vec3::zero());
    let mut t = before;
    let mut k = 0;
    while k < 100 {
        let mut events = vec![
            OrbitControlEvent::Orbit(Vec2::zero()),
            OrbitControlEvent::TranslateTarget(Vec2::new(ONE, 0)),
            OrbitControlEvent::Zoom(ONE),
        ];
        control_orbit_camera(&c, &mut t, Quat::identity(), &mut events);
        k += 1;
    }
    assert_eq!(t.radius(), before.radius());
    assert_eq!(t.radius(), 50_990);
    assert_eq!(t.target, Vec3 { x: -100 * ONE, y: 0, z: 0 });
    assert_eq!(t.eye, Vec3 { x: -100 * ONE + 30_000, y: 40_000, z: 10_000 });
}

#[test]
fn orbit_idle_tick_leaves_the_pose_exactly() {
    let c = OrbitCameraController::default();
    let before = LookTransform::new(
        Vec3::new(1_234_567, -2_345_678, 3_456_789),
        Vec3::new(-987_654, 876_543, -765_432),
    );
    let mut t = before;
    let motion: Vec<Vec2> = Vec::new();
    let wheel: Vec<i64> = Vec::new();
    let mut k = 0;
    while k < 100 {
        let mut events = map_orbit_input(Some(&c), false, &motion, &wheel);
        control_orbit_camera(&c, &mut t, Quat::identity(), &mut events);
        k += 1;
    }
    assert_eq!(t, before);
}

#[test]
fn orbit_distance_does_not_drift_while_the_eye_swings() {
    let c = OrbitCameraController::default();
    let mut t = LookTransform::new(
        Vec3::new(1_234_567, -2_345_678, 3_456_789),
        Vec3::new(-987_654, 876_543, -765_432),
    );
    let before = t.radius();
    let mut k = 0;
    while k < 20_000 {
        let up = if k % 3 == 0 { 29 } else { -13 };
        let mut events = vec![
            OrbitControlEvent::Orbit(Vec2::new(777, up)),
            OrbitControlEvent::TranslateTarget(Vec2::new(100, 50)),
        ];
        control_orbit_camera(&c, &mut t, Quat::identity(), &mut events);
        k += 1;
    }
    assert!((t.radius() - before).abs() <= 1_000);
}

#[test]
fn orbit_every_tick_puts_the_eye_at_the_asked_distance() {
    let c = OrbitCameraController::default();
    let mut t = LookTransform::new(Vec3::new(ONE, 2 * ONE, 3 * ONE), Vec3::new(-4 * ONE, 7 * ONE, 9 * ONE));
    let mut k: i64 = 0;
    while k < 500 {
        let before = t.radius();
        let scalar = 900_000 + 400 * k;
        let mut events = vec![
            OrbitControlEvent::Orbit(Vec2::new(12_345 - 100 * k, 777 * (k % 7 - 3))),
            OrbitControlEvent::TranslateTarget(Vec2::new(k, -k)),
            OrbitControlEvent::Zoom(scalar),
        ];
        control_orbit_camera(&c, &mut t, Quat::identity(), &mut events);
        let reach = fx_mul(scalar, before).max(MIN_RADIUS);
        assert!((t.radius() - reach).abs() <= reach / 160_000 + 24);
        assert!((t.radius() - reach).abs() <= reach / 1_000_000 + 3);
        k += 1;
    }
}
