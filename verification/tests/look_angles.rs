use camera_rig::angle::{HALF_PI, PI};
use camera_rig::look_angles::{LookAngles, MAX_PITCH, MIN_PITCH, PITCH_LIMIT, POLE_MARGIN};
use camera_rig::scalar::ONE;
use camera_rig::vector::Vec3;

#[test]
fn the_guard_is_a_quarter_turn_less_the_margin() {
    assert_eq!(PITCH_LIMIT, HALF_PI - POLE_MARGIN);
    assert_eq!(MAX_PITCH, PITCH_LIMIT - 1);
    assert_eq!(MIN_PITCH, -MAX_PITCH);
}

#[test]
fn angles_of_the_axes() {
    assert_eq!(LookAngles::from_vector(Vec3::new(0, 0, -ONE)), LookAngles { yaw: 0, pitch: 0 });
    assert_eq!(LookAngles::from_vector(Vec3::new(0, 0, ONE)), LookAngles { yaw: PI, pitch: 0 });
    assert_eq!(LookAngles::from_vector(Vec3::new(ONE, 0, 0)), LookAngles { yaw: -HALF_PI, pitch: 0 });
    assert_eq!(LookAngles::from_vector(Vec3::new(-ONE, 0, 0)), LookAngles { yaw: HALF_PI, pitch: 0 });
}

#[test]
fn a_vertical_direction_is_clamped_not_refused() {
    assert_eq!(LookAngles::from_vector(Vec3::new(0, ONE, 0)), LookAngles { yaw: 0, pitch: MAX_PITCH });
    assert_eq!(LookAngles::from_vector(Vec3::new(0, -ONE, 0)), LookAngles { yaw: 0, pitch: MIN_PITCH });
    assert_eq!(LookAngles::from_vector(Vec3::zero()), LookAngles { yaw: 0, pitch: 0 });
}

#[test]
fn directions_of_some_angles() {
    assert_eq!((LookAngles { yaw: 0, pitch: 0 }).unit_vector(), Vec3 { x: 0, y: 0, z: -ONE });
    assert_eq!((LookAngles { yaw: HALF_PI, pitch: 0 }).unit_vector(), Vec3 { x: -ONE, y: 0, z: 0 });
    assert_eq!((LookAngles { yaw: PI, pitch: 0 }).unit_vector(), Vec3 { x: 0, y: 0, z: ONE });
    assert_eq!((LookAngles { yaw: -100_000, pitch: 0 }).unit_vector(), Vec3 { x: 99_833, y: 0, z: -995_005 });
    assert_eq!((LookAngles { yaw: 0, pitch: 500_000 }).unit_vector(), Vec3 { x: 0, y: 479_426, z: -877_582 });
    assert_eq!((LookAngles { yaw: 0, pitch: MAX_PITCH }).unit_vector(), Vec3 { x: 0, y: 999_951, z: -10_000 });
}

#[test]
fn round_trip_from_direction_to_angles_and_back() {
    let mut yaw = -3.1;
    while yaw < 3.14 {
        let mut pitch = -1.5;
        while pitch < 1.51 {
            let v = Vec3::new(
                (-f64::sin(yaw) * f64::cos(pitch) * 1e6).round() as i64,
                (f64::sin(pitch) * 1e6).round() as i64,
                (-f64::cos(yaw) * f64::cos(pitch) * 1e6).round() as i64,
            );
            let back = LookAngles::from_vector(v).unit_vector();
            assert!((back.x - v.x).abs() <= 10, "x at yaw {} pitch {}", yaw, pitch);
            assert!((back.y - v.y).abs() <= 10, "y at yaw {} pitch {}", yaw, pitch);
            assert!((back.z - v.z).abs() <= 10, "z at yaw {} pitch {}", yaw, pitch);
            pitch += 0.05;
        }
        yaw += 0.05;
    }
}

#[test]
fn round_trip_from_angles_to_direction_and_back() {
    let mut yaw: i64 = -3_100_000;
    while yaw < 3_140_000 {
        let mut pitch: i64 = -1_500_000;
        while pitch < 1_510_000 {
            let back = LookAngles::from_vector((LookAngles { yaw, pitch }).unit_vector());
            assert!((back.yaw - yaw).abs() <= 200, "yaw at {} {}", yaw, pitch);
            assert!((back.pitch - pitch).abs() <= 200, "pitch at {} {}", yaw, pitch);
            pitch += 100_000;
        }
        yaw += 100_000;
    }
}

#[test]
fn yaw_and_pitch_are_added_without_limit() {
    let mut a = LookAngles { yaw: 100, pitch: 200 };
    a.add_yaw(-300);
    a.add_pitch(5_000_000);
    assert_eq!(a, LookAngles { yaw: -200, pitch: 5_000_200 });
    assert_eq!(a.get_yaw(), -200);
    assert_eq!(a.get_pitch(), 5_000_200);
    a.add_yaw(10 * PI);
    assert_eq!(a.get_yaw(), 10 * PI - 200);
}

#[test]
fn pole_guard_holds_under_any_push_toward_the_poles() {
    let pushes = [1, 1_000, POLE_MARGIN, HALF_PI, 10 * HALF_PI, i64::MAX];
    for start in [0, MAX_PITCH, MIN_PITCH, 700_000] {
        for push in pushes {
            for sign in [1, -1] {
                let mut a = LookAngles { yaw: 123_456, pitch: start };
                let mut k = 0;
                while k < 5 {
                    a.add_pitch(if sign > 0 { push } else { -push });
                    k += 1;
                }
                a.clamp_pitch();
                assert!(-PITCH_LIMIT < a.pitch && a.pitch < PITCH_LIMIT);
                assert_eq!(a.yaw, 123_456);
                let v = a.unit_vector();
                assert!(v.x.abs() <= ONE && v.y.abs() <= ONE && v.z.abs() <= ONE);
                assert!(v.x != 0 || v.z != 0);
            }
        }
    }
}

#[test]
fn clamping_goes_to_the_nearest_admitted_pitch() {
    let mut a = LookAngles { yaw: 0, pitch: HALF_PI };
    a.clamp_pitch();
    assert_eq!(a.pitch, MAX_PITCH);
    let mut a = LookAngles { yaw: 0, pitch: -HALF_PI };
    a.clamp_pitch();
    assert_eq!(a.pitch, MIN_PITCH);
    let mut a = LookAngles { yaw: 0, pitch: 1_000_000 };
    a.clamp_pitch();
    assert_eq!(a.pitch, 1_000_000);
}

#[test]
fn directions_have_unit_length_within_tolerance() {
    let mut yaw: i64 = -3_000_000;
    while yaw < 3_100_000 {
        let mut pitch: i64 = MIN_PITCH;
        while pitch <= MAX_PITCH {
            let v = (LookAngles { yaw, pitch }).unit_vector();
            let length = v.length();
            assert!((length - ONE).abs() <= 10, "length {} at {} {}", length, yaw, pitch);
            pitch += 97_531;
        }
        yaw += 250_000;
    }
}

#[test]
fn round_trip_up_to_the_pole_guard() {
    let mut k = 0;
    while k <= 400 {
        let pitch = (MAX_PITCH as f64 / 1e6) * (1.0 - (k as f64) * 0.0001);
        let mut yaw = -3.14;
        while yaw < 3.14 {
            for sign in [1.0, -1.0] {
                let p = sign * pitch;
                let v = Vec3::new(
                    (-f64::sin(yaw) * f64::cos(p) * 1e6).round() as i64,
                    (f64::sin(p) * 1e6).round() as i64,
                    (-f64::cos(yaw) * f64::cos(p) * 1e6).round() as i64,
                );
                assert!(LookAngles::is_inside_guard(v) || k == 0, "guard at yaw {} pitch {}", yaw, p);
                let back = LookAngles::from_vector(v).unit_vector();
                assert!((back.x - v.x).abs() <= 10, "x at yaw {} pitch {}", yaw, p);
                assert!((back.y - v.y).abs() <= 10, "y at yaw {} pitch {}", yaw, p);
                assert!((back.z - v.z).abs() <= 10, "z at yaw {} pitch {}", yaw, p);
            }
            yaw += 0.0937;
        }
        k += 1;
    }
}

#[test]
fn round_trip_keeps_the_side_of_every_component() {
    let parts = [-ONE, -600_000, -1, 0, 1, 600_000, ONE];
    for x in parts {
        for y in parts {
            for z in parts {
                let back = LookAngles::from_vector(Vec3::new(x, y, z)).unit_vector();
                assert!(y < 0 || back.y >= 0);
                assert!(y > 0 || back.y <= 0);
                if x != 0 || z != 0 {
                    assert!(x < 0 || back.x >= 0);
                    assert!(x > 0 || back.x <= 0);
                    assert!(z < 0 || back.z >= 0);
                    assert!(z > 0 || back.z <= 0);
                }
            }
        }
    }
}

#[test]
fn the_pitch_is_taken_from_both_parts_of_the_direction() {
    assert_eq!(LookAngles::raw_pitch(Vec3::new(0, 0, -ONE)), 0);
    assert_eq!(LookAngles::raw_pitch(Vec3::new(0, ONE, 0)), HALF_PI);
    assert_eq!(LookAngles::raw_pitch(Vec3::new(0, -ONE, 0)), -HALF_PI);
    assert_eq!(LookAngles::raw_pitch(Vec3::zero()), 0);
    assert_eq!(LookAngles::raw_pitch(Vec3::new(600_000, 800_000, 0)), 927_295);
    assert_eq!(LookAngles::raw_pitch(Vec3::new(10_000, 999_950, 0)), 1_560_797);
    assert!(LookAngles::is_inside_guard(Vec3::new(0, 0, -ONE)));
    assert!(LookAngles::is_inside_guard(Vec3::new(600_000, 800_000, 0)));
    assert!(!LookAngles::is_inside_guard(Vec3::new(0, ONE, 0)));
    assert!(!LookAngles::is_inside_guard(Vec3::new(10_000, 999_950, 0)));
}
