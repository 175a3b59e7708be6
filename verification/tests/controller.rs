use camera_controller::controller::{
    aim, aim_closely, rotation, CameraConfig, CameraController, Transform,
};
use camera_controller::fixed::ONE;
use camera_controller::model::{
    InputSnapshot, Mode, AXIS_TOLERANCE, DISTANCE_FLOOR, DISTANCE_LIMIT, DT_LIMIT, FRICTION_LIMIT,
    PITCH_LIMIT, PITCH_MARGIN, SENSITIVITY_LIMIT, SPEED_LIMIT, VIEW_TOLERANCE, WORLD_LIMIT,
    ZOOM_LIMIT,
};
use camera_controller::trig::{HALF_PI, PI};
use camera_controller::vector::{Vec2, Vec3};

fn idle() -> InputSnapshot {
    InputSnapshot::default()
}

fn moving(x: i64, y: i64, z: i64) -> InputSnapshot {
    InputSnapshot { movement_axes: Vec3::new(x, y, z), ..idle() }
}

fn mouse(x: i64, y: i64) -> InputSnapshot {
    InputSnapshot { mouse_delta: Vec2 { x, y }, ..idle() }
}

fn scroll(steps: i64) -> InputSnapshot {
    InputSnapshot { scroll_delta: steps, ..idle() }
}

fn mode_key() -> InputSnapshot {
    InputSnapshot { mode_toggle_pressed: true, ..idle() }
}

fn squared_distance(a: Vec3, b: Vec3) -> i128 {
    let dx = (a.x - b.x) as i128;
    let dy = (a.y - b.y) as i128;
    let dz = (a.z - b.z) as i128;
    dx * dx + dy * dy + dz * dz
}

const FRAME: i64 = 16_667;

#[test]
fn default_snapshot_is_idle() {
    assert_eq!(
        InputSnapshot::default(),
        InputSnapshot {
            movement_axes: Vec3::zero(),
            mouse_delta: Vec2 { x: 0, y: 0 },
            scroll_delta: 0,
            toggle_cursor_pressed: false,
            run_modifier_held: false,
            mode_toggle_pressed: false,
        }
    );
}

#[test]
fn default_configuration() {
    let c = CameraConfig::default();
    assert!(!c.orbit_mode);
    assert_eq!(c.orbit_focus, Vec3::zero());
    assert_eq!(c.orbit_distance, 10 * ONE);
    assert_eq!(c.min_orbit_distance, ONE / 2);
    assert_eq!(c.max_orbit_distance, 100 * ONE);
    assert_eq!(c.position, Vec3::zero());
    assert_eq!(c.yaw, 0);
    assert_eq!(c.pitch, 0);
    assert_eq!(c.walk_speed, 5 * ONE);
    assert_eq!(c.run_speed, 15 * ONE);
    assert_eq!(c.sensitivity, 2_000);
    assert_eq!(c.zoom_sensitivity, ONE);
    assert_eq!(c.friction, 5 * ONE);
    assert!(c.enabled);
    assert!(!c.cursor_locked);
}

#[test]
fn limits_fit_together() {
    assert_eq!(PITCH_LIMIT, HALF_PI - PITCH_MARGIN);
    assert_eq!(PITCH_MARGIN, 17_453);
    assert!(0 < DISTANCE_FLOOR && DISTANCE_FLOOR < DISTANCE_LIMIT);
    assert!(DISTANCE_LIMIT < WORLD_LIMIT);
    assert!(SPEED_LIMIT > 0 && FRICTION_LIMIT > 0 && SENSITIVITY_LIMIT > 0 && ZOOM_LIMIT > 0);
    assert!(DT_LIMIT >= ONE);
}

#[test]
fn new_free_fly_camera_starts_where_it_is_told() {
    let c = CameraController::new(&CameraConfig {
        position: Vec3::new(ONE, 2 * ONE, -3 * ONE),
        yaw: 250_000,
        pitch: -125_000,
        ..CameraConfig::default()
    });
    assert_eq!(c.mode(), Mode::FreeFly);
    assert!(!c.orbit_mode());
    assert_eq!(c.position(), Vec3::new(ONE, 2 * ONE, -3 * ONE));
    assert_eq!(c.yaw(), 250_000);
    assert_eq!(c.pitch(), -125_000);
    assert_eq!(c.velocity(), Vec3::zero());
    assert_eq!(c.orbit_distance(), 10 * ONE);
    assert!(c.enabled());
    assert!(!c.cursor_locked());
}

#[test]
fn new_brings_every_number_into_range() {
    let c = CameraController::new(&CameraConfig {
        position: Vec3::new(i64::MAX, i64::MIN, 7),
        orbit_focus: Vec3::new(i64::MIN, 0, i64::MAX),
        yaw: PI + 10,
        pitch: i64::MAX,
        orbit_distance: -5,
        min_orbit_distance: i64::MIN,
        max_orbit_distance: i64::MAX,
        walk_speed: -1,
        run_speed: i64::MAX,
        ..CameraConfig::default()
    });
    assert_eq!(c.position(), Vec3::new(WORLD_LIMIT, -WORLD_LIMIT, 7));
    assert_eq!(c.orbit_focus(), Vec3::new(-WORLD_LIMIT, 0, WORLD_LIMIT));
    assert_eq!(c.yaw(), -PI + 10);
    assert_eq!(c.pitch(), PITCH_LIMIT);
    assert_eq!(c.orbit_distance(), DISTANCE_FLOOR);
}

#[test]
fn new_clamps_the_speeds() {
    let mut c = CameraController::new(&CameraConfig {
        walk_speed: -1,
        run_speed: i64::MAX,
        friction: -7,
        ..CameraConfig::default()
    });
    c.update(&moving(0, 0, ONE), ONE);
    assert_eq!(c.velocity(), Vec3::zero());
    assert_eq!(c.position(), Vec3::zero());
    c.update(&InputSnapshot { run_modifier_held: true, ..moving(0, 0, ONE) }, ONE);
    assert_eq!(c.velocity(), Vec3::new(0, 0, SPEED_LIMIT));
    assert_eq!(c.position(), Vec3::new(0, 0, SPEED_LIMIT));
    c.update(&idle(), ONE);
    assert_eq!(c.velocity(), Vec3::new(0, 0, SPEED_LIMIT));
}

#[test]
fn new_orbiting_camera_starts_on_its_sphere() {
    let c = CameraController::new(&CameraConfig {
        orbit_mode: true,
        orbit_focus: Vec3::new(0, 500_000, 0),
        yaw: -2_356_194,
        pitch: -400_000,
        orbit_distance: 12 * ONE,
        position: Vec3::new(99, 99, 99),
        ..CameraConfig::default()
    });
    assert_eq!(c.mode(), Mode::Orbit);
    assert!(c.orbit_mode());
    assert_eq!(c.orbit_focus(), Vec3::new(0, 500_000, 0));
    assert_eq!(c.position(), Vec3::new(7_815_456, 5_173_016, 7_815_444));
}

#[test]
fn orbiting_configuration_looks_from_the_eye_at_the_focus() {
    let eye = Vec3::new(8 * ONE, 5 * ONE, 8 * ONE);
    let focus = Vec3::new(0, 500_000, 0);
    let config = CameraConfig::orbiting(eye, focus);
    assert_eq!(
        config,
        CameraConfig {
            orbit_mode: true,
            orbit_focus: focus,
            orbit_distance: 12_175_795,
            position: eye,
            yaw: -2_356_196,
            pitch: -378_564,
            ..CameraConfig::default()
        }
    );
    let c = CameraController::new(&config);
    assert!(c.orbit_mode());
    assert_eq!(c.orbit_focus(), focus);
    assert_eq!(c.orbit_distance(), 12_175_795);
    assert_eq!(c.position(), Vec3::new(7_999_972, 5_000_003, 7_999_996));
    let t = c.transform();
    assert_eq!(t.rotation.forward, Vec3::new(-657_039, -369_586, -657_041));
    assert_eq!(t.rotation.up, Vec3::new(-261_336, 929_196, -261_337));
    assert_eq!(t.rotation.right, Vec3::new(707_108, 0, -707_105));
}

#[test]
fn orbiting_configuration_with_eye_on_the_focus() {
    let p = Vec3::new(ONE, ONE, ONE);
    let config = CameraConfig::orbiting(p, p);
    assert_eq!(config.yaw, 0);
    assert_eq!(config.pitch, 0);
    assert_eq!(config.orbit_distance, 0);
    let c = CameraController::new(&config);
    assert_eq!(c.orbit_distance(), ONE / 2);
    assert_eq!(c.position(), Vec3::new(ONE, ONE, ONE / 2));
}

#[test]
fn orbiting_configuration_takes_every_i64() {
    let config = CameraConfig::orbiting(
        Vec3::new(i64::MIN, i64::MIN, i64::MIN),
        Vec3::new(i64::MAX, i64::MAX, i64::MAX),
    );
    assert_eq!(config.orbit_distance, 3_498_742_631_289);
    assert_eq!(config.yaw, 785_396);
    let c = CameraController::new(&config);
    assert_eq!(c.orbit_distance(), 100 * ONE);
    assert_eq!(c.orbit_focus(), Vec3::new(WORLD_LIMIT, WORLD_LIMIT, WORLD_LIMIT));
}

#[test]
fn try_new_refuses_ends_in_the_wrong_order() {
    let wrong = CameraConfig {
        min_orbit_distance: 5 * ONE,
        max_orbit_distance: 4 * ONE,
        ..CameraConfig::default()
    };
    assert!(CameraController::try_new(&wrong).is_none());
    let equal = CameraConfig {
        min_orbit_distance: 5 * ONE,
        max_orbit_distance: 5 * ONE,
        ..CameraConfig::default()
    };
    let c = CameraController::try_new(&equal).expect("equal ends are in order");
    assert_eq!(c.orbit_distance(), 5 * ONE);
    assert_eq!(CameraController::try_new(&CameraConfig::default()), Some(CameraController::new(&CameraConfig::default())));
}

#[test]
fn rotation_at_rest_looks_down_the_z_axis() {
    let r = rotation(0, 0);
    assert_eq!(r.forward, Vec3::new(0, 0, ONE));
    assert_eq!(r.up, Vec3::new(0, ONE, 0));
    assert_eq!(r.right, Vec3::new(-ONE, 0, 0));
}

#[test]
fn rotation_after_a_quarter_turn() {
    let r = rotation(HALF_PI, 0);
    assert_eq!(r.forward, Vec3::new(ONE, 0, 0));
    assert_eq!(r.up, Vec3::new(0, ONE, 0));
    assert_eq!(r.right, Vec3::new(0, 0, ONE));
}

#[test]
fn rotation_axes_are_at_right_angles() {
    for (yaw, pitch) in [(0, 0), (500_000, -300_000), (-2_000_000, 1_000_000), (3_000_000, PITCH_LIMIT)] {
        let r = rotation(yaw, pitch);
        let dot = |a: Vec3, b: Vec3| (a.x * b.x + a.y * b.y + a.z * b.z) / ONE;
        assert!(dot(r.forward, r.right).abs() <= 5);
        assert!(dot(r.forward, r.up).abs() <= 5);
        assert!(dot(r.right, r.up).abs() <= 5);
        assert!((dot(r.forward, r.forward) - ONE).abs() <= 10);
        assert!((dot(r.right, r.right) - ONE).abs() <= 10);
        assert!((dot(r.up, r.up) - ONE).abs() <= 10);
    }
}

#[test]
fn aim_gives_the_angles_of_a_direction() {
    assert_eq!(aim(Vec3::zero(), Vec3::new(0, 0, 5)), Some((0, 0)));
    assert_eq!(aim(Vec3::zero(), Vec3::new(5, 0, 0)), Some((HALF_PI, 0)));
    assert_eq!(aim(Vec3::zero(), Vec3::new(0, 0, -5)), Some((-PI, 0)));
    assert_eq!(aim(Vec3::zero(), Vec3::new(0, 5, 0)), Some((0, PITCH_LIMIT)));
    assert_eq!(aim(Vec3::zero(), Vec3::new(0, -5, 0)), Some((0, -PITCH_LIMIT)));
    assert_eq!(
        aim(Vec3::new(8 * ONE, 5 * ONE, 8 * ONE), Vec3::new(0, 500_000, 0)),
        Some((-2_356_196, -378_564))
    );
}

#[test]
fn aim_closely_finds_angles_for_every_direction_below_the_pitch_limit() {
    let from = Vec3::new(3 * ONE, -2 * ONE, 7 * ONE);
    let mut yaw = -PI;
    while yaw < PI {
        let mut pitch = -PITCH_LIMIT + 2_000;
        while pitch < PITCH_LIMIT - 2_000 {
            let f = rotation(yaw, pitch).forward;
            let to = Vec3::new(from.x + 9 * f.x, from.y + 9 * f.y, from.z + 9 * f.z);
            let (y, p) = aim_closely(from, to).expect("angles within the tolerance");
            assert_eq!(Some((y, p)), aim(from, to));
            let g = rotation(y, p).forward;
            let dir = Vec3::new(to.x - from.x, to.y - from.y, to.z - from.z).normalized();
            assert!((g.x - dir.x).abs() <= VIEW_TOLERANCE);
            assert!((g.y - dir.y).abs() <= VIEW_TOLERANCE);
            assert!((g.z - dir.z).abs() <= VIEW_TOLERANCE);
            pitch += 61_001;
        }
        yaw += 37_003;
    }
}

#[test]
fn aim_closely_gives_nothing_straight_up() {
    assert_eq!(aim_closely(Vec3::zero(), Vec3::new(0, 5, 0)), None);
    assert_eq!(aim_closely(Vec3::zero(), Vec3::new(0, 0, 0)), None);
    assert_eq!(aim_closely(Vec3::zero(), Vec3::new(0, 0, 5)), Some((0, 0)));
}

#[test]
fn leaving_orbit_under_a_focus_straight_above_keeps_the_angles() {
    let mut c = CameraController::new(&CameraConfig {
        orbit_mode: true,
        yaw: 300_000,
        pitch: 200_000,
        ..CameraConfig::default()
    });
    let at = c.position();
    c.set_orbit_focus(Vec3::new(at.x, at.y + 5 * ONE, at.z));
    c.switch_mode();
    assert_eq!(c.mode(), Mode::FreeFly);
    assert_eq!(c.yaw(), 300_000);
    assert_eq!(c.pitch(), 200_000);
    assert_eq!(c.position(), at);
}

#[test]
fn view_direction_has_the_length_one() {
    let one = (ONE as i128) * (ONE as i128);
    let mut yaw = -PI;
    while yaw < PI {
        let mut pitch = -PITCH_LIMIT;
        while pitch <= PITCH_LIMIT {
            let f = rotation(yaw, pitch).forward;
            let n = squared_distance(f, Vec3::zero());
            assert!(n <= one);
            assert!(n >= one - AXIS_TOLERANCE as i128);
            pitch += 50_021;
        }
        yaw += 40_009;
    }
}

#[test]
fn aim_at_the_same_point_gives_nothing() {
    assert_eq!(aim(Vec3::new(3, 4, 5), Vec3::new(3, 4, 5)), None);
    assert_eq!(aim(Vec3::new(i64::MAX, 0, 0), Vec3::new(i64::MAX - 1, 0, 0)), None);
}

#[test]
fn transform_follows_the_state() {
    let c = CameraController::new(&CameraConfig {
        position: Vec3::new(1, 2, 3),
        yaw: 500_000,
        pitch: -300_000,
        ..CameraConfig::default()
    });
    let t = c.transform();
    assert_eq!(t, Transform { position: Vec3::new(1, 2, 3), rotation: rotation(500_000, -300_000) });
}

#[test]
fn free_fly_forward_walk() {
    let mut c = CameraController::new(&CameraConfig {
        orbit_mode: false,
        position: Vec3::zero(),
        yaw: 0,
        pitch: 0,
        walk_speed: 5 * ONE,
        friction: 0,
        ..CameraConfig::default()
    });
    let input = moving(0, 0, ONE);
    let mut t = c.transform();
    for _ in 0..3 {
        t = c.update(&input, ONE);
    }
    assert_eq!(c.position(), Vec3::new(0, 0, 15 * ONE));
    assert_eq!(t.position, Vec3::new(0, 0, 15 * ONE));
    assert_eq!(c.velocity(), Vec3::new(0, 0, 5 * ONE));
    assert_eq!(t.rotation.forward, Vec3::new(0, 0, ONE));
}

#[test]
fn orbit_zoom_by_five_steps() {
    let config = CameraConfig {
        orbit_mode: true,
        orbit_focus: Vec3::zero(),
        orbit_distance: 10 * ONE,
        min_orbit_distance: 2 * ONE,
        max_orbit_distance: 20 * ONE,
        zoom_sensitivity: ONE,
        ..CameraConfig::default()
    };
    let mut nearer = CameraController::new(&config);
    for _ in 0..5 {
        nearer.update(&scroll(ONE), FRAME);
    }
    assert_eq!(nearer.orbit_distance(), 5 * ONE);
    assert_eq!(nearer.position(), Vec3::new(0, 0, -5 * ONE));
    assert_eq!(squared_distance(nearer.position(), Vec3::zero()), 25 * (ONE as i128) * (ONE as i128));

    let mut farther = CameraController::new(&config);
    for _ in 0..5 {
        farther.update(&scroll(-ONE), FRAME);
    }
    assert_eq!(farther.orbit_distance(), 15 * ONE);
    assert_eq!(farther.position(), Vec3::new(0, 0, -15 * ONE));
}

#[test]
fn orbit_position_lies_on_the_sphere() {
    let mut c = CameraController::new(&CameraConfig {
        orbit_mode: true,
        orbit_focus: Vec3::new(ONE, -2 * ONE, 3 * ONE),
        orbit_distance: 10 * ONE,
        min_orbit_distance: 2 * ONE,
        max_orbit_distance: 20 * ONE,
        cursor_locked: true,
        ..CameraConfig::default()
    });
    for i in 0..40 {
        c.update(&InputSnapshot { scroll_delta: ONE / 8, ..mouse(37 * ONE, (i - 20) * 3 * ONE) }, FRAME);
        let d = c.orbit_distance() as i128;
        let got = squared_distance(c.position(), c.orbit_focus());
        let one = (ONE as i128) * (ONE as i128);
        let slack = AXIS_TOLERANCE as i128 * d * d / one + 6 * d + 4;
        assert!(got <= d * d, "tick {i}");
        assert!(got >= d * d - slack, "tick {i}");
    }
    assert_eq!(c.orbit_distance(), 5 * ONE);
}

#[test]
fn orbit_distance_stops_at_its_ends() {
    let mut c = CameraController::new(&CameraConfig {
        orbit_mode: true,
        orbit_distance: 10 * ONE,
        min_orbit_distance: 2 * ONE,
        max_orbit_distance: 20 * ONE,
        ..CameraConfig::default()
    });
    let mut last = c.orbit_distance();
    for _ in 0..30 {
        c.update(&scroll(ONE), FRAME);
        assert!(c.orbit_distance() <= last);
        assert!(c.orbit_distance() >= 2 * ONE);
        last = c.orbit_distance();
    }
    assert_eq!(c.orbit_distance(), 2 * ONE);
    assert_eq!(c.position(), Vec3::new(0, 0, -2 * ONE));
    for _ in 0..30 {
        c.update(&scroll(-ONE), FRAME);
        assert!(c.orbit_distance() >= last);
        assert!(c.orbit_distance() <= 20 * ONE);
        last = c.orbit_distance();
    }
    assert_eq!(c.orbit_distance(), 20 * ONE);
    c.update(&scroll(i64::MIN), FRAME);
    assert_eq!(c.orbit_distance(), 20 * ONE);
    c.update(&scroll(i64::MAX), FRAME);
    assert_eq!(c.orbit_distance(), 2 * ONE);
}

#[test]
fn scroll_does_nothing_in_free_flight() {
    let mut c = CameraController::new(&CameraConfig::default());
    c.update(&scroll(3 * ONE), FRAME);
    assert_eq!(c.orbit_distance(), 10 * ONE);
    assert_eq!(c.position(), Vec3::zero());
}

#[test]
fn velocity_decays_to_rest_without_input() {
    let mut c = CameraController::new(&CameraConfig::default());
    c.update(&moving(0, 0, ONE), 100_000);
    assert_eq!(c.velocity(), Vec3::new(0, 0, 5 * ONE));
    assert_eq!(c.position(), Vec3::new(0, 0, 500_000));
    c.update(&idle(), FRAME);
    assert_eq!(c.velocity(), Vec3::new(0, 0, 4_583_325));
    assert_eq!(c.position(), Vec3::new(0, 0, 576_390));
    c.update(&idle(), FRAME);
    assert_eq!(c.velocity(), Vec3::new(0, 0, 4_201_373));
    assert_eq!(c.position(), Vec3::new(0, 0, 646_414));
    let mut ticks = 2;
    while c.velocity() != Vec3::zero() {
        let before = c.velocity();
        c.update(&idle(), FRAME);
        assert!(c.velocity().z < before.z);
        assert!(c.velocity().z >= 0);
        ticks += 1;
        assert!(ticks <= 5_000_000);
    }
    assert_eq!(ticks, 155);
    assert_eq!(c.position(), Vec3::new(0, 0, 1_416_579));
    for _ in 0..10 {
        c.update(&idle(), FRAME);
        assert_eq!(c.position(), Vec3::new(0, 0, 1_416_579));
        assert_eq!(c.velocity(), Vec3::zero());
    }
}

#[test]
fn weak_friction_over_a_short_tick_still_slows_the_camera() {
    let mut c = CameraController::new(&CameraConfig { friction: 999, ..CameraConfig::default() });
    c.update(&moving(0, 0, ONE), 1_000);
    assert_eq!(c.velocity(), Vec3::new(0, 0, 5 * ONE));
    c.update(&idle(), 1_000);
    assert_eq!(c.velocity(), Vec3::new(0, 0, 4_999_995));
    c.update(&idle(), 1);
    assert_eq!(c.velocity(), Vec3::new(0, 0, 4_999_994));
    let mut weakest = CameraController::new(&CameraConfig { friction: 1, ..CameraConfig::default() });
    weakest.update(&moving(0, 0, ONE), FRAME);
    weakest.update(&idle(), 1);
    assert_eq!(weakest.velocity(), Vec3::new(0, 0, 4_999_999));
}

#[test]
fn coasting_covers_no_more_than_speed_over_friction() {
    for (friction, dt) in [(999, 1_000), (59, FRAME), (100, FRAME), (5 * ONE, FRAME), (ONE / 2, 3 * ONE)] {
        let mut c = CameraController::new(&CameraConfig {
            friction,
            yaw: 700_000,
            pitch: -400_000,
            ..CameraConfig::default()
        });
        c.update(&moving(ONE, ONE, ONE), 0);
        let start = c.position();
        let v = c.velocity();
        for tick in 0..20_000 {
            c.update(&idle(), dt);
            let p = c.position();
            let slack = |way: i64, speed: i64| {
                (way.abs() as i128) * (friction as i128) <= (speed.abs() as i128) * (ONE as i128)
            };
            assert!(slack(p.x - start.x, v.x), "x at tick {tick}");
            assert!(slack(p.y - start.y, v.y), "y at tick {tick}");
            assert!(slack(p.z - start.z, v.z), "z at tick {tick}");
        }
    }
}

#[test]
fn friction_is_exact_at_every_tick_length() {
    let mut c = CameraController::new(&CameraConfig { friction: 100, ..CameraConfig::default() });
    c.update(&moving(0, 0, ONE), FRAME);
    c.update(&idle(), FRAME);
    assert_eq!(c.velocity(), Vec3::new(0, 0, 4_999_991));
    let mut d = CameraController::new(&CameraConfig { friction: 2 * ONE, ..CameraConfig::default() });
    d.update(&moving(0, 0, ONE), FRAME);
    d.update(&idle(), ONE / 2);
    assert_eq!(d.velocity(), Vec3::zero());
    d.update(&moving(0, 0, ONE), FRAME);
    d.update(&idle(), ONE / 2 - 1);
    assert_eq!(d.velocity(), Vec3::new(0, 0, 10));
}

#[test]
fn velocity_never_turns_its_sign() {
    let mut c = CameraController::new(&CameraConfig {
        yaw: 2_000_000,
        pitch: -700_000,
        ..CameraConfig::default()
    });
    c.update(&moving(ONE, -ONE, ONE), FRAME);
    let start = c.velocity();
    assert!(start != Vec3::zero());
    for _ in 0..300 {
        let before = c.velocity();
        c.update(&idle(), FRAME);
        let after = c.velocity();
        assert!(after.x.abs() <= before.x.abs() && after.x.signum() * start.x.signum() >= 0);
        assert!(after.y.abs() <= before.y.abs() && after.y.signum() * start.y.signum() >= 0);
        assert!(after.z.abs() <= before.z.abs() && after.z.signum() * start.z.signum() >= 0);
    }
    assert_eq!(c.velocity(), Vec3::zero());
}

#[test]
fn strong_friction_stops_at_once() {
    let mut c = CameraController::new(&CameraConfig { friction: 100 * ONE, ..CameraConfig::default() });
    c.update(&moving(ONE, 0, 0), FRAME);
    assert_eq!(c.velocity(), Vec3::new(-5 * ONE, 0, 0));
    c.update(&idle(), FRAME);
    assert_eq!(c.velocity(), Vec3::zero());
}

#[test]
fn pitch_stops_at_its_limit() {
    let mut c = CameraController::new(&CameraConfig { cursor_locked: true, ..CameraConfig::default() });
    for dy in [-ONE, -1_000 * ONE, i64::MIN, i64::MIN, 5, i64::MAX, i64::MAX, 12_345 * ONE, -99 * ONE] {
        c.update(&mouse(0, dy), FRAME);
        assert!(-PITCH_LIMIT <= c.pitch() && c.pitch() <= PITCH_LIMIT);
    }
    c.update(&mouse(0, i64::MIN), FRAME);
    assert_eq!(c.pitch(), PITCH_LIMIT);
    c.update(&mouse(0, i64::MAX), FRAME);
    assert_eq!(c.pitch(), -PITCH_LIMIT);
    assert!(c.pitch() > -HALF_PI && PITCH_LIMIT < HALF_PI);
}

#[test]
fn view_is_never_vertical() {
    let mut c = CameraController::new(&CameraConfig { cursor_locked: true, ..CameraConfig::default() });
    for dy in [i64::MIN, i64::MAX, -777 * ONE, 777 * ONE] {
        let t = c.update(&mouse(0, dy), FRAME);
        assert!(t.rotation.up.y >= 10_000);
        assert!(t.rotation.forward.y.abs() < ONE);
    }
    assert_eq!(c.transform().rotation.up.y, 17_453);
}

#[test]
fn pitch_stops_at_its_limit_in_orbit() {
    let mut c = CameraController::new(&CameraConfig {
        orbit_mode: true,
        cursor_locked: true,
        ..CameraConfig::default()
    });
    c.update(&mouse(0, -10_000 * ONE), FRAME);
    assert_eq!(c.pitch(), PITCH_LIMIT);
    c.update(&mouse(0, 10_000 * ONE), FRAME);
    assert_eq!(c.pitch(), -PITCH_LIMIT);
}

#[test]
fn mouse_turns_the_view() {
    let mut c = CameraController::new(&CameraConfig { cursor_locked: true, ..CameraConfig::default() });
    c.update(&mouse(10 * ONE, -5 * ONE), FRAME);
    assert_eq!(c.yaw(), -20_000);
    assert_eq!(c.pitch(), 10_000);
    c.update(&mouse(-2_000 * ONE, 0), FRAME);
    assert_eq!(c.yaw(), -20_000 + 4_000_000 - 2 * PI);
}

#[test]
fn mouse_is_ignored_while_the_cursor_is_free() {
    let mut c = CameraController::new(&CameraConfig::default());
    c.update(&mouse(10 * ONE, -5 * ONE), FRAME);
    assert_eq!(c.yaw(), 0);
    assert_eq!(c.pitch(), 0);
}

#[test]
fn cursor_key_flips_the_lock_before_the_mouse_counts() {
    let mut c = CameraController::new(&CameraConfig::default());
    c.update(&InputSnapshot { toggle_cursor_pressed: true, ..mouse(10 * ONE, 0) }, FRAME);
    assert!(c.cursor_locked());
    assert_eq!(c.yaw(), -20_000);
    c.update(&InputSnapshot { toggle_cursor_pressed: true, ..mouse(10 * ONE, 0) }, FRAME);
    assert!(!c.cursor_locked());
    assert_eq!(c.yaw(), -20_000);
}

#[test]
fn mode_switch_keeps_the_position() {
    let mut c = CameraController::new(&CameraConfig {
        orbit_mode: true,
        orbit_focus: Vec3::new(0, 500_000, 0),
        yaw: -2_356_194,
        pitch: -400_000,
        orbit_distance: 12 * ONE,
        cursor_locked: true,
        ..CameraConfig::default()
    });
    c.update(&InputSnapshot { scroll_delta: 2 * ONE, ..mouse(100 * ONE, 50 * ONE) }, FRAME);
    let start = c.position();
    assert_eq!(start, Vec3::new(4_848_910, 5_294_260, 7_314_570));
    c.update(&mode_key(), FRAME);
    assert_eq!(c.mode(), Mode::FreeFly);
    assert_eq!(c.position(), start);
    c.update(&mode_key(), FRAME);
    assert_eq!(c.mode(), Mode::Orbit);
    assert_eq!(c.position(), start);
    assert_eq!(c.orbit_distance(), 10 * ONE);
    for _ in 0..20 {
        c.update(&mode_key(), FRAME);
        assert_eq!(c.position(), start);
    }
}

#[test]
fn leaving_orbit_keeps_the_view_direction() {
    let mut c = CameraController::new(&CameraConfig {
        orbit_mode: true,
        orbit_focus: Vec3::new(0, 500_000, 0),
        yaw: -2_556_194,
        pitch: -500_000,
        ..CameraConfig::default()
    });
    let before = c.transform();
    let after = c.update(&mode_key(), FRAME);
    assert_eq!(c.mode(), Mode::FreeFly);
    assert_eq!(c.yaw(), -2_556_194);
    assert_eq!(c.pitch(), -499_998);
    assert!((after.rotation.forward.x - before.rotation.forward.x).abs() <= 5);
    assert!((after.rotation.forward.y - before.rotation.forward.y).abs() <= 5);
    assert!((after.rotation.forward.z - before.rotation.forward.z).abs() <= 5);
}

#[test]
fn view_does_not_jump_on_leaving_orbit() {
    let one = (ONE as i128) * (ONE as i128);
    for (yaw, pitch, distance) in [
        (0, 0, 10 * ONE),
        (-2_556_194, -500_000, 10 * ONE),
        (3_000_000, PITCH_LIMIT, ONE / 2),
        (-1_234_567, -PITCH_LIMIT, 100 * ONE),
        (777_777, 1_000_000, 3 * ONE),
        (1_570_796, -1_234, 57 * ONE),
    ] {
        let mut c = CameraController::new(&CameraConfig {
            orbit_mode: true,
            orbit_focus: Vec3::new(ONE, -2 * ONE, 3 * ONE),
            orbit_distance: distance,
            yaw,
            pitch,
            ..CameraConfig::default()
        });
        let d = c.orbit_distance() as i128;
        let sphere = AXIS_TOLERANCE as i128 * d * d / one + 6 * d + 4;
        let shortfall = sphere / d + 1;
        let tolerance = VIEW_TOLERANCE as i128 + 1 + (ONE as i128) * (1 + shortfall) / (d - shortfall);
        let before = c.transform().rotation.forward;
        let after = c.update(&mode_key(), FRAME).rotation.forward;
        assert_eq!(c.mode(), Mode::FreeFly);
        assert!(((after.x - before.x).abs() as i128) <= tolerance);
        assert!(((after.y - before.y).abs() as i128) <= tolerance);
        assert!(((after.z - before.z).abs() as i128) <= tolerance);
    }
}

#[test]
fn entering_orbit_puts_the_focus_ahead() {
    let mut c = CameraController::new(&CameraConfig {
        position: Vec3::new(ONE, 2 * ONE, 3 * ONE),
        orbit_distance: 4 * ONE,
        ..CameraConfig::default()
    });
    c.update(&mode_key(), FRAME);
    assert_eq!(c.mode(), Mode::Orbit);
    assert_eq!(c.orbit_focus(), Vec3::new(ONE, 2 * ONE, 7 * ONE));
    assert_eq!(c.position(), Vec3::new(ONE, 2 * ONE, 3 * ONE));
    assert_eq!(c.orbit_distance(), 4 * ONE);
}

#[test]
fn entering_orbit_brings_the_camera_to_rest() {
    let mut c = CameraController::new(&CameraConfig::default());
    c.update(&moving(0, 0, ONE), FRAME);
    assert!(c.velocity() != Vec3::zero());
    let at = c.position();
    c.update(&mode_key(), FRAME);
    assert_eq!(c.velocity(), Vec3::zero());
    assert_eq!(c.position(), at);
    c.update(&mode_key(), FRAME);
    assert_eq!(c.velocity(), Vec3::zero());
    assert_eq!(c.position(), at);
}

#[test]
fn switch_mode_by_call() {
    let mut c = CameraController::new(&CameraConfig::default());
    c.switch_mode();
    assert!(c.orbit_mode());
    assert_eq!(c.orbit_focus(), Vec3::new(0, 0, 10 * ONE));
    assert_eq!(c.position(), Vec3::zero());
    c.switch_mode();
    assert!(!c.orbit_mode());
    assert_eq!(c.position(), Vec3::zero());
    assert_eq!(c.yaw(), 0);
    assert_eq!(c.pitch(), 0);
}

#[test]
fn disabled_controller_does_not_change() {
    let mut c = CameraController::new(&CameraConfig {
        enabled: false,
        cursor_locked: true,
        position: Vec3::new(1, 2, 3),
        yaw: 100,
        pitch: 200,
        ..CameraConfig::default()
    });
    let before = c.transform();
    let busy = InputSnapshot {
        movement_axes: Vec3::new(ONE, ONE, ONE),
        mouse_delta: Vec2 { x: 55 * ONE, y: -66 * ONE },
        scroll_delta: 3 * ONE,
        toggle_cursor_pressed: true,
        run_modifier_held: true,
        mode_toggle_pressed: true,
    };
    for _ in 0..5 {
        let t = c.update(&busy, ONE);
        assert_eq!(t, before);
    }
    assert!(!c.enabled());
    assert!(c.cursor_locked());
    assert_eq!(c.mode(), Mode::FreeFly);
    assert_eq!(c.position(), Vec3::new(1, 2, 3));
    assert_eq!(c.yaw(), 100);
    assert_eq!(c.pitch(), 200);
    assert_eq!(c.velocity(), Vec3::zero());
    assert_eq!(c.orbit_distance(), 10 * ONE);
    assert_eq!(c.orbit_focus(), Vec3::zero());
}

#[test]
fn disabling_keeps_the_velocity_for_later() {
    let mut c = CameraController::new(&CameraConfig::default());
    c.update(&moving(0, 0, ONE), FRAME);
    let v = c.velocity();
    let p = c.position();
    c.set_enabled(false);
    c.update(&idle(), FRAME);
    assert_eq!(c.velocity(), v);
    assert_eq!(c.position(), p);
    c.set_enabled(true);
    assert!(c.enabled());
    c.update(&idle(), FRAME);
    assert!(c.velocity().z < v.z);
}

#[test]
fn set_orbit_focus_moves_an_orbiting_camera_at_the_next_tick() {
    let mut c = CameraController::new(&CameraConfig { orbit_mode: true, ..CameraConfig::default() });
    assert_eq!(c.position(), Vec3::new(0, 0, -10 * ONE));
    c.set_orbit_focus(Vec3::new(ONE, i64::MAX, 0));
    assert_eq!(c.orbit_focus(), Vec3::new(ONE, WORLD_LIMIT, 0));
    assert_eq!(c.position(), Vec3::new(0, 0, -10 * ONE));
    c.update(&idle(), FRAME);
    assert_eq!(c.position(), Vec3::new(ONE, WORLD_LIMIT, -10 * ONE));
}

#[test]
fn running_is_faster_than_walking() {
    let mut c = CameraController::new(&CameraConfig::default());
    c.update(&InputSnapshot { run_modifier_held: true, ..moving(0, 0, ONE) }, ONE);
    assert_eq!(c.velocity(), Vec3::new(0, 0, 15 * ONE));
    assert_eq!(c.position(), Vec3::new(0, 0, 15 * ONE));
    c.update(&moving(0, 0, -ONE), ONE);
    assert_eq!(c.velocity(), Vec3::new(0, 0, -5 * ONE));
    assert_eq!(c.position(), Vec3::new(0, 0, 10 * ONE));
}

#[test]
fn movement_follows_the_camera_axes() {
    let mut c = CameraController::new(&CameraConfig::default());
    c.update(&moving(ONE, 0, 0), ONE);
    assert_eq!(c.position(), Vec3::new(-5 * ONE, 0, 0));
    c.update(&moving(0, ONE, 0), ONE);
    assert_eq!(c.position(), Vec3::new(-5 * ONE, 5 * ONE, 0));
    let mut turned = CameraController::new(&CameraConfig { yaw: HALF_PI, ..CameraConfig::default() });
    turned.update(&moving(0, 0, ONE), ONE);
    assert_eq!(turned.position(), Vec3::new(5 * ONE, 0, 0));
}

#[test]
fn diagonal_movement_is_not_faster() {
    let mut c = CameraController::new(&CameraConfig {
        yaw: 500_000,
        pitch: -300_000,
        cursor_locked: true,
        ..CameraConfig::default()
    });
    c.update(
        &InputSnapshot {
            movement_axes: Vec3::new(ONE, ONE, ONE),
            mouse_delta: Vec2 { x: 12 * ONE, y: -7 * ONE },
            run_modifier_held: true,
            ..idle()
        },
        FRAME,
    );
    assert_eq!(c.yaw(), 476_000);
    assert_eq!(c.pitch(), -286_000);
    assert_eq!(c.velocity(), Vec3::new(-2_770_830, 5_865_270, 13_524_825));
    assert_eq!(c.position(), Vec3::new(-46_181, 97_756, 225_418));
    let speed = c.velocity().length() as i64;
    assert!((speed - 15 * ONE).abs() <= 30);
}

#[test]
fn movement_axes_beyond_one_count_as_one() {
    let mut a = CameraController::new(&CameraConfig::default());
    let mut b = CameraController::new(&CameraConfig::default());
    a.update(&moving(i64::MAX, i64::MIN, 3 * ONE), FRAME);
    b.update(&moving(ONE, -ONE, ONE), FRAME);
    assert_eq!(a.velocity(), b.velocity());
    assert_eq!(a.position(), b.position());
}

#[test]
fn request_too_small_to_have_a_direction_is_no_request() {
    let mut c = CameraController::new(&CameraConfig { yaw: 500_000, ..CameraConfig::default() });
    c.update(&moving(0, 0, ONE), FRAME);
    let v = c.velocity();
    assert_eq!(v, Vec3::new(2_397_130, 0, 4_387_910));
    c.update(&moving(0, 0, 1), FRAME);
    assert_eq!(c.velocity(), Vec3::new(2_197_365, 0, 4_022_243));
    let mut d = CameraController::new(&CameraConfig::default());
    d.update(&moving(0, 0, 1), FRAME);
    assert_eq!(d.velocity(), Vec3::new(0, 0, 5 * ONE));
}

#[test]
fn time_step_out_of_range_counts_as_the_nearer_end() {
    let mut c = CameraController::new(&CameraConfig { friction: 0, ..CameraConfig::default() });
    c.update(&moving(0, 0, ONE), -5);
    assert_eq!(c.position(), Vec3::zero());
    assert_eq!(c.velocity(), Vec3::new(0, 0, 5 * ONE));
    c.update(&moving(0, 0, ONE), i64::MIN);
    assert_eq!(c.position(), Vec3::zero());
    c.update(&moving(0, 0, ONE), i64::MAX);
    assert_eq!(c.position(), Vec3::new(0, 0, 50 * ONE));
    c.update(&moving(0, 0, ONE), DT_LIMIT);
    assert_eq!(c.position(), Vec3::new(0, 0, 100 * ONE));
}

#[test]
fn position_stops_at_the_end_of_the_world() {
    let mut c = CameraController::new(&CameraConfig {
        position: Vec3::new(0, 0, WORLD_LIMIT - ONE),
        run_speed: SPEED_LIMIT,
        ..CameraConfig::default()
    });
    c.update(&InputSnapshot { run_modifier_held: true, ..moving(0, 0, ONE) }, ONE);
    assert_eq!(c.position(), Vec3::new(0, 0, WORLD_LIMIT));
    c.update(&InputSnapshot { run_modifier_held: true, ..moving(0, 0, ONE) }, ONE);
    assert_eq!(c.position(), Vec3::new(0, 0, WORLD_LIMIT));
}

#[test]
fn update_is_deterministic() {
    let config = CameraConfig { cursor_locked: true, ..CameraConfig::default() };
    let mut a = CameraController::new(&config);
    let mut b = CameraController::new(&config);
    for i in 0..50 {
        let input = InputSnapshot {
            movement_axes: Vec3::new((i % 3 - 1) * ONE, 0, ONE),
            mouse_delta: Vec2 { x: i * ONE, y: -i * ONE / 2 },
            scroll_delta: ONE,
            toggle_cursor_pressed: i % 7 == 0,
            run_modifier_held: i % 2 == 0,
            mode_toggle_pressed: i % 11 == 0,
        };
        assert_eq!(a.update(&input, FRAME), b.update(&input, FRAME));
    }
    assert_eq!(a.position(), b.position());
    assert_eq!(a.transform(), b.transform());
}
