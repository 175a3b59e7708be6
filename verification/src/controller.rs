//! The camera controller: its configuration, its state, and the update that
//! runs once per tick.

use vstd::prelude::*;
use crate::fixed::{
    ONE, ONE_SQUARED, abs_int, clamp_int, clamp, fx_mul, lemma_mul_fx_bound, lemma_mul_fx_unit,
};
use crate::trig::{PI, wrap_angle, sin, cos, atan2, asin, wrap};
use crate::vector::{
    Vec3, V3, lemma_length_within, lemma_normalized_zero, lemma_scaled_by_unit, lemma_scaled_unit,
};
use crate::model::{
    CameraModel, InputSnapshot, Mode, RotationModel, TransformModel, DISTANCE_FLOOR,
    DISTANCE_LIMIT, DT_LIMIT, FOCUS_LIMIT, FRICTION_LIMIT, MOUSE_LIMIT, PITCH_LIMIT,
    SCROLL_LIMIT, SENSITIVITY_LIMIT, SPEED_LIMIT, VIEW_TOLERANCE, WORLD_LIMIT, ZOOM_LIMIT,
    aim_angles, damped, damped_velocity, desired_direction, forward_axis, rotation_of,
    view_angles,
};
use crate::laws::{
    lemma_axes_within, lemma_damped, lemma_fly, lemma_look, lemma_orbit, lemma_switch_mode,
};

verus! {

/// An orientation: the camera's three axes in world coordinates, each of
/// length one.
#[derive(Clone, Copy, Debug, PartialEq, Eq, Structural)]
pub struct Rotation {
    pub right: Vec3,
    pub up: Vec3,
    pub forward: Vec3,
}

/// What a tick emits: where the camera is and how it is turned.
#[derive(Clone, Copy, Debug, PartialEq, Eq, Structural)]
pub struct Transform {
    pub position: Vec3,
    pub rotation: Rotation,
}

impl View for Rotation {
    type V = RotationModel;

    open spec fn view(&self) -> RotationModel {
        RotationModel { right: self.right@, up: self.up@, forward: self.forward@ }
    }
}

impl View for Transform {
    type V = TransformModel;

    open spec fn view(&self) -> TransformModel {
        TransformModel { position: self.position@, rotation: self.rotation@ }
    }
}

/// What a controller is made from. Every number is in fixed point; one out
/// of its range counts as the nearest number in range.
#[derive(Clone, Copy, Debug, PartialEq, Eq, Structural)]
pub struct CameraConfig {
    /// Start in orbit rather than free flight. Default: `false`.
    pub orbit_mode: bool,
    /// The point to orbit. Default: the origin.
    pub orbit_focus: Vec3,
    /// The orbit radius to start with, held between the two ends below.
    /// Default: 10.
    pub orbit_distance: i64,
    /// The smallest orbit radius, at least `DISTANCE_FLOOR`. Default: 0.5.
    pub min_orbit_distance: i64,
    /// The largest orbit radius, at most `DISTANCE_LIMIT`, and not less than
    /// the smallest. Default: 100.
    pub max_orbit_distance: i64,
    /// Where a free-fly camera starts. An orbiting camera starts on its
    /// sphere instead. Default: the origin.
    pub position: Vec3,
    /// The yaw to start with, in radians. Default: 0.
    pub yaw: i64,
    /// The pitch to start with, in radians. Default: 0.
    pub pitch: i64,
    /// Units per second while walking. Default: 5.
    pub walk_speed: i64,
    /// Units per second while the run modifier is held. Default: 15.
    pub run_speed: i64,
    /// Radians of turn per device unit of mouse motion. Default: 0.002.
    pub sensitivity: i64,
    /// Units of orbit radius per scroll step. Default: 1.
    pub zoom_sensitivity: i64,
    /// The share of the velocity lost per second once no motion is asked
    /// for. Default: 5.
    pub friction: i64,
    /// Whether the controller reacts to input at all. Default: `true`.
    pub enabled: bool,
    /// Whether the mouse turns the view from the start. Default: `false`.
    pub cursor_locked: bool,
}

impl CameraConfig {
    /// The configuration with every field at its default.
    pub open spec fn standard() -> CameraConfig {
        CameraConfig {
            orbit_mode: false,
            orbit_focus: Vec3 { x: 0, y: 0, z: 0 },
            orbit_distance: 10_000_000,
            min_orbit_distance: 500_000,
            max_orbit_distance: 100_000_000,
            position: Vec3 { x: 0, y: 0, z: 0 },
            yaw: 0,
            pitch: 0,
            walk_speed: 5_000_000,
            run_speed: 15_000_000,
            sensitivity: 2_000,
            zoom_sensitivity: 1_000_000,
            friction: 5_000_000,
            enabled: true,
            cursor_locked: false,
        }
    }

    /// The state that a controller made from this configuration starts in:
    /// every number brought into its range, the camera at rest, and an
    /// orbiting camera placed on its sphere.
    pub open spec fn initial(self) -> CameraModel {
        let min_d = clamp_int(
            self.min_orbit_distance as int,
            DISTANCE_FLOOR as int,
            DISTANCE_LIMIT as int,
        );
        let max_d = clamp_int(
            self.max_orbit_distance as int,
            DISTANCE_FLOOR as int,
            DISTANCE_LIMIT as int,
        );
        let distance = clamp_int(self.orbit_distance as int, min_d, max_d);
        let yaw = wrap_angle(self.yaw as int);
        let pitch = clamp_int(self.pitch as int, -(PITCH_LIMIT as int), PITCH_LIMIT as int);
        let focus = self.orbit_focus@.clamped(WORLD_LIMIT as int);
        CameraModel {
            position: if self.orbit_mode {
                focus.minus(forward_axis(yaw, pitch).scaled(distance)).clamped(WORLD_LIMIT as int)
            } else {
                self.position@.clamped(WORLD_LIMIT as int)
            },
            yaw,
            pitch,
            velocity: V3::zero(),
            mode: if self.orbit_mode {
                Mode::Orbit
            } else {
                Mode::FreeFly
            },
            orbit_focus: focus,
            orbit_distance: distance,
            min_orbit_distance: min_d,
            max_orbit_distance: max_d,
            enabled: self.enabled,
            cursor_locked: self.cursor_locked,
            walk_speed: clamp_int(self.walk_speed as int, 0, SPEED_LIMIT as int),
            run_speed: clamp_int(self.run_speed as int, 0, SPEED_LIMIT as int),
            friction: clamp_int(self.friction as int, 0, FRICTION_LIMIT as int),
            sensitivity: clamp_int(self.sensitivity as int, 0, SENSITIVITY_LIMIT as int),
            zoom_sensitivity: clamp_int(self.zoom_sensitivity as int, 0, ZOOM_LIMIT as int),
        }
    }
}

impl CameraConfig {
    /// The default configuration for a camera that orbits `focus` and starts
    /// where `eye` is: the camera looks from `eye` at `focus`, from as far as
    /// the two are apart. Where the two are the same point, yaw and pitch are
    /// zero. Coordinates beyond `FOCUS_LIMIT` count as at the limit.
    pub fn orbiting(eye: Vec3, focus: Vec3) -> (c: CameraConfig)
        ensures
            c == orbiting_config(eye, focus),
    {
        let from: Vec3 = eye.clamped(FOCUS_LIMIT);
        let to: Vec3 = focus.clamped(FOCUS_LIMIT);
        proof {
            lemma_length_within(to@.minus(from@), 2 * FOCUS_LIMIT);
        }
        let apart: u64 = to.minus(from).length();
        let angles: (i64, i64) = match aim(from, to) {
            Some(found) => found,
            None => (0, 0),
        };
        CameraConfig {
            orbit_mode: true,
            orbit_focus: focus,
            orbit_distance: apart as i64,
            min_orbit_distance: 500_000,
            max_orbit_distance: 100_000_000,
            position: eye,
            yaw: angles.0,
            pitch: angles.1,
            walk_speed: 5_000_000,
            run_speed: 15_000_000,
            sensitivity: 2_000,
            zoom_sensitivity: 1_000_000,
            friction: 5_000_000,
            enabled: true,
            cursor_locked: false,
        }
    }
}

/// The default configuration for a camera that orbits `focus` and starts
/// where `eye` is.
pub open spec fn orbiting_config(eye: Vec3, focus: Vec3) -> CameraConfig {
    let from = eye@.clamped(FOCUS_LIMIT as int);
    let to = focus@.clamped(FOCUS_LIMIT as int);
    let angles = match aim_angles(from, to) {
        Some(found) => found,
        None => (0, 0),
    };
    CameraConfig {
        orbit_mode: true,
        orbit_focus: focus,
        orbit_distance: to.minus(from).length() as i64,
        position: eye,
        yaw: angles.0 as i64,
        pitch: angles.1 as i64,
        ..CameraConfig::standard()
    }
}

impl Default for CameraConfig {
    fn default() -> (c: CameraConfig)
        ensures
            c == CameraConfig::standard(),
    {
        CameraConfig {
            orbit_mode: false,
            orbit_focus: Vec3 { x: 0, y: 0, z: 0 },
            orbit_distance: 10_000_000,
            min_orbit_distance: 500_000,
            max_orbit_distance: 100_000_000,
            position: Vec3 { x: 0, y: 0, z: 0 },
            yaw: 0,
            pitch: 0,
            walk_speed: 5_000_000,
            run_speed: 15_000_000,
            sensitivity: 2_000,
            zoom_sensitivity: 1_000_000,
            friction: 5_000_000,
            enabled: true,
            cursor_locked: false,
        }
    }
}

/// The camera's three axes for the given angles.
pub fn rotation(yaw: i64, pitch: i64) -> (r: Rotation)
    ensures
        r@ == rotation_of(yaw as int, pitch as int),
        r.right@.within(ONE as int),
        r.up@.within(ONE as int),
        r.forward@.within(ONE as int),
{
    let sy: i64 = sin(yaw);
    let cy: i64 = cos(yaw);
    let sp: i64 = sin(pitch);
    let cp: i64 = cos(pitch);
    proof {
        lemma_axes_within(yaw as int, pitch as int);
        lemma_mul_fx_unit(sy as int, cp as int);
        lemma_mul_fx_unit(cy as int, cp as int);
        lemma_mul_fx_unit(sy as int, sp as int);
        lemma_mul_fx_unit(cy as int, sp as int);
    }
    Rotation {
        right: Vec3 { x: -cy, y: 0, z: sy },
        up: Vec3 { x: -fx_mul(sy, sp), y: cp, z: -fx_mul(cy, sp) },
        forward: Vec3 { x: fx_mul(sy, cp), y: sp, z: fx_mul(cy, cp) },
    }
}

/// The yaw and pitch with which a camera at `from` looks at `to`, or `None`
/// where the two points are too close to tell a direction. Coordinates beyond
/// `FOCUS_LIMIT` count as at the limit.
pub fn aim(from: Vec3, to: Vec3) -> (angles: Option<(i64, i64)>)
    ensures
        match aim_angles(
            from@.clamped(FOCUS_LIMIT as int),
            to@.clamped(FOCUS_LIMIT as int),
        ) {
            Some((yaw, pitch)) => angles == Some((yaw as i64, pitch as i64)) && -PI <= yaw < PI
                && -PITCH_LIMIT <= pitch <= PITCH_LIMIT,
            None => angles.is_none(),
        },
        angles.is_none() <==> from@.clamped(FOCUS_LIMIT as int) == to@.clamped(FOCUS_LIMIT as int),
{
    proof {
        lemma_normalized_zero(
            to@.clamped(FOCUS_LIMIT as int).minus(from@.clamped(FOCUS_LIMIT as int)),
        );
    }
    let a: Vec3 = from.clamped(FOCUS_LIMIT);
    let b: Vec3 = to.clamped(FOCUS_LIMIT);
    let dir: Vec3 = b.minus(a).normalized();
    if dir.x == 0 && dir.y == 0 && dir.z == 0 {
        None
    } else {
        let yaw: i64 = wrap(atan2(dir.x, dir.z));
        let pitch: i64 = clamp(asin(dir.y), -PITCH_LIMIT, PITCH_LIMIT);
        Some((yaw, pitch))
    }
}

/// The yaw and pitch with which a camera at `from` looks at `to`, where the
/// view direction that they give meets the direction to `to` within
/// `VIEW_TOLERANCE` on every coordinate; `None` where the two points are the
/// same or no such angles were found. Coordinates beyond `FOCUS_LIMIT` count
/// as at the limit.
pub fn aim_closely(from: Vec3, to: Vec3) -> (angles: Option<(i64, i64)>)
    ensures
        match view_angles(from@.clamped(FOCUS_LIMIT as int), to@.clamped(FOCUS_LIMIT as int)) {
            Some((yaw, pitch)) => angles == Some((yaw as i64, pitch as i64)) && -PI <= yaw < PI
                && -PITCH_LIMIT <= pitch <= PITCH_LIMIT,
            None => angles.is_none(),
        },
        angles matches Some((yaw, pitch)) ==> forward_axis(yaw as int, pitch as int).minus(
            to@.clamped(FOCUS_LIMIT as int).minus(from@.clamped(FOCUS_LIMIT as int)).normalized(),
        ).within(VIEW_TOLERANCE as int),
{
    match aim(from, to) {
        Some((yaw, pitch)) => {
            let a: Vec3 = from.clamped(FOCUS_LIMIT);
            let b: Vec3 = to.clamped(FOCUS_LIMIT);
            let dir: Vec3 = b.minus(a).normalized();
            let f: Vec3 = rotation(yaw, pitch).forward;
            if close(f.x, dir.x) && close(f.y, dir.y) && close(f.z, dir.z) {
                Some((yaw, pitch))
            } else {
                None
            }
        },
        None => None,
    }
}

/// Whether two coordinates of directions differ by at most `VIEW_TOLERANCE`.
fn close(a: i64, b: i64) -> (r: bool)
    requires
        -ONE <= a <= ONE,
        -ONE <= b <= ONE,
    ensures
        r == (abs_int(a - b) <= VIEW_TOLERANCE),
{
    let d: i64 = a - b;
    -VIEW_TOLERANCE <= d && d <= VIEW_TOLERANCE
}

/// What `dt` seconds of friction leave of one coordinate of the velocity.
fn damped_coordinate(v: i64, friction: i64, dt: i64) -> (r: i64)
    requires
        -SPEED_LIMIT <= v <= SPEED_LIMIT,
        0 <= friction <= FRICTION_LIMIT,
        0 <= dt <= DT_LIMIT,
    ensures
        r == damped(v as int, friction as int, dt as int),
        -SPEED_LIMIT <= r <= SPEED_LIMIT,
{
    proof {
        lemma_damped(v as int, friction as int, dt as int);
        assert(0 <= friction * dt <= FRICTION_LIMIT * DT_LIMIT) by (nonlinear_arith)
            requires
                0 <= friction <= FRICTION_LIMIT,
                0 <= dt <= DT_LIMIT,
        ;
    }
    let loss: i64 = friction * dt;
    if loss >= ONE_SQUARED {
        0
    } else {
        let kept: i128 = (ONE_SQUARED - loss) as i128;
        assert(-1_000_000_000 * 1_000_000_000_000 <= v * kept <= 1_000_000_000 * 1_000_000_000_000)
            by (nonlinear_arith)
            requires
                -1_000_000_000 <= v <= 1_000_000_000,
                0 < kept <= 1_000_000_000_000,
        ;
        ((v as i128) * kept / (ONE_SQUARED as i128)) as i64
    }
}

/// What `dt` seconds of friction leave of the velocity.
fn damped_exec(v: Vec3, friction: i64, dt: i64) -> (r: Vec3)
    requires
        v@.within(SPEED_LIMIT as int),
        0 <= friction <= FRICTION_LIMIT,
        0 <= dt <= DT_LIMIT,
    ensures
        r@ == damped_velocity(v@, friction as int, dt as int),
        r@.within(SPEED_LIMIT as int),
{
    Vec3 {
        x: damped_coordinate(v.x, friction, dt),
        y: damped_coordinate(v.y, friction, dt),
        z: damped_coordinate(v.z, friction, dt),
    }
}

/// The state of one camera's controller.
///
/// The state is valid at all times: angles, distances and speeds lie in their
/// ranges, and an orbiting camera has no velocity.
#[derive(Clone, Copy, Debug, PartialEq, Eq)]
pub struct CameraController {
    position: Vec3,
    yaw: i64,
    pitch: i64,
    velocity: Vec3,
    mode: Mode,
    orbit_focus: Vec3,
    orbit_distance: i64,
    min_orbit_distance: i64,
    max_orbit_distance: i64,
    enabled: bool,
    cursor_locked: bool,
    walk_speed: i64,
    run_speed: i64,
    friction: i64,
    sensitivity: i64,
    zoom_sensitivity: i64,
}

impl View for CameraController {
    type V = CameraModel;

    closed spec fn view(&self) -> CameraModel {
        CameraModel {
            position: self.position@,
            yaw: self.yaw as int,
            pitch: self.pitch as int,
            velocity: self.velocity@,
            mode: self.mode,
            orbit_focus: self.orbit_focus@,
            orbit_distance: self.orbit_distance as int,
            min_orbit_distance: self.min_orbit_distance as int,
            max_orbit_distance: self.max_orbit_distance as int,
            enabled: self.enabled,
            cursor_locked: self.cursor_locked,
            walk_speed: self.walk_speed as int,
            run_speed: self.run_speed as int,
            friction: self.friction as int,
            sensitivity: self.sensitivity as int,
            zoom_sensitivity: self.zoom_sensitivity as int,
        }
    }
}

impl CameraController {
    #[verifier::type_invariant]
    spec fn valid(&self) -> bool {
        self@.wf()
    }

    /// A controller in the state that `config` describes.
    pub fn new(config: &CameraConfig) -> (c: CameraController)
        requires
            config.min_orbit_distance <= config.max_orbit_distance,
        ensures
            c@ == config.initial(),
            c@.wf(),
    {
        let min_d: i64 = clamp(config.min_orbit_distance, DISTANCE_FLOOR, DISTANCE_LIMIT);
        let max_d: i64 = clamp(config.max_orbit_distance, DISTANCE_FLOOR, DISTANCE_LIMIT);
        let distance: i64 = clamp(config.orbit_distance, min_d, max_d);
        let yaw: i64 = wrap(config.yaw);
        let pitch: i64 = clamp(config.pitch, -PITCH_LIMIT, PITCH_LIMIT);
        let focus: Vec3 = config.orbit_focus.clamped(WORLD_LIMIT);
        let position: Vec3 = if config.orbit_mode {
            orbit_position(focus, yaw, pitch, distance)
        } else {
            config.position.clamped(WORLD_LIMIT)
        };
        CameraController {
            position,
            yaw,
            pitch,
            velocity: Vec3::zero(),
            mode: if config.orbit_mode {
                Mode::Orbit
            } else {
                Mode::FreeFly
            },
            orbit_focus: focus,
            orbit_distance: distance,
            min_orbit_distance: min_d,
            max_orbit_distance: max_d,
            enabled: config.enabled,
            cursor_locked: config.cursor_locked,
            walk_speed: clamp(config.walk_speed, 0, SPEED_LIMIT),
            run_speed: clamp(config.run_speed, 0, SPEED_LIMIT),
            friction: clamp(config.friction, 0, FRICTION_LIMIT),
            sensitivity: clamp(config.sensitivity, 0, SENSITIVITY_LIMIT),
            zoom_sensitivity: clamp(config.zoom_sensitivity, 0, ZOOM_LIMIT),
        }
    }

    /// A controller in the state that `config` describes, or `None` where the
    /// smallest orbit distance of `config` exceeds the largest.
    pub fn try_new(config: &CameraConfig) -> (made: Option<CameraController>)
        ensures
            made.is_some() <==> config.min_orbit_distance <= config.max_orbit_distance,
            made matches Some(c) ==> c@ == config.initial() && c@.wf(),
    {
        if config.min_orbit_distance <= config.max_orbit_distance {
            Some(CameraController::new(config))
        } else {
            None
        }
    }

    /// Where the camera is.
    pub fn position(&self) -> (v: Vec3)
        ensures
            v@ == self@.position,
            v@.within(WORLD_LIMIT as int),
    {
        proof {
            use_type_invariant(self);
        }
        self.position
    }

    /// The yaw of the view direction, in `[-PI, PI)`.
    pub fn yaw(&self) -> (a: i64)
        ensures
            a == self@.yaw,
            -PI <= a < PI,
    {
        proof {
            use_type_invariant(self);
        }
        self.yaw
    }

    /// The pitch of the view direction, never beyond `PITCH_LIMIT`.
    pub fn pitch(&self) -> (a: i64)
        ensures
            a == self@.pitch,
            -PITCH_LIMIT <= a <= PITCH_LIMIT,
    {
        proof {
            use_type_invariant(self);
        }
        self.pitch
    }

    /// The camera's velocity, in units per second.
    pub fn velocity(&self) -> (v: Vec3)
        ensures
            v@ == self@.velocity,
    {
        self.velocity
    }

    /// The mode the camera is in.
    pub fn mode(&self) -> (m: Mode)
        ensures
            m == self@.mode,
    {
        self.mode
    }

    /// Whether the camera orbits.
    pub fn orbit_mode(&self) -> (b: bool)
        ensures
            b == (self@.mode == Mode::Orbit),
    {
        match self.mode {
            Mode::Orbit => true,
            Mode::FreeFly => false,
        }
    }

    /// The point that an orbiting camera circles.
    pub fn orbit_focus(&self) -> (v: Vec3)
        ensures
            v@ == self@.orbit_focus,
    {
        self.orbit_focus
    }

    /// The orbit radius, between its configured ends.
    pub fn orbit_distance(&self) -> (d: i64)
        ensures
            d == self@.orbit_distance,
            self@.min_orbit_distance <= d <= self@.max_orbit_distance,
    {
        proof {
            use_type_invariant(self);
        }
        self.orbit_distance
    }

    /// Whether the controller reacts to input.
    pub fn enabled(&self) -> (b: bool)
        ensures
            b == self@.enabled,
    {
        self.enabled
    }

    /// Whether the mouse turns the view.
    pub fn cursor_locked(&self) -> (b: bool)
        ensures
            b == self@.cursor_locked,
    {
        self.cursor_locked
    }

    /// Switches the reaction to input on or off, and changes nothing else.
    pub fn set_enabled(&mut self, enabled: bool)
        ensures
            final(self)@ == (CameraModel { enabled, ..old(self)@ }),
            final(self)@.wf(),
    {
        proof {
            use_type_invariant(&*self);
        }
        *self = CameraController { enabled, ..*self };
    }

    /// Moves the orbit focus to `focus`, each coordinate held within
    /// `WORLD_LIMIT`, and changes nothing else. An orbiting camera follows on
    /// its next tick.
    pub fn set_orbit_focus(&mut self, focus: Vec3)
        ensures
            final(self)@ == (CameraModel {
                orbit_focus: focus@.clamped(WORLD_LIMIT as int),
                ..old(self)@
            }),
            final(self)@.wf(),
    {
        proof {
            use_type_invariant(&*self);
        }
        *self = CameraController { orbit_focus: focus.clamped(WORLD_LIMIT), ..*self };
    }

    /// Switches to the other mode without moving the camera.
    pub fn switch_mode(&mut self)
        ensures
            final(self)@ == old(self)@.switch_mode(),
            final(self)@.wf(),
            final(self)@.position == old(self)@.position,
    {
        proof {
            use_type_invariant(&*self);
            lemma_switch_mode(self@);
        }
        *self = self.switched();
    }

    /// The transform that the state stands for.
    pub fn transform(&self) -> (t: Transform)
        ensures
            t@ == self@.transform(),
    {
        Transform { position: self.position, rotation: rotation(self.yaw, self.pitch) }
    }

    /// One tick: takes the input of the last `dt` seconds into the state and
    /// returns the camera's transform.
    ///
    /// A disabled controller stays exactly as it is. An enabled one handles
    /// the cursor key, then the mode key, then turns and moves as its mode
    /// says. The state stays valid whatever the input holds: the pitch keeps
    /// its margin from straight up and down, and the orbit radius stays
    /// between its ends.
    pub fn update(&mut self, input: &InputSnapshot, dt: i64) -> (t: Transform)
        ensures
            final(self)@ == old(self)@.step(*input, dt as int),
            final(self)@.wf(),
            -PITCH_LIMIT <= final(self)@.pitch <= PITCH_LIMIT,
            final(self)@.min_orbit_distance <= final(self)@.orbit_distance
                <= final(self)@.max_orbit_distance,
            t@ == final(self)@.transform(),
            !old(self)@.enabled ==> *final(self) == *old(self) && t@ == old(self)@.transform(),
    {
        proof {
            use_type_invariant(&*self);
        }
        if self.enabled {
            let a: CameraController = if input.toggle_cursor_pressed {
                CameraController { cursor_locked: !self.cursor_locked, ..*self }
            } else {
                *self
            };
            let b: CameraController = if input.mode_toggle_pressed {
                a.switched()
            } else {
                a
            };
            let c: CameraController = match b.mode {
                Mode::FreeFly => b.fly(input, clamp(dt, 0, DT_LIMIT)),
                Mode::Orbit => b.orbit(input),
            };
            proof {
                use_type_invariant(&c);
            }
            *self = c;
        }
        self.transform()
    }

    /// The state after a switch to the other mode.
    fn switched(self) -> (r: CameraController)
        ensures
            r@ == self@.switch_mode(),
    {
        proof {
            use_type_invariant(&self);
            lemma_switch_mode(self@);
        }
        match self.mode {
            Mode::Orbit => {
                match aim_closely(self.position, self.orbit_focus) {
                    Some((yaw, pitch)) => CameraController {
                        mode: Mode::FreeFly,
                        yaw,
                        pitch,
                        ..self
                    },
                    None => CameraController { mode: Mode::FreeFly, ..self },
                }
            },
            Mode::FreeFly => {
                let ahead: Vec3 = reach(self.yaw, self.pitch, self.orbit_distance);
                CameraController {
                    mode: Mode::Orbit,
                    orbit_focus: self.position.plus(ahead),
                    velocity: Vec3::zero(),
                    ..self
                }
            },
        }
    }

    /// The state after the mouse turned the view.
    fn turned(self, input: &InputSnapshot) -> (r: CameraController)
        ensures
            r@ == self@.look(*input),
    {
        proof {
            use_type_invariant(&self);
            lemma_look(self@, *input);
        }
        if self.cursor_locked {
            let dx: i64 = clamp(input.mouse_delta.x, -MOUSE_LIMIT, MOUSE_LIMIT);
            let dy: i64 = clamp(input.mouse_delta.y, -MOUSE_LIMIT, MOUSE_LIMIT);
            proof {
                lemma_mul_fx_bound(
                    dx as int,
                    self.sensitivity as int,
                    MOUSE_LIMIT as int,
                    SENSITIVITY_LIMIT as int,
                );
                lemma_mul_fx_bound(
                    dy as int,
                    self.sensitivity as int,
                    MOUSE_LIMIT as int,
                    SENSITIVITY_LIMIT as int,
                );
            }
            CameraController {
                yaw: wrap(self.yaw - fx_mul(dx, self.sensitivity)),
                pitch: clamp(self.pitch - fx_mul(dy, self.sensitivity), -PITCH_LIMIT, PITCH_LIMIT),
                ..self
            }
        } else {
            self
        }
    }

    /// The state after one tick of free flight.
    fn fly(self, input: &InputSnapshot, dt: i64) -> (r: CameraController)
        requires
            self@.mode == Mode::FreeFly,
            0 <= dt <= DT_LIMIT,
        ensures
            r@ == self@.fly(*input, dt as int),
    {
        proof {
            use_type_invariant(&self);
            lemma_fly(self@, *input, dt as int);
            lemma_look(self@, *input);
        }
        let turned: CameraController = self.turned(input);
        let axes: Vec3 = input.movement_axes.clamped(ONE);
        let dir: Vec3 = direction(turned.yaw, turned.pitch, axes);
        let speed: i64 = if input.run_modifier_held {
            turned.run_speed
        } else {
            turned.walk_speed
        };
        let velocity: Vec3 = if dir.x != 0 || dir.y != 0 || dir.z != 0 {
            proof {
                lemma_scaled_unit(dir@, speed as int);
            }
            dir.scaled(speed)
        } else {
            damped_exec(turned.velocity, turned.friction, dt)
        };
        proof {
            lemma_mul_fx_bound(velocity.x as int, dt as int, SPEED_LIMIT as int, DT_LIMIT as int);
            lemma_mul_fx_bound(velocity.y as int, dt as int, SPEED_LIMIT as int, DT_LIMIT as int);
            lemma_mul_fx_bound(velocity.z as int, dt as int, SPEED_LIMIT as int, DT_LIMIT as int);
        }
        let position: Vec3 = turned.position.plus(velocity.scaled(dt)).clamped(WORLD_LIMIT);
        CameraController { velocity, position, ..turned }
    }

    /// The state after one tick of orbiting.
    fn orbit(self, input: &InputSnapshot) -> (r: CameraController)
        ensures
            r@ == self@.orbit(*input),
    {
        proof {
            use_type_invariant(&self);
            lemma_orbit(self@, *input);
            lemma_look(self@, *input);
        }
        let turned: CameraController = self.turned(input);
        let scroll: i64 = clamp(input.scroll_delta, -SCROLL_LIMIT, SCROLL_LIMIT);
        proof {
            lemma_mul_fx_bound(
                scroll as int,
                turned.zoom_sensitivity as int,
                SCROLL_LIMIT as int,
                ZOOM_LIMIT as int,
            );
        }
        let distance: i64 = clamp(
            turned.orbit_distance - fx_mul(scroll, turned.zoom_sensitivity),
            turned.min_orbit_distance,
            turned.max_orbit_distance,
        );
        CameraController {
            orbit_distance: distance,
            position: orbit_position(turned.orbit_focus, turned.yaw, turned.pitch, distance),
            velocity: Vec3::zero(),
            ..turned
        }
    }
}

/// The view direction for the given angles, scaled to the length `distance`.
fn reach(yaw: i64, pitch: i64, distance: i64) -> (v: Vec3)
    requires
        0 <= distance <= DISTANCE_LIMIT,
    ensures
        v@ == forward_axis(yaw as int, pitch as int).scaled(distance as int),
        v@.within(distance as int),
{
    let r: Rotation = rotation(yaw, pitch);
    proof {
        lemma_scaled_unit(r.forward@, distance as int);
    }
    r.forward.scaled(distance)
}

/// Where a camera orbits `focus` at the radius `distance` with the given
/// view angles.
fn orbit_position(focus: Vec3, yaw: i64, pitch: i64, distance: i64) -> (p: Vec3)
    requires
        focus@.within(FOCUS_LIMIT as int),
        0 <= distance <= DISTANCE_LIMIT,
    ensures
        p@ == focus@.minus(forward_axis(yaw as int, pitch as int).scaled(distance as int)).clamped(
            WORLD_LIMIT as int,
        ),
{
    focus.minus(reach(yaw, pitch, distance)).clamped(WORLD_LIMIT)
}

/// The direction of motion that `axes` ask for.
fn direction(yaw: i64, pitch: i64, axes: Vec3) -> (d: Vec3)
    requires
        axes@.within(ONE as int),
    ensures
        d@ == desired_direction(yaw as int, pitch as int, axes@),
        d@.within(ONE as int),
{
    let r: Rotation = rotation(yaw, pitch);
    proof {
        lemma_scaled_by_unit(r.right@, axes.x as int, ONE as int);
        lemma_scaled_by_unit(r.up@, axes.y as int, ONE as int);
        lemma_scaled_by_unit(r.forward@, axes.z as int, ONE as int);
    }
    r.right.scaled(axes.x).plus(r.up.scaled(axes.y)).plus(r.forward.scaled(axes.z)).normalized()
}

} // verus!
