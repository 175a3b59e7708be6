//! The mathematical model of the camera controller: its state as unbounded
//! integers, and one tick of its update as a function from state and input to
//! state.
//!
//! In both modes `yaw` and `pitch` are the angles of the view direction. A
//! free-fly camera moves along the basis that the two angles span. An orbiting
//! camera sits `orbit_distance` behind `orbit_focus` along the view direction,
//! so that it always looks at the focus.

use vstd::prelude::*;
use crate::fixed::{ONE, ONE_SQUARED, clamp_int, mul_fx, trunc_div};
use crate::trig::{DEGREE, HALF_PI, PI, wrap_angle, sin_fx, cos_fx, atan2_fx, asin_fx};
use crate::vector::{Vec2, Vec3, V3};

verus! {

/// Coordinates of the camera's position stay within this distance of the
/// origin on every axis.
pub const WORLD_LIMIT: i64 = 1_000_000_000_000;

/// The largest orbit radius that can be configured.
pub const DISTANCE_LIMIT: i64 = 10_000_000_000;

/// The smallest orbit radius that can be configured: the camera never reaches
/// the focus.
pub const DISTANCE_FLOOR: i64 = 1_000;

/// Coordinates of the orbit focus stay within this distance of the origin.
pub const FOCUS_LIMIT: i64 = WORLD_LIMIT + DISTANCE_LIMIT;

/// The largest speed that can be configured, in units per second.
pub const SPEED_LIMIT: i64 = 1_000_000_000;

/// The largest friction that can be configured, per second.
pub const FRICTION_LIMIT: i64 = 1_000_000_000;

/// The largest look sensitivity that can be configured, in radians per device
/// unit.
pub const SENSITIVITY_LIMIT: i64 = 1_000_000;

/// The largest zoom sensitivity that can be configured, in units per scroll
/// step.
pub const ZOOM_LIMIT: i64 = 1_000_000_000;

/// Mouse motion beyond this many device units per tick is cut off.
pub const MOUSE_LIMIT: i64 = 1_000_000_000_000;

/// Scrolling beyond this many steps per tick is cut off.
pub const SCROLL_LIMIT: i64 = 1_000_000_000;

/// A tick longer than this many seconds is cut off.
pub const DT_LIMIT: i64 = 10_000_000;

/// The margin that the pitch keeps from straight up and straight down: one
/// degree.
pub const PITCH_MARGIN: i64 = DEGREE;

/// The largest magnitude of the pitch: a quarter turn less the margin.
pub const PITCH_LIMIT: i64 = HALF_PI - PITCH_MARGIN;

/// By how much the squared length of one of the camera's axes may fall short
/// of one, on the squared scale: what rounding takes from two sines, two
/// cosines and two products.
pub const AXIS_TOLERANCE: i64 = 8_000_004;

/// By how much the squared distance of an orbiting camera from its focus may
/// fall short of the squared radius `d`: the radius's share of
/// `AXIS_TOLERANCE`, and what rounding takes from three coordinates.
pub open spec fn sphere_tolerance(d: int) -> int {
    AXIS_TOLERANCE * (d * d) / (ONE_SQUARED as int) + 6 * d + 4
}

/// By how much the length of the way from an orbiting camera to its focus may
/// fall short of the radius `d`.
pub open spec fn radius_shortfall(d: int) -> int {
    sphere_tolerance(d) / d + 1
}

/// By how much each coordinate of the direction from an orbiting camera to
/// its focus may miss the view direction, at the radius `d`.
pub open spec fn direction_tolerance(d: int) -> int {
    1 + ONE * (1 + radius_shortfall(d)) / (d - radius_shortfall(d))
}

/// The two ways the camera moves.
#[derive(Clone, Copy, Debug, PartialEq, Eq, Structural)]
pub enum Mode {
    /// The camera turns and flies freely.
    FreeFly,
    /// The camera circles a focus point and looks at it.
    Orbit,
}

/// What the controller learns of the input devices for one tick.
#[derive(Clone, Copy, Debug, PartialEq, Eq, Structural)]
pub struct InputSnapshot {
    /// Requested motion along the camera's right (`x`), up (`y`) and forward
    /// (`z`) axes, each between minus one and one.
    pub movement_axes: Vec3,
    /// Mouse motion accumulated over the tick, in device units.
    pub mouse_delta: Vec2,
    /// Scrolling accumulated over the tick, in steps.
    pub scroll_delta: i64,
    /// The key that locks and frees the cursor went down during the tick.
    pub toggle_cursor_pressed: bool,
    /// The key that selects the running speed is held.
    pub run_modifier_held: bool,
    /// The key that switches between free flight and orbit went down during
    /// the tick.
    pub mode_toggle_pressed: bool,
}

impl InputSnapshot {
    /// The snapshot of a tick in which nothing happened.
    pub open spec fn idle() -> InputSnapshot {
        InputSnapshot {
            movement_axes: Vec3 { x: 0, y: 0, z: 0 },
            mouse_delta: Vec2 { x: 0, y: 0 },
            scroll_delta: 0,
            toggle_cursor_pressed: false,
            run_modifier_held: false,
            mode_toggle_pressed: false,
        }
    }
}

impl Default for InputSnapshot {
    fn default() -> (s: InputSnapshot)
        ensures
            s == InputSnapshot::idle(),
    {
        InputSnapshot {
            movement_axes: Vec3 { x: 0, y: 0, z: 0 },
            mouse_delta: Vec2 { x: 0, y: 0 },
            scroll_delta: 0,
            toggle_cursor_pressed: false,
            run_modifier_held: false,
            mode_toggle_pressed: false,
        }
    }
}

/// The model of the controller's state.
pub struct CameraModel {
    pub position: V3,
    pub yaw: int,
    pub pitch: int,
    pub velocity: V3,
    pub mode: Mode,
    pub orbit_focus: V3,
    pub orbit_distance: int,
    pub min_orbit_distance: int,
    pub max_orbit_distance: int,
    pub enabled: bool,
    pub cursor_locked: bool,
    pub walk_speed: int,
    pub run_speed: int,
    pub friction: int,
    pub sensitivity: int,
    pub zoom_sensitivity: int,
}

/// The model of an orientation: the camera's three axes in world
/// coordinates.
pub struct RotationModel {
    pub right: V3,
    pub up: V3,
    pub forward: V3,
}

/// The model of what a tick emits: where the camera is and how it is turned.
pub struct TransformModel {
    pub position: V3,
    pub rotation: RotationModel,
}

/// The view direction for the given angles. It is the positive z axis where
/// both angles are zero; a growing yaw turns it toward positive x, a growing
/// pitch toward positive y.
pub open spec fn forward_axis(yaw: int, pitch: int) -> V3 {
    V3 {
        x: mul_fx(sin_fx(yaw), cos_fx(pitch)),
        y: sin_fx(pitch),
        z: mul_fx(cos_fx(yaw), cos_fx(pitch)),
    }
}

/// The camera's right-hand direction. It is horizontal, and the negative x
/// axis where the yaw is zero.
pub open spec fn right_axis(yaw: int) -> V3 {
    V3 { x: -cos_fx(yaw), y: 0, z: sin_fx(yaw) }
}

/// The camera's upward direction: the positive y axis where the pitch is zero.
pub open spec fn up_axis(yaw: int, pitch: int) -> V3 {
    V3 {
        x: -mul_fx(sin_fx(yaw), sin_fx(pitch)),
        y: cos_fx(pitch),
        z: -mul_fx(cos_fx(yaw), sin_fx(pitch)),
    }
}

/// The orientation for the given angles.
pub open spec fn rotation_of(yaw: int, pitch: int) -> RotationModel {
    RotationModel {
        right: right_axis(yaw),
        up: up_axis(yaw, pitch),
        forward: forward_axis(yaw, pitch),
    }
}

/// What `dt` seconds of friction leave of one coordinate `v` of the
/// velocity: `v * (1 - friction * dt)`, with the product of friction and time
/// taken exactly and the result rounded toward zero; nothing where friction
/// times time is one or more.
pub open spec fn damped(v: int, friction: int, dt: int) -> int {
    let loss = friction * dt;
    if loss >= ONE_SQUARED {
        0
    } else {
        trunc_div(v * (ONE_SQUARED - loss), ONE_SQUARED as int)
    }
}

/// What `dt` seconds of friction leave of the velocity `v`.
pub open spec fn damped_velocity(v: V3, friction: int, dt: int) -> V3 {
    V3 { x: damped(v.x, friction, dt), y: damped(v.y, friction, dt), z: damped(v.z, friction, dt) }
}

/// The movement request of a snapshot with each axis limited to `[-1, 1]`.
pub open spec fn axes_of(input: InputSnapshot) -> V3 {
    input.movement_axes@.clamped(ONE as int)
}

/// The direction of motion that `axes` ask for, as a combination of the
/// camera's three axes, of length one; zero where the axes ask for none.
pub open spec fn desired_direction(yaw: int, pitch: int, axes: V3) -> V3 {
    right_axis(yaw).scaled(axes.x).plus(up_axis(yaw, pitch).scaled(axes.y)).plus(
        forward_axis(yaw, pitch).scaled(axes.z),
    ).normalized()
}

/// The yaw and pitch of the direction from `from` to `to`, or `None` where
/// the two points are too close to tell a direction.
pub open spec fn aim_angles(from: V3, to: V3) -> Option<(int, int)> {
    let dir = to.minus(from).normalized();
    if dir == V3::zero() {
        None
    } else {
        Some(
            (
                wrap_angle(atan2_fx(dir.x, dir.z)),
                clamp_int(asin_fx(dir.y), -(PITCH_LIMIT as int), PITCH_LIMIT as int),
            ),
        )
    }
}

/// By how much each coordinate of the view direction may miss the direction
/// that it was aimed along.
pub const VIEW_TOLERANCE: i64 = 100;

/// The angles of `aim_angles`, where the view direction that they give meets
/// the direction from `from` to `to` within `VIEW_TOLERANCE` on every
/// coordinate; `None` where the two points are the same or no such angles
/// were found, as where the direction is steeper than the pitch may be.
pub open spec fn view_angles(from: V3, to: V3) -> Option<(int, int)> {
    match aim_angles(from, to) {
        Some((yaw, pitch)) => if forward_axis(yaw, pitch).minus(
            to.minus(from).normalized(),
        ).within(VIEW_TOLERANCE as int) {
            Some((yaw, pitch))
        } else {
            None
        },
        None => None,
    }
}

impl CameraModel {
    /// The invariant of the controller's state.
    pub open spec fn wf(self) -> bool {
        &&& self.position.within(WORLD_LIMIT as int)
        &&& -PI <= self.yaw < PI
        &&& -PITCH_LIMIT <= self.pitch <= PITCH_LIMIT
        &&& self.velocity.within(SPEED_LIMIT as int)
        &&& (self.mode == Mode::Orbit ==> self.velocity == V3::zero())
        &&& self.orbit_focus.within(FOCUS_LIMIT as int)
        &&& DISTANCE_FLOOR <= self.min_orbit_distance <= self.max_orbit_distance
            <= DISTANCE_LIMIT
        &&& self.min_orbit_distance <= self.orbit_distance <= self.max_orbit_distance
        &&& 0 <= self.walk_speed <= SPEED_LIMIT
        &&& 0 <= self.run_speed <= SPEED_LIMIT
        &&& 0 <= self.friction <= FRICTION_LIMIT
        &&& 0 <= self.sensitivity <= SENSITIVITY_LIMIT
        &&& 0 <= self.zoom_sensitivity <= ZOOM_LIMIT
    }

    /// The state after the cursor key was handled: a press flips
    /// `cursor_locked`.
    pub open spec fn toggle_cursor(self, input: InputSnapshot) -> CameraModel {
        if input.toggle_cursor_pressed {
            CameraModel { cursor_locked: !self.cursor_locked, ..self }
        } else {
            self
        }
    }

    /// The state after the mouse turned the view: while the cursor is locked,
    /// yaw and pitch fall by the mouse motion times the sensitivity, the yaw
    /// wrapping around and the pitch stopping at its limit. While the cursor
    /// is free, nothing turns.
    pub open spec fn look(self, input: InputSnapshot) -> CameraModel {
        if self.cursor_locked {
            let dx = clamp_int(
                input.mouse_delta.x as int,
                -(MOUSE_LIMIT as int),
                MOUSE_LIMIT as int,
            );
            let dy = clamp_int(
                input.mouse_delta.y as int,
                -(MOUSE_LIMIT as int),
                MOUSE_LIMIT as int,
            );
            CameraModel {
                yaw: wrap_angle(self.yaw - mul_fx(dx, self.sensitivity)),
                pitch: clamp_int(
                    self.pitch - mul_fx(dy, self.sensitivity),
                    -(PITCH_LIMIT as int),
                    PITCH_LIMIT as int,
                ),
                ..self
            }
        } else {
            self
        }
    }

    /// The state after a switch to the other mode. The position stays.
    ///
    /// Leaving orbit, yaw and pitch become the angles of the direction from
    /// the position to the focus, so the camera keeps looking where it
    /// looked; where no angles meet that direction within `VIEW_TOLERANCE`,
    /// yaw and pitch stay as they are. Entering orbit, the focus is placed
    /// `orbit_distance` ahead of the camera along its view direction, and the
    /// camera comes to rest.
    pub open spec fn switch_mode(self) -> CameraModel {
        match self.mode {
            Mode::Orbit => {
                match view_angles(self.position, self.orbit_focus) {
                    Some((yaw, pitch)) => CameraModel { mode: Mode::FreeFly, yaw, pitch, ..self },
                    None => CameraModel { mode: Mode::FreeFly, ..self },
                }
            },
            Mode::FreeFly => CameraModel {
                mode: Mode::Orbit,
                orbit_focus: self.position.plus(
                    forward_axis(self.yaw, self.pitch).scaled(self.orbit_distance),
                ),
                velocity: V3::zero(),
                ..self
            },
        }
    }

    /// One tick of free flight over `dt` seconds, `0 <= dt <= DT_LIMIT`.
    ///
    /// The view turns with the mouse. Where the movement axes ask for a
    /// direction, the velocity becomes that direction at the walking or
    /// running speed; where they ask for none, friction takes its share of
    /// the velocity. The position then advances by the velocity over `dt`, and stops
    /// at the world's limit.
    pub open spec fn fly(self, input: InputSnapshot, dt: int) -> CameraModel {
        let turned = self.look(input);
        let dir = desired_direction(turned.yaw, turned.pitch, axes_of(input));
        let speed = if input.run_modifier_held {
            turned.run_speed
        } else {
            turned.walk_speed
        };
        let velocity = if dir != V3::zero() {
            dir.scaled(speed)
        } else {
            damped_velocity(turned.velocity, turned.friction, dt)
        };
        CameraModel {
            velocity,
            position: turned.position.plus(velocity.scaled(dt)).clamped(WORLD_LIMIT as int),
            ..turned
        }
    }

    /// One tick of orbiting.
    ///
    /// The view turns with the mouse, the radius falls by the scrolling times
    /// the zoom sensitivity and stops at its configured ends, and the camera
    /// is put at that radius behind the focus along the view direction.
    pub open spec fn orbit(self, input: InputSnapshot) -> CameraModel {
        let turned = self.look(input);
        let scroll = clamp_int(
            input.scroll_delta as int,
            -(SCROLL_LIMIT as int),
            SCROLL_LIMIT as int,
        );
        let distance = clamp_int(
            turned.orbit_distance - mul_fx(scroll, turned.zoom_sensitivity),
            turned.min_orbit_distance,
            turned.max_orbit_distance,
        );
        CameraModel {
            orbit_distance: distance,
            position: turned.orbit_focus.minus(
                forward_axis(turned.yaw, turned.pitch).scaled(distance),
            ).clamped(WORLD_LIMIT as int),
            velocity: V3::zero(),
            ..turned
        }
    }

    /// One tick of the controller over `dt` seconds.
    ///
    /// A disabled controller does not change. An enabled one handles the
    /// cursor key, then the mode key, then moves as its mode says. A `dt`
    /// outside `[0, DT_LIMIT]` counts as the nearer end.
    pub open spec fn step(self, input: InputSnapshot, dt: int) -> CameraModel {
        if !self.enabled {
            self
        } else {
            let a = self.toggle_cursor(input);
            let b = if input.mode_toggle_pressed {
                a.switch_mode()
            } else {
                a
            };
            match b.mode {
                Mode::FreeFly => b.fly(input, clamp_int(dt, 0, DT_LIMIT as int)),
                Mode::Orbit => b.orbit(input),
            }
        }
    }

    /// The transform that the state stands for.
    pub open spec fn transform(self) -> TransformModel {
        TransformModel { position: self.position, rotation: rotation_of(self.yaw, self.pitch) }
    }
}

} // verus!
