//! What holds of the controller's model on every input: the laws that callers
//! may rely on, each proved from the definitions in `model`.

use vstd::prelude::*;
use crate::fixed::{
    ONE, ONE_SQUARED, abs_int, clamp_int, div_fx, mul_fx, lemma_div_fx_error,
    lemma_isqrt_square, lemma_mul_fx_abs, lemma_mul_fx_error, lemma_mul_fx_square,
    lemma_mul_fx_unit, lemma_mul_fx_zero_one, lemma_square_monotonic,
};
use crate::trig::{
    PI, TWO_PI, wrap_angle, sin_fx, cos_fx, atan2_fx, lemma_cos_positive, lemma_sin_cos_range,
    lemma_sin_cos_zero, lemma_unit_circle,
};
use crate::vector::{V3, lemma_length_bounds, lemma_normalized_within, lemma_scaled_unit};
use crate::model::{
    CameraModel, InputSnapshot, Mode, AXIS_TOLERANCE, DT_LIMIT, MOUSE_LIMIT, PITCH_LIMIT,
    SCROLL_LIMIT, VIEW_TOLERANCE, WORLD_LIMIT, axes_of, damped, damped_velocity,
    desired_direction, direction_tolerance, forward_axis, radius_shortfall, right_axis,
    sphere_tolerance, up_axis,
};

verus! {

/// A run of ticks: each is an input snapshot and the seconds it lasted.
pub type Ticks = Seq<(InputSnapshot, int)>;

impl CameraModel {
    /// The state after a run of ticks, the first tick first.
    pub open spec fn run(self, ticks: Ticks) -> CameraModel
        decreases ticks.len(),
    {
        if ticks.len() == 0 {
            self
        } else {
            self.run(ticks.drop_last()).step(ticks.last().0, ticks.last().1)
        }
    }
}

/// The snapshot asks for no motion and reports no mouse motion.
pub open spec fn at_rest(input: InputSnapshot) -> bool {
    input.movement_axes@ == V3::zero() && input.mouse_delta.x == 0 && input.mouse_delta.y == 0
}

/// The snapshot asks for no motion, no turn and no zoom.
pub open spec fn quiet(input: InputSnapshot) -> bool {
    at_rest(input) && input.scroll_delta == 0
}

/// Every tick of the run is at rest and leaves the mode key alone.
pub open spec fn all_at_rest(ticks: Ticks) -> bool {
    forall|i: int|
        0 <= i < ticks.len() ==> at_rest(#[trigger] ticks[i].0) && !ticks[i].0.mode_toggle_pressed
}

/// Every tick of the run is at rest, leaves the mode key alone, and lasts at
/// least a millionth of a second.
pub open spec fn all_idle(ticks: Ticks) -> bool {
    forall|i: int|
        0 <= i < ticks.len() ==> {
            &&& at_rest(#[trigger] ticks[i].0)
            &&& !ticks[i].0.mode_toggle_pressed
            &&& ticks[i].1 >= 1
        }
}

/// Every tick of the run scrolls by `scroll` and leaves the mode key alone.
pub open spec fn all_scroll(ticks: Ticks, scroll: int) -> bool {
    forall|i: int|
        0 <= i < ticks.len() ==> {
            &&& (#[trigger] ticks[i].0).scroll_delta == scroll
            &&& !ticks[i].0.mode_toggle_pressed
        }
}

/// By how much one tick of scrolling by `scroll` shortens the orbit radius,
/// before the radius is held to its ends.
pub open spec fn zoom_step(m: CameraModel, scroll: int) -> int {
    mul_fx(clamp_int(scroll, -(SCROLL_LIMIT as int), SCROLL_LIMIT as int), m.zoom_sensitivity)
}

/// Wrapping leaves an angle of `[-PI, PI)` as it is, and puts any angle
/// there.
pub proof fn lemma_wrap_angle(a: int)
    ensures
        -PI <= wrap_angle(a) < PI,
        -PI <= a < PI ==> wrap_angle(a) == a,
{
    if -PI <= a < PI {
        assert((a + PI) % (TWO_PI as int) == a + PI);
    }
}

/// The camera's three axes have no coordinate beyond one.
pub proof fn lemma_axes_within(yaw: int, pitch: int)
    ensures
        forward_axis(yaw, pitch).within(ONE as int),
        right_axis(yaw).within(ONE as int),
        up_axis(yaw, pitch).within(ONE as int),
{
    lemma_sin_cos_range(yaw);
    lemma_sin_cos_range(pitch);
    lemma_mul_fx_unit(sin_fx(yaw), cos_fx(pitch));
    lemma_mul_fx_unit(cos_fx(yaw), cos_fx(pitch));
    lemma_mul_fx_unit(sin_fx(yaw), sin_fx(pitch));
    lemma_mul_fx_unit(cos_fx(yaw), sin_fx(pitch));
}

/// Turning the view keeps the state valid and touches nothing but yaw and
/// pitch; with no mouse motion it changes nothing.
pub proof fn lemma_look(m: CameraModel, input: InputSnapshot)
    requires
        m.wf(),
    ensures
        m.look(input).wf(),
        m.look(input) == (CameraModel {
            yaw: m.look(input).yaw,
            pitch: m.look(input).pitch,
            ..m
        }),
        input.mouse_delta.x == 0 ==> m.look(input).yaw == m.yaw,
        input.mouse_delta.y == 0 ==> m.look(input).pitch == m.pitch,
{
    if m.cursor_locked {
        lemma_mul_fx_zero_one(m.sensitivity);
        let dx = clamp_int(input.mouse_delta.x as int, -(MOUSE_LIMIT as int), MOUSE_LIMIT as int);
        lemma_wrap_angle(m.yaw - mul_fx(dx, m.sensitivity));
        lemma_wrap_angle(m.yaw);
    }
}

/// Switching the mode keeps the state valid and leaves the position where it
/// is.
pub proof fn lemma_switch_mode(m: CameraModel)
    requires
        m.wf(),
    ensures
        m.switch_mode().wf(),
        m.switch_mode().position == m.position,
        m.switch_mode().mode != m.mode,
        m.switch_mode().velocity == V3::zero(),
        m.switch_mode().orbit_distance == m.orbit_distance,
{
    match m.mode {
        Mode::Orbit => {
            let dir = m.orbit_focus.minus(m.position).normalized();
            lemma_wrap_angle(atan2_fx(dir.x, dir.z));
        },
        Mode::FreeFly => {
            lemma_axes_within(m.yaw, m.pitch);
            lemma_scaled_unit(forward_axis(m.yaw, m.pitch), m.orbit_distance);
        },
    }
}

/// Friction never grows a coordinate of the velocity and never turns its
/// sign. Wherever friction and time are both above zero, it strictly shrinks a
/// coordinate that is not zero. What is left, multiplied by friction and
/// time, is at most what was taken.
pub proof fn lemma_damped(v: int, friction: int, dt: int)
    requires
        0 <= friction,
        0 <= dt,
    ensures
        abs_int(damped(v, friction, dt)) <= abs_int(v),
        v >= 0 ==> damped(v, friction, dt) >= 0,
        v <= 0 ==> damped(v, friction, dt) <= 0,
        friction >= 1 && dt >= 1 && v != 0 ==> abs_int(damped(v, friction, dt)) < abs_int(v),
        friction * dt == 0 ==> damped(v, friction, dt) == v,
        abs_int(damped(v, friction, dt)) * (friction * dt) <= (abs_int(v) - abs_int(
            damped(v, friction, dt),
        )) * ONE_SQUARED,
{
    let s = ONE_SQUARED as int;
    let loss = friction * dt;
    assert(loss >= 0) by (nonlinear_arith)
        requires
            loss == friction * dt,
            0 <= friction,
            0 <= dt,
    ;
    assert(friction >= 1 && dt >= 1 ==> loss >= 1) by (nonlinear_arith)
        requires
            loss == friction * dt,
    ;
    let a = abs_int(v);
    let r = damped(v, friction, dt);
    if loss >= s {
        assert(0 * loss == 0 && a * s >= 0) by (nonlinear_arith)
            requires
                a >= 0,
                s > 0,
        ;
    } else {
        let k = s - loss;
        assert(v * k == a * k || v * k == -(a * k)) by (nonlinear_arith)
            requires
                a == v || a == -v,
        ;
        assert(a * k >= 0 && (v >= 0 ==> v * k >= 0) && (v <= 0 ==> v * k <= 0))
            by (nonlinear_arith)
            requires
                a >= 0,
                k > 0,
                a == v || a == -v,
        ;
        let q = (a * k) / s;
        assert(abs_int(r) == q);
        assert(q * s <= a * k && 0 <= q) by (nonlinear_arith)
            requires
                q == (a * k) / s,
                s > 0,
                a * k >= 0,
        ;
        assert(a * k == a * s - a * loss) by (nonlinear_arith)
            requires
                k == s - loss,
        ;
        assert(q <= a) by (nonlinear_arith)
            requires
                q * s <= a * s - a * loss,
                a >= 0,
                loss >= 0,
                s > 0,
        ;
        assert(q * loss <= a * loss) by (nonlinear_arith)
            requires
                0 <= q <= a,
                loss >= 0,
        ;
        assert((a - q) * s == a * s - q * s) by (nonlinear_arith);
        if loss >= 1 && v != 0 {
            assert(q < a) by (nonlinear_arith)
                requires
                    q * s <= a * s - a * loss,
                    a >= 1,
                    loss >= 1,
                    s > 0,
            ;
        }
        if loss == 0 {
            assert((a * s) / s == a) by (nonlinear_arith)
                requires
                    s > 0,
            ;
            assert(a * k == a * s);
        }
    }
}

/// The way that a velocity left by friction covers in the tick, multiplied by
/// the friction, is at most what the friction took of the velocity.
pub proof fn lemma_damped_way(v: int, friction: int, dt: int)
    requires
        0 <= friction,
        0 <= dt,
    ensures
        friction * abs_int(mul_fx(damped(v, friction, dt), dt)) <= (abs_int(v) - abs_int(
            damped(v, friction, dt),
        )) * ONE,
{
    lemma_damped(v, friction, dt);
    let r = abs_int(damped(v, friction, dt));
    let a = abs_int(v);
    lemma_mul_fx_abs(damped(v, friction, dt), dt);
    let w = abs_int(mul_fx(damped(v, friction, dt), dt));
    assert(w == (r * dt) / (ONE as int));
    assert(r * dt >= 0) by (nonlinear_arith)
        requires
            r >= 0,
            dt >= 0,
    ;
    assert(w * ONE <= r * dt && w >= 0);
    assert(friction * w * ONE <= (a - r) * (ONE * ONE)) by (nonlinear_arith)
        requires
            w * ONE <= r * dt,
            r * (friction * dt) <= (a - r) * ONE_SQUARED,
            ONE_SQUARED == ONE * ONE,
            friction >= 0,
            w >= 0,
    ;
    assert(friction * w <= (a - r) * ONE) by (nonlinear_arith)
        requires
            friction * w * ONE <= (a - r) * (ONE * ONE),
            ONE == 1_000_000,
    ;
}

/// A tick of free flight keeps the state valid.
pub proof fn lemma_fly(m: CameraModel, input: InputSnapshot, dt: int)
    requires
        m.wf(),
        m.mode == Mode::FreeFly,
        0 <= dt <= DT_LIMIT,
    ensures
        m.fly(input, dt).wf(),
        m.fly(input, dt).mode == Mode::FreeFly,
{
    lemma_look(m, input);
    let turned = m.look(input);
    let dir = desired_direction(turned.yaw, turned.pitch, axes_of(input));
    let raw = right_axis(turned.yaw).scaled(axes_of(input).x).plus(
        up_axis(turned.yaw, turned.pitch).scaled(axes_of(input).y),
    ).plus(forward_axis(turned.yaw, turned.pitch).scaled(axes_of(input).z));
    lemma_normalized_within(raw);
    let speed = if input.run_modifier_held {
        turned.run_speed
    } else {
        turned.walk_speed
    };
    lemma_scaled_unit(dir, speed);
    lemma_damped(turned.velocity.x, turned.friction, dt);
    lemma_damped(turned.velocity.y, turned.friction, dt);
    lemma_damped(turned.velocity.z, turned.friction, dt);
}

/// A tick of orbiting keeps the state valid.
pub proof fn lemma_orbit(m: CameraModel, input: InputSnapshot)
    requires
        m.wf(),
    ensures
        m.orbit(input).wf(),
        m.orbit(input).mode == m.mode,
{
    lemma_look(m, input);
}

/// Every tick keeps the state valid.
pub proof fn lemma_step_valid(m: CameraModel, input: InputSnapshot, dt: int)
    requires
        m.wf(),
    ensures
        m.step(input, dt).wf(),
{
    if m.enabled {
        let a = m.toggle_cursor(input);
        assert(a.wf());
        let b = if input.mode_toggle_pressed {
            a.switch_mode()
        } else {
            a
        };
        if input.mode_toggle_pressed {
            lemma_switch_mode(a);
        }
        match b.mode {
            Mode::FreeFly => lemma_fly(b, input, clamp_int(dt, 0, DT_LIMIT as int)),
            Mode::Orbit => lemma_orbit(b, input),
        }
    }
}

/// Whatever the inputs of a run of ticks were, the state after it is valid.
/// In particular the pitch keeps its margin from straight up and straight
/// down, and the orbit radius lies between its configured ends.
pub proof fn lemma_run_valid(m: CameraModel, ticks: Ticks)
    requires
        m.wf(),
    ensures
        m.run(ticks).wf(),
        -PITCH_LIMIT <= m.run(ticks).pitch <= PITCH_LIMIT,
        m.run(ticks).min_orbit_distance <= m.run(ticks).orbit_distance
            <= m.run(ticks).max_orbit_distance,
    decreases ticks.len(),
{
    if ticks.len() > 0 {
        lemma_run_valid(m, ticks.drop_last());
        lemma_step_valid(m.run(ticks.drop_last()), ticks.last().0, ticks.last().1);
    }
}

/// A valid state never looks straight up or straight down: the camera's up
/// axis points upward by at least a hundredth, so its orientation is never
/// undefined and never flips over.
pub proof fn lemma_never_vertical(m: CameraModel)
    requires
        m.wf(),
    ensures
        cos_fx(m.pitch) >= 10_000,
        m.transform().rotation.up.y >= 10_000,
{
    lemma_cos_positive(m.pitch);
}

/// A disabled controller is the same after a tick, whatever the input, and so
/// is the transform it stands for.
pub proof fn lemma_disabled_noop(m: CameraModel, input: InputSnapshot, dt: int)
    requires
        !m.enabled,
    ensures
        m.step(input, dt) == m,
        m.step(input, dt).transform() == m.transform(),
{
}

/// With no motion asked for, there is no direction to move in.
pub proof fn lemma_no_request(yaw: int, pitch: int)
    ensures
        desired_direction(yaw, pitch, V3::zero()) == V3::zero(),
{
    let r = right_axis(yaw);
    let u = up_axis(yaw, pitch);
    let f = forward_axis(yaw, pitch);
    lemma_mul_fx_zero_one(r.x);
    lemma_mul_fx_zero_one(r.y);
    lemma_mul_fx_zero_one(r.z);
    lemma_mul_fx_zero_one(u.x);
    lemma_mul_fx_zero_one(u.y);
    lemma_mul_fx_zero_one(u.z);
    lemma_mul_fx_zero_one(f.x);
    lemma_mul_fx_zero_one(f.y);
    lemma_mul_fx_zero_one(f.z);
    let raw = r.scaled(0).plus(u.scaled(0)).plus(f.scaled(0));
    assert(raw == V3::zero());
    lemma_normalized_within(raw);
}

/// A smaller magnitude has a smaller square.
pub proof fn lemma_square_order(a: int, b: int)
    requires
        abs_int(a) <= abs_int(b),
    ensures
        a * a <= b * b,
        abs_int(a) < abs_int(b) ==> a * a < b * b,
{
    let x = abs_int(a);
    let y = abs_int(b);
    assert(a * a == x * x && b * b == y * y) by (nonlinear_arith)
        requires
            x == a || x == -a,
            y == b || y == -b,
    ;
    assert(x * x <= y * y && (x < y ==> x * x < y * y)) by (nonlinear_arith)
        requires
            0 <= x <= y,
    ;
}

/// In free flight, a tick with no motion asked for and no mouse motion leaves
/// the view as it is, lets friction take its share of the velocity, and
/// advances the camera by what velocity is left. No coordinate of the
/// velocity grows or turns its sign. Wherever the friction is not zero and the
/// tick lasts at least a millionth of a second, a velocity that is not zero
/// becomes strictly smaller.
pub proof fn lemma_idle_tick(m: CameraModel, input: InputSnapshot, dt: int)
    requires
        m.wf(),
        m.enabled,
        m.mode == Mode::FreeFly,
        !input.mode_toggle_pressed,
        at_rest(input),
    ensures
        ({
            let n = m.step(input, dt);
            let t = clamp_int(dt, 0, DT_LIMIT as int);
            &&& n.wf()
            &&& n.enabled
            &&& n.mode == Mode::FreeFly
            &&& n.friction == m.friction
            &&& n.yaw == m.yaw
            &&& n.pitch == m.pitch
            &&& n.velocity == damped_velocity(m.velocity, m.friction, t)
            &&& n.position == m.position.plus(n.velocity.scaled(t)).clamped(WORLD_LIMIT as int)
            &&& abs_int(n.velocity.x) <= abs_int(m.velocity.x)
            &&& abs_int(n.velocity.y) <= abs_int(m.velocity.y)
            &&& abs_int(n.velocity.z) <= abs_int(m.velocity.z)
            &&& (m.velocity.x >= 0 ==> n.velocity.x >= 0) && (m.velocity.x <= 0 ==> n.velocity.x
                <= 0)
            &&& (m.velocity.y >= 0 ==> n.velocity.y >= 0) && (m.velocity.y <= 0 ==> n.velocity.y
                <= 0)
            &&& (m.velocity.z >= 0 ==> n.velocity.z >= 0) && (m.velocity.z <= 0 ==> n.velocity.z
                <= 0)
            &&& (m.friction >= 1 && dt >= 1 && m.velocity != V3::zero() ==> {
                &&& n.velocity.taxicab() < m.velocity.taxicab()
                &&& n.velocity.norm_sq() < m.velocity.norm_sq()
            })
            &&& (m.velocity == V3::zero() ==> n.velocity == V3::zero() && n.position
                == m.position)
            &&& m.friction * abs_int(n.position.x - m.position.x) <= (abs_int(m.velocity.x)
                - abs_int(n.velocity.x)) * ONE
            &&& m.friction * abs_int(n.position.y - m.position.y) <= (abs_int(m.velocity.y)
                - abs_int(n.velocity.y)) * ONE
            &&& m.friction * abs_int(n.position.z - m.position.z) <= (abs_int(m.velocity.z)
                - abs_int(n.velocity.z)) * ONE
        }),
{
    let t = clamp_int(dt, 0, DT_LIMIT as int);
    let a = m.toggle_cursor(input);
    lemma_look(a, input);
    let turned = a.look(input);
    lemma_no_request(turned.yaw, turned.pitch);
    assert(axes_of(input) == V3::zero());
    lemma_fly(a, input, t);
    let v = m.velocity;
    let n = m.step(input, dt);
    assert(n.velocity == damped_velocity(v, m.friction, t));
    lemma_damped(v.x, m.friction, t);
    lemma_damped(v.y, m.friction, t);
    lemma_damped(v.z, m.friction, t);
    lemma_damped_way(v.x, m.friction, t);
    lemma_damped_way(v.y, m.friction, t);
    lemma_damped_way(v.z, m.friction, t);
    lemma_square_order(n.velocity.x, v.x);
    lemma_square_order(n.velocity.y, v.y);
    lemma_square_order(n.velocity.z, v.z);
    lemma_mul_fx_zero_one(t);
    lemma_clamped_way(m.position.x, mul_fx(n.velocity.x, t), m.friction);
    lemma_clamped_way(m.position.y, mul_fx(n.velocity.y, t), m.friction);
    lemma_clamped_way(m.position.z, mul_fx(n.velocity.z, t), m.friction);
}

/// A step that the world's limit cuts short is no longer than the step.
proof fn lemma_clamped_way(p: int, step: int, friction: int)
    requires
        -WORLD_LIMIT <= p <= WORLD_LIMIT,
        0 <= friction,
    ensures
        abs_int(clamp_int(p + step, -(WORLD_LIMIT as int), WORLD_LIMIT as int) - p) <= abs_int(
            step,
        ),
        friction * abs_int(clamp_int(p + step, -(WORLD_LIMIT as int), WORLD_LIMIT as int) - p)
            <= friction * abs_int(step),
{
    let w = abs_int(clamp_int(p + step, -(WORLD_LIMIT as int), WORLD_LIMIT as int) - p);
    let s = abs_int(step);
    assert(friction * w <= friction * s) by (nonlinear_arith)
        requires
            0 <= w <= s,
            0 <= friction,
    ;
}

/// Over a run of idle ticks in free flight with a friction that is not zero,
/// the velocity loses at least a millionth of a unit per second each tick
/// until it is zero, so a run at least as long as the sum of the velocity's
/// magnitudes ends at rest.
pub proof fn lemma_idle_run(m: CameraModel, ticks: Ticks)
    requires
        m.wf(),
        m.enabled,
        m.mode == Mode::FreeFly,
        m.friction >= 1,
        all_idle(ticks),
    ensures
        ({
            let e = m.run(ticks);
            &&& e.wf()
            &&& e.enabled
            &&& e.mode == Mode::FreeFly
            &&& e.friction == m.friction
            &&& e.velocity.taxicab() <= m.velocity.taxicab()
            &&& e.velocity.norm_sq() <= m.velocity.norm_sq()
            &&& e.velocity.taxicab() + ticks.len() <= m.velocity.taxicab() || e.velocity
                == V3::zero()
            &&& (ticks.len() >= m.velocity.taxicab() ==> e.velocity == V3::zero())
        }),
    decreases ticks.len(),
{
    if ticks.len() > 0 {
        let before = ticks.drop_last();
        assert forall|i: int| 0 <= i < before.len() implies {
            &&& at_rest(#[trigger] before[i].0)
            &&& !before[i].0.mode_toggle_pressed
            &&& before[i].1 >= 1
        } by {
            assert(before[i] == ticks[i]);
        }
        lemma_idle_run(m, before);
        let last = ticks.last();
        assert(last == ticks[ticks.len() - 1]);
        lemma_idle_tick(m.run(before), last.0, last.1);
    }
}

/// However long a free-fly camera coasts with no motion asked for, along each
/// axis it covers no more than its speed along that axis divided by the
/// friction: friction times the way covered is at most what the velocity has
/// lost. The ticks may be of any length.
pub proof fn lemma_idle_way(m: CameraModel, ticks: Ticks)
    requires
        m.wf(),
        m.enabled,
        m.mode == Mode::FreeFly,
        all_at_rest(ticks),
    ensures
        ({
            let e = m.run(ticks);
            &&& e.wf()
            &&& e.enabled
            &&& e.mode == Mode::FreeFly
            &&& e.friction == m.friction
            &&& abs_int(e.velocity.x) <= abs_int(m.velocity.x)
            &&& abs_int(e.velocity.y) <= abs_int(m.velocity.y)
            &&& abs_int(e.velocity.z) <= abs_int(m.velocity.z)
            &&& m.friction * abs_int(e.position.x - m.position.x) <= (abs_int(m.velocity.x)
                - abs_int(e.velocity.x)) * ONE
            &&& m.friction * abs_int(e.position.y - m.position.y) <= (abs_int(m.velocity.y)
                - abs_int(e.velocity.y)) * ONE
            &&& m.friction * abs_int(e.position.z - m.position.z) <= (abs_int(m.velocity.z)
                - abs_int(e.velocity.z)) * ONE
            &&& (m.friction >= 1 ==> {
                &&& abs_int(e.position.x - m.position.x) <= abs_int(m.velocity.x) * ONE
                    / m.friction
                &&& abs_int(e.position.y - m.position.y) <= abs_int(m.velocity.y) * ONE
                    / m.friction
                &&& abs_int(e.position.z - m.position.z) <= abs_int(m.velocity.z) * ONE
                    / m.friction
            })
        }),
    decreases ticks.len(),
{
    if ticks.len() > 0 {
        let before = ticks.drop_last();
        assert forall|i: int| 0 <= i < before.len() implies at_rest(#[trigger] before[i].0)
            && !before[i].0.mode_toggle_pressed by {
            assert(before[i] == ticks[i]);
        }
        lemma_idle_way(m, before);
        let last = ticks.last();
        assert(last == ticks[ticks.len() - 1]);
        let b = m.run(before);
        lemma_idle_tick(b, last.0, last.1);
        let e = m.run(ticks);
        let f = m.friction;
        let (at0, at1, at2) = (m.position, b.position, e.position);
        let (v0, v1, v2) = (m.velocity, b.velocity, e.velocity);
        lemma_way_adds(f, at0.x, at1.x, at2.x, v0.x, v1.x, v2.x);
        lemma_way_adds(f, at0.y, at1.y, at2.y, v0.y, v1.y, v2.y);
        lemma_way_adds(f, at0.z, at1.z, at2.z, v0.z, v1.z, v2.z);
    } else {
        assert(m.friction * 0 == 0) by (nonlinear_arith);
    }
    let e = m.run(ticks);
    if m.friction >= 1 {
        let f = m.friction;
        let (at0, at2) = (m.position, e.position);
        let (v0, v2) = (m.velocity, e.velocity);
        lemma_way_bound(f, abs_int(at2.x - at0.x), abs_int(v0.x), abs_int(v2.x));
        lemma_way_bound(f, abs_int(at2.y - at0.y), abs_int(v0.y), abs_int(v2.y));
        lemma_way_bound(f, abs_int(at2.z - at0.z), abs_int(v0.z), abs_int(v2.z));
    }
}

/// Two stretches of way, each paid for by a loss of velocity, add up to a way
/// paid for by the whole loss.
proof fn lemma_way_adds(f: int, at0: int, at1: int, at2: int, v0: int, v1: int, v2: int)
    requires
        0 <= f,
        f * abs_int(at1 - at0) <= (abs_int(v0) - abs_int(v1)) * ONE,
        f * abs_int(at2 - at1) <= (abs_int(v1) - abs_int(v2)) * ONE,
    ensures
        f * abs_int(at2 - at0) <= (abs_int(v0) - abs_int(v2)) * ONE,
{
    let a = abs_int(at1 - at0);
    let b = abs_int(at2 - at1);
    let c = abs_int(at2 - at0);
    assert(c <= a + b);
    assert(f * c <= f * a + f * b) by (nonlinear_arith)
        requires
            0 <= f,
            0 <= c <= a + b,
    ;
}

/// A way whose product with the friction is at most a loss of velocity is at
/// most the first velocity divided by the friction.
proof fn lemma_way_bound(f: int, way: int, v0: int, v1: int)
    requires
        f >= 1,
        0 <= way,
        0 <= v1 <= v0,
        f * way <= (v0 - v1) * ONE,
    ensures
        way <= v0 * ONE / f,
{
    assert(way <= (v0 * ONE) / f) by (nonlinear_arith)
        requires
            f >= 1,
            0 <= way,
            0 <= v1 <= v0,
            f * way <= (v0 - v1) * ONE,
            ONE == 1_000_000,
    ;
}

/// A free-fly camera at rest does not drift: ticks with no motion asked for,
/// however many and however long, leave it exactly where it is and looking
/// where it looked.
pub proof fn lemma_rest_is_fixed(m: CameraModel, ticks: Ticks)
    requires
        m.wf(),
        m.enabled,
        m.mode == Mode::FreeFly,
        m.velocity == V3::zero(),
        all_at_rest(ticks),
    ensures
        m.run(ticks).position == m.position,
        m.run(ticks).velocity == V3::zero(),
        m.run(ticks).yaw == m.yaw,
        m.run(ticks).pitch == m.pitch,
        m.run(ticks).mode == Mode::FreeFly,
        m.run(ticks).enabled,
        m.run(ticks).wf(),
    decreases ticks.len(),
{
    if ticks.len() > 0 {
        let before = ticks.drop_last();
        assert forall|i: int| 0 <= i < before.len() implies at_rest(#[trigger] before[i].0)
            && !before[i].0.mode_toggle_pressed by {
            assert(before[i] == ticks[i]);
        }
        lemma_rest_is_fixed(m, before);
        let last = ticks.last();
        assert(last == ticks[ticks.len() - 1]);
        lemma_idle_tick(m.run(before), last.0, last.1);
    }
}

/// From orbit, a tick that only presses the mode key puts the camera in free
/// flight, a second such tick puts it back in orbit, and the position after
/// each is the position before the first.
pub proof fn lemma_mode_round_trip(
    m: CameraModel,
    first: InputSnapshot,
    dt1: int,
    second: InputSnapshot,
    dt2: int,
)
    requires
        m.wf(),
        m.mode == Mode::Orbit,
        quiet(first),
        first.mode_toggle_pressed,
        quiet(second),
        second.mode_toggle_pressed,
    ensures
        m.enabled ==> m.step(first, dt1).mode == Mode::FreeFly,
        m.step(first, dt1).position == m.position,
        m.enabled ==> m.step(first, dt1).step(second, dt2).mode == Mode::Orbit,
        m.step(first, dt1).step(second, dt2).position == m.position,
        m.step(first, dt1).step(second, dt2).orbit_distance == m.orbit_distance,
{
    if m.enabled {
        lemma_leave_orbit(m, first, dt1);
        lemma_enter_orbit(m.step(first, dt1), second, dt2);
    }
}

/// Leaving orbit on a quiet tick keeps the position and leaves the camera at
/// rest.
pub proof fn lemma_leave_orbit(m: CameraModel, input: InputSnapshot, dt: int)
    requires
        m.wf(),
        m.enabled,
        m.mode == Mode::Orbit,
        quiet(input),
        input.mode_toggle_pressed,
    ensures
        m.step(input, dt).wf(),
        m.step(input, dt).enabled,
        m.step(input, dt).mode == Mode::FreeFly,
        m.step(input, dt).position == m.position,
        m.step(input, dt).velocity == V3::zero(),
        m.step(input, dt).orbit_distance == m.orbit_distance,
{
    let t = clamp_int(dt, 0, DT_LIMIT as int);
    let a = m.toggle_cursor(input);
    lemma_switch_mode(a);
    let b = a.switch_mode();
    lemma_look(b, input);
    let turned = b.look(input);
    lemma_no_request(turned.yaw, turned.pitch);
    assert(axes_of(input) == V3::zero());
    lemma_fly(b, input, t);
    lemma_damped(0, b.friction, t);
    lemma_mul_fx_zero_one(t);
}

/// Entering orbit on a quiet tick keeps the position and the radius.
pub proof fn lemma_enter_orbit(m: CameraModel, input: InputSnapshot, dt: int)
    requires
        m.wf(),
        m.enabled,
        m.mode == Mode::FreeFly,
        quiet(input),
        input.mode_toggle_pressed,
    ensures
        m.step(input, dt).wf(),
        m.step(input, dt).mode == Mode::Orbit,
        m.step(input, dt).position == m.position,
        m.step(input, dt).orbit_distance == m.orbit_distance,
{
    let a = m.toggle_cursor(input);
    lemma_switch_mode(a);
    let b = a.switch_mode();
    lemma_look(b, input);
    lemma_orbit(b, input);
    lemma_mul_fx_zero_one(b.zoom_sensitivity);
}

/// A tick that ends in orbit shortens the radius by the scrolling times the
/// zoom sensitivity and holds it between its configured ends.
pub proof fn lemma_zoom_tick(m: CameraModel, input: InputSnapshot, dt: int)
    requires
        m.wf(),
        m.enabled,
        (m.mode == Mode::Orbit) != input.mode_toggle_pressed,
    ensures
        ({
            let n = m.step(input, dt);
            &&& n.wf()
            &&& n.enabled
            &&& n.mode == Mode::Orbit
            &&& n.zoom_sensitivity == m.zoom_sensitivity
            &&& n.min_orbit_distance == m.min_orbit_distance
            &&& n.max_orbit_distance == m.max_orbit_distance
            &&& n.orbit_distance == clamp_int(
                m.orbit_distance - zoom_step(m, input.scroll_delta as int),
                m.min_orbit_distance,
                m.max_orbit_distance,
            )
        }),
{
    let a = m.toggle_cursor(input);
    let b = if input.mode_toggle_pressed {
        a.switch_mode()
    } else {
        a
    };
    if input.mode_toggle_pressed {
        lemma_switch_mode(a);
    }
    lemma_look(b, input);
    lemma_orbit(b, input);
}

/// Scrolling by the same amount tick after tick moves the radius by one zoom
/// step per tick until it reaches the end of its range on that side, and no
/// further. Scrolling forward (a positive amount) ends at the smallest
/// radius, scrolling back at the largest.
pub proof fn lemma_zoom_run(m: CameraModel, ticks: Ticks, scroll: i64)
    requires
        m.wf(),
        m.enabled,
        m.mode == Mode::Orbit,
        all_scroll(ticks, scroll as int),
    ensures
        ({
            let e = m.run(ticks);
            let step = zoom_step(m, scroll as int);
            &&& e.wf()
            &&& e.enabled
            &&& e.mode == Mode::Orbit
            &&& e.zoom_sensitivity == m.zoom_sensitivity
            &&& e.min_orbit_distance == m.min_orbit_distance
            &&& e.max_orbit_distance == m.max_orbit_distance
            &&& e.orbit_distance == clamp_int(
                m.orbit_distance - ticks.len() * step,
                m.min_orbit_distance,
                m.max_orbit_distance,
            )
            &&& (step > 0 && ticks.len() * step >= m.orbit_distance - m.min_orbit_distance
                ==> e.orbit_distance == m.min_orbit_distance)
            &&& (step < 0 && ticks.len() * (-step) >= m.max_orbit_distance - m.orbit_distance
                ==> e.orbit_distance == m.max_orbit_distance)
        }),
    decreases ticks.len(),
{
    let step = zoom_step(m, scroll as int);
    if ticks.len() > 0 {
        let before = ticks.drop_last();
        assert forall|i: int| 0 <= i < before.len() implies {
            &&& (#[trigger] before[i].0).scroll_delta == scroll
            &&& !before[i].0.mode_toggle_pressed
        } by {
            assert(before[i] == ticks[i]);
        }
        lemma_zoom_run(m, before, scroll);
        let last = ticks.last();
        assert(last == ticks[ticks.len() - 1]);
        lemma_zoom_tick(m.run(before), last.0, last.1);
        let n = before.len() as int;
        assert((n + 1) * step == n * step + step) by (nonlinear_arith);
        assert(step >= 0 ==> n * step >= 0) by (nonlinear_arith)
            requires
                n >= 0,
        ;
        assert(step <= 0 ==> n * step <= 0) by (nonlinear_arith)
            requires
                n >= 0,
        ;
        assert(ticks.len() * (-step) == -(ticks.len() * step)) by (nonlinear_arith);
    } else {
        assert(0 * step == 0) by (nonlinear_arith);
        assert(0 * (-step) == 0) by (nonlinear_arith);
    }
}

/// An orbiting camera looks at its focus from its radius: whatever the input,
/// a tick that ends in orbit leaves the camera at rest at the point that lies
/// the radius behind the focus along the view direction, or where the world's
/// limit holds that point.
pub proof fn lemma_orbit_placement(m: CameraModel, input: InputSnapshot, dt: int)
    requires
        m.wf(),
        m.enabled,
        (m.mode == Mode::Orbit) != input.mode_toggle_pressed,
    ensures
        ({
            let n = m.step(input, dt);
            &&& n.mode == Mode::Orbit
            &&& n.velocity == V3::zero()
            &&& n.position == n.orbit_focus.minus(
                forward_axis(n.yaw, n.pitch).scaled(n.orbit_distance),
            ).clamped(WORLD_LIMIT as int)
            &&& forward_axis(n.yaw, n.pitch).scaled(n.orbit_distance).within(n.orbit_distance)
        }),
{
    lemma_zoom_tick(m, input, dt);
    let n = m.step(input, dt);
    lemma_axes_within(n.yaw, n.pitch);
    lemma_scaled_unit(forward_axis(n.yaw, n.pitch), n.orbit_distance);
}

/// An orbiting camera does not drift: once a tick has placed it, a quiet tick
/// leaves it exactly there.
pub proof fn lemma_orbit_rest(
    m: CameraModel,
    first: InputSnapshot,
    dt1: int,
    second: InputSnapshot,
    dt2: int,
)
    requires
        m.wf(),
        m.enabled,
        (m.mode == Mode::Orbit) != first.mode_toggle_pressed,
        quiet(second),
        !second.mode_toggle_pressed,
    ensures
        m.step(first, dt1).step(second, dt2).position == m.step(first, dt1).position,
        m.step(first, dt1).step(second, dt2).velocity == V3::zero(),
        m.step(first, dt1).step(second, dt2).orbit_distance == m.step(first, dt1).orbit_distance,
{
    lemma_orbit_placement(m, first, dt1);
    lemma_zoom_tick(m, first, dt1);
    let n = m.step(first, dt1);
    let a = n.toggle_cursor(second);
    lemma_look(a, second);
    lemma_orbit(a, second);
    lemma_mul_fx_zero_one(a.zoom_sensitivity);
}

/// Where yaw and pitch are zero the camera looks along the positive z axis,
/// with the positive y axis up and the negative x axis to its right.
pub proof fn lemma_axes_at_rest()
    ensures
        forward_axis(0, 0) == (V3 { x: 0, y: 0, z: ONE as int }),
        up_axis(0, 0) == (V3 { x: 0, y: ONE as int, z: 0 }),
        right_axis(0) == (V3 { x: -(ONE as int), y: 0, z: 0 }),
{
    lemma_sin_cos_zero();
    lemma_mul_fx_zero_one(ONE as int);
    lemma_mul_fx_zero_one(0);
}

/// A free-fly camera with yaw and pitch at zero that is asked to move
/// straight ahead, with no mouse motion, moves along the positive z axis at
/// its walking or running speed.
pub proof fn lemma_walk_forward(m: CameraModel, input: InputSnapshot, dt: int)
    requires
        m.wf(),
        m.enabled,
        m.mode == Mode::FreeFly,
        !input.mode_toggle_pressed,
        m.yaw == 0,
        m.pitch == 0,
        input.mouse_delta.x == 0,
        input.mouse_delta.y == 0,
        input.movement_axes@ == (V3 { x: 0, y: 0, z: ONE as int }),
    ensures
        ({
            let n = m.step(input, dt);
            let speed = if input.run_modifier_held {
                m.run_speed
            } else {
                m.walk_speed
            };
            &&& n.yaw == 0
            &&& n.pitch == 0
            &&& n.velocity == V3 { x: 0, y: 0, z: speed }
            &&& n.position == m.position.plus(
                V3 { x: 0, y: 0, z: mul_fx(speed, clamp_int(dt, 0, DT_LIMIT as int)) },
            ).clamped(WORLD_LIMIT as int)
        }),
{
    let t = clamp_int(dt, 0, DT_LIMIT as int);
    let a = m.toggle_cursor(input);
    lemma_look(a, input);
    let turned = a.look(input);
    lemma_axes_at_rest();
    let r = right_axis(0);
    let u = up_axis(0, 0);
    let f = forward_axis(0, 0);
    lemma_mul_fx_zero_one(r.x);
    lemma_mul_fx_zero_one(r.y);
    lemma_mul_fx_zero_one(u.x);
    lemma_mul_fx_zero_one(u.y);
    lemma_mul_fx_zero_one(0);
    lemma_mul_fx_zero_one(ONE as int);
    let axes = axes_of(input);
    assert(axes == V3 { x: 0, y: 0, z: ONE as int });
    let raw = r.scaled(axes.x).plus(u.scaled(axes.y)).plus(f.scaled(axes.z));
    assert(raw == V3 { x: 0, y: 0, z: ONE as int });
    assert(raw.norm_sq() == ONE * ONE);
    lemma_isqrt_square(ONE as int);
    assert(raw.length() == ONE);
    assert((ONE * ONE) / (ONE as int) == ONE);
    assert((0 * ONE) / (ONE as int) == 0);
    let dir = raw.normalized();
    assert(dir == V3 { x: 0, y: 0, z: ONE as int });
    let speed = if input.run_modifier_held {
        m.run_speed
    } else {
        m.walk_speed
    };
    lemma_mul_fx_zero_one(speed);
    lemma_mul_fx_zero_one(t);
}

/// The view direction has the length one: the square of its length falls
/// short of one by at most `AXIS_TOLERANCE` of the squared scale, and never
/// exceeds one.
pub proof fn lemma_forward_length(yaw: int, pitch: int)
    ensures
        ONE_SQUARED - AXIS_TOLERANCE <= forward_axis(yaw, pitch).norm_sq() <= ONE_SQUARED,
{
    let a = sin_fx(yaw);
    let b = cos_fx(yaw);
    let c = sin_fx(pitch);
    let d = cos_fx(pitch);
    lemma_unit_circle(yaw);
    lemma_unit_circle(pitch);
    lemma_sin_cos_range(yaw);
    lemma_sin_cos_range(pitch);
    let x = mul_fx(a, d);
    let z = mul_fx(b, d);
    lemma_mul_fx_square(a, d);
    lemma_mul_fx_square(b, d);
    lemma_mul_fx_unit(a, d);
    lemma_mul_fx_unit(b, d);
    assert(0 <= d * d <= ONE * ONE) by (nonlinear_arith)
        requires
            -ONE <= d <= ONE,
    ;
    lemma_product_of_circle(a * a, b * b, d * d, x * x, z * z, abs_int(x), abs_int(z));
}

/// Two squares that add up to about one, each multiplied by a third square
/// and rounded, add up to about the third square.
proof fn lemma_product_of_circle(a2: int, b2: int, d2: int, x2: int, z2: int, x: int, z: int)
    requires
        ONE_SQUARED - 2 * ONE - 1 <= a2 + b2 <= ONE_SQUARED,
        0 <= d2 <= ONE_SQUARED,
        0 <= x <= ONE,
        0 <= z <= ONE,
        x2 * ONE_SQUARED <= a2 * d2,
        a2 * d2 <= (x2 + 2 * x + 1) * ONE_SQUARED,
        z2 * ONE_SQUARED <= b2 * d2,
        b2 * d2 <= (z2 + 2 * z + 1) * ONE_SQUARED,
    ensures
        d2 - 6 * ONE - 3 <= x2 + z2 <= d2,
{
    let s = ONE_SQUARED as int;
    assert((a2 + b2) * d2 == a2 * d2 + b2 * d2) by (nonlinear_arith);
    assert((a2 + b2) * d2 <= s * d2) by (nonlinear_arith)
        requires
            a2 + b2 <= s,
            0 <= d2,
    ;
    assert(x2 + z2 <= d2) by (nonlinear_arith)
        requires
            x2 * s + z2 * s <= s * d2,
            s == 1_000_000_000_000,
    ;
    assert((a2 + b2) * d2 >= (s - 2 * ONE - 1) * d2) by (nonlinear_arith)
        requires
            a2 + b2 >= s - 2 * ONE - 1,
            0 <= d2,
    ;
    assert((s - 2 * ONE - 1) * d2 >= s * d2 - (2 * ONE + 1) * s) by (nonlinear_arith)
        requires
            0 <= d2 <= s,
            ONE == 1_000_000,
            s == 1_000_000_000_000,
    ;
    assert((x2 + 2 * x + 1) * s + (z2 + 2 * z + 1) * s <= (x2 + z2 + 4 * ONE + 2) * s)
        by (nonlinear_arith)
        requires
            0 <= x <= ONE,
            0 <= z <= ONE,
            s == 1_000_000_000_000,
    ;
    assert(d2 - (2 * ONE + 1) <= x2 + z2 + 4 * ONE + 2) by (nonlinear_arith)
        requires
            s * d2 - (2 * ONE + 1) * s <= (x2 + z2 + 4 * ONE + 2) * s,
            s == 1_000_000_000_000,
    ;
}

/// A vector of about the length one, scaled to the length `d`, has about the
/// length `d`: the square of its length never exceeds the square of `d` and
/// falls short of it by at most `sphere_tolerance(d)`.
pub proof fn lemma_scaled_length(f: V3, d: int)
    requires
        f.within(ONE as int),
        ONE_SQUARED - AXIS_TOLERANCE <= f.norm_sq() <= ONE_SQUARED,
        0 <= d,
    ensures
        d * d - sphere_tolerance(d) <= f.scaled(d).norm_sq() <= d * d,
{
    let o = f.scaled(d);
    lemma_mul_fx_square(f.x, d);
    lemma_mul_fx_square(f.y, d);
    lemma_mul_fx_square(f.z, d);
    lemma_mul_fx_unit(d, f.x);
    lemma_mul_fx_unit(d, f.y);
    lemma_mul_fx_unit(d, f.z);
    let s = ONE_SQUARED as int;
    let d2 = d * d;
    let n = o.norm_sq();
    let fx2 = f.x * f.x;
    let fy2 = f.y * f.y;
    let fz2 = f.z * f.z;
    assert(d2 >= 0) by (nonlinear_arith)
        requires
            d2 == d * d,
    ;
    assert((fx2 + fy2 + fz2) * d2 == fx2 * d2 + fy2 * d2 + fz2 * d2) by (nonlinear_arith);
    assert((fx2 + fy2 + fz2) * d2 <= s * d2) by (nonlinear_arith)
        requires
            fx2 + fy2 + fz2 <= s,
            0 <= d2,
    ;
    assert(n <= d2) by (nonlinear_arith)
        requires
            n * s <= s * d2,
            s == 1_000_000_000_000,
    ;
    assert((fx2 + fy2 + fz2) * d2 >= (s - AXIS_TOLERANCE) * d2) by (nonlinear_arith)
        requires
            fx2 + fy2 + fz2 >= s - AXIS_TOLERANCE,
            0 <= d2,
    ;
    let ax = abs_int(o.x);
    let ay = abs_int(o.y);
    let az = abs_int(o.z);
    assert((o.x * o.x + 2 * ax + 1) * s + (o.y * o.y + 2 * ay + 1) * s + (o.z * o.z + 2 * az + 1)
        * s <= (n + 6 * d + 3) * s) by (nonlinear_arith)
        requires
            n == o.x * o.x + o.y * o.y + o.z * o.z,
            0 <= ax <= d,
            0 <= ay <= d,
            0 <= az <= d,
            s == 1_000_000_000_000,
    ;
    let t = AXIS_TOLERANCE * d2;
    assert((s - AXIS_TOLERANCE) * d2 == s * d2 - t) by (nonlinear_arith)
        requires
            t == AXIS_TOLERANCE * d2,
    ;
    assert((d2 - n - 6 * d - 3) * s <= t) by (nonlinear_arith)
        requires
            s * d2 - t <= (n + 6 * d + 3) * s,
    ;
    assert(d2 - n - 6 * d - 3 <= t / s) by (nonlinear_arith)
        requires
            (d2 - n - 6 * d - 3) * s <= t,
            s == 1_000_000_000_000,
    ;
}

/// An orbiting camera lies on its sphere: after a tick that ends in orbit,
/// where the world's limit does not cut in, the camera is the radius behind
/// the focus along the view direction, and the square of its distance from
/// the focus is the square of the radius, less at most
/// `sphere_tolerance` of the radius.
pub proof fn lemma_orbit_on_sphere(m: CameraModel, input: InputSnapshot, dt: int)
    requires
        m.wf(),
        m.enabled,
        (m.mode == Mode::Orbit) != input.mode_toggle_pressed,
        m.step(input, dt).orbit_focus.minus(
            forward_axis(m.step(input, dt).yaw, m.step(input, dt).pitch).scaled(
                m.step(input, dt).orbit_distance,
            ),
        ).within(WORLD_LIMIT as int),
    ensures
        ({
            let n = m.step(input, dt);
            let d = n.orbit_distance;
            &&& n.orbit_focus.minus(n.position) == forward_axis(n.yaw, n.pitch).scaled(d)
            &&& d * d - sphere_tolerance(d) <= n.orbit_focus.minus(n.position).norm_sq() <= d * d
        }),
{
    lemma_orbit_placement(m, input, dt);
    let n = m.step(input, dt);
    lemma_axes_within(n.yaw, n.pitch);
    lemma_forward_length(n.yaw, n.pitch);
    lemma_scaled_length(forward_axis(n.yaw, n.pitch), n.orbit_distance);
}

/// The root of a number that falls short of the square of `d` by at most
/// `tol` falls short of `d` by at most `tol / d + 1`.
pub proof fn lemma_root_shortfall(len: int, n: int, d: int, tol: int)
    requires
        d >= 1,
        0 <= tol,
        d * d - tol <= n <= d * d,
        0 <= len,
        len * len <= n,
        n < (len + 1) * (len + 1),
    ensures
        0 <= d - len <= tol / d + 1,
{
    if len > d {
        lemma_square_monotonic(d + 1, len);
        assert((d + 1) * (d + 1) > d * d) by (nonlinear_arith)
            requires
                d >= 1,
        ;
    }
    let h = d - len - 1;
    assert(tol / d >= 0) by (nonlinear_arith)
        requires
            tol >= 0,
            d >= 1,
    ;
    if h >= 1 {
        assert((len + 1) * (len + 1) == d * d - 2 * (d * h) + h * h) by (nonlinear_arith)
            requires
                len + 1 == d - h,
        ;
        assert(h * h <= d * h) by (nonlinear_arith)
            requires
                0 <= h <= d,
        ;
        assert(d * h < tol);
        assert(h <= tol / d) by (nonlinear_arith)
            requires
                d * h < tol,
                d >= 1,
                h >= 0,
        ;
    }
}

/// A coordinate `f` of a direction, scaled to the length `d` and divided by a
/// length `len` that falls short of `d` by `g`, misses `f` by at most
/// `1 + ONE * (1 + g) / len`.
pub proof fn lemma_rescaled_coordinate(f: int, d: int, len: int)
    requires
        abs_int(f) <= ONE,
        0 < len <= d,
    ensures
        abs_int(div_fx(mul_fx(f, d), len) - f) <= 1 + ONE * (1 + (d - len)) / len,
{
    let o = mul_fx(f, d);
    let r = div_fx(o, len);
    let g = d - len;
    lemma_mul_fx_error(f, d);
    lemma_div_fx_error(o, len);
    let e = abs_int(r - f);
    assert((r - f) * len == (r * len - o * ONE) + (o * ONE - f * d) + f * g) by (nonlinear_arith)
        requires
            g == d - len,
    ;
    assert(abs_int(f * g) <= ONE * g) by (nonlinear_arith)
        requires
            abs_int(f) <= ONE,
            g >= 0,
    ;
    assert(e * len == abs_int((r - f) * len)) by (nonlinear_arith)
        requires
            e == abs_int(r - f),
            len > 0,
    ;
    assert(e * len < len + ONE + ONE * g);
    assert(ONE * (1 + g) == ONE + ONE * g) by (nonlinear_arith);
    assert(e <= 1 + (ONE * (1 + g)) / len) by (nonlinear_arith)
        requires
            e * len < len + ONE * (1 + g),
            len > 0,
            e >= 0,
            ONE * (1 + g) >= 0,
    ;
}

/// The direction from a placed orbiting camera to its focus is the view
/// direction: where the camera is the radius behind the focus along the view
/// direction, each coordinate of the direction to the focus misses the view
/// direction by at most `direction_tolerance` of the radius.
pub proof fn lemma_placed_direction(m: CameraModel)
    requires
        m.wf(),
        m.orbit_focus.minus(m.position) == forward_axis(m.yaw, m.pitch).scaled(m.orbit_distance),
    ensures
        m.orbit_focus.minus(m.position).normalized().minus(forward_axis(m.yaw, m.pitch)).within(
            direction_tolerance(m.orbit_distance),
        ),
        0 < radius_shortfall(m.orbit_distance) < m.orbit_distance,
{
    let f = forward_axis(m.yaw, m.pitch);
    let d = m.orbit_distance;
    let o = f.scaled(d);
    lemma_axes_within(m.yaw, m.pitch);
    lemma_forward_length(m.yaw, m.pitch);
    lemma_scaled_length(f, d);
    lemma_length_bounds(o);
    let n = o.norm_sq();
    let len = o.length();
    let tol = sphere_tolerance(d);
    lemma_shortfall_is_small(d);
    lemma_root_shortfall(len, n, d, tol);
    let g = radius_shortfall(d);
    assert(len >= d - g > 0);
    lemma_rescaled_coordinate(f.x, d, len);
    lemma_rescaled_coordinate(f.y, d, len);
    lemma_rescaled_coordinate(f.z, d, len);
    lemma_tolerance_grows(d, len, g);
}

/// At every radius that can be configured, the shortfall of the radius is far
/// less than the radius.
proof fn lemma_shortfall_is_small(d: int)
    requires
        1_000 <= d <= 10_000_000_000,
    ensures
        0 <= sphere_tolerance(d),
        0 < radius_shortfall(d) <= d / 2,
{
    let s = ONE_SQUARED as int;
    let q = AXIS_TOLERANCE * (d * d) / s;
    assert(0 <= q <= d * d / 100_000) by (nonlinear_arith)
        requires
            q == AXIS_TOLERANCE * (d * d) / s,
            AXIS_TOLERANCE == 8_000_004,
            s == 1_000_000_000_000,
            d >= 0,
    ;
    assert((d * d / 100_000 + 6 * d + 4) / d <= d / 2 - 1) by (nonlinear_arith)
        requires
            1_000 <= d,
    ;
    assert((q + 6 * d + 4) / d <= (d * d / 100_000 + 6 * d + 4) / d) by (nonlinear_arith)
        requires
            0 <= q <= d * d / 100_000,
            d >= 1_000,
    ;
    assert((q + 6 * d + 4) / d >= 0) by (nonlinear_arith)
        requires
            q >= 0,
            d >= 1_000,
    ;
}

/// The bound on a rescaled coordinate is largest where the length is
/// shortest.
proof fn lemma_tolerance_grows(d: int, len: int, g: int)
    requires
        0 <= d - len <= g,
        g < d,
        0 < len,
    ensures
        1 + ONE * (1 + (d - len)) / len <= 1 + ONE * (1 + g) / (d - g),
{
    let a = ONE * (1 + (d - len));
    let b = ONE * (1 + g);
    assert(0 <= a <= b) by (nonlinear_arith)
        requires
            a == ONE * (1 + (d - len)),
            b == ONE * (1 + g),
            0 <= d - len <= g,
            ONE == 1_000_000,
    ;
    assert(a / len <= b / (d - g)) by (nonlinear_arith)
        requires
            0 <= a <= b,
            0 < d - g <= len,
    ;
}

/// Leaving orbit does not turn the view away from the focus: either the view
/// direction after the switch meets the direction from the camera to the
/// focus within `VIEW_TOLERANCE` on every coordinate, or yaw and pitch are
/// what they were.
pub proof fn lemma_leave_orbit_view(m: CameraModel)
    requires
        m.wf(),
        m.mode == Mode::Orbit,
    ensures
        ({
            let n = m.switch_mode();
            ||| n.yaw == m.yaw && n.pitch == m.pitch
            ||| forward_axis(n.yaw, n.pitch).minus(
                m.orbit_focus.minus(m.position).normalized(),
            ).within(VIEW_TOLERANCE as int)
        }),
{
}

/// The view does not jump on leaving orbit: where the camera is placed, the
/// radius behind its focus, no coordinate of the view direction after the
/// switch differs from the one before by more than `VIEW_TOLERANCE` and the
/// `direction_tolerance` of the radius together.
pub proof fn lemma_leave_orbit_steady(m: CameraModel)
    requires
        m.wf(),
        m.mode == Mode::Orbit,
        m.orbit_focus.minus(m.position) == forward_axis(m.yaw, m.pitch).scaled(m.orbit_distance),
    ensures
        forward_axis(m.switch_mode().yaw, m.switch_mode().pitch).minus(
            forward_axis(m.yaw, m.pitch),
        ).within(VIEW_TOLERANCE + direction_tolerance(m.orbit_distance)),
        direction_tolerance(m.orbit_distance) >= 1,
{
    lemma_leave_orbit_view(m);
    lemma_placed_direction(m);
    let d = m.orbit_distance;
    let g = radius_shortfall(d);
    assert(ONE * (1 + g) / (d - g) >= 0) by (nonlinear_arith)
        requires
            g >= 0,
            d - g > 0,
            ONE == 1_000_000,
    ;
}

} // verus!
