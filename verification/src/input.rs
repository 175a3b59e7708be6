//! The input sampler: from the raw events that the host's input devices sent
//! during one tick to the snapshot that the controller consumes.
//!
//! Every event counts once. Motion and scrolling add up. A key is down from
//! its down event to its up event, over as many ticks as that takes; a toggle
//! key is pressed in a tick where it goes down from up, however many down
//! events the tick holds.

use vstd::prelude::*;
use vstd::string::StringExecFns;
use crate::fixed::{ONE, clamp_int, clamp, saturate_i128};
use crate::vector::{Vec2, Vec3};
use crate::model::{InputSnapshot, MOUSE_LIMIT, SCROLL_LIMIT};

verus! {

/// A physical key: the code by which the host knows it, and the name
/// shown to the user.
#[derive(Clone, Debug)]
pub struct KeyBinding {
    pub code: u32,
    pub label: String,
}

/// The key bound to each action of the controller.
#[derive(Clone, Debug)]
pub struct KeyBindings {
    pub forward: KeyBinding,
    pub back: KeyBinding,
    pub left: KeyBinding,
    pub right: KeyBinding,
    pub up: KeyBinding,
    pub down: KeyBinding,
    pub run: KeyBinding,
    pub toggle_cursor: KeyBinding,
    pub toggle_mode: KeyBinding,
}

/// One event of an input device.
#[derive(Clone, Copy, Debug, PartialEq, Eq, Structural)]
pub enum RawEvent {
    /// The key with this code went down, or repeats while it is held.
    KeyDown(u32),
    /// The key with this code went up.
    KeyUp(u32),
    /// The mouse moved by this many device units.
    MouseMotion(Vec2),
    /// The wheel turned by this many steps.
    Scroll(i64),
}

/// For each action, whether its key is down.
#[derive(Clone, Copy, Debug, PartialEq, Eq, Structural)]
pub struct HeldKeys {
    pub forward: bool,
    pub back: bool,
    pub left: bool,
    pub right: bool,
    pub up: bool,
    pub down: bool,
    pub run: bool,
    pub toggle_cursor: bool,
    pub toggle_mode: bool,
}

/// Turns raw events into snapshots, remembering from tick to tick which keys
/// are down.
pub struct InputSampler {
    pub bindings: KeyBindings,
    pub held: HeldKeys,
}

/// The default bindings: W, S, A and D to move, E and Q to rise and sink,
/// Shift to run, M to lock and free the cursor, O to switch the mode. A
/// letter's code is its upper-case ASCII code; Shift has the code 16.
pub open spec fn standard_bindings(b: KeyBindings) -> bool {
    &&& b.forward.code == 87 && b.forward.label@ == "W"@
    &&& b.back.code == 83 && b.back.label@ == "S"@
    &&& b.left.code == 65 && b.left.label@ == "A"@
    &&& b.right.code == 68 && b.right.label@ == "D"@
    &&& b.up.code == 69 && b.up.label@ == "E"@
    &&& b.down.code == 81 && b.down.label@ == "Q"@
    &&& b.run.code == 16 && b.run.label@ == "Shift"@
    &&& b.toggle_cursor.code == 77 && b.toggle_cursor.label@ == "M"@
    &&& b.toggle_mode.code == 79 && b.toggle_mode.label@ == "O"@
}

impl KeyBinding {
    /// The key with the given code and name.
    pub fn new(code: u32, label: &str) -> (k: KeyBinding)
        ensures
            k.code == code,
            k.label@ == label@,
    {
        KeyBinding { code, label: String::from_str(label) }
    }
}

impl Default for KeyBindings {
    fn default() -> (b: KeyBindings)
        ensures
            standard_bindings(b),
    {
        KeyBindings {
            forward: KeyBinding::new(87, "W"),
            back: KeyBinding::new(83, "S"),
            left: KeyBinding::new(65, "A"),
            right: KeyBinding::new(68, "D"),
            up: KeyBinding::new(69, "E"),
            down: KeyBinding::new(81, "Q"),
            run: KeyBinding::new(16, "Shift"),
            toggle_cursor: KeyBinding::new(77, "M"),
            toggle_mode: KeyBinding::new(79, "O"),
        }
    }
}

/// Whether the key `code` is down after `event`, where `held` says whether it
/// was down before: its own down event puts it down, its own up event up.
pub open spec fn key_next(held: bool, event: RawEvent, code: u32) -> bool {
    if event == RawEvent::KeyDown(code) {
        true
    } else if event == RawEvent::KeyUp(code) {
        false
    } else {
        held
    }
}

/// Whether the key `code` is down after `events`, where `held` says whether
/// it was down before them.
pub open spec fn key_state(held: bool, events: Seq<RawEvent>, code: u32) -> bool
    decreases events.len(),
{
    if events.len() == 0 {
        held
    } else {
        key_next(key_state(held, events.drop_last(), code), events.last(), code)
    }
}

/// Whether the key `code` was pressed during `events`: whether one of them is
/// a down event that found the key up.
#[verifier::opaque]
pub open spec fn key_pressed(held: bool, events: Seq<RawEvent>, code: u32) -> bool {
    exists|i: int|
        0 <= i < events.len() && #[trigger] events[i] == RawEvent::KeyDown(code) && !key_state(
            held,
            events.take(i),
            code,
        )
}

/// The horizontal mouse motion of one event.
pub open spec fn motion_x_of(event: RawEvent) -> int {
    match event {
        RawEvent::MouseMotion(d) => d.x as int,
        _ => 0,
    }
}

/// The vertical mouse motion of one event.
pub open spec fn motion_y_of(event: RawEvent) -> int {
    match event {
        RawEvent::MouseMotion(d) => d.y as int,
        _ => 0,
    }
}

/// The scrolling of one event.
pub open spec fn scroll_of(event: RawEvent) -> int {
    match event {
        RawEvent::Scroll(s) => s as int,
        _ => 0,
    }
}

/// The sum of the horizontal mouse motion of the events.
pub open spec fn motion_x(events: Seq<RawEvent>) -> int
    decreases events.len(),
{
    if events.len() == 0 {
        0
    } else {
        motion_x(events.drop_last()) + motion_x_of(events.last())
    }
}

/// The sum of the vertical mouse motion of the events.
pub open spec fn motion_y(events: Seq<RawEvent>) -> int
    decreases events.len(),
{
    if events.len() == 0 {
        0
    } else {
        motion_y(events.drop_last()) + motion_y_of(events.last())
    }
}

/// The sum of the scrolling of the events.
pub open spec fn scrolled(events: Seq<RawEvent>) -> int
    decreases events.len(),
{
    if events.len() == 0 {
        0
    } else {
        scrolled(events.drop_last()) + scroll_of(events.last())
    }
}

/// The request along one axis: one where only the key of the positive
/// direction is down, minus one where only the other is, zero otherwise.
pub open spec fn axis_of(positive: bool, negative: bool) -> int {
    (if positive {
        ONE as int
    } else {
        0
    }) - (if negative {
        ONE as int
    } else {
        0
    })
}

impl HeldKeys {
    /// The keys that are down after `event`.
    pub open spec fn next(self, event: RawEvent, b: KeyBindings) -> HeldKeys {
        HeldKeys {
            forward: key_next(self.forward, event, b.forward.code),
            back: key_next(self.back, event, b.back.code),
            left: key_next(self.left, event, b.left.code),
            right: key_next(self.right, event, b.right.code),
            up: key_next(self.up, event, b.up.code),
            down: key_next(self.down, event, b.down.code),
            run: key_next(self.run, event, b.run.code),
            toggle_cursor: key_next(self.toggle_cursor, event, b.toggle_cursor.code),
            toggle_mode: key_next(self.toggle_mode, event, b.toggle_mode.code),
        }
    }

    /// The keys that are down after `events`.
    pub open spec fn after(self, events: Seq<RawEvent>, b: KeyBindings) -> HeldKeys {
        HeldKeys {
            forward: key_state(self.forward, events, b.forward.code),
            back: key_state(self.back, events, b.back.code),
            left: key_state(self.left, events, b.left.code),
            right: key_state(self.right, events, b.right.code),
            up: key_state(self.up, events, b.up.code),
            down: key_state(self.down, events, b.down.code),
            run: key_state(self.run, events, b.run.code),
            toggle_cursor: key_state(self.toggle_cursor, events, b.toggle_cursor.code),
            toggle_mode: key_state(self.toggle_mode, events, b.toggle_mode.code),
        }
    }

    /// No key is down.
    pub open spec fn none() -> HeldKeys {
        HeldKeys {
            forward: false,
            back: false,
            left: false,
            right: false,
            up: false,
            down: false,
            run: false,
            toggle_cursor: false,
            toggle_mode: false,
        }
    }
}

impl InputSampler {
    /// The snapshot for a tick during which the devices sent `events`.
    ///
    /// The movement axes and the run modifier follow the keys that are down
    /// at the end of the tick. Motion and scrolling are the sums over the
    /// tick's events, cut off at `MOUSE_LIMIT` and `SCROLL_LIMIT`. A toggle
    /// key counts as pressed where it went down from up during the tick.
    pub open spec fn snapshot(self, events: Seq<RawEvent>) -> InputSnapshot {
        let b = self.bindings;
        let held = self.held.after(events, b);
        InputSnapshot {
            movement_axes: Vec3 {
                x: axis_of(held.right, held.left) as i64,
                y: axis_of(held.up, held.down) as i64,
                z: axis_of(held.forward, held.back) as i64,
            },
            mouse_delta: Vec2 {
                x: clamp_int(motion_x(events), -(MOUSE_LIMIT as int), MOUSE_LIMIT as int) as i64,
                y: clamp_int(motion_y(events), -(MOUSE_LIMIT as int), MOUSE_LIMIT as int) as i64,
            },
            scroll_delta: clamp_int(
                scrolled(events),
                -(SCROLL_LIMIT as int),
                SCROLL_LIMIT as int,
            ) as i64,
            toggle_cursor_pressed: key_pressed(
                self.held.toggle_cursor,
                events,
                b.toggle_cursor.code,
            ),
            run_modifier_held: held.run,
            mode_toggle_pressed: key_pressed(self.held.toggle_mode, events, b.toggle_mode.code),
        }
    }

    /// The sampler after that tick: it remembers which keys are down.
    pub open spec fn after(self, events: Seq<RawEvent>) -> InputSampler {
        InputSampler { bindings: self.bindings, held: self.held.after(events, self.bindings) }
    }

    /// A sampler for the given bindings, with no key down so far.
    pub fn new(bindings: KeyBindings) -> (s: InputSampler)
        ensures
            s == (InputSampler { bindings, held: HeldKeys::none() }),
    {
        InputSampler {
            bindings,
            held: HeldKeys {
                forward: false,
                back: false,
                left: false,
                right: false,
                up: false,
                down: false,
                run: false,
                toggle_cursor: false,
                toggle_mode: false,
            },
        }
    }

    /// Samples one tick: returns the snapshot for `events` and remembers the
    /// keys that are down for the next tick.
    pub fn sample(&mut self, events: &Vec<RawEvent>) -> (s: InputSnapshot)
        ensures
            s == old(self).snapshot(events@),
            *final(self) == old(self).after(events@),
    {
        let start: HeldKeys = self.held;
        let mut held: HeldKeys = start;
        let mut cursor_pressed: bool = false;
        let mut mode_pressed: bool = false;
        let mut x: i128 = 0;
        let mut y: i128 = 0;
        let mut wheel: i128 = 0;
        let mut i: usize = 0;
        proof {
            lemma_sample_start(start, self.bindings, events@.take(0));
        }
        while i < events.len()
            invariant
                i <= events.len(),
                *self == *old(self),
                held == start.after(events@.take(i as int), self.bindings),
                cursor_pressed == key_pressed(
                    start.toggle_cursor,
                    events@.take(i as int),
                    self.bindings.toggle_cursor.code,
                ),
                mode_pressed == key_pressed(
                    start.toggle_mode,
                    events@.take(i as int),
                    self.bindings.toggle_mode.code,
                ),
                x == motion_x(events@.take(i as int)),
                y == motion_y(events@.take(i as int)),
                wheel == scrolled(events@.take(i as int)),
                -(i * 0x8000_0000_0000_0000) <= x <= i * 0x8000_0000_0000_0000,
                -(i * 0x8000_0000_0000_0000) <= y <= i * 0x8000_0000_0000_0000,
                -(i * 0x8000_0000_0000_0000) <= wheel <= i * 0x8000_0000_0000_0000,
            decreases events.len() - i,
        {
            let event: RawEvent = events[i];
            proof {
                assert(events@.take(i + 1) == events@.take(i as int).push(event));
                lemma_sample_step(start, self.bindings, events@.take(i as int), event);
            }
            cursor_pressed = cursor_pressed || goes_down(
                held.toggle_cursor,
                event,
                self.bindings.toggle_cursor.code,
            );
            mode_pressed = mode_pressed || goes_down(
                held.toggle_mode,
                event,
                self.bindings.toggle_mode.code,
            );
            held = keys_after(held, &self.bindings, event);
            x = x + horizontal(event) as i128;
            y = y + vertical(event) as i128;
            wheel = wheel + scrolling(event) as i128;
            i += 1;
        }
        assert(events@.take(i as int) == events@);
        self.held = held;
        InputSnapshot {
            movement_axes: Vec3 {
                x: axis(held.right, held.left),
                y: axis(held.up, held.down),
                z: axis(held.forward, held.back),
            },
            mouse_delta: Vec2 {
                x: clamp(saturate_i128(x), -MOUSE_LIMIT, MOUSE_LIMIT),
                y: clamp(saturate_i128(y), -MOUSE_LIMIT, MOUSE_LIMIT),
            },
            scroll_delta: clamp(saturate_i128(wheel), -SCROLL_LIMIT, SCROLL_LIMIT),
            toggle_cursor_pressed: cursor_pressed,
            run_modifier_held: held.run,
            mode_toggle_pressed: mode_pressed,
        }
    }
}

/// Whether `event` is the down event of the key `code` and finds it up.
fn goes_down(held: bool, event: RawEvent, code: u32) -> (r: bool)
    ensures
        r == (event == RawEvent::KeyDown(code) && !held),
{
    match event {
        RawEvent::KeyDown(c) => c == code && !held,
        _ => false,
    }
}

/// Whether the key `code` is down after `event`.
fn key_after(held: bool, event: RawEvent, code: u32) -> (r: bool)
    ensures
        r == key_next(held, event, code),
{
    match event {
        RawEvent::KeyDown(c) => c == code || held,
        RawEvent::KeyUp(c) => c != code && held,
        _ => held,
    }
}

/// The keys that are down after `event`.
fn keys_after(held: HeldKeys, b: &KeyBindings, event: RawEvent) -> (r: HeldKeys)
    ensures
        r == held.next(event, *b),
{
    HeldKeys {
        forward: key_after(held.forward, event, b.forward.code),
        back: key_after(held.back, event, b.back.code),
        left: key_after(held.left, event, b.left.code),
        right: key_after(held.right, event, b.right.code),
        up: key_after(held.up, event, b.up.code),
        down: key_after(held.down, event, b.down.code),
        run: key_after(held.run, event, b.run.code),
        toggle_cursor: key_after(held.toggle_cursor, event, b.toggle_cursor.code),
        toggle_mode: key_after(held.toggle_mode, event, b.toggle_mode.code),
    }
}

/// The horizontal mouse motion of one event.
fn horizontal(event: RawEvent) -> (d: i64)
    ensures
        d == motion_x_of(event),
{
    match event {
        RawEvent::MouseMotion(d) => d.x,
        _ => 0,
    }
}

/// The vertical mouse motion of one event.
fn vertical(event: RawEvent) -> (d: i64)
    ensures
        d == motion_y_of(event),
{
    match event {
        RawEvent::MouseMotion(d) => d.y,
        _ => 0,
    }
}

/// The scrolling of one event.
fn scrolling(event: RawEvent) -> (d: i64)
    ensures
        d == scroll_of(event),
{
    match event {
        RawEvent::Scroll(s) => s,
        _ => 0,
    }
}

/// What a sampler knows before the first event of a tick.
proof fn lemma_sample_start(start: HeldKeys, b: KeyBindings, none: Seq<RawEvent>)
    requires
        none.len() == 0,
    ensures
        start.after(none, b) == start,
        !key_pressed(start.toggle_cursor, none, b.toggle_cursor.code),
        !key_pressed(start.toggle_mode, none, b.toggle_mode.code),
        motion_x(none) == 0,
        motion_y(none) == 0,
        scrolled(none) == 0,
{
    lemma_pressed_step(start.toggle_cursor, none, b.toggle_cursor.code);
    lemma_pressed_step(start.toggle_mode, none, b.toggle_mode.code);
}

/// What one more event adds to what a sampler knows.
proof fn lemma_sample_step(start: HeldKeys, b: KeyBindings, seen: Seq<RawEvent>, event: RawEvent)
    ensures
        start.after(seen.push(event), b) == start.after(seen, b).next(event, b),
        key_pressed(start.toggle_cursor, seen.push(event), b.toggle_cursor.code) == (key_pressed(
            start.toggle_cursor,
            seen,
            b.toggle_cursor.code,
        ) || (event == RawEvent::KeyDown(b.toggle_cursor.code) && !start.after(
            seen,
            b,
        ).toggle_cursor)),
        key_pressed(start.toggle_mode, seen.push(event), b.toggle_mode.code) == (key_pressed(
            start.toggle_mode,
            seen,
            b.toggle_mode.code,
        ) || (event == RawEvent::KeyDown(b.toggle_mode.code) && !start.after(
            seen,
            b,
        ).toggle_mode)),
        motion_x(seen.push(event)) == motion_x(seen) + motion_x_of(event),
        motion_y(seen.push(event)) == motion_y(seen) + motion_y_of(event),
        scrolled(seen.push(event)) == scrolled(seen) + scroll_of(event),
{
    let next = seen.push(event);
    assert(next.drop_last() == seen);
    assert(next.last() == event);
    lemma_pressed_step(start.toggle_cursor, next, b.toggle_cursor.code);
    lemma_pressed_step(start.toggle_mode, next, b.toggle_mode.code);
}

/// The request along one axis.
fn axis(positive: bool, negative: bool) -> (a: i64)
    ensures
        a == axis_of(positive, negative),
{
    let p: i64 = if positive {
        ONE
    } else {
        0
    };
    let n: i64 = if negative {
        ONE
    } else {
        0
    };
    p - n
}

/// A key was pressed during a run of events where it was pressed before the
/// last of them, or where the last is a down event that found it up.
pub proof fn lemma_pressed_step(held: bool, events: Seq<RawEvent>, code: u32)
    ensures
        events.len() == 0 ==> !key_pressed(held, events, code),
        events.len() > 0 ==> (key_pressed(held, events, code) <==> key_pressed(
            held,
            events.drop_last(),
            code,
        ) || (events.last() == RawEvent::KeyDown(code) && !key_state(
            held,
            events.drop_last(),
            code,
        ))),
{
    reveal(key_pressed);
    if events.len() > 0 {
        let before = events.drop_last();
        let n = before.len() as int;
        assert(events.take(n) == before);
        if key_pressed(held, before, code) {
            let i = choose|i: int|
                0 <= i < before.len() && #[trigger] before[i] == RawEvent::KeyDown(code)
                    && !key_state(held, before.take(i), code);
            assert(events.take(i) == before.take(i));
            assert(events[i] == RawEvent::KeyDown(code));
        }
        if events.last() == RawEvent::KeyDown(code) && !key_state(held, before, code) {
            assert(events[n] == RawEvent::KeyDown(code));
        }
        if key_pressed(held, events, code) {
            let i = choose|i: int|
                0 <= i < events.len() && #[trigger] events[i] == RawEvent::KeyDown(code)
                    && !key_state(held, events.take(i), code);
            if i < n {
                assert(events.take(i) == before.take(i));
                assert(before[i] == RawEvent::KeyDown(code));
            }
        }
    }
}

/// Whether a key is down after two runs of events does not depend on where
/// the tick between them fell.
pub proof fn lemma_key_state_split(held: bool, a: Seq<RawEvent>, b: Seq<RawEvent>, code: u32)
    ensures
        key_state(held, a + b, code) == key_state(key_state(held, a, code), b, code),
    decreases b.len(),
{
    if b.len() == 0 {
        assert(a + b == a);
    } else {
        assert((a + b).drop_last() == a + b.drop_last());
        assert((a + b).last() == b.last());
        lemma_key_state_split(held, a, b.drop_last(), code);
    }
}

/// A key was pressed during two runs of events taken as one tick exactly
/// where it was pressed in one of them taken as ticks of their own.
pub proof fn lemma_key_pressed_split(held: bool, a: Seq<RawEvent>, b: Seq<RawEvent>, code: u32)
    ensures
        key_pressed(held, a + b, code) <==> key_pressed(held, a, code) || key_pressed(
            key_state(held, a, code),
            b,
            code,
        ),
    decreases b.len(),
{
    if b.len() == 0 {
        assert(a + b == a);
        lemma_pressed_step(key_state(held, a, code), b, code);
    } else {
        assert((a + b).drop_last() == a + b.drop_last());
        assert((a + b).last() == b.last());
        lemma_key_pressed_split(held, a, b.drop_last(), code);
        lemma_key_state_split(held, a, b.drop_last(), code);
        lemma_pressed_step(held, a + b, code);
        lemma_pressed_step(key_state(held, a, code), b, code);
    }
}

/// The motion and the scrolling of two runs of events taken as one tick are
/// the sums of what each holds: every event counts once.
pub proof fn lemma_motion_split(a: Seq<RawEvent>, b: Seq<RawEvent>)
    ensures
        motion_x(a + b) == motion_x(a) + motion_x(b),
        motion_y(a + b) == motion_y(a) + motion_y(b),
        scrolled(a + b) == scrolled(a) + scrolled(b),
    decreases b.len(),
{
    if b.len() == 0 {
        assert(a + b == a);
    } else {
        assert((a + b).drop_last() == a + b.drop_last());
        assert((a + b).last() == b.last());
        lemma_motion_split(a, b.drop_last());
    }
}

/// A key that is held stays held, and is not pressed again, through any
/// events that do not release it: its repeated down events count for nothing.
pub proof fn lemma_held_key_repeats(events: Seq<RawEvent>, code: u32)
    requires
        forall|i: int| 0 <= i < events.len() ==> events[i] != RawEvent::KeyUp(code),
    ensures
        key_state(true, events, code),
        !key_pressed(true, events, code),
    decreases events.len(),
{
    if events.len() > 0 {
        let before = events.drop_last();
        assert forall|i: int| 0 <= i < before.len() implies before[i] != RawEvent::KeyUp(
            code,
        ) by {
            assert(before[i] == events[i]);
        }
        lemma_held_key_repeats(before, code);
        assert(events.last() == events[events.len() - 1]);
    }
    lemma_pressed_step(true, events, code);
}

/// A key that is up and gets a down event is pressed, however many down
/// events follow.
pub proof fn lemma_press_is_seen(events: Seq<RawEvent>, code: u32, i: int)
    requires
        0 <= i < events.len(),
        events[i] == RawEvent::KeyDown(code),
    ensures
        key_pressed(false, events, code),
    decreases i,
{
    reveal(key_pressed);
    if key_state(false, events.take(i), code) {
        lemma_state_needs_a_press(events.take(i), code);
        let j = choose|j: int|
            0 <= j < events.take(i).len() && #[trigger] events.take(i)[j] == RawEvent::KeyDown(
                code,
            ) && !key_state(false, events.take(i).take(j), code);
        assert(events.take(i).take(j) == events.take(j));
        assert(events[j] == RawEvent::KeyDown(code));
    }
}

/// A key that was up and is down has been pressed.
pub proof fn lemma_state_needs_a_press(events: Seq<RawEvent>, code: u32)
    requires
        key_state(false, events, code),
    ensures
        key_pressed(false, events, code),
    decreases events.len(),
{
    if events.len() > 0 {
        let before = events.drop_last();
        lemma_pressed_step(false, events, code);
        if key_state(false, before, code) {
            lemma_state_needs_a_press(before, code);
        }
    }
}

/// Every snapshot asks for motion of at most one along each axis, and
/// reports motion and scrolling within their limits.
pub proof fn lemma_snapshot_in_range(sampler: InputSampler, events: Seq<RawEvent>)
    ensures
        sampler.snapshot(events).movement_axes@.within(ONE as int),
        -MOUSE_LIMIT <= sampler.snapshot(events).mouse_delta.x <= MOUSE_LIMIT,
        -MOUSE_LIMIT <= sampler.snapshot(events).mouse_delta.y <= MOUSE_LIMIT,
        -SCROLL_LIMIT <= sampler.snapshot(events).scroll_delta <= SCROLL_LIMIT,
{
}

} // verus!
