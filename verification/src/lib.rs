//! A camera controller for three-dimensional scenes.
//!
//! Once per tick the controller takes a snapshot of the input devices and the
//! seconds that passed, and returns where the camera is and how it is turned.
//! It knows two modes: free flight, in which the camera turns with the mouse
//! and moves with the keys, and orbit, in which it circles a focus point and
//! zooms with the wheel.
//!
//! All numbers are fixed-point integers that count millionths, so that every
//! tick is exact and repeatable. The state is valid at all times, whatever the
//! input holds: `model` defines a tick mathematically, `laws` proves what
//! holds of it, and `controller` is the executable state that follows the
//! model tick by tick.

pub mod fixed;
pub mod trig;
pub mod vector;
pub mod model;
pub mod laws;
pub mod controller;
pub mod input;
pub mod controls;

pub use controller::{CameraConfig, CameraController, Rotation, Transform};
pub use controls::controls_text;
pub use input::{HeldKeys, InputSampler, KeyBinding, KeyBindings, RawEvent};
pub use model::{InputSnapshot, Mode};
pub use vector::{Vec2, Vec3};
