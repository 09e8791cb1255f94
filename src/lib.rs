//! A kinematic player controller driven once per simulation tick.
//!
//! The controller turns discrete input flags into a desired velocity for one
//! rigid body, senses ground contact from a downward ray probe, and gates
//! jumping with a one-shot cooldown. All quantities are integers in fixed
//! units: lengths in millimetres, speeds in micrometres per second, time in
//! nanoseconds and yaw in milliradians.
pub mod config;
pub mod controller;
pub mod cooldown;
pub mod movement;
pub mod sensor;
