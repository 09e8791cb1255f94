//! Tuning constants of the controller.
use vstd::prelude::*;

verus! {

/// Horizontal speed while a movement key is held, in µm/s.
pub const MOVEMENT_SPEED: u32 = 10000000;

/// Yaw turned per tick while a turn key is held, in milliradians.
pub const ROTATE_SPEED: u32 = 50;

/// Upward launch speed of a jump, in µm/s.
pub const JUMP_SPEED: u32 = 75000000;

/// Largest probe distance, in mm, at which the body counts as grounded.
pub const GROUND_DISTANCE: u32 = 1010;

/// Minimum time between two jumps, in nanoseconds.
pub const JUMP_COOLDOWN: u64 = 100000000;

/// The tuning constants of one controller.
#[derive(Clone, Copy, Debug, PartialEq, Eq, Structural)]
pub struct ControllerConfig {
    /// Horizontal speed while moving, in µm/s.
    pub movement_speed: u32,
    /// Yaw turned per tick while turning, in milliradians.
    pub rotate_speed: u32,
    /// Upward launch speed of a jump, in µm/s.
    pub jump_speed: u32,
    /// Largest probe distance, in mm, that counts as ground contact.
    pub ground_distance: u32,
    /// Minimum time between two jumps, in nanoseconds.
    pub jump_cooldown: u64,
}

impl Default for ControllerConfig {
    /// The controller's standard tuning.
    fn default() -> (r: ControllerConfig)
        ensures
            r.movement_speed == MOVEMENT_SPEED,
            r.rotate_speed == ROTATE_SPEED,
            r.jump_speed == JUMP_SPEED,
            r.ground_distance == GROUND_DISTANCE,
            r.jump_cooldown == JUMP_COOLDOWN,
    {
        ControllerConfig {
            movement_speed: MOVEMENT_SPEED,
            rotate_speed: ROTATE_SPEED,
            jump_speed: JUMP_SPEED,
            ground_distance: GROUND_DISTANCE,
            jump_cooldown: JUMP_COOLDOWN,
        }
    }
}

} // verus!
