//! The controlled body's state and the per-tick control pipeline.
use vstd::prelude::*;

use crate::config::ControllerConfig;
use crate::cooldown::Cooldown;
use crate::movement::{
    axis, axis_value, planar_local, planar_target, to_world, yaw_delta, Heading, InputState,
};
use crate::sensor::{ground_contact, grounded_by, sorted_by_distance, RayHit};

verus! {

/// A vector in world space: x and z are horizontal, y points up.
#[derive(Clone, Copy, Debug, PartialEq, Eq, Structural)]
pub struct Vec3i {
    pub x: i64,
    pub y: i64,
    pub z: i64,
}

/// The velocity the controller wants for its body this tick, in µm/s.
#[derive(Clone, Copy, Debug, PartialEq, Eq, Structural)]
pub struct Velocity {
    pub value: Vec3i,
}

impl Velocity {
    /// A velocity of `value`.
    pub fn new(value: Vec3i) -> (r: Self)
        ensures
            r.value == value,
    {
        Velocity { value }
    }
}

/// The controlled body's own state.
#[derive(Clone, Copy, Debug, PartialEq, Eq, Structural)]
pub struct PlayerController {
    /// Desired velocity, recomputed every tick.
    pub velocity: Velocity,
    /// Cooldown between two jumps.
    pub jump_timer: Cooldown,
    /// Whether the ground probe found ground this tick.
    pub is_on_ground: bool,
}

/// What the movement stage asks of the body besides its desired velocity.
#[derive(Clone, Copy, Debug, PartialEq, Eq, Structural)]
pub struct ControlOutcome {
    /// Yaw to turn the body by, in milliradians.
    pub yaw_delta: i64,
    /// Whether a jump was triggered.
    pub jumped: bool,
}

/// What one whole tick asks of the physics body.
#[derive(Clone, Copy, Debug, PartialEq, Eq, Structural)]
pub struct TickOutcome {
    /// Yaw to turn the body by, in milliradians.
    pub yaw_delta: i64,
    /// Whether a jump was triggered.
    pub jumped: bool,
    /// Impulse to apply to the body, in the units of the desired velocity.
    pub impulse: Vec3i,
}

/// A jump fires when jump is held, the body is grounded and the cooldown has
/// fully elapsed.
pub open spec fn jump_fires(input: InputState, grounded: bool, timer: Cooldown) -> bool {
    input.jump && grounded && timer.remaining_spec() == 0
}

/// The cooldown after a tick of `delta` nanoseconds, started over if a jump fired.
pub open spec fn timer_after(timer: Cooldown, delta: u64, jumped: bool) -> Cooldown {
    if jumped {
        Cooldown { elapsed: 0, duration: timer.duration }
    } else {
        timer.after_tick(delta)
    }
}

/// The desired velocity for the keys held in `input`: planar motion from the
/// movement keys, and the jump speed upward only if a jump fired.
pub open spec fn desired_velocity(
    input: InputState,
    h: Heading,
    config: ControllerConfig,
    jumped: bool,
) -> (int, int, int) {
    (
        planar_target(input, h, config.movement_speed).0,
        if jumped { config.jump_speed as int } else { 0 },
        planar_target(input, h, config.movement_speed).1,
    )
}

impl PlayerController {
    /// A controller at rest, not grounded, whose cooldown has just started.
    pub fn new(config: &ControllerConfig) -> (r: Self)
        ensures
            r.velocity.value == (Vec3i { x: 0, y: 0, z: 0 }),
            r.jump_timer == (Cooldown { elapsed: 0, duration: config.jump_cooldown }),
            !r.is_on_ground,
    {
        PlayerController {
            velocity: Velocity::new(Vec3i { x: 0, y: 0, z: 0 }),
            jump_timer: Cooldown::new(config.jump_cooldown),
            is_on_ground: false,
        }
    }

    /// Ground sensing: grounded exactly when the nearest of the probe's hits
    /// lies within `ground_distance`.
    pub fn check_is_on_ground(&mut self, hits: &[RayHit], ground_distance: u32)
        ensures
            final(self).is_on_ground == grounded_by(hits@, ground_distance),
            hits@.len() == 0 ==> !final(self).is_on_ground,
            sorted_by_distance(hits@) && hits@.len() > 0 ==> (final(self).is_on_ground
                <==> hits@[0].distance <= ground_distance),
            final(self).velocity == old(self).velocity,
            final(self).jump_timer == old(self).jump_timer,
    {
        self.is_on_ground = ground_contact(hits, ground_distance);
    }

    /// Input mapping: advances the cooldown by `delta` nanoseconds, decides
    /// the jump, and sets the desired velocity from the held keys.
    /// Its horizontal part is `planar_target`, whose speed
    /// `lemma_world_speed` bounds for every heading.
    pub fn movement_controls(
        &mut self,
        input: &InputState,
        heading: Heading,
        delta: u64,
        config: &ControllerConfig,
    ) -> (r: ControlOutcome)
        requires
            old(self).jump_timer.wf(),
            heading.wf(),
        ensures
            r.jumped == jump_fires(*input, old(self).is_on_ground, old(self).jump_timer.after_tick(delta)),
            final(self).jump_timer == timer_after(old(self).jump_timer, delta, r.jumped),
            final(self).jump_timer.wf(),
            final(self).is_on_ground == old(self).is_on_ground,
            (final(self).velocity.value.x as int, final(self).velocity.value.y as int,
                final(self).velocity.value.z as int) == desired_velocity(*input, heading, *config, r.jumped),
            r.yaw_delta == axis_value(input.turn_left, input.turn_right) * config.rotate_speed,
    {
        self.jump_timer.tick(delta);
        let forward_axis = axis(input.forward, input.back);
        let side_axis = axis(input.strafe_left, input.strafe_right);
        let yaw_delta = yaw_delta(input, config.rotate_speed);
        let mut up: i64 = 0;
        let mut jumped = false;
        if input.jump && self.is_on_ground && self.jump_timer.remaining() == 0 {
            self.jump_timer.reset();
            up = config.jump_speed as i64;
            jumped = true;
        }
        let planar = to_world(planar_local(forward_axis, side_axis, config.movement_speed), heading);
        self.velocity.value = Vec3i { x: planar.0, y: up, z: planar.1 };
        ControlOutcome { yaw_delta, jumped }
    }

    /// Velocity synchronisation: the body's horizontal velocity becomes the
    /// desired one; its vertical velocity is left alone.
    pub fn update_linear_velocity(&self, linear: &mut Vec3i)
        ensures
            *final(linear) == (Vec3i {
                x: self.velocity.value.x,
                y: old(linear).y,
                z: self.velocity.value.z,
            }),
    {
        linear.x = self.velocity.value.x;
        linear.z = self.velocity.value.z;
    }

    /// The impulse for this tick: straight up, as large as the desired
    /// vertical velocity, so nonzero only on the tick a jump fired.
    pub fn apply_impulses(&self) -> (r: Vec3i)
        ensures
            r == (Vec3i { x: 0, y: self.velocity.value.y, z: 0 }),
    {
        Vec3i { x: 0, y: self.velocity.value.y, z: 0 }
    }

    /// One tick of the pipeline, in order: ground sensing, input mapping,
    /// velocity synchronisation into `linear`, and the jump impulse.
    pub fn step(
        &mut self,
        hits: &[RayHit],
        input: &InputState,
        heading: Heading,
        delta: u64,
        config: &ControllerConfig,
        linear: &mut Vec3i,
    ) -> (r: TickOutcome)
        requires
            old(self).jump_timer.wf(),
            heading.wf(),
        ensures
            final(self).is_on_ground == grounded_by(hits@, config.ground_distance),
            r.jumped == jump_fires(*input, final(self).is_on_ground, old(self).jump_timer.after_tick(delta)),
            final(self).jump_timer == timer_after(old(self).jump_timer, delta, r.jumped),
            final(self).jump_timer.wf(),
            (final(self).velocity.value.x as int, final(self).velocity.value.y as int,
                final(self).velocity.value.z as int) == desired_velocity(*input, heading, *config, r.jumped),
            r.yaw_delta == axis_value(input.turn_left, input.turn_right) * config.rotate_speed,
            *final(linear) == (Vec3i {
                x: final(self).velocity.value.x,
                y: old(linear).y,
                z: final(self).velocity.value.z,
            }),
            r.impulse == (Vec3i { x: 0, y: final(self).velocity.value.y, z: 0 }),
    {
        self.check_is_on_ground(hits, config.ground_distance);
        let control = self.movement_controls(input, heading, delta, config);
        self.update_linear_velocity(linear);
        let impulse = self.apply_impulses();
        TickOutcome { yaw_delta: control.yaw_delta, jumped: control.jumped, impulse }
    }
}

/// A jump starts the cooldown over at its full duration and asks for the
/// jump speed upward; any other tick asks for no vertical velocity.
pub proof fn lemma_jump_rule(
    input: InputState,
    timer: Cooldown,
    delta: u64,
    h: Heading,
    config: ControllerConfig,
)
    requires
        timer.wf(),
    ensures
        timer_after(timer, delta, true).remaining_spec() == timer.duration,
        desired_velocity(input, h, config, true).1 == config.jump_speed,
        desired_velocity(input, h, config, false).1 == 0,
{
}

/// Without a probe hit the body is never grounded, so no tick can jump.
pub proof fn lemma_no_ground_no_jump(input: InputState, timer: Cooldown, ground_distance: u32)
    ensures
        !grounded_by(Seq::<RayHit>::empty(), ground_distance),
        !jump_fires(input, grounded_by(Seq::<RayHit>::empty(), ground_distance), timer),
{
}

} // verus!
