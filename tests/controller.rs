use player_controller::config::{
    ControllerConfig, GROUND_DISTANCE, JUMP_COOLDOWN, JUMP_SPEED, MOVEMENT_SPEED, ROTATE_SPEED,
};
use player_controller::controller::{PlayerController, Vec3i, Velocity};
use player_controller::cooldown::Cooldown;
use player_controller::movement::{
    axis, diagonal_speed, planar_local, to_world, yaw_delta, Heading, InputState, HEADING_ONE,
};
use player_controller::sensor::{ground_contact, RayHit};

const TICK: u64 = 16_666_667;

fn no_input() -> InputState {
    InputState {
        forward: false,
        back: false,
        strafe_left: false,
        strafe_right: false,
        turn_left: false,
        turn_right: false,
        jump: false,
    }
}

fn facing_z() -> Heading {
    Heading { x: 0, z: HEADING_ONE }
}

fn hit(distance: u32) -> RayHit {
    RayHit { distance, entity: 7 }
}

fn ready_controller(config: &ControllerConfig) -> PlayerController {
    let mut c = PlayerController::new(config);
    c.jump_timer.tick(config.jump_cooldown);
    c
}

#[test]
fn default_config_values() {
    let c = ControllerConfig::default();
    assert_eq!(c.movement_speed, MOVEMENT_SPEED);
    assert_eq!(c.rotate_speed, ROTATE_SPEED);
    assert_eq!(c.jump_speed, JUMP_SPEED);
    assert_eq!(c.ground_distance, GROUND_DISTANCE);
    assert_eq!(c.jump_cooldown, JUMP_COOLDOWN);
    assert_eq!(c.movement_speed, 10_000_000);
    assert_eq!(c.jump_cooldown, 100_000_000);
}

#[test]
fn cooldown_counts_down_and_stops_at_zero() {
    let mut c = Cooldown::new(100);
    assert_eq!(c.remaining(), 100);
    c.tick(30);
    assert_eq!(c.remaining(), 70);
    c.tick(30);
    assert_eq!(c.remaining(), 40);
    c.tick(1000);
    assert_eq!(c.remaining(), 0);
    c.tick(5);
    assert_eq!(c.remaining(), 0);
    c.tick(u64::MAX);
    assert_eq!(c.remaining(), 0);
}

#[test]
fn cooldown_reset_restores_full_duration() {
    let mut c = Cooldown::new(100);
    c.tick(100);
    assert_eq!(c.remaining(), 0);
    c.reset();
    assert_eq!(c.remaining(), 100);
    assert_eq!(c.duration, 100);
}

#[test]
fn cooldown_remaining_never_increases_over_ticks() {
    let mut c = Cooldown::new(50);
    let mut last = c.remaining();
    for d in [0u64, 7, 13, 0, 40, 3] {
        c.tick(d);
        assert!(c.remaining() <= last);
        last = c.remaining();
    }
    assert_eq!(last, 0);
}

#[test]
fn no_hits_is_not_grounded() {
    assert!(!ground_contact(&[], 1010));
}

#[test]
fn hit_at_threshold_is_grounded() {
    assert!(ground_contact(&[hit(1010)], 1010));
    assert!(ground_contact(&[hit(0)], 1010));
    assert!(!ground_contact(&[hit(1011)], 1010));
}

#[test]
fn nearest_hit_decides_in_any_order() {
    assert!(ground_contact(&[hit(5000), hit(10)], 1010));
    assert!(ground_contact(&[hit(500), hit(9000)], 1010));
    assert!(!ground_contact(&[hit(5000), hit(1011)], 1010));
}

#[test]
fn axis_cancels_opposing_keys() {
    assert_eq!(axis(true, false), 1);
    assert_eq!(axis(false, true), -1);
    assert_eq!(axis(true, true), 0);
    assert_eq!(axis(false, false), 0);
}

#[test]
fn diagonal_speed_values() {
    assert_eq!(diagonal_speed(10000), 7071);
    assert_eq!(diagonal_speed(0), 0);
    assert_eq!(diagonal_speed(1), 0);
    assert_eq!(diagonal_speed(2), 1);
    assert_eq!(diagonal_speed(u32::MAX), 3037000499);
}

#[test]
fn planar_single_and_diagonal() {
    assert_eq!(planar_local(1, 0, 10000), (10000, 0));
    assert_eq!(planar_local(0, -1, 10000), (0, -10000));
    assert_eq!(planar_local(-1, 1, 10000), (-7071, 7071));
    assert_eq!(planar_local(0, 0, 10000), (0, 0));
    let (f, s) = planar_local(1, 1, 10000);
    let sq = f * f + s * s;
    assert!(sq <= 10000 * 10000);
    assert!(sq > 9999 * 9999);
}

#[test]
fn to_world_rotates_with_heading() {
    assert_eq!(to_world((10000, 0), facing_z()), (0, 10000));
    assert_eq!(to_world((0, 10000), facing_z()), (10000, 0));
    let east = Heading { x: HEADING_ONE, z: 0 };
    assert_eq!(to_world((10000, 0), east), (10000, 0));
    assert_eq!(to_world((0, 10000), east), (0, -10000));
    let tilted = Heading { x: 600000, z: -800000 };
    assert_eq!(to_world((-3, 0), tilted), (-1, 2));
}

#[test]
fn heading_must_be_unit_length() {
    assert!(facing_z().is_valid());
    assert!(Heading { x: 600000, z: -800000 }.is_valid());
    assert!(Heading { x: 100000, z: 994987 }.is_valid());
    assert!(!Heading { x: 0, z: 0 }.is_valid());
    assert!(!Heading { x: HEADING_ONE, z: HEADING_ONE }.is_valid());
    assert!(!Heading { x: 0, z: HEADING_ONE + 1 }.is_valid());
}

#[test]
fn turned_body_moves_at_configured_speed() {
    let config = ControllerConfig::default();
    let mut c = PlayerController::new(&config);
    let forward = InputState { forward: true, ..no_input() };
    c.movement_controls(&forward, Heading { x: 100000, z: 994987 }, TICK, &config);
    let v = c.velocity.value;
    assert_eq!(v.y, 0);
    let speed = ((v.x * v.x + v.z * v.z) as f64).sqrt();
    assert!((speed - 10_000_000.0).abs() <= 100.0, "speed {}", speed);
    let diagonal = InputState { forward: true, strafe_right: true, ..no_input() };
    c.movement_controls(&diagonal, Heading { x: 600000, z: -800000 }, TICK, &config);
    let v = c.velocity.value;
    let speed = ((v.x * v.x + v.z * v.z) as f64).sqrt();
    assert!((speed - 10_000_000.0).abs() <= 100.0, "speed {}", speed);
}

#[test]
fn velocity_new_holds_value() {
    let v = Velocity::new(Vec3i { x: 1, y: 2, z: 3 });
    assert_eq!(v.value, Vec3i { x: 1, y: 2, z: 3 });
}

#[test]
fn new_controller_is_idle() {
    let config = ControllerConfig::default();
    let c = PlayerController::new(&config);
    assert!(!c.is_on_ground);
    assert_eq!(c.velocity.value, Vec3i { x: 0, y: 0, z: 0 });
    assert_eq!(c.jump_timer.remaining(), JUMP_COOLDOWN);
}

#[test]
fn scenario_jump_when_grounded_and_ready() {
    let config = ControllerConfig::default();
    let mut c = ready_controller(&config);
    let mut linear = Vec3i { x: 0, y: -40, z: 0 };
    let input = InputState { jump: true, ..no_input() };
    let out = c.step(&[hit(1000)], &input, facing_z(), TICK, &config, &mut linear);
    assert!(c.is_on_ground);
    assert!(out.jumped);
    assert_eq!(out.impulse, Vec3i { x: 0, y: 75_000_000, z: 0 });
    assert_eq!(c.jump_timer.remaining(), JUMP_COOLDOWN);
    assert_eq!(linear.y, -40);
    // The next tick asks for no further impulse.
    let out = c.step(&[hit(1000)], &input, facing_z(), TICK, &config, &mut linear);
    assert!(!out.jumped);
    assert_eq!(out.impulse, Vec3i { x: 0, y: 0, z: 0 });
}

#[test]
fn scenario_no_jump_during_cooldown() {
    let config = ControllerConfig::default();
    let mut c = PlayerController::new(&config);
    let mut linear = Vec3i { x: 0, y: 0, z: 0 };
    let input = InputState { jump: true, ..no_input() };
    let out = c.step(&[hit(1000)], &input, facing_z(), TICK, &config, &mut linear);
    assert!(c.is_on_ground);
    assert!(!out.jumped);
    assert_eq!(out.impulse.y, 0);
    assert_eq!(c.velocity.value.y, 0);
    assert_eq!(c.jump_timer.remaining(), JUMP_COOLDOWN - TICK);
    let out = c.step(&[hit(1000)], &input, facing_z(), TICK, &config, &mut linear);
    assert!(!out.jumped);
    assert_eq!(c.jump_timer.remaining(), JUMP_COOLDOWN - 2 * TICK);
}

#[test]
fn scenario_forward_facing_z() {
    let config = ControllerConfig::default();
    let mut c = PlayerController::new(&config);
    let mut linear = Vec3i { x: 5, y: 3, z: 5 };
    let input = InputState { forward: true, ..no_input() };
    let out = c.step(&[], &input, facing_z(), TICK, &config, &mut linear);
    assert_eq!(c.velocity.value, Vec3i { x: 0, y: 0, z: 10_000_000 });
    assert_eq!(linear, Vec3i { x: 0, y: 3, z: 10_000_000 });
    assert_eq!(out.yaw_delta, 0);
}

#[test]
fn scenario_no_hits_three_ticks() {
    let config = ControllerConfig::default();
    let mut c = ready_controller(&config);
    let mut linear = Vec3i { x: 0, y: 0, z: 0 };
    let input = InputState { jump: true, ..no_input() };
    for _ in 0..3 {
        let out = c.step(&[], &input, facing_z(), TICK, &config, &mut linear);
        assert!(!c.is_on_ground);
        assert!(!out.jumped);
        assert_eq!(out.impulse.y, 0);
    }
}

#[test]
fn opposing_keys_give_no_motion() {
    let config = ControllerConfig::default();
    let mut c = PlayerController::new(&config);
    let input = InputState {
        forward: true,
        back: true,
        strafe_left: true,
        strafe_right: true,
        ..no_input()
    };
    let heading = Heading { x: 600000, z: -800000 };
    c.movement_controls(&input, heading, TICK, &config);
    assert_eq!(c.velocity.value, Vec3i { x: 0, y: 0, z: 0 });
    let input = InputState { forward: true, back: true, strafe_left: true, ..no_input() };
    c.movement_controls(&input, facing_z(), TICK, &config);
    assert_eq!(c.velocity.value, Vec3i { x: 10_000_000, y: 0, z: 0 });
}

#[test]
fn turning_keys_set_yaw() {
    let config = ControllerConfig::default();
    let mut c = PlayerController::new(&config);
    let left = InputState { turn_left: true, ..no_input() };
    assert_eq!(c.movement_controls(&left, facing_z(), TICK, &config).yaw_delta, 50);
    let right = InputState { turn_right: true, ..no_input() };
    assert_eq!(c.movement_controls(&right, facing_z(), TICK, &config).yaw_delta, -50);
    let both = InputState { turn_left: true, turn_right: true, ..no_input() };
    assert_eq!(c.movement_controls(&both, facing_z(), TICK, &config).yaw_delta, 0);
}

#[test]
fn sensing_keeps_other_state() {
    let config = ControllerConfig::default();
    let mut c = PlayerController::new(&config);
    c.velocity = Velocity::new(Vec3i { x: 1, y: 2, z: 3 });
    c.check_is_on_ground(&[hit(2000)], config.ground_distance);
    assert!(!c.is_on_ground);
    c.check_is_on_ground(&[hit(1010)], config.ground_distance);
    assert!(c.is_on_ground);
    assert_eq!(c.velocity.value, Vec3i { x: 1, y: 2, z: 3 });
    assert_eq!(c.apply_impulses(), Vec3i { x: 0, y: 2, z: 0 });
    let mut linear = Vec3i { x: 9, y: 9, z: 9 };
    c.update_linear_velocity(&mut linear);
    assert_eq!(linear, Vec3i { x: 1, y: 9, z: 3 });
}

#[test]
fn yaw_delta_follows_turn_keys() {
    let left = InputState { turn_left: true, ..no_input() };
    assert_eq!(yaw_delta(&left, 50), 50);
    let right = InputState { turn_right: true, ..no_input() };
    assert_eq!(yaw_delta(&right, 50), -50);
    assert_eq!(yaw_delta(&no_input(), 50), 0);
}
