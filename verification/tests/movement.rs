use kinetic_control::movement::BhopBody;
use kinetic_control::movement::FpsBody;
use kinetic_control::vector::Rotation2D;
use kinetic_control::vector::Vec2;
use kinetic_control::vector::Vec3;
use kinetic_control::BhopMovement3D;
use kinetic_control::BhopMovementSystem;
use kinetic_control::FpsMovement;
use kinetic_control::FpsMovementSystemSimple;
use kinetic_control::Grounded;
use kinetic_control::accelerate_vector;
use kinetic_control::counter_impulse;
use kinetic_control::limit_velocity;

fn v3(x: i64, y: i64, z: i64) -> Vec3 {
    Vec3 { x, y, z }
}

#[test]
fn accelerate_from_rest_one_tick() {
    // grounded entity, acceleration 10, cap 5, input (1, 0), dt 0.1:
    // planar x velocity after one tick is min(5, 0 + 10 * 0.1) = 1.0
    let r = accelerate_vector(100, Vec2 { x: 1000, y: 0 }, v3(0, 0, 0), 10_000, 5000);
    assert_eq!(r, v3(1000, 0, 0));
}

#[test]
fn accelerate_parallel_clamps_at_cap() {
    // moving at 4.5 along the input: the projection clamp leaves 0.5
    let r = accelerate_vector(100, Vec2 { x: 1000, y: 0 }, v3(4500, 0, 0), 10_000, 5000);
    assert_eq!(r, v3(5000, 0, 0));
}

#[test]
fn accelerate_parallel_over_cap_unchanged() {
    // already past the cap along the input: nothing is added
    let r = accelerate_vector(100, Vec2 { x: 1000, y: 0 }, v3(6000, 0, 0), 10_000, 5000);
    assert_eq!(r, v3(6000, 0, 0));
}

#[test]
fn accelerate_orthogonal_exceeds_cap() {
    // at the cap, an orthogonal input still adds at full strength, so the
    // total speed passes the cap: the strafing rule
    let r = accelerate_vector(100, Vec2 { x: 0, y: 1000 }, v3(5000, 0, 0), 10_000, 5000);
    assert_eq!(r, v3(5000, 0, 1000));
    let speed_sq = r.x * r.x + r.z * r.z;
    assert!(speed_sq > 5000 * 5000);
}

#[test]
fn accelerate_no_input_unchanged() {
    let r = accelerate_vector(100, Vec2 { x: 0, y: 0 }, v3(1234, 5, -7), 10_000, 5000);
    assert_eq!(r, v3(1234, 5, -7));
}

#[test]
fn counter_impulse_zeroes_opposed_axis() {
    let r = counter_impulse(Vec2 { x: -1000, y: 0 }, v3(2000, 50, 300));
    assert_eq!(r, v3(0, 50, 300));
}

#[test]
fn counter_impulse_respects_deadzone() {
    // a velocity at the deadzone itself is not zeroed
    let r = counter_impulse(Vec2 { x: -1000, y: 0 }, v3(1, 50, 0));
    assert_eq!(r, v3(1, 50, 0));
    // just past the deadzone it is
    let r2 = counter_impulse(Vec2 { x: -1000, y: 0 }, v3(2, 50, 0));
    assert_eq!(r2, v3(0, 50, 0));
}

#[test]
fn counter_impulse_forward_axis_signs() {
    // pushing forward (positive y axis) against positive z velocity stops it
    let r = counter_impulse(Vec2 { x: 0, y: 1000 }, v3(0, 0, 500));
    assert_eq!(r, v3(0, 0, 0));
    // and pulling back against negative z velocity stops that
    let r2 = counter_impulse(Vec2 { x: 0, y: -1000 }, v3(0, 0, -500));
    assert_eq!(r2, v3(0, 0, 0));
}

#[test]
fn limit_velocity_rescales_exactly() {
    // planar speed 5 with cap 1: components scale to a 3-4-5 triangle
    let r = limit_velocity(v3(3000, 7, 4000), 1000);
    assert_eq!(r, v3(600, 7, 800));
}

#[test]
fn limit_velocity_keeps_signs() {
    let r = limit_velocity(v3(-3000, 7, -4000), 1000);
    assert_eq!(r, v3(-600, 7, -800));
}

#[test]
fn limit_velocity_idempotent() {
    // applying the limit twice gives the same result as applying it once
    let once = limit_velocity(v3(3117, -9, 4923), 1000);
    let twice = limit_velocity(once, 1000);
    assert_eq!(once, twice);
}

#[test]
fn limit_velocity_zero_cap_is_unlimited() {
    let r = limit_velocity(v3(90_000, 3, 120_000), 0);
    assert_eq!(r, v3(90_000, 3, 120_000));
}

#[test]
fn limit_velocity_under_cap_unchanged() {
    let r = limit_velocity(v3(600, 3, 800), 1000);
    assert_eq!(r, v3(600, 3, 800));
}

fn grounded_now() -> Grounded {
    let mut g = Grounded::new(2000, None);
    g.ground = true;
    g
}

#[test]
fn bhop_grounded_tick_from_rest() {
    // the end-to-end form of the one-tick acceleration scenario
    let system = BhopMovementSystem;
    let mut bodies = vec![BhopBody {
        movement: BhopMovement3D::new(false, 10_000, 3000, 5000, 2000, false),
        grounded: grounded_now(),
        rotation: Rotation2D::identity(),
        velocity: v3(0, 0, 0),
    }];
    system.run(&mut bodies, Vec2 { x: 1000, y: 0 }, 100);
    assert_eq!(bodies[0].velocity, v3(1000, 0, 0));
}

#[test]
fn bhop_counter_impulse_reverses() {
    // counter-impulse on: moving at x = 2.0 and pressing the opposite way
    // zeroes the axis before accelerating, so the tick ends at x = -1.0
    let system = BhopMovementSystem;
    let mut movement = BhopMovement3D::new(false, 10_000, 3000, 5000, 2000, false);
    movement.counter_impulse = true;
    let mut bodies = vec![BhopBody {
        movement,
        grounded: grounded_now(),
        rotation: Rotation2D::identity(),
        velocity: v3(2000, 0, 0),
    }];
    system.run(&mut bodies, Vec2 { x: -1000, y: 0 }, 100);
    assert_eq!(bodies[0].velocity, v3(-1000, 0, 0));
}

#[test]
fn bhop_airborne_uses_air_settings() {
    let system = BhopMovementSystem;
    let mut body = BhopBody {
        movement: BhopMovement3D::new(false, 10_000, 3000, 5000, 2000, false),
        grounded: Grounded::new(2000, None),
        rotation: Rotation2D::identity(),
        velocity: v3(0, -500, 0),
    };
    body.grounded.ground = false;
    let mut bodies = vec![body];
    system.run(&mut bodies, Vec2 { x: 1000, y: 0 }, 100);
    // air acceleration 3 over 0.1 seconds
    assert_eq!(bodies[0].velocity, v3(300, -500, 0));
}

#[test]
fn bhop_absolute_mode_sets_velocity() {
    let system = BhopMovementSystem;
    let mut bodies = vec![BhopBody {
        movement: BhopMovement3D::new(true, 7000, 7000, 5000, 5000, false),
        grounded: grounded_now(),
        rotation: Rotation2D::identity(),
        velocity: v3(123, 42, 456),
    }];
    system.run(&mut bodies, Vec2 { x: 1000, y: 0 }, 100);
    // acceleration acts as a target speed; the vertical component is kept
    assert_eq!(bodies[0].velocity, v3(7000, 42, 0));
}

#[test]
fn bhop_no_input_is_skipped() {
    let system = BhopMovementSystem;
    let mut bodies = vec![BhopBody {
        movement: BhopMovement3D::new(false, 10_000, 3000, 5000, 2000, false),
        grounded: grounded_now(),
        rotation: Rotation2D::identity(),
        velocity: v3(777, 8, 999),
    }];
    system.run(&mut bodies, Vec2 { x: 0, y: 0 }, 100);
    assert_eq!(bodies[0].velocity, v3(777, 8, 999));
}

#[test]
fn bhop_projection_acceleration_keeps_over_cap_speed() {
    // with projection acceleration allowed, the over-cap strafe gain stays
    let system = BhopMovementSystem;
    let mut bodies = vec![BhopBody {
        movement: BhopMovement3D::new(false, 10_000, 10_000, 5000, 5000, true),
        grounded: grounded_now(),
        rotation: Rotation2D::identity(),
        velocity: v3(5000, 0, 0),
    }];
    system.run(&mut bodies, Vec2 { x: 0, y: 1000 }, 100);
    assert_eq!(bodies[0].velocity, v3(5000, 0, 1000));
    // the same tick with the hard limit on is pulled back onto the cap
    let mut limited = vec![BhopBody {
        movement: BhopMovement3D::new(false, 10_000, 10_000, 5000, 5000, false),
        grounded: grounded_now(),
        rotation: Rotation2D::identity(),
        velocity: v3(5000, 0, 0),
    }];
    system.run(&mut limited, Vec2 { x: 0, y: 1000 }, 100);
    let v = limited[0].velocity;
    assert!(v.x * v.x + v.z * v.z <= 5000 * 5000);
}

#[test]
fn rotation_exact_rotor_round_trip() {
    // a 3-4-5 rotor has an exact fixed-point cosine and sine, so rotating
    // into the local frame and back restores the vector exactly
    let r = Rotation2D { c: 600, s: 800 };
    let v = v3(1000, 5, 0);
    let turned = r.rotate(&v);
    assert_eq!(turned, v3(600, 5, -800));
    let back = r.rotate_inv(&turned);
    assert_eq!(back, v);
}

#[test]
fn bhop_moves_in_the_local_frame() {
    // with a quarter-turn rotor the right-axis input accelerates the body
    // along the world z axis
    let system = BhopMovementSystem;
    let mut bodies = vec![BhopBody {
        movement: BhopMovement3D::new(false, 10_000, 3000, 5000, 2000, false),
        grounded: grounded_now(),
        rotation: Rotation2D { c: 0, s: 1000 },
        velocity: v3(0, 0, 0),
    }];
    system.run(&mut bodies, Vec2 { x: 1000, y: 0 }, 100);
    assert_eq!(bodies[0].velocity, v3(0, 0, -1000));
}

#[test]
fn fps_movement_adds_scaled_force() {
    let system = FpsMovementSystemSimple;
    let mut bodies = vec![FpsBody {
        tag: FpsMovement::new(3000),
        rotation: Rotation2D::identity(),
        force: v3(10, 20, 30),
    }];
    system.run(&mut bodies, Vec2 { x: 1000, y: 0 }, 100);
    // speed 3 over 0.1 seconds along the unit input direction
    assert_eq!(bodies[0].force, v3(310, 20, 30));
}

#[test]
fn fps_movement_no_input_is_skipped() {
    let system = FpsMovementSystemSimple;
    let mut bodies = vec![FpsBody {
        tag: FpsMovement::new(3000),
        rotation: Rotation2D::identity(),
        force: v3(10, 20, 30),
    }];
    system.run(&mut bodies, Vec2 { x: 0, y: 0 }, 100);
    assert_eq!(bodies[0].force, v3(10, 20, 30));
}
