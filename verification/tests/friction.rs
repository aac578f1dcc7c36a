use kinetic_control::friction::apply_friction_single;
use kinetic_control::friction::FrictionBody;
use kinetic_control::FrictionMode;
use kinetic_control::GroundFriction3D;
use kinetic_control::GroundFrictionSystem;
use kinetic_control::Grounded;
use kinetic_control::vector::Vec3;

fn v3(x: i64, y: i64, z: i64) -> Vec3 {
    Vec3 { x, y, z }
}

fn grounded_since(since: i64) -> Grounded {
    let mut g = Grounded::new(2000, None);
    g.ground = true;
    g.since = since;
    g
}

#[test]
fn linear_friction_moves_towards_zero() {
    assert_eq!(apply_friction_single(5000, 2000), 3000);
    assert_eq!(apply_friction_single(-5000, 2000), -3000);
}

#[test]
fn linear_friction_clamps_exactly_at_zero() {
    // the decay never overshoots past zero, in either direction
    assert_eq!(apply_friction_single(1500, 2000), 0);
    assert_eq!(apply_friction_single(-1500, 2000), 0);
    assert_eq!(apply_friction_single(2000, 2000), 0);
    assert_eq!(apply_friction_single(0, 2000), 0);
}

#[test]
fn linear_friction_never_changes_sign() {
    let mut v: i64 = 700;
    for _ in 0..10 {
        v = apply_friction_single(v, 300);
        assert!(v >= 0);
    }
    assert_eq!(v, 0);
}

#[test]
fn friction_system_linear_tick() {
    let system = GroundFrictionSystem;
    let mut bodies = vec![FrictionBody {
        grounded: grounded_since(0),
        friction: GroundFriction3D::new(500, FrictionMode::Linear, 200),
        velocity: v3(4000, -77, -30),
    }];
    // decay 0.5 per second over 0.1 seconds takes 0.05 off each axis;
    // the vertical axis is untouched and the short z axis clamps to zero
    system.run(&mut bodies, 10_000, 100);
    assert_eq!(bodies[0].velocity, v3(3950, -77, 0));
}

#[test]
fn friction_system_percent_tick() {
    let system = GroundFrictionSystem;
    let mut bodies = vec![FrictionBody {
        grounded: grounded_since(0),
        friction: GroundFriction3D::new(500, FrictionMode::Percent, 0),
        velocity: v3(4000, -77, -2000),
    }];
    // five percent of the magnitude comes off each planar axis
    system.run(&mut bodies, 10_000, 100);
    assert_eq!(bodies[0].velocity, v3(3800, -77, -1900));
}

#[test]
fn percent_friction_never_reaches_zero() {
    // a nonzero velocity decays but stays nonzero, tick after tick
    let system = GroundFrictionSystem;
    let mut bodies = vec![FrictionBody {
        grounded: grounded_since(0),
        friction: GroundFriction3D::new(500, FrictionMode::Percent, 0),
        velocity: v3(4000, 0, -1),
    }];
    let mut last_x: i64 = 4000;
    for _ in 0..200 {
        system.run(&mut bodies, 10_000, 100);
        let v = bodies[0].velocity;
        assert!(v.x > 0);
        assert!(v.x <= last_x);
        assert_eq!(v.z, -1);
        last_x = v.x;
    }
}

#[test]
fn friction_waits_for_grace_delay() {
    let system = GroundFrictionSystem;
    let mut bodies = vec![FrictionBody {
        grounded: grounded_since(900),
        friction: GroundFriction3D::new(500, FrictionMode::Linear, 200),
        velocity: v3(4000, 0, 0),
    }];
    // grounded for 0.1 seconds, grace delay 0.2: nothing happens yet
    system.run(&mut bodies, 1000, 100);
    assert_eq!(bodies[0].velocity, v3(4000, 0, 0));
    // at 0.2 seconds the decay starts
    system.run(&mut bodies, 1100, 100);
    assert_eq!(bodies[0].velocity, v3(3950, 0, 0));
}

#[test]
fn friction_skips_airborne_entities() {
    let system = GroundFrictionSystem;
    let mut bodies = vec![FrictionBody {
        grounded: Grounded::new(2000, None),
        friction: GroundFriction3D::new(500, FrictionMode::Linear, 0),
        velocity: v3(4000, 0, 0),
    }];
    system.run(&mut bodies, 10_000, 100);
    assert_eq!(bodies[0].velocity, v3(4000, 0, 0));
}
