use kinetic_control::jump::JumpBody;
use kinetic_control::Jump;
use kinetic_control::JumpSystem;
use kinetic_control::Grounded;
use kinetic_control::StepCurve;
use kinetic_control::vector::Vec3;

fn v3(x: i64, y: i64, z: i64) -> Vec3 {
    Vec3 { x, y, z }
}

fn grounded_since(since: i64) -> Option<Grounded> {
    let mut g = Grounded::new(2000, None);
    g.ground = true;
    g.since = since;
    Some(g)
}

fn body(jump: Jump, grounded: Option<Grounded>) -> JumpBody {
    JumpBody { jump, grounded, force: v3(0, 0, 0), velocity: v3(0, 0, 0) }
}

#[test]
fn jump_adds_upward_force() {
    let mut system = JumpSystem::default();
    let mut bodies = vec![body(Jump::new(false, true, 10_000, false), grounded_since(500))];
    system.run(&mut bodies, 1000, true);
    // force path: the default multiplier is one
    assert_eq!(bodies[0].force, v3(0, 10_000, 0));
    assert_eq!(bodies[0].jump.last_jump, 1000);
    // the jump clears the ground flag so the stale probe cannot re-trigger
    assert!(!bodies[0].grounded.unwrap().ground);
}

#[test]
fn jump_within_cooldown_changes_nothing() {
    // pressing while now - last_jump is within the cooldown applies no
    // force or velocity and leaves the jump record alone
    let mut system = JumpSystem::default();
    let mut jump = Jump::new(false, true, 10_000, false);
    jump.last_jump = 10_000;
    jump.last_jump_offset = 42;
    let mut bodies = vec![body(jump, grounded_since(500))];
    system.run(&mut bodies, 10_200, true);
    assert_eq!(bodies[0].force, v3(0, 0, 0));
    assert_eq!(bodies[0].velocity, v3(0, 0, 0));
    assert_eq!(bodies[0].jump.last_jump, 10_000);
    assert_eq!(bodies[0].jump.last_jump_offset, 42);
    assert!(bodies[0].grounded.unwrap().ground);
}

#[test]
fn jump_timing_curve_negative_offset() {
    // grounded at 10.0, key pressed at 10.2: the offset is -0.2 and the
    // piece covering negative offsets applies
    let mut system = JumpSystem::default();
    let mut jump = Jump::new(false, true, 10_000, false);
    jump.jump_timing_boost = Some(StepCurve { pieces: vec![(-1000, 1500), (0, 2000)] });
    let mut bodies = vec![body(jump, grounded_since(10_000))];
    system.run(&mut bodies, 10_200, true);
    assert_eq!(bodies[0].jump.last_jump_offset, -200);
    // force 10 times the 1.5 multiplier of the negative piece
    assert_eq!(bodies[0].force, v3(0, 15_000, 0));
}

#[test]
fn jump_timing_curve_positive_offset() {
    // pressed at 9.8, grounded at 10.0: the offset is +0.2 and the piece
    // from zero up applies
    let mut system = JumpSystem::default();
    let mut jump = Jump::new(false, true, 10_000, false);
    jump.jump_timing_boost = Some(StepCurve { pieces: vec![(-1000, 1500), (0, 2000)] });
    let mut bodies = vec![body(jump, grounded_since(10_000))];
    // key goes down at 9.8 while airborne (not grounded yet): no jump
    bodies[0].grounded.as_mut().unwrap().ground = false;
    system.run(&mut bodies, 9800, true);
    assert_eq!(bodies[0].force, v3(0, 0, 0));
    // key released, ground reached, pressed again would re-stamp the press
    // time, so keep it held down: auto repeat off means the second tick
    // skips, so use an auto-jump controller for the landing tick
    bodies[0].jump.auto_jump = true;
    bodies[0].grounded.as_mut().unwrap().ground = true;
    system.run(&mut bodies, 10_100, true);
    assert_eq!(bodies[0].jump.last_jump_offset, 200);
    assert_eq!(bodies[0].force, v3(0, 20_000, 0));
}

#[test]
fn jump_absolute_sets_vertical_velocity_unmultiplied() {
    // the timing multiplier applies only to the force path: the absolute
    // path writes the raw jump force into the vertical velocity
    let mut system = JumpSystem::default();
    let mut jump = Jump::new(true, true, 9000, false);
    jump.jump_timing_boost = Some(StepCurve { pieces: vec![(-1_000_000, 1500)] });
    let mut bodies = vec![JumpBody {
        jump,
        grounded: grounded_since(500),
        force: v3(0, 0, 0),
        velocity: v3(300, -50, 700),
    }];
    system.run(&mut bodies, 1000, true);
    assert_eq!(bodies[0].velocity, v3(300, 9000, 700));
    assert_eq!(bodies[0].force, v3(0, 0, 0));
}

#[test]
fn jump_requires_ground() {
    let mut system = JumpSystem::default();
    // airborne entity with ground checking on: no jump
    let mut airborne = body(Jump::new(false, true, 10_000, false), Some(Grounded::new(2000, None)));
    airborne.grounded.as_mut().unwrap().ground = false;
    let mut bodies = vec![airborne];
    system.run(&mut bodies, 1000, true);
    assert_eq!(bodies[0].force, v3(0, 0, 0));
    // an entity with no ground state at all is skipped too
    let mut no_ground = vec![body(Jump::new(false, true, 10_000, false), None)];
    let mut system2 = JumpSystem::default();
    system2.run(&mut no_ground, 1000, true);
    assert_eq!(no_ground[0].force, v3(0, 0, 0));
}

#[test]
fn jump_without_ground_check_jumps_airborne() {
    let mut system = JumpSystem::default();
    let mut bodies = vec![body(Jump::new(false, false, 10_000, false), None)];
    system.run(&mut bodies, 1000, true);
    assert_eq!(bodies[0].force, v3(0, 10_000, 0));
}

#[test]
fn jump_edge_trigger_skips_held_key() {
    let mut system = JumpSystem::default();
    let mut bodies = vec![body(Jump::new(false, true, 10_000, false), grounded_since(0))];
    system.run(&mut bodies, 1000, true);
    assert_eq!(bodies[0].jump.last_jump, 1000);
    // ground restored, cooldown long past, but the key never went up
    bodies[0].grounded.as_mut().unwrap().ground = true;
    system.run(&mut bodies, 2000, true);
    assert_eq!(bodies[0].jump.last_jump, 1000);
    // releasing and pressing again jumps
    system.run(&mut bodies, 2500, false);
    bodies[0].grounded.as_mut().unwrap().ground = true;
    system.run(&mut bodies, 3000, true);
    assert_eq!(bodies[0].jump.last_jump, 3000);
}

#[test]
fn jump_auto_repeat_jumps_while_held() {
    let mut system = JumpSystem::default();
    let mut bodies = vec![body(Jump::new(false, true, 10_000, true), grounded_since(0))];
    system.run(&mut bodies, 1000, true);
    assert_eq!(bodies[0].jump.last_jump, 1000);
    bodies[0].grounded.as_mut().unwrap().ground = true;
    // still held two seconds later: an auto-jump controller jumps again
    system.run(&mut bodies, 3000, true);
    assert_eq!(bodies[0].jump.last_jump, 3000);
}

#[test]
fn jump_shared_debounce_blocks_second_entity() {
    // the input debounce is shared: once the first entity accepts the
    // press, the second entity of the same tick is ignored
    let mut system = JumpSystem::default();
    let mut bodies = vec![
        body(Jump::new(false, true, 10_000, false), grounded_since(0)),
        body(Jump::new(false, true, 10_000, false), grounded_since(0)),
    ];
    system.run(&mut bodies, 1000, true);
    assert_eq!(bodies[0].force, v3(0, 10_000, 0));
    assert_eq!(bodies[1].force, v3(0, 0, 0));
}

#[test]
fn jump_release_clears_hold() {
    let mut system = JumpSystem::default();
    let mut bodies = vec![body(Jump::new(false, true, 10_000, false), grounded_since(0))];
    system.run(&mut bodies, 1000, true);
    assert!(system.input_hold);
    system.run(&mut bodies, 1100, false);
    assert!(!system.input_hold);
}
