use kinetic_control::orientation::MouseMotion;
use kinetic_control::FPSRotationRhusicsSystem;
use kinetic_control::RotationControl;

fn motions(list: &[(i64, i64)]) -> Vec<MouseMotion> {
    list.iter().map(|&(dx, dy)| MouseMotion { dx, dy }).collect()
}

#[test]
fn orientation_accumulates_yaw_and_pitch() {
    let system = FPSRotationRhusicsSystem::new(1000, 1000);
    let mut controls = vec![RotationControl::default()];
    system.run(&mut controls, &motions(&[(10, -20)]), true, true);
    // yaw moves against the horizontal delta, pitch with the vertical one
    assert_eq!(controls[0].mouse_accum_x, -10_000);
    assert_eq!(controls[0].mouse_accum_y, -20_000);
}

#[test]
fn orientation_pitch_clamps_exactly_at_limit() {
    // feeding the pitch past 89.5 degrees lands exactly on the boundary
    let system = FPSRotationRhusicsSystem::new(1000, 1000);
    let mut controls = vec![RotationControl::default()];
    system.run(&mut controls, &motions(&[(0, 60_000), (0, 60_000)]), true, true);
    assert_eq!(controls[0].mouse_accum_y, 89_500);
    // and below -89.5 the same way
    system.run(&mut controls, &motions(&[(0, -90_000), (0, -90_000), (0, -30_000)]), true, true);
    assert_eq!(controls[0].mouse_accum_y, -89_500);
}

#[test]
fn orientation_pitch_repeated_small_deltas_clamp() {
    let system = FPSRotationRhusicsSystem::new(1000, 1000);
    let mut controls = vec![RotationControl::default()];
    let events: Vec<MouseMotion> = (0..100).map(|_| MouseMotion { dx: 0, dy: 1000 }).collect();
    system.run(&mut controls, &events, true, true);
    assert_eq!(controls[0].mouse_accum_y, 89_500);
}

#[test]
fn orientation_ignored_without_focus_or_capture() {
    let system = FPSRotationRhusicsSystem::new(1000, 1000);
    let mut controls = vec![RotationControl::default()];
    system.run(&mut controls, &motions(&[(10, 20)]), false, true);
    system.run(&mut controls, &motions(&[(10, 20)]), true, false);
    assert_eq!(controls[0].mouse_accum_x, 0);
    assert_eq!(controls[0].mouse_accum_y, 0);
}

#[test]
fn orientation_outputs_split_pitch_and_yaw() {
    let system = FPSRotationRhusicsSystem::new(1000, 1000);
    let mut controls = vec![RotationControl::default()];
    system.run(&mut controls, &motions(&[(5, 7)]), true, true);
    // the visual transform takes the negated pitch accumulator
    assert_eq!(controls[0].transform_pitch(), -7000);
    // the physics body takes the yaw accumulator
    assert_eq!(controls[0].body_yaw(), -5000);
}

#[test]
fn orientation_sensitivity_scales_deltas() {
    let system = FPSRotationRhusicsSystem::new(500, 2000);
    let mut controls = vec![RotationControl::default()];
    system.run(&mut controls, &motions(&[(10, 10)]), true, true);
    assert_eq!(controls[0].mouse_accum_x, -5000);
    assert_eq!(controls[0].mouse_accum_y, 20_000);
}
