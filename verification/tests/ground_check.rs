use kinetic_control::ground::GroundBody;
use kinetic_control::GroundCheckerSystem;
use kinetic_control::Grounded;
use kinetic_control::RayHit;
use kinetic_control::vector::Vec3;

fn v3(x: i64, y: i64, z: i64) -> Vec3 {
    Vec3 { x, y, z }
}

fn hit(entity: u64, y: i64, object_type: Option<u64>) -> RayHit {
    RayHit { entity, point: v3(0, y, 0), object_type }
}

fn probe(hits: Vec<RayHit>) -> GroundBody {
    GroundBody { entity: 1, position: v3(0, 0, 0), grounded: Grounded::new(2000, None), hits }
}

#[test]
fn ground_found_on_qualifying_hit() {
    let system = GroundCheckerSystem::new(vec![7]);
    let mut bodies = vec![probe(vec![hit(2, -1500, Some(7))])];
    system.run(&mut bodies, 500);
    assert!(bodies[0].grounded.ground);
    assert_eq!(bodies[0].grounded.since, 500);
}

#[test]
fn ground_ignores_own_collider() {
    let system = GroundCheckerSystem::new(vec![7]);
    let mut bodies = vec![probe(vec![hit(1, -1500, Some(7))])];
    system.run(&mut bodies, 500);
    assert!(!bodies[0].grounded.ground);
}

#[test]
fn ground_ignores_distant_hit() {
    let system = GroundCheckerSystem::new(vec![7]);
    let mut bodies = vec![probe(vec![hit(2, -3000, Some(7))])];
    system.run(&mut bodies, 500);
    assert!(!bodies[0].grounded.ground);
}

#[test]
fn ground_requires_allowed_collider_type() {
    let system = GroundCheckerSystem::new(vec![7]);
    let mut bodies = vec![probe(vec![hit(2, -1500, Some(9)), hit(3, -1500, None)])];
    system.run(&mut bodies, 500);
    assert!(!bodies[0].grounded.ground);
}

#[test]
fn ground_no_hits_means_airborne() {
    let system = GroundCheckerSystem::new(vec![7]);
    let mut bodies = vec![probe(vec![])];
    system.run(&mut bodies, 500);
    assert!(!bodies[0].grounded.ground);
}

#[test]
fn ground_since_moves_only_on_transition() {
    let system = GroundCheckerSystem::new(vec![7]);
    let mut bodies = vec![probe(vec![hit(2, -1500, Some(7))])];
    // landing stamps the time
    system.run(&mut bodies, 500);
    assert_eq!(bodies[0].grounded.since, 500);
    // staying grounded keeps it
    system.run(&mut bodies, 600);
    assert!(bodies[0].grounded.ground);
    assert_eq!(bodies[0].grounded.since, 500);
    // leaving the ground keeps it too
    bodies[0].hits.clear();
    system.run(&mut bodies, 700);
    assert!(!bodies[0].grounded.ground);
    assert_eq!(bodies[0].grounded.since, 500);
    // landing again re-stamps it
    bodies[0].hits.push(hit(2, -1500, Some(7)));
    system.run(&mut bodies, 800);
    assert!(bodies[0].grounded.ground);
    assert_eq!(bodies[0].grounded.since, 800);
}

#[test]
fn ground_boundary_distance_counts() {
    // a hit exactly at the probe distance still counts
    let system = GroundCheckerSystem::new(vec![7]);
    let mut bodies = vec![probe(vec![hit(2, -2000, Some(7))])];
    system.run(&mut bodies, 500);
    assert!(bodies[0].grounded.ground);
}
