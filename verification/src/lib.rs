//! A first-person kinetic movement controller: per-tick rules that turn
//! player input into velocity and force changes for a simulated body.
//!
//! All physical quantities (seconds, units per second, degrees) are held as
//! fixed-point integers: `math::SCALE` fixed-point steps make one unit.

pub mod curve;
pub mod destroy;
pub mod friction;
pub mod ground;
pub mod jump;
pub mod loot;
pub mod math;
pub mod movement;
pub mod orientation;
pub mod vector;

pub use curve::StepCurve;
pub use destroy::DestroyAtTime;
pub use destroy::DestroyInTime;
pub use destroy::TimedDestroySystem;
pub use friction::FrictionMode;
pub use friction::GroundFriction3D;
pub use friction::GroundFrictionSystem;
pub use ground::GroundCheckerSystem;
pub use ground::Grounded;
pub use ground::RayHit;
pub use jump::Jump;
pub use jump::JumpSystem;
pub use loot::LootTree;
pub use loot::LootTreeBuilder;
pub use loot::LootTreeNode;
pub use math::value_near;
pub use movement::accelerate_vector;
pub use movement::counter_impulse;
pub use movement::limit_velocity;
pub use movement::BhopMovement3D;
pub use movement::BhopMovementSystem;
pub use movement::FpsMovement;
pub use movement::FpsMovementSystemSimple;
pub use orientation::FPSRotationRhusicsSystem;
pub use orientation::RotationControl;
pub use vector::Rotation2D;
pub use vector::Vec2;
pub use vector::Vec3;
