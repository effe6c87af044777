//! The simulation core of a top-down arcade shooter: a deterministic, fixed-point
//! per-frame update of the player, enemies, projectiles, pickups, target and camera.
//! Positions are in sub-pixels, speeds in sub-pixels per second, angles in
//! micro-radians and time in nanoseconds; randomness comes from one seeded generator.
pub mod angle;
pub mod camera;
pub mod combat;
pub mod enemies;
pub mod kinematics;
pub mod pickups;
pub mod player;
pub mod projectiles;
pub mod random;
pub mod target;
pub mod timer;
pub mod tuning;
pub mod world;
