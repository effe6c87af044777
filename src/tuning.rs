//! Gameplay tuning, in fixed-point units: positions in sub-pixels
//! (`UNITS_PER_PIXEL` to a pixel), speeds in sub-pixels per second, angles in
//! micro-radians, times in nanoseconds.
use vstd::prelude::*;

verus! {

/// Width of the virtual canvas, in sub-pixels (320 pixels).
pub const VIEW_WIDTH: i64 = 320000;
/// Height of the virtual canvas, in sub-pixels (180 pixels).
pub const VIEW_HEIGHT: i64 = 180000;
/// Spacing of the background grid, in sub-pixels.
pub const DOT_DISTANCE: i64 = 10000;

/// Length of a heading vector: a facing direction scaled to this length.
pub const HEADING_UNIT: i64 = 1000000;

pub const CAMERA_FOLLOW_PERCENT_PER_SECOND: i64 = 95;
pub const CAMERA_LOOKAHEAD_DISTANCE: i64 = 170000;

pub const BOOST_ACCELERATION_SPEED: i64 = 11000;
pub const PASSIVE_ACCELERATION_SPEED: i64 = 5000;
pub const MAX_SPEED: i64 = 145000;
/// Player turn rate, in micro-radians per second.
pub const ROTATION_SPEED: i64 = 7000000;
/// Drag keeps `DRAG_PER_MILLE` thousandths of the velocity each frame.
pub const DRAG_PER_MILLE: i64 = 998;

pub const ENEMY_ACCELERATION: i64 = 8000;
pub const ENEMY_MAX_SPEED: i64 = 150000;
/// Enemy turn rate, in micro-radians per second.
pub const ENEMY_ROTATION_SPEED: i64 = 4000000;

pub const BULLET_SPEED: i64 = 70000;
pub const BULLET_VELOCITY_OFFSET: i64 = 30000;
pub const BURST_FRAGMENTS: u64 = 45;
pub const FRAGMENT_MIN_LIFETIME: u64 = 50000000;
pub const FRAGMENT_MAX_LIFETIME: u64 = 250000000;
/// Projectiles farther than this from the player are removed.
pub const BULLET_CULL_DISTANCE: i64 = 80000;

/// Base radius of the contact test between an enemy and a projectile.
pub const ENEMY_CONTACT_RADIUS: i64 = 4000;
/// A projectile's visual scale, added to the contact radius.
pub const BULLET_SCALE: i64 = 1732;

pub const GUN_COOLDOWN: u64 = 50000000;
pub const STARTING_AMMUNITION: u32 = 100;

pub const SPAWN_INITIAL_DURATION: u64 = 3000000000;
/// Each spawn multiplies the spawn interval by `SPAWN_DECAY_NUM / SPAWN_DECAY_DEN`.
pub const SPAWN_DECAY_NUM: u64 = 9;
pub const SPAWN_DECAY_DEN: u64 = 10;
/// An interval decayed below this is replaced by `SPAWN_RESET_DURATION`.
pub const SPAWN_THRESHOLD: u64 = 500000000;
pub const SPAWN_RESET_DURATION: u64 = 1000000000;
/// Enemies appear this far from the player.
pub const SPAWN_DISTANCE: i64 = 320000;

pub const JERRY_CAN_FUEL_COUNT: u32 = 60;
pub const JERRY_CAN_COLLECT_PERCENT: i64 = 45;
pub const PICKUP_RADIUS: i64 = 4000;
pub const PICKUP_DELAY: u64 = 1000000000;
pub const PICKUP_FRAME_TIME: u64 = 200000000;
pub const PICKUP_FRAMES: u32 = 9;
pub const HUD_ICON_SPACING: i64 = 9000;
pub const HUD_MARGIN: i64 = 10000;

pub const CAR_EXPLOSION_SHAKE_AMOUNT: u64 = 5000;
/// Each frame a shake keeps `SCREEN_SHAKE_FADE_PERCENT` percent of its magnitude.
pub const SCREEN_SHAKE_FADE_PERCENT: u64 = 90;
/// A shake weaker than this stops.
pub const SCREEN_SHAKE_MIN: u64 = 100;

pub const TARGET_RADIUS: i64 = 24000;
pub const MAX_SCORE: u32 = 35;
pub const TARGET_MIN_DISTANCE: i64 = 50000;
pub const TARGET_MAX_DISTANCE: i64 = 450000;
pub const STAR_SPACING: i64 = 9000;

} // verus!
