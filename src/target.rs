//! The roaming target: touching it scores and refills ammunition; the HUD shows a star
//! per point and an arrow points from the player towards the target.
use crate::kinematics::{
    bounded, distance_squared, norm2, resized, tdiv, translate, vtranslate,
    with_length, Vec2, SPEED_LIMIT, WORLD_LIMIT,
};
use crate::player::Player;
use crate::random::{draw_i64, random_direction};
use crate::tuning::{
    JERRY_CAN_FUEL_COUNT, MAX_SCORE, STAR_SPACING, TARGET_MAX_DISTANCE, TARGET_MIN_DISTANCE,
    TARGET_RADIUS, VIEW_HEIGHT, VIEW_WIDTH,
};
use rand::rngs::StdRng;
use vstd::prelude::*;

verus! {

/// Distance from the player at which the arrow is drawn.
pub const ARROW_DISTANCE: i64 = 20000;

/// Offsets beyond the velocity bound are shrunk by this factor before being resized.
pub const ARROW_SHRINK: i64 = 2048;

/// The player is within `TARGET_RADIUS` of the target.
pub open spec fn touches(player: Vec2, target: Vec2) -> bool {
    norm2(player.x - target.x, player.y - target.y) < TARGET_RADIUS * TARGET_RADIUS
}

/// The player after a touch test against `target` (see `touch_target`).
pub open spec fn after_touch(p: Player, target: Vec2) -> Player {
    if touches(p.position, target) && p.score < MAX_SCORE {
        Player {
            score: (p.score + 1) as u32,
            ammunition: if p.ammunition + JERRY_CAN_FUEL_COUNT > u32::MAX {
                u32::MAX
            } else {
                (p.ammunition + JERRY_CAN_FUEL_COUNT) as u32
            },
            ..p
        }
    } else {
        p
    }
}

/// A place in the ring where targets appear, up to rounding.
pub open spec fn in_target_ring(t: Vec2) -> bool {
    &&& bounded(t, TARGET_MAX_DISTANCE as int)
    &&& (TARGET_MIN_DISTANCE - 2) * (TARGET_MIN_DISTANCE - 2) <= norm2(t.x as int, t.y as int)
    &&& norm2(t.x as int, t.y as int) < (TARGET_MAX_DISTANCE + 1) * (TARGET_MAX_DISTANCE + 1)
}

/// Scores a touch of `target` (see `after_touch`); returns whether the player touches it.
fn score_touch(player: &mut Player, target: Vec2) -> (touched: bool)
    requires
        bounded(old(player).position, WORLD_LIMIT as int),
        bounded(target, WORLD_LIMIT as int),
    ensures
        touched == touches(old(player).position, target),
        *final(player) == after_touch(*old(player), target),
{
    let touched = distance_squared(player.position, target) < (TARGET_RADIUS * TARGET_RADIUS) as u128;
    if touched && player.score < MAX_SCORE {
        player.score = player.score + 1;
        player.ammunition = player.ammunition.saturating_add(JERRY_CAN_FUEL_COUNT);
    }
    touched
}

/// Tests whether the player touches the target. On a touch the player scores a point and
/// gains `JERRY_CAN_FUEL_COUNT` ammunition (unless the score is already `MAX_SCORE`), and
/// the target moves to a new random place in the ring. Without a player or a target
/// nothing happens. Returns whether the target was touched, for the touch sound.
pub fn touch_target(rng: &mut StdRng, player: &mut Option<Player>, target: &mut Option<Vec2>) -> (touched: bool)
    requires
        *old(player) matches Some(p) ==> bounded(p.position, WORLD_LIMIT as int),
        *old(target) matches Some(t) ==> bounded(t, WORLD_LIMIT as int),
    ensures
        match (*old(player), *old(target)) {
            (Some(p), Some(t)) => {
                &&& touched == touches(p.position, t)
                &&& *final(player) == Some(after_touch(p, t))
                &&& touched ==> (*final(target) matches Some(t2) && in_target_ring(t2))
                &&& !touched ==> *final(target) == *old(target)
            },
            _ => !touched && *final(player) == *old(player) && *final(target) == *old(target),
        },
{
    match (*player, *target) {
        (Some(p), Some(t)) => {
            let mut p2 = p;
            let touched = score_touch(&mut p2, t);
            *player = Some(p2);
            if touched {
                let spot = random_target_location(rng);
                *target = Some(spot);
            }
            touched
        },
        _ => false,
    }
}

/// A new place for the target: in a random direction from the origin, at a random
/// distance between `TARGET_MIN_DISTANCE` and `TARGET_MAX_DISTANCE`, up to rounding.
pub fn random_target_location(rng: &mut StdRng) -> (r: Vec2)
    ensures
        in_target_ring(r),
        (TARGET_MIN_DISTANCE - 2) * (TARGET_MIN_DISTANCE - 2) <= norm2(r.x as int, r.y as int),
        norm2(r.x as int, r.y as int) < (TARGET_MAX_DISTANCE + 1) * (TARGET_MAX_DISTANCE + 1),
        bounded(r, TARGET_MAX_DISTANCE as int),
{
    let distance = draw_i64(rng, TARGET_MIN_DISTANCE, TARGET_MAX_DISTANCE);
    let r = random_direction(rng, distance);
    assert((TARGET_MIN_DISTANCE - 2) * (TARGET_MIN_DISTANCE - 2) <= (distance - 2) * (distance - 2)) by (nonlinear_arith)
        requires
            TARGET_MIN_DISTANCE <= distance,
    ;
    assert((distance + 1) * (distance + 1) <= (TARGET_MAX_DISTANCE + 1) * (TARGET_MAX_DISTANCE + 1)) by (nonlinear_arith)
        requires
            0 <= distance <= TARGET_MAX_DISTANCE,
    ;
    r
}

/// The offset from player to target, shrunk by `ARROW_SHRINK` when it exceeds the
/// velocity bound, so that it can be resized.
pub open spec fn arrow_offset(player: Vec2, target: Vec2) -> Vec2 {
    let d = Vec2 { x: (target.x - player.x) as i64, y: (target.y - player.y) as i64 };
    if bounded(d, SPEED_LIMIT as int) {
        d
    } else {
        Vec2 { x: tdiv(d.x as int, ARROW_SHRINK as int) as i64, y: tdiv(d.y as int, ARROW_SHRINK as int) as i64 }
    }
}

/// Where the arrow stands: `ARROW_DISTANCE` from the player towards the target (on the
/// player itself when the two coincide).
pub open spec fn arrow_at(player: Vec2, target: Vec2) -> Vec2 {
    vtranslate(player, resized(arrow_offset(player, target), ARROW_DISTANCE as int))
}

/// Where the arrow pointing from the player to the target stands.
pub fn arrow_position(player: Vec2, target: Vec2) -> (r: Vec2)
    requires
        bounded(player, WORLD_LIMIT as int),
        bounded(target, WORLD_LIMIT as int),
    ensures
        r == arrow_at(player, target),
{
    let d = Vec2 { x: target.x - player.x, y: target.y - player.y };
    let off = if -SPEED_LIMIT <= d.x && d.x <= SPEED_LIMIT && -SPEED_LIMIT <= d.y && d.y <= SPEED_LIMIT {
        d
    } else {
        Vec2 { x: d.x / ARROW_SHRINK, y: d.y / ARROW_SHRINK }
    };
    translate(player, with_length(off, ARROW_DISTANCE))
}

/// Where the `i`-th star sits, relative to the camera: a row along the top-left of the view.
pub open spec fn star_offset(i: int) -> (int, int) {
    (-VIEW_WIDTH / 2 + i * STAR_SPACING + 8000, VIEW_HEIGHT / 2 - 10000)
}

/// The positions of one star per point of `score`, for a camera at `camera`.
pub fn star_positions(score: u32, camera: Vec2) -> (r: Vec<Vec2>)
    requires
        bounded(camera, WORLD_LIMIT as int),
    ensures
        r@.len() == score,
        forall|i: int|
            0 <= i < score ==> (#[trigger] r@[i]).x == camera.x + star_offset(i).0 && r@[i].y
                == camera.y + star_offset(i).1,
{
    let mut r: Vec<Vec2> = Vec::new();
    let mut i: u32 = 0;
    while i < score
        invariant
            i <= score,
            r@.len() == i,
            bounded(camera, WORLD_LIMIT as int),
            forall|k: int|
                0 <= k < i ==> (#[trigger] r@[k]).x == camera.x + star_offset(k).0 && r@[k].y
                    == camera.y + star_offset(k).1,
        decreases score - i,
    {
        let x = camera.x - VIEW_WIDTH / 2 + (i as i64) * STAR_SPACING + 8000;
        let y = camera.y + VIEW_HEIGHT / 2 - 10000;
        r.push(Vec2 { x, y });
        i = i + 1;
    }
    r
}

} // verus!
