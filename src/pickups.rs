//! Fuel pickups: their animation, homing drift towards the player, collection, and the
//! HUD row of fuel icons derived from the ammunition.
use crate::kinematics::{bounded, distance_squared, lerp, norm2, vlerp, Vec2, WORLD_LIMIT};
use crate::random::draw_u64;
use crate::timer::{fresh_timer, ticked, timer_wf, Timer, TimerMode};
use crate::tuning::{
    HUD_ICON_SPACING, HUD_MARGIN, JERRY_CAN_COLLECT_PERCENT, JERRY_CAN_FUEL_COUNT,
    PICKUP_DELAY, PICKUP_FRAMES, PICKUP_FRAME_TIME, PICKUP_RADIUS, VIEW_HEIGHT, VIEW_WIDTH,
};
use rand::rngs::StdRng;
use vstd::prelude::*;

verus! {

/// A fuel canister lying in the world.
#[derive(Clone, Copy, Debug, PartialEq, Eq, Structural)]
pub struct Pickup {
    pub position: Vec2,
    /// Grace period before the pickup starts drifting towards the player.
    pub pickup_timer: Timer,
    pub frame_timer: Timer,
    /// Index into the animation sheet, `0..PICKUP_FRAMES`.
    pub frame: u32,
}

pub open spec fn pickup_wf(p: Pickup) -> bool {
    &&& bounded(p.position, WORLD_LIMIT as int)
    &&& p.frame < PICKUP_FRAMES
    &&& timer_wf(p.pickup_timer)
    &&& timer_wf(p.frame_timer)
}

/// The animation frame after `f`, wrapping to zero after the last.
pub open spec fn next_frame(f: u32) -> u32 {
    if f + 1 >= PICKUP_FRAMES {
        0
    } else {
        (f + 1) as u32
    }
}

/// A pickup just dropped at `position`.
pub open spec fn new_pickup(position: Vec2) -> Pickup {
    Pickup {
        position,
        pickup_timer: fresh_timer(PICKUP_DELAY, TimerMode::Once),
        frame_timer: fresh_timer(PICKUP_FRAME_TIME, TimerMode::Repeating),
        frame: 0,
    }
}

impl Pickup {
    /// A pickup at `position`, at the first frame, with its grace period just begun.
    pub fn new(position: Vec2) -> (r: Pickup)
        ensures
            r == new_pickup(position),
            r.position == position,
            r.pickup_timer == fresh_timer(PICKUP_DELAY, TimerMode::Once),
            r.frame_timer == fresh_timer(PICKUP_FRAME_TIME, TimerMode::Repeating),
            r.frame == 0,
    {
        Pickup {
            position,
            pickup_timer: Timer::new(PICKUP_DELAY, TimerMode::Once),
            frame_timer: Timer::new(PICKUP_FRAME_TIME, TimerMode::Repeating),
            frame: 0,
        }
    }
}

/// The animation frame after `f`, wrapping to zero after the last.
pub fn advance_frame(f: u32) -> (r: u32)
    requires
        f < PICKUP_FRAMES,
    ensures
        r == next_frame(f),
        r < PICKUP_FRAMES,
{
    if f + 1 >= PICKUP_FRAMES {
        0
    } else {
        f + 1
    }
}

/// The pickup after its animation timer has run for `dt`.
pub open spec fn animated(p: Pickup, dt: u64) -> Pickup {
    let t = ticked(p.frame_timer, dt);
    Pickup { frame_timer: t, frame: if t.times_finished_this_tick > 0 { next_frame(p.frame) } else { p.frame }, ..p }
}

/// Advances a pickup's animation by one frame time.
pub fn animate_pickup(p: &mut Pickup, dt: u64)
    requires
        old(p).frame < PICKUP_FRAMES,
    ensures
        *final(p) == animated(*old(p), dt),
        final(p).frame < PICKUP_FRAMES,
        timer_wf(old(p).frame_timer) ==> timer_wf(final(p).frame_timer),
{
    p.frame_timer.tick(dt);
    if p.frame_timer.just_finished() {
        p.frame = advance_frame(p.frame);
    }
}

/// The pickup after drifting for `dt`: once its grace period is over it moves
/// `JERRY_CAN_COLLECT_PERCENT` percent of the way to the player.
pub open spec fn homed(p: Pickup, player: Vec2, dt: u64) -> Pickup {
    let t = ticked(p.pickup_timer, dt);
    Pickup {
        pickup_timer: t,
        position: if t.finished {
            vlerp(p.position, player, JERRY_CAN_COLLECT_PERCENT as int, 100)
        } else {
            p.position
        },
        ..p
    }
}

/// The drifted pickup is within the pickup radius of the player.
pub open spec fn reached(p: Pickup, player: Vec2) -> bool {
    norm2(p.position.x - player.x, p.position.y - player.y) < PICKUP_RADIUS * PICKUP_RADIUS
}

/// The pickups left after one frame of drift and collection, in their order.
pub open spec fn uncollected(ps: Seq<Pickup>, player: Vec2, dt: u64) -> Seq<Pickup>
    decreases ps.len(),
{
    if ps.len() == 0 {
        Seq::empty()
    } else {
        let rest = uncollected(ps.drop_last(), player, dt);
        let p = homed(ps.last(), player, dt);
        if reached(p, player) {
            rest
        } else {
            rest.push(p)
        }
    }
}

/// How many pickups the player collects in one frame.
pub open spec fn collected_count(ps: Seq<Pickup>, player: Vec2, dt: u64) -> nat
    decreases ps.len(),
{
    if ps.len() == 0 {
        0
    } else {
        collected_count(ps.drop_last(), player, dt) + if reached(homed(ps.last(), player, dt), player) {
            1nat
        } else {
            0nat
        }
    }
}

/// Every pickup is either collected or left, once.
pub proof fn lemma_collected_count(ps: Seq<Pickup>, player: Vec2, dt: u64)
    ensures
        uncollected(ps, player, dt).len() + collected_count(ps, player, dt) == ps.len(),
    decreases ps.len(),
{
    if ps.len() > 0 {
        lemma_collected_count(ps.drop_last(), player, dt);
    }
}

/// Ammunition after collecting `n` pickups, saturating at `u32::MAX`.
pub open spec fn refilled(ammo: u32, n: nat) -> u32 {
    if ammo + n * JERRY_CAN_FUEL_COUNT > u32::MAX {
        u32::MAX
    } else {
        (ammo + n * JERRY_CAN_FUEL_COUNT) as u32
    }
}

/// One frame of drift and collection: every pickup's grace timer ticks and drifting
/// pickups move; those within reach of the player are removed and each adds
/// `JERRY_CAN_FUEL_COUNT` to `ammunition`.
pub fn collect_pickups(pickups: &mut Vec<Pickup>, player: Vec2, ammunition: &mut u32, dt: u64)
    requires
        forall|i: int| 0 <= i < old(pickups)@.len() ==> pickup_wf(#[trigger] old(pickups)@[i]),
        bounded(player, WORLD_LIMIT as int),
    ensures
        final(pickups)@ == uncollected(old(pickups)@, player, dt),
        *final(ammunition) == refilled(*old(ammunition), collected_count(old(pickups)@, player, dt)),
        forall|i: int| 0 <= i < final(pickups)@.len() ==> pickup_wf(#[trigger] final(pickups)@[i]),
{
    let ghost start = pickups@;
    let ghost ammo0 = *ammunition;
    let mut kept: Vec<Pickup> = Vec::new();
    let mut i: usize = 0;
    while i < pickups.len()
        invariant
            pickups@ == start,
            0 <= i <= start.len(),
            kept@ == uncollected(start.take(i as int), player, dt),
            *ammunition == refilled(ammo0, collected_count(start.take(i as int), player, dt)),
            bounded(player, WORLD_LIMIT as int),
            forall|j: int| 0 <= j < start.len() ==> pickup_wf(#[trigger] start[j]),
            forall|j: int| 0 <= j < kept@.len() ==> pickup_wf(#[trigger] kept@[j]),
        decreases start.len() - i,
    {
        let mut p = pickups[i];
        p.pickup_timer.tick(dt);
        if p.pickup_timer.finished() {
            p.position = lerp(p.position, player, JERRY_CAN_COLLECT_PERCENT, 100);
        }
        assert(start.take(i as int + 1).drop_last() =~= start.take(i as int));
        if distance_squared(p.position, player) < (PICKUP_RADIUS * PICKUP_RADIUS) as u128 {
            *ammunition = ammunition.saturating_add(JERRY_CAN_FUEL_COUNT);
        } else {
            kept.push(p);
        }
        i = i + 1;
    }
    assert(start.take(start.len() as int) =~= start);
    *pickups = kept;
}

/// The number of fuel icons the HUD shows: the ammunition divided by
/// `JERRY_CAN_FUEL_COUNT`, rounded up.
pub open spec fn icon_count(ammo: u32) -> int {
    (ammo + JERRY_CAN_FUEL_COUNT - 1) / JERRY_CAN_FUEL_COUNT as int
}

/// The number of fuel icons the HUD shows for `ammo`.
pub fn hud_icon_count(ammo: u32) -> (r: u64)
    ensures
        r == icon_count(ammo),
        r * JERRY_CAN_FUEL_COUNT >= ammo,
        r == 0 || (r - 1) * JERRY_CAN_FUEL_COUNT < ammo,
{
    ((ammo as u64) + (JERRY_CAN_FUEL_COUNT as u64) - 1) / (JERRY_CAN_FUEL_COUNT as u64)
}

/// An animated HUD fuel icon.
#[derive(Clone, Copy, Debug, PartialEq, Eq, Structural)]
pub struct HudIcon {
    pub frame_timer: Timer,
    pub frame: u32,
}

/// The icon after its animation timer has run for `dt`.
pub open spec fn icon_animated(i: HudIcon, dt: u64) -> HudIcon {
    let t = ticked(i.frame_timer, dt);
    HudIcon { frame_timer: t, frame: if t.times_finished_this_tick > 0 { next_frame(i.frame) } else { i.frame } }
}

/// Advances a HUD icon's animation, cycling through the pickup sheet's frames.
pub fn animate_icon(icon: &mut HudIcon, dt: u64)
    requires
        old(icon).frame < PICKUP_FRAMES,
    ensures
        *final(icon) == icon_animated(*old(icon), dt),
        final(icon).frame < PICKUP_FRAMES,
{
    icon.frame_timer.tick(dt);
    if icon.frame_timer.just_finished() {
        icon.frame = advance_frame(icon.frame);
    }
}

/// Shortest and longest (exclusive) frame time of a HUD icon.
pub const HUD_FRAME_MIN: u64 = 170000000;
pub const HUD_FRAME_MAX: u64 = 230000000;

/// Brings the icon row to `count` icons: extra icons are removed from the end, missing
/// ones are added with the first frame and a random frame time.
pub fn reconcile_icons(rng: &mut StdRng, icons: &mut Vec<HudIcon>, count: u64)
    requires
        count <= usize::MAX,
    ensures
        final(icons)@.len() == count,
        count <= old(icons)@.len() ==> final(icons)@ == old(icons)@.take(count as int),
        count > old(icons)@.len() ==> final(icons)@.take(old(icons)@.len() as int) == old(icons)@,
        forall|i: int|
            old(icons)@.len() <= i < count ==> (#[trigger] final(icons)@[i]).frame == 0
                && final(icons)@[i].frame_timer == fresh_timer(final(icons)@[i].frame_timer.duration, TimerMode::Repeating)
                && HUD_FRAME_MIN <= final(icons)@[i].frame_timer.duration < HUD_FRAME_MAX,
{
    let ghost start = icons@;
    if (count as usize) <= icons.len() {
        icons.truncate(count as usize);
        return;
    }
    while (icons.len() as u64) < count
        invariant
            start.len() < count <= usize::MAX,
            start.len() <= icons@.len() <= count,
            icons@.take(start.len() as int) == start,
            forall|i: int|
                start.len() <= i < icons@.len() ==> (#[trigger] icons@[i]).frame == 0
                    && icons@[i].frame_timer == fresh_timer(icons@[i].frame_timer.duration, TimerMode::Repeating)
                    && HUD_FRAME_MIN <= icons@[i].frame_timer.duration < HUD_FRAME_MAX,
        decreases count - icons@.len(),
    {
        let d = draw_u64(rng, HUD_FRAME_MIN, HUD_FRAME_MAX);
        let ghost before = icons@;
        icons.push(HudIcon { frame_timer: Timer::new(d, TimerMode::Repeating), frame: 0 });
        assert(icons@.take(start.len() as int) =~= before.take(start.len() as int));
    }
}

/// Where the `i`-th fuel icon sits, relative to the camera: a row along the bottom-left
/// of the view.
pub open spec fn icon_offset(i: int) -> (int, int) {
    (-VIEW_WIDTH / 2 + HUD_MARGIN + i * HUD_ICON_SPACING, -VIEW_HEIGHT / 2 + HUD_MARGIN)
}

/// The positions of `count` fuel icons for a camera at `camera`.
pub fn hud_icon_positions(count: u64, camera: Vec2) -> (r: Vec<Vec2>)
    requires
        bounded(camera, WORLD_LIMIT as int),
        count <= 1000000000000,
    ensures
        r@.len() == count,
        forall|i: int|
            0 <= i < count ==> (#[trigger] r@[i]).x == camera.x + icon_offset(i).0 && r@[i].y
                == camera.y + icon_offset(i).1,
{
    let mut r: Vec<Vec2> = Vec::new();
    let mut i: u64 = 0;
    while i < count
        invariant
            i <= count <= 1000000000000,
            r@.len() == i,
            bounded(camera, WORLD_LIMIT as int),
            forall|k: int|
                0 <= k < i ==> (#[trigger] r@[k]).x == camera.x + icon_offset(k).0 && r@[k].y
                    == camera.y + icon_offset(k).1,
        decreases count - i,
    {
        let x = camera.x - VIEW_WIDTH / 2 + HUD_MARGIN + (i as i64) * HUD_ICON_SPACING;
        let y = camera.y - VIEW_HEIGHT / 2 + HUD_MARGIN;
        r.push(Vec2 { x, y });
        i = i + 1;
    }
    r
}

} // verus!
