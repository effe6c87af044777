//! The player's vehicle: turning, thrust, drag, speed cap, and the gun's cooldown and
//! ammunition.
use crate::angle::{fix_angle, fixed_angle, in_window};
use crate::kinematics::{
    bounded, cap_speed, norm2, plus, scale, speed_capped, vadd, vscale, Vec2,
    NANOS_PER_SECOND, SPEED_LIMIT, WORLD_LIMIT,
};
use crate::timer::{ticked, timer_wf, Timer, TimerMode};
use crate::tuning::{
    BOOST_ACCELERATION_SPEED, DRAG_PER_MILLE, GUN_COOLDOWN, HEADING_UNIT, MAX_SPEED,
    PASSIVE_ACCELERATION_SPEED, ROTATION_SPEED, STARTING_AMMUNITION,
};
use crate::projectiles::{aimed_shot, bullet_wf, fire_bullet, Bullet};
use rand::rngs::StdRng;
use vstd::prelude::*;

verus! {

#[derive(Clone, Copy, Debug, PartialEq, Eq, Structural)]
pub struct Player {
    pub position: Vec2,
    /// Facing angle, kept within a half turn of zero.
    pub angle: i64,
    pub velocity: Vec2,
    pub ammunition: u32,
    pub shoot_timer: Timer,
    pub score: u32,
}

pub open spec fn player_wf(p: Player) -> bool {
    &&& bounded(p.position, WORLD_LIMIT as int)
    &&& in_window(p.angle as int, 0)
    &&& bounded(p.velocity, SPEED_LIMIT as int)
    &&& timer_wf(p.shoot_timer)
}

/// A facing direction scaled to `HEADING_UNIT` up to rounding, as the host computes it
/// from an angle: within `HEADING_UNIT` on each axis, and of length within two units of it.
pub open spec fn heading_ok(h: Vec2) -> bool {
    &&& bounded(h, HEADING_UNIT as int)
    &&& (HEADING_UNIT - 2) * (HEADING_UNIT - 2) <= norm2(h.x as int, h.y as int)
    &&& norm2(h.x as int, h.y as int) <= (HEADING_UNIT + 2) * (HEADING_UNIT + 2)
}

pub open spec fn initial_player() -> Player {
    Player {
        position: Vec2 { x: 0, y: 0 },
        angle: 0,
        velocity: Vec2 { x: 0, y: 0 },
        ammunition: STARTING_AMMUNITION,
        shoot_timer: Timer {
            duration: GUN_COOLDOWN,
            elapsed: 0,
            mode: TimerMode::Once,
            finished: false,
            times_finished_this_tick: 0,
        },
        score: 0,
    }
}

/// The angle turned at `rate` (per second) during `dt` nanoseconds.
pub open spec fn turn_step(rate: int, dt: int) -> int {
    rate * dt / (NANOS_PER_SECOND as int)
}

/// The facing after turning left and/or right for `dt`, brought back into the window around zero.
pub open spec fn turned(angle: int, left: bool, right: bool, dt: int) -> int {
    let step = turn_step(ROTATION_SPEED as int, dt);
    fixed_angle(angle + (if left { step } else { 0 }) - (if right { step } else { 0 }), 0)
}

/// Whether the gun fires this frame: the trigger is held, the cooldown (after this
/// frame's tick) is over, and there is ammunition.
pub open spec fn fires(p: Player, fire: bool, dt: u64) -> bool {
    fire && ticked(p.shoot_timer, dt).finished && p.ammunition != 0
}

/// The velocity after one frame of control: an optional boost along the heading, a passive
/// push along it, the resulting speed capped at `MAX_SPEED` (keeping the direction), then
/// drag.
pub open spec fn controlled_velocity(v: Vec2, heading: Vec2, fired: bool) -> Vec2 {
    let v1 = if fired {
        vadd(v, vscale(heading, BOOST_ACCELERATION_SPEED as int, HEADING_UNIT as int))
    } else {
        v
    };
    let v2 = vadd(v1, vscale(heading, PASSIVE_ACCELERATION_SPEED as int, HEADING_UNIT as int));
    vscale(speed_capped(v2, MAX_SPEED as int), DRAG_PER_MILLE as int, 1000)
}

/// The player after one frame of control (see `fires` and `controlled_velocity`).
pub open spec fn controlled_player(p: Player, fire: bool, heading: Vec2, dt: u64) -> Player {
    let fired = fires(p, fire, dt);
    let t = ticked(p.shoot_timer, dt);
    Player {
        velocity: controlled_velocity(p.velocity, heading, fired),
        ammunition: if fired { (p.ammunition - 1) as u32 } else { p.ammunition },
        shoot_timer: if fired { Timer { elapsed: 0, finished: false, times_finished_this_tick: 0, ..t } } else { t },
        ..p
    }
}

impl Player {
    /// A player at the origin, facing angle zero, at rest, with the starting ammunition.
    pub fn new() -> (r: Player)
        ensures
            r == initial_player(),
            player_wf(r),
    {
        Player {
            position: Vec2 { x: 0, y: 0 },
            angle: 0,
            velocity: Vec2 { x: 0, y: 0 },
            ammunition: STARTING_AMMUNITION,
            shoot_timer: Timer::new(GUN_COOLDOWN, TimerMode::Once),
            score: 0,
        }
    }
}

/// Bound on the angle turned in any one frame, however long: `ROTATION_SPEED` times the
/// longest `u64` frame, with room to spare.
pub const TURN_STEP_LIMIT: i64 = 200000000000000000;

/// The angle turned at `rate` (per second, at most `ROTATION_SPEED`) during `dt` nanoseconds.
pub fn rotation_step(rate: i64, dt: u64) -> (r: i64)
    requires
        0 <= rate <= ROTATION_SPEED,
    ensures
        r == turn_step(rate as int, dt as int),
        0 <= r <= TURN_STEP_LIMIT,
{
    assert(0 <= rate * dt <= 7000000 * 18446744073709551615) by (nonlinear_arith)
        requires
            0 <= rate <= 7000000,
            0 <= dt <= 18446744073709551615,
    ;
    assert(rate * dt / 1000000000 <= TURN_STEP_LIMIT) by (nonlinear_arith)
        requires
            0 <= rate * dt <= 7000000 * 18446744073709551615,
    ;
    ((rate as u128) * (dt as u128) / (NANOS_PER_SECOND as u128)) as i64
}

/// Turns the facing angle for one frame: left turns counter-clockwise, right clockwise.
pub fn turn_player(angle: i64, left: bool, right: bool, dt: u64) -> (r: i64)
    requires
        in_window(angle as int, 0),
    ensures
        r == turned(angle as int, left, right, dt as int),
        in_window(r as int, 0),
{
    let step = rotation_step(ROTATION_SPEED, dt);
    let mut a = angle;
    if left {
        a = a + step;
    }
    if right {
        a = a - step;
    }
    fix_angle(a, 0)
}

/// The gun and thrust part of a frame: ticks the gun's cooldown, fires when `fires` says
/// so (spending one round, restarting the cooldown and boosting along `heading`), then
/// applies the passive push, the speed cap and drag. Returns whether the gun fired.
pub fn drive_player(player: &mut Player, fire: bool, heading: Vec2, dt: u64) -> (fired: bool)
    requires
        bounded(old(player).velocity, SPEED_LIMIT as int),
        heading_ok(heading),
    ensures
        fired == fires(*old(player), fire, dt),
        *final(player) == controlled_player(*old(player), fire, heading, dt),
        final(player).ammunition == old(player).ammunition - (if fired { 1int } else { 0int }),
        bounded(final(player).velocity, SPEED_LIMIT as int),
        timer_wf(old(player).shoot_timer) ==> timer_wf(final(player).shoot_timer),
{
    player.shoot_timer.tick(dt);
    let fired = fire && player.shoot_timer.finished() && player.ammunition != 0;
    if fired {
        player.velocity = plus(player.velocity, scale(heading, BOOST_ACCELERATION_SPEED, HEADING_UNIT));
        player.ammunition = player.ammunition - 1;
        player.shoot_timer.reset();
    }
    let pushed = plus(player.velocity, scale(heading, PASSIVE_ACCELERATION_SPEED, HEADING_UNIT));
    let capped = cap_speed(pushed, MAX_SPEED);
    player.velocity = scale(capped, DRAG_PER_MILLE, 1000);
    fired
}

/// The player with its facing turned for this frame's turn keys.
pub open spec fn turned_player(p: Player, left: bool, right: bool, dt: u64) -> Player {
    Player { angle: turned(p.angle as int, left, right, dt as int) as i64, ..p }
}

/// One frame of the player controller. The facing turns by `ROTATION_SPEED * dt` for
/// each turn key held (both held cancel out); `heading` is the direction of the facing
/// after that turn. The gun's cooldown ticks; when the trigger is held, the cooldown is
/// over and there is ammunition, one round is spent, the cooldown restarts, the player
/// gets a boost along the heading and one aimed shot is fired from the player's position.
/// Then the passive push, the speed cap and drag apply. Without a player nothing happens.
/// Returns whether the gun fired.
pub fn control_player(
    rng: &mut StdRng,
    player: &mut Option<Player>,
    bullets: &mut Vec<Bullet>,
    turn_left: bool,
    turn_right: bool,
    fire: bool,
    heading: Vec2,
    dt: u64,
) -> (fired: bool)
    requires
        *old(player) matches Some(p) ==> player_wf(p),
        heading_ok(heading),
    ensures
        match *old(player) {
            None => !fired && *final(player) == *old(player) && final(bullets)@ == old(bullets)@,
            Some(p) => {
                &&& fired == fires(p, fire, dt)
                &&& *final(player) == Some(
                    controlled_player(turned_player(p, turn_left, turn_right, dt), fire, heading, dt),
                )
                &&& fired ==> final(bullets)@.len() == old(bullets)@.len() + 1
                    && final(bullets)@.drop_last() == old(bullets)@
                    && aimed_shot(final(bullets)@.last(), p.position, heading, p.velocity)
                &&& !fired ==> final(bullets)@ == old(bullets)@
            },
        },
        *final(player) matches Some(q) ==> player_wf(q),
        (forall|i: int| 0 <= i < old(bullets)@.len() ==> bullet_wf(#[trigger] old(bullets)@[i])) ==> (forall|i: int|
            0 <= i < final(bullets)@.len() ==> bullet_wf(#[trigger] final(bullets)@[i])),
{
    match *player {
        Some(p) => {
            let mut p2 = p;
            p2.angle = turn_player(p.angle, turn_left, turn_right, dt);
            let fired = drive_player(&mut p2, fire, heading, dt);
            if fired {
                let ghost before = bullets@;
                fire_bullet(rng, bullets, p.position, heading, p.velocity);
                proof {
                    if forall|i: int| 0 <= i < before.len() ==> bullet_wf(#[trigger] before[i]) {
                        assert forall|i: int| 0 <= i < bullets@.len() implies bullet_wf(#[trigger] bullets@[i]) by {
                            if i < before.len() {
                                assert(bullets@[i] == bullets@.drop_last()[i]);
                            }
                        }
                    }
                }
            }
            *player = Some(p2);
            fired
        },
        None => false,
    }
}

} // verus!
