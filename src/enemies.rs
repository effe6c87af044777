//! Enemy steering and the spawner whose cadence speeds up with every spawn.
use crate::angle::{fix_angle, fixed_angle, in_window, ANGLE_LIMIT};
use crate::kinematics::{
    bounded, cap_speed, plus, scale, speed_capped, vadd, vscale, Vec2,
    SPEED_LIMIT,
};
use crate::player::{heading_ok, rotation_step, turn_step};
use crate::timer::{fresh_timer, ticked, timer_wf, Timer, TimerMode};
use crate::tuning::{
    ENEMY_ACCELERATION, ENEMY_MAX_SPEED, ENEMY_ROTATION_SPEED, HEADING_UNIT,
    SPAWN_DECAY_DEN, SPAWN_DECAY_NUM, SPAWN_INITIAL_DURATION, SPAWN_RESET_DURATION,
    SPAWN_THRESHOLD,
};
use vstd::arithmetic::power::pow;
use vstd::prelude::*;

verus! {

#[derive(Clone, Copy, Debug, PartialEq, Eq, Structural)]
pub struct Enemy {
    pub position: Vec2,
    pub velocity: Vec2,
    /// Facing angle, kept within a half turn of zero.
    pub angle: i64,
    /// The facing as a direction of length `HEADING_UNIT`, as the host last supplied it;
    /// the enemy's explosion is aimed from it.
    pub heading: Vec2,
}

pub open spec fn enemy_wf(e: Enemy) -> bool {
    &&& bounded(e.position, crate::kinematics::WORLD_LIMIT as int)
    &&& bounded(e.velocity, SPEED_LIMIT as int)
    &&& in_window(e.angle as int, 0)
    &&& bounded(e.heading, HEADING_UNIT as int)
}

/// The facing after one frame of steering towards `bearing` by at most `step`: the
/// bearing is first fixed up around the facing; a smaller one turns clockwise, a
/// larger one counter-clockwise, an equal one not at all.
pub open spec fn steered_angle(facing: int, bearing: int, step: int) -> int {
    let f = fixed_angle(bearing, facing);
    if f < facing {
        fixed_angle(facing - step, 0)
    } else if f > facing {
        fixed_angle(facing + step, 0)
    } else {
        facing
    }
}

/// The velocity after one frame of pursuit: pushed along the current facing, then capped.
pub open spec fn pursuit_velocity(v: Vec2, heading: Vec2) -> Vec2 {
    speed_capped(
        vadd(v, vscale(heading, ENEMY_ACCELERATION as int, HEADING_UNIT as int)),
        ENEMY_MAX_SPEED as int,
    )
}

/// The enemy after one frame of AI (see `steered_angle` and `pursuit_velocity`).
pub open spec fn steered(e: Enemy, bearing: i64, heading: Vec2, dt: u64) -> Enemy {
    Enemy {
        angle: steered_angle(e.angle as int, bearing as int, turn_step(ENEMY_ROTATION_SPEED as int, dt as int)) as i64,
        velocity: pursuit_velocity(e.velocity, heading),
        heading,
        ..e
    }
}

/// One frame of enemy AI. `bearing` is the angle from the enemy to the player and
/// `heading` the enemy's facing direction before this frame's turn.
pub fn steer_enemy(enemy: &mut Enemy, bearing: i64, heading: Vec2, dt: u64)
    requires
        in_window(old(enemy).angle as int, 0),
        bounded(old(enemy).velocity, SPEED_LIMIT as int),
        -ANGLE_LIMIT <= bearing <= ANGLE_LIMIT,
        heading_ok(heading),
    ensures
        final(enemy).angle == steered_angle(
            old(enemy).angle as int,
            bearing as int,
            turn_step(ENEMY_ROTATION_SPEED as int, dt as int),
        ),
        in_window(final(enemy).angle as int, 0),
        final(enemy).velocity == pursuit_velocity(old(enemy).velocity, heading),
        bounded(final(enemy).velocity, SPEED_LIMIT as int),
        final(enemy).position == old(enemy).position,
        *final(enemy) == steered(*old(enemy), bearing, heading, dt),
{
    let facing = enemy.angle;
    let step = rotation_step(ENEMY_ROTATION_SPEED, dt);
    let f = fix_angle(bearing, facing);
    if f < facing {
        enemy.angle = fix_angle(facing - step, 0);
    } else if f > facing {
        enemy.angle = fix_angle(facing + step, 0);
    }
    let pushed = plus(enemy.velocity, scale(heading, ENEMY_ACCELERATION, HEADING_UNIT));
    enemy.velocity = cap_speed(pushed, ENEMY_MAX_SPEED);
    enemy.heading = heading;
}

/// The spawn interval that follows `d`: decayed by `SPAWN_DECAY_NUM / SPAWN_DECAY_DEN`,
/// or `SPAWN_RESET_DURATION` where that falls below `SPAWN_THRESHOLD`.
pub open spec fn next_interval(d: u64) -> u64 {
    let nd = (d as int * SPAWN_DECAY_NUM / SPAWN_DECAY_DEN as int) as u64;
    if nd < SPAWN_THRESHOLD {
        SPAWN_RESET_DURATION
    } else {
        nd
    }
}

/// The spawn interval after `n` spawns, starting from `d`.
pub open spec fn interval_after(d: u64, n: nat) -> u64
    decreases n,
{
    if n == 0 {
        d
    } else {
        next_interval(interval_after(d, (n - 1) as nat))
    }
}

/// The spawn interval that follows `d`.
pub fn next_spawn_interval(d: u64) -> (r: u64)
    ensures
        r == next_interval(d),
{
    let nd: u64 = ((d as u128) * (SPAWN_DECAY_NUM as u128) / (SPAWN_DECAY_DEN as u128)) as u64;
    if nd < SPAWN_THRESHOLD {
        SPAWN_RESET_DURATION
    } else {
        nd
    }
}

#[derive(Clone, Copy, Debug, PartialEq, Eq, Structural)]
pub struct EnemySpawner {
    pub timer: Timer,
}

/// The spawner after `dt` more nanoseconds: when its timer finishes it takes the next
/// interval and starts over.
pub open spec fn spawner_ticked(s: EnemySpawner, dt: u64) -> EnemySpawner {
    let t = ticked(s.timer, dt);
    if t.times_finished_this_tick > 0 {
        EnemySpawner {
            timer: Timer {
                duration: next_interval(s.timer.duration),
                elapsed: 0,
                finished: false,
                times_finished_this_tick: 0,
                ..t
            },
        }
    } else {
        EnemySpawner { timer: t }
    }
}

pub open spec fn initial_spawner() -> EnemySpawner {
    EnemySpawner { timer: fresh_timer(SPAWN_INITIAL_DURATION, TimerMode::Once) }
}

/// Whether ticking by `dt` spawns an enemy.
pub open spec fn spawns(s: EnemySpawner, dt: u64) -> bool {
    ticked(s.timer, dt).times_finished_this_tick > 0
}

impl EnemySpawner {
    pub fn new() -> (r: EnemySpawner)
        ensures
            r == initial_spawner(),
    {
        EnemySpawner { timer: Timer::new(SPAWN_INITIAL_DURATION, TimerMode::Once) }
    }

    /// Advances the spawner; returns whether an enemy is due now.
    pub fn tick(&mut self, dt: u64) -> (spawn: bool)
        ensures
            spawn == spawns(*old(self), dt),
            *final(self) == spawner_ticked(*old(self), dt),
            timer_wf(old(self).timer) ==> timer_wf(final(self).timer),
    {
        let d = self.timer.duration();
        self.timer.tick(dt);
        if self.timer.just_finished() {
            let nd = next_spawn_interval(d);
            self.timer.set_duration(nd);
            self.timer.reset();
            true
        } else {
            false
        }
    }
}

/// The spawner after ticking by each delta of `deltas` in turn.
pub open spec fn spawner_run(s: EnemySpawner, deltas: Seq<u64>) -> EnemySpawner
    decreases deltas.len(),
{
    if deltas.len() == 0 {
        s
    } else {
        spawner_ticked(spawner_run(s, deltas.drop_last()), deltas.last())
    }
}

/// How many enemies ticking by `deltas` spawns.
pub open spec fn spawn_count(s: EnemySpawner, deltas: Seq<u64>) -> nat
    decreases deltas.len(),
{
    if deltas.len() == 0 {
        0
    } else {
        let prev = spawner_run(s, deltas.drop_last());
        spawn_count(s, deltas.drop_last()) + if spawns(prev, deltas.last()) { 1nat } else { 0nat }
    }
}

/// However the frames fall, the spawn interval after `N` spawns is the starting
/// interval taken through `next_interval` `N` times.
pub proof fn lemma_spawner_cadence(s: EnemySpawner, deltas: Seq<u64>)
    ensures
        spawner_run(s, deltas).timer.duration == interval_after(s.timer.duration, spawn_count(s, deltas)),
    decreases deltas.len(),
{
    if deltas.len() > 0 {
        lemma_spawner_cadence(s, deltas.drop_last());
    }
}

/// After the first spawn the interval never drops below `SPAWN_THRESHOLD`, and from the
/// starting interval it never exceeds that starting interval.
pub proof fn lemma_interval_floor(n: nat)
    ensures
        n > 0 ==> interval_after(SPAWN_INITIAL_DURATION, n) >= SPAWN_THRESHOLD,
        interval_after(SPAWN_INITIAL_DURATION, n) <= SPAWN_INITIAL_DURATION,
    decreases n,
{
    if n > 0 {
        lemma_interval_floor((n - 1) as nat);
        let d = interval_after(SPAWN_INITIAL_DURATION, (n - 1) as nat);
        assert(d as int * 9 / 10 <= d);
    }
}

/// While no reset has happened, the interval after `n` spawns is the starting interval
/// times `(9/10)^n`, rounded down by less than ten nanoseconds:
/// `interval * 10^n <= d * 9^n < (interval + 10) * 10^n`.
pub proof fn lemma_interval_decay(d: u64, n: nat)
    requires
        forall|k: nat| k < n ==> (#[trigger] interval_after(d, k)) as int * 9 / 10 >= SPAWN_THRESHOLD,
    ensures
        interval_after(d, n) * pow(10, n) <= d * pow(9, n),
        d * pow(9, n) < (interval_after(d, n) + 10) * pow(10, n),
    decreases n,
{
    reveal(pow);
    if n == 0 {
        assert(pow(10, 0) == 1 && pow(9, 0) == 1);
    } else {
        let m = (n - 1) as nat;
        lemma_interval_decay(d, m);
        let c = interval_after(d, m) as int;
        assert(c * 9 / 10 >= SPAWN_THRESHOLD);
        let c2 = interval_after(d, n) as int;
        assert(c2 == c * 9 / 10);
        assert(10 * c2 <= 9 * c < 10 * c2 + 10);
        let p10 = pow(10, m);
        let p9 = pow(9, m);
        assert(pow(10, n) == 10 * p10);
        assert(pow(9, n) == 9 * p9);
        vstd::arithmetic::power::lemma_pow_positive(10, m);
        assert(c2 * (10 * p10) <= d * (9 * p9)) by (nonlinear_arith)
            requires
                10 * c2 <= 9 * c,
                c * p10 <= d * p9,
                p10 > 0,
        ;
        assert(d * (9 * p9) < (c2 + 10) * (10 * p10)) by (nonlinear_arith)
            requires
                9 * c < 10 * c2 + 10,
                d * p9 < (c + 10) * p10,
                p10 > 0,
        ;
    }
}

} // verus!
