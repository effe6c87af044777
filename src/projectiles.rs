//! Projectiles: aimed shots, explosion bursts, and their removal by lifetime or by
//! distance from the player.
use crate::kinematics::{
    bounded, distance_squared, length, length_of, lemma_length_bound,
    lemma_vscale_unit, norm2, plus, resized, scale, vadd, vscale, with_length, Vec2,
    SPEED_LIMIT, WORLD_LIMIT,
};
use crate::player::heading_ok;
use crate::random::{draw_i64, draw_u64, random_direction};
use crate::timer::{fresh_timer, ticked, timer_wf, Timer, TimerMode};
use crate::tuning::{
    BULLET_CULL_DISTANCE, BULLET_SPEED, BULLET_VELOCITY_OFFSET,
    FRAGMENT_MAX_LIFETIME, FRAGMENT_MIN_LIFETIME,
    HEADING_UNIT,
};
use rand::rngs::StdRng;
use vstd::prelude::*;

verus! {

/// The colour class of an explosion fragment.
#[derive(Clone, Copy, Debug, PartialEq, Eq, Structural)]
pub enum FragmentColor {
    Red,
    Orange,
    Yellow,
    Smoke,
}

/// How a projectile is drawn.
#[derive(Clone, Copy, Debug, PartialEq, Eq, Structural)]
pub enum Look {
    /// An aimed shot: a thin streak.
    Shot,
    /// An explosion fragment: a disc of the given colour and radius (in sub-pixels).
    Fragment { color: FragmentColor, radius: i64 },
}

#[derive(Clone, Copy, Debug, PartialEq, Eq, Structural)]
pub struct Bullet {
    pub position: Vec2,
    pub velocity: Vec2,
    pub lifetime: Timer,
    pub look: Look,
}

/// Number of equally likely draws behind a fragment's colour class.
pub const COLOR_DRAWS: u64 = 6;
/// Smallest and largest (exclusive) fragment radius, in sub-pixels.
pub const FRAGMENT_MIN_RADIUS: i64 = 1000;
pub const FRAGMENT_MAX_RADIUS: i64 = 2500;

/// The colour class for a draw `n` out of `COLOR_DRAWS`: two draws give red, one orange,
/// two yellow and one smoke.
pub open spec fn color_of(n: u64) -> FragmentColor {
    if n <= 1 {
        FragmentColor::Red
    } else if n <= 2 {
        FragmentColor::Orange
    } else if n <= 4 {
        FragmentColor::Yellow
    } else {
        FragmentColor::Smoke
    }
}

/// The colour class for a draw `n` (see `color_of`).
pub fn fragment_color(n: u64) -> (r: FragmentColor)
    ensures
        r == color_of(n),
{
    if n <= 1 {
        FragmentColor::Red
    } else if n <= 2 {
        FragmentColor::Orange
    } else if n <= 4 {
        FragmentColor::Yellow
    } else {
        FragmentColor::Smoke
    }
}

pub open spec fn bullet_wf(b: Bullet) -> bool {
    &&& bounded(b.position, WORLD_LIMIT as int)
    &&& bounded(b.velocity, SPEED_LIMIT as int)
    &&& timer_wf(b.lifetime)
}

/// A freshly spawned projectile: at `origin`, one-shot lifetime within the fragment range.
pub open spec fn new_projectile(b: Bullet, origin: Vec2) -> bool {
    &&& b.position == origin
    &&& b.lifetime.mode == TimerMode::Once
    &&& b.lifetime == fresh_timer(b.lifetime.duration, TimerMode::Once)
    &&& FRAGMENT_MIN_LIFETIME <= b.lifetime.duration < FRAGMENT_MAX_LIFETIME
}

/// The velocity of an aimed shot: backwards along `heading` at `BULLET_SPEED` plus a
/// `jitter`, then turned towards the sum of that and the shooter's velocity while
/// keeping its own speed.
pub open spec fn aimed_velocity(heading: Vec2, jitter: Vec2, shooter: Vec2) -> Vec2 {
    let base = vadd(vscale(heading, -BULLET_SPEED, HEADING_UNIT as int), jitter);
    resized(vadd(base, shooter), length_of(base))
}

/// The velocity of an aimed shot (see `aimed_velocity`).
pub fn aimed_bullet_velocity(heading: Vec2, jitter: Vec2, shooter: Vec2) -> (r: Vec2)
    requires
        heading_ok(heading),
        bounded(jitter, BULLET_VELOCITY_OFFSET as int),
        bounded(shooter, SPEED_LIMIT as int),
    ensures
        r == aimed_velocity(heading, jitter, shooter),
        bounded(r, SPEED_LIMIT as int),
{
    proof {
        lemma_vscale_unit(heading, -BULLET_SPEED, HEADING_UNIT as int);
    }
    let base = plus(scale(heading, -BULLET_SPEED, HEADING_UNIT), jitter);
    proof {
        lemma_length_bound(base, BULLET_SPEED + BULLET_VELOCITY_OFFSET);
    }
    let len = length(base);
    with_length(plus(base, shooter), len as i64)
}

/// A jitter of length `BULLET_VELOCITY_OFFSET` up to rounding.
pub open spec fn jitter_ok(j: Vec2) -> bool {
    &&& bounded(j, BULLET_VELOCITY_OFFSET as int)
    &&& (BULLET_VELOCITY_OFFSET - 2) * (BULLET_VELOCITY_OFFSET - 2) <= norm2(j.x as int, j.y as int)
    &&& norm2(j.x as int, j.y as int) < (BULLET_VELOCITY_OFFSET + 1) * (BULLET_VELOCITY_OFFSET + 1)
}

/// An aimed shot freshly fired from `origin` along `heading` by a shooter moving at
/// `shooter`, with some jitter of length `BULLET_VELOCITY_OFFSET`.
pub open spec fn aimed_shot(b: Bullet, origin: Vec2, heading: Vec2, shooter: Vec2) -> bool {
    &&& new_projectile(b, origin)
    &&& b.look == Look::Shot
    &&& exists|jitter: Vec2| jitter_ok(jitter) && b.velocity == #[trigger] aimed_velocity(heading, jitter, shooter)
}

/// Fires one aimed shot from `origin` with a random jitter of length
/// `BULLET_VELOCITY_OFFSET` and a random lifetime.
pub fn fire_bullet(
    rng: &mut StdRng,
    bullets: &mut Vec<Bullet>,
    origin: Vec2,
    heading: Vec2,
    shooter: Vec2,
)
    requires
        bounded(origin, WORLD_LIMIT as int),
        heading_ok(heading),
        bounded(shooter, SPEED_LIMIT as int),
    ensures
        final(bullets)@.len() == old(bullets)@.len() + 1,
        final(bullets)@.drop_last() == old(bullets)@,
        aimed_shot(final(bullets)@.last(), origin, heading, shooter),
        new_projectile(final(bullets)@.last(), origin),
        final(bullets)@.last().look == Look::Shot,
        exists|jitter: Vec2|
            jitter_ok(jitter) && final(bullets)@.last().velocity == #[trigger] aimed_velocity(heading, jitter, shooter),
        bullet_wf(final(bullets)@.last()),
{
    let jitter = random_direction(rng, BULLET_VELOCITY_OFFSET);
    let velocity = aimed_bullet_velocity(heading, jitter, shooter);
    let life = draw_u64(rng, FRAGMENT_MIN_LIFETIME, FRAGMENT_MAX_LIFETIME);
    bullets.push(Bullet { position: origin, velocity, lifetime: Timer::new(life, TimerMode::Once), look: Look::Shot });
    assert(final(bullets)@.drop_last() =~= old(bullets)@);
}

/// A fragment's look: a colour class of `color_of` and a radius in range.
pub open spec fn fragment_look(l: Look) -> bool {
    match l {
        Look::Fragment { color, radius } => FRAGMENT_MIN_RADIUS <= radius < FRAGMENT_MAX_RADIUS
            && exists|n: u64| n < COLOR_DRAWS && color == #[trigger] color_of(n),
        Look::Shot => false,
    }
}

/// The velocity of an explosion fragment: backwards along the exploding entity's
/// `heading` at `BULLET_SPEED` plus a `jitter`, as for an aimed shot but with no
/// shooter's velocity added.
pub open spec fn burst_velocity(heading: Vec2, jitter: Vec2) -> Vec2 {
    vadd(vscale(heading, -BULLET_SPEED, HEADING_UNIT as int), jitter)
}

/// An explosion fragment freshly spawned at `origin` from an entity facing `heading`: a
/// fragment look, and the velocity of `burst_velocity` for its own random jitter of
/// length `BULLET_VELOCITY_OFFSET`.
pub open spec fn burst_fragment(b: Bullet, origin: Vec2, heading: Vec2) -> bool {
    &&& new_projectile(b, origin)
    &&& fragment_look(b.look)
    &&& bounded(b.velocity, SPEED_LIMIT as int)
    &&& exists|jitter: Vec2| jitter_ok(jitter) && b.velocity == #[trigger] burst_velocity(heading, jitter)
}

/// Spawns an explosion of `count` fragments at `origin` from an entity facing `heading`
/// (the zero vector for none), each with its own random jitter, lifetime, colour class
/// and radius.
pub fn spawn_burst(rng: &mut StdRng, bullets: &mut Vec<Bullet>, origin: Vec2, heading: Vec2, count: u64)
    requires
        bounded(origin, WORLD_LIMIT as int),
        bounded(heading, HEADING_UNIT as int),
    ensures
        final(bullets)@.len() == old(bullets)@.len() + count,
        final(bullets)@.take(old(bullets)@.len() as int) == old(bullets)@,
        forall|i: int|
            old(bullets)@.len() <= i < final(bullets)@.len() ==> burst_fragment(#[trigger] final(bullets)@[i], origin, heading),
{
    let ghost start = bullets@;
    let mut k: u64 = 0;
    while k < count
        invariant
            k <= count,
            bounded(heading, HEADING_UNIT as int),
            bullets@.len() == start.len() + k,
            bullets@.take(start.len() as int) == start,
            forall|i: int| start.len() <= i < bullets@.len() ==> burst_fragment(#[trigger] bullets@[i], origin, heading),
        decreases count - k,
    {
        let jitter = random_direction(rng, BULLET_VELOCITY_OFFSET);
        let velocity = plus(scale(heading, -BULLET_SPEED, HEADING_UNIT), jitter);
        assert(jitter_ok(jitter) && velocity == burst_velocity(heading, jitter));
        let life = draw_u64(rng, FRAGMENT_MIN_LIFETIME, FRAGMENT_MAX_LIFETIME);
        let n = draw_u64(rng, 0, COLOR_DRAWS);
        let color = fragment_color(n);
        let radius = draw_i64(rng, FRAGMENT_MIN_RADIUS, FRAGMENT_MAX_RADIUS);
        let look = Look::Fragment { color, radius };
        assert(fragment_look(look));
        let ghost before = bullets@;
        bullets.push(Bullet { position: origin, velocity, lifetime: Timer::new(life, TimerMode::Once), look });
        assert(bullets@.take(start.len() as int) =~= before.take(start.len() as int));
        k = k + 1;
    }
}

/// A projectile after its lifetime has been ticked by `dt`.
pub open spec fn aged(b: Bullet, dt: u64) -> Bullet {
    Bullet { lifetime: ticked(b.lifetime, dt), ..b }
}

/// Whether an aged projectile stays: its lifetime is not over and, while there is a
/// player, it is no farther than `BULLET_CULL_DISTANCE` from it.
pub open spec fn stays(b: Bullet, player: Option<Vec2>) -> bool {
    &&& !b.lifetime.finished
    &&& match player {
        Some(p) => norm2(b.position.x - p.x, b.position.y - p.y) <= BULLET_CULL_DISTANCE * BULLET_CULL_DISTANCE,
        None => true,
    }
}

/// The projectiles that remain after one frame, in their order, with lifetimes ticked.
pub open spec fn pruned(bs: Seq<Bullet>, player: Option<Vec2>, dt: u64) -> Seq<Bullet>
    decreases bs.len(),
{
    if bs.len() == 0 {
        Seq::empty()
    } else {
        let rest = pruned(bs.drop_last(), player, dt);
        let b = aged(bs.last(), dt);
        if stays(b, player) {
            rest.push(b)
        } else {
            rest
        }
    }
}

/// Ticks every projectile's lifetime and removes those whose lifetime is over or which
/// are too far from the player.
pub fn prune_bullets(bullets: &mut Vec<Bullet>, player: Option<Vec2>, dt: u64)
    requires
        forall|i: int| 0 <= i < old(bullets)@.len() ==> bullet_wf(#[trigger] old(bullets)@[i]),
        player matches Some(p) ==> bounded(p, WORLD_LIMIT as int),
    ensures
        final(bullets)@ == pruned(old(bullets)@, player, dt),
        forall|i: int| 0 <= i < final(bullets)@.len() ==> bullet_wf(#[trigger] final(bullets)@[i]),
{
    let ghost start = bullets@;
    let mut kept: Vec<Bullet> = Vec::new();
    let mut i: usize = 0;
    while i < bullets.len()
        invariant
            bullets@ == start,
            0 <= i <= start.len(),
            kept@ == pruned(start.take(i as int), player, dt),
            forall|j: int| 0 <= j < start.len() ==> bullet_wf(#[trigger] start[j]),
            forall|j: int| 0 <= j < kept@.len() ==> bullet_wf(#[trigger] kept@[j]),
            player matches Some(p) ==> bounded(p, WORLD_LIMIT as int),
        decreases start.len() - i,
    {
        let mut b = bullets[i];
        b.lifetime.tick(dt);
        let keep = if b.lifetime.finished() {
            false
        } else {
            match player {
                Some(p) => distance_squared(b.position, p) <= (BULLET_CULL_DISTANCE * BULLET_CULL_DISTANCE) as u128,
                None => true,
            }
        };
        assert(start.take(i as int + 1).drop_last() =~= start.take(i as int));
        if keep {
            kept.push(b);
        }
        i = i + 1;
    }
    assert(start.take(start.len() as int) =~= start);
    *bullets = kept;
}

} // verus!
