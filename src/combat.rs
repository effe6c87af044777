//! Projectile-versus-enemy contact: which enemies are destroyed this frame and where
//! their wrecks lie.
use crate::enemies::{enemy_wf, Enemy};
use crate::kinematics::{bounded, distance_squared, norm2, WORLD_LIMIT};
use crate::projectiles::{bullet_wf, Bullet};
use crate::tuning::{BULLET_SCALE, ENEMY_CONTACT_RADIUS};
use vstd::prelude::*;

verus! {

/// Distance below which a projectile destroys an enemy.
pub open spec fn contact_distance() -> int {
    ENEMY_CONTACT_RADIUS + BULLET_SCALE
}

/// The projectile is closer to the enemy than the contact distance.
pub open spec fn hits(e: Enemy, b: Bullet) -> bool {
    norm2(e.position.x - b.position.x, e.position.y - b.position.y) < contact_distance() * contact_distance()
}

pub open spec fn hit_by_any(e: Enemy, bs: Seq<Bullet>) -> bool {
    exists|j: int| 0 <= j < bs.len() && hits(e, #[trigger] bs[j])
}

/// The enemies that no projectile touches, in their order.
pub open spec fn survivors(es: Seq<Enemy>, bs: Seq<Bullet>) -> Seq<Enemy>
    decreases es.len(),
{
    if es.len() == 0 {
        Seq::empty()
    } else {
        let rest = survivors(es.drop_last(), bs);
        if hit_by_any(es.last(), bs) {
            rest
        } else {
            rest.push(es.last())
        }
    }
}

/// The destroyed enemies, each once, in their order.
pub open spec fn wrecks(es: Seq<Enemy>, bs: Seq<Bullet>) -> Seq<Enemy>
    decreases es.len(),
{
    if es.len() == 0 {
        Seq::empty()
    } else {
        let rest = wrecks(es.drop_last(), bs);
        if hit_by_any(es.last(), bs) {
            rest.push(es.last())
        } else {
            rest
        }
    }
}

/// How many of the enemies some projectile touches.
pub open spec fn hit_count(es: Seq<Enemy>, bs: Seq<Bullet>) -> nat
    decreases es.len(),
{
    if es.len() == 0 {
        0
    } else {
        hit_count(es.drop_last(), bs) + if hit_by_any(es.last(), bs) { 1nat } else { 0nat }
    }
}

/// Whether any projectile touches `enemy`; the scan stops at the first that does.
pub fn first_hit(enemy: &Enemy, bullets: &Vec<Bullet>) -> (r: bool)
    requires
        bounded(enemy.position, WORLD_LIMIT as int),
        forall|j: int| 0 <= j < bullets@.len() ==> bullet_wf(#[trigger] bullets@[j]),
    ensures
        r == hit_by_any(*enemy, bullets@),
{
    let reach: u128 = ((ENEMY_CONTACT_RADIUS + BULLET_SCALE) * (ENEMY_CONTACT_RADIUS + BULLET_SCALE)) as u128;
    let mut j: usize = 0;
    while j < bullets.len()
        invariant
            0 <= j <= bullets@.len(),
            reach == contact_distance() * contact_distance(),
            bounded(enemy.position, WORLD_LIMIT as int),
            forall|k: int| 0 <= k < bullets@.len() ==> bullet_wf(#[trigger] bullets@[k]),
            forall|k: int| 0 <= k < j ==> !hits(*enemy, #[trigger] bullets@[k]),
        decreases bullets@.len() - j,
    {
        if distance_squared(enemy.position, bullets[j].position) < reach {
            assert(hits(*enemy, bullets@[j as int]));
            return true;
        }
        j = j + 1;
    }
    false
}

/// Splits the enemies into those no projectile touches and those destroyed.
/// An enemy touched by several projectiles is destroyed once and leaves one wreck.
pub fn resolve_collisions(enemies: &Vec<Enemy>, bullets: &Vec<Bullet>) -> (r: (Vec<Enemy>, Vec<Enemy>))
    requires
        forall|i: int| 0 <= i < enemies@.len() ==> enemy_wf(#[trigger] enemies@[i]),
        forall|j: int| 0 <= j < bullets@.len() ==> bullet_wf(#[trigger] bullets@[j]),
    ensures
        r.0@ == survivors(enemies@, bullets@),
        r.1@ == wrecks(enemies@, bullets@),
        forall|i: int| 0 <= i < r.0@.len() ==> enemy_wf(#[trigger] r.0@[i]),
        forall|i: int| 0 <= i < r.1@.len() ==> enemy_wf(#[trigger] r.1@[i]),
{
    let mut kept: Vec<Enemy> = Vec::new();
    let mut wrecked: Vec<Enemy> = Vec::new();
    let mut i: usize = 0;
    while i < enemies.len()
        invariant
            0 <= i <= enemies@.len(),
            kept@ == survivors(enemies@.take(i as int), bullets@),
            wrecked@ == wrecks(enemies@.take(i as int), bullets@),
            forall|k: int| 0 <= k < enemies@.len() ==> enemy_wf(#[trigger] enemies@[k]),
            forall|j: int| 0 <= j < bullets@.len() ==> bullet_wf(#[trigger] bullets@[j]),
            forall|k: int| 0 <= k < kept@.len() ==> enemy_wf(#[trigger] kept@[k]),
            forall|k: int| 0 <= k < wrecked@.len() ==> enemy_wf(#[trigger] wrecked@[k]),
        decreases enemies@.len() - i,
    {
        let e = enemies[i];
        assert(enemies@.take(i as int + 1).drop_last() =~= enemies@.take(i as int));
        if first_hit(&e, bullets) {
            wrecked.push(e);
        } else {
            kept.push(e);
        }
        i = i + 1;
    }
    assert(enemies@.take(enemies@.len() as int) =~= enemies@);
    (kept, wrecked)
}

/// Each enemy is resolved exactly once per frame: it either survives or leaves exactly
/// one wreck, however many projectiles touch it. The wrecks are as many as the enemies
/// touched, and no survivor is touched.
pub proof fn lemma_each_enemy_resolved_once(es: Seq<Enemy>, bs: Seq<Bullet>)
    ensures
        survivors(es, bs).len() + wrecks(es, bs).len() == es.len(),
        wrecks(es, bs).len() == hit_count(es, bs),
        forall|i: int| 0 <= i < survivors(es, bs).len() ==> !hit_by_any(#[trigger] survivors(es, bs)[i], bs),
    decreases es.len(),
{
    if es.len() > 0 {
        lemma_each_enemy_resolved_once(es.drop_last(), bs);
    }
}

/// An enemy touched by one or more projectiles at once is destroyed once, leaving one
/// wreck (hence one pickup and one burst).
pub proof fn lemma_multi_hit_single_wreck(e: Enemy, bs: Seq<Bullet>, j: int)
    requires
        0 <= j < bs.len(),
        hits(e, bs[j]),
    ensures
        wrecks(seq![e], bs) == seq![e],
        survivors(seq![e], bs) == Seq::<Enemy>::empty(),
{
    let es = seq![e];
    assert(hit_by_any(e, bs));
    assert(es.drop_last() =~= Seq::<Enemy>::empty());
    assert(es.last() == e);
    assert(wrecks(es.drop_last(), bs) == Seq::<Enemy>::empty());
    assert(survivors(es.drop_last(), bs) == Seq::<Enemy>::empty());
    assert(wrecks(es, bs) == wrecks(es.drop_last(), bs).push(e));
    assert(Seq::<Enemy>::empty().push(e) =~= seq![e]);
}

} // verus!
