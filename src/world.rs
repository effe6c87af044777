//! The whole simulation state and the per-frame update that runs every system in a
//! fixed order: player controller, enemy AI, integration, combat, pickups, target, HUD,
//! camera.
use crate::angle::ANGLE_LIMIT;
use crate::camera::{
    background_dots, camera_wf, decayed, dot_wrapped, follow_player, followed,
    shake_offset, start_shake, wrap_dot, CameraState,
};
use crate::combat::{resolve_collisions, survivors, wrecks};
use crate::enemies::{
    enemy_wf, initial_spawner, spawner_ticked, spawns, steer_enemy, steered, Enemy, EnemySpawner,
};
use crate::kinematics::{
    advance, bounded, norm2, translate, vadvance, vtranslate, Vec2, WORLD_LIMIT,
};
use crate::pickups::{
    animate_icon, animate_pickup, animated, collect_pickups, collected_count, hud_icon_count,
    icon_animated, icon_count, new_pickup, pickup_wf, reconcile_icons, refilled, uncollected,
    HudIcon, Pickup, HUD_FRAME_MAX, HUD_FRAME_MIN,
};
use crate::player::{
    control_player, controlled_player, fires, heading_ok, player_wf, turn_player, turned,
    turned_player, Player,
};
use crate::projectiles::{
    aimed_shot, bullet_wf, burst_fragment, pruned, prune_bullets, spawn_burst,
    Bullet,
};
use crate::random::{random_direction, seeded_rng};
use crate::target::{
    after_touch, in_target_ring, random_target_location, touch_target, touches,
};
use crate::timer::{fresh_timer, timer_wf, TimerMode};
use crate::tuning::{BURST_FRAGMENTS, HEADING_UNIT, CAR_EXPLOSION_SHAKE_AMOUNT, SPAWN_DISTANCE, VIEW_WIDTH};
use rand::rngs::StdRng;
use vstd::prelude::*;

verus! {

/// The input snapshot of one frame.
#[derive(Clone, Copy, Debug, PartialEq, Eq, Structural)]
pub struct FrameInput {
    /// Frame length in nanoseconds.
    pub dt: u64,
    pub turn_left: bool,
    pub turn_right: bool,
    pub fire: bool,
    pub reset: bool,
}

/// What happened during a frame, for sound and other feedback.
#[derive(Clone, Copy, Debug, PartialEq, Eq, Structural)]
pub struct FrameEvents {
    pub fired: bool,
    pub spawned: bool,
    pub destroyed: u64,
    pub collected: u64,
    pub target_touched: bool,
}

pub struct World {
    pub player: Option<Player>,
    pub enemies: Vec<Enemy>,
    pub bullets: Vec<Bullet>,
    pub pickups: Vec<Pickup>,
    pub hud_icons: Vec<HudIcon>,
    pub spawner: EnemySpawner,
    pub camera: CameraState,
    pub target: Option<Vec2>,
    pub dots: Vec<Vec2>,
    pub rng: StdRng,
}

/// Where the projectiles are culled around: the player's position, if there is a player.
pub open spec fn cull_centre(w: World) -> Option<Vec2> {
    match w.player {
        Some(p) => Some(p.position),
        None => None,
    }
}

/// An offset of length `SPAWN_DISTANCE` up to rounding.
pub open spec fn spawn_offset(d: Vec2) -> bool {
    &&& (SPAWN_DISTANCE - 2) * (SPAWN_DISTANCE - 2) <= norm2(d.x as int, d.y as int)
    &&& norm2(d.x as int, d.y as int) < (SPAWN_DISTANCE + 1) * (SPAWN_DISTANCE + 1)
}

/// A freshly spawned enemy: at rest, facing angle zero, `SPAWN_DISTANCE` from `player`.
pub open spec fn spawned_near(e: Enemy, player: Vec2) -> bool {
    &&& e.velocity == (Vec2 { x: 0, y: 0 })
    &&& e.angle == 0
    &&& e.heading == (Vec2 { x: HEADING_UNIT, y: 0 })
    &&& exists|d: Vec2| spawn_offset(d) && e.position == #[trigger] vtranslate(player, d)
}

/// `frags` holds `BURST_FRAGMENTS` fragments for each destroyed enemy, in order, each
/// from that enemy's position and facing.
pub open spec fn bursts_at(frags: Seq<Bullet>, ws: Seq<Enemy>) -> bool {
    &&& frags.len() == BURST_FRAGMENTS * ws.len()
    &&& forall|i: int|
        0 <= i < frags.len() ==> burst_fragment(
            #[trigger] frags[i],
            ws[i / BURST_FRAGMENTS as int].position,
            ws[i / BURST_FRAGMENTS as int].heading,
        )
}

/// A HUD icon just added and then animated for `dt`.
pub open spec fn new_icon_animated(i: HudIcon, dt: u64) -> bool {
    let d = i.frame_timer.duration;
    &&& HUD_FRAME_MIN <= d < HUD_FRAME_MAX
    &&& i == icon_animated(HudIcon { frame_timer: fresh_timer(d, TimerMode::Repeating), frame: 0 }, dt)
}

/// The player controller's step from `a` to `b`.
pub open spec fn control_post(a: World, b: World, input: FrameInput, heading: Vec2, fired: bool) -> bool {
    let dt = input.dt;
    let fire = input.fire;
    &&& match a.player {
        None => !fired && b.player == a.player && b.bullets@ == a.bullets@,
        Some(p) => {
            &&& fired == fires(p, fire, dt)
            &&& b.player == Some(controlled_player(turned_player(p, input.turn_left, input.turn_right, dt), fire, heading, dt))
            &&& fired ==> b.bullets@.len() == a.bullets@.len() + 1 && b.bullets@.drop_last() == a.bullets@
                && aimed_shot(b.bullets@.last(), p.position, heading, p.velocity)
            &&& !fired ==> b.bullets@ == a.bullets@
        },
    }
    &&& b.enemies@ == a.enemies@
    &&& b.pickups@ == a.pickups@
    &&& b.hud_icons@ == a.hud_icons@
    &&& b.spawner == a.spawner
    &&& b.camera == a.camera
    &&& b.target == a.target
    &&& b.dots@ == a.dots@
}

/// The enemy AI's step from `a` to `b`: every enemy steered, the spawner ticked, and a
/// new enemy when it fires; nothing without a player.
pub open spec fn enemy_post(
    a: World,
    b: World,
    headings: Seq<Vec2>,
    bearings: Seq<i64>,
    dt: u64,
    spawned: bool,
) -> bool {
    &&& match a.player {
        None => !spawned && b.enemies@ == a.enemies@ && b.spawner == a.spawner,
        Some(p) => {
            &&& spawned == spawns(a.spawner, dt)
            &&& b.spawner == spawner_ticked(a.spawner, dt)
            &&& b.enemies@.len() == a.enemies@.len() + (if spawned { 1int } else { 0int })
            &&& forall|i: int|
                0 <= i < a.enemies@.len() ==> #[trigger] b.enemies@[i] == steered(a.enemies@[i], bearings[i], headings[i], dt)
            &&& spawned ==> spawned_near(b.enemies@.last(), p.position)
        },
    }
    &&& b.player == a.player
    &&& b.bullets@ == a.bullets@
    &&& b.pickups@ == a.pickups@
    &&& b.hud_icons@ == a.hud_icons@
    &&& b.camera == a.camera
    &&& b.target == a.target
    &&& b.dots@ == a.dots@
}

/// The integration step from `a` to `b`: the player, every enemy and every projectile
/// moved along its velocity.
pub open spec fn integrate_post(a: World, b: World, dt: u64) -> bool {
    &&& match a.player {
        None => b.player == a.player,
        Some(p) => b.player == Some(Player { position: vadvance(p.position, p.velocity, dt), ..p }),
    }
    &&& b.enemies@.len() == a.enemies@.len()
    &&& forall|i: int| 0 <= i < a.enemies@.len() ==> #[trigger] b.enemies@[i] == (Enemy {
        position: vadvance(a.enemies@[i].position, a.enemies@[i].velocity, dt),
        ..a.enemies@[i]
    })
    &&& b.bullets@.len() == a.bullets@.len()
    &&& forall|i: int| 0 <= i < a.bullets@.len() ==> #[trigger] b.bullets@[i] == (Bullet {
        position: vadvance(a.bullets@[i].position, a.bullets@[i].velocity, dt),
        ..a.bullets@[i]
    })
    &&& b.pickups@ == a.pickups@
    &&& b.hud_icons@ == a.hud_icons@
    &&& b.spawner == a.spawner
    &&& b.camera == a.camera
    &&& b.target == a.target
    &&& b.dots@ == a.dots@
}

/// The combat step from `a` to `b`: touched enemies destroyed once each, each wreck
/// leaving a pickup and a burst and setting the shake, then the projectiles pruned.
pub open spec fn combat_post(a: World, b: World, dt: u64, destroyed: u64) -> bool {
    let sites = wrecks(a.enemies@, a.bullets@);
    &&& destroyed == sites.len()
    &&& b.enemies@ == survivors(a.enemies@, a.bullets@)
    &&& b.pickups@.len() == a.pickups@.len() + destroyed
    &&& b.pickups@.take(a.pickups@.len() as int) == a.pickups@
    &&& forall|k: int| 0 <= k < destroyed ==> #[trigger] b.pickups@[a.pickups@.len() + k] == new_pickup(sites[k].position)
    &&& exists|frags: Seq<Bullet>| bursts_at(frags, sites) && b.bullets@ == #[trigger] pruned(a.bullets@ + frags, cull_centre(a), dt)
    &&& destroyed > 0 ==> b.camera == (CameraState { shake: CAR_EXPLOSION_SHAKE_AMOUNT, ..a.camera })
    &&& destroyed == 0 ==> b.camera == a.camera
    &&& b.player == a.player
    &&& b.hud_icons@ == a.hud_icons@
    &&& b.spawner == a.spawner
    &&& b.target == a.target
    &&& b.dots@ == a.dots@
}

/// Every pickup of `ps` animated for `dt`.
pub open spec fn all_animated(ps: Seq<Pickup>, dt: u64) -> Seq<Pickup> {
    ps.map_values(|p: Pickup| animated(p, dt))
}

/// The pickup step from `a` to `b`: every pickup animates; with a player, pickups drift
/// and those in reach are collected for ammunition.
pub open spec fn pickup_post(a: World, b: World, dt: u64, collected: u64) -> bool {
    let an = all_animated(a.pickups@, dt);
    &&& match a.player {
        None => collected == 0 && b.pickups@ == an && b.player == a.player,
        Some(p) => {
            &&& b.pickups@ == uncollected(an, p.position, dt)
            &&& collected == collected_count(an, p.position, dt)
            &&& b.player == Some(Player { ammunition: refilled(p.ammunition, collected as nat), ..p })
        },
    }
    &&& b.enemies@ == a.enemies@
    &&& b.bullets@ == a.bullets@
    &&& b.hud_icons@ == a.hud_icons@
    &&& b.spawner == a.spawner
    &&& b.camera == a.camera
    &&& b.target == a.target
    &&& b.dots@ == a.dots@
}

/// The target step from `a` to `b`: a touch scores and moves the target into the ring.
pub open spec fn target_post(a: World, b: World, touched: bool) -> bool {
    &&& match (a.player, a.target) {
        (Some(p), Some(t)) => {
            &&& touched == touches(p.position, t)
            &&& b.player == Some(after_touch(p, t))
            &&& touched ==> (b.target matches Some(t2) && in_target_ring(t2))
            &&& !touched ==> b.target == a.target
        },
        _ => !touched && b.player == a.player && b.target == a.target,
    }
    &&& b.enemies@ == a.enemies@
    &&& b.bullets@ == a.bullets@
    &&& b.pickups@ == a.pickups@
    &&& b.hud_icons@ == a.hud_icons@
    &&& b.spawner == a.spawner
    &&& b.camera == a.camera
    &&& b.dots@ == a.dots@
}

/// The HUD step from `a` to `b`: with a player the icon row is brought to `icon_count`
/// of the ammunition, keeping the first icons and adding fresh ones; every icon animates.
pub open spec fn hud_post(a: World, b: World, dt: u64) -> bool {
    &&& match a.player {
        None => b.hud_icons@ == a.hud_icons@.map_values(|i: HudIcon| icon_animated(i, dt)),
        Some(p) => {
            &&& b.hud_icons@.len() == icon_count(p.ammunition)
            &&& forall|i: int|
                0 <= i < b.hud_icons@.len() ==> if i < a.hud_icons@.len() {
                    #[trigger] b.hud_icons@[i] == icon_animated(a.hud_icons@[i], dt)
                } else {
                    new_icon_animated(b.hud_icons@[i], dt)
                }
        },
    }
    &&& b.player == a.player
    &&& b.enemies@ == a.enemies@
    &&& b.bullets@ == a.bullets@
    &&& b.pickups@ == a.pickups@
    &&& b.spawner == a.spawner
    &&& b.camera == a.camera
    &&& b.target == a.target
    &&& b.dots@ == a.dots@
}

/// The camera step from `a` to `b`: with a player the camera follows, shakes and decays
/// the shake; without one it stays as it is. The background wraps around the camera.
pub open spec fn camera_post(a: World, b: World, dt: u64) -> bool {
    &&& match a.player {
        None => b.camera == a.camera,
        Some(p) => {
            let f = followed(a.camera.position, p.position, p.velocity, dt);
            let m = a.camera.shake;
            &&& b.camera.shake == decayed(m)
            &&& m < 2 ==> b.camera.position == f
            &&& m >= 2 ==> exists|d: Vec2| shake_offset(d, m) && b.camera.position == #[trigger] vtranslate(f, d)
        },
    }
    &&& b.dots@.len() == a.dots@.len()
    &&& forall|i: int| 0 <= i < a.dots@.len() ==> #[trigger] b.dots@[i] == dot_wrapped(a.dots@[i], b.camera.position)
    &&& b.player == a.player
    &&& b.enemies@ == a.enemies@
    &&& b.bullets@ == a.bullets@
    &&& b.pickups@ == a.pickups@
    &&& b.hud_icons@ == a.hud_icons@
    &&& b.spawner == a.spawner
    &&& b.target == a.target
}

impl World {
    pub open spec fn wf(&self) -> bool {
        &&& (self.player matches Some(p) ==> player_wf(p))
        &&& forall|i: int| 0 <= i < self.enemies@.len() ==> enemy_wf(#[trigger] self.enemies@[i])
        &&& forall|i: int| 0 <= i < self.bullets@.len() ==> bullet_wf(#[trigger] self.bullets@[i])
        &&& forall|i: int| 0 <= i < self.pickups@.len() ==> pickup_wf(#[trigger] self.pickups@[i])
        &&& camera_wf(self.camera)
        &&& timer_wf(self.spawner.timer)
        &&& (self.target matches Some(t) ==> bounded(t, WORLD_LIMIT as int))
        &&& forall|i: int| 0 <= i < self.dots@.len() ==> bounded(#[trigger] self.dots@[i], WORLD_LIMIT + VIEW_WIDTH)
        &&& forall|i: int| 0 <= i < self.hud_icons@.len() ==> (#[trigger] self.hud_icons@[i]).frame < crate::tuning::PICKUP_FRAMES
    }

    /// A new game: the player at the origin, no enemies, projectiles or pickups, the
    /// spawner at its starting interval, a target placed at random; randomness seeded
    /// from `seed`.
    pub fn new(seed: u64) -> (r: World)
        ensures
            r.wf(),
            r.player == Some(crate::player::initial_player()),
            r.enemies@.len() == 0,
            r.bullets@.len() == 0,
            r.pickups@.len() == 0,
            r.camera.shake == 0,
            r.camera.position == (Vec2 { x: 0, y: 0 }),
            r.spawner == initial_spawner(),
            r.hud_icons@.len() == 0,
            r.target matches Some(t) && in_target_ring(t),
            r.dots@.len() == crate::camera::dot_columns() * crate::camera::dot_rows(),
            forall|n: int|
                0 <= n < r.dots@.len() ==> #[trigger] r.dots@[n] == crate::camera::dot_at(
                    n / crate::camera::dot_rows(),
                    n % crate::camera::dot_rows(),
                ),
    {
        let mut rng = seeded_rng(seed);
        let target = random_target_location(&mut rng);
        let dots = background_dots();
        let mut w = World {
            player: Some(Player::new()),
            enemies: Vec::new(),
            bullets: Vec::new(),
            pickups: Vec::new(),
            hud_icons: Vec::new(),
            spawner: EnemySpawner::new(),
            camera: CameraState::new(),
            target: Some(target),
            dots,
            rng,
        };
        assert(forall|i: int| 0 <= i < w.dots@.len() ==> bounded(#[trigger] w.dots@[i], WORLD_LIMIT + VIEW_WIDTH)) by {
            assert forall|i: int| 0 <= i < w.dots@.len() implies bounded(#[trigger] w.dots@[i], WORLD_LIMIT + VIEW_WIDTH) by {
                lemma_grid_bounded(i);
            }
        }
        w
    }

    /// Removes the player, as a fatal collision rule decides; the systems that need a
    /// player skip their work until a reset brings a new one.
    pub fn remove_player(&mut self)
        requires
            old(self).wf(),
        ensures
            final(self).wf(),
            final(self).player.is_none(),
            final(self).enemies@ == old(self).enemies@,
            final(self).bullets@ == old(self).bullets@,
            final(self).pickups@ == old(self).pickups@,
            final(self).hud_icons@ == old(self).hud_icons@,
            final(self).spawner == old(self).spawner,
            final(self).camera == old(self).camera,
            final(self).target == old(self).target,
            final(self).dots@ == old(self).dots@,
    {
        self.player = None;
    }

    /// First half of a frame: a reset tears down every transient entity and recreates
    /// the player and the spawner, all at once; other frames change nothing here.
    pub fn begin_frame(&mut self, input: FrameInput)
        requires
            old(self).wf(),
        ensures
            final(self).wf(),
            input.reset ==> final(self).player == Some(crate::player::initial_player())
                && final(self).enemies@.len() == 0 && final(self).bullets@.len() == 0
                && final(self).pickups@.len() == 0 && final(self).spawner == initial_spawner(),
            !input.reset ==> final(self).player == old(self).player && final(self).enemies@ == old(self).enemies@
                && final(self).bullets@ == old(self).bullets@ && final(self).pickups@ == old(self).pickups@
                && final(self).spawner == old(self).spawner,
            final(self).hud_icons@ == old(self).hud_icons@,
            final(self).camera == old(self).camera,
            final(self).target == old(self).target,
            final(self).dots@ == old(self).dots@,
    {
        if input.reset {
            self.player = Some(Player::new());
            self.enemies = Vec::new();
            self.bullets = Vec::new();
            self.pickups = Vec::new();
            self.spawner = EnemySpawner::new();
        }
    }

    /// The player's facing once this frame's turn keys are applied, from which the host
    /// computes the heading it hands to `finish_frame`; none without a player.
    pub fn turned_facing(&self, input: FrameInput) -> (r: Option<i64>)
        requires
            self.wf(),
        ensures
            self.player is None ==> r is None,
            self.player matches Some(p) ==> r == Some(
                turned(p.angle as int, input.turn_left, input.turn_right, input.dt as int) as i64,
            ),
    {
        match self.player {
            Some(p) => Some(turn_player(p.angle, input.turn_left, input.turn_right, input.dt)),
            None => None,
        }
    }

    /// Second half of a frame, after the host has turned facings into headings:
    /// `player_heading` for the player's facing after this frame's turn (see
    /// `turned_facing`), and for each enemy in order its heading and its bearing to the
    /// player. The systems run in a fixed order, each on
    /// the state the one before left: player controller, enemy AI, integration, combat,
    /// pickups, target, HUD, camera.
    pub fn finish_frame(
        &mut self,
        input: FrameInput,
        player_heading: Vec2,
        enemy_headings: &Vec<Vec2>,
        enemy_bearings: &Vec<i64>,
    ) -> (ev: FrameEvents)
        requires
            old(self).wf(),
            heading_ok(player_heading),
            enemy_headings@.len() == old(self).enemies@.len(),
            enemy_bearings@.len() == old(self).enemies@.len(),
            forall|i: int| 0 <= i < enemy_headings@.len() ==> heading_ok(#[trigger] enemy_headings@[i]),
            forall|i: int| 0 <= i < enemy_bearings@.len() ==> -ANGLE_LIMIT <= #[trigger] enemy_bearings@[i] <= ANGLE_LIMIT,
        ensures
            final(self).wf(),
            exists|w1: World, w2: World, w3: World, w4: World, w5: World, w6: World, w7: World|
                #![trigger control_post(*old(self), w1, input, player_heading, ev.fired), enemy_post(w1, w2, enemy_headings@, enemy_bearings@, input.dt, ev.spawned), integrate_post(w2, w3, input.dt), combat_post(w3, w4, input.dt, ev.destroyed), pickup_post(w4, w5, input.dt, ev.collected), target_post(w5, w6, ev.target_touched), hud_post(w6, w7, input.dt)]
                control_post(*old(self), w1, input, player_heading, ev.fired)
                && enemy_post(w1, w2, enemy_headings@, enemy_bearings@, input.dt, ev.spawned)
                && integrate_post(w2, w3, input.dt)
                && combat_post(w3, w4, input.dt, ev.destroyed)
                && pickup_post(w4, w5, input.dt, ev.collected)
                && target_post(w5, w6, ev.target_touched)
                && hud_post(w6, w7, input.dt)
                && camera_post(w7, *final(self), input.dt),
    {
        let dt = input.dt;
        let fired = self.control_phase(input, player_heading);
        let ghost w1 = *self;
        let spawned = self.enemy_phase(enemy_headings, enemy_bearings, dt);
        let ghost w2 = *self;
        self.integrate_phase(dt);
        let ghost w3 = *self;
        let destroyed = self.combat_phase(dt);
        let ghost w4 = *self;
        let collected = self.pickup_phase(dt);
        let ghost w5 = *self;
        let touched = self.target_phase();
        let ghost w6 = *self;
        self.hud_phase(dt);
        let ghost w7 = *self;
        self.camera_phase(dt);
        let ev = FrameEvents { fired, spawned, destroyed, collected, target_touched: touched };
        assert(control_post(*old(self), w1, input, player_heading, ev.fired)
            && enemy_post(w1, w2, enemy_headings@, enemy_bearings@, input.dt, ev.spawned)
            && integrate_post(w2, w3, input.dt) && combat_post(w3, w4, input.dt, ev.destroyed)
            && pickup_post(w4, w5, input.dt, ev.collected) && target_post(w5, w6, ev.target_touched)
            && hud_post(w6, w7, input.dt) && camera_post(w7, *self, input.dt));
        ev
    }

    /// Player controller: turning, cooldown, firing (one aimed shot), thrust, speed cap
    /// and drag. `heading` is the direction of the facing after this frame's turn.
    pub fn control_phase(&mut self, input: FrameInput, heading: Vec2) -> (fired: bool)
        requires
            old(self).wf(),
            heading_ok(heading),
        ensures
            final(self).wf(),
            control_post(*old(self), *final(self), input, heading, fired),
    {
        control_player(
            &mut self.rng,
            &mut self.player,
            &mut self.bullets,
            input.turn_left,
            input.turn_right,
            input.fire,
            heading,
            input.dt,
        )
    }

    /// Enemy AI: the steering of every enemy and the spawner; skipped without a player.
    pub fn enemy_phase(&mut self, headings: &Vec<Vec2>, bearings: &Vec<i64>, dt: u64) -> (spawned: bool)
        requires
            old(self).wf(),
            headings@.len() == old(self).enemies@.len(),
            bearings@.len() == old(self).enemies@.len(),
            forall|i: int| 0 <= i < headings@.len() ==> heading_ok(#[trigger] headings@[i]),
            forall|i: int| 0 <= i < bearings@.len() ==> -ANGLE_LIMIT <= #[trigger] bearings@[i] <= ANGLE_LIMIT,
        ensures
            final(self).wf(),
            enemy_post(*old(self), *final(self), headings@, bearings@, dt, spawned),
    {
        let player = match self.player {
            Some(p) => p,
            None => {
                return false;
            },
        };
        let mut steered_all: Vec<Enemy> = Vec::new();
        let mut i: usize = 0;
        while i < self.enemies.len()
            invariant
                old(self).wf(),
                self.enemies@ == old(self).enemies@,
                0 <= i <= self.enemies@.len(),
                steered_all@.len() == i,
                    headings@.len() == old(self).enemies@.len(),
                bearings@.len() == old(self).enemies@.len(),
                forall|k: int| 0 <= k < headings@.len() ==> heading_ok(#[trigger] headings@[k]),
                forall|k: int| 0 <= k < bearings@.len() ==> -ANGLE_LIMIT <= #[trigger] bearings@[k] <= ANGLE_LIMIT,
                forall|k: int| 0 <= k < steered_all@.len() ==> enemy_wf(#[trigger] steered_all@[k]),
                forall|k: int| 0 <= k < i ==> #[trigger] steered_all@[k] == steered(old(self).enemies@[k], bearings@[k], headings@[k], dt),
            decreases self.enemies@.len() - i,
        {
            let mut e = self.enemies[i];
            assert(enemy_wf(old(self).enemies@[i as int]));
            steer_enemy(&mut e, bearings[i], headings[i], dt);
            steered_all.push(e);
            i = i + 1;
        }
        self.enemies = steered_all;
        let spawned = self.spawner.tick(dt);
        if spawned {
            let offset = random_direction(&mut self.rng, SPAWN_DISTANCE);
            let position = translate(player.position, offset);
            let e = Enemy {
                position,
                velocity: Vec2 { x: 0, y: 0 },
                angle: 0,
                heading: Vec2 { x: HEADING_UNIT, y: 0 },
            };
            assert(spawn_offset(offset) && e.position == vtranslate(player.position, offset));
            self.enemies.push(e);
        }
        spawned
    }

    /// Moves every entity along its velocity.
    pub fn integrate_phase(&mut self, dt: u64)
        requires
            old(self).wf(),
        ensures
            final(self).wf(),
            integrate_post(*old(self), *final(self), dt),
    {
        match self.player {
            Some(p) => {
                let mut p2 = p;
                p2.position = advance(p.position, p.velocity, dt);
                self.player = Some(p2);
            },
            None => {},
        }
        let mut moved: Vec<Enemy> = Vec::new();
        let mut i: usize = 0;
        while i < self.enemies.len()
            invariant
                old(self).wf(),
                self.enemies@ == old(self).enemies@,
                0 <= i <= self.enemies@.len(),
                moved@.len() == i,
                    forall|k: int| 0 <= k < i ==> (#[trigger] moved@[k]) == (Enemy {
                    position: vadvance(old(self).enemies@[k].position, old(self).enemies@[k].velocity, dt),
                    ..old(self).enemies@[k]
                }),
                forall|k: int| 0 <= k < i ==> enemy_wf(#[trigger] moved@[k]),
            decreases self.enemies@.len() - i,
        {
            let e = self.enemies[i];
            assert(enemy_wf(old(self).enemies@[i as int]));
            moved.push(Enemy { position: advance(e.position, e.velocity, dt), ..e });
            i = i + 1;
        }
        self.enemies = moved;
        let mut flown: Vec<Bullet> = Vec::new();
        let mut j: usize = 0;
        while j < self.bullets.len()
            invariant
                old(self).wf(),
                self.bullets@ == old(self).bullets@,
                0 <= j <= self.bullets@.len(),
                flown@.len() == j,
                    forall|k: int| 0 <= k < j ==> (#[trigger] flown@[k]) == (Bullet {
                    position: vadvance(old(self).bullets@[k].position, old(self).bullets@[k].velocity, dt),
                    ..old(self).bullets@[k]
                }),
                forall|k: int| 0 <= k < j ==> bullet_wf(#[trigger] flown@[k]),
            decreases self.bullets@.len() - j,
        {
            let b = self.bullets[j];
            assert(bullet_wf(old(self).bullets@[j as int]));
            flown.push(Bullet { position: advance(b.position, b.velocity, dt), ..b });
            j = j + 1;
        }
        self.bullets = flown;
    }

    /// Combat: destroys every enemy a projectile touches (once each), and for each wreck
    /// sets the screen shake, spawns a burst and leaves a pickup; then removes projectiles
    /// whose lifetime is over or which are too far from the player.
    pub fn combat_phase(&mut self, dt: u64) -> (destroyed: u64)
        requires
            old(self).wf(),
        ensures
            final(self).wf(),
            combat_post(*old(self), *final(self), dt, destroyed),
            final(self).enemies@.len() + destroyed == old(self).enemies@.len(),
    {
        let (survivors_v, wrecked) = resolve_collisions(&self.enemies, &self.bullets);
        proof {
            crate::combat::lemma_each_enemy_resolved_once(old(self).enemies@, old(self).bullets@);
        }
        self.enemies = survivors_v;
        let ghost pickups0 = self.pickups@;
        let ghost bullets0 = self.bullets@;
        let ghost camera0 = self.camera;
        let mut k: usize = 0;
        while k < wrecked.len()
            invariant
                0 <= k <= wrecked@.len(),
                forall|i: int| 0 <= i < wrecked@.len() ==> enemy_wf(#[trigger] wrecked@[i]),
                forall|i: int| 0 <= i < self.enemies@.len() ==> enemy_wf(#[trigger] self.enemies@[i]),
                self.enemies@ == survivors(old(self).enemies@, old(self).bullets@),
                self.enemies@.len() + wrecked@.len() == old(self).enemies@.len(),
                wrecked@ == wrecks(old(self).enemies@, old(self).bullets@),
                self.dots@ == old(self).dots@,
                self.hud_icons@ == old(self).hud_icons@,
                old(self).wf(),
                bullets0 == old(self).bullets@,
                pickups0 == old(self).pickups@,
                self.pickups@.len() == pickups0.len() + k,
                self.pickups@.take(pickups0.len() as int) == pickups0,
                forall|i: int| 0 <= i < k ==> #[trigger] self.pickups@[pickups0.len() + i] == new_pickup(wrecked@[i].position),
                forall|i: int| 0 <= i < self.pickups@.len() ==> pickup_wf(#[trigger] self.pickups@[i]),
                self.bullets@.len() == bullets0.len() + BURST_FRAGMENTS * k,
                self.bullets@.take(bullets0.len() as int) == bullets0,
                forall|i: int|
                    bullets0.len() <= i < self.bullets@.len() ==> burst_fragment(
                        #[trigger] self.bullets@[i],
                        wrecked@[(i - bullets0.len()) / BURST_FRAGMENTS as int].position,
                        wrecked@[(i - bullets0.len()) / BURST_FRAGMENTS as int].heading,
                    ),
                forall|i: int| 0 <= i < self.bullets@.len() ==> bullet_wf(#[trigger] self.bullets@[i]),
                camera_wf(self.camera),
                k > 0 ==> self.camera == (CameraState { shake: CAR_EXPLOSION_SHAKE_AMOUNT, ..camera0 }),
                k == 0 ==> self.camera == camera0,
                camera0 == old(self).camera,
                self.player == old(self).player,
                self.spawner == old(self).spawner,
                self.target == old(self).target,
            decreases wrecked@.len() - k,
        {
            let wreck = wrecked[k];
            let site = wreck.position;
            start_shake(&mut self.camera, CAR_EXPLOSION_SHAKE_AMOUNT);
            let ghost bullets_before = self.bullets@;
            spawn_burst(&mut self.rng, &mut self.bullets, site, wreck.heading, BURST_FRAGMENTS);
            proof {
                assert forall|i: int| 0 <= i < self.bullets@.len() implies bullet_wf(#[trigger] self.bullets@[i]) by {
                    if i < bullets_before.len() {
                        assert(self.bullets@[i] == self.bullets@.take(bullets_before.len() as int)[i]);
                    }
                }
                assert(self.bullets@.take(bullets0.len() as int) =~= bullets_before.take(bullets0.len() as int));
                assert forall|i: int| bullets0.len() <= i < self.bullets@.len() implies burst_fragment(
                    #[trigger] self.bullets@[i],
                    wrecked@[(i - bullets0.len()) / BURST_FRAGMENTS as int].position,
                    wrecked@[(i - bullets0.len()) / BURST_FRAGMENTS as int].heading,
                ) by {
                    if i < bullets_before.len() {
                        assert(self.bullets@[i] == self.bullets@.take(bullets_before.len() as int)[i]);
                    } else {
                        let j = i - bullets0.len();
                        vstd::arithmetic::div_mod::lemma_fundamental_div_mod_converse(
                            j,
                            BURST_FRAGMENTS as int,
                            k as int,
                            j - BURST_FRAGMENTS * k,
                        );
                    }
                }
            }
            let ghost before = self.pickups@;
            self.pickups.push(Pickup::new(site));
            assert(self.pickups@.take(pickups0.len() as int) =~= before.take(pickups0.len() as int));
            proof {
                assert forall|i: int| 0 <= i < k + 1 implies #[trigger] self.pickups@[pickups0.len() + i] == new_pickup(wrecked@[i].position) by {
                    if i < k {
                        assert(self.pickups@[pickups0.len() + i] == before[pickups0.len() + i]);
                    }
                }
            }
            k = k + 1;
        }
        let ghost frags = self.bullets@.skip(bullets0.len() as int);
        proof {
            assert(bullets0 + frags =~= self.bullets@);
            assert forall|i: int| 0 <= i < frags.len() implies burst_fragment(
                #[trigger] frags[i],
                wrecked@[i / BURST_FRAGMENTS as int].position,
                wrecked@[i / BURST_FRAGMENTS as int].heading,
            ) by {
                assert(frags[i] == self.bullets@[bullets0.len() + i]);
            }
            assert(bursts_at(frags, wrecked@));
        }
        let centre = match self.player {
            Some(p) => Some(p.position),
            None => None,
        };
        prune_bullets(&mut self.bullets, centre, dt);
        proof {
            assert(self.bullets@ == pruned(bullets0 + frags, cull_centre(*old(self)), dt));
        }
        wrecked.len() as u64
    }

    /// Pickups: every pickup animates; with a player, pickups drift and those in reach
    /// are collected.
    pub fn pickup_phase(&mut self, dt: u64) -> (collected: u64)
        requires
            old(self).wf(),
        ensures
            final(self).wf(),
            pickup_post(*old(self), *final(self), dt, collected),
    {
        let mut animated_v: Vec<Pickup> = Vec::new();
        let mut i: usize = 0;
        while i < self.pickups.len()
            invariant
                old(self).wf(),
                self.pickups@ == old(self).pickups@,
                0 <= i <= self.pickups@.len(),
                animated_v@.len() == i,
                forall|k: int| 0 <= k < i ==> pickup_wf(#[trigger] animated_v@[k]),
                forall|k: int| 0 <= k < i ==> #[trigger] animated_v@[k] == animated(old(self).pickups@[k], dt),
            decreases self.pickups@.len() - i,
        {
            let mut p = self.pickups[i];
            assert(pickup_wf(old(self).pickups@[i as int]));
            animate_pickup(&mut p, dt);
            animated_v.push(p);
            i = i + 1;
        }
        assert(animated_v@ =~= all_animated(old(self).pickups@, dt));
        self.pickups = animated_v;
        match self.player {
            Some(p) => {
                let mut p2 = p;
                let ghost before = self.pickups@;
                let n0 = self.pickups.len();
                collect_pickups(&mut self.pickups, p.position, &mut p2.ammunition, dt);
                proof {
                    crate::pickups::lemma_collected_count(before, p.position, dt);
                }
                self.player = Some(p2);
                (n0 - self.pickups.len()) as u64
            },
            None => 0,
        }
    }

    /// Target: a player touching it scores (up to `MAX_SCORE`), gains ammunition, and the
    /// target moves to a new random place in the ring.
    pub fn target_phase(&mut self) -> (touched: bool)
        requires
            old(self).wf(),
        ensures
            final(self).wf(),
            target_post(*old(self), *final(self), touched),
    {
        touch_target(&mut self.rng, &mut self.player, &mut self.target)
    }

    /// HUD: the fuel icon row is brought to one icon per started `JERRY_CAN_FUEL_COUNT`
    /// rounds of ammunition, and every icon animates.
    pub fn hud_phase(&mut self, dt: u64)
        requires
            old(self).wf(),
        ensures
            final(self).wf(),
            hud_post(*old(self), *final(self), dt),
    {
        let ghost icons0 = self.hud_icons@;
        match self.player {
            Some(p) => {
                let count = hud_icon_count(p.ammunition);
                reconcile_icons(&mut self.rng, &mut self.hud_icons, count);
                proof {
                    assert forall|i: int| 0 <= i < self.hud_icons@.len() implies (#[trigger] self.hud_icons@[i]).frame < crate::tuning::PICKUP_FRAMES by {
                        if count <= icons0.len() {
                            assert(self.hud_icons@[i] == icons0.take(count as int)[i]);
                        } else if i < icons0.len() {
                            assert(self.hud_icons@[i] == self.hud_icons@.take(icons0.len() as int)[i]);
                        }
                    }
                }
            },
            None => {},
        }
        let ghost icons1 = self.hud_icons@;
        let mut animated_v: Vec<HudIcon> = Vec::new();
        let mut i: usize = 0;
        while i < self.hud_icons.len()
            invariant
                self.hud_icons@ == icons1,
                forall|k: int| 0 <= k < icons1.len() ==> (#[trigger] icons1[k]).frame < crate::tuning::PICKUP_FRAMES,
                0 <= i <= icons1.len(),
                animated_v@.len() == i,
                forall|k: int| 0 <= k < i ==> (#[trigger] animated_v@[k]).frame < crate::tuning::PICKUP_FRAMES,
                forall|k: int| 0 <= k < i ==> #[trigger] animated_v@[k] == icon_animated(icons1[k], dt),
            decreases icons1.len() - i,
        {
            let mut icon = self.hud_icons[i];
            animate_icon(&mut icon, dt);
            animated_v.push(icon);
            i = i + 1;
        }
        self.hud_icons = animated_v;
        proof {
            match old(self).player {
                None => {
                    assert(self.hud_icons@ =~= icons0.map_values(|i: HudIcon| icon_animated(i, dt)));
                },
                Some(p) => {
                    assert forall|i: int| 0 <= i < self.hud_icons@.len() implies if i < icons0.len() {
                        #[trigger] self.hud_icons@[i] == icon_animated(icons0[i], dt)
                    } else {
                        new_icon_animated(self.hud_icons@[i], dt)
                    } by {
                        if i < icons0.len() {
                            if icon_count(p.ammunition) <= icons0.len() {
                                assert(icons1[i] == icons0.take(icon_count(p.ammunition))[i]);
                            } else {
                                assert(icons1[i] == icons1.take(icons0.len() as int)[i]);
                            }
                        }
                    }
                },
            }
        }
    }

    /// Camera: with a player, follows it with lookahead, shakes and decays the shake;
    /// without one it stays as it is. The background grid wraps around the camera.
    pub fn camera_phase(&mut self, dt: u64)
        requires
            old(self).wf(),
        ensures
            final(self).wf(),
            camera_post(*old(self), *final(self), dt),
    {
        follow_player(&mut self.rng, &mut self.camera, self.player, dt);
        let mut wrapped_v: Vec<Vec2> = Vec::new();
        let mut i: usize = 0;
        while i < self.dots.len()
            invariant
                old(self).wf(),
                self.dots@ == old(self).dots@,
                camera_wf(self.camera),
                0 <= i <= self.dots@.len(),
                wrapped_v@.len() == i,
                forall|k: int| 0 <= k < i ==> bounded(#[trigger] wrapped_v@[k], WORLD_LIMIT + VIEW_WIDTH),
                forall|k: int| 0 <= k < i ==> #[trigger] wrapped_v@[k] == dot_wrapped(old(self).dots@[k], self.camera.position),
            decreases self.dots@.len() - i,
        {
            let d = self.dots[i];
            assert(bounded(old(self).dots@[i as int], WORLD_LIMIT + VIEW_WIDTH));
            wrapped_v.push(wrap_dot(d, self.camera.position));
            i = i + 1;
        }
        self.dots = wrapped_v;
    }
}

proof fn lemma_grid_bounded(n: int)
    requires
        0 <= n < crate::camera::dot_columns() * crate::camera::dot_rows(),
    ensures
        bounded(crate::camera::dot_at(n / crate::camera::dot_rows(), n % crate::camera::dot_rows()), WORLD_LIMIT as int),
{
    let rows = crate::camera::dot_rows();
    assert(rows == 18);
    assert(crate::camera::dot_columns() == 32);
    vstd::arithmetic::div_mod::lemma_fundamental_div_mod(n, rows);
    vstd::arithmetic::div_mod::lemma_mod_bound(n, rows);
    let q = n / rows;
    assert(0 <= q < 32) by (nonlinear_arith)
        requires
            n == 18 * q + n % 18,
            0 <= n % 18 < 18,
            0 <= n < 32 * 18,
    ;
}

} // verus!
