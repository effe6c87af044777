use rand::rngs::StdRng;
use rand::SeedableRng;
use shooter_core::combat::resolve_collisions;
use shooter_core::enemies::Enemy;
use shooter_core::kinematics::Vec2;
use shooter_core::pickups::{
    advance_frame, collect_pickups, hud_icon_count, hud_icon_positions, reconcile_icons, HudIcon,
    Pickup, HUD_FRAME_MAX, HUD_FRAME_MIN,
};
use shooter_core::player::{control_player, drive_player, rotation_step, turn_player, Player};
use shooter_core::projectiles::{
    aimed_bullet_velocity, fire_bullet, fragment_color, prune_bullets, spawn_burst, Bullet, FragmentColor, Look,
    FRAGMENT_MAX_RADIUS, FRAGMENT_MIN_RADIUS,
};
use shooter_core::target::{arrow_position, random_target_location, star_positions, touch_target};
use shooter_core::timer::{Timer, TimerMode};
use shooter_core::tuning::{
    BURST_FRAGMENTS, CAR_EXPLOSION_SHAKE_AMOUNT, FRAGMENT_MAX_LIFETIME, FRAGMENT_MIN_LIFETIME,
    HEADING_UNIT, JERRY_CAN_FUEL_COUNT, MAX_SCORE, STARTING_AMMUNITION,
};
use shooter_core::world::{FrameInput, World};

fn v(x: i64, y: i64) -> Vec2 {
    Vec2 { x, y }
}

fn still_bullet(at: Vec2) -> Bullet {
    Bullet { position: at, velocity: v(0, 0), lifetime: Timer::new(1000000000, TimerMode::Once), look: Look::Shot }
}

fn frame(dt: u64, fire: bool) -> FrameInput {
    FrameInput { dt, turn_left: false, turn_right: false, fire, reset: false }
}

fn run_frame(w: &mut World, input: FrameInput) -> shooter_core::world::FrameEvents {
    w.begin_frame(input);
    let n = w.enemies.len();
    w.finish_frame(input, v(HEADING_UNIT, 0), &vec![v(HEADING_UNIT, 0); n], &vec![0; n])
}

#[test]
fn last_round_fires_once_then_nothing() {
    let mut w = World::new(3);
    let mut p = w.player.unwrap();
    p.ammunition = 1;
    w.player = Some(p);
    let ev = run_frame(&mut w, frame(60000000, true));
    assert!(ev.fired);
    assert_eq!(w.player.unwrap().ammunition, 0);
    let shots = w.bullets.len();
    assert!(shots <= 1);
    let ev = run_frame(&mut w, frame(16000000, true));
    assert!(!ev.fired);
    assert_eq!(w.player.unwrap().ammunition, 0);
    assert!(w.bullets.len() <= shots);
    let ev = run_frame(&mut w, frame(100000000, true));
    assert!(!ev.fired);
    assert_eq!(w.player.unwrap().ammunition, 0);
}

#[test]
fn gun_waits_for_cooldown() {
    let mut p = Player::new();
    assert!(!drive_player(&mut p, true, v(HEADING_UNIT, 0), 16000000));
    assert_eq!(p.ammunition, STARTING_AMMUNITION);
    assert!(!drive_player(&mut p, true, v(HEADING_UNIT, 0), 16000000));
    assert!(!drive_player(&mut p, true, v(HEADING_UNIT, 0), 16000000));
    assert!(drive_player(&mut p, true, v(HEADING_UNIT, 0), 16000000));
    assert_eq!(p.ammunition, STARTING_AMMUNITION - 1);
    assert!(!p.shoot_timer.finished());
}

#[test]
fn player_thrust_and_drag() {
    let mut p = Player::new();
    drive_player(&mut p, false, v(HEADING_UNIT, 0), 16000000);
    assert_eq!(p.velocity, v(4990, 0));
    p.velocity = v(100000, 0);
    drive_player(&mut p, false, v(HEADING_UNIT, 0), 16000000);
    assert_eq!(p.velocity, v(104790, 0));
    p.velocity = v(200000, 0);
    drive_player(&mut p, false, v(0, HEADING_UNIT), 16000000);
    let s = (p.velocity.x as f64).hypot(p.velocity.y as f64);
    assert!((s - 145000.0 * 0.998).abs() < 3.0);
    assert!(p.velocity.y > 0);
}

#[test]
fn passive_push_is_capped_after_it_is_applied() {
    let mut p = Player::new();
    p.velocity = v(143000, 0);
    drive_player(&mut p, false, v(HEADING_UNIT, 0), 16000000);
    assert_eq!(p.velocity, v(144710, 0));
}

#[test]
fn empty_burst_spawns_nothing() {
    let mut rng = StdRng::seed_from_u64(5);
    let mut bullets = vec![still_bullet(v(1, 1))];
    spawn_burst(&mut rng, &mut bullets, v(0, 0), v(HEADING_UNIT, 0), 0);
    assert_eq!(bullets.len(), 1);
}

#[test]
fn burst_fragments_use_the_jitter_formula() {
    let mut rng = StdRng::seed_from_u64(15);
    let mut bullets = Vec::new();
    spawn_burst(&mut rng, &mut bullets, v(0, 0), v(HEADING_UNIT, 0), 10);
    assert_eq!(bullets.len(), 10);
    for b in &bullets {
        let jx = (b.velocity.x + 70000) as f64;
        let jy = b.velocity.y as f64;
        let j = jx.hypot(jy);
        assert!(j >= 29998.0 && j < 30001.0);
    }
}

#[test]
fn shake_freezes_without_player() {
    let mut w = World::new(8);
    w.camera.shake = 5000;
    w.remove_player();
    let before = w.camera;
    w.camera_phase(16000000);
    assert_eq!(w.camera, before);
}

#[test]
fn touched_target_moves_into_ring() {
    let mut w = World::new(30);
    let mut p = w.player.unwrap();
    p.position = v(1000, 1000);
    w.player = Some(p);
    w.target = Some(v(1000, 1000));
    assert!(w.target_phase());
    let t = w.target.unwrap();
    let d = (t.x as f64).hypot(t.y as f64);
    assert!(d >= 49997.0 && d < 450001.0);
    assert_eq!(w.player.unwrap().score, 1);
}

#[test]
fn turning_left_and_right() {
    assert_eq!(rotation_step(7000000, 100000000), 700000);
    assert_eq!(turn_player(0, true, false, 100000000), 700000);
    assert_eq!(turn_player(0, false, true, 100000000), -700000);
    assert_eq!(turn_player(0, true, true, 100000000), 0);
    assert_eq!(turn_player(3000000, true, false, 100000000), 3700000 - 6283186);
}

#[test]
fn enemy_on_bullet_leaves_one_wreck() {
    let e = Enemy { position: v(12345, -6789), velocity: v(0, 0), angle: 0, heading: v(HEADING_UNIT, 0) };
    let (kept, wrecks) = resolve_collisions(&vec![e], &vec![still_bullet(v(12345, -6789))]);
    assert!(kept.is_empty());
    assert_eq!(wrecks.iter().map(|w| w.position).collect::<Vec<_>>(), vec![v(12345, -6789)]);
}

#[test]
fn enemy_hit_by_three_bullets_is_destroyed_once() {
    let e = Enemy { position: v(0, 0), velocity: v(0, 0), angle: 0, heading: v(HEADING_UNIT, 0) };
    let far = Enemy { position: v(100000, 0), velocity: v(0, 0), angle: 0, heading: v(HEADING_UNIT, 0) };
    let bullets = vec![still_bullet(v(0, 0)), still_bullet(v(1000, 0)), still_bullet(v(0, -5000))];
    let (kept, wrecks) = resolve_collisions(&vec![e, far], &bullets);
    assert_eq!(kept, vec![far]);
    assert_eq!(wrecks, vec![e]);
}

#[test]
fn contact_radius_includes_bullet_scale() {
    let e = Enemy { position: v(0, 0), velocity: v(0, 0), angle: 0, heading: v(HEADING_UNIT, 0) };
    let (_, near) = resolve_collisions(&vec![e], &vec![still_bullet(v(5731, 0))]);
    assert_eq!(near.len(), 1);
    let (_, away) = resolve_collisions(&vec![e], &vec![still_bullet(v(5732, 0))]);
    assert_eq!(away.len(), 0);
}

#[test]
fn world_destroys_enemy_and_drops_pickup() {
    let mut w = World::new(11);
    let at = v(50000, 40000);
    w.enemies.push(Enemy { position: at, velocity: v(0, 0), angle: 0, heading: v(HEADING_UNIT, 0) });
    w.bullets.push(still_bullet(at));
    w.bullets.push(still_bullet(v(50500, 40000)));
    let destroyed = w.combat_phase(16000000);
    assert_eq!(destroyed, 1);
    assert!(w.enemies.is_empty());
    assert_eq!(w.pickups.len(), 1);
    assert_eq!(w.pickups[0].position, at);
    assert_eq!(w.camera.shake, CAR_EXPLOSION_SHAKE_AMOUNT);
    assert!(w.bullets.len() <= 2 + BURST_FRAGMENTS as usize);
}

#[test]
fn burst_spawns_fragments_at_origin() {
    let mut rng = StdRng::seed_from_u64(5);
    let mut bullets = vec![still_bullet(v(1, 1))];
    spawn_burst(&mut rng, &mut bullets, v(700, -700), v(HEADING_UNIT, 0), BURST_FRAGMENTS);
    assert_eq!(bullets.len(), 1 + BURST_FRAGMENTS as usize);
    for b in &bullets[1..] {
        assert_eq!(b.position, v(700, -700));
        assert!(b.lifetime.duration >= FRAGMENT_MIN_LIFETIME && b.lifetime.duration < FRAGMENT_MAX_LIFETIME);
        assert!(!b.lifetime.finished());
        match b.look {
            Look::Fragment { radius, .. } => assert!(radius >= FRAGMENT_MIN_RADIUS && radius < FRAGMENT_MAX_RADIUS),
            Look::Shot => panic!("a fragment drawn as a shot"),
        }
    }
}

#[test]
fn burst_draws_vary() {
    let mut rng = StdRng::seed_from_u64(12);
    let mut bullets = Vec::new();
    spawn_burst(&mut rng, &mut bullets, v(0, 0), v(0, 0), BURST_FRAGMENTS);
    let lifetimes: std::collections::HashSet<u64> = bullets.iter().map(|b| b.lifetime.duration).collect();
    assert!(lifetimes.len() > 1);
    assert!(bullets.iter().any(|b| b.lifetime.duration != FRAGMENT_MIN_LIFETIME));
    let directions: std::collections::HashSet<(i64, i64)> = bullets.iter().map(|b| (b.velocity.x, b.velocity.y)).collect();
    assert!(directions.len() > 1);
    assert!(bullets.iter().any(|b| b.velocity.y != 0));
}

#[test]
fn fragment_colour_buckets() {
    let got: Vec<FragmentColor> = (0..6).map(fragment_color).collect();
    assert_eq!(
        got,
        vec![
            FragmentColor::Red,
            FragmentColor::Red,
            FragmentColor::Orange,
            FragmentColor::Yellow,
            FragmentColor::Yellow,
            FragmentColor::Smoke
        ]
    );
}

#[test]
fn removed_player_stops_player_systems() {
    let mut w = World::new(14);
    w.remove_player();
    let ev = run_frame(&mut w, frame(16000000, true));
    assert!(!ev.fired && !ev.spawned && ev.collected == 0 && !ev.target_touched);
    assert!(w.player.is_none());
}

#[test]
fn aimed_shot_goes_backwards_and_keeps_speed() {
    let r = aimed_bullet_velocity(v(HEADING_UNIT, 0), v(0, 30000), v(0, 0));
    assert_eq!(r, v(-70000, 30000));
    let r = aimed_bullet_velocity(v(HEADING_UNIT, 0), v(30000, 0), v(0, 100000));
    assert_eq!(r, v(-14855, 37139));
}

#[test]
fn fired_bullet_has_random_lifetime() {
    let mut rng = StdRng::seed_from_u64(9);
    let mut bullets = Vec::new();
    fire_bullet(&mut rng, &mut bullets, v(10, 20), v(HEADING_UNIT, 0), v(0, 0));
    assert_eq!(bullets.len(), 1);
    assert_eq!(bullets[0].position, v(10, 20));
    let d = bullets[0].lifetime.duration;
    assert!(d >= FRAGMENT_MIN_LIFETIME && d < FRAGMENT_MAX_LIFETIME);
    let s = (bullets[0].velocity.x as f64).hypot(bullets[0].velocity.y as f64);
    assert!(s >= 40000.0 - 3.0 && s <= 100000.0 + 3.0);
}

#[test]
fn bullets_expire_by_time_and_distance() {
    let short = Bullet { position: v(0, 0), velocity: v(0, 0), lifetime: Timer::new(10, TimerMode::Once), look: Look::Shot };
    let near = still_bullet(v(80000, 0));
    let far = still_bullet(v(80001, 0));
    let mut bs = vec![short, near, far];
    prune_bullets(&mut bs, Some(v(0, 0)), 20);
    assert_eq!(bs.len(), 1);
    assert_eq!(bs[0].position, v(80000, 0));
    assert_eq!(bs[0].lifetime.elapsed(), 20);
    let mut without_player = vec![far];
    prune_bullets(&mut without_player, None, 20);
    assert_eq!(without_player.len(), 1);
}

#[test]
fn pickup_in_reach_refills_ammo_and_hud() {
    let mut w = World::new(21);
    let mut p = w.player.unwrap();
    p.ammunition = 61;
    p.position = v(0, 0);
    w.player = Some(p);
    w.pickups.push(Pickup::new(v(3000, 0)));
    w.pickups.push(Pickup::new(v(30000, 0)));
    let collected = w.pickup_phase(16000000);
    assert_eq!(collected, 1);
    assert_eq!(w.pickups.len(), 1);
    assert_eq!(w.player.unwrap().ammunition, 61 + JERRY_CAN_FUEL_COUNT);
    w.hud_phase(16000000);
    assert_eq!(w.hud_icons.len(), 3);
    assert_eq!(hud_icon_count(121), 3);
}

#[test]
fn pickup_drifts_after_grace_period() {
    let mut pickups = vec![Pickup::new(v(100000, 0))];
    let mut ammo: u32 = 0;
    collect_pickups(&mut pickups, v(0, 0), &mut ammo, 500000000);
    assert_eq!(pickups[0].position, v(100000, 0));
    collect_pickups(&mut pickups, v(0, 0), &mut ammo, 500000000);
    assert_eq!(pickups[0].position, v(55000, 0));
    assert_eq!(ammo, 0);
}

#[test]
fn ammo_refill_saturates() {
    let mut pickups = vec![Pickup::new(v(0, 0))];
    let mut ammo: u32 = u32::MAX - 10;
    collect_pickups(&mut pickups, v(0, 0), &mut ammo, 1);
    assert!(pickups.is_empty());
    assert_eq!(ammo, u32::MAX);
}

#[test]
fn hud_icon_count_rounds_up() {
    assert_eq!(hud_icon_count(0), 0);
    assert_eq!(hud_icon_count(1), 1);
    assert_eq!(hud_icon_count(60), 1);
    assert_eq!(hud_icon_count(61), 2);
    assert_eq!(hud_icon_count(100), 2);
}

#[test]
fn hud_icons_reconcile_and_line_up() {
    let mut rng = StdRng::seed_from_u64(2);
    let mut icons: Vec<HudIcon> = Vec::new();
    reconcile_icons(&mut rng, &mut icons, 3);
    assert_eq!(icons.len(), 3);
    for i in &icons {
        assert_eq!(i.frame, 0);
        assert!(i.frame_timer.duration >= HUD_FRAME_MIN && i.frame_timer.duration < HUD_FRAME_MAX);
    }
    let first = icons[0];
    reconcile_icons(&mut rng, &mut icons, 1);
    assert_eq!(icons, vec![first]);
    let pos = hud_icon_positions(2, v(1000, 2000));
    assert_eq!(pos, vec![v(-149000, -78000), v(-140000, -78000)]);
}

#[test]
fn pickup_frames_wrap() {
    assert_eq!(advance_frame(0), 1);
    assert_eq!(advance_frame(7), 8);
    assert_eq!(advance_frame(8), 0);
}

#[test]
fn touching_target_scores_until_cap() {
    let mut rng = StdRng::seed_from_u64(40);
    let mut player = Some(Player::new());
    let mut target = Some(v(23999, 0));
    assert!(touch_target(&mut rng, &mut player, &mut target));
    let p = player.unwrap();
    assert_eq!(p.score, 1);
    assert_eq!(p.ammunition, STARTING_AMMUNITION + JERRY_CAN_FUEL_COUNT);
    assert_ne!(target, Some(v(23999, 0)));
    let mut far = Some(v(24000, 0));
    assert!(!touch_target(&mut rng, &mut player, &mut far));
    assert_eq!(far, Some(v(24000, 0)));
    assert_eq!(player.unwrap().score, 1);
    let mut q = player.unwrap();
    q.score = MAX_SCORE;
    let ammo = q.ammunition;
    player = Some(q);
    let mut here = Some(v(0, 0));
    assert!(touch_target(&mut rng, &mut player, &mut here));
    assert_eq!(player.unwrap().score, MAX_SCORE);
    assert_eq!(player.unwrap().ammunition, ammo);
}

#[test]
fn touch_needs_player_and_target() {
    let mut rng = StdRng::seed_from_u64(41);
    let mut none: Option<Player> = None;
    let mut target = Some(v(0, 0));
    assert!(!touch_target(&mut rng, &mut none, &mut target));
    assert_eq!(target, Some(v(0, 0)));
    let mut player = Some(Player::new());
    let mut no_target: Option<Vec2> = None;
    assert!(!touch_target(&mut rng, &mut player, &mut no_target));
    assert_eq!(player, Some(Player::new()));
}

#[test]
fn controller_turns_fires_and_spawns_one_shot() {
    let mut rng = StdRng::seed_from_u64(42);
    let mut p = Player::new();
    p.ammunition = 1;
    p.shoot_timer.elapsed = p.shoot_timer.duration;
    let mut player = Some(p);
    let mut bullets = Vec::new();
    let fired = control_player(&mut rng, &mut player, &mut bullets, true, false, true, v(HEADING_UNIT, 0), 16666667);
    assert!(fired);
    assert_eq!(bullets.len(), 1);
    assert_eq!(bullets[0].position, p.position);
    let q = player.unwrap();
    assert_eq!(q.ammunition, 0);
    assert_eq!(q.shoot_timer.elapsed(), 0);
    assert_eq!(q.angle, turn_player(0, true, false, 16666667));
    let again = control_player(&mut rng, &mut player, &mut bullets, true, true, true, v(HEADING_UNIT, 0), 16666667);
    assert!(!again);
    assert_eq!(bullets.len(), 1);
    assert_eq!(player.unwrap().angle, q.angle);
    let mut nobody: Option<Player> = None;
    assert!(!control_player(&mut rng, &mut nobody, &mut bullets, true, false, true, v(HEADING_UNIT, 0), 1));
    assert_eq!(bullets.len(), 1);
}

#[test]
fn long_frames_are_accepted() {
    assert_eq!(turn_player(0, true, false, 10_000_000_000), shooter_core::angle::fix_angle(70_000_000, 0));
    let p = shooter_core::kinematics::advance(v(0, 0), v(1000, -1000), 5_000_000_000);
    assert_eq!(p, v(5000, -5000));
    let mut w = World::new(3);
    let ev = run_frame(&mut w, frame(4_000_000_000, false));
    assert!(ev.spawned);
}

#[test]
fn target_lands_in_ring() {
    let mut rng = StdRng::seed_from_u64(4);
    for _ in 0..30 {
        let t = random_target_location(&mut rng);
        let d = (t.x as f64).hypot(t.y as f64);
        assert!(d >= 49997.0 && d < 450001.0);
    }
}

#[test]
fn arrow_points_at_target() {
    assert_eq!(arrow_position(v(1000, 1000), v(101000, 1000)), v(21000, 1000));
    assert_eq!(arrow_position(v(0, 0), v(0, -5000000000)), v(0, -20000));
    assert_eq!(arrow_position(v(5, 5), v(5, 5)), v(5, 5));
}

#[test]
fn stars_line_up() {
    let s = star_positions(2, v(0, 0));
    assert_eq!(s, vec![v(-152000, 80000), v(-143000, 80000)]);
    assert!(star_positions(0, v(0, 0)).is_empty());
}

#[test]
fn shake_in_world_settles_to_zero() {
    let mut w = World::new(8);
    w.camera.shake = 5000;
    let mut frames = 0;
    while w.camera.shake != 0 {
        w.camera_phase(16000000);
        frames += 1;
        assert!(frames < 100);
    }
    w.camera_phase(16000000);
    assert_eq!(w.camera.shake, 0);
}

#[test]
fn reset_clears_transient_entities() {
    let mut w = World::new(1);
    w.enemies.push(Enemy { position: v(0, 0), velocity: v(0, 0), angle: 0, heading: v(HEADING_UNIT, 0) });
    w.bullets.push(still_bullet(v(0, 0)));
    w.pickups.push(Pickup::new(v(0, 0)));
    w.player = None;
    let input = FrameInput { dt: 16000000, turn_left: false, turn_right: false, fire: false, reset: true };
    w.begin_frame(input);
    assert!(w.enemies.is_empty() && w.bullets.is_empty() && w.pickups.is_empty());
    assert_eq!(w.player.unwrap().ammunition, STARTING_AMMUNITION);
}

#[test]
fn spawner_brings_enemy_offscreen() {
    let mut w = World::new(6);
    let mut spawned = false;
    for _ in 0..4 {
        let ev = run_frame(&mut w, frame(1000000000, false));
        spawned |= ev.spawned;
    }
    assert!(spawned);
    assert_eq!(w.enemies.len(), 1);
}
