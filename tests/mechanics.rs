use rand::rngs::StdRng;
use rand::SeedableRng;
use shooter_core::angle::{fix_angle, FULL_TURN, HALF_TURN};
use shooter_core::camera::{background_dots, decay_shake, wrap_axis, CameraState};
use shooter_core::enemies::{next_spawn_interval, steer_enemy, Enemy, EnemySpawner};
use shooter_core::kinematics::{
    advance, cap_speed, distance_squared, isqrt, length, lerp, plus, scale, with_length, Vec2,
};
use shooter_core::random::random_direction;
use shooter_core::timer::{Timer, TimerMode};
use shooter_core::tuning::{
    ENEMY_ACCELERATION, HEADING_UNIT, MAX_SPEED, SCREEN_SHAKE_MIN, SPAWN_INITIAL_DURATION,
    SPAWN_RESET_DURATION, VIEW_WIDTH,
};

fn v(x: i64, y: i64) -> Vec2 {
    Vec2 { x, y }
}

fn norm2(a: Vec2) -> i128 {
    (a.x as i128) * (a.x as i128) + (a.y as i128) * (a.y as i128)
}

#[test]
fn isqrt_exact_values() {
    assert_eq!(isqrt(0), 0);
    assert_eq!(isqrt(1), 1);
    assert_eq!(isqrt(3), 1);
    assert_eq!(isqrt(4), 2);
    assert_eq!(isqrt(15), 3);
    assert_eq!(isqrt(16), 4);
    assert_eq!(isqrt(17), 4);
    assert_eq!(isqrt(u64::MAX), 4294967295);
}

#[test]
fn length_of_three_four_five() {
    assert_eq!(length(v(3000, -4000)), 5000);
    assert_eq!(length(v(0, 0)), 0);
}

#[test]
fn cap_speed_holds_magnitude_and_direction() {
    let before = v(300000, -400000);
    let after = cap_speed(before, MAX_SPEED);
    let m = MAX_SPEED as i128;
    assert!(norm2(after) < (m + 1) * (m + 1));
    assert!(norm2(after) >= (m - 2) * (m - 2));
    assert!(after.x > 0 && after.y < 0);
    let cross = (before.x as i128) * (after.y as i128) - (before.y as i128) * (after.x as i128);
    assert!(cross.abs() <= 700000);
    assert_eq!(after, v(87000, -116000));
}

#[test]
fn cap_speed_keeps_slow_velocity() {
    assert_eq!(cap_speed(v(1000, 2000), MAX_SPEED), v(1000, 2000));
}

#[test]
fn with_length_of_zero_vector_is_zero() {
    assert_eq!(with_length(v(0, 0), 5000), v(0, 0));
    assert_eq!(with_length(v(0, -7), 5000), v(0, -5000));
}

#[test]
fn advance_integrates_half_second() {
    let p = advance(v(100, 100), v(1000, -2000), 500000000);
    assert_eq!(p, v(600, -900));
}

#[test]
fn advance_truncates_towards_zero() {
    assert_eq!(advance(v(0, 0), v(-3, 3), 500000000), v(-1, 1));
}

#[test]
fn plus_and_scale_saturate() {
    assert_eq!(plus(v(1, 2), v(3, -4)), v(4, -2));
    assert_eq!(plus(v(2147483000, 0), v(2147483000, 0)).x, 2147483648);
    assert_eq!(scale(v(HEADING_UNIT, 0), ENEMY_ACCELERATION, HEADING_UNIT), v(8000, 0));
    assert_eq!(scale(v(-7, 7), 1, 2), v(-3, 3));
}

#[test]
fn distance_and_lerp() {
    assert_eq!(distance_squared(v(0, 0), v(3000, 4000)), 25000000);
    assert_eq!(lerp(v(0, 0), v(1000, -1000), 45, 100), v(450, -450));
}

#[test]
fn fix_angle_wraps_by_whole_turns() {
    assert_eq!(fix_angle(FULL_TURN + 5, 0), 5);
    assert_eq!(fix_angle(-3 * FULL_TURN - 5, 0), -5);
    assert_eq!(fix_angle(HALF_TURN, 0), HALF_TURN);
    assert_eq!(fix_angle(-HALF_TURN, 0), HALF_TURN);
    assert_eq!(fix_angle(0, 3 * FULL_TURN), 3 * FULL_TURN);
}

#[test]
fn fix_angle_is_idempotent_and_in_window() {
    for &(a, r) in &[(123456789i64, 1000i64), (-98765432, -4000000), (HALF_TURN, -HALF_TURN), (7, 7)] {
        let once = fix_angle(a, r);
        assert_eq!(fix_angle(once, r), once);
        assert!(r - HALF_TURN < once && once <= r + HALF_TURN);
        assert_eq!((once - a).rem_euclid(FULL_TURN), 0);
    }
}

#[test]
fn once_timer_just_finishes_on_one_tick() {
    let mut t = Timer::new(100, TimerMode::Once);
    let mut just = Vec::new();
    let mut done = Vec::new();
    for _ in 0..5 {
        t.tick(40);
        just.push(t.just_finished());
        done.push(t.finished());
    }
    assert_eq!(just, vec![false, false, true, false, false]);
    assert_eq!(done, vec![false, false, true, true, true]);
    assert_eq!(t.elapsed(), 100);
    t.reset();
    assert!(!t.finished());
    assert_eq!(t.elapsed(), 0);
}

#[test]
fn once_timer_of_zero_finishes_on_first_tick() {
    let mut t = Timer::new(0, TimerMode::Once);
    t.tick(0);
    assert!(t.just_finished());
    t.tick(0);
    assert!(!t.just_finished());
    assert!(t.finished());
}

#[test]
fn repeating_timer_counts_wraps() {
    let mut t = Timer::new(100, TimerMode::Repeating);
    t.tick(250);
    assert_eq!(t.times_finished_this_tick, 2);
    assert_eq!(t.elapsed(), 50);
    assert!(t.just_finished());
    t.tick(10);
    assert!(!t.just_finished());
    assert!(!t.finished());
}

#[test]
fn spawn_interval_decays_then_resets() {
    assert_eq!(next_spawn_interval(3000000000), 2700000000);
    assert_eq!(next_spawn_interval(550000000), SPAWN_RESET_DURATION);
    assert_eq!(next_spawn_interval(560000000), 504000000);
}

#[test]
fn spawner_cadence_over_triggers() {
    let mut s = EnemySpawner::new();
    let mut expected = SPAWN_INITIAL_DURATION as f64;
    let mut spawns = 0;
    for n in 1..=17 {
        let d = s.timer.duration();
        assert!(!s.tick(d - 1));
        assert!(s.tick(1));
        spawns += 1;
        expected *= 0.9;
        let got = s.timer.duration() as f64;
        assert!(got <= expected + 1.0 && got > expected - 10.0, "after {} spawns: {} vs {}", n, got, expected);
    }
    assert_eq!(spawns, 17);
    let d = s.timer.duration();
    assert!(s.tick(d));
    assert_eq!(s.timer.duration(), SPAWN_RESET_DURATION);
}

#[test]
fn enemy_turns_towards_bearing_and_accelerates() {
    let mut e = Enemy { position: v(0, 0), velocity: v(0, 0), angle: 0, heading: v(HEADING_UNIT, 0) };
    steer_enemy(&mut e, 1000000, v(HEADING_UNIT, 0), 100000000);
    assert_eq!(e.angle, 400000);
    assert_eq!(e.velocity, v(ENEMY_ACCELERATION, 0));
    let mut f = Enemy { position: v(0, 0), velocity: v(0, 0), angle: 0, heading: v(HEADING_UNIT, 0) };
    steer_enemy(&mut f, -1000000, v(HEADING_UNIT, 0), 100000000);
    assert_eq!(f.angle, -400000);
    let mut g = Enemy { position: v(0, 0), velocity: v(0, 0), angle: 0, heading: v(HEADING_UNIT, 0) };
    steer_enemy(&mut g, FULL_TURN, v(HEADING_UNIT, 0), 100000000);
    assert_eq!(g.angle, 0);
}

#[test]
fn enemy_speed_is_capped() {
    let mut e = Enemy { position: v(0, 0), velocity: v(150000, 0), angle: 0, heading: v(HEADING_UNIT, 0) };
    steer_enemy(&mut e, 0, v(HEADING_UNIT, 0), 16000000);
    assert_eq!(e.velocity, v(150000, 0));
}

#[test]
fn shake_snaps_to_zero() {
    let mut m: u64 = 5000;
    let mut frames = 0;
    while m != 0 {
        let next = decay_shake(m);
        if m < SCREEN_SHAKE_MIN {
            assert_eq!(next, 0);
        } else {
            assert_eq!(next, m * 9 / 10);
        }
        m = next;
        frames += 1;
        assert!(frames <= 5000);
    }
    assert_eq!(m, 0);
    assert_eq!(decay_shake(0), 0);
    assert_eq!(decay_shake(99), 0);
    assert_eq!(decay_shake(100), 90);
}

#[test]
fn background_wraps_around_camera() {
    assert_eq!(wrap_axis(170000, 0, VIEW_WIDTH), -150000);
    assert_eq!(wrap_axis(-170000, 0, VIEW_WIDTH), 150000);
    assert_eq!(wrap_axis(1000000, 0, VIEW_WIDTH), 40000);
    assert_eq!(wrap_axis(160000, 0, VIEW_WIDTH), 160000);
    assert_eq!(wrap_axis(-160000, 0, VIEW_WIDTH), -160000);
    let dots = background_dots();
    assert_eq!(dots.len(), 32 * 18);
    assert_eq!(dots[0], v(-158000, -89000));
    assert_eq!(dots[19], v(-148000, -79000));
}

#[test]
fn random_direction_has_requested_length() {
    let mut rng = StdRng::seed_from_u64(7);
    for _ in 0..50 {
        let d = random_direction(&mut rng, 30000);
        assert!(norm2(d) >= 29998i128 * 29998 && norm2(d) < 30001i128 * 30001);
    }
}

#[test]
fn camera_starts_still() {
    let c = CameraState::new();
    assert_eq!(c.position, v(0, 0));
    assert_eq!(c.shake, 0);
}
