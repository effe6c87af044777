//! The in-game camera: following the player with lookahead, screen shake, and the
//! wrapping background grid.
use crate::kinematics::{
    bounded, lerp, scale, translate, vlerp, vscale, vtranslate, Vec2,
    NANOS_PER_SECOND, SPEED_LIMIT, WORLD_LIMIT,
};
use crate::random::{random_direction, DIRECTION_SPREAD};
use crate::tuning::{
    CAMERA_FOLLOW_PERCENT_PER_SECOND, CAMERA_LOOKAHEAD_DISTANCE, DOT_DISTANCE, MAX_SPEED,
    SCREEN_SHAKE_FADE_PERCENT, SCREEN_SHAKE_MIN, VIEW_HEIGHT, VIEW_WIDTH,
};
use crate::player::{player_wf, Player};
use rand::rngs::StdRng;
use vstd::arithmetic::power::pow;
use vstd::prelude::*;

verus! {

#[derive(Clone, Copy, Debug, PartialEq, Eq, Structural)]
pub struct CameraState {
    pub position: Vec2,
    /// Current screen-shake magnitude, in sub-pixels; zero when no shake is active.
    pub shake: u64,
}

pub open spec fn camera_wf(c: CameraState) -> bool {
    bounded(c.position, WORLD_LIMIT as int) && c.shake <= DIRECTION_SPREAD
}

impl CameraState {
    pub fn new() -> (r: CameraState)
        ensures
            r.position == (Vec2 { x: 0, y: 0 }),
            r.shake == 0,
            camera_wf(r),
    {
        CameraState { position: Vec2 { x: 0, y: 0 }, shake: 0 }
    }
}

/// The whole-number zoom at which the virtual canvas fits a window of
/// `width` by `height` pixels: the smaller of the two axis ratios, rounded down.
pub open spec fn zoom_for(width: u32, height: u32) -> int {
    let h = width as int / (VIEW_WIDTH / 1000);
    let v = height as int / (VIEW_HEIGHT / 1000);
    if h < v {
        h
    } else {
        v
    }
}

/// The zoom for a resized window (the outer camera's scale is its reciprocal).
pub fn canvas_zoom(width: u32, height: u32) -> (r: u32)
    ensures
        r == zoom_for(width, height),
{
    let h = width / ((VIEW_WIDTH / 1000) as u32);
    let v = height / ((VIEW_HEIGHT / 1000) as u32);
    if h < v {
        h
    } else {
        v
    }
}

/// The shake magnitude one frame later: a magnitude below `SCREEN_SHAKE_MIN` stops,
/// any other keeps `SCREEN_SHAKE_FADE_PERCENT` percent.
pub open spec fn decayed(m: u64) -> u64 {
    if m < SCREEN_SHAKE_MIN {
        0
    } else {
        (m as int * SCREEN_SHAKE_FADE_PERCENT / 100) as u64
    }
}

/// The shake magnitude after `n` frames.
pub open spec fn shake_after(m: u64, n: nat) -> u64
    decreases n,
{
    if n == 0 {
        m
    } else {
        decayed(shake_after(m, (n - 1) as nat))
    }
}

/// The shake magnitude one frame later.
pub fn decay_shake(m: u64) -> (r: u64)
    ensures
        r == decayed(m),
        r <= m,
{
    if m < SCREEN_SHAKE_MIN {
        0
    } else {
        m / 100 * SCREEN_SHAKE_FADE_PERCENT + m % 100 * SCREEN_SHAKE_FADE_PERCENT / 100
    }
}

/// A shake of any magnitude `m` settles at exactly zero, not at an ever smaller value:
/// after at most `m` frames it is zero, and zero stays zero.
pub proof fn lemma_shake_settles(m: u64, n: nat)
    ensures
        n >= m ==> shake_after(m, n) == 0,
        shake_after(0, n) == 0,
        shake_after(m, n) <= m,
    decreases n,
{
    if n > 0 {
        lemma_shake_settles(m, (n - 1) as nat);
        let prev = shake_after(m, (n - 1) as nat);
        if prev > 0 {
            assert(decayed(prev) < prev);
        }
        lemma_decay_steps(m, n);
    }
}

/// A shake decays at least geometrically: after `n` frames it is at most
/// `m * (9/10)^n`, so it reaches zero within a number of frames logarithmic in `m`.
pub proof fn lemma_shake_geometric(m: u64, n: nat)
    ensures
        shake_after(m, n) * pow(10, n) <= m * pow(9, n),
    decreases n,
{
    reveal(pow);
    if n == 0 {
        assert(pow(10, 0) == 1 && pow(9, 0) == 1);
    } else {
        let k = (n - 1) as nat;
        lemma_shake_geometric(m, k);
        let c = shake_after(m, k) as int;
        let c2 = shake_after(m, n) as int;
        assert(10 * c2 <= 9 * c);
        let p10 = pow(10, k);
        let p9 = pow(9, k);
        assert(pow(10, n) == 10 * p10);
        assert(pow(9, n) == 9 * p9);
        vstd::arithmetic::power::lemma_pow_positive(10, k);
        assert(c2 * (10 * p10) <= m * (9 * p9)) by (nonlinear_arith)
            requires
                10 * c2 <= 9 * c,
                c * p10 <= m * p9,
                p10 > 0,
                c2 >= 0,
        ;
    }
}

/// Every frame of a nonzero shake lowers it by at least one, so it is at most `m - n`.
proof fn lemma_decay_steps(m: u64, n: nat)
    ensures
        shake_after(m, n) == 0 || shake_after(m, n) + n <= m,
    decreases n,
{
    if n > 0 {
        lemma_decay_steps(m, (n - 1) as nat);
    }
}

/// The point the camera heads for: the player's position plus a lookahead of
/// `CAMERA_LOOKAHEAD_DISTANCE` scaled by the player's speed fraction.
pub open spec fn follow_target(player: Vec2, velocity: Vec2) -> Vec2 {
    vtranslate(player, vscale(velocity, CAMERA_LOOKAHEAD_DISTANCE as int, MAX_SPEED as int))
}

/// The part of the way to its target, out of `100 * NANOS_PER_SECOND`, that the camera
/// covers in a frame of `dt`: `CAMERA_FOLLOW_PERCENT_PER_SECOND` percent per second, and
/// at most the whole way on a very long frame.
pub open spec fn follow_fraction(dt: u64) -> int {
    if CAMERA_FOLLOW_PERCENT_PER_SECOND * dt > 100 * NANOS_PER_SECOND {
        100 * NANOS_PER_SECOND
    } else {
        CAMERA_FOLLOW_PERCENT_PER_SECOND * dt
    }
}

/// The camera position after following for `dt` (see `follow_fraction`).
pub open spec fn followed(camera: Vec2, player: Vec2, velocity: Vec2, dt: u64) -> Vec2 {
    vlerp(camera, follow_target(player, velocity), follow_fraction(dt), 100 * NANOS_PER_SECOND as int)
}

/// The camera position moved towards the player with lookahead.
fn chase(camera: Vec2, player: Vec2, velocity: Vec2, dt: u64) -> (r: Vec2)
    requires
        bounded(camera, WORLD_LIMIT as int),
        bounded(velocity, SPEED_LIMIT as int),
    ensures
        r == followed(camera, player, velocity, dt),
        bounded(r, WORLD_LIMIT as int),
{
    let target = translate(player, scale(velocity, CAMERA_LOOKAHEAD_DISTANCE, MAX_SPEED));
    let whole: u128 = 100 * (NANOS_PER_SECOND as u128);
    assert(95 * dt <= 95 * 18446744073709551615) by (nonlinear_arith)
        requires
            dt <= 18446744073709551615,
    ;
    let wide: u128 = (CAMERA_FOLLOW_PERCENT_PER_SECOND as u128) * (dt as u128);
    let num: i64 = if wide > whole { whole as i64 } else { wide as i64 };
    lerp(camera, target, num, 100 * (NANOS_PER_SECOND as i64))
}

/// One frame of camera feedback. With a player, the camera moves towards it with
/// lookahead, is offset by the shake magnitude in a random direction (a magnitude of one
/// sub-pixel moves nothing), and the shake decays: below `SCREEN_SHAKE_MIN` it snaps to
/// zero, otherwise it keeps `SCREEN_SHAKE_FADE_PERCENT` percent. Without a player the
/// camera stays exactly as it is.
pub fn follow_player(rng: &mut StdRng, camera: &mut CameraState, player: Option<Player>, dt: u64)
    requires
        camera_wf(*old(camera)),
        player matches Some(p) ==> player_wf(p),
    ensures
        camera_wf(*final(camera)),
        player is None ==> *final(camera) == *old(camera),
        player matches Some(p) ==> ({
            let f = followed(old(camera).position, p.position, p.velocity, dt);
            let m = old(camera).shake;
            &&& final(camera).shake == decayed(m)
            &&& m < 2 ==> final(camera).position == f
            &&& m >= 2 ==> exists|d: Vec2|
                shake_offset(d, m) && final(camera).position == #[trigger] vtranslate(f, d)
        }),
{
    match player {
        Some(p) => {
            camera.position = chase(camera.position, p.position, p.velocity, dt);
            apply_shake(rng, camera);
        },
        None => {},
    }
}

/// An offset of length `m` up to rounding, as a shake of magnitude `m` applies.
pub open spec fn shake_offset(d: Vec2, m: u64) -> bool {
    &&& bounded(d, m as int)
    &&& (m - 2) * (m - 2) <= crate::kinematics::norm2(d.x as int, d.y as int)
    &&& crate::kinematics::norm2(d.x as int, d.y as int) < (m + 1) * (m + 1)
}

/// Applies one frame of screen shake: while the magnitude is nonzero the camera is
/// offset by it in a random direction (a magnitude of one sub-pixel moves nothing), and
/// the magnitude decays.
pub fn apply_shake(rng: &mut StdRng, camera: &mut CameraState)
    requires
        camera_wf(*old(camera)),
    ensures
        final(camera).shake == decayed(old(camera).shake),
        old(camera).shake < 2 ==> final(camera).position == old(camera).position,
        old(camera).shake >= 2 ==> exists|d: Vec2|
            #![trigger vtranslate(old(camera).position, d)]
            shake_offset(d, old(camera).shake) && final(camera).position == vtranslate(old(camera).position, d),
        camera_wf(*final(camera)),
{
    let m = camera.shake;
    if m >= 2 {
        let d = random_direction(rng, m as i64);
        camera.position = translate(camera.position, d);
    }
    camera.shake = decay_shake(m);
}

/// Starts a shake of magnitude `amount`, replacing any shake in progress.
pub fn start_shake(camera: &mut CameraState, amount: u64)
    requires
        amount <= DIRECTION_SPREAD,
    ensures
        *final(camera) == (CameraState { shake: amount, ..*old(camera) }),
{
    camera.shake = amount;
}

/// A background marker's coordinate wrapped by whole `extent`s to within half an
/// extent of the camera's: one too far ahead ends in `(-half, half]`, one too far behind
/// in `[-half, half)`, one already near stays.
pub open spec fn wrapped(v: int, cam: int, extent: int) -> int {
    let half = extent / 2;
    if v - cam > half {
        cam + half - ((cam + half - v) % extent)
    } else if v - cam < -half {
        cam - half + ((v - (cam - half)) % extent)
    } else {
        v
    }
}

/// Wraps one coordinate of a background marker around the camera.
pub fn wrap_axis(v: i64, cam: i64, extent: i64) -> (r: i64)
    requires
        -2 * WORLD_LIMIT <= v <= 2 * WORLD_LIMIT,
        -WORLD_LIMIT <= cam <= WORLD_LIMIT,
        2 <= extent <= WORLD_LIMIT,
        extent % 2 == 0,
    ensures
        r == wrapped(v as int, cam as int, extent as int),
        -(extent / 2) <= r - cam <= extent / 2,
{
    let half = extent / 2;
    let mut t = v;
    let ghost mut k: int = 0;
    while t - cam > half
        invariant
            -WORLD_LIMIT <= cam <= WORLD_LIMIT,
            half == extent / 2,
            2 <= extent <= WORLD_LIMIT,
            extent % 2 == 0,
            -3 * WORLD_LIMIT <= t <= 2 * WORLD_LIMIT,
            t == v - k * extent,
            k >= 0,
            k > 0 ==> t - cam > half - extent,
            v - cam > half || k == 0,
            k == 0 ==> t == v,
        decreases t - cam + half,
    {
        t = t - extent;
        proof {
            k = k + 1;
            assert(t == v - k * extent) by (nonlinear_arith)
                requires
                    t == v - (k - 1) * extent - extent,
            ;
        }
    }
    while t - cam < -half
        invariant
            -WORLD_LIMIT <= cam <= WORLD_LIMIT,
            half == extent / 2,
            2 <= extent <= WORLD_LIMIT,
            extent % 2 == 0,
            -3 * WORLD_LIMIT <= t <= 3 * WORLD_LIMIT,
            t == v - k * extent,
            t - cam <= half,
            k <= 0 || t - cam > -half,
            k < 0 ==> v - cam < -half && t - cam < half,
            -half <= v - cam <= half ==> k == 0,
            v - cam > half ==> k > 0,
        decreases cam - t + half,
    {
        t = t + extent;
        proof {
            k = k - 1;
            assert(t == v - k * extent) by (nonlinear_arith)
                requires
                    t == v - (k + 1) * extent + extent,
            ;
        }
    }
    proof {
        lemma_wrapped_unique(v as int, cam as int, extent as int, t as int, k);
    }
    t
}

proof fn lemma_wrapped_unique(v: int, cam: int, extent: int, t: int, k: int)
    requires
        extent >= 2,
        extent % 2 == 0,
        t == v - k * extent,
        -(extent / 2) <= t - cam <= extent / 2,
        v - cam > extent / 2 ==> t - cam > -(extent / 2),
        v - cam < -(extent / 2) ==> t - cam < extent / 2,
        -(extent / 2) <= v - cam <= extent / 2 ==> k == 0,
    ensures
        t == wrapped(v, cam, extent),
{
    let half = extent / 2;
    if v - cam > half {
        let e = cam + half - v;
        vstd::arithmetic::div_mod::lemma_fundamental_div_mod(e, extent);
        vstd::arithmetic::div_mod::lemma_mod_bound(e, extent);
        let w = cam + half - (e % extent);
        let q = e / extent;
        assert(w == v + q * extent) by (nonlinear_arith)
            requires
                e == extent * q + e % extent,
                w == cam + half - (e % extent),
                e == cam + half - v,
        ;
        assert(t - w == (-k - q) * extent) by (nonlinear_arith)
            requires
                t == v - k * extent,
                w == v + q * extent,
        ;
        lemma_multiple_in_window(t - w, -k - q, extent);
    } else if v - cam < -half {
        let e = v - (cam - half);
        vstd::arithmetic::div_mod::lemma_fundamental_div_mod(e, extent);
        vstd::arithmetic::div_mod::lemma_mod_bound(e, extent);
        let w = cam - half + (e % extent);
        let q = e / extent;
        assert(w == v - q * extent) by (nonlinear_arith)
            requires
                e == extent * q + e % extent,
                w == cam - half + (e % extent),
                e == v - (cam - half),
        ;
        assert(t - w == (q - k) * extent) by (nonlinear_arith)
            requires
                t == v - k * extent,
                w == v - q * extent,
        ;
        lemma_multiple_in_window(t - w, q - k, extent);
    }
}

proof fn lemma_multiple_in_window(d: int, j: int, extent: int)
    requires
        extent > 0,
        d == j * extent,
        -extent < d < extent,
    ensures
        d == 0,
{
    if j >= 1 {
        assert(j * extent >= extent) by (nonlinear_arith)
            requires
                j >= 1,
                extent > 0,
        ;
    } else if j <= -1 {
        assert(j * extent <= -extent) by (nonlinear_arith)
            requires
                j <= -1,
                extent > 0,
        ;
    }
}

/// A background marker wrapped around the camera on both axes.
pub open spec fn dot_wrapped(dot: Vec2, camera: Vec2) -> Vec2 {
    Vec2 {
        x: wrapped(dot.x as int, camera.x as int, VIEW_WIDTH as int) as i64,
        y: wrapped(dot.y as int, camera.y as int, VIEW_HEIGHT as int) as i64,
    }
}

/// Wraps a background marker around the camera on both axes, by whole view widths and heights.
pub fn wrap_dot(dot: Vec2, camera: Vec2) -> (r: Vec2)
    requires
        bounded(dot, 2 * WORLD_LIMIT),
        bounded(camera, WORLD_LIMIT as int),
    ensures
        r == dot_wrapped(dot, camera),
        r.x == wrapped(dot.x as int, camera.x as int, VIEW_WIDTH as int),
        r.y == wrapped(dot.y as int, camera.y as int, VIEW_HEIGHT as int),
        bounded(r, WORLD_LIMIT as int + VIEW_WIDTH),
{
    Vec2 { x: wrap_axis(dot.x, camera.x, VIEW_WIDTH), y: wrap_axis(dot.y, camera.y, VIEW_HEIGHT) }
}

/// The background grid: one marker every `DOT_DISTANCE` across the view, row by row
/// along x then y, offset by two pixels on x and one on y.
pub open spec fn dot_at(i: int, j: int) -> Vec2 {
    Vec2 {
        x: (i * DOT_DISTANCE - VIEW_WIDTH / 2 + 2000) as i64,
        y: (j * DOT_DISTANCE - VIEW_HEIGHT / 2 + 1000) as i64,
    }
}

pub open spec fn dot_columns() -> int {
    VIEW_WIDTH / DOT_DISTANCE
}

pub open spec fn dot_rows() -> int {
    VIEW_HEIGHT / DOT_DISTANCE
}

/// The initial background grid, column by column: marker `n` is in column
/// `n / dot_rows()` and row `n % dot_rows()`.
pub fn background_dots() -> (r: Vec<Vec2>)
    ensures
        r@.len() == dot_columns() * dot_rows(),
        forall|n: int| 0 <= n < r@.len() ==> #[trigger] r@[n] == dot_at(n / dot_rows(), n % dot_rows()),
{
    let cols: i64 = VIEW_WIDTH / DOT_DISTANCE;
    let rows: i64 = VIEW_HEIGHT / DOT_DISTANCE;
    let mut r: Vec<Vec2> = Vec::new();
    let mut i: i64 = 0;
    while i < cols
        invariant
            cols == dot_columns(),
            rows == dot_rows(),
            0 <= i <= cols,
            r@.len() == i * rows,
            forall|n: int| 0 <= n < r@.len() ==> #[trigger] r@[n] == dot_at(n / rows as int, n % rows as int),
        decreases cols - i,
    {
        let mut j: i64 = 0;
        while j < rows
            invariant
                cols == dot_columns(),
                rows == dot_rows(),
                0 <= i < cols,
                0 <= j <= rows,
                r@.len() == i * rows + j,
                forall|n: int| 0 <= n < r@.len() ==> #[trigger] r@[n] == dot_at(n / rows as int, n % rows as int),
            decreases rows - j,
        {
            proof {
                vstd::arithmetic::div_mod::lemma_fundamental_div_mod_converse(
                    i * rows + j,
                    rows as int,
                    i as int,
                    j as int,
                );
            }
            r.push(Vec2 { x: i * DOT_DISTANCE - VIEW_WIDTH / 2 + 2000, y: j * DOT_DISTANCE - VIEW_HEIGHT / 2 + 1000 });
            j = j + 1;
        }
        assert((i + 1) * rows == i * rows + rows) by (nonlinear_arith);
        i = i + 1;
    }
    r
}

} // verus!
