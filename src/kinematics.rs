//! Fixed-point 2D vectors and the motion rules shared by every moving entity.
//!
//! Positions are measured in sub-pixel units (`UNITS_PER_PIXEL` to a pixel),
//! velocities in sub-pixel units per second and time in nanoseconds.
use vstd::arithmetic::div_mod::{lemma_fundamental_div_mod, lemma_mod_pos_bound};
use vstd::prelude::*;

verus! {

/// Sub-pixel units in one pixel.
pub const UNITS_PER_PIXEL: i64 = 1000;

/// Nanoseconds in one second.
pub const NANOS_PER_SECOND: u64 = 1000000000;

/// Every position component lies within plus or minus this bound (the world's edge).
pub const WORLD_LIMIT: i64 = 1099511627776;

/// Every velocity component lies within plus or minus this bound.
pub const SPEED_LIMIT: i64 = 2147483648;

/// A 2D vector of fixed-point components.
#[derive(Clone, Copy, Debug, PartialEq, Eq, Structural)]
pub struct Vec2 {
    pub x: i64,
    pub y: i64,
}

/// Rust's truncating division, for a positive divisor.
pub open spec fn tdiv(a: int, b: int) -> int {
    if a >= 0 {
        a / b
    } else {
        -((-a) / b)
    }
}

pub open spec fn clamp_int(v: int, lo: int, hi: int) -> int {
    if v < lo {
        lo
    } else if v > hi {
        hi
    } else {
        v
    }
}

pub open spec fn abs_int(v: int) -> int {
    if v < 0 {
        -v
    } else {
        v
    }
}

/// Squared Euclidean length.
pub open spec fn norm2(x: int, y: int) -> int {
    x * x + y * y
}

pub open spec fn bounded(v: Vec2, lim: int) -> bool {
    -lim <= v.x <= lim && -lim <= v.y <= lim
}

/// The floor of the square root of `n`.
pub open spec fn root(n: int) -> int
    decreases n,
{
    if n <= 0 {
        0
    } else {
        let r = root(n - 1);
        if (r + 1) * (r + 1) <= n {
            r + 1
        } else {
            r
        }
    }
}

/// The Euclidean length of `v`, rounded down.
pub open spec fn length_of(v: Vec2) -> int {
    root(norm2(v.x as int, v.y as int))
}

pub proof fn lemma_root(n: int)
    requires
        n >= 0,
    ensures
        0 <= root(n),
        root(n) * root(n) <= n < (root(n) + 1) * (root(n) + 1),
    decreases n,
{
    if n > 0 {
        lemma_root(n - 1);
        let r = root(n - 1);
        assert((r + 1) * (r + 1) < (r + 2) * (r + 2)) by (nonlinear_arith)
            requires
                r >= 0,
        ;
    }
}

pub proof fn lemma_root_unique(n: int, r: int)
    requires
        0 <= r,
        r * r <= n < (r + 1) * (r + 1),
    ensures
        root(n) == r,
{
    lemma_root(n);
    let s = root(n);
    if s < r {
        assert((s + 1) * (s + 1) <= r * r) by (nonlinear_arith)
            requires
                0 <= s + 1 <= r,
        ;
    } else if s > r {
        assert((r + 1) * (r + 1) <= s * s) by (nonlinear_arith)
            requires
                0 <= r + 1 <= s,
        ;
    }
}

/// Integer square root, rounded down.
pub fn isqrt(n: u64) -> (r: u64)
    ensures
        r == root(n as int),
{
    let mut lo: u64 = 0;
    let mut hi: u64 = 4294967296;
    assert(n < 4294967296 * 4294967296) by (nonlinear_arith)
        requires
            n <= 18446744073709551615u64,
    ;
    while hi - lo > 1
        invariant
            lo < hi <= 4294967296,
            lo * lo <= n,
            n < hi * hi,
        decreases hi - lo,
    {
        let mid: u64 = lo + (hi - lo) / 2;
        assert((mid as u128) * (mid as u128) <= 4294967296u128 * 4294967296u128) by (nonlinear_arith)
            requires
                mid <= 4294967296u128,
        ;
        if (mid as u128) * (mid as u128) <= n as u128 {
            lo = mid;
        } else {
            hi = mid;
        }
    }
    proof {
        lemma_root_unique(n as int, lo as int);
    }
    lo
}


pub open spec fn zero_vec() -> Vec2 {
    Vec2 { x: 0, y: 0 }
}

/// `v` scaled to length `len` (the zero vector stays zero).
pub open spec fn resized(v: Vec2, len: int) -> Vec2 {
    if norm2(v.x as int, v.y as int) == 0 {
        zero_vec()
    } else {
        Vec2 {
            x: tdiv(v.x * len, length_of(v)) as i64,
            y: tdiv(v.y * len, length_of(v)) as i64,
        }
    }
}

/// `v` itself when its length is at most `max`, otherwise `v` scaled down to length `max`.
pub open spec fn speed_capped(v: Vec2, max: int) -> Vec2 {
    if length_of(v) > max {
        resized(v, max)
    } else {
        v
    }
}

/// Component-wise sum, saturating at the velocity bound.
pub open spec fn vadd(a: Vec2, b: Vec2) -> Vec2 {
    Vec2 {
        x: clamp_int(a.x + b.x, -SPEED_LIMIT, SPEED_LIMIT as int) as i64,
        y: clamp_int(a.y + b.y, -SPEED_LIMIT, SPEED_LIMIT as int) as i64,
    }
}

/// `v * num / den` component-wise (truncating), saturating at the velocity bound.
pub open spec fn vscale(v: Vec2, num: int, den: int) -> Vec2 {
    Vec2 {
        x: clamp_int(tdiv(v.x * num, den), -SPEED_LIMIT, SPEED_LIMIT as int) as i64,
        y: clamp_int(tdiv(v.y * num, den), -SPEED_LIMIT, SPEED_LIMIT as int) as i64,
    }
}

/// Position after moving at `vel` for `dt` nanoseconds, stopping at the world's edge.
pub open spec fn vadvance(pos: Vec2, vel: Vec2, dt: u64) -> Vec2 {
    Vec2 {
        x: clamp_int(pos.x + tdiv(vel.x * dt, NANOS_PER_SECOND as int), -WORLD_LIMIT, WORLD_LIMIT as int) as i64,
        y: clamp_int(pos.y + tdiv(vel.y * dt, NANOS_PER_SECOND as int), -WORLD_LIMIT, WORLD_LIMIT as int) as i64,
    }
}

/// `a` moved the fraction `num / den` of the way towards `b` (truncating).
pub open spec fn vlerp(a: Vec2, b: Vec2, num: int, den: int) -> Vec2 {
    Vec2 {
        x: (a.x + tdiv((b.x - a.x) * num, den)) as i64,
        y: (a.y + tdiv((b.y - a.y) * num, den)) as i64,
    }
}

/// `pos + d`, stopping at the world's edge.
pub open spec fn vtranslate(pos: Vec2, d: Vec2) -> Vec2 {
    Vec2 {
        x: clamp_int(pos.x + d.x, -WORLD_LIMIT, WORLD_LIMIT as int) as i64,
        y: clamp_int(pos.y + d.y, -WORLD_LIMIT, WORLD_LIMIT as int) as i64,
    }
}

fn clamp_wide(v: i128, lim: i64) -> (r: i64)
    requires
        lim >= 0,
    ensures
        r == clamp_int(v as int, -lim, lim as int),
{
    if v < -(lim as i128) {
        -lim
    } else if v > lim as i128 {
        lim
    } else {
        v as i64
    }
}

/// Position after moving at `vel` for `dt` nanoseconds; motion stops at the world's edge.
pub fn advance(pos: Vec2, vel: Vec2, dt: u64) -> (r: Vec2)
    requires
        bounded(vel, SPEED_LIMIT as int),
    ensures
        r == vadvance(pos, vel, dt),
        bounded(r, WORLD_LIMIT as int),
{
    assert(-2147483648 * 18446744073709551615 <= vel.x * dt <= 2147483648 * 18446744073709551615) by (nonlinear_arith)
        requires
            -2147483648 <= vel.x <= 2147483648,
            0 <= dt <= 18446744073709551615,
    ;
    assert(-2147483648 * 18446744073709551615 <= vel.y * dt <= 2147483648 * 18446744073709551615) by (nonlinear_arith)
        requires
            -2147483648 <= vel.y <= 2147483648,
            0 <= dt <= 18446744073709551615,
    ;
    let dx: i128 = (vel.x as i128) * (dt as i128) / (NANOS_PER_SECOND as i128);
    let dy: i128 = (vel.y as i128) * (dt as i128) / (NANOS_PER_SECOND as i128);
    Vec2 { x: clamp_wide(pos.x as i128 + dx, WORLD_LIMIT), y: clamp_wide(pos.y as i128 + dy, WORLD_LIMIT) }
}

/// Component-wise sum, saturating at the velocity bound.
pub fn plus(a: Vec2, b: Vec2) -> (r: Vec2)
    ensures
        r == vadd(a, b),
        bounded(r, SPEED_LIMIT as int),
{
    Vec2 {
        x: clamp_wide(a.x as i128 + b.x as i128, SPEED_LIMIT),
        y: clamp_wide(a.y as i128 + b.y as i128, SPEED_LIMIT),
    }
}

/// `v * num / den` component-wise (truncating), saturating at the velocity bound.
pub fn scale(v: Vec2, num: i64, den: i64) -> (r: Vec2)
    requires
        bounded(v, SPEED_LIMIT as int),
        -SPEED_LIMIT <= num <= SPEED_LIMIT,
        den > 0,
    ensures
        r == vscale(v, num as int, den as int),
        bounded(r, SPEED_LIMIT as int),
{
    assert(-SPEED_LIMIT * SPEED_LIMIT <= v.x * num <= SPEED_LIMIT * SPEED_LIMIT) by (nonlinear_arith)
        requires
            -SPEED_LIMIT <= v.x <= SPEED_LIMIT,
            -SPEED_LIMIT <= num <= SPEED_LIMIT,
    ;
    assert(-SPEED_LIMIT * SPEED_LIMIT <= v.y * num <= SPEED_LIMIT * SPEED_LIMIT) by (nonlinear_arith)
        requires
            -SPEED_LIMIT <= v.y <= SPEED_LIMIT,
            -SPEED_LIMIT <= num <= SPEED_LIMIT,
    ;
    let x: i128 = (v.x as i128) * (num as i128) / (den as i128);
    let y: i128 = (v.y as i128) * (num as i128) / (den as i128);
    Vec2 { x: clamp_wide(x, SPEED_LIMIT), y: clamp_wide(y, SPEED_LIMIT) }
}

/// `pos + d`, stopping at the world's edge.
pub fn translate(pos: Vec2, d: Vec2) -> (r: Vec2)
    ensures
        r == vtranslate(pos, d),
        bounded(r, WORLD_LIMIT as int),
{
    Vec2 {
        x: clamp_wide(pos.x as i128 + d.x as i128, WORLD_LIMIT),
        y: clamp_wide(pos.y as i128 + d.y as i128, WORLD_LIMIT),
    }
}

/// Scaling a vector within `den` on each axis by `num / den` gives one within `|num|`.
pub proof fn lemma_vscale_unit(v: Vec2, num: int, den: int)
    requires
        bounded(v, den),
        -SPEED_LIMIT <= num <= SPEED_LIMIT,
        den > 0,
    ensures
        bounded(vscale(v, num, den), abs_int(num)),
{
    lemma_scaled_component(v.x as int, num, den);
    lemma_scaled_component(v.y as int, num, den);
}

proof fn lemma_scaled_component(x: int, num: int, den: int)
    requires
        -den <= x <= den,
        -SPEED_LIMIT <= num <= SPEED_LIMIT,
        den > 0,
    ensures
        -abs_int(num) <= tdiv(x * num, den) <= abs_int(num),
{
    let m = abs_int(num);
    let y = if num >= 0 { x } else { -x };
    assert(x * num == y * m) by (nonlinear_arith)
        requires
            num >= 0 ==> y == x && m == num,
            num < 0 ==> y == -x && m == -num,
    ;
    lemma_tdiv_scaled(y, m, den);
    assert((abs_int(y) * m) / den <= m) by (nonlinear_arith)
        requires
            0 <= abs_int(y) <= den,
            m >= 0,
            den > 0,
            ((abs_int(y) * m) / den) * den <= abs_int(y) * m,
    ;
}

/// A vector within `b` on each axis is no longer than `2 * b`.
pub proof fn lemma_length_bound(v: Vec2, b: int)
    requires
        bounded(v, b),
        b >= 0,
    ensures
        0 <= length_of(v) <= 2 * b,
{
    let n = norm2(v.x as int, v.y as int);
    lemma_norm2_nonneg(v.x as int, v.y as int);
    lemma_root(n);
    let l = length_of(v);
    assert(n <= 2 * b * b) by (nonlinear_arith)
        requires
            -b <= v.x <= b,
            -b <= v.y <= b,
            n == v.x * v.x + v.y * v.y,
    ;
    if l > 2 * b {
        assert(l * l > 4 * b * b) by (nonlinear_arith)
            requires
                l > 2 * b,
                b >= 0,
        ;
        assert(4 * b * b >= 2 * b * b) by (nonlinear_arith)
            requires
                b >= 0,
        ;
    }
}

/// Euclidean length, rounded down.
pub fn length(v: Vec2) -> (r: u64)
    requires
        bounded(v, SPEED_LIMIT as int),
    ensures
        r == length_of(v),
{
    assert(0 <= v.x * v.x <= 4611686018427387904) by (nonlinear_arith)
        requires
            -2147483648 <= v.x <= 2147483648,
    ;
    assert(0 <= v.y * v.y <= 4611686018427387904) by (nonlinear_arith)
        requires
            -2147483648 <= v.y <= 2147483648,
    ;
    let n: u64 = ((v.x as i128) * (v.x as i128) + (v.y as i128) * (v.y as i128)) as u64;
    isqrt(n)
}

/// Squared distance between two points.
pub fn distance_squared(a: Vec2, b: Vec2) -> (r: u128)
    requires
        bounded(a, WORLD_LIMIT as int),
        bounded(b, WORLD_LIMIT as int),
    ensures
        r == norm2(a.x - b.x, a.y - b.y),
{
    let dx: i128 = a.x as i128 - b.x as i128;
    let dy: i128 = a.y as i128 - b.y as i128;
    assert(dx * dx <= 4 * WORLD_LIMIT * WORLD_LIMIT) by (nonlinear_arith)
        requires
            -2 * WORLD_LIMIT <= dx <= 2 * WORLD_LIMIT,
    ;
    assert(dy * dy <= 4 * WORLD_LIMIT * WORLD_LIMIT) by (nonlinear_arith)
        requires
            -2 * WORLD_LIMIT <= dy <= 2 * WORLD_LIMIT,
    ;
    assert(dx * dx >= 0 && dy * dy >= 0) by (nonlinear_arith);
    (dx * dx + dy * dy) as u128
}

/// Moves `a` the fraction `num / den` of the way towards `b` (truncating).
pub fn lerp(a: Vec2, b: Vec2, num: i64, den: i64) -> (r: Vec2)
    requires
        bounded(a, WORLD_LIMIT as int),
        bounded(b, WORLD_LIMIT as int),
        0 <= num <= den,
        den > 0,
    ensures
        r == vlerp(a, b, num as int, den as int),
        bounded(r, WORLD_LIMIT as int),
{
    let x = lerp_component(a.x, b.x, num, den);
    let y = lerp_component(a.y, b.y, num, den);
    Vec2 { x, y }
}

fn lerp_component(a: i64, b: i64, num: i64, den: i64) -> (r: i64)
    requires
        -WORLD_LIMIT <= a <= WORLD_LIMIT,
        -WORLD_LIMIT <= b <= WORLD_LIMIT,
        0 <= num <= den,
        den > 0,
    ensures
        r == a + tdiv((b - a) * num, den as int),
        -WORLD_LIMIT <= r <= WORLD_LIMIT,
{
    let d: i128 = b as i128 - a as i128;
    proof {
        if d >= 0 {
            assert(0 <= d * num <= d * den) by (nonlinear_arith)
                requires
                    0 <= num <= den,
                    d >= 0,
            ;
            assert((d * num) / (den as int) <= d) by (nonlinear_arith)
                requires
                    0 <= d * num <= d * den,
                    den > 0,
            ;
        } else {
            assert(0 <= (-d) * num <= (-d) * den) by (nonlinear_arith)
                requires
                    0 <= num <= den,
                    d < 0,
            ;
            assert(((-d) * num) / (den as int) <= -d) by (nonlinear_arith)
                requires
                    0 <= (-d) * num <= (-d) * den,
                    den > 0,
            ;
            assert((-d) * num == -(d * num)) by (nonlinear_arith);
        }
        assert(-2199023255552 * 9223372036854775807 <= d * num <= 2199023255552 * 9223372036854775807) by (nonlinear_arith)
            requires
                -2199023255552 <= d <= 2199023255552,
                0 <= num <= 9223372036854775807,
        ;
    }
    let step: i128 = d * (num as i128) / (den as i128);
    (a as i128 + step) as i64
}

proof fn lemma_norm2_nonneg(x: int, y: int)
    ensures
        norm2(x, y) >= 0,
        x * x <= norm2(x, y),
        y * y <= norm2(x, y),
{
    assert(x * x >= 0 && y * y >= 0) by (nonlinear_arith);
}

/// A component is at most the length, in absolute value.
proof fn lemma_component_le_length(x: int, y: int, l: int)
    requires
        l >= 0,
        norm2(x, y) < (l + 1) * (l + 1),
    ensures
        abs_int(x) <= l,
        abs_int(y) <= l,
{
    lemma_norm2_nonneg(x, y);
    if abs_int(x) > l {
        assert(abs_int(x) * abs_int(x) >= (l + 1) * (l + 1)) by (nonlinear_arith)
            requires
                abs_int(x) >= l + 1,
                l >= 0,
        ;
        assert(abs_int(x) * abs_int(x) == x * x) by (nonlinear_arith);
    }
    if abs_int(y) > l {
        assert(abs_int(y) * abs_int(y) >= (l + 1) * (l + 1)) by (nonlinear_arith)
            requires
                abs_int(y) >= l + 1,
                l >= 0,
        ;
        assert(abs_int(y) * abs_int(y) == y * y) by (nonlinear_arith);
    }
}

/// Truncating `x * m / l` has the magnitude of the floor of `|x| * m / l` and the sign of `x`.
pub proof fn lemma_tdiv_scaled(x: int, m: int, l: int)
    requires
        m >= 0,
        l > 0,
    ensures
        abs_int(tdiv(x * m, l)) == (abs_int(x) * m) / l,
        x >= 0 ==> tdiv(x * m, l) == (abs_int(x) * m) / l,
        x < 0 ==> tdiv(x * m, l) == -((abs_int(x) * m) / l),
        0 <= (abs_int(x) * m) / l,
        ((abs_int(x) * m) / l) * l <= abs_int(x) * m < ((abs_int(x) * m) / l + 1) * l,
{
    let a = abs_int(x);
    assert(a * m >= 0) by (nonlinear_arith)
        requires
            a >= 0,
            m >= 0,
    ;
    if x < 0 {
        assert(-(x * m) == a * m) by (nonlinear_arith)
            requires
                a == -x,
        ;
        if x * m == 0 {
            assert(a * m == 0);
        }
    } else {
        assert(x * m == a * m);
    }
    lemma_fundamental_div_mod(a * m, l);
    lemma_mod_pos_bound(a * m, l);
    let p = (a * m) / l;
    assert(p * l <= a * m < (p + 1) * l) by (nonlinear_arith)
        requires
            a * m == l * p + (a * m) % l,
            0 <= (a * m) % l < l,
    ;
    assert(p >= 0) by (nonlinear_arith)
        requires
            a * m < (p + 1) * l,
            a * m >= 0,
            l > 0,
    ;
}

proof fn lemma_cap_upper(a: int, b: int, m: int, l: int, p: int, q: int)
    requires
        a >= 0,
        b >= 0,
        m >= 0,
        l >= m,
        l > 0,
        a * a + b * b < (l + 1) * (l + 1),
        0 <= p,
        0 <= q,
        p * l <= a * m,
        q * l <= b * m,
    ensures
        p * p + q * q < (m + 1) * (m + 1),
{
    assert((p * l) * (p * l) <= (a * m) * (a * m)) by (nonlinear_arith)
        requires
            0 <= p * l <= a * m,
    ;
    assert((q * l) * (q * l) <= (b * m) * (b * m)) by (nonlinear_arith)
        requires
            0 <= q * l <= b * m,
    ;
    assert((p * p + q * q) * (l * l) == (p * l) * (p * l) + (q * l) * (q * l)) by (nonlinear_arith);
    assert((a * a + b * b) * (m * m) == (a * m) * (a * m) + (b * m) * (b * m)) by (nonlinear_arith);
    if m == 0 {
        assert(p * l <= 0);
        assert(q * l <= 0);
        assert(p == 0) by (nonlinear_arith)
            requires
                p * l <= 0,
                p >= 0,
                l > 0,
        ;
        assert(q == 0) by (nonlinear_arith)
            requires
                q * l <= 0,
                q >= 0,
                l > 0,
        ;
    } else {
        assert((a * a + b * b) * (m * m) < ((l + 1) * (l + 1)) * (m * m)) by (nonlinear_arith)
            requires
                a * a + b * b < (l + 1) * (l + 1),
                m > 0,
        ;
        if p * p + q * q >= (m + 1) * (m + 1) {
            assert((m + 1) * l >= (l + 1) * m) by (nonlinear_arith)
                requires
                    l >= m,
            ;
            assert(((m + 1) * l) * ((m + 1) * l) >= ((l + 1) * m) * ((l + 1) * m)) by (nonlinear_arith)
                requires
                    (m + 1) * l >= (l + 1) * m,
                    (l + 1) * m >= 0,
            ;
            assert((p * p + q * q) * (l * l) >= ((m + 1) * (m + 1)) * (l * l)) by (nonlinear_arith)
                requires
                    p * p + q * q >= (m + 1) * (m + 1),
            ;
            assert(((m + 1) * (m + 1)) * (l * l) == ((m + 1) * l) * ((m + 1) * l)) by (nonlinear_arith);
            assert(((l + 1) * (l + 1)) * (m * m) == ((l + 1) * m) * ((l + 1) * m)) by (nonlinear_arith);
        }
    }
}

proof fn lemma_cap_lower(a: int, b: int, m: int, l: int, p: int, q: int)
    requires
        a >= 0,
        b >= 0,
        m >= 2,
        l > 0,
        l * l <= a * a + b * b,
        0 <= p,
        0 <= q,
        a * m < (p + 1) * l,
        b * m < (q + 1) * l,
    ensures
        (m - 2) * (m - 2) <= p * p + q * q,
{
    assert((a * m) * (a * m) <= ((p + 1) * l) * ((p + 1) * l)) by (nonlinear_arith)
        requires
            0 <= a * m <= (p + 1) * l,
    ;
    assert((b * m) * (b * m) <= ((q + 1) * l) * ((q + 1) * l)) by (nonlinear_arith)
        requires
            0 <= b * m <= (q + 1) * l,
    ;
    assert(a * m >= 0 && b * m >= 0) by (nonlinear_arith)
        requires
            a >= 0,
            b >= 0,
            m >= 0,
    ;
    let t = (p + 1) * (p + 1) + (q + 1) * (q + 1);
    assert(t * (l * l) == ((p + 1) * l) * ((p + 1) * l) + ((q + 1) * l) * ((q + 1) * l)) by (nonlinear_arith)
        requires
            t == (p + 1) * (p + 1) + (q + 1) * (q + 1),
    ;
    assert((a * a + b * b) * (m * m) == (a * m) * (a * m) + (b * m) * (b * m)) by (nonlinear_arith);
    assert((a * a + b * b) * (m * m) >= (l * l) * (m * m)) by (nonlinear_arith)
        requires
            l * l <= a * a + b * b,
    ;
    assert(t >= m * m) by (nonlinear_arith)
        requires
            t * (l * l) >= (l * l) * (m * m),
            l > 0,
    ;
    let s = p * p + q * q;
    if s < (m - 2) * (m - 2) {
        let u = m - 2;
        assert((p + q) * (p + q) <= 2 * s) by (nonlinear_arith)
            requires
                s == p * p + q * q,
        ;
        assert(p + q < 2 * u || u == 0) by (nonlinear_arith)
            requires
                (p + q) * (p + q) <= 2 * s,
                s < u * u,
                p + q >= 0,
                u >= 0,
        ;
        assert(t == s + 2 * (p + q) + 2) by (nonlinear_arith)
            requires
                t == (p + 1) * (p + 1) + (q + 1) * (q + 1),
                s == p * p + q * q,
        ;
        assert(t < m * m) by (nonlinear_arith)
            requires
                t == s + 2 * (p + q) + 2,
                s < u * u,
                p + q < 2 * u || u == 0,
                m == u + 2,
                u >= 0,
                s >= 0,
                p + q >= 0,
        ;
    }
}

proof fn lemma_cap_cross(a: int, b: int, m: int, l: int, p: int, q: int)
    requires
        a >= 0,
        b >= 0,
        l > 0,
        p * l <= a * m < (p + 1) * l,
        q * l <= b * m < (q + 1) * l,
    ensures
        abs_int(a * q - b * p) <= a + b,
{
    let ra = a * m - p * l;
    let rb = b * m - q * l;
    assert((p + 1) * l == p * l + l && (q + 1) * l == q * l + l) by (nonlinear_arith);
    assert(l * (a * q - b * p) == b * ra - a * rb) by (nonlinear_arith)
        requires
            ra == a * m - p * l,
            rb == b * m - q * l,
    ;
    assert(0 <= b * ra <= b * l && 0 <= a * rb <= a * l) by (nonlinear_arith)
        requires
            0 <= ra < l,
            0 <= rb < l,
            a >= 0,
            b >= 0,
    ;
    let d = a * q - b * p;
    assert(abs_int(d) <= a + b) by (nonlinear_arith)
        requires
            l * d == b * ra - a * rb,
            0 <= b * ra <= b * l,
            0 <= a * rb <= a * l,
            l > 0,
            a >= 0,
            b >= 0,
    ;
}

/// Resizing a nonzero vector to a length `m` that is at most its own gives a vector of
/// squared length in `[(m - 2)^2, (m + 1)^2)` pointing the same way: each component keeps
/// its sign, and the cross product with `v` is at most `|v.x| + |v.y|`.
pub proof fn lemma_resized_bounds(v: Vec2, m: int)
    requires
        bounded(v, SPEED_LIMIT as int),
        0 <= m <= SPEED_LIMIT,
        norm2(v.x as int, v.y as int) != 0,
        length_of(v) >= m,
    ensures
        ({
            let c = resized(v, m);
            &&& norm2(c.x as int, c.y as int) < (m + 1) * (m + 1)
            &&& m >= 2 ==> (m - 2) * (m - 2) <= norm2(c.x as int, c.y as int)
            &&& c.x * v.x >= 0
            &&& c.y * v.y >= 0
            &&& abs_int(v.x * c.y - v.y * c.x) <= abs_int(v.x as int) + abs_int(v.y as int)
        }),
{
    let n = norm2(v.x as int, v.y as int);
    let l = length_of(v);
    lemma_norm2_nonneg(v.x as int, v.y as int);
    lemma_root(n);
    lemma_component_le_length(v.x as int, v.y as int, l);
    lemma_resized_fits(v, m);
    lemma_tdiv_scaled(v.x as int, m, l);
    lemma_tdiv_scaled(v.y as int, m, l);
    let a = abs_int(v.x as int);
    let b = abs_int(v.y as int);
    let p = (a * m) / l;
    let q = (b * m) / l;
    assert(a * a + b * b == n) by (nonlinear_arith)
        requires
            a == abs_int(v.x as int),
            b == abs_int(v.y as int),
            n == norm2(v.x as int, v.y as int),
    ;
    let c = resized(v, m);
    assert(c.x * c.x + c.y * c.y == p * p + q * q) by (nonlinear_arith)
        requires
            c.x == p || c.x == -p,
            c.y == q || c.y == -q,
    ;
    lemma_cap_upper(a, b, m, l, p, q);
    if m >= 2 {
        lemma_cap_lower(a, b, m, l, p, q);
    }
    lemma_cap_cross(a, b, m, l, p, q);
    assert(c.x * v.x >= 0 && c.y * v.y >= 0) by (nonlinear_arith)
        requires
            v.x >= 0 ==> c.x == p,
            v.x < 0 ==> c.x == -p,
            v.y >= 0 ==> c.y == q,
            v.y < 0 ==> c.y == -q,
            p >= 0,
            q >= 0,
    ;
    assert(abs_int(v.x * c.y - v.y * c.x) == abs_int(a * q - b * p)) by (nonlinear_arith)
        requires
            v.x >= 0 ==> c.x == p && a == v.x,
            v.x < 0 ==> c.x == -p && a == -v.x,
            v.y >= 0 ==> c.y == q && b == v.y,
            v.y < 0 ==> c.y == -q && b == -v.y,
    ;
}

/// Capping a speed that exceeds `max` yields a vector of length `max` up to rounding
/// (its squared length lies in `[(max - 2)^2, (max + 1)^2)`) pointing the same way as
/// before: each component keeps its sign, and the cross product with the original
/// vector is at most `|v.x| + |v.y|`, the rounding of one unit per component.
pub proof fn lemma_speed_cap(v: Vec2, max: int)
    requires
        bounded(v, SPEED_LIMIT as int),
        0 <= max <= SPEED_LIMIT,
        length_of(v) > max,
    ensures
        ({
            let c = speed_capped(v, max);
            &&& norm2(c.x as int, c.y as int) < (max + 1) * (max + 1)
            &&& max >= 2 ==> (max - 2) * (max - 2) <= norm2(c.x as int, c.y as int)
            &&& c.x * v.x >= 0
            &&& c.y * v.y >= 0
            &&& abs_int(v.x * c.y - v.y * c.x) <= abs_int(v.x as int) + abs_int(v.y as int)
        }),
{
    let n = norm2(v.x as int, v.y as int);
    lemma_norm2_nonneg(v.x as int, v.y as int);
    lemma_root(n);
    if n == 0 {
        assert(root(0) == 0);
    }
    lemma_resized_bounds(v, max);
}

/// The components of `resized(v, len)` are the truncated quotients, and fit within `len`.
proof fn lemma_resized_fits(v: Vec2, len: int)
    requires
        bounded(v, SPEED_LIMIT as int),
        0 <= len <= SPEED_LIMIT,
        norm2(v.x as int, v.y as int) != 0,
    ensures
        resized(v, len).x == tdiv(v.x * len, length_of(v)),
        resized(v, len).y == tdiv(v.y * len, length_of(v)),
        bounded(resized(v, len), len),
        length_of(v) > 0,
{
    let n = norm2(v.x as int, v.y as int);
    let l = length_of(v);
    lemma_norm2_nonneg(v.x as int, v.y as int);
    lemma_root(n);
    if l == 0 {
        assert(n < 1) by (nonlinear_arith)
            requires
                n < (l + 1) * (l + 1),
                l == 0,
        ;
    }
    lemma_component_le_length(v.x as int, v.y as int, l);
    lemma_tdiv_scaled(v.x as int, len, l);
    lemma_tdiv_scaled(v.y as int, len, l);
    let a = abs_int(v.x as int);
    let b = abs_int(v.y as int);
    assert((a * len) / l <= len) by (nonlinear_arith)
        requires
            0 <= a <= l,
            0 <= len,
            l > 0,
            ((a * len) / l) * l <= a * len,
    ;
    assert((b * len) / l <= len) by (nonlinear_arith)
        requires
            0 <= b <= l,
            0 <= len,
            l > 0,
            ((b * len) / l) * l <= b * len,
    ;
}

/// `v` scaled to length `len`; the zero vector stays zero rather than becoming undefined.
pub fn with_length(v: Vec2, len: i64) -> (r: Vec2)
    requires
        bounded(v, SPEED_LIMIT as int),
        0 <= len <= SPEED_LIMIT,
    ensures
        r == resized(v, len as int),
        bounded(r, len as int),
{
    let l = length(v);
    proof {
        lemma_norm2_nonneg(v.x as int, v.y as int);
        lemma_root(norm2(v.x as int, v.y as int));
    }
    if l == 0 {
        assert((0 + 1) * (0 + 1) == 1);
        assert(norm2(v.x as int, v.y as int) == 0);
        return Vec2 { x: 0, y: 0 };
    }
    proof {
        lemma_resized_fits(v, len as int);
        assert(-SPEED_LIMIT * SPEED_LIMIT <= v.x * len <= SPEED_LIMIT * SPEED_LIMIT) by (nonlinear_arith)
            requires
                -SPEED_LIMIT <= v.x <= SPEED_LIMIT,
                0 <= len <= SPEED_LIMIT,
        ;
        assert(-SPEED_LIMIT * SPEED_LIMIT <= v.y * len <= SPEED_LIMIT * SPEED_LIMIT) by (nonlinear_arith)
            requires
                -SPEED_LIMIT <= v.y <= SPEED_LIMIT,
                0 <= len <= SPEED_LIMIT,
        ;
    }
    let x: i128 = (v.x as i128) * (len as i128) / (l as i128);
    let y: i128 = (v.y as i128) * (len as i128) / (l as i128);
    Vec2 { x: x as i64, y: y as i64 }
}

/// Caps the length of `v` at `max`, keeping its direction.
pub fn cap_speed(v: Vec2, max: i64) -> (r: Vec2)
    requires
        bounded(v, SPEED_LIMIT as int),
        0 <= max <= SPEED_LIMIT,
    ensures
        r == speed_capped(v, max as int),
        bounded(r, SPEED_LIMIT as int),
{
    if length(v) > max as u64 {
        with_length(v, max)
    } else {
        v
    }
}

} // verus!
