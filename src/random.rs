//! The seedable random service: integer draws from rand's `StdRng`, and random
//! directions built from them.
use crate::kinematics::{bounded, length, lemma_resized_bounds, norm2, with_length, Vec2};
use rand::rngs::StdRng;
use rand::{Rng, SeedableRng};
use vstd::prelude::*;

verus! {

#[verifier::external_type_specification]
#[verifier::external_body]
pub struct ExStdRng(StdRng);

/// Half the side of the square from which a random direction's components are drawn.
pub const DIRECTION_SPREAD: i64 = 1048576;

/// Relies on rand's `SeedableRng::seed_from_u64` for `StdRng`: a generator seeded from `seed`.
#[verifier::external_body]
pub(crate) fn seeded_rng(seed: u64) -> StdRng {
    StdRng::seed_from_u64(seed)
}

/// Relies on rand's `Rng::gen_range` over `lo..hi` for `u64`: a value in the range.
/// It panics on an empty range, which `lo < hi` rules out.
#[verifier::external_body]
pub(crate) fn draw_u64(rng: &mut StdRng, lo: u64, hi: u64) -> (r: u64)
    requires
        lo < hi,
    ensures
        lo <= r < hi,
{
    rng.gen_range(lo..hi)
}

/// Relies on rand's `Rng::gen_range` over `lo..hi` for `i64`: a value in the range.
/// It panics on an empty range, which `lo < hi` rules out.
#[verifier::external_body]
pub(crate) fn draw_i64(rng: &mut StdRng, lo: i64, hi: i64) -> (r: i64)
    requires
        lo < hi,
    ensures
        lo <= r < hi,
{
    rng.gen_range(lo..hi)
}

/// Draws a random direction at most this many times before falling back to the x axis.
pub const DIRECTION_TRIES: u64 = 32;

/// A vector of length `len` (up to rounding) in a random direction: components are
/// drawn from a square and the first draw at least `len` long is resized, so that the
/// fallback to the x axis is practically never taken.
pub fn random_direction(rng: &mut StdRng, len: i64) -> (r: Vec2)
    requires
        2 <= len <= DIRECTION_SPREAD,
    ensures
        bounded(r, len as int),
        (len - 2) * (len - 2) <= norm2(r.x as int, r.y as int) < (len + 1) * (len + 1),
{
    let mut v = Vec2 { x: len, y: 0 };
    proof {
        assert(norm2(len as int, 0) == len * len);
        assert(len * len < (len + 1) * (len + 1)) by (nonlinear_arith)
            requires
                len >= 0,
        ;
        crate::kinematics::lemma_root_unique(len * len, len as int);
    }
    let mut tries: u64 = 0;
    while tries < DIRECTION_TRIES
        invariant
            2 <= len <= DIRECTION_SPREAD,
            bounded(v, DIRECTION_SPREAD as int),
            crate::kinematics::length_of(v) >= len,
        decreases DIRECTION_TRIES - tries,
    {
        let x = draw_i64(rng, -DIRECTION_SPREAD, DIRECTION_SPREAD + 1);
        let y = draw_i64(rng, -DIRECTION_SPREAD, DIRECTION_SPREAD + 1);
        let w = Vec2 { x, y };
        if length(w) >= len as u64 {
            v = w;
            break;
        }
        tries = tries + 1;
    }
    proof {
        crate::kinematics::lemma_root(norm2(v.x as int, v.y as int));
        if norm2(v.x as int, v.y as int) == 0 {
            assert(crate::kinematics::root(0) == 0);
        }
        lemma_resized_bounds(v, len as int);
    }
    with_length(v, len)
}

} // verus!
