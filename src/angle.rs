//! Angles in fixed-point units and the "angle fix-up" that brings an angle next to a
//! reference angle by whole turns.
use vstd::arithmetic::div_mod::{
    lemma_fundamental_div_mod, lemma_mod_bound,
    lemma_mod_multiples_basic,
};
use vstd::prelude::*;

verus! {

/// Angle units in a full turn: one unit is a micro-radian, and a turn is 2 pi rounded.
pub const FULL_TURN: i64 = 6283186;

/// Half of `FULL_TURN`: pi in angle units.
pub const HALF_TURN: i64 = 3141593;

/// Angles handed to the fix-up lie within plus or minus this bound.
pub const ANGLE_LIMIT: i64 = 1152921504606846976;

/// `a` lies in the half-open window `(reference - HALF_TURN, reference + HALF_TURN]`.
pub open spec fn in_window(a: int, reference: int) -> bool {
    reference - HALF_TURN < a <= reference + HALF_TURN
}

/// The angle of the same direction as `angle` that lies in the window around `reference`.
pub open spec fn fixed_angle(angle: int, reference: int) -> int {
    reference + HALF_TURN - ((reference + HALF_TURN - angle) % (FULL_TURN as int))
}

/// `fixed_angle` lies in the window and differs from `angle` by whole turns.
pub proof fn lemma_fixed_angle_shape(angle: int, reference: int)
    ensures
        in_window(fixed_angle(angle, reference), reference),
        fixed_angle(angle, reference) == angle + ((reference + HALF_TURN - angle) / (FULL_TURN as int)) * FULL_TURN,
{
    let e = reference + HALF_TURN - angle;
    lemma_fundamental_div_mod(e, FULL_TURN as int);
    lemma_mod_bound(e, FULL_TURN as int);
    assert(e == (e / (FULL_TURN as int)) * FULL_TURN + e % (FULL_TURN as int)) by (nonlinear_arith)
        requires
            e == (FULL_TURN as int) * (e / (FULL_TURN as int)) + e % (FULL_TURN as int),
    ;
}

/// The only angle in the window that differs from `angle` by whole turns is `fixed_angle`.
pub proof fn lemma_fixed_angle_unique(angle: int, reference: int, r: int, k: int)
    requires
        in_window(r, reference),
        r == angle + k * FULL_TURN,
    ensures
        r == fixed_angle(angle, reference),
{
    lemma_fixed_angle_shape(angle, reference);
    let q = (reference + HALF_TURN - angle) / (FULL_TURN as int);
    let f = fixed_angle(angle, reference);
    assert(r - f == (k - q) * FULL_TURN) by (nonlinear_arith)
        requires
            r == angle + k * FULL_TURN,
            f == angle + q * FULL_TURN,
    ;
    if k - q >= 1 {
        assert((k - q) * FULL_TURN >= FULL_TURN) by (nonlinear_arith)
            requires
                k - q >= 1,
        ;
    } else if k - q <= -1 {
        assert((k - q) * FULL_TURN <= -FULL_TURN) by (nonlinear_arith)
            requires
                k - q <= -1,
        ;
    }
}

/// Angle fix-up is idempotent, and its result always lies in the window
/// `(reference - HALF_TURN, reference + HALF_TURN]` and names the same direction.
pub proof fn lemma_fix_angle_idempotent(angle: int, reference: int)
    ensures
        fixed_angle(fixed_angle(angle, reference), reference) == fixed_angle(angle, reference),
        in_window(fixed_angle(angle, reference), reference),
        (fixed_angle(angle, reference) - angle) % (FULL_TURN as int) == 0,
{
    let f = fixed_angle(angle, reference);
    lemma_fixed_angle_shape(angle, reference);
    let q = (reference + HALF_TURN - angle) / (FULL_TURN as int);
    assert(f == angle + q * FULL_TURN);
    lemma_mod_multiples_basic(q, FULL_TURN as int);
    assert(f == f + 0 * FULL_TURN);
    lemma_fixed_angle_unique(f, reference, f, 0);
}

/// Brings `angle` into the window around `reference` by repeated whole-turn steps.
pub fn fix_angle(angle: i64, reference: i64) -> (r: i64)
    requires
        -ANGLE_LIMIT <= angle <= ANGLE_LIMIT,
        -ANGLE_LIMIT <= reference <= ANGLE_LIMIT,
    ensures
        r == fixed_angle(angle as int, reference as int),
        in_window(r as int, reference as int),
{
    let mut t: i64 = angle;
    let ghost mut k: int = 0;
    while t <= reference - HALF_TURN
        invariant
            -ANGLE_LIMIT <= reference <= ANGLE_LIMIT,
            angle <= t <= if angle > reference + HALF_TURN { angle as int } else { reference + HALF_TURN },
            t == angle + k * FULL_TURN,
        decreases reference + HALF_TURN - t,
    {
        t = t + FULL_TURN;
        proof {
            k = k + 1;
            assert(t == angle + k * FULL_TURN) by (nonlinear_arith)
                requires
                    t == angle + (k - 1) * FULL_TURN + FULL_TURN,
            ;
        }
    }
    while t > reference + HALF_TURN
        invariant
            -ANGLE_LIMIT <= reference <= ANGLE_LIMIT,
            reference - HALF_TURN < t <= ANGLE_LIMIT + FULL_TURN,
            t == angle + k * FULL_TURN,
        decreases t - (reference - HALF_TURN),
    {
        t = t - FULL_TURN;
        proof {
            k = k - 1;
            assert(t == angle + k * FULL_TURN) by (nonlinear_arith)
                requires
                    t == angle + (k + 1) * FULL_TURN - FULL_TURN,
            ;
        }
    }
    proof {
        lemma_fixed_angle_unique(angle as int, reference as int, t as int, k);
    }
    t
}

} // verus!
