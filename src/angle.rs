//! Headings in fixed point: one unit is a microradian, and a full turn is
//! `TAU` units. Every heading is kept in `[0, TAU)`.
use vstd::prelude::*;

verus! {

/// A full turn, 2π, in microradians.
pub const TAU: i64 = 6_283_185;

/// Half the field of view, π/4, in microradians.
pub const HALF_FOV: i64 = 785_398;

/// The rotation applied by one turn input, 0.05 rad, in microradians.
pub const TURN_STEP: i64 = 50_000;

/// Largest magnitude of a rotation that `rotate` accepts.
pub const MAX_DELTA: i64 = 1_000_000_000_000;

/// The heading `a` brought into `[0, TAU)`.
pub open spec fn norm(a: int) -> int {
    a % (TAU as int)
}

/// A heading is well formed when it lies in `[0, TAU)`.
pub open spec fn valid_heading(h: int) -> bool {
    0 <= h < TAU
}

/// Brings any angle into `[0, TAU)` (Euclidean remainder).
pub fn normalize(a: i64) -> (r: i64)
    ensures
        r == norm(a as int),
        valid_heading(r as int),
{
    let m = a % TAU;
    let r = if m < 0 { m + TAU } else { m };
    assert(r == norm(a as int)) by {
        vstd::arithmetic::div_mod::lemma_fundamental_div_mod(a as int, TAU as int);
    }
    r
}

/// Turns `heading` by `delta` and normalizes the result.
pub fn rotate(heading: i64, delta: i64) -> (r: i64)
    requires
        valid_heading(heading as int),
        -MAX_DELTA <= delta <= MAX_DELTA,
    ensures
        r == norm(heading + delta),
{
    normalize(heading + delta)
}

/// Normalizing after each of two turns is normalizing once after their sum.
pub proof fn lemma_rotation_composes(h: int, d1: int, d2: int)
    ensures
        norm(norm(h + d1) + d2) == norm(h + d1 + d2),
{
    vstd::arithmetic::div_mod::lemma_add_mod_noop(h + d1, d2, TAU as int);
    vstd::arithmetic::div_mod::lemma_mod_twice(d2, TAU as int);
    vstd::arithmetic::div_mod::lemma_add_mod_noop(norm(h + d1), d2, TAU as int);
    vstd::arithmetic::div_mod::lemma_mod_twice(h + d1, TAU as int);
}

/// The heading of the ray cast through screen column `x` of `width`:
/// `heading + c * HALF_FOV` with `c = 2x/width - 1`, rounded down and
/// normalized.
pub open spec fn column_heading_spec(heading: int, x: int, width: int) -> int {
    norm(heading - HALF_FOV + (2 * x * HALF_FOV) / width)
}

/// Heading of the ray for column `x` of a screen `width` columns wide.
pub fn column_heading(heading: i64, x: usize, width: usize) -> (r: i64)
    requires
        valid_heading(heading as int),
        x < width,
        width <= 1_000_000,
    ensures
        r == column_heading_spec(heading as int, x as int, width as int),
        valid_heading(r as int),
{
    let num: u64 = 2 * (x as u64) * (HALF_FOV as u64);
    let off: u64 = num / (width as u64);
    assert(off <= 2 * HALF_FOV) by {
        assert(num <= 2 * (width as int) * HALF_FOV) by (nonlinear_arith)
            requires num == 2 * (x as int) * HALF_FOV, x < width;
        vstd::arithmetic::div_mod::lemma_div_is_ordered(num as int, 2 * (width as int) * HALF_FOV, width as int);
        vstd::arithmetic::div_mod::lemma_div_multiples_vanish(2 * HALF_FOV, width as int);
        assert(2 * (width as int) * HALF_FOV == (width as int) * (2 * HALF_FOV)) by (nonlinear_arith);
    }
    normalize(heading - HALF_FOV + off as i64)
}

} // verus!
