//! Wall projection and distance shading. Distances are in position units,
//! `UNIT` to a map cell.
use crate::grid::UNIT;
use vstd::prelude::*;

verus! {

/// Position units per shade level: a wall dims by one level every 0.05 cell.
pub const SHADE_STEP: u64 = 50_000;

/// `255 - round(d * 20)` for `d` in cells, clamped into `[0, 255]`.
pub open spec fn shade_spec(d: int) -> int {
    let t = (d + SHADE_STEP / 2) / SHADE_STEP as int;
    if t >= 255 {
        0
    } else {
        255 - t
    }
}

/// `round(screen_h / d)` for `d` in cells: the wall's height on screen.
pub open spec fn projected_height_spec(d: int, screen_h: int) -> int {
    (2 * screen_h * UNIT + d) / (2 * d)
}

/// Red `s`, green `s / 2`, no blue, packed as `0xRRGGBB`.
pub open spec fn wall_color_spec(shade: int) -> int {
    shade * 0x10000 + (shade / 2) * 0x100
}

/// First row of a wall strip of height `wall_h`, centred on `screen_h / 2`.
pub open spec fn span_start(wall_h: int, screen_h: int) -> int {
    if wall_h / 2 >= screen_h / 2 {
        0
    } else {
        screen_h / 2 - wall_h / 2
    }
}

/// Last row of a wall strip of height `wall_h`, centred on `screen_h / 2`.
pub open spec fn span_end(wall_h: int, screen_h: int) -> int {
    if screen_h / 2 + wall_h / 2 >= screen_h - 1 {
        screen_h - 1
    } else {
        screen_h / 2 + wall_h / 2
    }
}

/// Brightness of a wall at distance `d`.
pub fn shade(d: u64) -> (r: u32)
    ensures
        r == shade_spec(d as int),
        r <= 255,
{
    let t: u64 = d / SHADE_STEP + if d % SHADE_STEP >= SHADE_STEP / 2 { 1 } else { 0 };
    assert(t == (d + SHADE_STEP / 2) / SHADE_STEP as int) by {
        vstd::arithmetic::div_mod::lemma_fundamental_div_mod(d as int, SHADE_STEP as int);
        vstd::arithmetic::div_mod::lemma_fundamental_div_mod_converse(
            d + SHADE_STEP / 2,
            SHADE_STEP as int,
            t as int,
            if d % SHADE_STEP >= SHADE_STEP / 2 {
                d % SHADE_STEP - SHADE_STEP / 2
            } else {
                d % SHADE_STEP + SHADE_STEP / 2
            },
        );
    }
    if t >= 255 {
        0
    } else {
        (255 - t) as u32
    }
}

/// Height on a screen of `screen_h` rows of a wall at distance `d`.
pub fn projected_height(d: u64, screen_h: u32) -> (r: u64)
    requires
        d > 0,
    ensures
        r == projected_height_spec(d as int, screen_h as int),
{
    let h = screen_h as u128;
    assert(h * 2_000_000 <= 0xffff_ffff * 2_000_000) by (nonlinear_arith)
        requires h <= 0xffff_ffff;
    let n: u128 = h * 2_000_000 + (d as u128);
    let q: u128 = n / (2 * (d as u128));
    assert(q <= n / 2) by {
        vstd::arithmetic::div_mod::lemma_div_is_ordered_by_denominator(n as int, 2, 2 * d as int);
    }
    q as u64
}

/// Packed colour of a wall with brightness `shade`.
pub fn wall_color(shade: u32) -> (r: u32)
    requires
        shade <= 255,
    ensures
        r == wall_color_spec(shade as int),
{
    shade * 0x10000 + (shade / 2) * 0x100
}

/// First and last row, inclusive, of a wall strip `wall_h` rows high,
/// centred on a screen of `screen_h` rows and clamped to it.
pub fn wall_span(wall_h: u64, screen_h: u64) -> (r: (u64, u64))
    requires
        screen_h > 0,
    ensures
        r.0 == span_start(wall_h as int, screen_h as int),
        r.1 == span_end(wall_h as int, screen_h as int),
        r.1 < screen_h,
{
    let half = screen_h / 2;
    let hw = wall_h / 2;
    let start = if hw >= half { 0 } else { half - hw };
    let end = if hw >= screen_h - 1 - half { screen_h - 1 } else { half + hw };
    (start, end)
}

/// Nearer walls are never darker: the shade does not increase with distance
/// and always lies in `[0, 255]`.
pub proof fn lemma_shade_monotonic(d1: int, d2: int)
    requires
        0 <= d1 < d2,
    ensures
        shade_spec(d1) >= shade_spec(d2),
        0 <= shade_spec(d1) <= 255,
        0 <= shade_spec(d2) <= 255,
{
    vstd::arithmetic::div_mod::lemma_div_is_ordered(
        d1 + SHADE_STEP / 2,
        d2 + SHADE_STEP / 2,
        SHADE_STEP as int,
    );
    vstd::arithmetic::div_mod::lemma_div_pos_is_pos(d1 + SHADE_STEP / 2, SHADE_STEP as int);
}

/// Nearer walls are never shorter: the projected height does not increase
/// with distance.
pub proof fn lemma_height_monotonic(d1: int, d2: int, screen_h: int)
    requires
        0 < d1 < d2,
        0 <= screen_h,
    ensures
        projected_height_spec(d1, screen_h) >= projected_height_spec(d2, screen_h),
{
    let a = 2 * screen_h * UNIT;
    let q2 = projected_height_spec(d2, screen_h);
    vstd::arithmetic::div_mod::lemma_fundamental_div_mod(a + d2, 2 * d2);
    vstd::arithmetic::div_mod::lemma_div_pos_is_pos(a + d2, 2 * d2);
    if q2 > 0 {
        assert(2 * d2 * q2 <= a + d2) by (nonlinear_arith)
            requires a + d2 == (2 * d2) * q2 + (a + d2) % (2 * d2), (a + d2) % (2 * d2) >= 0;
        assert(2 * d1 * q2 <= a + d1) by (nonlinear_arith)
            requires 2 * d2 * q2 <= a + d2, q2 >= 1, 0 < d1 < d2;
        vstd::arithmetic::div_mod::lemma_div_is_ordered(2 * d1 * q2, a + d1, 2 * d1);
        vstd::arithmetic::div_mod::lemma_div_multiples_vanish(q2, 2 * d1);
        assert(2 * d1 * q2 == (2 * d1) * q2) by (nonlinear_arith);
    }
    vstd::arithmetic::div_mod::lemma_div_pos_is_pos(a + d1, 2 * d1);
}

} // verus!
