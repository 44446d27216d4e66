//! Fixed-step ray marching through the tile map.
use crate::grid::{GridMap, MapView, UNIT};
use vstd::prelude::*;

verus! {

/// Length of one marching step, 0.05 cell, in position units.
pub const RAY_STEP: i64 = 50_000;

/// Most steps a ray takes before it counts as a miss.
pub const MAX_RAY_STEPS: u32 = 100;

/// `o` with every hit index moved on by `i` steps.
pub open spec fn shift(i: nat, o: Option<nat>) -> Option<nat> {
    match o {
        Some(k) => Some(k + i),
        None => None,
    }
}

/// Marching from (`x`, `y`) by (`sx`, `sy`) for at most `fuel` steps:
/// `Some(k)` when the `k`-th step is the first to land in a wall cell,
/// `None` when a step leaves the map first or the steps run out.
pub open spec fn march(m: MapView, x: int, y: int, sx: int, sy: int, fuel: nat) -> Option<nat>
    decreases fuel,
{
    if fuel == 0 {
        None
    } else if !m.in_bounds(x + sx, y + sy) {
        None
    } else if m.wall_at_point(x + sx, y + sy) {
        Some(1)
    } else {
        shift(1, march(m, x + sx, y + sy, sx, sy, (fuel - 1) as nat))
    }
}

/// Whatever a march reports: a hit comes within the step budget, at a step
/// whose position lies inside the map in a wall cell; a march never looks
/// up a cell outside the map. This holds for every start in an open cell
/// and every step vector.
pub proof fn lemma_march_bounded(m: MapView, x: int, y: int, sx: int, sy: int, fuel: nat)
    requires
        m.valid(),
        m.open_at(x, y),
    ensures
        march(m, x, y, sx, sy, fuel) matches Some(k) ==> {
            &&& 1 <= k <= fuel
            &&& m.in_bounds(x + k * sx, y + k * sy)
            &&& m.wall_at_point(x + k * sx, y + k * sy)
        },
    decreases fuel,
{
    if fuel > 0 && m.in_bounds(x + sx, y + sy) && !m.wall_at_point(x + sx, y + sy) {
        lemma_march_bounded(m, x + sx, y + sy, sx, sy, (fuel - 1) as nat);
        if let Some(j) = march(m, x + sx, y + sy, sx, sy, (fuel - 1) as nat) {
            assert(x + sx + j * sx == x + (j + 1) * sx) by (nonlinear_arith);
            assert(y + sy + j * sy == y + (j + 1) * sy) by (nonlinear_arith);
        }
    }
}

/// Casts one ray from (`x`, `y`), advancing by (`sx`, `sy`) per step for at
/// most `max_steps` steps. Returns the number of steps to the first wall
/// cell, or `None` for a miss.
pub fn cast_ray(map: &GridMap, x: i64, y: i64, sx: i64, sy: i64, max_steps: u32) -> (r: Option<u32>)
    requires
        map.wf(),
        map@.in_bounds(x as int, y as int),
        -UNIT <= sx <= UNIT,
        -UNIT <= sy <= UNIT,
    ensures
        r is None <==> march(map@, x as int, y as int, sx as int, sy as int, max_steps as nat) is None,
        r matches Some(k) ==> march(map@, x as int, y as int, sx as int, sy as int, max_steps as nat)
            == Some(k as nat),
{
    let ghost total = march(map@, x as int, y as int, sx as int, sy as int, max_steps as nat);
    let mut cx = x;
    let mut cy = y;
    let mut i: u32 = 0;
    while i < max_steps
        invariant
            map.wf(),
            map@.in_bounds(cx as int, cy as int),
            -UNIT <= sx <= UNIT,
            -UNIT <= sy <= UNIT,
            i <= max_steps,
            total == march(map@, x as int, y as int, sx as int, sy as int, max_steps as nat),
            total == shift(
                i as nat,
                march(map@, cx as int, cy as int, sx as int, sy as int, (max_steps - i) as nat),
            ),
        decreases max_steps - i,
    {
        let nx = cx + sx;
        let ny = cy + sy;
        if !map.in_bounds(nx, ny) {
            return None;
        }
        if map.is_wall_at(nx, ny) {
            return Some(i + 1);
        }
        cx = nx;
        cy = ny;
        i += 1;
    }
    None
}

} // verus!
