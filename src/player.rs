//! The player's pose and the movement rules that keep it in open cells.
use crate::angle::{norm, normalize, rotate, valid_heading, MAX_DELTA};
use crate::grid::{GridMap, MapView, UNIT};
use vstd::prelude::*;

verus! {

/// Length of one forward or backward move, 0.1 cell, in position units.
pub const MOVE_STEP: i64 = 100_000;

/// Position in position units and heading in microradians.
#[derive(Clone, Copy, Debug, PartialEq, Eq)]
pub struct Pose {
    pub x: i64,
    pub y: i64,
    pub heading: i64,
}

impl Pose {
    /// The pose stands in an open cell of `m`, with a normalized heading.
    pub open spec fn valid_on(self, m: MapView) -> bool {
        m.open_at(self.x as int, self.y as int) && valid_heading(self.heading as int)
    }

    /// A pose at (`x`, `y`) facing `heading` (normalized); `None` unless the
    /// position lies in an open cell of the map.
    pub fn new(map: &GridMap, x: i64, y: i64, heading: i64) -> (r: Option<Pose>)
        requires
            map.wf(),
        ensures
            r is Some <==> map@.open_at(x as int, y as int),
            r matches Some(p) ==> p.x == x && p.y == y && p.heading == norm(heading as int)
                && p.valid_on(map@),
    {
        if map.is_open_at(x, y) {
            Some(Pose { x, y, heading: normalize(heading) })
        } else {
            None
        }
    }

    /// Turns by `delta` microradians; rotation is never blocked.
    pub fn turn(&mut self, delta: i64)
        requires
            valid_heading(old(self).heading as int),
            -MAX_DELTA <= delta <= MAX_DELTA,
        ensures
            final(self).heading == norm(old(self).heading + delta),
            final(self).x == old(self).x,
            final(self).y == old(self).y,
    {
        self.heading = rotate(self.heading, delta);
    }

    /// Moves by (`dx`, `dy`) when the candidate position lies in an open
    /// cell of the map; otherwise the position stays as it was. Returns
    /// whether the move was made.
    pub fn try_move(&mut self, map: &GridMap, dx: i64, dy: i64) -> (moved: bool)
        requires
            map.wf(),
            map@.in_bounds(old(self).x as int, old(self).y as int),
            -UNIT <= dx <= UNIT,
            -UNIT <= dy <= UNIT,
        ensures
            moved == map@.open_at(old(self).x + dx, old(self).y + dy),
            moved ==> final(self).x == old(self).x + dx && final(self).y == old(self).y + dy,
            !moved ==> final(self).x == old(self).x && final(self).y == old(self).y,
            final(self).heading == old(self).heading,
            old(self).valid_on(map@) ==> final(self).valid_on(map@),
    {
        let nx = self.x + dx;
        let ny = self.y + dy;
        if map.is_open_at(nx, ny) {
            self.x = nx;
            self.y = ny;
            true
        } else {
            false
        }
    }
}

} // verus!
