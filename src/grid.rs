//! The tile map: a fixed grid of open and wall cells, and lookups of
//! fixed-point positions in it. One map cell is `UNIT` position units.
use vstd::prelude::*;

verus! {

/// Position units per map cell (positions are in millionths of a cell).
pub const UNIT: i64 = 1_000_000;

/// Largest number of columns or rows of a map.
pub const MAX_MAP_DIM: usize = 1_000_000;

/// The byte that marks a wall cell in a row of map text.
pub const WALL_BYTE: u8 = 35;

/// A map as mathematics: `cells[row][col]` is true for a wall.
pub struct MapView {
    pub width: nat,
    pub height: nat,
    pub cells: Seq<Seq<bool>>,
}

impl MapView {
    pub open spec fn valid(self) -> bool {
        &&& 0 < self.width <= MAX_MAP_DIM
        &&& 0 < self.height <= MAX_MAP_DIM
        &&& self.cells.len() == self.height
        &&& forall|r: int| 0 <= r < self.height ==> #[trigger] self.cells[r].len() == self.width
    }

    pub open spec fn wall_at(self, col: int, row: int) -> bool {
        self.cells[row][col]
    }

    /// The position lies inside the map: `[0, width) x [0, height)` cells.
    pub open spec fn in_bounds(self, x: int, y: int) -> bool {
        &&& 0 <= x < self.width * UNIT
        &&& 0 <= y < self.height * UNIT
    }

    /// The cell holding a position, found by truncating it to whole cells.
    pub open spec fn wall_at_point(self, x: int, y: int) -> bool {
        self.wall_at(x / UNIT as int, y / UNIT as int)
    }

    /// The position lies inside the map, in an open cell.
    pub open spec fn open_at(self, x: int, y: int) -> bool {
        self.in_bounds(x, y) && !self.wall_at_point(x, y)
    }
}

/// The walls of one row of map text: a cell is a wall where its byte is `#`.
pub open spec fn row_walls(row: Seq<u8>) -> Seq<bool> {
    row.map_values(|b: u8| b == WALL_BYTE)
}

/// Rows of map text that make a map: at least one row, all of one nonzero
/// length, within the size limits.
pub open spec fn rows_valid(rows: Seq<Seq<u8>>) -> bool {
    &&& 0 < rows.len() <= MAX_MAP_DIM
    &&& 0 < rows[0].len() <= MAX_MAP_DIM
    &&& forall|r: int| 0 <= r < rows.len() ==> #[trigger] rows[r].len() == rows[0].len()
}

/// The map that valid rows of map text describe.
pub open spec fn map_of_rows(rows: Seq<Seq<u8>>) -> MapView {
    MapView {
        width: rows[0].len(),
        height: rows.len(),
        cells: rows.map_values(|row: Seq<u8>| row_walls(row)),
    }
}

/// An immutable grid of open and wall cells.
pub struct GridMap {
    width: usize,
    height: usize,
    cells: Vec<Vec<bool>>,
}

impl View for GridMap {
    type V = MapView;

    closed spec fn view(&self) -> MapView {
        MapView {
            width: self.width as nat,
            height: self.height as nat,
            cells: self.cells@.map_values(|row: Vec<bool>| row@),
        }
    }
}

impl GridMap {
    pub open spec fn wf(&self) -> bool {
        self@.valid()
    }

    /// Builds a map from rows of text, `#` marking a wall. `None` when there
    /// are no rows, a row is empty, the rows differ in length, or the map is
    /// larger than `MAX_MAP_DIM` in either direction.
    pub fn from_rows(rows: &Vec<Vec<u8>>) -> (r: Option<GridMap>)
        ensures
            r.is_some() == rows_valid(rows@.map_values(|row: Vec<u8>| row@)),
            r matches Some(m) ==> m.wf() && m@ == map_of_rows(
                rows@.map_values(|row: Vec<u8>| row@),
            ),
    {
        let ghost text = rows@.map_values(|row: Vec<u8>| row@);
        let height = rows.len();
        if height == 0 || height > MAX_MAP_DIM {
            return None;
        }
        let width = rows[0].len();
        if width == 0 || width > MAX_MAP_DIM {
            return None;
        }
        let mut cells: Vec<Vec<bool>> = Vec::new();
        let mut i: usize = 0;
        while i < height
            invariant
                height == rows@.len(),
                width == rows@[0]@.len(),
                text == rows@.map_values(|row: Vec<u8>| row@),
                i <= height,
                cells@.len() == i,
                forall|r: int| 0 <= r < i ==> #[trigger] rows@[r]@.len() == width,
                forall|r: int| 0 <= r < i ==> #[trigger] cells@[r]@ == row_walls(rows@[r]@),
            decreases height - i,
        {
            let row = &rows[i];
            if row.len() != width {
                assert(text[i as int].len() != text[0].len());
                return None;
            }
            let mut out: Vec<bool> = Vec::new();
            let mut j: usize = 0;
            while j < width
                invariant
                    row@.len() == width,
                    j <= width,
                    out@.len() == j,
                    forall|k: int| 0 <= k < j ==> #[trigger] out@[k] == (row@[k] == WALL_BYTE),
                decreases width - j,
            {
                out.push(row[j] == WALL_BYTE);
                j += 1;
            }
            assert(out@ =~= row_walls(row@));
            cells.push(out);
            i += 1;
        }
        let m = GridMap { width, height, cells };
        assert(m@.cells =~= map_of_rows(text).cells) by {
            assert forall|r: int| 0 <= r < height implies m@.cells[r] == map_of_rows(text).cells[r] by {
                assert(cells@[r]@ == row_walls(rows@[r]@));
            }
        }
        Some(m)
    }

    pub fn width(&self) -> (r: usize)
        ensures
            r == self@.width,
    {
        self.width
    }

    pub fn height(&self) -> (r: usize)
        ensures
            r == self@.height,
    {
        self.height
    }

    /// Whether the cell at (`col`, `row`) is a wall.
    pub fn is_wall(&self, col: usize, row: usize) -> (r: bool)
        requires
            self.wf(),
            col < self@.width,
            row < self@.height,
        ensures
            r == self@.wall_at(col as int, row as int),
    {
        proof {
            assert(self.cells@[row as int]@.len() == self@.width) by {
                assert(self@.cells[row as int] == self.cells@[row as int]@);
            }
        }
        self.cells[row][col]
    }

    /// Whether the position lies inside the map.
    pub fn in_bounds(&self, x: i64, y: i64) -> (r: bool)
        requires
            self.wf(),
        ensures
            r == self@.in_bounds(x as int, y as int),
    {
        0 <= x && x < (self.width as i64) * UNIT && 0 <= y && y < (self.height as i64) * UNIT
    }

    /// Whether the cell holding an in-bounds position is a wall.
    pub fn is_wall_at(&self, x: i64, y: i64) -> (r: bool)
        requires
            self.wf(),
            self@.in_bounds(x as int, y as int),
        ensures
            r == self@.wall_at_point(x as int, y as int),
    {
        proof {
            vstd::arithmetic::div_mod::lemma_div_is_ordered(x as int, self@.width * UNIT - 1, UNIT as int);
            vstd::arithmetic::div_mod::lemma_div_multiples_vanish_fancy((self@.width - 1) as int, UNIT - 1, UNIT as int);
            vstd::arithmetic::div_mod::lemma_div_is_ordered(y as int, self@.height * UNIT - 1, UNIT as int);
            vstd::arithmetic::div_mod::lemma_div_multiples_vanish_fancy((self@.height - 1) as int, UNIT - 1, UNIT as int);
            vstd::arithmetic::div_mod::lemma_div_pos_is_pos(x as int, UNIT as int);
            vstd::arithmetic::div_mod::lemma_div_pos_is_pos(y as int, UNIT as int);
        }
        self.is_wall((x / UNIT) as usize, (y / UNIT) as usize)
    }

    /// Whether the position lies inside the map, in an open cell; positions
    /// outside the map count as blocked.
    pub fn is_open_at(&self, x: i64, y: i64) -> (r: bool)
        requires
            self.wf(),
        ensures
            r == self@.open_at(x as int, y as int),
    {
        self.in_bounds(x, y) && !self.is_wall_at(x, y)
    }
}

} // verus!
