//! The grid map: square cells addressed by integer coordinates, with a
//! wall flag per cell and bounds centered on the origin.

use vstd::prelude::*;

use std::collections::HashMap;

use crate::rng::random_in_range;

verus! {

/// Width and height of one grid cell, in subpixel world units
/// (one pixel is [`crate::geometry::SUBPIXELS`] units).
pub const CELL_SIZE: i64 = 30_000;

/// Integer coordinates of one grid cell. Two coordinates are equal
/// exactly when both components match.
#[derive(Debug, Default, Copy, Clone, Ord, PartialOrd, Eq, PartialEq, Hash, Structural)]
pub struct CellCoordinate {
    pub x: i32,
    pub y: i32,
}

/// Packs a cell coordinate into a single `u64` hash key: each component is
/// shifted into the non-negative range and the two halves never overlap.
pub open spec fn spec_cell_key(c: CellCoordinate) -> u64 {
    ((c.x as int + 0x8000_0000) * 0x1_0000_0000 + (c.y as int + 0x8000_0000)) as u64
}

/// Distinct cells pack to distinct keys, so a map keyed by `spec_cell_key`
/// holds at most one entry per cell.
pub proof fn lemma_cell_key_injective(a: CellCoordinate, b: CellCoordinate)
    ensures
        (spec_cell_key(a) == spec_cell_key(b)) <==> (a == b),
{
    if spec_cell_key(a) == spec_cell_key(b) {
        let xa = a.x as int + 0x8000_0000;
        let ya = a.y as int + 0x8000_0000;
        let xb = b.x as int + 0x8000_0000;
        let yb = b.y as int + 0x8000_0000;
        assert(xa * 0x1_0000_0000 + ya == xb * 0x1_0000_0000 + yb) by {
            assert(xa * 0x1_0000_0000 <= (0x1_0000_0000 - 1) * 0x1_0000_0000);
            assert(xb * 0x1_0000_0000 <= (0x1_0000_0000 - 1) * 0x1_0000_0000);
            assert(0 <= xa * 0x1_0000_0000);
            assert(0 <= xb * 0x1_0000_0000);
        }
        assert(xa == xb && ya == yb) by (nonlinear_arith)
            requires
                xa * 0x1_0000_0000 + ya == xb * 0x1_0000_0000 + yb,
                0 <= ya < 0x1_0000_0000,
                0 <= yb < 0x1_0000_0000,
        ;
    }
}

/// Computes the packed hash key of a cell.
pub fn cell_key(c: CellCoordinate) -> (k: u64)
    ensures
        k == spec_cell_key(c),
{
    let xu: u64 = ((c.x as i64) + 0x8000_0000) as u64;
    let yu: u64 = ((c.y as i64) + 0x8000_0000) as u64;
    xu * 0x1_0000_0000 + yu
}

/// The grid map: per-cell wall flags (a cell that was never set is open)
/// and the map bounds in cells, centered on the origin.
#[derive(Debug)]
pub struct GridMap {
    pub width: u32,
    pub height: u32,
    pub walls: HashMap<u64, bool>,
}

impl GridMap {
    pub open spec fn half_width(self) -> int {
        self.width as int / 2
    }

    pub open spec fn half_height(self) -> int {
        self.height as int / 2
    }

    /// Whether the cell currently holds a wall; a cell with no stored
    /// flag is open.
    pub open spec fn wall_at(self, c: CellCoordinate) -> bool {
        &&& self.walls@.contains_key(spec_cell_key(c))
        &&& self.walls@[spec_cell_key(c)]
    }

    /// Whether the position `(x, y)` lies within the map bounds:
    /// both components within plus or minus half the map size, inclusive.
    pub open spec fn spec_in_bounds(self, x: int, y: int) -> bool {
        &&& -self.half_width() <= x <= self.half_width()
        &&& -self.half_height() <= y <= self.half_height()
    }

    pub open spec fn spec_in_map(self, c: CellCoordinate) -> bool {
        self.spec_in_bounds(c.x as int, c.y as int)
    }

    /// Whether the position is in the map and not walled. Only positions
    /// within the bounds are tested, so the coordinate cast is exact.
    pub open spec fn open_at(self, x: int, y: int) -> bool {
        &&& self.spec_in_bounds(x, y)
        &&& !self.wall_at(CellCoordinate { x: x as i32, y: y as i32 })
    }

    /// The neighbors of a cell: the four orthogonally adjacent cells, kept
    /// only if in the map and unwalled, in the fixed order +x, -x, +y, -y.
    pub open spec fn spec_neighbors(self, c: CellCoordinate) -> Seq<CellCoordinate> {
        let s0 = Seq::<CellCoordinate>::empty();
        let s1 = if self.open_at(c.x + 1, c.y as int) {
            s0.push(CellCoordinate { x: (c.x + 1) as i32, y: c.y })
        } else {
            s0
        };
        let s2 = if self.open_at(c.x - 1, c.y as int) {
            s1.push(CellCoordinate { x: (c.x - 1) as i32, y: c.y })
        } else {
            s1
        };
        let s3 = if self.open_at(c.x as int, c.y + 1) {
            s2.push(CellCoordinate { x: c.x, y: (c.y + 1) as i32 })
        } else {
            s2
        };
        if self.open_at(c.x as int, c.y - 1) {
            s3.push(CellCoordinate { x: c.x, y: (c.y - 1) as i32 })
        } else {
            s3
        }
    }

    /// A map with no walls at all.
    pub open spec fn no_walls(self) -> bool {
        forall|c: CellCoordinate| !self.wall_at(c)
    }

    /// All four positions adjacent to `c` lie within the map bounds.
    pub open spec fn is_interior(self, c: CellCoordinate) -> bool {
        &&& self.spec_in_bounds(c.x + 1, c.y as int)
        &&& self.spec_in_bounds(c.x - 1, c.y as int)
        &&& self.spec_in_bounds(c.x as int, c.y + 1)
        &&& self.spec_in_bounds(c.x as int, c.y - 1)
    }

    /// Creates an empty map of the given size in cells: every cell open.
    pub fn new(width: u32, height: u32) -> (m: GridMap)
        ensures
            m.width == width,
            m.height == height,
            forall|c: CellCoordinate| !m.wall_at(c),
    {
        GridMap { width, height, walls: HashMap::new() }
    }

    /// Returns the stored wall flag of the cell, or `false` if none was
    /// ever set. Out-of-range cells simply answer `false`.
    pub fn has_wall(&self, coordinate: &CellCoordinate) -> (r: bool)
        ensures
            r == self.wall_at(*coordinate),
    {
        let k = cell_key(*coordinate);
        match self.walls.get(&k) {
            Some(answer) => *answer,
            None => false,
        }
    }

    /// Sets the wall flag of one cell; every other cell keeps its flag, so
    /// a later query returns the last value stored here.
    pub fn set_wall(&mut self, coordinate: CellCoordinate, new_value: bool)
        ensures
            final(self).width == old(self).width,
            final(self).height == old(self).height,
            forall|c: CellCoordinate|
                final(self).wall_at(c) == if c == coordinate {
                    new_value
                } else {
                    old(self).wall_at(c)
                },
    {
        let k = cell_key(coordinate);
        self.walls.insert(k, new_value);
        proof {
            assert forall|c: CellCoordinate|
                final(self).wall_at(c) == if c == coordinate {
                    new_value
                } else {
                    old(self).wall_at(c)
                } by {
                lemma_cell_key_injective(c, coordinate);
            }
        }
    }

    /// Bounds check: both components within plus or minus half the map
    /// size, inclusive.
    pub fn in_map(&self, coordinate: CellCoordinate) -> (r: bool)
        ensures
            r == self.spec_in_map(coordinate),
    {
        let half_width: i32 = (self.width / 2) as i32;
        let half_height: i32 = (self.height / 2) as i32;
        (-half_width <= coordinate.x) && (coordinate.x <= half_width) && (-half_height
            <= coordinate.y) && (coordinate.y <= half_height)
    }

    /// The four orthogonal neighbors intersected with in-map and
    /// not-walled, in the order +x, -x, +y, -y.
    pub fn get_neighbors(&self, coordinate: CellCoordinate) -> (neighbors: Vec<CellCoordinate>)
        ensures
            neighbors@ == self.spec_neighbors(coordinate),
    {
        let mut output: Vec<CellCoordinate> = Vec::new();
        self.push_if_open(&mut output, coordinate.x as i64 + 1, coordinate.y as i64);
        self.push_if_open(&mut output, coordinate.x as i64 - 1, coordinate.y as i64);
        self.push_if_open(&mut output, coordinate.x as i64, coordinate.y as i64 + 1);
        self.push_if_open(&mut output, coordinate.x as i64, coordinate.y as i64 - 1);
        output
    }

    /// Appends the cell at `(x, y)` if that position is in the map and
    /// unwalled; otherwise leaves the vector as it is.
    fn push_if_open(&self, output: &mut Vec<CellCoordinate>, x: i64, y: i64)
        ensures
            final(output)@ == if self.open_at(x as int, y as int) {
                old(output)@.push(CellCoordinate { x: x as i32, y: y as i32 })
            } else {
                old(output)@
            },
    {
        let half_width: i64 = (self.width / 2) as i64;
        let half_height: i64 = (self.height / 2) as i64;
        if -half_width <= x && x <= half_width && -half_height <= y && y <= half_height {
            let cell = CellCoordinate { x: x as i32, y: y as i32 };
            if !self.has_wall(&cell) {
                output.push(cell);
            }
        }
    }
}

/// The set of all cells within bounds of half-width `hw` and half-height
/// `hh`: the grid's cells.
pub open spec fn rect_cells(hw: int, hh: int) -> Set<CellCoordinate> {
    Set::new(|c: CellCoordinate| -hw <= c.x <= hw && -hh <= c.y <= hh)
}

/// One row of the cell rectangle.
spec fn row_cells(hw: int, y: int) -> Set<CellCoordinate> {
    Set::new(|c: CellCoordinate| -hw <= c.x <= hw && c.y == y)
}

/// A row of the rectangle holds exactly `2 * hw + 1` cells.
proof fn lemma_row_finite(hw: int, y: int)
    requires
        0 <= hw <= 0x7fff_ffff,
        -0x8000_0000 <= y <= 0x7fff_ffff,
    ensures
        row_cells(hw, y).finite(),
        row_cells(hw, y).len() == 2 * hw + 1,
    decreases hw,
{
    if hw == 0 {
        assert(row_cells(0, y) =~= Set::empty().insert(CellCoordinate { x: 0, y: y as i32 }));
    } else {
        lemma_row_finite(hw - 1, y);
        assert(row_cells(hw, y) =~= row_cells(hw - 1, y).insert(
            CellCoordinate { x: hw as i32, y: y as i32 },
        ).insert(CellCoordinate { x: (-hw) as i32, y: y as i32 }));
    }
}

/// The grid holds exactly `(2 * hw + 1) * (2 * hh + 1)` cells.
pub proof fn lemma_rect_finite(hw: int, hh: int)
    requires
        0 <= hw <= 0x7fff_ffff,
        0 <= hh <= 0x7fff_ffff,
    ensures
        rect_cells(hw, hh).finite(),
        rect_cells(hw, hh).len() == (2 * hw + 1) * (2 * hh + 1),
    decreases hh,
{
    if hh == 0 {
        assert(rect_cells(hw, 0) =~= row_cells(hw, 0));
        lemma_row_finite(hw, 0);
        assert((2 * hw + 1) * (2 * hh + 1) == 2 * hw + 1) by (nonlinear_arith)
            requires
                hh == 0,
        ;
    } else {
        lemma_rect_finite(hw, hh - 1);
        lemma_row_finite(hw, hh);
        lemma_row_finite(hw, -hh);
        let rows = row_cells(hw, hh) + row_cells(hw, -hh);
        assert(row_cells(hw, hh).disjoint(row_cells(hw, -hh)));
        vstd::set_lib::lemma_set_disjoint_lens(row_cells(hw, hh), row_cells(hw, -hh));
        assert(rect_cells(hw, hh - 1).disjoint(rows));
        vstd::set_lib::lemma_set_disjoint_lens(rect_cells(hw, hh - 1), rows);
        assert(rect_cells(hw, hh) =~= rect_cells(hw, hh - 1) + rows);
        assert(rows.len() == 2 * (2 * hw + 1));
        assert(rect_cells(hw, hh).len() == rect_cells(hw, hh - 1).len() + rows.len());
        assert((2 * hw + 1) * (2 * (hh - 1) + 1) + (2 * (2 * hw + 1)) == (2 * hw + 1) * (2 * hh
            + 1)) by (nonlinear_arith);
        assert(rect_cells(hw, hh).len() == (2 * hw + 1) * (2 * hh + 1));
    }
}

/// Scatters random wall strokes over the map: a batch of short runs of
/// walled cells at random spots, after which the cells around the origin
/// are cleared so the base area always stays open.
pub fn generate_walls(map: &mut GridMap)
    requires
        2 <= old(map).width <= 2_000_000,
        2 <= old(map).height <= 2_000_000,
    ensures
        final(map).width == old(map).width,
        final(map).height == old(map).height,
        forall|c: CellCoordinate| -2 <= c.x <= 1 && -2 <= c.y <= 1 ==> !final(map).wall_at(c),
{
    let half_width: i64 = (map.width / 2) as i64;
    let half_height: i64 = (map.height / 2) as i64;
    let mut stroke: u32 = 0;
    while stroke < 99
        invariant
            map.width == old(map).width,
            map.height == old(map).height,
            1 <= half_width <= 1_000_000,
            1 <= half_height <= 1_000_000,
        decreases 99 - stroke,
    {
        let x = random_in_range(-half_width, half_width);
        let y = random_in_range(-half_height, half_height);
        let dx = random_in_range(0, 4);
        let dy = random_in_range(0, 4);
        let mut cell_x = x;
        while cell_x < x + dx
            invariant
                map.width == old(map).width,
                map.height == old(map).height,
                -1_000_000 <= x <= 1_000_000,
                -1_000_000 <= y <= 1_000_000,
                x <= cell_x,
                0 <= dx < 4,
            decreases x + dx - cell_x,
        {
            map.set_wall(CellCoordinate { x: cell_x as i32, y: y as i32 }, true);
            cell_x = cell_x + 1;
        }
        let mut cell_y = y;
        while cell_y < y + dy
            invariant
                map.width == old(map).width,
                map.height == old(map).height,
                -1_000_000 <= x <= 1_000_000,
                -1_000_000 <= y <= 1_000_000,
                y <= cell_y,
                0 <= dy < 4,
            decreases y + dy - cell_y,
        {
            map.set_wall(CellCoordinate { x: x as i32, y: cell_y as i32 }, true);
            cell_y = cell_y + 1;
        }
        stroke = stroke + 1;
    }
    let mut cx: i32 = -2;
    while cx < 2
        invariant
            map.width == old(map).width,
            map.height == old(map).height,
            -2 <= cx <= 2,
            forall|c: CellCoordinate| -2 <= c.x < cx && -2 <= c.y <= 1 ==> !map.wall_at(c),
        decreases 2 - cx,
    {
        let mut cy: i32 = -2;
        while cy < 2
            invariant
                map.width == old(map).width,
                map.height == old(map).height,
                -2 <= cx <= 1,
                -2 <= cy <= 2,
                forall|c: CellCoordinate| -2 <= c.x < cx && -2 <= c.y <= 1 ==> !map.wall_at(c),
                forall|c: CellCoordinate| c.x == cx && -2 <= c.y < cy ==> !map.wall_at(c),
            decreases 2 - cy,
        {
            map.set_wall(CellCoordinate { x: cx, y: cy }, false);
            cy = cy + 1;
        }
        cx = cx + 1;
    }
}

/// On a map with no walls, a cell whose four adjacent positions all lie in
/// the map has exactly four neighbors.
pub proof fn lemma_neighbors_interior(m: GridMap, c: CellCoordinate)
    requires
        m.no_walls(),
        m.is_interior(c),
    ensures
        m.spec_neighbors(c).len() == 4,
{
}

/// Whatever cell a neighbor list holds lies in the map and is unwalled.
pub proof fn lemma_neighbor_open(m: GridMap, p: CellCoordinate, c: CellCoordinate)
    requires
        m.spec_neighbors(p).contains(c),
    ensures
        m.spec_in_map(c),
        !m.wall_at(c),
{
    let s = m.spec_neighbors(p);
    let j = choose|j: int| 0 <= j < s.len() && s[j] == c;
}

/// A cell whose four adjacent positions all lie outside the map has no
/// neighbors at all.
pub proof fn lemma_neighbors_outside(m: GridMap, c: CellCoordinate)
    requires
        !m.spec_in_bounds(c.x + 1, c.y as int),
        !m.spec_in_bounds(c.x - 1, c.y as int),
        !m.spec_in_bounds(c.x as int, c.y + 1),
        !m.spec_in_bounds(c.x as int, c.y - 1),
    ensures
        m.spec_neighbors(c).len() == 0,
{
}

} // verus!
