//! The grid map: a fixed 2D layout of visual tile identifiers with a
//! parallel collision mask, queried for walkability by tile coordinate.
//!
//! Both arrays are authored top row first, so authoring row `r` holds the
//! tiles of logical tile-y `height - 1 - r`: queries apply this vertical
//! flip, callers always speak in logical coordinates.

use vstd::prelude::*;

verus! {

/// Immutable per-frame lookup of tile content and walkability. Loaded
/// once at startup and never mutated by the movement core.
pub struct GridMap {
    /// Visual tile identifiers in authoring order (row 0 is the top of
    /// the map); opaque to the movement logic.
    pub tiles: Vec<Vec<u32>>,
    /// Collision mask of the same shape: 0 is walkable, nonzero blocks.
    pub tiles_collision: Vec<Vec<u32>>,
}

/// Every row of `rows` has exactly `width` entries.
pub open spec fn rows_rectangular(rows: Seq<Vec<u32>>, width: int) -> bool {
    forall|r: int| 0 <= r < rows.len() ==> #[trigger] rows[r]@.len() == width
}

impl GridMap {
    /// Number of tile rows.
    pub open spec fn spec_height(self) -> int {
        self.tiles_collision@.len() as int
    }

    /// Number of tile columns.
    pub open spec fn spec_width(self) -> int {
        if self.tiles_collision@.len() > 0 {
            self.tiles_collision@[0]@.len() as int
        } else {
            0
        }
    }

    /// Well-formedness: both arrays are rectangular, share the same
    /// nonzero dimensions. Constructors establish this and no method
    /// mutates the map.
    pub open spec fn wf(self) -> bool {
        &&& 0 < self.spec_height()
        &&& 0 < self.spec_width()
        &&& self.tiles@.len() == self.spec_height()
        &&& rows_rectangular(self.tiles_collision@, self.spec_width())
        &&& rows_rectangular(self.tiles@, self.spec_width())
    }

    /// The coordinate lies on the grid.
    pub open spec fn spec_in_bounds(self, x: int, y: int) -> bool {
        0 <= x < self.spec_width() && 0 <= y < self.spec_height()
    }

    /// Walkability of logical tile (x, y): on the grid and not blocked by
    /// the collision mask, read through the vertical flip.
    pub open spec fn spec_walkable(self, x: int, y: int) -> bool {
        self.spec_in_bounds(x, y)
            && self.tiles_collision@[self.spec_height() - 1 - y]@[x] == 0
    }

    /// Visual tile identifier at logical tile (x, y), read through the
    /// vertical flip.
    pub open spec fn spec_tile_id(self, x: int, y: int) -> u32 {
        self.tiles@[self.spec_height() - 1 - y]@[x]
    }

    /// Builds a map from authored tile and collision arrays. Succeeds
    /// exactly when both arrays are rectangular with the same nonzero
    /// dimensions; a shape mismatch is a content fault caught here, at
    /// load time, never tolerated per query.
    pub fn new(tiles: Vec<Vec<u32>>, tiles_collision: Vec<Vec<u32>>) -> (r: Option<GridMap>)
        ensures
            r is Some <==> {
                &&& tiles@.len() == tiles_collision@.len()
                &&& tiles_collision@.len() > 0
                &&& tiles_collision@[0]@.len() > 0
                &&& rows_rectangular(tiles_collision@, tiles_collision@[0]@.len() as int)
                &&& rows_rectangular(tiles@, tiles_collision@[0]@.len() as int)
            },
            r matches Some(m) ==> m.tiles@ == tiles@ && m.tiles_collision@ == tiles_collision@
                && m.wf(),
    {
        if tiles_collision.len() == 0 || tiles.len() != tiles_collision.len() {
            return None;
        }
        let width: usize = tiles_collision[0].len();
        if width == 0 {
            return None;
        }
        let height: usize = tiles_collision.len();
        let mut r: usize = 0;
        while r < height
            invariant
                height == tiles_collision@.len(),
                height == tiles@.len(),
                r <= height,
                width == tiles_collision@[0]@.len(),
                forall|i: int| 0 <= i < r ==> #[trigger] tiles_collision@[i]@.len() == width,
                forall|i: int| 0 <= i < r ==> #[trigger] tiles@[i]@.len() == width,
            decreases height - r,
        {
            if tiles_collision[r].len() != width || tiles[r].len() != width {
                return None;
            }
            r = r + 1;
        }
        Some(GridMap { tiles, tiles_collision })
    }

    /// Width of the map in tiles.
    pub fn width(&self) -> (w: usize)
        requires
            self.wf(),
        ensures
            w == self.spec_width(),
    {
        self.tiles_collision[0].len()
    }

    /// Height of the map in tiles.
    pub fn height(&self) -> (h: usize)
        requires
            self.wf(),
        ensures
            h == self.spec_height(),
    {
        self.tiles_collision.len()
    }

    /// Whether logical tile (x, y) can be entered. A coordinate off the
    /// grid is reported as not walkable rather than a fault; the query is
    /// pure and has no side effect.
    pub fn is_walkable(&self, x: u32, y: u32) -> (r: bool)
        requires
            self.wf(),
        ensures
            r == self.spec_walkable(x as int, y as int),
    {
        let height: usize = self.tiles_collision.len();
        let width: usize = self.tiles_collision[0].len();
        if (x as usize) < width && (y as usize) < height {
            self.tiles_collision[height - 1 - (y as usize)][x as usize] == 0
        } else {
            false
        }
    }

    /// Visual tile identifier of logical tile (x, y), or nothing when the
    /// coordinate is off the grid.
    pub fn tile_id_at(&self, x: u32, y: u32) -> (r: Option<u32>)
        requires
            self.wf(),
        ensures
            r is Some <==> self.spec_in_bounds(x as int, y as int),
            r matches Some(id) ==> id == self.spec_tile_id(x as int, y as int),
    {
        let height: usize = self.tiles_collision.len();
        let width: usize = self.tiles_collision[0].len();
        if (x as usize) < width && (y as usize) < height {
            Some(self.tiles[height - 1 - (y as usize)][x as usize])
        } else {
            None
        }
    }
}

/// Collision mask of the bundled rogue layout, by authoring row and
/// column: the two outermost rings of tiles block, the 12×12 interior is
/// open.
pub open spec fn rogue_collision_at(r: int, c: int) -> u32 {
    if 2 <= r <= 13 && 2 <= c <= 13 {
        0u32
    } else {
        1u32
    }
}

/// One fully blocked authoring row of the bundled layout.
fn wall_row() -> (v: Vec<u32>)
    ensures
        v@.len() == 16,
        forall|i: int| 0 <= i < 16 ==> v@[i] == 1u32,
{
    let v: Vec<u32> = vec![1u32; 16];
    v
}

/// One interior authoring row of the bundled layout: open in columns
/// 2 through 13, blocked at both edges.
fn interior_row() -> (v: Vec<u32>)
    ensures
        v@.len() == 16,
        forall|i: int| 0 <= i < 16 ==> v@[i] == (if 2 <= i <= 13 { 0u32 } else { 1u32 }),
{
    let v: Vec<u32> = vec![1, 1, 0, 0, 0, 0, 0, 0, 0, 0, 0, 0, 0, 0, 1, 1];
    v
}

impl GridMap {
    /// The bundled 16×16 rogue layout: a walled room whose border two
    /// tiles deep is blocked on every side and whose 12×12 interior,
    /// logical tiles 2 through 13 on both axes, is walkable.
    pub fn rogue_layout() -> (m: GridMap)
        ensures
            m.wf(),
            m.spec_width() == 16,
            m.spec_height() == 16,
            forall|x: int, y: int| m.spec_walkable(x, y) <==> (2 <= x <= 13 && 2 <= y <= 13),
    {
        let tiles: Vec<Vec<u32>> = vec![
            vec![0, 0, 0, 0, 0, 0, 0, 0, 0, 0, 0, 0, 0, 0, 0, 0],
            vec![0, 1, 2, 2, 2, 2, 2, 2, 2, 2, 2, 2, 2, 2, 3, 0],
            vec![0, 13, 14, 14, 14, 14, 14, 14, 14, 14, 14, 14, 14, 14, 15, 0],
            vec![0, 13, 50, 50, 50, 50, 50, 50, 50, 50, 50, 50, 50, 52, 15, 0],
            vec![0, 13, 48, 48, 48, 48, 48, 48, 48, 48, 48, 48, 48, 50, 15, 0],
            vec![0, 13, 48, 48, 48, 48, 48, 48, 48, 48, 48, 48, 48, 50, 15, 0],
            vec![0, 13, 48, 48, 48, 48, 48, 48, 48, 48, 48, 48, 48, 50, 15, 0],
            vec![0, 13, 48, 48, 48, 48, 48, 48, 48, 48, 48, 48, 48, 50, 15, 0],
            vec![0, 13, 48, 48, 48, 48, 48, 48, 48, 48, 48, 48, 48, 50, 15, 0],
            vec![0, 13, 48, 48, 48, 48, 48, 48, 48, 48, 48, 48, 48, 50, 15, 0],
            vec![0, 13, 48, 48, 48, 48, 48, 48, 48, 48, 48, 48, 48, 50, 15, 0],
            vec![0, 13, 48, 48, 48, 48, 48, 48, 48, 48, 48, 48, 48, 50, 15, 0],
            vec![0, 13, 48, 48, 48, 48, 48, 48, 48, 48, 48, 48, 48, 50, 15, 0],
            vec![0, 13, 48, 48, 48, 48, 48, 48, 48, 48, 48, 48, 48, 50, 15, 0],
            vec![0, 25, 26, 26, 26, 26, 26, 26, 26, 26, 26, 26, 26, 26, 27, 0],
            vec![0, 0, 0, 0, 0, 0, 0, 0, 0, 0, 0, 0, 0, 0, 0, 0],
        ];
        let mut tiles_collision: Vec<Vec<u32>> = Vec::new();
        let mut r: usize = 0;
        while r < 16
            invariant
                tiles_collision@.len() == r,
                r <= 16,
                forall|i: int| 0 <= i < r ==> #[trigger] tiles_collision@[i]@.len() == 16,
                forall|i: int, c: int|
                    0 <= i < r && 0 <= c < 16 ==> #[trigger] tiles_collision@[i]@[c]
                        == rogue_collision_at(i, c),
            decreases 16 - r,
        {
            if 2 <= r && r <= 13 {
                tiles_collision.push(interior_row());
            } else {
                tiles_collision.push(wall_row());
            }
            r = r + 1;
        }
        let m = GridMap { tiles, tiles_collision };
        proof {
            assert forall|x: int, y: int|
                m.spec_walkable(x, y) <==> (2 <= x <= 13 && 2 <= y <= 13) by {
                if 0 <= x < 16 && 0 <= y < 16 {
                    assert(m.tiles_collision@[15 - y]@[x] == rogue_collision_at(15 - y, x));
                }
            }
        }
        m
    }
}

/// Repeated walkability queries with no map mutation agree: the result is
/// a function of the map value and the coordinate alone.
pub proof fn lemma_walkable_idempotent(m1: GridMap, m2: GridMap, x: int, y: int)
    requires
        m1 == m2,
    ensures
        m1.spec_walkable(x, y) == m2.spec_walkable(x, y),
{
}

} // verus!
