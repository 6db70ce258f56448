//! The dungeon grid and the rectangles rooms are made of.

use vstd::prelude::*;

verus! {

/// Width of the dungeon grid, in cells.
pub const MAP_WIDTH: i32 = 80;

/// Height of the dungeon grid, in cells.
pub const MAP_HEIGHT: i32 = 43;

/// One cell of the dungeon grid.
#[derive(Clone, Copy, Debug, PartialEq, Eq, Structural)]
pub struct Tile {
    pub blocked: bool,
    pub block_sight: bool,
    pub explored: bool,
}

impl Tile {
    /// A floor cell: it blocks neither movement nor sight.
    pub fn empty() -> (t: Tile)
        ensures
            t == (Tile { blocked: false, block_sight: false, explored: false }),
    {
        Tile { blocked: false, block_sight: false, explored: false }
    }

    /// A wall cell: it blocks movement and sight.
    pub fn wall() -> (t: Tile)
        ensures
            t == (Tile { blocked: true, block_sight: true, explored: false }),
    {
        Tile { blocked: true, block_sight: true, explored: false }
    }
}

/// The grid, indexed by column and then by row.
pub type TileMap = Vec<Vec<Tile>>;

/// The quotient of `a` by two, rounded towards zero.
pub open spec fn half(a: int) -> int {
    if a >= 0 {
        a / 2
    } else {
        -((-a) / 2)
    }
}

/// A rectangle on the grid, given by two opposite corners.
#[derive(Clone, Copy, Debug, PartialEq, Eq, Structural)]
pub struct Rect {
    pub x1: i32,
    pub y1: i32,
    pub x2: i32,
    pub y2: i32,
}

impl Rect {
    /// The midpoint of the rectangle.
    pub open spec fn middle(self) -> (int, int) {
        (half(self.x1 + self.x2), half(self.y1 + self.y2))
    }

    /// Whether the two rectangles share a point, borders included.
    pub open spec fn overlaps(self, other: Rect) -> bool {
        self.x1 <= other.x2 && self.x2 >= other.x1 && self.y1 <= other.y2 && self.y2 >= other.y1
    }

    /// The rectangle with corner `(x, y)`, width `w` and height `h`.
    pub fn new(x: i32, y: i32, w: i32, h: i32) -> (r: Rect)
        requires
            i32::MIN <= x + w <= i32::MAX,
            i32::MIN <= y + h <= i32::MAX,
        ensures
            r == (Rect { x1: x, y1: y, x2: (x + w) as i32, y2: (y + h) as i32 }),
    {
        Rect { x1: x, y1: y, x2: x + w, y2: y + h }
    }

    /// The midpoint of the rectangle, each coordinate rounded towards zero.
    pub fn center(&self) -> (c: (i32, i32))
        requires
            i32::MIN <= self.x1 + self.x2 <= i32::MAX,
            i32::MIN <= self.y1 + self.y2 <= i32::MAX,
        ensures
            (c.0 as int, c.1 as int) == self.middle(),
    {
        let center_x = (self.x1 + self.x2) / 2;
        let center_y = (self.y1 + self.y2) / 2;
        (center_x, center_y)
    }

    /// Whether the two rectangles share a point, borders included.
    pub fn intersects_with(&self, other: &Rect) -> (b: bool)
        ensures
            b == self.overlaps(*other),
    {
        (self.x1 <= other.x2) && (self.x2 >= other.x1) && (self.y1 <= other.y2) && (self.y2
            >= other.y1)
    }
}

} // verus!

verus! {

/// Whether `(x, y)` is a cell of the grid.
pub open spec fn in_grid(map: Seq<Seq<Tile>>, x: int, y: int) -> bool {
    0 <= x < map.len() && 0 <= y < map[x].len()
}

/// Whether movement onto `(x, y)` is barred by the grid: the cell is blocked,
/// or there is no such cell.
pub open spec fn wall_at(map: Seq<Seq<Tile>>, x: int, y: int) -> bool {
    !in_grid(map, x, y) || map[x][y].blocked
}

/// Whether the grid has `width` columns of `height` cells each.
pub open spec fn grid_shaped(map: Seq<Seq<Tile>>, width: int, height: int) -> bool {
    map.len() == width && forall|x: int| 0 <= x < width ==> (#[trigger] map[x]).len() == height
}

} // verus!
