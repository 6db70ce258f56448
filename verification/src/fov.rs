//! The visibility field: which cells are seen at the moment, and the
//! marking of seen cells as explored.

use vstd::prelude::*;
use crate::entity::grid_view;
use crate::tile::{in_grid, Tile, TileMap};

verus! {

/// The cells that are visible at the moment, by column and row.
#[derive(Debug)]
pub struct FovMap {
    pub visible: Vec<Vec<bool>>,
}

impl View for FovMap {
    type V = Seq<Seq<bool>>;

    open spec fn view(&self) -> Seq<Seq<bool>> {
        self.visible@.map_values(|column: Vec<bool>| column@)
    }
}

/// Whether the cell `(x, y)` is visible. A position outside the field is not.
pub open spec fn sees(fov: Seq<Seq<bool>>, x: int, y: int) -> bool {
    0 <= x < fov.len() && 0 <= y < fov[x].len() && fov[x][y]
}

impl FovMap {
    /// A field of `width` columns and `height` rows in which nothing is
    /// visible.
    pub fn new(width: usize, height: usize) -> (fov: FovMap)
        ensures
            fov@.len() == width,
            forall|x: int| 0 <= x < width ==> (#[trigger] fov@[x]).len() == height,
            forall|x: int, y: int| !sees(fov@, x, y),
    {
        let mut visible: Vec<Vec<bool>> = Vec::new();
        let mut x: usize = 0;
        while x < width
            invariant
                x <= width,
                visible.len() == x,
                forall|c: int| 0 <= c < x ==> (#[trigger] visible[c]).len() == height,
                forall|c: int, r: int|
                    0 <= c < x && 0 <= r < height ==> !(#[trigger] visible[c][r]),
            decreases width - x,
        {
            let mut column: Vec<bool> = Vec::new();
            let mut y: usize = 0;
            while y < height
                invariant
                    y <= height,
                    column.len() == y,
                    forall|r: int| 0 <= r < y ==> !(#[trigger] column[r]),
                decreases height - y,
            {
                column.push(false);
                y += 1;
            }
            visible.push(column);
            x += 1;
        }
        let fov = FovMap { visible };
        fov
    }

    /// Whether the cell in the given column and row is visible.
    pub fn visible_at(&self, column: usize, row: usize) -> (b: bool)
        ensures
            b == sees(self@, column as int, row as int),
    {
        if column >= self.visible.len() {
            return false;
        }
        if row >= self.visible[column].len() {
            return false;
        }
        self.visible[column][row]
    }

    /// Whether the cell `(x, y)` is visible.
    pub fn is_in_fov(&self, x: i32, y: i32) -> (b: bool)
        ensures
            b == sees(self@, x as int, y as int),
    {
        if x < 0 || y < 0 {
            return false;
        }
        self.visible_at(x as usize, y as usize)
    }

    /// Sets whether the cell `(x, y)` is visible. A position outside the
    /// field is left alone.
    pub fn set(&mut self, x: i32, y: i32, visible: bool)
        ensures
            final(self)@.len() == old(self)@.len(),
            forall|c: int| 0 <= c < old(self)@.len() ==> (#[trigger] final(self)@[c]).len() == old(
                self,
            )@[c].len(),
            forall|c: int, r: int|
                sees(final(self)@, c, r) == if c == x && r == y && 0 <= c < old(self)@.len() && 0
                    <= r < old(self)@[c].len() {
                    visible
                } else {
                    sees(old(self)@, c, r)
                },
    {
        if x < 0 || y < 0 {
            return ;
        }
        let column = x as usize;
        let row = y as usize;
        if column >= self.visible.len() {
            return ;
        }
        if row >= self.visible[column].len() {
            return ;
        }
        self.visible[column][row] = visible;
    }
}

/// Whether `new` is `old` with every visible cell marked as explored: an
/// explored cell stays explored, and nothing else changes.
pub open spec fn explored_marked(old: Seq<Seq<Tile>>, new: Seq<Seq<Tile>>, fov: Seq<Seq<bool>>)
    -> bool {
    &&& new.len() == old.len()
    &&& forall|x: int| 0 <= x < old.len() ==> (#[trigger] new[x]).len() == old[x].len()
    &&& forall|x: int, y: int|
        in_grid(old, x, y) ==> #[trigger] new[x][y] == (Tile {
            explored: old[x][y].explored || sees(fov, x, y),
            ..old[x][y]
        })
}

/// What is explored stays explored. Marking turns no explored cell back,
/// marks every cell in sight, and changes nothing else of a cell.
pub proof fn lemma_explored_is_kept(
    old: Seq<Seq<Tile>>,
    new: Seq<Seq<Tile>>,
    fov: Seq<Seq<bool>>,
    x: int,
    y: int,
)
    requires
        explored_marked(old, new, fov),
        in_grid(old, x, y),
    ensures
        in_grid(new, x, y),
        old[x][y].explored ==> new[x][y].explored,
        sees(fov, x, y) ==> new[x][y].explored,
        new[x][y].explored ==> old[x][y].explored || sees(fov, x, y),
        new[x][y].blocked == old[x][y].blocked,
        new[x][y].block_sight == old[x][y].block_sight,
{
}

/// Marks every cell that is visible as explored.
pub fn mark_explored(map: &mut TileMap, fov: &FovMap)
    ensures
        explored_marked(grid_view(old(map)@), grid_view(final(map)@), fov@),
{
    let ghost before = grid_view(map@);
    let mut x: usize = 0;
    while x < map.len()
        invariant
            x <= map.len(),
            map.len() == before.len(),
            forall|c: int|
                0 <= c < before.len() ==> (#[trigger] grid_view(map@)[c]).len() == before[c].len(),
            forall|c: int, r: int|
                in_grid(before, c, r) ==> #[trigger] grid_view(map@)[c][r] == if c < x {
                    Tile { explored: before[c][r].explored || sees(fov@, c, r), ..before[c][r] }
                } else {
                    before[c][r]
                },
        decreases map.len() - x,
    {
        let mut y: usize = 0;
        while y < map[x].len()
            invariant
                x < map.len(),
                map.len() == before.len(),
                y <= map[x as int].len(),
                forall|c: int|
                    0 <= c < before.len() ==> (#[trigger] grid_view(map@)[c]).len()
                        == before[c].len(),
                forall|c: int, r: int|
                    in_grid(before, c, r) ==> #[trigger] grid_view(map@)[c][r] == if c < x || (c
                        == x && r < y) {
                        Tile {
                            explored: before[c][r].explored || sees(fov@, c, r),
                            ..before[c][r]
                        }
                    } else {
                        before[c][r]
                    },
            decreases map[x as int].len() - y,
        {
            let ghost earlier = grid_view(map@);
            if fov.visible_at(x, y) {
                map[x][y].explored = true;
            }
            proof {
                let now = grid_view(map@);
                assert forall|c: int| 0 <= c < before.len() implies (#[trigger] now[c]).len()
                    == before[c].len() by {
                    assert(earlier[c].len() == before[c].len());
                }
                assert forall|c: int, r: int| in_grid(before, c, r) implies #[trigger] now[c][r]
                    == if c < x || (c == x && r < y + 1) {
                    Tile { explored: before[c][r].explored || sees(fov@, c, r), ..before[c][r] }
                } else {
                    before[c][r]
                } by {
                    assert(earlier[c].len() == before[c].len());
                }
            }
            y += 1;
        }
        x += 1;
    }
}

} // verus!
