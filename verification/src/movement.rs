//! Collision and movement of entities on the grid.

use vstd::prelude::*;
use crate::entity::{grid_view, object_views, Object, ObjectView};
use crate::tile::{wall_at, Tile, TileMap};

verus! {

/// Whether a blocking entity stands on `(x, y)`.
pub open spec fn occupied(objects: Seq<ObjectView>, x: int, y: int) -> bool {
    exists|i: int| 0 <= i < objects.len() && (#[trigger] objects[i]).blocks && objects[i].is_at(x, y)
}

/// Whether `(x, y)` cannot be entered: the grid bars it or a blocking entity
/// stands there.
pub open spec fn blocked(map: Seq<Seq<Tile>>, objects: Seq<ObjectView>, x: int, y: int) -> bool {
    wall_at(map, x, y) || occupied(objects, x, y)
}

/// Whether the grid bars movement onto `(x, y)`.
pub fn is_wall(x: i32, y: i32, map: &TileMap) -> (b: bool)
    ensures
        b == wall_at(grid_view(map@), x as int, y as int),
{
    if x < 0 || y < 0 {
        return true;
    }
    let column = x as usize;
    let row = y as usize;
    if column >= map.len() {
        return true;
    }
    if row >= map[column].len() {
        return true;
    }
    map[column][row].blocked
}

/// Whether `(x, y)` cannot be entered. A position outside the grid counts as
/// blocked.
pub fn is_blocked(x: i32, y: i32, map: &TileMap, objects: &Vec<Object>) -> (b: bool)
    ensures
        b == blocked(grid_view(map@), object_views(objects@), x as int, y as int),
{
    if is_wall(x, y, map) {
        return true;
    }
    let mut i: usize = 0;
    while i < objects.len()
        invariant
            i <= objects.len(),
            forall|j: int|
                0 <= j < i ==> !((#[trigger] object_views(objects@)[j]).blocks && object_views(
                    objects@,
                )[j].is_at(x as int, y as int)),
        decreases objects.len() - i,
    {
        if objects[i].blocks && objects[i].x == x && objects[i].y == y {
            assert(object_views(objects@)[i as int].blocks);
            return true;
        }
        i += 1;
    }
    false
}

/// Whether entity `id` can step by `(dx, dy)`: the target cell has
/// coordinates that fit the machine integers and is not blocked.
pub open spec fn step_allowed(
    map: Seq<Seq<Tile>>,
    objects: Seq<ObjectView>,
    id: int,
    dx: int,
    dy: int,
) -> bool {
    let x = objects[id].x + dx;
    let y = objects[id].y + dy;
    i32::MIN <= x <= i32::MAX && i32::MIN <= y <= i32::MAX && !blocked(map, objects, x, y)
}

/// The entities after entity `id` tried to step by `(dx, dy)`: a step that is
/// not allowed is dropped.
pub open spec fn after_step(
    map: Seq<Seq<Tile>>,
    objects: Seq<ObjectView>,
    id: int,
    dx: int,
    dy: int,
) -> Seq<ObjectView> {
    if step_allowed(map, objects, id, dx, dy) {
        objects.update(
            id,
            ObjectView {
                x: (objects[id].x + dx) as i32,
                y: (objects[id].y + dy) as i32,
                ..objects[id]
            },
        )
    } else {
        objects
    }
}

/// Moves entity `id` by `(dx, dy)` unless the target cell is blocked.
pub fn move_by(id: usize, dx: i32, dy: i32, map: &TileMap, objects: &mut Vec<Object>)
    requires
        id < old(objects).len(),
    ensures
        object_views(final(objects)@) == after_step(
            grid_view(map@),
            object_views(old(objects)@),
            id as int,
            dx as int,
            dy as int,
        ),
{
    let (x, y) = objects[id].pos();
    let new_x = x as i64 + dx as i64;
    let new_y = y as i64 + dy as i64;
    if new_x < i32::MIN as i64 || new_x > i32::MAX as i64 || new_y < i32::MIN as i64 || new_y
        > i32::MAX as i64 {
        return ;
    }
    if !is_blocked(new_x as i32, new_y as i32, map, objects) {
        objects[id].set_pos(new_x as i32, new_y as i32);
    }
}

/// One component of the step towards a target: the component `d` of the
/// offset, divided by the length of the offset `(d, other)` and rounded to
/// the nearest integer. The quotient is at least one half in size exactly
/// when `3 * d * d >= other * other`.
pub open spec fn approach(d: int, other: int) -> int {
    if d == 0 {
        0
    } else if 3 * d * d >= other * other {
        if d > 0 {
            1
        } else {
            -1
        }
    } else {
        0
    }
}

fn approach_step(d: i64, other: i64) -> (s: i32)
    requires
        -0x1_0000_0000 < d < 0x1_0000_0000,
        -0x1_0000_0000 < other < 0x1_0000_0000,
    ensures
        s == approach(d as int, other as int),
{
    if d == 0 {
        return 0;
    }
    assert(0 <= d * d <= 0x1_0000_0000 * 0x1_0000_0000) by (nonlinear_arith)
        requires
            -0x1_0000_0000 < d < 0x1_0000_0000,
    ;
    assert(0 <= other * other <= 0x1_0000_0000 * 0x1_0000_0000) by (nonlinear_arith)
        requires
            -0x1_0000_0000 < other < 0x1_0000_0000,
    ;
    let d2: i128 = (d as i128) * (d as i128);
    let o2: i128 = (other as i128) * (other as i128);
    assert(3 * d * d == 3 * (d * d)) by (nonlinear_arith);
    if 3 * d2 >= o2 {
        if d > 0 {
            1
        } else {
            -1
        }
    } else {
        0
    }
}

/// Moves entity `id` one cell towards `(target_x, target_y)`, unless that cell
/// is blocked.
pub fn move_towards(
    id: usize,
    target_x: i32,
    target_y: i32,
    map: &TileMap,
    objects: &mut Vec<Object>,
)
    requires
        id < old(objects).len(),
    ensures
        object_views(final(objects)@) == after_step(
            grid_view(map@),
            object_views(old(objects)@),
            id as int,
            approach(target_x - old(objects)[id as int].x, target_y - old(objects)[id as int].y),
            approach(target_y - old(objects)[id as int].y, target_x - old(objects)[id as int].x),
        ),
{
    let dx = target_x as i64 - objects[id].x as i64;
    let dy = target_y as i64 - objects[id].y as i64;
    let step_x = approach_step(dx, dy);
    let step_y = approach_step(dy, dx);
    move_by(id, step_x, step_y, map, objects);
}

/// The square of the distance between the entity and the cell `(x, y)`.
pub open spec fn distance_squared(o: ObjectView, x: int, y: int) -> int {
    (x - o.x) * (x - o.x) + (y - o.y) * (y - o.y)
}

impl Object {
    /// The square of the distance between the entity and the cell `(x, y)`.
    pub fn distance_squared(&self, x: i32, y: i32) -> (d: i128)
        ensures
            d == distance_squared(self@, x as int, y as int),
            0 <= d,
    {
        let dx = x as i128 - self.x as i128;
        let dy = y as i128 - self.y as i128;
        assert(0 <= dx * dx <= 0x1_0000_0000 * 0x1_0000_0000) by (nonlinear_arith)
            requires
                -0x1_0000_0000 < dx < 0x1_0000_0000,
        ;
        assert(0 <= dy * dy <= 0x1_0000_0000 * 0x1_0000_0000) by (nonlinear_arith)
            requires
                -0x1_0000_0000 < dy < 0x1_0000_0000,
        ;
        dx * dx + dy * dy
    }

    /// The square of the distance between two entities.
    pub fn distance_squared_to(&self, other: &Object) -> (d: i128)
        ensures
            d == distance_squared(self@, other.x as int, other.y as int),
            0 <= d,
    {
        self.distance_squared(other.x, other.y)
    }
}

/// The square of the distance between the player and entity `id`.
pub open spec fn gap(objects: Seq<ObjectView>, id: int) -> int {
    distance_squared(objects[0], objects[id].x as int, objects[id].y as int)
}

} // verus!
