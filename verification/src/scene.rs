//! What of the game is shown: the entities in the order of their drawing,
//! and the names under the pointer.

use vstd::prelude::*;
use vstd::string::StringExecFns;
use crate::entity::{grid_view, object_views, Object, ObjectView, PLAYER};
use crate::fov::{sees, FovMap};
use crate::tile::{in_grid, Tile, TileMap};

verus! {

/// Whether the visibility field has to be computed anew: the player is not
/// where the field was computed last.
pub fn fov_needs_recompute(previous: (i32, i32), objects: &Vec<Object>) -> (b: bool)
    requires
        objects.len() > 0,
    ensures
        b == (previous != (objects[0].x, objects[0].y)),
{
    previous.0 != objects[PLAYER].x || previous.1 != objects[PLAYER].y
}

/// Whether the entity is shown: it stands on a visible cell, or it is
/// always visible and its cell was explored.
pub open spec fn shown(o: ObjectView, map: Seq<Seq<Tile>>, fov: Seq<Seq<bool>>) -> bool {
    sees(fov, o.x as int, o.y as int) || (o.always_visible && in_grid(map, o.x as int, o.y as int)
        && map[o.x as int][o.y as int].explored)
}

/// Whether the entity is shown.
pub fn is_shown(o: &Object, map: &TileMap, fov: &FovMap) -> (b: bool)
    ensures
        b == shown(o@, grid_view(map@), fov@),
{
    if fov.is_in_fov(o.x, o.y) {
        return true;
    }
    if !o.always_visible || o.x < 0 || o.y < 0 {
        return false;
    }
    let column = o.x as usize;
    let row = o.y as usize;
    if column >= map.len() {
        return false;
    }
    if row >= map[column].len() {
        return false;
    }
    map[column][row].explored
}

/// The positions, among the first `k` of the store, of the shown entities
/// that block if `blocking` and of those that do not if not, in the order of
/// the store.
pub open spec fn shown_positions(
    objects: Seq<ObjectView>,
    map: Seq<Seq<Tile>>,
    fov: Seq<Seq<bool>>,
    blocking: bool,
    k: int,
) -> Seq<usize>
    decreases k,
{
    if k <= 0 {
        Seq::empty()
    } else {
        let earlier = shown_positions(objects, map, fov, blocking, k - 1);
        if shown(objects[k - 1], map, fov) && objects[k - 1].blocks == blocking {
            earlier.push((k - 1) as usize)
        } else {
            earlier
        }
    }
}

/// The order in which the shown entities are drawn: those that do not block
/// first, so that what blocks is drawn over them, and within both groups the
/// order of the store.
pub open spec fn drawing_order(objects: Seq<ObjectView>, map: Seq<Seq<Tile>>, fov: Seq<Seq<bool>>)
    -> Seq<usize> {
    shown_positions(objects, map, fov, false, objects.len() as int) + shown_positions(
        objects,
        map,
        fov,
        true,
        objects.len() as int,
    )
}

fn shown_group(objects: &Vec<Object>, map: &TileMap, fov: &FovMap, blocking: bool, order: &mut Vec<
    usize,
>)
    ensures
        final(order)@ == old(order)@ + shown_positions(
            object_views(objects@),
            grid_view(map@),
            fov@,
            blocking,
            objects.len() as int,
        ),
{
    let mut id: usize = 0;
    while id < objects.len()
        invariant
            id <= objects.len(),
            order@ == old(order)@ + shown_positions(
                object_views(objects@),
                grid_view(map@),
                fov@,
                blocking,
                id as int,
            ),
        decreases objects.len() - id,
    {
        if is_shown(&objects[id], map, fov) && objects[id].blocks == blocking {
            order.push(id);
        }
        id += 1;
    }
}

/// The positions of the shown entities in the order of their drawing.
pub fn draw_order(objects: &Vec<Object>, map: &TileMap, fov: &FovMap) -> (order: Vec<usize>)
    ensures
        order@ == drawing_order(object_views(objects@), grid_view(map@), fov@),
{
    let mut order: Vec<usize> = Vec::new();
    shown_group(objects, map, fov, false, &mut order);
    shown_group(objects, map, fov, true, &mut order);
    order
}

/// Whether entity `id` is named for the cell `(x, y)`: it stands there, and
/// the cell is visible.
pub open spec fn named_at(objects: Seq<ObjectView>, fov: Seq<Seq<bool>>, id: int, x: int, y: int)
    -> bool {
    objects[id].is_at(x, y) && sees(fov, x, y)
}

/// Whether one of the first `k` entities is named for the cell.
pub open spec fn any_named(
    objects: Seq<ObjectView>,
    fov: Seq<Seq<bool>>,
    x: int,
    y: int,
    k: int,
) -> bool
    decreases k,
{
    if k <= 0 {
        false
    } else {
        any_named(objects, fov, x, y, k - 1) || named_at(objects, fov, k - 1, x, y)
    }
}

/// The names of those of the first `k` entities that are named for the
/// cell, separated by a comma and a space.
pub open spec fn names_at(objects: Seq<ObjectView>, fov: Seq<Seq<bool>>, x: int, y: int, k: int)
    -> Seq<char>
    decreases k,
{
    if k <= 0 {
        Seq::empty()
    } else {
        let earlier = names_at(objects, fov, x, y, k - 1);
        if !named_at(objects, fov, k - 1, x, y) {
            earlier
        } else if any_named(objects, fov, x, y, k - 1) {
            earlier + ", "@ + objects[k - 1].name
        } else {
            objects[k - 1].name
        }
    }
}

/// The names of the entities on the visible cell `(x, y)`, separated by a
/// comma and a space.
pub fn get_names_at(x: i32, y: i32, objects: &Vec<Object>, fov: &FovMap) -> (names: String)
    ensures
        names@ == names_at(object_views(objects@), fov@, x as int, y as int, objects.len() as int),
{
    let mut names = String::new();
    let mut any = false;
    let mut id: usize = 0;
    while id < objects.len()
        invariant
            id <= objects.len(),
            any == any_named(object_views(objects@), fov@, x as int, y as int, id as int),
            names@ == names_at(object_views(objects@), fov@, x as int, y as int, id as int),
            !any ==> names@ == Seq::<char>::empty(),
        decreases objects.len() - id,
    {
        if objects[id].x == x && objects[id].y == y && fov.is_in_fov(objects[id].x, objects[id].y) {
            if any {
                names.append(", ");
            }
            names.append(objects[id].name.as_str());
            any = true;
        }
        id += 1;
    }
    names
}

} // verus!
