//! The map generator: rooms by rejection sampling, joined by corridors.

use vstd::prelude::*;
use crate::color::Color;
use crate::entity::{grid_view, object_views, Object, ObjectView, PLAYER};
use crate::movement::blocked;
use crate::rng::{random_bool, random_range};
use crate::spawn::{
    inside, is_item_spawn, is_monster_spawn, max_items_at, max_monsters_at, place_objects,
    spawned_from,
};
use crate::tile::{grid_shaped, in_grid, wall_at, Rect, Tile, TileMap, MAP_HEIGHT, MAP_WIDTH};

verus! {

/// The largest width and height of a room.
pub const ROOM_MAX_SIZE: i32 = 10;

/// The smallest width and height of a room.
pub const ROOM_MIN_SIZE: i32 = 6;

/// The number of rooms the generator tries to place.
pub const MAX_ROOMS: i32 = 30;

/// The floor tile.
pub open spec fn floor() -> Tile {
    Tile { blocked: false, block_sight: false, explored: false }
}

/// The wall tile.
pub open spec fn rock() -> Tile {
    Tile { blocked: true, block_sight: true, explored: false }
}

/// Whether `new` is `old` with the cells of columns `x1..=x2` and rows
/// `y1..=y2` turned into floor, and every other cell as it was.
pub open spec fn carved(
    old: Seq<Seq<Tile>>,
    new: Seq<Seq<Tile>>,
    x1: int,
    x2: int,
    y1: int,
    y2: int,
) -> bool {
    &&& new.len() == old.len()
    &&& forall|x: int| 0 <= x < old.len() ==> (#[trigger] new[x]).len() == old[x].len()
    &&& forall|x: int, y: int|
        in_grid(old, x, y) ==> #[trigger] new[x][y] == if x1 <= x <= x2 && y1 <= y <= y2 {
            floor()
        } else {
            old[x][y]
        }
}

fn carve(x_from: i32, x_end: i32, y_from: i32, y_end: i32, map: &mut TileMap)
    requires
        forall|x: int, y: int|
            x_from <= x < x_end && y_from <= y < y_end ==> #[trigger] in_grid(
                grid_view(old(map)@),
                x,
                y,
            ),
    ensures
        carved(
            grid_view(old(map)@),
            grid_view(final(map)@),
            x_from as int,
            x_end - 1,
            y_from as int,
            y_end - 1,
        ),
{
    let ghost before = grid_view(map@);
    let mut x = x_from;
    while x < x_end
        invariant
            x_from <= x,
            x <= x_end || x == x_from,
            forall|x: int, y: int|
                x_from <= x < x_end && y_from <= y < y_end ==> #[trigger] in_grid(before, x, y),
            carved(before, grid_view(map@), x_from as int, x - 1, y_from as int, y_end - 1),
        decreases x_end - x,
    {
        let mut y = y_from;
        while y < y_end
            invariant
                x_from <= x < x_end,
                y_from <= y,
                y <= y_end || y == y_from,
                forall|x: int, y: int|
                    x_from <= x < x_end && y_from <= y < y_end ==> #[trigger] in_grid(
                        before,
                        x,
                        y,
                    ),
                grid_view(map@).len() == before.len(),
                forall|c: int|
                    0 <= c < before.len() ==> (#[trigger] grid_view(map@)[c]).len()
                        == before[c].len(),
                forall|c: int, r: int|
                    in_grid(before, c, r) ==> #[trigger] grid_view(map@)[c][r] == if (x_from <= c
                        < x && y_from <= r < y_end) || (c == x && y_from <= r < y) {
                        floor()
                    } else {
                        before[c][r]
                    },
            decreases y_end - y,
        {
            assert(in_grid(before, x as int, y as int));
            let ghost earlier = grid_view(map@);
            assert(earlier[x as int].len() == before[x as int].len());
            map[x as usize][y as usize] = Tile::empty();
            proof {
                let now = grid_view(map@);
                assert forall|c: int| 0 <= c < before.len() implies (#[trigger] now[c]).len()
                    == before[c].len() by {
                    assert(earlier[c].len() == before[c].len());
                }
                assert forall|c: int, r: int| in_grid(before, c, r) implies #[trigger] now[c][r]
                    == if (x_from <= c < x && y_from <= r < y_end) || (c == x && y_from <= r < y
                    + 1) {
                    floor()
                } else {
                    before[c][r]
                } by {
                    assert(earlier[c].len() == before[c].len());
                }
            }
            y += 1;
        }
        x += 1;
    }
}

/// Turns the inside of the room into floor.
pub fn create_room(room: Rect, map: &mut TileMap)
    requires
        forall|x: int, y: int|
            inside(room, x, y) ==> #[trigger] in_grid(grid_view(old(map)@), x, y),
    ensures
        carved(
            grid_view(old(map)@),
            grid_view(final(map)@),
            room.x1 + 1,
            room.x2 - 1,
            room.y1 + 1,
            room.y2 - 1,
        ),
{
    if room.x1 < room.x2 && room.y1 < room.y2 {
        carve(room.x1 + 1, room.x2, room.y1 + 1, room.y2, map);
    }
}

/// The smaller of two numbers.
pub open spec fn lower(a: int, b: int) -> int {
    if a <= b {
        a
    } else {
        b
    }
}

/// The larger of two numbers.
pub open spec fn upper(a: int, b: int) -> int {
    if a <= b {
        b
    } else {
        a
    }
}

/// Turns the cells of row `y` between columns `x1` and `x2`, both included,
/// into floor.
pub fn create_h_tunnel(x1: i32, x2: i32, y: i32, map: &mut TileMap)
    requires
        x1 < i32::MAX,
        x2 < i32::MAX,
        y < i32::MAX,
        forall|x: int|
            lower(x1 as int, x2 as int) <= x <= upper(x1 as int, x2 as int) ==> #[trigger] in_grid(
                grid_view(old(map)@),
                x,
                y as int,
            ),
    ensures
        carved(
            grid_view(old(map)@),
            grid_view(final(map)@),
            lower(x1 as int, x2 as int),
            upper(x1 as int, x2 as int),
            y as int,
            y as int,
        ),
{
    let from = if x1 <= x2 {
        x1
    } else {
        x2
    };
    let to = if x1 <= x2 {
        x2
    } else {
        x1
    };
    carve(from, to + 1, y, y + 1, map);
}

/// Turns the cells of column `x` between rows `y1` and `y2`, both included,
/// into floor.
pub fn create_v_tunnel(y1: i32, y2: i32, x: i32, map: &mut TileMap)
    requires
        y1 < i32::MAX,
        y2 < i32::MAX,
        x < i32::MAX,
        forall|y: int|
            lower(y1 as int, y2 as int) <= y <= upper(y1 as int, y2 as int) ==> #[trigger] in_grid(
                grid_view(old(map)@),
                x as int,
                y,
            ),
    ensures
        carved(
            grid_view(old(map)@),
            grid_view(final(map)@),
            x as int,
            x as int,
            lower(y1 as int, y2 as int),
            upper(y1 as int, y2 as int),
        ),
{
    let from = if y1 <= y2 {
        y1
    } else {
        y2
    };
    let to = if y1 <= y2 {
        y2
    } else {
        y1
    };
    carve(x, x + 1, from, to + 1, map);
}

} // verus!

verus! {

/// Whether `(x, y)` is on the corridor from `a` to `b`: one horizontal and
/// one vertical run that meet in a corner. With `horizontal_first` the
/// horizontal run leaves `a` and the vertical run arrives at `b`; without it
/// the vertical run leaves `a` and the horizontal run arrives at `b`.
pub open spec fn corridor(a: (int, int), b: (int, int), horizontal_first: bool, x: int, y: int)
    -> bool {
    if horizontal_first {
        (y == a.1 && lower(a.0, b.0) <= x <= upper(a.0, b.0)) || (x == b.0 && lower(a.1, b.1) <= y
            <= upper(a.1, b.1))
    } else {
        (x == a.0 && lower(a.1, b.1) <= y <= upper(a.1, b.1)) || (y == b.1 && lower(a.0, b.0) <= x
            <= upper(a.0, b.0))
    }
}

/// Whether `new` is `old` with the corridor from `a` to `b` turned into floor.
pub open spec fn corridor_carved(
    old: Seq<Seq<Tile>>,
    new: Seq<Seq<Tile>>,
    a: (int, int),
    b: (int, int),
    horizontal_first: bool,
) -> bool {
    &&& new.len() == old.len()
    &&& forall|x: int| 0 <= x < old.len() ==> (#[trigger] new[x]).len() == old[x].len()
    &&& forall|x: int, y: int|
        in_grid(old, x, y) ==> #[trigger] new[x][y] == if corridor(a, b, horizontal_first, x, y) {
            floor()
        } else {
            old[x][y]
        }
}

/// Digs the corridor between two cells, in the given order of its runs.
pub fn connect(from: (i32, i32), to: (i32, i32), horizontal_first: bool, map: &mut TileMap)
    requires
        from.0 < i32::MAX,
        from.1 < i32::MAX,
        to.0 < i32::MAX,
        to.1 < i32::MAX,
        forall|x: int, y: int|
            lower(from.0 as int, to.0 as int) <= x <= upper(from.0 as int, to.0 as int) && lower(
                from.1 as int,
                to.1 as int,
            ) <= y <= upper(from.1 as int, to.1 as int) ==> #[trigger] in_grid(
                grid_view(old(map)@),
                x,
                y,
            ),
    ensures
        corridor_carved(
            grid_view(old(map)@),
            grid_view(final(map)@),
            (from.0 as int, from.1 as int),
            (to.0 as int, to.1 as int),
            horizontal_first,
        ),
{
    let ghost before = grid_view(map@);
    assert(in_grid(before, to.0 as int, to.1 as int));
    assert(in_grid(before, to.0 as int, from.1 as int));
    if horizontal_first {
        create_h_tunnel(from.0, to.0, from.1, map);
        create_v_tunnel(from.1, to.1, to.0, map);
    } else {
        create_v_tunnel(from.1, to.1, from.0, map);
        let ghost between = grid_view(map@);
        assert forall|x: int|
            lower(from.0 as int, to.0 as int) <= x <= upper(
                from.0 as int,
                to.0 as int,
            ) implies #[trigger] in_grid(between, x, to.1 as int) by {
            assert(in_grid(before, x, to.1 as int));
        }
        create_h_tunnel(from.0, to.0, to.1, map);
    }
}

/// A grid of the dungeon's size, all rock.
pub fn solid_map() -> (map: TileMap)
    ensures
        grid_shaped(grid_view(map@), MAP_WIDTH as int, MAP_HEIGHT as int),
        forall|x: int, y: int|
            in_grid(grid_view(map@), x, y) ==> #[trigger] grid_view(map@)[x][y] == rock(),
{
    let mut map: TileMap = Vec::new();
    let mut x: i32 = 0;
    while x < MAP_WIDTH
        invariant
            0 <= x <= MAP_WIDTH,
            map.len() == x,
            forall|c: int| 0 <= c < x ==> (#[trigger] grid_view(map@)[c]).len() == MAP_HEIGHT,
            forall|c: int, r: int|
                in_grid(grid_view(map@), c, r) ==> #[trigger] grid_view(map@)[c][r] == rock(),
        decreases MAP_WIDTH - x,
    {
        let mut column: Vec<Tile> = Vec::new();
        let mut y: i32 = 0;
        while y < MAP_HEIGHT
            invariant
                0 <= y <= MAP_HEIGHT,
                column.len() == y,
                forall|r: int| 0 <= r < y ==> #[trigger] column[r] == rock(),
            decreases MAP_HEIGHT - y,
        {
            column.push(Tile::wall());
            y += 1;
        }
        let ghost earlier = grid_view(map@);
        map.push(column);
        proof {
            let now = grid_view(map@);
            assert(now =~= earlier.push(column@));
        }
        x += 1;
    }
    map
}

/// Whether the room overlaps one of the rooms.
pub open spec fn overlaps_one(rooms: Seq<Rect>, room: Rect) -> bool {
    exists|i: int| 0 <= i < rooms.len() && room.overlaps(#[trigger] rooms[i])
}

/// Whether the room overlaps one of the rooms.
pub fn overlaps_any(rooms: &Vec<Rect>, room: &Rect) -> (b: bool)
    ensures
        b == overlaps_one(rooms@, *room),
{
    let mut i: usize = 0;
    while i < rooms.len()
        invariant
            i <= rooms.len(),
            forall|j: int| 0 <= j < i ==> !room.overlaps(#[trigger] rooms[j]),
        decreases rooms.len() - i,
    {
        if room.intersects_with(&rooms[i]) {
            return true;
        }
        i += 1;
    }
    false
}

} // verus!

verus! {

/// Whether a room has an allowed size and lies on the grid, clear of its
/// last column and row.
pub open spec fn room_fits(room: Rect) -> bool {
    &&& 0 <= room.x1
    &&& room.x2 < MAP_WIDTH
    &&& ROOM_MIN_SIZE <= room.x2 - room.x1 <= ROOM_MAX_SIZE
    &&& 0 <= room.y1
    &&& room.y2 < MAP_HEIGHT
    &&& ROOM_MIN_SIZE <= room.y2 - room.y1 <= ROOM_MAX_SIZE
}

/// Whether no two of the rooms overlap.
pub open spec fn rooms_apart(rooms: Seq<Rect>) -> bool {
    forall|i: int, j: int|
        0 <= i < j < rooms.len() ==> !(#[trigger] rooms[i]).overlaps(#[trigger] rooms[j])
}

/// Whether every cell inside the room can be walked on.
pub open spec fn room_open(map: Seq<Seq<Tile>>, room: Rect) -> bool {
    forall|x: int, y: int| #[trigger] inside(room, x, y) ==> !wall_at(map, x, y)
}

/// Whether every cell of the corridor from `a` to `b` can be walked on.
pub open spec fn corridor_open(
    map: Seq<Seq<Tile>>,
    a: (int, int),
    b: (int, int),
    horizontal_first: bool,
) -> bool {
    forall|x: int, y: int| #[trigger] corridor(a, b, horizontal_first, x, y) ==> !wall_at(map, x, y)
}

/// Whether a corridor of one of the two shapes leads from `a` to `b`.
pub open spec fn joined(map: Seq<Seq<Tile>>, a: (int, int), b: (int, int)) -> bool {
    corridor_open(map, a, b, true) || corridor_open(map, a, b, false)
}

/// Whether `(x, y)` lies inside one of the rooms.
pub open spec fn in_a_room(rooms: Seq<Rect>, x: int, y: int) -> bool {
    exists|k: int| 0 <= k < rooms.len() && inside(#[trigger] rooms[k], x, y)
}

/// Whether `(x, y)` lies on a corridor, of either shape, between two rooms
/// that follow each other.
pub open spec fn in_a_corridor(rooms: Seq<Rect>, x: int, y: int) -> bool {
    exists|k: int|
        1 <= k < rooms.len() && (corridor(rooms[k - 1].middle(), (#[trigger] rooms[k]).middle(), true, x, y)
            || corridor(rooms[k - 1].middle(), rooms[k].middle(), false, x, y))
}

/// Whether the grid is what the rooms account for: the inside of every room
/// is floor, each room is joined to the one before it, and every other cell
/// is rock unless it is floor on a corridor between two rooms that follow
/// each other.
pub open spec fn layout(map: Seq<Seq<Tile>>, rooms: Seq<Rect>) -> bool {
    &&& grid_shaped(map, MAP_WIDTH as int, MAP_HEIGHT as int)
    &&& forall|k: int| 0 <= k < rooms.len() ==> room_fits(#[trigger] rooms[k])
    &&& rooms_apart(rooms)
    &&& forall|k: int| 0 <= k < rooms.len() ==> room_open(map, #[trigger] rooms[k])
    &&& forall|k: int|
        1 <= k < rooms.len() ==> joined(map, rooms[k - 1].middle(), (#[trigger] rooms[k]).middle())
    &&& forall|x: int, y: int|
        in_grid(map, x, y) ==> #[trigger] map[x][y] == rock() || (map[x][y] == floor() && (
            in_a_room(rooms, x, y) || in_a_corridor(rooms, x, y)))
}

/// The staircase to the next level, standing on `(x, y)`.
pub open spec fn stairs_view(x: i32, y: i32) -> ObjectView {
    ObjectView { always_visible: true, ..ObjectView::bare(x, y, '<', "stairs"@, Color::White, false) }
}

/// Whether the entity was spawned into one of the rooms.
pub open spec fn spawned_in_rooms(o: ObjectView, rooms: Seq<Rect>, level: u32) -> bool {
    exists|k: int|
        0 <= k < rooms.len() && (is_monster_spawn(o, #[trigger] rooms[k], level) || is_item_spawn(
            o,
            rooms[k],
            level,
        ))
}

/// Whether the entities after the first were spawned into the rooms, each on
/// a cell that can be walked on and that no blocking entity before it holds,
/// and no more of them than the rooms allow. The last `tail` entities are
/// left out.
pub open spec fn populated(
    objects: Seq<ObjectView>,
    tail: int,
    map: Seq<Seq<Tile>>,
    rooms: Seq<Rect>,
    level: u32,
) -> bool {
    &&& forall|i: int|
        1 <= i < objects.len() - tail ==> spawned_in_rooms(#[trigger] objects[i], rooms, level)
    &&& forall|i: int|
        1 <= i < objects.len() - tail ==> !wall_at(
            map,
            (#[trigger] objects[i]).x as int,
            objects[i].y as int,
        )
    &&& forall|i: int, j: int|
        1 <= i < j < objects.len() - tail && (#[trigger] objects[i]).blocks ==> !objects[i].is_at(
            (#[trigger] objects[j]).x as int,
            objects[j].y as int,
        )
    &&& objects.len() - tail - 1 <= rooms.len() * (max_monsters_at(level) + max_items_at(level))
}

/// Whether a level was generated for the player: the grid is laid out by
/// the rooms, the player stands in the middle of the first room, the stairs
/// in the middle of the last, and the entities between them populate the
/// rooms.
pub open spec fn level_generated(
    player: ObjectView,
    objects: Seq<ObjectView>,
    map: Seq<Seq<Tile>>,
    rooms: Seq<Rect>,
    level: u32,
) -> bool {
    &&& 1 <= rooms.len() <= MAX_ROOMS
    &&& layout(map, rooms)
    &&& objects.len() >= 2
    &&& objects[0] == (ObjectView {
        x: rooms[0].middle().0 as i32,
        y: rooms[0].middle().1 as i32,
        ..player
    })
    &&& objects.last() == stairs_view(
        rooms.last().middle().0 as i32,
        rooms.last().middle().1 as i32,
    )
    &&& populated(objects, 1, map, rooms, level)
}

/// Whether `new` is `old` with the room dug after the rooms before it: its
/// inside is turned into floor and, where there is a room before it, so is
/// the corridor from the middle of the last of them to its own middle.
/// Every other cell is as it was.
pub open spec fn room_dug(
    old: Seq<Seq<Tile>>,
    new: Seq<Seq<Tile>>,
    rooms: Seq<Rect>,
    room: Rect,
    horizontal_first: bool,
) -> bool {
    &&& new.len() == old.len()
    &&& forall|x: int| 0 <= x < old.len() ==> (#[trigger] new[x]).len() == old[x].len()
    &&& forall|x: int, y: int|
        in_grid(old, x, y) ==> #[trigger] new[x][y] == if inside(room, x, y) || (rooms.len() > 0
            && corridor(rooms.last().middle(), room.middle(), horizontal_first, x, y)) {
            floor()
        } else {
            old[x][y]
        }
}

/// A room that fits, is apart from the rooms before it and is dug after
/// them extends the layout, and walls up no cell.
pub proof fn lemma_layout_grows(
    before: Seq<Seq<Tile>>,
    after: Seq<Seq<Tile>>,
    rooms: Seq<Rect>,
    room: Rect,
    horizontal_first: bool,
)
    requires
        layout(before, rooms),
        room_fits(room),
        !overlaps_one(rooms, room),
        room_dug(before, after, rooms, room, horizontal_first),
    ensures
        layout(after, rooms.push(room)),
        forall|x: int, y: int| !wall_at(before, x, y) ==> !#[trigger] wall_at(after, x, y),
{
    let grown = rooms.push(room);
    let n = rooms.len() as int;
    assert forall|x: int, y: int| in_grid(after, x, y) implies #[trigger] after[x][y] == rock() || (
    after[x][y] == floor() && (in_a_room(grown, x, y) || in_a_corridor(grown, x, y))) by {
        if inside(room, x, y) {
            assert(inside(grown[n], x, y));
        } else if n > 0 && corridor(
            rooms.last().middle(),
            room.middle(),
            horizontal_first,
            x,
            y,
        ) {
            assert(corridor(grown[n - 1].middle(), grown[n].middle(), horizontal_first, x, y));
        } else if before[x][y] == rock() {
        } else if in_a_room(rooms, x, y) {
            let k = choose|k: int| 0 <= k < rooms.len() && inside(#[trigger] rooms[k], x, y);
            assert(inside(grown[k], x, y));
        } else {
            let k = choose|k: int|
                1 <= k < rooms.len() && (corridor(
                    rooms[k - 1].middle(),
                    (#[trigger] rooms[k]).middle(),
                    true,
                    x,
                    y,
                ) || corridor(rooms[k - 1].middle(), rooms[k].middle(), false, x, y));
            assert(corridor(grown[k - 1].middle(), grown[k].middle(), true, x, y) || corridor(
                grown[k - 1].middle(),
                grown[k].middle(),
                false,
                x,
                y,
            ));
        }
    }
}

proof fn lemma_populated_grows(
    before: Seq<ObjectView>,
    after: Seq<ObjectView>,
    old_map: Seq<Seq<Tile>>,
    map: Seq<Seq<Tile>>,
    rooms: Seq<Rect>,
    room: Rect,
    level: u32,
)
    requires
        before.len() >= 1,
        populated(before, 0, old_map, rooms, level),
        forall|x: int, y: int| !wall_at(old_map, x, y) ==> !#[trigger] wall_at(map, x, y),
        after.len() >= before.len(),
        after.subrange(0, before.len() as int) == before,
        spawned_from(after, before.len() as int, room, map, level),
    ensures
        populated(after, 0, map, rooms.push(room), level),
{
    let grown = rooms.push(room);
    let n = rooms.len() as int;
    let from = before.len() as int;
    assert forall|i: int| 0 <= i < from implies after[i] == before[i] by {}
    assert forall|i: int| 1 <= i < after.len() implies spawned_in_rooms(
        #[trigger] after[i],
        grown,
        level,
    ) by {
        if i < from {
            let k = choose|k: int|
                0 <= k < rooms.len() && (is_monster_spawn(before[i], #[trigger] rooms[k], level)
                    || is_item_spawn(before[i], rooms[k], level));
            assert(grown[k] == rooms[k]);
        } else {
            assert(grown[n] == room);
        }
    }
    assert forall|i: int, j: int| 1 <= i < j < after.len() && (#[trigger] after[i]).blocks implies !after[i].is_at(
        (#[trigger] after[j]).x as int,
        after[j].y as int,
    ) by {
        if j < from {
        } else {
            assert(after.subrange(0, j)[i] == after[i]);
        }
    }
    let c = max_monsters_at(level) + max_items_at(level);
    assert((n + 1) * c == n * c + c) by (nonlinear_arith);
}

/// Tries a room that was drawn, with the order that was drawn for the runs
/// of its corridor. A room that overlaps none of the rooms is accepted: it
/// is dug, joined to the last room, added to the rooms and populated. Any
/// other is rejected, and nothing changes.
pub fn add_room(
    new_room: Rect,
    horizontal_first: bool,
    rooms: &mut Vec<Rect>,
    map: &mut TileMap,
    objects: &mut Vec<Object>,
    level: u32,
) -> (accepted: bool)
    requires
        grid_shaped(grid_view(old(map)@), MAP_WIDTH as int, MAP_HEIGHT as int),
        room_fits(new_room),
        old(rooms).len() > 0 ==> room_fits(old(rooms)@.last()),
    ensures
        accepted == !overlaps_one(old(rooms)@, new_room),
        accepted ==> {
            &&& final(rooms)@ == old(rooms)@.push(new_room)
            &&& room_dug(
                grid_view(old(map)@),
                grid_view(final(map)@),
                old(rooms)@,
                new_room,
                horizontal_first,
            )
            &&& object_views(final(objects)@).subrange(0, old(objects).len() as int)
                == object_views(old(objects)@)
            &&& spawned_from(
                object_views(final(objects)@),
                old(objects).len() as int,
                new_room,
                grid_view(final(map)@),
                level,
            )
        },
        !accepted ==> {
            &&& final(rooms)@ == old(rooms)@
            &&& grid_view(final(map)@) == grid_view(old(map)@)
            &&& object_views(final(objects)@) == object_views(old(objects)@)
        },
        layout(grid_view(old(map)@), old(rooms)@) ==> layout(
            grid_view(final(map)@),
            final(rooms)@,
        ),
{
    if overlaps_any(rooms, &new_room) {
        return false;
    }
    let ghost before = grid_view(map@);
    create_room(new_room, map);
    let (new_x, new_y) = new_room.center();
    if !rooms.is_empty() {
        let (prev_x, prev_y) = rooms[rooms.len() - 1].center();
        connect((prev_x, prev_y), (new_x, new_y), horizontal_first, map);
    }
    proof {
        let after = grid_view(map@);
        if layout(before, rooms@) {
            lemma_layout_grows(before, after, rooms@, new_room, horizontal_first);
        }
    }
    rooms.push(new_room);
    place_objects(new_room, map, objects, level);
    true
}

/// Generates a level: the rooms and corridors of a new grid, the entities
/// that populate the rooms, and the stairs. The store is cut down to the
/// player, who is put in the middle of the first room. Returns the grid and
/// the rooms that were placed, in the order of their placing.
pub fn make_map(objects: &mut Vec<Object>, level: u32) -> (generated: (TileMap, Vec<Rect>))
    requires
        old(objects).len() >= 1,
    ensures
        level_generated(
            old(objects)[0]@,
            object_views(final(objects)@),
            grid_view(generated.0@),
            generated.1@,
            level,
        ),
{
    let mut map = solid_map();
    let mut rooms: Vec<Rect> = Vec::new();
    let ghost player = objects[0]@;
    objects.truncate(1);

    let mut starting_position: (i32, i32) = (0, 0);
    let mut attempts: i32 = 0;
    while attempts < MAX_ROOMS
        invariant
            0 <= attempts <= MAX_ROOMS,
            rooms.len() <= attempts,
            attempts > 0 ==> rooms.len() > 0,
            layout(grid_view(map@), rooms@),
            objects.len() >= 1,
            object_views(objects@)[0] == player,
            populated(object_views(objects@), 0, grid_view(map@), rooms@, level),
            rooms.len() > 0 ==> (starting_position.0 as int, starting_position.1 as int)
                == rooms[0].middle(),
        decreases MAX_ROOMS - attempts,
    {
        let w = random_range(ROOM_MIN_SIZE, ROOM_MAX_SIZE + 1);
        let h = random_range(ROOM_MIN_SIZE, ROOM_MAX_SIZE + 1);
        let x = random_range(0, MAP_WIDTH - w);
        let y = random_range(0, MAP_HEIGHT - h);
        let new_room = Rect::new(x, y, w, h);
        let first = rooms.is_empty();
        let horizontal_first = if first {
            true
        } else {
            random_bool()
        };

        let ghost old_map = grid_view(map@);
        let ghost old_views = object_views(objects@);
        let ghost old_rooms = rooms@;
        if add_room(new_room, horizontal_first, &mut rooms, &mut map, objects, level) {
            if first {
                starting_position = new_room.center();
            }
            proof {
                lemma_populated_grows(
                    old_views,
                    object_views(objects@),
                    old_map,
                    grid_view(map@),
                    old_rooms,
                    new_room,
                    level,
                );
            }
        }
        attempts += 1;
    }

    let ghost spawned = object_views(objects@);
    objects[PLAYER].set_pos(starting_position.0, starting_position.1);
    let (last_room_x, last_room_y) = rooms[rooms.len() - 1].center();
    let mut stairs = Object::new(last_room_x, last_room_y, '<', "stairs", Color::White, false);
    stairs.always_visible = true;
    objects.push(stairs);
    proof {
        let placed = object_views(objects@);
        assert forall|i: int| 1 <= i < spawned.len() implies placed[i] == spawned[i] by {}
    }
    (map, rooms)
}

} // verus!
