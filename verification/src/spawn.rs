//! What populates a room: the level-scaled tables of monsters and items.

use vstd::prelude::*;
use crate::color::Color;
use crate::entity::{
    grid_view, object_views, Ai, DeathCallback, Equipment, Fighter, Item, Object, ObjectView,
    Slot,
};
use crate::movement::{blocked, is_blocked, occupied};
use crate::rng::{random_range, total_weight, weighted_index};
use crate::tile::{Rect, Tile, TileMap};

verus! {

/// One step of a table that grows with the dungeon level: from `level` on,
/// the table gives `value`.
#[derive(Clone, Copy, Debug, PartialEq, Eq, Structural)]
pub struct Transition {
    pub level: u32,
    pub value: u32,
}

/// The value of the last entry of the table whose level is at most `level`,
/// or zero where there is none.
pub open spec fn table_value(table: Seq<Transition>, level: u32) -> u32
    decreases table.len(),
{
    if table.len() == 0 {
        0
    } else if level >= table.last().level {
        table.last().value
    } else {
        table_value(table.drop_last(), level)
    }
}

/// Looks `level` up in a table of steps.
pub fn from_dungeon_level(table: &[Transition], level: u32) -> (value: u32)
    ensures
        value == table_value(table@, level),
{
    let mut i: usize = table.len();
    assert(table@.subrange(0, i as int) =~= table@);
    while i > 0
        invariant
            i <= table.len(),
            table_value(table@, level) == table_value(table@.subrange(0, i as int), level),
        decreases i,
    {
        if level >= table[i - 1].level {
            return table[i - 1].value;
        }
        assert(table@.subrange(0, i as int).drop_last() =~= table@.subrange(0, i - 1));
        i -= 1;
    }
    0
}

/// The kinds of monster.
#[derive(Clone, Copy, Debug, PartialEq, Eq, Structural)]
pub enum Monster {
    Orc,
    Troll,
}

/// The most monsters a room gets at a dungeon level.
pub open spec fn max_monsters_at(level: u32) -> u32 {
    if level >= 6 {
        5
    } else if level >= 4 {
        3
    } else if level >= 1 {
        2
    } else {
        0
    }
}

/// The most items a room gets at a dungeon level.
pub open spec fn max_items_at(level: u32) -> u32 {
    if level >= 4 {
        2
    } else if level >= 1 {
        1
    } else {
        0
    }
}

/// The weight with which a kind of monster is drawn at a dungeon level.
pub open spec fn monster_chance_at(kind: Monster, level: u32) -> u32 {
    match kind {
        Monster::Orc => 80,
        Monster::Troll => if level >= 7 {
            60
        } else if level >= 5 {
            30
        } else if level >= 3 {
            15
        } else {
            0
        },
    }
}

/// The weight with which a kind of item is drawn at a dungeon level.
pub open spec fn item_chance_at(item: Item, level: u32) -> u32 {
    match item {
        Item::Heal => 35,
        Item::Lightning => if level >= 4 {
            25
        } else {
            0
        },
        Item::Fireball => if level >= 6 {
            25
        } else {
            0
        },
        Item::Confuse => if level >= 2 {
            10
        } else {
            0
        },
        Item::Sword => if level >= 4 {
            5
        } else {
            0
        },
        Item::Shield => if level >= 8 {
            15
        } else {
            0
        },
    }
}

/// The kinds of monster in the order of their weights.
pub open spec fn monster_order() -> Seq<Monster> {
    seq![Monster::Orc, Monster::Troll]
}

/// The kinds of item in the order of their weights.
pub open spec fn item_order() -> Seq<Item> {
    seq![Item::Heal, Item::Lightning, Item::Fireball, Item::Confuse, Item::Sword, Item::Shield]
}

proof fn lemma_table_unfold(table: Seq<Transition>, level: u32)
    requires
        table.len() > 0,
    ensures
        table_value(table, level) == if level >= table.last().level {
            table.last().value
        } else {
            table_value(table.drop_last(), level)
        },
{
}

proof fn lemma_table_one(level: u32, from: u32, value: u32)
    ensures
        table_value(seq![Transition { level: from, value }], level) == if level >= from {
            value
        } else {
            0
        },
{
    let t = seq![Transition { level: from, value }];
    lemma_table_unfold(t, level);
}

proof fn lemma_table_two(level: u32, a: Transition, b: Transition)
    ensures
        table_value(seq![a, b], level) == if level >= b.level {
            b.value
        } else if level >= a.level {
            a.value
        } else {
            0
        },
{
    let t = seq![a, b];
    assert(t.drop_last() =~= seq![a]);
    lemma_table_one(level, a.level, a.value);
}

proof fn lemma_table_three(level: u32, a: Transition, b: Transition, c: Transition)
    ensures
        table_value(seq![a, b, c], level) == if level >= c.level {
            c.value
        } else if level >= b.level {
            b.value
        } else if level >= a.level {
            a.value
        } else {
            0
        },
{
    let t = seq![a, b, c];
    assert(t.drop_last() =~= seq![a, b]);
    lemma_table_two(level, a, b);
}

fn single_step(from: u32, value: u32, level: u32) -> (v: u32)
    ensures
        v == if level >= from {
            value
        } else {
            0
        },
{
    let table = [Transition { level: from, value }];
    proof {
        assert(table@ =~= seq![Transition { level: from, value }]);
        lemma_table_one(level, from, value);
    }
    from_dungeon_level(table.as_slice(), level)
}

/// The most monsters a room gets at a dungeon level.
pub fn max_monsters(level: u32) -> (n: u32)
    ensures
        n == max_monsters_at(level),
{
    let a = Transition { level: 1, value: 2 };
    let b = Transition { level: 4, value: 3 };
    let c = Transition { level: 6, value: 5 };
    let table = [a, b, c];
    proof {
        lemma_table_three(level, a, b, c);
    }
    from_dungeon_level(table.as_slice(), level)
}

/// The most items a room gets at a dungeon level.
pub fn max_items(level: u32) -> (n: u32)
    ensures
        n == max_items_at(level),
{
    let a = Transition { level: 1, value: 1 };
    let b = Transition { level: 4, value: 2 };
    let table = [a, b];
    proof {
        lemma_table_two(level, a, b);
    }
    from_dungeon_level(table.as_slice(), level)
}

/// The weights of the kinds of monster at a dungeon level, in the order of
/// `monster_order`.
pub fn monster_chances(level: u32) -> (weights: Vec<u32>)
    ensures
        weights@ == monster_order().map_values(|kind: Monster| monster_chance_at(kind, level)),
{
    let a = Transition { level: 3, value: 15 };
    let b = Transition { level: 5, value: 30 };
    let c = Transition { level: 7, value: 60 };
    let table = [a, b, c];
    proof {
        lemma_table_three(level, a, b, c);
    }
    let troll_chance = from_dungeon_level(table.as_slice(), level);
    let mut weights: Vec<u32> = Vec::new();
    weights.push(80);
    weights.push(troll_chance);
    weights
}

/// The weights of the kinds of item at a dungeon level, in the order of
/// `item_order`.
pub fn item_chances(level: u32) -> (weights: Vec<u32>)
    ensures
        weights@ == item_order().map_values(|item: Item| item_chance_at(item, level)),
{
    let mut weights: Vec<u32> = Vec::new();
    weights.push(35);
    weights.push(single_step(4, 25, level));
    weights.push(single_step(6, 25, level));
    weights.push(single_step(2, 10, level));
    weights.push(single_step(4, 5, level));
    weights.push(single_step(8, 15, level));
    weights
}

/// The kind of monster at a position of `monster_order`.
pub fn monster_by_index(index: usize) -> (kind: Monster)
    requires
        index < 2,
    ensures
        kind == monster_order()[index as int],
{
    if index == 0 {
        Monster::Orc
    } else {
        Monster::Troll
    }
}

/// The kind of item at a position of `item_order`.
pub fn item_by_index(index: usize) -> (item: Item)
    requires
        index < 6,
    ensures
        item == item_order()[index as int],
{
    if index == 0 {
        Item::Heal
    } else if index == 1 {
        Item::Lightning
    } else if index == 2 {
        Item::Fireball
    } else if index == 3 {
        Item::Confuse
    } else if index == 4 {
        Item::Sword
    } else {
        Item::Shield
    }
}

/// A freshly spawned monster of a kind, standing on `(x, y)`.
pub open spec fn monster_view(kind: Monster, x: i32, y: i32) -> ObjectView {
    match kind {
        Monster::Orc => ObjectView {
            fighter: Some(
                Fighter {
                    hp: 20,
                    base_max_hp: 20,
                    base_defense: 0,
                    base_power: 4,
                    on_death: DeathCallback::Monster,
                    xp: 35,
                },
            ),
            ai: Some(Ai::Basic),
            alive: true,
            ..ObjectView::bare(x, y, 'o', "orc"@, Color::DesaturatedGreen, true)
        },
        Monster::Troll => ObjectView {
            fighter: Some(
                Fighter {
                    hp: 30,
                    base_max_hp: 30,
                    base_defense: 2,
                    base_power: 8,
                    on_death: DeathCallback::Monster,
                    xp: 100,
                },
            ),
            ai: Some(Ai::Basic),
            alive: true,
            ..ObjectView::bare(x, y, 'T', "troll"@, Color::DarkerGreen, true)
        },
    }
}

/// A freshly spawned item of a kind, lying on `(x, y)`.
pub open spec fn item_view(item: Item, x: i32, y: i32) -> ObjectView {
    match item {
        Item::Heal => ObjectView {
            item: Some(Item::Heal),
            ..ObjectView::bare(x, y, '!', "healing potion"@, Color::Violet, false)
        },
        Item::Lightning => ObjectView {
            item: Some(Item::Lightning),
            ..ObjectView::bare(x, y, '#', "scroll of lightning bolt"@, Color::LightYellow, false)
        },
        Item::Fireball => ObjectView {
            item: Some(Item::Fireball),
            ..ObjectView::bare(x, y, '#', "scroll of fireball"@, Color::LightYellow, false)
        },
        Item::Confuse => ObjectView {
            item: Some(Item::Confuse),
            ..ObjectView::bare(x, y, '#', "scroll of confusion"@, Color::LightYellow, false)
        },
        Item::Sword => ObjectView {
            item: Some(Item::Sword),
            equipment: Some(
                Equipment {
                    slot: Slot::RightHand,
                    equipped: false,
                    max_hp_bonus: 0,
                    power_bonus: 3,
                    defense_bonus: 0,
                },
            ),
            ..ObjectView::bare(x, y, '/', "sword"@, Color::Sky, false)
        },
        Item::Shield => ObjectView {
            item: Some(Item::Shield),
            equipment: Some(
                Equipment {
                    slot: Slot::LeftHand,
                    equipped: false,
                    max_hp_bonus: 0,
                    power_bonus: 0,
                    defense_bonus: 1,
                },
            ),
            ..ObjectView::bare(x, y, '[', "shield"@, Color::DarkerOrange, false)
        },
    }
}

/// Makes a monster of a kind, standing on `(x, y)`.
pub fn make_monster(kind: Monster, x: i32, y: i32) -> (monster: Object)
    ensures
        monster@ == monster_view(kind, x, y),
{
    let mut monster = match kind {
        Monster::Orc => {
            let mut orc = Object::new(x, y, 'o', "orc", Color::DesaturatedGreen, true);
            orc.fighter = Some(
                Fighter {
                    hp: 20,
                    base_max_hp: 20,
                    base_defense: 0,
                    base_power: 4,
                    on_death: DeathCallback::Monster,
                    xp: 35,
                },
            );
            orc.ai = Some(Ai::Basic);
            orc
        },
        Monster::Troll => {
            let mut troll = Object::new(x, y, 'T', "troll", Color::DarkerGreen, true);
            troll.fighter = Some(
                Fighter {
                    hp: 30,
                    base_max_hp: 30,
                    base_defense: 2,
                    base_power: 8,
                    on_death: DeathCallback::Monster,
                    xp: 100,
                },
            );
            troll.ai = Some(Ai::Basic);
            troll
        },
    };
    monster.alive = true;
    monster
}

/// Makes an item of a kind, lying on `(x, y)`.
pub fn make_item(item: Item, x: i32, y: i32) -> (object: Object)
    ensures
        object@ == item_view(item, x, y),
{
    match item {
        Item::Heal => {
            let mut object = Object::new(x, y, '!', "healing potion", Color::Violet, false);
            object.item = Some(Item::Heal);
            object
        },
        Item::Lightning => {
            let mut object = Object::new(
                x,
                y,
                '#',
                "scroll of lightning bolt",
                Color::LightYellow,
                false,
            );
            object.item = Some(Item::Lightning);
            object
        },
        Item::Fireball => {
            let mut object = Object::new(x, y, '#', "scroll of fireball", Color::LightYellow, false);
            object.item = Some(Item::Fireball);
            object
        },
        Item::Confuse => {
            let mut object = Object::new(
                x,
                y,
                '#',
                "scroll of confusion",
                Color::LightYellow,
                false,
            );
            object.item = Some(Item::Confuse);
            object
        },
        Item::Sword => {
            let mut object = Object::new(x, y, '/', "sword", Color::Sky, false);
            object.item = Some(Item::Sword);
            object.equipment = Some(
                Equipment {
                    equipped: false,
                    slot: Slot::RightHand,
                    max_hp_bonus: 0,
                    power_bonus: 3,
                    defense_bonus: 0,
                },
            );
            object
        },
        Item::Shield => {
            let mut object = Object::new(x, y, '[', "shield", Color::DarkerOrange, false);
            object.item = Some(Item::Shield);
            object.equipment = Some(
                Equipment {
                    equipped: false,
                    slot: Slot::LeftHand,
                    max_hp_bonus: 0,
                    power_bonus: 0,
                    defense_bonus: 1,
                },
            );
            object
        },
    }
}

} // verus!

verus! {

/// Whether `(x, y)` lies strictly inside the room.
pub open spec fn inside(room: Rect, x: int, y: int) -> bool {
    room.x1 < x < room.x2 && room.y1 < y < room.y2
}

/// Whether the entity is a fresh monster inside the room, of a kind that
/// the dungeon level allows.
pub open spec fn is_monster_spawn(o: ObjectView, room: Rect, level: u32) -> bool {
    inside(room, o.x as int, o.y as int) && exists|kind: Monster|
        monster_chance_at(kind, level) > 0 && o == #[trigger] monster_view(kind, o.x, o.y)
}

/// Whether the entity is a fresh item inside the room, of a kind that the
/// dungeon level allows.
pub open spec fn is_item_spawn(o: ObjectView, room: Rect, level: u32) -> bool {
    inside(room, o.x as int, o.y as int) && exists|item: Item|
        item_chance_at(item, level) > 0 && o == #[trigger] item_view(item, o.x, o.y)
}

/// Whether the entities from position `from` up to `items_from` are at most
/// `max_monsters_at(level)` fresh monsters in the room, and those after them
/// at most `max_items_at(level)` fresh items in the room.
pub open spec fn monsters_then_items(
    objects: Seq<ObjectView>,
    from: int,
    items_from: int,
    room: Rect,
    level: u32,
) -> bool {
    &&& from <= items_from <= objects.len()
    &&& items_from - from <= max_monsters_at(level)
    &&& objects.len() - items_from <= max_items_at(level)
    &&& forall|i: int|
        from <= i < items_from ==> is_monster_spawn(#[trigger] objects[i], room, level)
    &&& forall|i: int|
        items_from <= i < objects.len() ==> is_item_spawn(#[trigger] objects[i], room, level)
}

/// Whether the entities from position `from` on were spawned into the room:
/// first the monsters, then the items, each on a cell that was not blocked by
/// the grid or by an entity before it.
pub open spec fn spawned_from(
    objects: Seq<ObjectView>,
    from: int,
    room: Rect,
    map: Seq<Seq<Tile>>,
    level: u32,
) -> bool {
    &&& 0 <= from <= objects.len()
    &&& exists|items_from: int| #[trigger]
        monsters_then_items(objects, from, items_from, room, level)
    &&& forall|i: int|
        from <= i < objects.len() ==> !blocked(
            map,
            objects.subrange(0, i),
            (#[trigger] objects[i]).x as int,
            objects[i].y as int,
        )
}

proof fn lemma_total_weight(weights: Seq<u32>, bound: int)
    requires
        forall|i: int| 0 <= i < weights.len() ==> weights[i] <= bound,
    ensures
        0 <= total_weight(weights) <= weights.len() * bound,
        forall|i: int| 0 <= i < weights.len() ==> weights[i] <= total_weight(weights),
    decreases weights.len(),
{
    if weights.len() > 0 {
        lemma_total_weight(weights.drop_last(), bound);
        assert((weights.len() - 1) * bound + bound == weights.len() * bound)
            by (nonlinear_arith);
        assert forall|i: int| 0 <= i < weights.len() implies weights[i] <= total_weight(
            weights,
        ) by {
            if i < weights.len() - 1 {
                assert(weights.drop_last()[i] == weights[i]);
            }
        }
    }
}

/// Whether a spawn can be put on the cell `(x, y)`: it lies inside the room
/// and is not blocked.
pub open spec fn free_in(
    room: Rect,
    map: Seq<Seq<Tile>>,
    objects: Seq<ObjectView>,
    x: int,
    y: int,
) -> bool {
    inside(room, x, y) && !blocked(map, objects, x, y)
}

/// Whether the cell `a` is read before the cell `b` when the cells are read
/// column by column.
pub open spec fn read_before(a: (i32, i32), b: (i32, i32)) -> bool {
    a.0 < b.0 || (a.0 == b.0 && a.1 < b.1)
}

proof fn lemma_listed_cells_are_counted(cells: Seq<(i32, i32)>, set: Set<(i32, i32)>)
    requires
        forall|i: int| 0 <= i < cells.len() ==> set.contains(#[trigger] cells[i]),
        forall|cell: (i32, i32)| set.contains(cell) ==> cells.contains(cell),
        forall|i: int, j: int|
            0 <= i < j < cells.len() ==> read_before(#[trigger] cells[i], #[trigger] cells[j]),
    ensures
        cells.to_set() == set,
        cells.len() == set.len(),
        set.finite(),
{
    cells.unique_seq_to_set();
    vstd::seq_lib::seq_to_set_is_finite(cells);
}

/// The set of the cells inside the room that a spawn can be put on.
pub open spec fn free_set(room: Rect, map: Seq<Seq<Tile>>, objects: Seq<ObjectView>) -> Set<
    (i32, i32),
> {
    Set::new(|cell: (i32, i32)| free_in(room, map, objects, cell.0 as int, cell.1 as int))
}

/// The number of the cells inside the room that a spawn can be put on.
pub open spec fn free_count(room: Rect, map: Seq<Seq<Tile>>, objects: Seq<ObjectView>) -> nat {
    free_set(room, map, objects).len()
}

/// An entity that joins the store takes the cell it stands on from the free
/// cells if it blocks, and leaves the free cells as they are if it does not.
pub proof fn lemma_free_cells_after_spawn(
    room: Rect,
    map: Seq<Seq<Tile>>,
    objects: Seq<ObjectView>,
    spawn: ObjectView,
)
    ensures
        free_set(room, map, objects.push(spawn)) == if spawn.blocks {
            free_set(room, map, objects).remove((spawn.x, spawn.y))
        } else {
            free_set(room, map, objects)
        },
{
    let joined = objects.push(spawn);
    assert forall|x: int, y: int|
        occupied(joined, x, y) == (occupied(objects, x, y) || (spawn.blocks && spawn.is_at(
            x,
            y,
        ))) by {
        if occupied(objects, x, y) {
            let i = choose|i: int|
                0 <= i < objects.len() && (#[trigger] objects[i]).blocks && objects[i].is_at(x, y);
            assert(joined[i] == objects[i]);
        }
        if spawn.blocks && spawn.is_at(x, y) {
            assert(joined[objects.len() as int] == spawn);
        }
        if occupied(joined, x, y) {
            let i = choose|i: int|
                0 <= i < joined.len() && (#[trigger] joined[i]).blocks && joined[i].is_at(x, y);
        }
    }
}

/// The cells inside the room that a spawn can be put on, each once, column
/// by column.
pub fn free_cells(room: Rect, map: &TileMap, objects: &Vec<Object>) -> (cells: Vec<(i32, i32)>)
    ensures
        cells@.to_set() == free_set(room, grid_view(map@), object_views(objects@)),
        cells.len() == free_count(room, grid_view(map@), object_views(objects@)),
        free_set(room, grid_view(map@), object_views(objects@)).finite(),
        forall|i: int|
            0 <= i < cells.len() ==> free_in(
                room,
                grid_view(map@),
                object_views(objects@),
                (#[trigger] cells[i]).0 as int,
                cells[i].1 as int,
            ),
        forall|x: i32, y: i32| #[trigger]
            free_in(room, grid_view(map@), object_views(objects@), x as int, y as int)
                ==> cells@.contains((x, y)),
        forall|i: int, j: int|
            0 <= i < j < cells.len() ==> read_before(#[trigger] cells[i], #[trigger] cells[j]),
{
    let mut cells: Vec<(i32, i32)> = Vec::new();
    let ghost grid = grid_view(map@);
    let ghost views = object_views(objects@);
    if room.x1 >= room.x2 || room.y1 >= room.y2 {
        proof {
            lemma_listed_cells_are_counted(cells@, free_set(room, grid, views));
        }
        return cells;
    }
    let mut x = room.x1 + 1;
    while x < room.x2
        invariant
            room.x1 < x <= room.x2,
            room.y1 < room.y2,
            grid == grid_view(map@),
            views == object_views(objects@),
            forall|i: int|
                0 <= i < cells.len() ==> free_in(
                    room,
                    grid,
                    views,
                    (#[trigger] cells[i]).0 as int,
                    cells[i].1 as int,
                ) && cells[i].0 < x,
            forall|cx: i32, cy: i32| #[trigger]
                free_in(room, grid, views, cx as int, cy as int) && cx < x ==> cells@.contains(
                    (cx, cy),
                ),
            forall|i: int, j: int|
                0 <= i < j < cells.len() ==> read_before(#[trigger] cells[i], #[trigger] cells[j]),
        decreases room.x2 - x,
    {
        let mut y = room.y1 + 1;
        while y < room.y2
            invariant
                room.x1 < x < room.x2,
                room.y1 < y <= room.y2,
                grid == grid_view(map@),
                views == object_views(objects@),
                forall|i: int|
                    0 <= i < cells.len() ==> free_in(
                        room,
                        grid,
                        views,
                        (#[trigger] cells[i]).0 as int,
                        cells[i].1 as int,
                    ) && read_before(cells[i], (x, y)),
                forall|cx: i32, cy: i32| #[trigger]
                    free_in(room, grid, views, cx as int, cy as int) && read_before(
                        (cx, cy),
                        (x, y),
                    ) ==> cells@.contains((cx, cy)),
                forall|i: int, j: int|
                    0 <= i < j < cells.len() ==> read_before(
                        #[trigger] cells[i],
                        #[trigger] cells[j],
                    ),
            decreases room.y2 - y,
        {
            let ghost earlier = cells@;
            if !is_blocked(x, y, map, objects) {
                cells.push((x, y));
                assert(cells@[earlier.len() as int] == (x, y));
            }
            proof {
                assert forall|cx: i32, cy: i32| #[trigger]
                    free_in(room, grid, views, cx as int, cy as int) && read_before(
                        (cx, cy),
                        (x, (y + 1) as i32),
                    ) implies cells@.contains((cx, cy)) by {
                    if read_before((cx, cy), (x, y)) {
                        let i = choose|i: int| 0 <= i < earlier.len() && earlier[i] == (cx, cy);
                        assert(cells@[i] == (cx, cy));
                    }
                }
            }
            y += 1;
        }
        x += 1;
    }
    proof {
        lemma_listed_cells_are_counted(cells@, free_set(room, grid, views));
    }
    cells
}

fn pick_index(len: usize) -> (index: usize)
    requires
        len > 0,
    ensures
        index < len,
{
    let bound = if len > i32::MAX as usize {
        i32::MAX
    } else {
        len as i32
    };
    random_range(0, bound) as usize
}

/// The number of monsters that a room with `free` free cells gets when
/// `num_monsters` were drawn: each takes a free cell, as long as there is one.
pub open spec fn monsters_placed(free: int, num_monsters: int) -> int {
    if num_monsters <= free {
        num_monsters
    } else {
        free
    }
}

/// The number of items that a room with `free` free cells gets when
/// `num_monsters` monsters and `num_items` items were drawn: all of them if
/// the monsters leave a cell free, and else none.
pub open spec fn items_placed(free: int, num_monsters: int, num_items: int) -> int {
    if free > num_monsters {
        num_items
    } else {
        0
    }
}

/// Populates a room with as many monsters and items as were drawn: first the
/// monsters, then the items, each on a cell drawn among those that are free
/// inside the room, and of a kind drawn for it. A monster takes its cell
/// from the free cells and an item does not; what finds no free cell is not
/// spawned.
pub fn populate(
    room: Rect,
    map: &TileMap,
    objects: &mut Vec<Object>,
    level: u32,
    num_monsters: u32,
    num_items: u32,
)
    requires
        num_monsters <= max_monsters_at(level),
        num_items <= max_items_at(level),
    ensures
        object_views(final(objects)@).subrange(0, old(objects).len() as int) == object_views(
            old(objects)@,
        ),
        spawned_from(
            object_views(final(objects)@),
            old(objects).len() as int,
            room,
            grid_view(map@),
            level,
        ),
        monsters_then_items(
            object_views(final(objects)@),
            old(objects).len() as int,
            old(objects).len() + monsters_placed(
                free_count(room, grid_view(map@), object_views(old(objects)@)) as int,
                num_monsters as int,
            ),
            room,
            level,
        ),
        final(objects).len() == old(objects).len() + monsters_placed(
            free_count(room, grid_view(map@), object_views(old(objects)@)) as int,
            num_monsters as int,
        ) + items_placed(
            free_count(room, grid_view(map@), object_views(old(objects)@)) as int,
            num_monsters as int,
            num_items as int,
        ),
{
    let ghost before = object_views(objects@);
    let ghost grid = grid_view(map@);
    let ghost free = free_count(room, grid, before) as int;
    let monster_chances = monster_chances(level);
    proof {
        lemma_total_weight(monster_chances@, 80);
        assert(monster_chances@[0] == 80);
    }
    let mut drawn: u32 = 0;
    while drawn < num_monsters
        invariant
            drawn <= num_monsters <= max_monsters_at(level),
            grid == grid_view(map@),
            monster_chances@ == monster_order().map_values(
                |kind: Monster| monster_chance_at(kind, level),
            ),
            0 < total_weight(monster_chances@) <= u32::MAX,
            objects.len() == before.len() + monsters_placed(free, drawn as int),
            free_count(room, grid, object_views(objects@)) == free - monsters_placed(
                free,
                drawn as int,
            ),
            object_views(objects@).subrange(0, before.len() as int) == before,
            forall|i: int|
                before.len() <= i < objects.len() ==> is_monster_spawn(
                    #[trigger] object_views(objects@)[i],
                    room,
                    level,
                ),
            forall|i: int|
                before.len() <= i < objects.len() ==> !blocked(
                    grid,
                    object_views(objects@).subrange(0, i),
                    (#[trigger] object_views(objects@)[i]).x as int,
                    object_views(objects@)[i].y as int,
                ),
        decreases num_monsters - drawn,
    {
        let cells = free_cells(room, map, objects);
        if cells.len() > 0 {
            let (x, y) = cells[pick_index(cells.len())];
            let choice = weighted_index(&monster_chances);
            let kind = monster_by_index(choice);
            let monster = make_monster(kind, x, y);
            let ghost earlier = object_views(objects@);
            objects.push(monster);
            proof {
                let now = object_views(objects@);
                assert(now =~= earlier.push(monster@));
                lemma_free_cells_after_spawn(room, grid, earlier, monster@);
                assert forall|i: int| before.len() <= i < objects.len() implies !blocked(
                    grid,
                    now.subrange(0, i),
                    (#[trigger] now[i]).x as int,
                    now[i].y as int,
                ) by {
                    if i < earlier.len() {
                        assert(now.subrange(0, i) =~= earlier.subrange(0, i));
                    }
                }
            }
        }
        drawn += 1;
    }
    let ghost items_from = objects.len() as int;
    let ghost left = free - monsters_placed(free, num_monsters as int);
    let item_chances = item_chances(level);
    proof {
        lemma_total_weight(item_chances@, 35);
        assert(item_chances@[0] == 35);
    }
    let mut drawn: u32 = 0;
    while drawn < num_items
        invariant
            drawn <= num_items <= max_items_at(level),
            grid == grid_view(map@),
            item_chances@ == item_order().map_values(|item: Item| item_chance_at(item, level)),
            0 < total_weight(item_chances@) <= u32::MAX,
            items_from == before.len() + monsters_placed(free, num_monsters as int),
            items_from - before.len() <= max_monsters_at(level),
            left == free - monsters_placed(free, num_monsters as int),
            free_count(room, grid, object_views(objects@)) == left,
            objects.len() == items_from + if left > 0 {
                drawn as int
            } else {
                0
            },
            object_views(objects@).subrange(0, before.len() as int) == before,
            forall|i: int|
                before.len() <= i < items_from ==> is_monster_spawn(
                    #[trigger] object_views(objects@)[i],
                    room,
                    level,
                ),
            forall|i: int|
                items_from <= i < objects.len() ==> is_item_spawn(
                    #[trigger] object_views(objects@)[i],
                    room,
                    level,
                ),
            forall|i: int|
                before.len() <= i < objects.len() ==> !blocked(
                    grid,
                    object_views(objects@).subrange(0, i),
                    (#[trigger] object_views(objects@)[i]).x as int,
                    object_views(objects@)[i].y as int,
                ),
        decreases num_items - drawn,
    {
        let cells = free_cells(room, map, objects);
        if cells.len() > 0 {
            let (x, y) = cells[pick_index(cells.len())];
            let choice = weighted_index(&item_chances);
            let kind = item_by_index(choice);
            let item = make_item(kind, x, y);
            let ghost earlier = object_views(objects@);
            objects.push(item);
            proof {
                let now = object_views(objects@);
                assert(now =~= earlier.push(item@));
                lemma_free_cells_after_spawn(room, grid, earlier, item@);
                assert forall|i: int| before.len() <= i < objects.len() implies !blocked(
                    grid,
                    now.subrange(0, i),
                    (#[trigger] now[i]).x as int,
                    now[i].y as int,
                ) by {
                    if i < earlier.len() {
                        assert(now.subrange(0, i) =~= earlier.subrange(0, i));
                    }
                }
            }
        }
        drawn += 1;
    }
    assert(monsters_then_items(
        object_views(objects@),
        before.len() as int,
        items_from,
        room,
        level,
    ));
}

/// Populates a room: draws how many monsters and how many items it gets,
/// each number from none up to the most that the dungeon level allows, and
/// spawns them.
pub fn place_objects(room: Rect, map: &TileMap, objects: &mut Vec<Object>, level: u32)
    ensures
        object_views(final(objects)@).subrange(0, old(objects).len() as int) == object_views(
            old(objects)@,
        ),
        spawned_from(
            object_views(final(objects)@),
            old(objects).len() as int,
            room,
            grid_view(map@),
            level,
        ),
{
    let max_monsters = max_monsters(level);
    let num_monsters = random_range(0, max_monsters as i32 + 1);
    let max_items = max_items(level);
    let num_items = random_range(0, max_items as i32 + 1);
    populate(room, map, objects, level, num_monsters as u32, num_items as u32);
}

} // verus!
