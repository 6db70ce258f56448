//! What holds of a game at all times: entities stand on floor, the
//! inventory holds items with no slot taken twice, and nothing on the floor
//! is equipped.

use vstd::prelude::*;
use crate::ai::{lemma_first_fighter_at, turn_outcome};
use crate::entity::{object_views, Game, GameView, Object, ObjectView};
use crate::equipment::{
    all_items, lemma_first_in_slot, lemma_toggle_keeps_slots_exclusive, share_slot,
    slots_exclusive, toggled,
};
use crate::inventory::{picked_up, INVENTORY_SIZE};
use crate::items::{lemma_closest_is_nearest, LIGHTNING_RANGE};
use crate::mapgen::level_generated;
use crate::movement::is_wall;
use crate::spawn::inside;
use crate::tile::{wall_at, Rect, Tile};
use crate::turn::{
    action_fits, after_turns, drawn, game_started, handled, hero_view, item_underfoot,
    lemma_first_item_at, monsters_act, rested, stairs_underfoot, turn_played, Action,
    PlayerAction,
};

verus! {

/// Whether every entity stands on a cell of the grid that can be walked on.
pub open spec fn on_floor(objects: Seq<ObjectView>, map: Seq<Seq<Tile>>) -> bool {
    forall|i: int|
        0 <= i < objects.len() ==> !wall_at(
            map,
            (#[trigger] objects[i]).x as int,
            objects[i].y as int,
        )
}

/// Whether no entity is equipped.
pub open spec fn none_equipped(objects: Seq<ObjectView>) -> bool {
    forall|i: int|
        0 <= i < objects.len() ==> !((#[trigger] objects[i]).equipment matches Some(e)
            && e.equipped)
}

/// Whether the world is sound: the store has its player, every entity of the
/// store stands on floor and is not equipped, and the inventory holds at
/// most 26 items, with no slot taken twice.
pub open spec fn world_sound(objects: Seq<ObjectView>, game: GameView) -> bool {
    &&& objects.len() > 0
    &&& on_floor(objects, game.map)
    &&& none_equipped(objects)
    &&& game.inventory.len() <= INVENTORY_SIZE
    &&& all_items(game.inventory)
    &&& slots_exclusive(game.inventory)
}

fn stands_on_floor(objects: &Vec<Object>, game: &Game) -> (b: bool)
    ensures
        b == (on_floor(object_views(objects@), game@.map) && none_equipped(object_views(objects@))),
{
    let mut i: usize = 0;
    while i < objects.len()
        invariant
            i <= objects.len(),
            forall|j: int|
                0 <= j < i ==> !wall_at(
                    game@.map,
                    (#[trigger] object_views(objects@)[j]).x as int,
                    object_views(objects@)[j].y as int,
                ),
            forall|j: int|
                0 <= j < i ==> !((#[trigger] object_views(objects@)[j]).equipment matches Some(e)
                    && e.equipped),
        decreases objects.len() - i,
    {
        let equipped = match objects[i].equipment {
            Some(e) => e.equipped,
            None => false,
        };
        if equipped || is_wall(objects[i].x, objects[i].y, &game.map) {
            assert(object_views(objects@)[i as int] == objects[i as int]@);
            return false;
        }
        i += 1;
    }
    true
}

fn shares_slot(a: &Object, b: &Object) -> (shared: bool)
    ensures
        shared == share_slot(a@, b@),
{
    match (a.equipment, b.equipment) {
        (Some(e), Some(f)) => e.equipped && f.equipped && e.slot == f.slot,
        _ => false,
    }
}

fn inventory_is_sound(inventory: &Vec<Object>) -> (b: bool)
    ensures
        b == (inventory.len() <= INVENTORY_SIZE && all_items(object_views(inventory@))
            && slots_exclusive(object_views(inventory@))),
{
    if inventory.len() > INVENTORY_SIZE {
        return false;
    }
    let ghost views = object_views(inventory@);
    let mut j: usize = 0;
    while j < inventory.len()
        invariant
            j <= inventory.len(),
            views == object_views(inventory@),
            forall|k: int| 0 <= k < j ==> (#[trigger] views[k]).item is Some,
            forall|i: int, k: int|
                0 <= i < k < j ==> !share_slot(#[trigger] views[i], #[trigger] views[k]),
        decreases inventory.len() - j,
    {
        if inventory[j].item.is_none() {
            assert(views[j as int].item is None);
            return false;
        }
        let mut i: usize = 0;
        while i < j
            invariant
                i <= j < inventory.len(),
                views == object_views(inventory@),
                forall|h: int| 0 <= h < i ==> !share_slot(#[trigger] views[h], views[j as int]),
            decreases j - i,
        {
            if shares_slot(&inventory[i], &inventory[j]) {
                assert(share_slot(views[i as int], views[j as int]));
                return false;
            }
            i += 1;
        }
        j += 1;
    }
    true
}

/// Whether the world is sound.
pub fn is_world_sound(objects: &Vec<Object>, game: &Game) -> (b: bool)
    ensures
        b == world_sound(object_views(objects@), game@),
{
    objects.len() > 0 && stands_on_floor(objects, game) && inventory_is_sound(&game.inventory)
}

/// A generated level puts every entity on floor, and equips none.
pub proof fn lemma_level_is_on_floor(
    player: ObjectView,
    objects: Seq<ObjectView>,
    map: Seq<Seq<Tile>>,
    rooms: Seq<Rect>,
    level: u32,
)
    requires
        level_generated(player, objects, map, rooms, level),
        !(player.equipment matches Some(e) && e.equipped),
    ensures
        on_floor(objects, map),
        none_equipped(objects),
{
    let first = rooms[0];
    let last = rooms[rooms.len() - 1];
    assert(inside(first, first.middle().0, first.middle().1));
    assert(inside(last, last.middle().0, last.middle().1));
}

/// A new game is sound.
pub proof fn lemma_new_game_is_sound(objects: Seq<ObjectView>, game: GameView)
    requires
        game_started(objects, game),
    ensures
        world_sound(objects, game),
{
    let rooms = choose|rooms: Seq<Rect>| #[trigger]
        level_generated(hero_view(), objects, game.map, rooms, 1);
    lemma_level_is_on_floor(hero_view(), objects, game.map, rooms, 1);
}

proof fn lemma_pickup_keeps_inventory_sound(game: GameView, item: ObjectView)
    requires
        game.inventory.len() < INVENTORY_SIZE,
        all_items(game.inventory),
        slots_exclusive(game.inventory),
        item.item is Some,
        !(item.equipment matches Some(e) && e.equipped),
    ensures
        picked_up(game, item).inventory.len() == game.inventory.len() + 1,
        all_items(picked_up(game, item).inventory),
        slots_exclusive(picked_up(game, item).inventory),
{
    let held = game.inventory.push(item);
    match item.equipment {
        Some(e) => {
            lemma_first_in_slot(held, e.slot, 0);
        },
        None => {},
    }
}

proof fn lemma_toggle_keeps_inventory_sound(game: GameView, id: int)
    requires
        0 <= id < game.inventory.len(),
        all_items(game.inventory),
        slots_exclusive(game.inventory),
    ensures
        toggled(game, id).inventory.len() == game.inventory.len(),
        all_items(toggled(game, id).inventory),
        slots_exclusive(toggled(game, id).inventory),
{
    if game.inventory[id].equipment is Some {
        lemma_toggle_keeps_slots_exclusive(game, id);
    }
}

/// Every action leaves a sound world sound.
pub proof fn lemma_action_keeps_world_sound(
    action: Action,
    before: (Seq<ObjectView>, GameView),
    fov: Seq<Seq<bool>>,
    after: (Seq<ObjectView>, GameView),
    result: PlayerAction,
)
    requires
        world_sound(before.0, before.1),
        action_fits(action, before.0, before.1, fov),
        handled(action, before, fov, after, result),
    ensures
        world_sound(after.0, after.1),
{
    let objects = before.0;
    let game = before.1;
    if action != Action::Quit && objects[0].alive {
        match action {
            Action::Move(dx, dy) => {
                lemma_first_fighter_at(objects, objects[0].x + dx, objects[0].y + dy, 0);
            },
            Action::PickUp => {
                lemma_first_item_at(objects, objects[0].x as int, objects[0].y as int, 0);
                match item_underfoot(objects) {
                    Some(id) => {
                        if game.inventory.len() < INVENTORY_SIZE {
                            lemma_pickup_keeps_inventory_sound(game, objects[id]);
                        }
                    },
                    None => {},
                }
            },
            Action::Use(id, selection) => {
                match game.inventory[id as int].item {
                    Some(item) => {
                        lemma_closest_is_nearest(
                            objects,
                            fov,
                            LIGHTNING_RANGE as int,
                            objects.len() as int,
                        );
                        lemma_toggle_keeps_inventory_sound(game, id as int);
                    },
                    None => {},
                }
            },
            Action::Descend => {
                if stairs_underfoot(objects) {
                    let rooms = choose|rooms: Seq<Rect>| #[trigger]
                        level_generated(
                            rested(objects[0], game),
                            after.0,
                            after.1.map,
                            rooms,
                            (game.dungeon_level + 1) as u32,
                        );
                    lemma_level_is_on_floor(
                        rested(objects[0], game),
                        after.0,
                        after.1.map,
                        rooms,
                        (game.dungeon_level + 1) as u32,
                    );
                }
            },
            _ => {},
        }
    }
}

/// A turn of an entity leaves a sound world sound, wherever a confused
/// monster stumbles.
pub proof fn lemma_turn_keeps_world_sound(
    objects: Seq<ObjectView>,
    game: GameView,
    fov: Seq<Seq<bool>>,
    id: int,
    dx: int,
    dy: int,
)
    requires
        world_sound(objects, game),
        0 <= id < objects.len(),
    ensures
        world_sound(
            turn_outcome(objects, game, fov, id, dx, dy).0,
            turn_outcome(objects, game, fov, id, dx, dy).1,
        ),
        turn_outcome(objects, game, fov, id, dx, dy).0.len() == objects.len(),
{
}

/// The turns of the monsters leave a sound world sound.
pub proof fn lemma_turns_keep_world_sound(
    state: (Seq<ObjectView>, GameView),
    fov: Seq<Seq<bool>>,
    steps: Seq<(int, int)>,
    k: int,
)
    requires
        world_sound(state.0, state.1),
        k <= state.0.len(),
    ensures
        world_sound(after_turns(state, fov, steps, k).0, after_turns(state, fov, steps, k).1),
        after_turns(state, fov, steps, k).0.len() == state.0.len(),
    decreases k,
{
    if k > 0 {
        lemma_turns_keep_world_sound(state, fov, steps, k - 1);
        let earlier = after_turns(state, fov, steps, k - 1);
        lemma_turn_keeps_world_sound(
            earlier.0,
            earlier.1,
            fov,
            k - 1,
            steps[k - 1].0,
            steps[k - 1].1,
        );
    }
}

/// A whole turn, the player's action and the turns of the monsters after
/// it, leaves a sound world sound.
pub proof fn lemma_played_turn_keeps_world_sound(
    action: Action,
    before: (Seq<ObjectView>, GameView),
    fov: Seq<Seq<bool>>,
    resolved: (Seq<ObjectView>, GameView),
    after: (Seq<ObjectView>, GameView),
    result: PlayerAction,
)
    requires
        world_sound(before.0, before.1),
        action_fits(action, before.0, before.1, fov),
        turn_played(action, before, fov, resolved, after, result),
    ensures
        world_sound(after.0, after.1),
{
    lemma_action_keeps_world_sound(action, before, fov, resolved, result);
    if monsters_act(resolved, result) {
        let steps = choose|steps: Seq<(int, int)>|
            drawn(steps) && steps.len() == resolved.0.len() && after == #[trigger] after_turns(
                resolved,
                fov,
                steps,
                resolved.0.len() as int,
            );
        lemma_turns_keep_world_sound(resolved, fov, steps, resolved.0.len() as int);
    }
}

} // verus!
