//! Picking items up and dropping them.

use vstd::prelude::*;
use crate::color::Color;
use crate::entity::{object_views, Game, GameView, Object, ObjectView, PLAYER};
use crate::equipment::{
    after_dequip, after_equip, equip_item, first_in_slot, get_equipped_in_slot, log_after_dequip,
    log_after_equip,
};
use crate::log::{add_message, log_added};
use crate::messages::{
    dropped_message, dropped_text, inventory_full_message, inventory_full_text,
    picked_up_message, picked_up_text,
};

verus! {

/// The number of items the inventory holds at most.
pub const INVENTORY_SIZE: usize = 26;

/// The store after entity `id` left it: the last entity takes its place.
pub open spec fn without(objects: Seq<ObjectView>, id: int) -> Seq<ObjectView> {
    objects.update(id, objects.last()).drop_last()
}

/// The game after the entity was picked up: it joins the inventory, and is
/// equipped there if it is equipment whose slot is free.
pub open spec fn picked_up(game: GameView, item: ObjectView) -> GameView {
    let held = GameView {
        inventory: game.inventory.push(item),
        log: log_added(game.log, picked_up_text(item.name), Color::Green),
        ..game
    };
    match item.equipment {
        Some(e) => if first_in_slot(held.inventory, e.slot, 0) is None {
            GameView {
                inventory: held.inventory.update(game.inventory.len() as int, after_equip(item)),
                log: log_after_equip(held.log, item),
                ..held
            }
        } else {
            held
        },
        None => held,
    }
}

/// What picking entity `id` up comes to: with a full inventory a complaint
/// in the log, and else the entity leaves the store for the inventory.
pub open spec fn pickup_outcome(objects: Seq<ObjectView>, game: GameView, id: int) -> (
    Seq<ObjectView>,
    GameView,
) {
    if game.inventory.len() >= INVENTORY_SIZE {
        (
            objects,
            GameView {
                log: log_added(game.log, inventory_full_text(objects[id].name), Color::Red),
                ..game
            },
        )
    } else {
        (without(objects, id), picked_up(game, objects[id]))
    }
}

/// Picks entity `object_id` up from the floor, unless the inventory is full.
/// The player, the first entity of the store, cannot be picked up and stays
/// the first.
pub fn pick_item_up(object_id: usize, objects: &mut Vec<Object>, game: &mut Game)
    requires
        0 < object_id < old(objects).len(),
    ensures
        (object_views(final(objects)@), final(game)@) == pickup_outcome(
            object_views(old(objects)@),
            old(game)@,
            object_id as int,
        ),
        final(objects).len() > 0,
        object_views(final(objects)@)[0] == object_views(old(objects)@)[0],
{
    if game.inventory.len() >= INVENTORY_SIZE {
        add_message(
            &mut game.log,
            inventory_full_message(objects[object_id].name.as_str()),
            Color::Red,
        );
    } else {
        let item = objects.swap_remove(object_id);
        add_message(&mut game.log, picked_up_message(item.name.as_str()), Color::Green);
        let index = game.inventory.len();
        let slot = match item.equipment {
            Some(e) => Some(e.slot),
            None => None,
        };
        game.inventory.push(item);
        assert(object_views(game.inventory@) =~= old(game)@.inventory.push(item@));

        if let Some(slot) = slot {
            if get_equipped_in_slot(slot, &game.inventory).is_none() {
                equip_item(index, game);
            }
        }
    }
}

/// The entity as it lies on the floor after it was dropped at `(x, y)`.
pub open spec fn dropped(item: ObjectView, x: i32, y: i32) -> ObjectView {
    let off = if item.equipment is Some {
        after_dequip(item)
    } else {
        item
    };
    ObjectView { x, y, ..off }
}

/// The log after the entity was dropped.
pub open spec fn log_after_drop(log: Seq<(Seq<char>, Color)>, item: ObjectView) -> Seq<
    (Seq<char>, Color),
> {
    let off = if item.equipment is Some {
        log_after_dequip(log, item)
    } else {
        log
    };
    log_added(off, dropped_text(item.name), Color::Yellow)
}

/// What dropping the item at `id` of the inventory comes to: it leaves the
/// inventory and joins the store where the player stands.
pub open spec fn drop_outcome(objects: Seq<ObjectView>, game: GameView, id: int) -> (
    Seq<ObjectView>,
    GameView,
) {
    (
        objects.push(dropped(game.inventory[id], objects[0].x, objects[0].y)),
        GameView {
            inventory: game.inventory.remove(id),
            log: log_after_drop(game.log, game.inventory[id]),
            ..game
        },
    )
}

/// Drops the item at `inventory_id` where the player stands. Equipment is
/// taken off first.
pub fn drop_item(inventory_id: usize, objects: &mut Vec<Object>, game: &mut Game)
    requires
        inventory_id < old(game).inventory.len(),
        old(objects).len() > 0,
    ensures
        (object_views(final(objects)@), final(game)@) == drop_outcome(
            object_views(old(objects)@),
            old(game)@,
            inventory_id as int,
        ),
        final(objects).len() == old(objects).len() + 1,
{
    let mut item = game.inventory.remove(inventory_id);
    assert(object_views(game.inventory@) =~= old(game)@.inventory.remove(inventory_id as int));
    if item.equipment.is_some() {
        item.dequip(&mut game.log);
    }
    item.set_pos(objects[PLAYER].x, objects[PLAYER].y);
    add_message(&mut game.log, dropped_message(item.name.as_str()), Color::Yellow);
    objects.push(item);
}

} // verus!
