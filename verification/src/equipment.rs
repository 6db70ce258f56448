//! Wearing and taking off equipment: at most one equipped item per slot.

use vstd::prelude::*;
use crate::color::Color;
use crate::entity::{object_views, Equipment, Game, GameView, Object, ObjectView, Slot};
use crate::log::{add_message, log_added, log_view, Messages};
use crate::messages::{
    cannot_message, cannot_text, dequipped_message, dequipped_text, equipped_message,
    equipped_text,
};

verus! {

/// What using an item comes to.
#[derive(Clone, Copy, Debug, PartialEq, Eq, Structural)]
pub enum UseResult {
    UsedUp,
    Cancelled,
    UsedAndKept,
}

/// Whether the entity is an item with equipment whose equipped flag is
/// `equipped`, so that equipping or taking off changes it.
pub open spec fn wearable(o: ObjectView, equipped: bool) -> bool {
    o.item is Some && o.equipment is Some && o.equipment.unwrap().equipped == equipped
}

/// The entity with its equipped flag set.
pub open spec fn with_equipped(o: ObjectView, equipped: bool) -> ObjectView {
    match o.equipment {
        Some(e) => ObjectView { equipment: Some(Equipment { equipped, ..e }), ..o },
        None => o,
    }
}

/// The entity after equipping it.
pub open spec fn after_equip(o: ObjectView) -> ObjectView {
    if wearable(o, false) {
        with_equipped(o, true)
    } else {
        o
    }
}

/// The entity after taking it off.
pub open spec fn after_dequip(o: ObjectView) -> ObjectView {
    if wearable(o, true) {
        with_equipped(o, false)
    } else {
        o
    }
}

/// The log after equipping the entity: a line for the equipping, a complaint
/// about an entity that is no item or no equipment, and nothing where the
/// entity is equipped already.
pub open spec fn log_after_equip(log: Seq<(Seq<char>, Color)>, o: ObjectView) -> Seq<
    (Seq<char>, Color),
> {
    if o.item is None {
        log_added(log, cannot_text("equip"@, o, "an Item"@), Color::Red)
    } else {
        match o.equipment {
            Some(e) => if e.equipped {
                log
            } else {
                log_added(log, equipped_text(o.name, e.slot.label()), Color::LightGreen)
            },
            None => log_added(log, cannot_text("equip"@, o, "an Equipment"@), Color::Red),
        }
    }
}

/// The log after taking the entity off.
pub open spec fn log_after_dequip(log: Seq<(Seq<char>, Color)>, o: ObjectView) -> Seq<
    (Seq<char>, Color),
> {
    if o.item is None {
        log_added(log, cannot_text("dequip"@, o, "an Item"@), Color::Red)
    } else {
        match o.equipment {
            Some(e) => if e.equipped {
                log_added(log, dequipped_text(o.name, e.slot.label()), Color::LightYellow)
            } else {
                log
            },
            None => log_added(log, cannot_text("dequip"@, o, "an Equipment"@), Color::Red),
        }
    }
}

impl Object {
    /// Equips the entity, if it is an item with equipment that is not
    /// equipped yet.
    pub fn equip(&mut self, log: &mut Messages)
        ensures
            final(self)@ == after_equip(old(self)@),
            log_view(final(log)@) == log_after_equip(log_view(old(log)@), old(self)@),
    {
        if self.item.is_none() {
            add_message(log, cannot_message("equip", self, "an Item"), Color::Red);
            return ;
        }
        match self.equipment {
            Some(mut equipment) => {
                if !equipment.equipped {
                    equipment.equipped = true;
                    self.equipment = Some(equipment);
                    add_message(
                        log,
                        equipped_message(self.name.as_str(), equipment.slot.name()),
                        Color::LightGreen,
                    );
                }
            },
            None => {
                add_message(log, cannot_message("equip", self, "an Equipment"), Color::Red);
            },
        }
    }

    /// Takes the entity off, if it is an item with equipment that is
    /// equipped.
    pub fn dequip(&mut self, log: &mut Messages)
        ensures
            final(self)@ == after_dequip(old(self)@),
            log_view(final(log)@) == log_after_dequip(log_view(old(log)@), old(self)@),
    {
        if self.item.is_none() {
            add_message(log, cannot_message("dequip", self, "an Item"), Color::Red);
            return ;
        }
        match self.equipment {
            Some(mut equipment) => {
                if equipment.equipped {
                    equipment.equipped = false;
                    self.equipment = Some(equipment);
                    add_message(
                        log,
                        dequipped_message(self.name.as_str(), equipment.slot.name()),
                        Color::LightYellow,
                    );
                }
            },
            None => {
                add_message(log, cannot_message("dequip", self, "an Equipment"), Color::Red);
            },
        }
    }
}

/// Whether the entity is equipped in the slot.
pub open spec fn in_slot(o: ObjectView, slot: Slot) -> bool {
    o.equipment is Some && o.equipment.unwrap().equipped && o.equipment.unwrap().slot == slot
}

/// The position of the first entity from `from` on that is equipped in the
/// slot.
pub open spec fn first_in_slot(inventory: Seq<ObjectView>, slot: Slot, from: int) -> Option<int>
    decreases inventory.len() - from,
{
    if from < 0 || from >= inventory.len() {
        None
    } else if in_slot(inventory[from], slot) {
        Some(from)
    } else {
        first_in_slot(inventory, slot, from + 1)
    }
}

/// Finds the first item of the inventory that is equipped in the slot.
pub fn get_equipped_in_slot(slot: Slot, inventory: &Vec<Object>) -> (found: Option<usize>)
    ensures
        match found {
            Some(id) => id < inventory.len() && first_in_slot(object_views(inventory@), slot, 0)
                == Some(id as int),
            None => first_in_slot(object_views(inventory@), slot, 0) is None,
        },
{
    let mut id: usize = 0;
    while id < inventory.len()
        invariant
            id <= inventory.len(),
            first_in_slot(object_views(inventory@), slot, 0) == first_in_slot(
                object_views(inventory@),
                slot,
                id as int,
            ),
        decreases inventory.len() - id,
    {
        match inventory[id].equipment {
            Some(e) => {
                if e.equipped && e.slot == slot {
                    return Some(id);
                }
            },
            None => {},
        }
        id += 1;
    }
    None
}

/// The inventory with the item at `id` taken off.
pub open spec fn inventory_dequipped(game: GameView, id: int) -> GameView {
    GameView {
        inventory: game.inventory.update(id, after_dequip(game.inventory[id])),
        log: log_after_dequip(game.log, game.inventory[id]),
        ..game
    }
}

/// The inventory with the item at `id` equipped.
pub open spec fn inventory_equipped(game: GameView, id: int) -> GameView {
    GameView {
        inventory: game.inventory.update(id, after_equip(game.inventory[id])),
        log: log_after_equip(game.log, game.inventory[id]),
        ..game
    }
}

/// The game after toggling the item at `id`: an equipped item is taken off;
/// another is equipped, after the first item equipped in its slot was taken
/// off. An entity without equipment changes nothing.
pub open spec fn toggled(game: GameView, id: int) -> GameView {
    match game.inventory[id].equipment {
        Some(e) => if e.equipped {
            inventory_dequipped(game, id)
        } else {
            match first_in_slot(game.inventory, e.slot, 0) {
                Some(occupant) => inventory_equipped(inventory_dequipped(game, occupant), id),
                None => inventory_equipped(game, id),
            }
        },
        None => game,
    }
}

/// Takes the item at `id` off.
pub fn dequip_item(id: usize, game: &mut Game)
    requires
        id < old(game).inventory.len(),
    ensures
        final(game)@ == inventory_dequipped(old(game)@, id as int),
        final(game).inventory.len() == old(game).inventory.len(),
{
    game.inventory[id].dequip(&mut game.log);
    assert(object_views(game.inventory@) =~= old(game)@.inventory.update(
        id as int,
        after_dequip(old(game)@.inventory[id as int]),
    ));
}

/// Equips the item at `id`.
pub fn equip_item(id: usize, game: &mut Game)
    requires
        id < old(game).inventory.len(),
    ensures
        final(game)@ == inventory_equipped(old(game)@, id as int),
        final(game).inventory.len() == old(game).inventory.len(),
{
    game.inventory[id].equip(&mut game.log);
    assert(object_views(game.inventory@) =~= old(game)@.inventory.update(
        id as int,
        after_equip(old(game)@.inventory[id as int]),
    ));
}

/// Toggles the equipment at `id`: takes it off if it is equipped, and else
/// equips it in place of what its slot held.
pub fn toggle_equipment(inventory_id: usize, game: &mut Game) -> (result: UseResult)
    requires
        inventory_id < old(game).inventory.len(),
    ensures
        final(game)@ == toggled(old(game)@, inventory_id as int),
        final(game).inventory.len() == old(game).inventory.len(),
        result == if old(game)@.inventory[inventory_id as int].equipment is Some {
            UseResult::UsedAndKept
        } else {
            UseResult::Cancelled
        },
{
    let equipment = match game.inventory[inventory_id].equipment {
        Some(equipment) => equipment,
        None => {
            return UseResult::Cancelled;
        },
    };
    if equipment.equipped {
        dequip_item(inventory_id, game);
    } else {
        if let Some(old_equipment) = get_equipped_in_slot(equipment.slot, &game.inventory) {
            dequip_item(old_equipment, game);
        }
        equip_item(inventory_id, game);
    }
    UseResult::UsedAndKept
}

/// Whether every entity is an item: the inventory holds nothing else.
pub open spec fn all_items(inventory: Seq<ObjectView>) -> bool {
    forall|i: int| 0 <= i < inventory.len() ==> (#[trigger] inventory[i]).item is Some
}

/// Whether both entities are equipped, in the same slot.
pub open spec fn share_slot(a: ObjectView, b: ObjectView) -> bool {
    a.equipment is Some && in_slot(b, a.equipment.unwrap().slot) && in_slot(
        a,
        a.equipment.unwrap().slot,
    )
}

/// Whether no slot holds two equipped items.
pub open spec fn slots_exclusive(inventory: Seq<ObjectView>) -> bool {
    forall|i: int, j: int|
        0 <= i < j < inventory.len() ==> !share_slot(#[trigger] inventory[i], #[trigger] inventory[j])
}

/// The first item equipped in a slot is an item equipped in that slot; there
/// is none only where no item from the start of the search on is.
pub proof fn lemma_first_in_slot(inventory: Seq<ObjectView>, slot: Slot, from: int)
    requires
        0 <= from,
    ensures
        match first_in_slot(inventory, slot, from) {
            Some(id) => from <= id < inventory.len() && in_slot(inventory[id], slot),
            None => forall|i: int| from <= i < inventory.len() ==> !in_slot(inventory[i], slot),
        },
    decreases inventory.len() - from,
{
    if from < inventory.len() && !in_slot(inventory[from], slot) {
        lemma_first_in_slot(inventory, slot, from + 1);
    }
}

/// One item per slot. In an inventory of items with no slot held twice,
/// toggling an item that is not equipped equips it, takes off what its slot
/// held, and leaves no slot held twice; toggling an equipped item takes it
/// off.
pub proof fn lemma_toggle_keeps_slots_exclusive(game: GameView, id: int)
    requires
        0 <= id < game.inventory.len(),
        all_items(game.inventory),
        slots_exclusive(game.inventory),
        game.inventory[id].equipment is Some,
    ensures
        all_items(toggled(game, id).inventory),
        slots_exclusive(toggled(game, id).inventory),
        toggled(game, id).inventory.len() == game.inventory.len(),
        toggled(game, id).inventory[id].equipment.unwrap().equipped
            != game.inventory[id].equipment.unwrap().equipped,
        forall|i: int|
            0 <= i < game.inventory.len() && i != id ==> !in_slot(
                #[trigger] toggled(game, id).inventory[i],
                game.inventory[id].equipment.unwrap().slot,
            ),
{
    let e = game.inventory[id].equipment.unwrap();
    if !e.equipped {
        lemma_first_in_slot(game.inventory, e.slot, 0);
    }
}

} // verus!
