//! The texts and choices of the menus: what a key picks from a list of
//! options, and what the lists of the inventory, of a level-up and of the
//! character sheet say.

use vstd::prelude::*;
use vstd::string::StringExecFns;
use crate::entity::{object_views, Fighter, Game, Object, ObjectView, PLAYER};
use crate::level::{level_fits, level_up_xp, LEVEL_UP_BASE, LEVEL_UP_FACTOR};
use crate::stats::{computable, effective, Stat};
use crate::text::{append_decimal, decimal_text};

verus! {

/// The most options a menu can offer: one for each letter.
pub const MENU_SIZE: usize = 26;

/// The position of a letter in the alphabet, whatever its case.
pub open spec fn letter_index(c: char) -> Option<int> {
    if 'a' <= c <= 'z' {
        Some(c as int - 'a' as int)
    } else if 'A' <= c <= 'Z' {
        Some(c as int - 'A' as int)
    } else {
        None
    }
}

/// The option that a key picks from a menu of `options` entries: the one at
/// the position of the key's letter, if there is one.
pub open spec fn menu_choice(c: char, options: usize) -> Option<usize> {
    match letter_index(c) {
        Some(i) => if i < options {
            Some(i as usize)
        } else {
            None
        },
        None => None,
    }
}

/// The option that a key picks from a menu of `options` entries.
pub fn menu_index(printable: char, options: usize) -> (choice: Option<usize>)
    requires
        options <= MENU_SIZE,
    ensures
        choice == menu_choice(printable, options),
{
    let code = printable as u32;
    let index = if 'a' as u32 <= code && code <= 'z' as u32 {
        code - 'a' as u32
    } else if 'A' as u32 <= code && code <= 'Z' as u32 {
        code - 'A' as u32
    } else {
        return None;
    };
    if (index as usize) < options {
        Some(index as usize)
    } else {
        None
    }
}

/// The statistic that an option of the level-up menu raises.
pub fn stat_for_choice(choice: usize) -> (raise: Stat)
    requires
        choice < 3,
    ensures
        raise == if choice == 0 {
            Stat::MaxHp
        } else if choice == 1 {
            Stat::Power
        } else {
            Stat::Defense
        },
{
    if choice == 0 {
        Stat::MaxHp
    } else if choice == 1 {
        Stat::Power
    } else {
        Stat::Defense
    }
}

/// How the inventory menu lists an item: by its name, with the slot of an
/// equipped item after it.
pub open spec fn item_label(o: ObjectView) -> Seq<char> {
    match o.equipment {
        Some(e) => if e.equipped {
            o.name + " (on "@ + e.slot.label() + ")"@
        } else {
            o.name
        },
        None => o.name,
    }
}

/// The options of the inventory menu: one for each item, or a single line
/// that says that there is none.
pub open spec fn inventory_labels(inventory: Seq<ObjectView>) -> Seq<Seq<char>> {
    if inventory.len() == 0 {
        seq!["Inventory is empty"@]
    } else {
        inventory.map_values(|o: ObjectView| item_label(o))
    }
}

/// The texts of a list of strings.
pub open spec fn texts(lines: Seq<String>) -> Seq<Seq<char>> {
    lines.map_values(|line: String| line@)
}

/// The options of the inventory menu.
pub fn inventory_options(inventory: &Vec<Object>) -> (options: Vec<String>)
    ensures
        texts(options@) == inventory_labels(object_views(inventory@)),
{
    let mut options: Vec<String> = Vec::new();
    if inventory.len() == 0 {
        options.push(String::from_str("Inventory is empty"));
        return options;
    }
    let mut i: usize = 0;
    while i < inventory.len()
        invariant
            i <= inventory.len(),
            options.len() == i,
            forall|j: int|
                0 <= j < i ==> (#[trigger] options[j])@ == item_label(object_views(inventory@)[j]),
        decreases inventory.len() - i,
    {
        let item = &inventory[i];
        let mut label = item.name.clone();
        match item.equipment {
            Some(equipment) => {
                if equipment.equipped {
                    label.append(" (on ");
                    label.append(equipment.slot.name());
                    label.append(")");
                }
            },
            None => {},
        }
        options.push(label);
        i += 1;
    }
    options
}

/// What the inventory menu returns for a choice: nothing can be chosen from
/// an empty inventory, whose menu shows one line all the same.
pub fn inventory_choice(inventory: &Vec<Object>, choice: Option<usize>) -> (index: Option<usize>)
    ensures
        index == if inventory.len() > 0 {
            choice
        } else {
            None
        },
{
    if inventory.len() > 0 {
        choice
    } else {
        None
    }
}

/// The options of the level-up menu for a fighter.
pub open spec fn training_labels(f: Fighter) -> Seq<Seq<char>> {
    seq![
        "Constitution (+20 HP, from "@ + decimal_text(f.base_max_hp as int) + ")"@,
        "Strength (+1 attack, from "@ + decimal_text(f.base_power as int) + ")"@,
        "Agility (+1 defense, from "@ + decimal_text(f.base_defense as int) + ")"@,
    ]
}

fn training_option(text: &str, value: i32) -> (option: String)
    ensures
        option@ == text@ + decimal_text(value as int) + ")"@,
{
    let mut option = String::from_str(text);
    append_decimal(&mut option, value);
    option.append(")");
    option
}

/// The options of the level-up menu for a fighter.
pub fn level_up_options(fighter: &Fighter) -> (options: Vec<String>)
    ensures
        texts(options@) == training_labels(*fighter),
{
    let mut options: Vec<String> = Vec::new();
    options.push(training_option("Constitution (+20 HP, from ", fighter.base_max_hp));
    options.push(training_option("Strength (+1 attack, from ", fighter.base_power));
    options.push(training_option("Agility (+1 defense, from ", fighter.base_defense));
    options
}

/// What the character sheet says of the player.
pub open spec fn sheet_text(player: ObjectView, inventory: Seq<ObjectView>) -> Seq<char> {
    "Character information\n\nLevel: "@ + decimal_text(player.level as int) + "\nExperience: "@
        + decimal_text(player.fighter.unwrap().xp as int) + "\nExperience to level up: "@
        + decimal_text(level_up_xp(player.level as int)) + "\n\nMaximum HP: "@ + decimal_text(
        effective(player, inventory, Stat::MaxHp),
    ) + "\nAttack: "@ + decimal_text(effective(player, inventory, Stat::Power)) + "\nDefense: "@
        + decimal_text(effective(player, inventory, Stat::Defense))
}

/// Whether the character sheet can be computed in machine integers.
pub open spec fn sheet_fits(player: ObjectView, inventory: Seq<ObjectView>) -> bool {
    &&& level_fits(player)
    &&& player.fighter is Some ==> computable(player, inventory, Stat::MaxHp) && computable(
        player,
        inventory,
        Stat::Power,
    ) && computable(player, inventory, Stat::Defense)
}

/// The character sheet of the player, if the player is a fighter.
pub fn character_sheet(objects: &Vec<Object>, game: &Game) -> (sheet: Option<String>)
    requires
        objects.len() > 0,
        sheet_fits(objects[0]@, game@.inventory),
    ensures
        match sheet {
            Some(text) => objects[0].fighter is Some && text@ == sheet_text(
                objects[0]@,
                game@.inventory,
            ),
            None => objects[0].fighter is None,
        },
{
    let player = &objects[PLAYER];
    let level = player.level;
    let level_up_xp = LEVEL_UP_BASE + player.level * LEVEL_UP_FACTOR;
    match player.fighter {
        Some(fighter) => {
            let mut msg = String::from_str("Character information\n\nLevel: ");
            append_decimal(&mut msg, level);
            msg.append("\nExperience: ");
            append_decimal(&mut msg, fighter.xp);
            msg.append("\nExperience to level up: ");
            append_decimal(&mut msg, level_up_xp);
            msg.append("\n\nMaximum HP: ");
            append_decimal(&mut msg, player.max_hp(game));
            msg.append("\nAttack: ");
            append_decimal(&mut msg, player.power(game));
            msg.append("\nDefense: ");
            append_decimal(&mut msg, player.defense(game));
            Some(msg)
        },
        None => None,
    }
}

} // verus!
