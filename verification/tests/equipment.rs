use roguelike::color::Color;
use roguelike::entity::{Equipment, Game, Item, Object, Slot};
use roguelike::equipment::{get_equipped_in_slot, toggle_equipment, UseResult};
use roguelike::inventory::{drop_item, pick_item_up};
use roguelike::mapgen::solid_map;

fn gear_e(name: &str, slot: Slot, equipped: bool) -> Object {
    let mut o = Object::new(2, 3, '/', name, Color::Sky, false);
    o.item = Some(Item::Sword);
    o.equipment = Some(Equipment {
        slot,
        equipped,
        max_hp_bonus: 0,
        power_bonus: 1,
        defense_bonus: 0,
    });
    o
}

fn potion_e(name: &str) -> Object {
    let mut o = Object::new(2, 3, '!', name, Color::Violet, false);
    o.item = Some(Item::Heal);
    o
}

fn game_e() -> Game {
    Game { map: solid_map(), log: Vec::new(), inventory: Vec::new(), dungeon_level: 1 }
}

fn equipped_e(o: &Object) -> bool {
    o.equipment.unwrap().equipped
}

#[test]
fn equipping_b_after_a_in_the_same_slot_takes_a_off() {
    let mut game = game_e();
    game.inventory.push(gear_e("A", Slot::LeftHand, false));
    game.inventory.push(gear_e("B", Slot::LeftHand, false));
    assert_eq!(toggle_equipment(0, &mut game), UseResult::UsedAndKept);
    assert!(equipped_e(&game.inventory[0]));
    assert!(!equipped_e(&game.inventory[1]));
    assert_eq!(toggle_equipment(1, &mut game), UseResult::UsedAndKept);
    assert!(!equipped_e(&game.inventory[0]));
    assert!(equipped_e(&game.inventory[1]));
    assert_eq!(get_equipped_in_slot(Slot::LeftHand, &game.inventory), Some(1));
    assert_eq!(game.log.len(), 3);
    assert_eq!(game.log[0].text, "Equipped A on left hand.");
    assert_eq!(game.log[0].color, Color::LightGreen);
    assert_eq!(game.log[1].text, "Dequipped A from left hand.");
    assert_eq!(game.log[1].color, Color::LightYellow);
    assert_eq!(game.log[2].text, "Equipped B on left hand.");
}

#[test]
fn equipping_in_another_slot_leaves_the_first_alone() {
    let mut game = game_e();
    game.inventory.push(gear_e("A", Slot::LeftHand, true));
    game.inventory.push(gear_e("B", Slot::RightHand, false));
    game.inventory.push(gear_e("C", Slot::Head, false));
    toggle_equipment(1, &mut game);
    toggle_equipment(2, &mut game);
    assert!(equipped_e(&game.inventory[0]));
    assert!(equipped_e(&game.inventory[1]));
    assert!(equipped_e(&game.inventory[2]));
    assert_eq!(game.log[0].text, "Equipped B on right hand.");
    assert_eq!(game.log[1].text, "Equipped C on head.");
}

#[test]
fn toggling_an_equipped_item_takes_it_off() {
    let mut game = game_e();
    game.inventory.push(gear_e("A", Slot::Head, true));
    assert_eq!(toggle_equipment(0, &mut game), UseResult::UsedAndKept);
    assert!(!equipped_e(&game.inventory[0]));
    assert_eq!(game.log[0].text, "Dequipped A from head.");
    assert_eq!(get_equipped_in_slot(Slot::Head, &game.inventory), None);
}

#[test]
fn toggling_what_is_no_equipment_is_cancelled() {
    let mut game = game_e();
    game.inventory.push(potion_e("healing potion"));
    assert_eq!(toggle_equipment(0, &mut game), UseResult::Cancelled);
    assert!(game.log.is_empty());
}

#[test]
fn get_equipped_in_slot_finds_the_first() {
    let mut inventory = Vec::new();
    inventory.push(potion_e("healing potion"));
    inventory.push(gear_e("A", Slot::LeftHand, false));
    inventory.push(gear_e("B", Slot::RightHand, true));
    inventory.push(gear_e("C", Slot::LeftHand, true));
    inventory.push(gear_e("D", Slot::LeftHand, true));
    assert_eq!(get_equipped_in_slot(Slot::LeftHand, &inventory), Some(3));
    assert_eq!(get_equipped_in_slot(Slot::RightHand, &inventory), Some(2));
    assert_eq!(get_equipped_in_slot(Slot::Head, &inventory), None);
}

#[test]
fn equip_and_dequip_set_the_flag_once() {
    let mut log = Vec::new();
    let mut a = gear_e("A", Slot::RightHand, false);
    a.equip(&mut log);
    assert!(equipped_e(&a));
    a.equip(&mut log);
    assert_eq!(log.len(), 1);
    a.dequip(&mut log);
    assert!(!equipped_e(&a));
    a.dequip(&mut log);
    assert_eq!(log.len(), 2);
    assert_eq!(log[0].text, "Equipped A on right hand.");
    assert_eq!(log[1].text, "Dequipped A from right hand.");
}

#[test]
fn equipping_what_is_no_item_complains() {
    let mut log = Vec::new();
    let mut stairs = Object::new(1, 1, '<', "stairs", Color::White, false);
    stairs.equip(&mut log);
    assert_eq!(log.len(), 1);
    assert_eq!(log[0].color, Color::Red);
    assert!(log[0].text.starts_with("Can't equip Object {"));
    assert!(log[0].text.contains("name: \"stairs\""));
    assert!(log[0].text.ends_with(" because it's not an Item."));
    stairs.dequip(&mut log);
    assert!(log[1].text.starts_with("Can't dequip Object {"));
    assert!(log[1].text.ends_with(" because it's not an Item."));
}

#[test]
fn equipping_an_item_without_equipment_complains() {
    let mut log = Vec::new();
    let mut potion = potion_e("healing potion");
    potion.equip(&mut log);
    assert!(log[0].text.starts_with("Can't equip Object {"));
    assert!(log[0].text.ends_with(" because it's not an Equipment."));
    potion.dequip(&mut log);
    assert!(log[1].text.starts_with("Can't dequip Object {"));
    assert!(log[1].text.ends_with(" because it's not an Equipment."));
    assert_eq!(log[1].color, Color::Red);
}

#[test]
fn slot_names_are_spelled_out() {
    assert_eq!(Slot::LeftHand.name(), "left hand");
    assert_eq!(Slot::RightHand.name(), "right hand");
    assert_eq!(Slot::Head.name(), "head");
}

#[test]
fn picking_up_moves_the_item_to_the_inventory() {
    let player = Object::new(2, 3, '@', "player", Color::White, true);
    let mut objects = vec![player, potion_e("healing potion"), potion_e("second"), potion_e("third")];
    let mut game = game_e();
    pick_item_up(1, &mut objects, &mut game);
    assert_eq!(objects.len(), 3);
    assert_eq!(objects[0].name, "player");
    assert_eq!(objects[1].name, "third");
    assert_eq!(objects[2].name, "second");
    assert_eq!(game.inventory.len(), 1);
    assert_eq!(game.inventory[0].name, "healing potion");
    assert_eq!(game.log[0].text, "You picked up a healing potion!");
    assert_eq!(game.log[0].color, Color::Green);
}

#[test]
fn picking_up_equipment_equips_it_into_a_free_slot() {
    let player = Object::new(2, 3, '@', "player", Color::White, true);
    let mut objects = vec![
        player,
        gear_e("sword", Slot::RightHand, false),
        gear_e("axe", Slot::RightHand, false),
    ];
    let mut game = game_e();
    pick_item_up(1, &mut objects, &mut game);
    assert!(equipped_e(&game.inventory[0]));
    assert_eq!(game.log[1].text, "Equipped sword on right hand.");
    pick_item_up(1, &mut objects, &mut game);
    assert_eq!(game.inventory[1].name, "axe");
    assert!(!equipped_e(&game.inventory[1]));
    assert!(equipped_e(&game.inventory[0]));
    assert_eq!(game.log.len(), 3);
    assert_eq!(objects.len(), 1);
}

#[test]
fn full_inventory_refuses_one_more() {
    let player = Object::new(2, 3, '@', "player", Color::White, true);
    let mut objects = vec![player, potion_e("healing potion")];
    let mut game = game_e();
    for _ in 0..26 {
        game.inventory.push(potion_e("filler"));
    }
    pick_item_up(1, &mut objects, &mut game);
    assert_eq!(objects.len(), 2);
    assert_eq!(game.inventory.len(), 26);
    assert_eq!(game.log[0].text, "Your inventory is full, cannot pick up healing potion.");
    assert_eq!(game.log[0].color, Color::Red);
}

#[test]
fn inventory_takes_a_twenty_sixth_item() {
    let player = Object::new(2, 3, '@', "player", Color::White, true);
    let mut objects = vec![player, potion_e("healing potion")];
    let mut game = game_e();
    for _ in 0..25 {
        game.inventory.push(potion_e("filler"));
    }
    pick_item_up(1, &mut objects, &mut game);
    assert_eq!(objects.len(), 1);
    assert_eq!(game.inventory.len(), 26);
}

#[test]
fn dropping_puts_the_item_where_the_player_stands() {
    let player = Object::new(7, 9, '@', "player", Color::White, true);
    let mut objects = vec![player];
    let mut game = game_e();
    game.inventory.push(potion_e("first"));
    game.inventory.push(potion_e("second"));
    game.inventory.push(potion_e("third"));
    drop_item(1, &mut objects, &mut game);
    assert_eq!(game.inventory.len(), 2);
    assert_eq!(game.inventory[0].name, "first");
    assert_eq!(game.inventory[1].name, "third");
    assert_eq!(objects.len(), 2);
    assert_eq!(objects[1].name, "second");
    assert_eq!(objects[1].pos(), (7, 9));
    assert_eq!(game.log[0].text, "You dropped a second.");
    assert_eq!(game.log[0].color, Color::Yellow);
}

#[test]
fn dropping_equipment_takes_it_off_first() {
    let player = Object::new(7, 9, '@', "player", Color::White, true);
    let mut objects = vec![player];
    let mut game = game_e();
    game.inventory.push(gear_e("sword", Slot::RightHand, true));
    drop_item(0, &mut objects, &mut game);
    assert!(!equipped_e(&objects[1]));
    assert_eq!(game.log.len(), 2);
    assert_eq!(game.log[0].text, "Dequipped sword from right hand.");
    assert_eq!(game.log[1].text, "You dropped a sword.");
}
