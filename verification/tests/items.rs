use roguelike::color::Color;
use roguelike::entity::{Ai, DeathCallback, Equipment, Fighter, Game, Item, Object, Slot};
use roguelike::equipment::UseResult;
use roguelike::fov::FovMap;
use roguelike::items::{
    begin_use, can_target, cast_confuse, cast_fireball, cast_heal, cast_lightning,
    closest_monster, monster_at, use_item, Selection, Targeting,
};
use roguelike::tile::{Tile, TileMap};

fn open_map_i() -> TileMap {
    vec![vec![Tile::empty(); 30]; 30]
}

fn game_i() -> Game {
    Game { map: open_map_i(), log: Vec::new(), inventory: Vec::new(), dungeon_level: 1 }
}

fn all_seen_i() -> FovMap {
    let mut fov = FovMap::new(30, 30);
    for x in 0..30 {
        for y in 0..30 {
            fov.set(x, y, true);
        }
    }
    fov
}

fn player_i(hp: i32) -> Object {
    let mut o = Object::new(10, 10, '@', "player", Color::White, true);
    o.alive = true;
    o.fighter = Some(Fighter {
        hp,
        base_max_hp: 100,
        base_defense: 1,
        base_power: 2,
        on_death: DeathCallback::Player,
        xp: 0,
    });
    o
}

fn orc_i(x: i32, y: i32, hp: i32) -> Object {
    let mut o = Object::new(x, y, 'o', "orc", Color::DesaturatedGreen, true);
    o.alive = true;
    o.fighter = Some(Fighter {
        hp,
        base_max_hp: hp,
        base_defense: 0,
        base_power: 4,
        on_death: DeathCallback::Monster,
        xp: 35,
    });
    o.ai = Some(Ai::Basic);
    o
}

fn item_i(name: &str, kind: Item) -> Object {
    let mut o = Object::new(0, 0, '#', name, Color::LightYellow, false);
    o.item = Some(kind);
    o
}

#[test]
fn healing_potion_restores_forty_hit_points() {
    let mut objects = vec![player_i(50)];
    let mut game = game_i();
    assert_eq!(cast_heal(&mut objects, &mut game), UseResult::UsedUp);
    assert_eq!(objects[0].fighter.unwrap().hp, 90);
    assert_eq!(game.log[0].text, "Your wounds start to feel better!");
    assert_eq!(game.log[0].color, Color::LightViolet);
}

#[test]
fn healing_potion_stops_at_the_maximum() {
    let mut objects = vec![player_i(99)];
    let mut game = game_i();
    assert_eq!(cast_heal(&mut objects, &mut game), UseResult::UsedUp);
    assert_eq!(objects[0].fighter.unwrap().hp, 100);
}

#[test]
fn healing_potion_is_kept_at_full_health() {
    let mut objects = vec![player_i(100)];
    let mut game = game_i();
    assert_eq!(cast_heal(&mut objects, &mut game), UseResult::Cancelled);
    assert_eq!(objects[0].fighter.unwrap().hp, 100);
    assert_eq!(game.log[0].text, "You are already at full health");
    assert_eq!(game.log[0].color, Color::Red);
}

#[test]
fn healing_potion_does_nothing_for_who_cannot_fight() {
    let mut objects = vec![Object::new(1, 1, '@', "player", Color::White, true)];
    let mut game = game_i();
    assert_eq!(cast_heal(&mut objects, &mut game), UseResult::Cancelled);
    assert!(game.log.is_empty());
}

#[test]
fn closest_monster_is_the_nearest_in_sight_and_range() {
    let objects = vec![
        player_i(100),
        orc_i(14, 10, 20),
        orc_i(12, 11, 20),
        orc_i(11, 12, 20),
        orc_i(10, 17, 20),
    ];
    let fov = all_seen_i();
    assert_eq!(closest_monster(5, &objects, &fov), Some(2));
    assert_eq!(closest_monster(1, &objects, &fov), None);
    assert_eq!(closest_monster(-1, &objects, &fov), None);
    assert_eq!(closest_monster(-7, &objects, &fov), None);
}

#[test]
fn closest_monster_reaches_as_far_as_the_range() {
    let fov = all_seen_i();
    let at_range = vec![player_i(100), orc_i(15, 10, 20)];
    assert_eq!(closest_monster(5, &at_range, &fov), Some(1));
    let beyond = vec![player_i(100), orc_i(16, 10, 20)];
    assert_eq!(closest_monster(5, &beyond, &fov), None);
    let just_beyond = vec![player_i(100), orc_i(15, 11, 20)];
    assert_eq!(closest_monster(5, &just_beyond, &fov), None);
    let mut diagonal = vec![player_i(100), orc_i(13, 14, 20)];
    assert_eq!(closest_monster(5, &diagonal, &fov), Some(1));
    diagonal[1].set_pos(14, 14);
    assert_eq!(closest_monster(5, &diagonal, &fov), None);
}

#[test]
fn closest_monster_with_no_range_reaches_the_own_cell_only() {
    let fov = all_seen_i();
    let mut objects = vec![player_i(100), orc_i(10, 10, 20)];
    assert_eq!(closest_monster(0, &objects, &fov), Some(1));
    objects[1].set_pos(11, 10);
    assert_eq!(closest_monster(0, &objects, &fov), None);
    assert_eq!(closest_monster(1, &objects, &fov), Some(1));
}

#[test]
fn lightning_leaves_a_monster_just_out_of_range_alone() {
    let mut objects = vec![player_i(100), orc_i(15, 11, 20), orc_i(10, 15, 50)];
    let mut game = game_i();
    let fov = all_seen_i();
    assert_eq!(cast_lightning(&mut objects, &mut game, &fov), UseResult::UsedUp);
    assert_eq!(objects[1].fighter.unwrap().hp, 20);
    assert_eq!(objects[2].fighter.unwrap().hp, 10);
    objects[2].set_pos(10, 16);
    assert_eq!(cast_lightning(&mut objects, &mut game, &fov), UseResult::Cancelled);
    assert_eq!(objects[1].fighter.unwrap().hp, 20);
    assert_eq!(objects[2].fighter.unwrap().hp, 10);
}

#[test]
fn closest_monster_skips_what_is_out_of_sight_or_no_monster() {
    let mut objects = vec![player_i(100), orc_i(11, 10, 20), orc_i(12, 10, 20), orc_i(13, 10, 20)];
    objects[1].ai = None;
    objects[2].fighter = None;
    let mut fov = FovMap::new(30, 30);
    assert_eq!(closest_monster(5, &objects, &fov), None);
    fov.set(11, 10, true);
    fov.set(12, 10, true);
    assert_eq!(closest_monster(5, &objects, &fov), None);
    fov.set(13, 10, true);
    assert_eq!(closest_monster(5, &objects, &fov), Some(3));
}

#[test]
fn lightning_strikes_the_nearest_monster() {
    let mut objects = vec![player_i(100), orc_i(14, 10, 50), orc_i(12, 10, 50)];
    let mut game = game_i();
    let fov = all_seen_i();
    assert_eq!(cast_lightning(&mut objects, &mut game, &fov), UseResult::UsedUp);
    assert_eq!(objects[1].fighter.unwrap().hp, 50);
    assert_eq!(objects[2].fighter.unwrap().hp, 10);
    assert_eq!(game.log.len(), 1);
    assert_eq!(
        game.log[0].text,
        "A lightning bolt strikes the orc with a loud thunder! The damage is 40 hit points."
    );
    assert_eq!(game.log[0].color, Color::LightBlue);
    assert_eq!(objects[0].fighter.unwrap().xp, 0);
}

#[test]
fn lightning_that_kills_gives_the_experience_to_the_player() {
    let mut objects = vec![player_i(100), orc_i(12, 10, 20)];
    let mut game = game_i();
    let fov = all_seen_i();
    assert_eq!(cast_lightning(&mut objects, &mut game, &fov), UseResult::UsedUp);
    assert_eq!(objects[1].name, "remains of orc");
    assert!(objects[1].fighter.is_none());
    assert_eq!(objects[0].fighter.unwrap().xp, 35);
    assert_eq!(game.log.len(), 2);
    assert_eq!(game.log[1].text, "orc is dead! You gain 35 experience points.");
}

#[test]
fn lightning_without_a_target_is_cancelled() {
    let mut objects = vec![player_i(100), orc_i(25, 25, 20)];
    let mut game = game_i();
    let fov = all_seen_i();
    assert_eq!(cast_lightning(&mut objects, &mut game, &fov), UseResult::Cancelled);
    assert_eq!(objects[1].fighter.unwrap().hp, 20);
    assert_eq!(game.log[0].text, "No enemy is close enough to strike.");
    assert_eq!(game.log[0].color, Color::Red);
}

#[test]
fn confusion_wraps_the_behaviour_for_ten_turns() {
    let mut objects = vec![player_i(100), orc_i(12, 10, 20)];
    let mut game = game_i();
    assert_eq!(cast_confuse(&mut objects, &mut game, Some(1)), UseResult::UsedUp);
    assert_eq!(
        objects[1].ai,
        Some(Ai::Confused { previous_ai: Box::new(Ai::Basic), num_turns: 10 })
    );
    assert_eq!(
        game.log[0].text,
        "The eyes of orc look vacant, as he starts to stumble around!"
    );
    assert_eq!(game.log[0].color, Color::LightGreen);
    assert_eq!(cast_confuse(&mut objects, &mut game, Some(1)), UseResult::UsedUp);
    assert_eq!(
        objects[1].ai,
        Some(Ai::Confused {
            previous_ai: Box::new(Ai::Confused {
                previous_ai: Box::new(Ai::Basic),
                num_turns: 10
            }),
            num_turns: 10
        })
    );
}

#[test]
fn confusion_gives_a_behaviour_to_what_had_none() {
    let mut objects = vec![player_i(100), orc_i(12, 10, 20)];
    objects[1].ai = None;
    let mut game = game_i();
    cast_confuse(&mut objects, &mut game, Some(1));
    assert_eq!(
        objects[1].ai,
        Some(Ai::Confused { previous_ai: Box::new(Ai::Basic), num_turns: 10 })
    );
}

#[test]
fn confusion_without_a_target_is_cancelled() {
    let mut objects = vec![player_i(100), orc_i(12, 10, 20)];
    let mut game = game_i();
    assert_eq!(cast_confuse(&mut objects, &mut game, None), UseResult::Cancelled);
    assert_eq!(objects[1].ai, Some(Ai::Basic));
    assert_eq!(game.log[0].text, "No enemy is close enough to strike.");
}

#[test]
fn fireball_burns_every_fighter_within_three_cells() {
    let mut objects = vec![
        player_i(100),
        orc_i(20, 20, 30),
        orc_i(23, 20, 20),
        orc_i(22, 22, 25),
        orc_i(23, 21, 30),
        item_i("scroll", Item::Fireball),
    ];
    objects[5].set_pos(20, 20);
    let mut game = game_i();
    assert_eq!(cast_fireball(&mut objects, &mut game, Some((20, 20))), UseResult::UsedUp);
    assert_eq!(objects[0].fighter.unwrap().hp, 100);
    assert_eq!(objects[1].fighter.unwrap().hp, 5);
    assert_eq!(objects[2].name, "remains of orc");
    assert_eq!(objects[3].name, "remains of orc");
    assert_eq!(objects[4].fighter.unwrap().hp, 30);
    assert_eq!(objects[0].fighter.unwrap().xp, 70);
    let lines: Vec<&str> = game.log.iter().map(|m| m.text.as_str()).collect();
    assert_eq!(
        lines,
        vec![
            "The fireball explodes, burning everything within 3 tiles!",
            "The orc get burned for 25 hit points.",
            "The orc get burned for 25 hit points.",
            "orc is dead! You gain 35 experience points.",
            "The orc get burned for 25 hit points.",
            "orc is dead! You gain 35 experience points.",
        ]
    );
    assert!(game.log.iter().all(|m| m.color == Color::Orange));
}

#[test]
fn fireball_burns_the_player_too_without_gain() {
    let mut objects = vec![player_i(20), orc_i(11, 10, 100)];
    objects[0].fighter.as_mut().unwrap().xp = 5;
    let mut game = game_i();
    assert_eq!(cast_fireball(&mut objects, &mut game, Some((10, 10))), UseResult::UsedUp);
    assert!(!objects[0].alive);
    assert_eq!(objects[0].fighter.unwrap().hp, -5);
    assert_eq!(objects[0].fighter.unwrap().xp, 5);
    assert_eq!(objects[1].fighter.unwrap().hp, 75);
    assert_eq!(game.log[2].text, "You died!");
}

#[test]
fn fireball_that_hits_nothing_is_used_up_all_the_same() {
    let mut objects = vec![player_i(100), orc_i(11, 10, 100)];
    let mut game = game_i();
    assert_eq!(cast_fireball(&mut objects, &mut game, Some((25, 25))), UseResult::UsedUp);
    assert_eq!(game.log.len(), 1);
    assert_eq!(objects[1].fighter.unwrap().hp, 100);
}

#[test]
fn fireball_without_a_cell_is_cancelled() {
    let mut objects = vec![player_i(100), orc_i(11, 10, 100)];
    let mut game = game_i();
    assert_eq!(cast_fireball(&mut objects, &mut game, None), UseResult::Cancelled);
    assert!(game.log.is_empty());
}

#[test]
fn used_up_item_leaves_the_inventory() {
    let mut objects = vec![player_i(50)];
    let mut game = game_i();
    game.inventory.push(item_i("scroll", Item::Lightning));
    game.inventory.push(item_i("healing potion", Item::Heal));
    let fov = all_seen_i();
    let result = use_item(1, &mut objects, &mut game, &fov, Selection::Nothing);
    assert_eq!(result, UseResult::UsedUp);
    assert_eq!(game.inventory.len(), 1);
    assert_eq!(game.inventory[0].name, "scroll");
    assert_eq!(objects[0].fighter.unwrap().hp, 90);
}

#[test]
fn cancelled_item_stays_and_says_so() {
    let mut objects = vec![player_i(100)];
    let mut game = game_i();
    game.inventory.push(item_i("healing potion", Item::Heal));
    game.inventory.push(item_i("scroll of lightning bolt", Item::Lightning));
    let fov = all_seen_i();
    assert_eq!(
        use_item(0, &mut objects, &mut game, &fov, Selection::Nothing),
        UseResult::Cancelled
    );
    assert_eq!(game.inventory.len(), 2);
    assert_eq!(game.log[0].text, "You are already at full health");
    assert_eq!(game.log[1].text, "Cancelled");
    assert_eq!(game.log[1].color, Color::White);
    assert_eq!(
        use_item(1, &mut objects, &mut game, &fov, Selection::Nothing),
        UseResult::Cancelled
    );
    assert_eq!(game.log[2].text, "No enemy is close enough to strike.");
    assert_eq!(game.log[3].text, "Cancelled");
    assert_eq!(game.inventory.len(), 2);
}

#[test]
fn equipment_is_used_and_kept() {
    let mut objects = vec![player_i(100)];
    let mut game = game_i();
    let mut sword = item_i("sword", Item::Sword);
    sword.equipment = Some(Equipment {
        slot: Slot::RightHand,
        equipped: false,
        max_hp_bonus: 0,
        power_bonus: 3,
        defense_bonus: 0,
    });
    game.inventory.push(sword);
    let fov = all_seen_i();
    assert_eq!(
        use_item(0, &mut objects, &mut game, &fov, Selection::Nothing),
        UseResult::UsedAndKept
    );
    assert_eq!(game.inventory.len(), 1);
    assert!(game.inventory[0].equipment.unwrap().equipped);
    assert_eq!(objects[0].power(&game), 5);
    assert_eq!(game.log.len(), 1);
}

#[test]
fn what_is_no_item_cannot_be_used() {
    let mut objects = vec![player_i(100)];
    let mut game = game_i();
    game.inventory.push(Object::new(0, 0, '?', "pebble", Color::White, false));
    let fov = all_seen_i();
    assert_eq!(
        use_item(0, &mut objects, &mut game, &fov, Selection::Nothing),
        UseResult::Cancelled
    );
    assert_eq!(game.log.len(), 1);
    assert_eq!(game.log[0].text, "The pebble cannot be used.");
    assert_eq!(game.log[0].color, Color::White);
    assert_eq!(game.inventory.len(), 1);
}

#[test]
fn scrolls_use_what_was_chosen_for_them() {
    let mut objects = vec![player_i(100), orc_i(12, 10, 20), orc_i(20, 20, 20)];
    let mut game = game_i();
    game.inventory.push(item_i("scroll of confusion", Item::Confuse));
    game.inventory.push(item_i("scroll of fireball", Item::Fireball));
    let fov = all_seen_i();
    assert_eq!(
        use_item(0, &mut objects, &mut game, &fov, Selection::Monster(1)),
        UseResult::UsedUp
    );
    assert!(matches!(objects[1].ai, Some(Ai::Confused { num_turns: 10, .. })));
    assert_eq!(game.inventory.len(), 1);
    assert_eq!(
        use_item(0, &mut objects, &mut game, &fov, Selection::Tile(20, 21)),
        UseResult::UsedUp
    );
    assert_eq!(objects[2].name, "remains of orc");
    assert_eq!(objects[0].fighter.unwrap().xp, 35);
    assert!(game.inventory.is_empty());
}

#[test]
fn scrolls_without_a_choice_are_cancelled() {
    let mut objects = vec![player_i(100), orc_i(12, 10, 20)];
    let mut game = game_i();
    game.inventory.push(item_i("scroll of confusion", Item::Confuse));
    game.inventory.push(item_i("scroll of fireball", Item::Fireball));
    let fov = all_seen_i();
    assert_eq!(
        use_item(0, &mut objects, &mut game, &fov, Selection::Nothing),
        UseResult::Cancelled
    );
    assert_eq!(
        use_item(1, &mut objects, &mut game, &fov, Selection::Monster(1)),
        UseResult::Cancelled
    );
    assert_eq!(
        use_item(0, &mut objects, &mut game, &fov, Selection::Tile(12, 10)),
        UseResult::Cancelled
    );
    assert_eq!(game.inventory.len(), 2);
    let lines: Vec<&str> = game.log.iter().map(|m| m.text.as_str()).collect();
    assert_eq!(
        lines,
        vec![
            "No enemy is close enough to strike.",
            "Cancelled",
            "Cancelled",
            "No enemy is close enough to strike.",
            "Cancelled",
        ]
    );
}

#[test]
fn begin_use_tells_how_to_choose_a_target() {
    let mut game = game_i();
    game.inventory.push(item_i("scroll of confusion", Item::Confuse));
    game.inventory.push(item_i("scroll of fireball", Item::Fireball));
    game.inventory.push(item_i("healing potion", Item::Heal));
    game.inventory.push(Object::new(0, 0, '?', "pebble", Color::White, false));
    assert_eq!(begin_use(0, &mut game), Targeting::Monster { max_range: 8 });
    assert_eq!(begin_use(1, &mut game), Targeting::Tile);
    assert_eq!(begin_use(2, &mut game), Targeting::Nothing);
    assert_eq!(begin_use(3, &mut game), Targeting::Nothing);
    assert_eq!(game.log.len(), 2);
    assert_eq!(
        game.log[0].text,
        "Left-click an enemy to confuse it, or right-click to cancel."
    );
    assert_eq!(
        game.log[1].text,
        "Left-click a target tile for the fireball, or right-click to cancel."
    );
    assert_eq!(game.log[0].color, Color::LightCyan);
    assert_eq!(game.log[1].color, Color::LightCyan);
}

#[test]
fn targets_must_be_in_sight_and_range() {
    let objects = vec![player_i(100)];
    let mut fov = FovMap::new(30, 30);
    fov.set(18, 10, true);
    fov.set(19, 10, true);
    fov.set(15, 16, true);
    assert!(can_target(18, 10, &objects, &fov, Some(8)));
    assert!(!can_target(19, 10, &objects, &fov, Some(8)));
    assert!(can_target(19, 10, &objects, &fov, None));
    assert!(can_target(15, 16, &objects, &fov, Some(8)));
    assert!(!can_target(15, 16, &objects, &fov, Some(7)));
    assert!(!can_target(17, 10, &objects, &fov, Some(8)));
    assert!(!can_target(18, 10, &objects, &fov, Some(-1)));
    assert!(!can_target(-1, 10, &objects, &fov, None));
}

#[test]
fn monster_at_finds_the_first_fighter_but_the_player() {
    let mut objects = vec![player_i(100), item_i("scroll", Item::Heal), orc_i(5, 5, 20), orc_i(5, 5, 20)];
    objects[1].set_pos(5, 5);
    assert_eq!(monster_at(&objects, 5, 5), Some(2));
    assert_eq!(monster_at(&objects, 10, 10), None);
    assert_eq!(monster_at(&objects, 6, 5), None);
}

#[test]
fn squared_distances_are_exact() {
    let a = player_i(100);
    let b = orc_i(13, 14, 20);
    assert_eq!(a.distance_squared(13, 14), 25);
    assert_eq!(a.distance_squared_to(&b), 25);
    assert_eq!(b.distance_squared_to(&a), 25);
    assert_eq!(a.distance_squared(10, 10), 0);
    let far = Object::new(i32::MIN, i32::MIN, 'x', "far", Color::White, false);
    let expected = 2 * (u32::MAX as i128) * (u32::MAX as i128);
    assert_eq!(far.distance_squared(i32::MAX, i32::MAX), expected);
}
