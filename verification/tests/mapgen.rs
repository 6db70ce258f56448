use roguelike::color::Color;
use roguelike::entity::{Ai, DeathCallback, Game, Item, Object, Slot};
use roguelike::mapgen::{
    connect, create_h_tunnel, create_room, create_v_tunnel, make_map, overlaps_any, solid_map,
    MAX_ROOMS, ROOM_MAX_SIZE, ROOM_MIN_SIZE,
};
use roguelike::movement::{is_blocked, is_wall};
use roguelike::spawn::{
    from_dungeon_level, item_by_index, item_chances, make_item, make_monster, max_items,
    max_monsters, monster_by_index, monster_chances, place_objects, Monster, Transition,
};
use roguelike::tile::{Rect, Tile, TileMap, MAP_HEIGHT, MAP_WIDTH};
use roguelike::turn::{new_game, next_level};

fn player_m() -> Object {
    let mut o = Object::new(0, 0, '@', "player", Color::White, true);
    o.alive = true;
    o
}

fn floor_count_m(map: &TileMap) -> usize {
    map.iter().map(|column| column.iter().filter(|t| !t.blocked).count()).sum()
}

fn check_level_m(objects: &Vec<Object>, map: &TileMap, rooms: &Vec<Rect>, level: u32) {
    assert_eq!(map.len(), MAP_WIDTH as usize);
    for column in map.iter() {
        assert_eq!(column.len(), MAP_HEIGHT as usize);
    }
    assert!(!rooms.is_empty());
    assert!(rooms.len() <= MAX_ROOMS as usize);
    for room in rooms.iter() {
        assert!(room.x1 >= 0 && room.x2 < MAP_WIDTH);
        assert!(room.y1 >= 0 && room.y2 < MAP_HEIGHT);
        assert!((ROOM_MIN_SIZE..=ROOM_MAX_SIZE).contains(&(room.x2 - room.x1)));
        assert!((ROOM_MIN_SIZE..=ROOM_MAX_SIZE).contains(&(room.y2 - room.y1)));
        for x in (room.x1 + 1)..room.x2 {
            for y in (room.y1 + 1)..room.y2 {
                assert!(!map[x as usize][y as usize].blocked);
                assert!(!map[x as usize][y as usize].block_sight);
            }
        }
    }
    for i in 0..rooms.len() {
        for j in (i + 1)..rooms.len() {
            assert!(!rooms[i].intersects_with(&rooms[j]));
        }
    }
    for x in 0..MAP_WIDTH as usize {
        assert!(map[x][0].blocked);
        assert!(map[x][MAP_HEIGHT as usize - 1].blocked);
    }
    for y in 0..MAP_HEIGHT as usize {
        assert!(map[0][y].blocked);
        assert!(map[MAP_WIDTH as usize - 1][y].blocked);
    }
    for column in map.iter() {
        for tile in column.iter() {
            assert!(!tile.explored);
            assert_eq!(tile.blocked, tile.block_sight);
        }
    }
    assert!(objects.len() >= 2);
    assert_eq!(objects[0].name, "player");
    assert_eq!(objects[0].pos(), rooms[0].center());
    let stairs = &objects[objects.len() - 1];
    assert_eq!(stairs.name, "stairs");
    assert_eq!(stairs.char, '<');
    assert_eq!(stairs.color, Color::White);
    assert!(stairs.always_visible);
    assert!(!stairs.blocks);
    assert_eq!(stairs.pos(), rooms[rooms.len() - 1].center());
    let most = rooms.len() * (max_monsters(level) + max_items(level)) as usize;
    assert!(objects.len() - 2 <= most);
    for i in 1..objects.len() - 1 {
        let o = &objects[i];
        assert!(!map[o.x as usize][o.y as usize].blocked);
        assert!(rooms
            .iter()
            .any(|r| r.x1 < o.x && o.x < r.x2 && r.y1 < o.y && o.y < r.y2));
        assert!(o.fighter.is_some() != o.item.is_some());
        if o.fighter.is_some() {
            assert!(o.alive);
            assert!(o.blocks);
            assert_eq!(o.ai, Some(Ai::Basic));
            assert!(o.name == "orc" || o.name == "troll");
            if level < 3 {
                assert_eq!(o.name, "orc");
            }
        }
        for j in (i + 1)..objects.len() - 1 {
            if o.blocks {
                assert!(o.pos() != objects[j].pos());
            }
        }
    }
}

#[test]
fn generated_levels_keep_their_promises() {
    for round in 0..40u32 {
        let level = 1 + round % 10;
        let mut objects = vec![player_m()];
        let (map, rooms) = make_map(&mut objects, level);
        check_level_m(&objects, &map, &rooms, level);
    }
}

#[test]
fn make_map_cuts_the_store_down_to_the_player() {
    let mut objects = vec![player_m()];
    for i in 0..50 {
        objects.push(Object::new(i, i, 'x', "leftover", Color::Red, true));
    }
    let (_map, _rooms) = make_map(&mut objects, 1);
    assert_eq!(objects[0].name, "player");
    assert!(objects.iter().all(|o| o.name != "leftover"));
}

#[test]
fn generated_levels_differ() {
    let mut sizes = Vec::new();
    let mut widths = Vec::new();
    for _ in 0..20 {
        let mut objects = vec![player_m()];
        let (map, rooms) = make_map(&mut objects, 1);
        sizes.push(floor_count_m(&map));
        for room in rooms.iter() {
            widths.push(room.x2 - room.x1);
        }
    }
    sizes.dedup();
    assert!(sizes.len() > 1);
    widths.sort();
    widths.dedup();
    assert!(widths.len() > 1);
}

#[test]
fn deep_levels_spawn_trolls_and_every_kind_of_item() {
    let mut names: Vec<String> = Vec::new();
    for _ in 0..60 {
        let mut objects = vec![player_m()];
        let (_map, _rooms) = make_map(&mut objects, 10);
        for o in objects.iter() {
            if !names.contains(&o.name) {
                names.push(o.name.clone());
            }
        }
    }
    for name in [
        "orc",
        "troll",
        "healing potion",
        "scroll of lightning bolt",
        "scroll of fireball",
        "scroll of confusion",
        "sword",
        "shield",
    ] {
        assert!(names.iter().any(|n| n == name), "no {} was spawned", name);
    }
}

#[test]
fn first_level_spawns_orcs_and_healing_potions_only() {
    for _ in 0..30 {
        let mut objects = vec![player_m()];
        let (_map, _rooms) = make_map(&mut objects, 1);
        for o in objects[1..objects.len() - 1].iter() {
            assert!(o.name == "orc" || o.name == "healing potion", "found {}", o.name);
        }
    }
}

#[test]
fn new_game_starts_on_a_generated_first_level() {
    let (objects, game) = new_game();
    assert_eq!(game.dungeon_level, 1);
    assert_eq!(game.log.len(), 1);
    assert_eq!(
        game.log[0].text,
        "Welcome stranger! Prepare to perish in the Tombs of the Ancient Kings."
    );
    assert_eq!(game.log[0].color, Color::Red);
    assert_eq!(game.inventory.len(), 1);
    let dagger = &game.inventory[0];
    assert_eq!(dagger.name, "dagger");
    assert_eq!(dagger.char, '-');
    assert_eq!(dagger.item, Some(Item::Sword));
    let equipment = dagger.equipment.unwrap();
    assert!(equipment.equipped);
    assert_eq!(equipment.slot, Slot::LeftHand);
    assert_eq!(equipment.power_bonus, 2);
    let player = &objects[0];
    assert_eq!(player.char, '@');
    assert!(player.alive);
    assert!(player.blocks);
    assert_eq!(player.level, 1);
    let fighter = player.fighter.unwrap();
    assert_eq!((fighter.hp, fighter.base_max_hp), (100, 100));
    assert_eq!((fighter.base_defense, fighter.base_power, fighter.xp), (1, 2, 0));
    assert_eq!(fighter.on_death, DeathCallback::Player);
    assert_eq!(player.power(&game), 4);
    assert!(!game.map[player.x as usize][player.y as usize].blocked);
    assert_eq!(objects[objects.len() - 1].name, "stairs");
}

#[test]
fn next_level_rests_the_player_and_goes_one_level_down() {
    let (mut objects, mut game) = new_game();
    objects[0].fighter.as_mut().unwrap().hp = 30;
    next_level(&mut objects, &mut game);
    assert_eq!(game.dungeon_level, 2);
    assert_eq!(objects[0].fighter.unwrap().hp, 80);
    assert_eq!(game.log.len(), 3);
    assert_eq!(game.log[1].text, "You take a moment to rest, and recover your strength.");
    assert_eq!(game.log[1].color, Color::Violet);
    assert_eq!(
        game.log[2].text,
        "After a rare moment of peace, you descend deeper into the heart of the dungeon..."
    );
    assert_eq!(game.log[2].color, Color::Red);
    assert_eq!(game.inventory.len(), 1);
    assert_eq!(objects[objects.len() - 1].name, "stairs");
    assert!(!game.map[objects[0].x as usize][objects[0].y as usize].blocked);
}

#[test]
fn next_level_does_not_heal_beyond_the_maximum() {
    let (mut objects, mut game) = new_game();
    objects[0].fighter.as_mut().unwrap().hp = 90;
    next_level(&mut objects, &mut game);
    assert_eq!(objects[0].fighter.unwrap().hp, 100);
}

#[test]
fn table_lookup_takes_the_last_step_reached() {
    let table = [
        Transition { level: 1, value: 2 },
        Transition { level: 4, value: 3 },
        Transition { level: 6, value: 5 },
    ];
    assert_eq!(from_dungeon_level(&table, 0), 0);
    assert_eq!(from_dungeon_level(&table, 1), 2);
    assert_eq!(from_dungeon_level(&table, 3), 2);
    assert_eq!(from_dungeon_level(&table, 4), 3);
    assert_eq!(from_dungeon_level(&table, 5), 3);
    assert_eq!(from_dungeon_level(&table, 6), 5);
    assert_eq!(from_dungeon_level(&table, 100), 5);
    assert_eq!(from_dungeon_level(&[], 7), 0);
}

#[test]
fn table_lookup_searches_from_the_end() {
    let table = [Transition { level: 5, value: 1 }, Transition { level: 2, value: 9 }];
    assert_eq!(from_dungeon_level(&table, 3), 9);
    assert_eq!(from_dungeon_level(&table, 6), 9);
    assert_eq!(from_dungeon_level(&table, 1), 0);
}

#[test]
fn spawn_limits_grow_with_the_level() {
    assert_eq!(max_monsters(0), 0);
    assert_eq!(max_monsters(1), 2);
    assert_eq!(max_monsters(3), 2);
    assert_eq!(max_monsters(4), 3);
    assert_eq!(max_monsters(6), 5);
    assert_eq!(max_monsters(60), 5);
    assert_eq!(max_items(0), 0);
    assert_eq!(max_items(1), 1);
    assert_eq!(max_items(4), 2);
}

#[test]
fn spawn_weights_grow_with_the_level() {
    assert_eq!(monster_chances(1), vec![80, 0]);
    assert_eq!(monster_chances(2), vec![80, 0]);
    assert_eq!(monster_chances(3), vec![80, 15]);
    assert_eq!(monster_chances(5), vec![80, 30]);
    assert_eq!(monster_chances(7), vec![80, 60]);
    assert_eq!(item_chances(1), vec![35, 0, 0, 0, 0, 0]);
    assert_eq!(item_chances(2), vec![35, 0, 0, 10, 0, 0]);
    assert_eq!(item_chances(4), vec![35, 25, 0, 10, 5, 0]);
    assert_eq!(item_chances(6), vec![35, 25, 25, 10, 5, 0]);
    assert_eq!(item_chances(8), vec![35, 25, 25, 10, 5, 15]);
}

#[test]
fn spawn_kinds_follow_the_order_of_the_weights() {
    assert_eq!(monster_by_index(0), Monster::Orc);
    assert_eq!(monster_by_index(1), Monster::Troll);
    assert_eq!(item_by_index(0), Item::Heal);
    assert_eq!(item_by_index(1), Item::Lightning);
    assert_eq!(item_by_index(2), Item::Fireball);
    assert_eq!(item_by_index(3), Item::Confuse);
    assert_eq!(item_by_index(4), Item::Sword);
    assert_eq!(item_by_index(5), Item::Shield);
}

#[test]
fn monsters_have_their_stat_blocks() {
    let orc = make_monster(Monster::Orc, 3, 4);
    assert_eq!(orc.name, "orc");
    assert_eq!(orc.char, 'o');
    assert_eq!(orc.color, Color::DesaturatedGreen);
    assert_eq!(orc.pos(), (3, 4));
    assert!(orc.blocks && orc.alive);
    let f = orc.fighter.unwrap();
    assert_eq!((f.hp, f.base_max_hp, f.base_defense, f.base_power, f.xp), (20, 20, 0, 4, 35));
    assert_eq!(f.on_death, DeathCallback::Monster);
    assert_eq!(orc.ai, Some(Ai::Basic));
    let troll = make_monster(Monster::Troll, 5, 6);
    assert_eq!(troll.name, "troll");
    assert_eq!(troll.char, 'T');
    assert_eq!(troll.color, Color::DarkerGreen);
    let f = troll.fighter.unwrap();
    assert_eq!((f.hp, f.base_max_hp, f.base_defense, f.base_power, f.xp), (30, 30, 2, 8, 100));
}

#[test]
fn items_have_their_looks_and_equipment() {
    let potion = make_item(Item::Heal, 1, 2);
    assert_eq!((potion.name.as_str(), potion.char, potion.color), ("healing potion", '!', Color::Violet));
    assert!(!potion.blocks && !potion.alive);
    assert_eq!(potion.item, Some(Item::Heal));
    let bolt = make_item(Item::Lightning, 1, 2);
    assert_eq!((bolt.name.as_str(), bolt.char), ("scroll of lightning bolt", '#'));
    assert_eq!(bolt.color, Color::LightYellow);
    assert_eq!(make_item(Item::Fireball, 1, 2).name, "scroll of fireball");
    assert_eq!(make_item(Item::Confuse, 1, 2).name, "scroll of confusion");
    let sword = make_item(Item::Sword, 1, 2);
    assert_eq!((sword.name.as_str(), sword.char, sword.color), ("sword", '/', Color::Sky));
    let e = sword.equipment.unwrap();
    assert_eq!((e.slot, e.equipped, e.power_bonus, e.defense_bonus), (Slot::RightHand, false, 3, 0));
    let shield = make_item(Item::Shield, 1, 2);
    assert_eq!((shield.name.as_str(), shield.char), ("shield", '['));
    assert_eq!(shield.color, Color::DarkerOrange);
    let e = shield.equipment.unwrap();
    assert_eq!((e.slot, e.equipped, e.power_bonus, e.defense_bonus), (Slot::LeftHand, false, 0, 1));
}

#[test]
fn place_objects_fills_the_room_only() {
    let room = Rect::new(10, 10, 8, 8);
    for round in 0..100u32 {
        let level = 1 + round % 9;
        let mut map = solid_map();
        create_room(room, &mut map);
        let mut objects = vec![player_m()];
        place_objects(room, &map, &mut objects, level);
        assert_eq!(objects[0].name, "player");
        assert!(objects.len() - 1 <= (max_monsters(level) + max_items(level)) as usize);
        let mut items_began = false;
        for o in objects[1..].iter() {
            assert!(10 < o.x && o.x < 18 && 10 < o.y && o.y < 18);
            if o.item.is_some() {
                items_began = true;
            } else {
                assert!(!items_began);
            }
        }
    }
}

#[test]
fn place_objects_spawns_nothing_on_rock() {
    let room = Rect::new(10, 10, 8, 8);
    let map = solid_map();
    for _ in 0..50 {
        let mut objects = vec![player_m()];
        place_objects(room, &map, &mut objects, 9);
        assert_eq!(objects.len(), 1);
    }
}

#[test]
fn create_room_carves_the_inside() {
    let mut map = solid_map();
    create_room(Rect::new(2, 3, 4, 5), &mut map);
    for x in 0..MAP_WIDTH {
        for y in 0..MAP_HEIGHT {
            let inside = 2 < x && x < 6 && 3 < y && y < 8;
            assert_eq!(map[x as usize][y as usize].blocked, !inside);
            assert_eq!(map[x as usize][y as usize].block_sight, !inside);
        }
    }
}

#[test]
fn tunnels_carve_their_ends_too() {
    let mut map = solid_map();
    create_h_tunnel(9, 4, 7, &mut map);
    create_v_tunnel(2, 5, 20, &mut map);
    for x in 0..MAP_WIDTH {
        for y in 0..MAP_HEIGHT {
            let dug = (y == 7 && (4..=9).contains(&x)) || (x == 20 && (2..=5).contains(&y));
            assert_eq!(map[x as usize][y as usize].blocked, !dug);
        }
    }
}

#[test]
fn connect_digs_the_corner_of_the_chosen_order() {
    let mut first = solid_map();
    connect((3, 4), (8, 10), true, &mut first);
    assert!(!first[8][4].blocked);
    assert!(first[3][10].blocked);
    assert!(!first[3][4].blocked && !first[8][10].blocked);
    assert!(!first[5][4].blocked && !first[8][7].blocked);
    let mut second = solid_map();
    connect((3, 4), (8, 10), false, &mut second);
    assert!(second[8][4].blocked);
    assert!(!second[3][10].blocked);
    assert!(!second[3][7].blocked && !second[6][10].blocked);
    assert_eq!(floor_count_m(&first), 12);
    assert_eq!(floor_count_m(&second), 12);
}

#[test]
fn overlaps_any_checks_every_room() {
    let rooms = vec![Rect::new(0, 0, 6, 6), Rect::new(20, 20, 6, 6)];
    assert!(overlaps_any(&rooms, &Rect::new(26, 26, 6, 6)));
    assert!(overlaps_any(&rooms, &Rect::new(3, 3, 6, 6)));
    assert!(!overlaps_any(&rooms, &Rect::new(7, 7, 6, 6)));
    assert!(!overlaps_any(&Vec::new(), &Rect::new(7, 7, 6, 6)));
}

#[test]
fn blocked_cells_are_walls_or_held_by_blocking_entities() {
    let mut map = solid_map();
    create_room(Rect::new(0, 0, 10, 10), &mut map);
    let mut objects = vec![player_m()];
    objects[0].set_pos(3, 3);
    let mut potion = Object::new(4, 4, '!', "healing potion", Color::Violet, false);
    potion.item = Some(Item::Heal);
    objects.push(potion);
    assert!(is_blocked(0, 0, &map, &objects));
    assert!(is_blocked(3, 3, &map, &objects));
    assert!(!is_blocked(4, 4, &map, &objects));
    assert!(!is_blocked(5, 5, &map, &objects));
    assert!(is_wall(0, 5, &map));
    assert!(!is_wall(1, 5, &map));
}

#[test]
fn positions_off_the_map_are_blocked() {
    let mut map = solid_map();
    create_room(Rect::new(0, 0, 10, 10), &mut map);
    let objects = vec![player_m()];
    assert!(is_blocked(-1, 5, &map, &objects));
    assert!(is_blocked(5, -1, &map, &objects));
    assert!(is_blocked(MAP_WIDTH, 5, &map, &objects));
    assert!(is_blocked(5, MAP_HEIGHT, &map, &objects));
    assert!(is_blocked(i32::MAX, i32::MIN, &map, &objects));
    let empty: TileMap = Vec::new();
    assert!(is_wall(0, 0, &empty));
    let _ = Game { map: empty, log: Vec::new(), inventory: Vec::new(), dungeon_level: 1 };
    let _ = Tile::empty();
}

#[test]
fn free_cells_are_the_unblocked_cells_inside_the_room() {
    let room = Rect::new(2, 2, 4, 4);
    let mut map = solid_map();
    create_room(Rect::new(2, 2, 3, 4), &mut map);
    let mut objects = vec![player_m()];
    objects[0].set_pos(3, 4);
    let mut potion = Object::new(4, 4, '!', "healing potion", Color::Violet, false);
    potion.item = Some(Item::Heal);
    objects.push(potion);
    let cells = roguelike::spawn::free_cells(room, &map, &objects);
    assert_eq!(cells, vec![(3, 3), (3, 5), (4, 3), (4, 4), (4, 5)]);
    assert!(roguelike::spawn::free_cells(Rect::new(5, 5, 1, 7), &map, &objects).is_empty());
    assert!(roguelike::spawn::free_cells(Rect::new(5, 5, -3, 7), &map, &objects).is_empty());
}

#[test]
fn a_room_with_one_free_cell_gets_every_spawn_there() {
    let room = Rect::new(10, 10, 2, 2);
    let mut map = solid_map();
    create_room(room, &mut map);
    for _ in 0..50 {
        let mut objects = vec![player_m()];
        place_objects(room, &map, &mut objects, 10);
        let monsters = objects.iter().filter(|o| o.fighter.is_some()).count();
        assert!(monsters <= 1);
        for o in objects[1..].iter() {
            assert_eq!(o.pos(), (11, 11));
        }
    }
}

#[test]
fn populate_spawns_as_many_as_were_drawn() {
    let room = Rect::new(10, 10, 8, 8);
    let mut map = solid_map();
    create_room(room, &mut map);
    for (monsters, items) in [(0u32, 0u32), (5, 2), (3, 0), (0, 2), (1, 1)] {
        let mut objects = vec![player_m()];
        roguelike::spawn::populate(room, &map, &mut objects, 6, monsters, items);
        assert_eq!(objects.len(), 1 + (monsters + items) as usize);
        for o in objects[1..1 + monsters as usize].iter() {
            assert!(o.fighter.is_some());
        }
        for o in objects[1 + monsters as usize..].iter() {
            assert!(o.item.is_some());
        }
        for (i, o) in objects.iter().enumerate().skip(1) {
            assert!(10 < o.x && o.x < 18 && 10 < o.y && o.y < 18);
            for earlier in objects[1..i].iter() {
                if earlier.blocks {
                    assert!(earlier.pos() != o.pos());
                }
            }
        }
    }
}

#[test]
fn populate_stops_at_the_free_cells() {
    let room = Rect::new(10, 10, 3, 2);
    let mut map = solid_map();
    create_room(room, &mut map);
    let mut objects = vec![player_m()];
    roguelike::spawn::populate(room, &map, &mut objects, 6, 5, 2);
    assert_eq!(objects.len(), 3);
    assert!(objects[1].fighter.is_some() && objects[2].fighter.is_some());
    assert!(objects[1].pos() != objects[2].pos());
    let mut objects = vec![player_m()];
    roguelike::spawn::populate(room, &map, &mut objects, 6, 2, 2);
    assert_eq!(objects.len(), 3);
    let mut objects = vec![player_m()];
    roguelike::spawn::populate(room, &map, &mut objects, 6, 1, 2);
    assert_eq!(objects.len(), 4);
    assert!(objects[1].fighter.is_some());
    assert!(objects[2].item.is_some() && objects[3].item.is_some());
    assert!(objects[2].pos() != objects[1].pos());
    assert!(objects[3].pos() != objects[1].pos());
}

#[test]
fn populate_counts_the_player_as_holding_a_cell() {
    let room = Rect::new(10, 10, 3, 2);
    let mut map = solid_map();
    create_room(room, &mut map);
    let mut objects = vec![player_m()];
    objects[0].set_pos(11, 11);
    roguelike::spawn::populate(room, &map, &mut objects, 6, 3, 1);
    assert_eq!(objects.len(), 2);
    assert_eq!(objects[1].pos(), (12, 11));
    assert!(objects[1].fighter.is_some());
}

#[test]
fn add_room_accepts_what_overlaps_no_room() {
    let mut map = solid_map();
    let mut rooms: Vec<Rect> = Vec::new();
    let mut objects = vec![player_m()];
    let first = Rect::new(5, 5, 8, 8);
    assert!(roguelike::mapgen::add_room(first, true, &mut rooms, &mut map, &mut objects, 3));
    assert_eq!(rooms, vec![first]);
    assert_eq!(floor_count_m(&map), 49);
    let second = Rect::new(30, 20, 6, 6);
    assert!(roguelike::mapgen::add_room(second, true, &mut rooms, &mut map, &mut objects, 3));
    assert_eq!(rooms, vec![first, second]);
    let (ax, ay) = first.center();
    let (bx, by) = second.center();
    for x in ax..=bx {
        assert!(!map[x as usize][ay as usize].blocked);
    }
    for y in ay..=by {
        assert!(!map[bx as usize][y as usize].blocked);
    }
    assert!(map[ax as usize][by as usize].blocked);
    let third = Rect::new(50, 5, 7, 9);
    assert!(roguelike::mapgen::add_room(third, false, &mut rooms, &mut map, &mut objects, 3));
    let (cx, cy) = third.center();
    for y in cy..=by {
        assert!(!map[bx as usize][y as usize].blocked);
    }
    for x in bx..=cx {
        assert!(!map[x as usize][cy as usize].blocked);
    }
    assert_eq!(rooms.len(), 3);
    for o in objects[1..].iter() {
        assert!(!map[o.x as usize][o.y as usize].blocked);
    }
}

#[test]
fn add_room_rejects_what_overlaps_a_room_and_changes_nothing() {
    let mut map = solid_map();
    let mut rooms: Vec<Rect> = Vec::new();
    let mut objects = vec![player_m()];
    assert!(roguelike::mapgen::add_room(
        Rect::new(5, 5, 8, 8),
        true,
        &mut rooms,
        &mut map,
        &mut objects,
        1
    ));
    let floor = floor_count_m(&map);
    let store = objects.len();
    for room in [Rect::new(10, 10, 6, 6), Rect::new(13, 5, 6, 6), Rect::new(0, 0, 10, 10)] {
        assert!(!roguelike::mapgen::add_room(room, false, &mut rooms, &mut map, &mut objects, 1));
        assert_eq!(rooms.len(), 1);
        assert_eq!(floor_count_m(&map), floor);
        assert_eq!(objects.len(), store);
    }
    assert!(roguelike::mapgen::add_room(
        Rect::new(14, 5, 6, 6),
        false,
        &mut rooms,
        &mut map,
        &mut objects,
        1
    ));
    assert_eq!(rooms.len(), 2);
}
