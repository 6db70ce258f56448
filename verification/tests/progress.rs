use roguelike::ai::{ai_confused, ai_take_turn, stumble_by};
use roguelike::color::Color;
use roguelike::entity::{Ai, DeathCallback, Fighter, Game, Object};
use roguelike::fov::FovMap;
use roguelike::level::{can_level_up, level_up};
use roguelike::stats::Stat;
use roguelike::tile::{Tile, TileMap};

fn open_map_p(width: usize, height: usize) -> TileMap {
    let mut map = vec![vec![Tile::empty(); height]; width];
    for x in 0..width {
        map[x][0] = Tile::wall();
        map[x][height - 1] = Tile::wall();
    }
    for y in 0..height {
        map[0][y] = Tile::wall();
        map[width - 1][y] = Tile::wall();
    }
    map
}

fn game_p() -> Game {
    Game { map: open_map_p(20, 20), log: Vec::new(), inventory: Vec::new(), dungeon_level: 1 }
}

fn player_p(level: i32, xp: i32) -> Object {
    let mut o = Object::new(5, 5, '@', "player", Color::White, true);
    o.alive = true;
    o.level = level;
    o.fighter = Some(Fighter {
        hp: 60,
        base_max_hp: 100,
        base_defense: 1,
        base_power: 2,
        on_death: DeathCallback::Player,
        xp,
    });
    o
}

fn orc_p(x: i32, y: i32) -> Object {
    let mut o = Object::new(x, y, 'o', "orc", Color::DesaturatedGreen, true);
    o.alive = true;
    o.fighter = Some(Fighter {
        hp: 20,
        base_max_hp: 20,
        base_defense: 0,
        base_power: 4,
        on_death: DeathCallback::Monster,
        xp: 35,
    });
    o.ai = Some(Ai::Basic);
    o
}

#[test]
fn level_one_with_349_experience_does_not_level_up() {
    let mut objects = vec![player_p(1, 349)];
    let mut game = game_p();
    assert!(!can_level_up(&objects));
    level_up(&mut objects, &mut game, Stat::Power);
    assert_eq!(objects[0].level, 1);
    assert_eq!(objects[0].fighter.unwrap().xp, 349);
    assert_eq!(objects[0].fighter.unwrap().base_power, 2);
    assert!(game.log.is_empty());
}

#[test]
fn level_one_with_350_experience_levels_up_once() {
    let mut objects = vec![player_p(1, 350)];
    let mut game = game_p();
    assert!(can_level_up(&objects));
    level_up(&mut objects, &mut game, Stat::Power);
    assert_eq!(objects[0].level, 2);
    assert_eq!(objects[0].fighter.unwrap().xp, 0);
    assert_eq!(objects[0].fighter.unwrap().base_power, 3);
    assert_eq!(game.log.len(), 1);
    assert_eq!(game.log[0].text, "Your battle skills grow stronger! You reached level 2!");
    assert_eq!(game.log[0].color, Color::Yellow);
    assert!(!can_level_up(&objects));
    level_up(&mut objects, &mut game, Stat::Power);
    assert_eq!(objects[0].level, 2);
    assert_eq!(game.log.len(), 1);
}

#[test]
fn level_ups_in_a_row_each_take_their_price() {
    let mut objects = vec![player_p(1, 1000)];
    let mut game = game_p();
    level_up(&mut objects, &mut game, Stat::MaxHp);
    assert_eq!(objects[0].level, 2);
    assert_eq!(objects[0].fighter.unwrap().xp, 650);
    level_up(&mut objects, &mut game, Stat::Defense);
    assert_eq!(objects[0].level, 3);
    assert_eq!(objects[0].fighter.unwrap().xp, 150);
    level_up(&mut objects, &mut game, Stat::Defense);
    assert_eq!(objects[0].level, 3);
    assert_eq!(objects[0].fighter.unwrap().xp, 150);
}

#[test]
fn constitution_raises_hit_points_and_their_maximum() {
    let mut objects = vec![player_p(1, 400)];
    let mut game = game_p();
    level_up(&mut objects, &mut game, Stat::MaxHp);
    let fighter = objects[0].fighter.unwrap();
    assert_eq!(fighter.base_max_hp, 120);
    assert_eq!(fighter.hp, 80);
    assert_eq!(fighter.base_power, 2);
    assert_eq!(fighter.base_defense, 1);
    assert_eq!(fighter.xp, 50);
}

#[test]
fn agility_raises_defense() {
    let mut objects = vec![player_p(2, 500)];
    let mut game = game_p();
    level_up(&mut objects, &mut game, Stat::Defense);
    let fighter = objects[0].fighter.unwrap();
    assert_eq!(fighter.base_defense, 2);
    assert_eq!(fighter.xp, 0);
    assert_eq!(objects[0].level, 3);
}

#[test]
fn confusion_with_two_turns_left_lasts_three_turns() {
    let mut objects = vec![player_p(1, 0), orc_p(10, 10)];
    objects[1].ai = Some(Ai::Confused { previous_ai: Box::new(Ai::Basic), num_turns: 2 });
    let mut game = game_p();
    let fov = FovMap::new(20, 20);
    ai_take_turn(1, &mut objects, &mut game, &fov);
    assert_eq!(
        objects[1].ai,
        Some(Ai::Confused { previous_ai: Box::new(Ai::Basic), num_turns: 1 })
    );
    ai_take_turn(1, &mut objects, &mut game, &fov);
    assert_eq!(
        objects[1].ai,
        Some(Ai::Confused { previous_ai: Box::new(Ai::Basic), num_turns: 0 })
    );
    ai_take_turn(1, &mut objects, &mut game, &fov);
    assert_eq!(
        objects[1].ai,
        Some(Ai::Confused { previous_ai: Box::new(Ai::Basic), num_turns: -1 })
    );
    assert!(game.log.is_empty());
    let before = objects[1].pos();
    ai_take_turn(1, &mut objects, &mut game, &fov);
    assert_eq!(objects[1].ai, Some(Ai::Basic));
    assert_eq!(objects[1].pos(), before);
    assert_eq!(game.log.len(), 1);
    assert_eq!(game.log[0].text, "The orc is no longer confused!");
    assert_eq!(game.log[0].color, Color::Red);
}

#[test]
fn confusion_gives_back_a_nested_confusion() {
    let inner = Ai::Confused { previous_ai: Box::new(Ai::Basic), num_turns: 5 };
    let mut objects = vec![player_p(1, 0), orc_p(10, 10)];
    objects[1].ai = Some(Ai::Confused { previous_ai: Box::new(inner.clone()), num_turns: -1 });
    let mut game = game_p();
    let fov = FovMap::new(20, 20);
    ai_take_turn(1, &mut objects, &mut game, &fov);
    assert_eq!(objects[1].ai, Some(inner));
}

#[test]
fn confused_steps_stay_next_to_the_start() {
    let mut game = game_p();
    for _ in 0..200 {
        let mut objects = vec![player_p(1, 0), orc_p(10, 10)];
        let next = ai_confused(1, &mut objects, &mut game, Box::new(Ai::Basic), 3);
        assert_eq!(next, Ai::Confused { previous_ai: Box::new(Ai::Basic), num_turns: 2 });
        let (x, y) = objects[1].pos();
        assert!((9..=11).contains(&x));
        assert!((9..=11).contains(&y));
    }
}

#[test]
fn confused_steps_are_drawn_at_random() {
    let mut game = game_p();
    let mut seen_x = [false; 3];
    let mut seen_y = [false; 3];
    for _ in 0..400 {
        let mut objects = vec![player_p(1, 0), orc_p(10, 10)];
        ai_confused(1, &mut objects, &mut game, Box::new(Ai::Basic), 3);
        let (x, y) = objects[1].pos();
        seen_x[(x - 9) as usize] = true;
        seen_y[(y - 9) as usize] = true;
    }
    assert_eq!(seen_x, [true, true, true]);
    assert_eq!(seen_y, [true, true, true]);
}

#[test]
fn stumble_into_a_wall_is_dropped() {
    let mut objects = vec![player_p(1, 0), orc_p(1, 1)];
    let mut game = game_p();
    let next = stumble_by(1, -1, 0, &mut objects, &mut game, Box::new(Ai::Basic), 0);
    assert_eq!(objects[1].pos(), (1, 1));
    assert_eq!(next, Ai::Confused { previous_ai: Box::new(Ai::Basic), num_turns: -1 });
}

#[test]
fn stumble_onto_free_floor_moves() {
    let mut objects = vec![player_p(1, 0), orc_p(1, 1)];
    let mut game = game_p();
    stumble_by(1, 1, 1, &mut objects, &mut game, Box::new(Ai::Basic), 4);
    assert_eq!(objects[1].pos(), (2, 2));
}

#[test]
fn stumble_onto_the_player_is_dropped() {
    let mut objects = vec![player_p(1, 0), orc_p(4, 4)];
    let mut game = game_p();
    stumble_by(1, 1, 1, &mut objects, &mut game, Box::new(Ai::Basic), 4);
    assert_eq!(objects[1].pos(), (4, 4));
}

#[test]
fn basic_monster_out_of_sight_stays() {
    let mut objects = vec![player_p(1, 0), orc_p(10, 5)];
    let mut game = game_p();
    let fov = FovMap::new(20, 20);
    ai_take_turn(1, &mut objects, &mut game, &fov);
    assert_eq!(objects[1].pos(), (10, 5));
    assert_eq!(objects[1].ai, Some(Ai::Basic));
}

#[test]
fn basic_monster_in_sight_steps_towards_the_player() {
    let mut objects = vec![player_p(1, 0), orc_p(10, 5)];
    let mut game = game_p();
    let mut fov = FovMap::new(20, 20);
    fov.set(10, 5, true);
    ai_take_turn(1, &mut objects, &mut game, &fov);
    assert_eq!(objects[1].pos(), (9, 5));
    assert_eq!(objects[1].ai, Some(Ai::Basic));
}

#[test]
fn basic_monster_steps_diagonally_when_the_offset_is_steep_enough() {
    let mut objects = vec![player_p(1, 0), orc_p(9, 8)];
    let mut game = game_p();
    let mut fov = FovMap::new(20, 20);
    fov.set(9, 8, true);
    ai_take_turn(1, &mut objects, &mut game, &fov);
    assert_eq!(objects[1].pos(), (8, 7));
}

#[test]
fn basic_monster_keeps_its_row_when_the_offset_is_flat() {
    let mut objects = vec![player_p(1, 0), orc_p(12, 6)];
    let mut game = game_p();
    let mut fov = FovMap::new(20, 20);
    fov.set(12, 6, true);
    ai_take_turn(1, &mut objects, &mut game, &fov);
    assert_eq!(objects[1].pos(), (11, 6));
}

#[test]
fn basic_monster_next_to_the_player_attacks() {
    let mut objects = vec![player_p(1, 0), orc_p(6, 6)];
    let mut game = game_p();
    let mut fov = FovMap::new(20, 20);
    fov.set(6, 6, true);
    ai_take_turn(1, &mut objects, &mut game, &fov);
    assert_eq!(objects[1].pos(), (6, 6));
    assert_eq!(objects[0].fighter.unwrap().hp, 57);
    assert_eq!(game.log.len(), 1);
    assert_eq!(game.log[0].text, "orc attacks player for 3 hit points.");
    assert_eq!(objects[1].ai, Some(Ai::Basic));
}

#[test]
fn basic_monster_leaves_a_dead_player_alone() {
    let mut objects = vec![player_p(1, 0), orc_p(6, 5)];
    objects[0].fighter.as_mut().unwrap().hp = 0;
    let mut game = game_p();
    let mut fov = FovMap::new(20, 20);
    fov.set(6, 5, true);
    ai_take_turn(1, &mut objects, &mut game, &fov);
    assert_eq!(objects[0].fighter.unwrap().hp, 0);
    assert!(game.log.is_empty());
}

#[test]
fn monster_that_kills_the_player_gains_the_experience() {
    let mut objects = vec![player_p(1, 40), orc_p(6, 5)];
    objects[0].fighter.as_mut().unwrap().hp = 2;
    let mut game = game_p();
    let mut fov = FovMap::new(20, 20);
    fov.set(6, 5, true);
    ai_take_turn(1, &mut objects, &mut game, &fov);
    assert!(!objects[0].alive);
    assert_eq!(objects[0].fighter.unwrap().hp, -1);
    assert_eq!(objects[1].fighter.unwrap().xp, 75);
    assert_eq!(game.log.len(), 2);
    assert_eq!(game.log[1].text, "You died!");
}

#[test]
fn entity_without_behaviour_takes_no_turn() {
    let mut objects = vec![player_p(1, 0), orc_p(6, 5)];
    objects[1].ai = None;
    let mut game = game_p();
    let mut fov = FovMap::new(20, 20);
    fov.set(6, 5, true);
    ai_take_turn(1, &mut objects, &mut game, &fov);
    assert_eq!(objects[0].fighter.unwrap().hp, 60);
    assert!(objects[1].ai.is_none());
}
