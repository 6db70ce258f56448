//! The turn scheduler: one action of the player, then the turns of the
//! monsters; and the set-up of a new game and of the next level.

use vstd::prelude::*;
use vstd::string::StringExecFns;
use crate::ai::{
    ai_take_turn, bump_fits, bump_outcome, lemma_first_fighter_at, player_move_or_attack,
    stumble, turn_fits, turn_outcome,
};
use crate::color::Color;
use crate::entity::{
    object_views, DeathCallback, Equipment, Fighter, Game, GameView, Item, Object, ObjectView,
    Slot, PLAYER,
};
use crate::equipment::UseResult;
use crate::fov::FovMap;
use crate::inventory::{drop_item, drop_outcome, pick_item_up, pickup_outcome};
use crate::items::{
    effect_fits, lemma_closest_is_nearest, use_item, use_outcome, Selection, LIGHTNING_RANGE,
};
use crate::log::{add_message, log_added};
use crate::mapgen::{level_generated, make_map};
use crate::stats::{computable, effective, Stat};
use crate::tile::{half, Rect};

verus! {

/// What an action of the player came to.
#[derive(Clone, Copy, Debug, PartialEq, Eq, Structural)]
pub enum PlayerAction {
    TookTurn,
    DidntTakeTurn,
    Exit,
}

/// What the player asks for.
#[derive(Clone, Copy, Debug, PartialEq, Eq, Structural)]
pub enum Action {
    /// Step by `(dx, dy)`, or attack the fighter that stands there.
    Move(i32, i32),
    /// Let a turn pass.
    Wait,
    /// Pick up the item underfoot.
    PickUp,
    /// Drop the item at a position of the inventory.
    Drop(usize),
    /// Use the item at a position of the inventory, on what was chosen for it.
    Use(usize, Selection),
    /// Take the stairs underfoot.
    Descend,
    /// Leave the game.
    Quit,
    /// Anything that does not touch the game.
    Other,
}

/// The player at the start of a game.
pub open spec fn hero_view() -> ObjectView {
    ObjectView {
        alive: true,
        fighter: Some(
            Fighter {
                hp: 100,
                base_max_hp: 100,
                base_defense: 1,
                base_power: 2,
                on_death: DeathCallback::Player,
                xp: 0,
            },
        ),
        ..ObjectView::bare(0, 0, '@', "player"@, Color::White, true)
    }
}

/// The dagger the player starts with, equipped.
pub open spec fn dagger_view() -> ObjectView {
    ObjectView {
        item: Some(Item::Sword),
        equipment: Some(
            Equipment {
                equipped: true,
                slot: Slot::LeftHand,
                max_hp_bonus: 0,
                defense_bonus: 0,
                power_bonus: 2,
            },
        ),
        ..ObjectView::bare(0, 0, '-', "dagger"@, Color::Sky, false)
    }
}

/// The greeting of a new game.
pub open spec fn welcome_text() -> Seq<char> {
    "Welcome stranger! Prepare to perish in the Tombs of the Ancient Kings."@
}

/// Whether the store and the game are those of a new game: the first level
/// generated for a fresh player, the dagger in the inventory, and the
/// greeting in the log.
pub open spec fn game_started(objects: Seq<ObjectView>, game: GameView) -> bool {
    &&& exists|rooms: Seq<Rect>| #[trigger] level_generated(hero_view(), objects, game.map, rooms, 1)
    &&& game.log == seq![(welcome_text(), Color::Red)]
    &&& game.inventory == seq![dagger_view()]
    &&& game.dungeon_level == 1
}

/// Sets up a new game.
pub fn new_game() -> (started: (Vec<Object>, Game))
    ensures
        game_started(object_views(started.0@), started.1@),
{
    let mut player = Object::new(0, 0, '@', "player", Color::White, true);
    player.alive = true;
    player.fighter = Some(
        Fighter {
            hp: 100,
            base_max_hp: 100,
            base_defense: 1,
            base_power: 2,
            on_death: DeathCallback::Player,
            xp: 0,
        },
    );

    let mut objects: Vec<Object> = Vec::new();
    objects.push(player);
    let (map, rooms) = make_map(&mut objects, 1);
    let mut game = Game { map, log: Vec::new(), inventory: Vec::new(), dungeon_level: 1 };

    let mut dagger = Object::new(0, 0, '-', "dagger", Color::Sky, false);
    dagger.item = Some(Item::Sword);
    dagger.equipment = Some(
        Equipment {
            equipped: true,
            slot: Slot::LeftHand,
            max_hp_bonus: 0,
            defense_bonus: 0,
            power_bonus: 2,
        },
    );
    game.inventory.push(dagger);

    add_message(
        &mut game.log,
        String::from_str("Welcome stranger! Prepare to perish in the Tombs of the Ancient Kings."),
        Color::Red,
    );
    proof {
        assert(game@.log =~= seq![(welcome_text(), Color::Red)]);
        assert(game@.inventory =~= seq![dagger_view()]);
        assert(level_generated(hero_view(), object_views(objects@), game@.map, rooms@, 1));
    }
    (objects, game)
}

/// The line about the rest before the descent.
pub open spec fn rest_text() -> Seq<char> {
    "You take a moment to rest, and recover your strength."@
}

/// The line about the descent.
pub open spec fn descent_text() -> Seq<char> {
    "After a rare moment of peace, you descend deeper into the heart of the dungeon..."@
}

/// Whether the descent can be computed in machine integers.
pub open spec fn descent_fits(objects: Seq<ObjectView>, game: GameView) -> bool {
    &&& objects.len() > 0
    &&& computable(objects[0], game.inventory, Stat::MaxHp)
    &&& Object::heal_fits(
        objects[0],
        half(effective(objects[0], game.inventory, Stat::MaxHp)),
        game.inventory,
    )
    &&& game.dungeon_level < u32::MAX
}

/// The player after the rest before the descent: healed by half of the
/// effective maximum of hit points.
pub open spec fn rested(player: ObjectView, game: GameView) -> ObjectView {
    Object::healed(player, half(effective(player, game.inventory, Stat::MaxHp)), game.inventory)
}

/// Whether `after` is what a descent makes of `before`: the player rested,
/// the next level was generated, and the log tells of both.
pub open spec fn descended(
    before: (Seq<ObjectView>, GameView),
    after: (Seq<ObjectView>, GameView),
) -> bool {
    &&& exists|rooms: Seq<Rect>| #[trigger]
        level_generated(
            rested(before.0[0], before.1),
            after.0,
            after.1.map,
            rooms,
            (before.1.dungeon_level + 1) as u32,
        )
    &&& after.1.log == log_added(
        log_added(before.1.log, rest_text(), Color::Violet),
        descent_text(),
        Color::Red,
    )
    &&& after.1.inventory == before.1.inventory
    &&& after.1.dungeon_level == before.1.dungeon_level + 1
}

/// Takes the player to the next level.
pub fn next_level(objects: &mut Vec<Object>, game: &mut Game)
    requires
        descent_fits(object_views(old(objects)@), old(game)@),
    ensures
        descended(
            (object_views(old(objects)@), old(game)@),
            (object_views(final(objects)@), final(game)@),
        ),
{
    add_message(
        &mut game.log,
        String::from_str("You take a moment to rest, and recover your strength."),
        Color::Violet,
    );
    let heal_hp = objects[PLAYER].max_hp(game) / 2;
    objects[PLAYER].heal(heal_hp, game);
    add_message(
        &mut game.log,
        String::from_str(
            "After a rare moment of peace, you descend deeper into the heart of the dungeon...",
        ),
        Color::Red,
    );
    game.dungeon_level += 1;
    let (map, rooms) = make_map(objects, game.dungeon_level);
    game.map = map;
    proof {
        let before = (object_views(old(objects)@), old(game)@);
        let after = (object_views(objects@), game@);
        assert(level_generated(
            rested(before.0[0], before.1),
            after.0,
            after.1.map,
            rooms@,
            (before.1.dungeon_level + 1) as u32,
        ));
    }
}

/// Whether entity `id` is an item on the cell `(x, y)`.
pub open spec fn item_on(objects: Seq<ObjectView>, id: int, x: int, y: int) -> bool {
    objects[id].is_at(x, y) && objects[id].item is Some
}

/// The first item from position `from` on that lies on `(x, y)`.
pub open spec fn first_item_at(objects: Seq<ObjectView>, x: int, y: int, from: int) -> Option<int>
    decreases objects.len() - from,
{
    if from < 0 || from >= objects.len() {
        None
    } else if item_on(objects, from, x, y) {
        Some(from)
    } else {
        first_item_at(objects, x, y, from + 1)
    }
}

/// The first item on a cell is an item on that cell, and no entity between
/// the start of the search and it is one.
pub proof fn lemma_first_item_at(objects: Seq<ObjectView>, x: int, y: int, from: int)
    requires
        0 <= from,
    ensures
        match first_item_at(objects, x, y, from) {
            Some(id) => from <= id < objects.len() && item_on(objects, id, x, y) && forall|i: int|
                from <= i < id ==> !item_on(objects, i, x, y),
            None => forall|i: int| from <= i < objects.len() ==> !item_on(objects, i, x, y),
        },
    decreases objects.len() - from,
{
    if from < objects.len() && !item_on(objects, from, x, y) {
        lemma_first_item_at(objects, x, y, from + 1);
    }
}

/// The first item that lies where the player stands.
pub open spec fn item_underfoot(objects: Seq<ObjectView>) -> Option<int> {
    first_item_at(objects, objects[0].x as int, objects[0].y as int, 0)
}

/// Whether stairs are where the player stands.
pub open spec fn stairs_underfoot(objects: Seq<ObjectView>) -> bool {
    exists|i: int|
        0 <= i < objects.len() && (#[trigger] objects[i]).is_at(
            objects[0].x as int,
            objects[0].y as int,
        ) && objects[i].name == "stairs"@
}

/// Finds the first item that lies where the player stands.
pub fn find_item_underfoot(objects: &Vec<Object>) -> (found: Option<usize>)
    requires
        objects.len() > 0,
    ensures
        match found {
            Some(id) => id < objects.len() && item_underfoot(object_views(objects@)) == Some(
                id as int,
            ),
            None => item_underfoot(object_views(objects@)) is None,
        },
{
    let x = objects[PLAYER].x;
    let y = objects[PLAYER].y;
    let mut id: usize = 0;
    while id < objects.len()
        invariant
            id <= objects.len(),
            objects.len() > 0,
            x == objects[0].x,
            y == objects[0].y,
            item_underfoot(object_views(objects@)) == first_item_at(
                object_views(objects@),
                x as int,
                y as int,
                id as int,
            ),
        decreases objects.len() - id,
    {
        if objects[id].x == x && objects[id].y == y && objects[id].item.is_some() {
            return Some(id);
        }
        id += 1;
    }
    None
}

/// Whether stairs are where the player stands.
pub fn player_on_stairs(objects: &Vec<Object>) -> (b: bool)
    requires
        objects.len() > 0,
    ensures
        b == stairs_underfoot(object_views(objects@)),
{
    let x = objects[PLAYER].x;
    let y = objects[PLAYER].y;
    let stairs = String::from_str("stairs");
    let mut id: usize = 0;
    while id < objects.len()
        invariant
            id <= objects.len(),
            objects.len() > 0,
            x == objects[0].x,
            y == objects[0].y,
            stairs@ == "stairs"@,
            forall|i: int|
                0 <= i < id ==> !((#[trigger] object_views(objects@)[i]).is_at(x as int, y as int)
                    && object_views(objects@)[i].name == "stairs"@),
        decreases objects.len() - id,
    {
        if objects[id].x == x && objects[id].y == y && objects[id].name == stairs {
            assert(object_views(objects@)[id as int].is_at(x as int, y as int));
            return true;
        }
        id += 1;
    }
    false
}

/// Whether the action can be resolved: its target exists, and what it does
/// can be computed in machine integers. The player is never picked up.
pub open spec fn action_fits(
    action: Action,
    objects: Seq<ObjectView>,
    game: GameView,
    fov: Seq<Seq<bool>>,
) -> bool {
    &&& objects.len() > 0
    &&& objects[0].alive ==> match action {
        Action::Move(dx, dy) => bump_fits(objects, game, dx as int, dy as int),
        Action::PickUp => item_underfoot(objects) != Some(0int),
        Action::Drop(id) => id < game.inventory.len(),
        Action::Use(id, selection) => id < game.inventory.len() && (game.inventory[id as int].item
            matches Some(item) ==> effect_fits(item, objects, game, fov, selection)),
        Action::Descend => stairs_underfoot(objects) ==> descent_fits(objects, game),
        _ => true,
    }
}

/// Whether `after` and `result` are what resolving the action makes of
/// `before`. Leaving the game is always possible; anything else only while
/// the player is alive. Moving and waiting take a turn, and so does an item
/// that was used; picking up, dropping and descending do not.
pub open spec fn handled(
    action: Action,
    before: (Seq<ObjectView>, GameView),
    fov: Seq<Seq<bool>>,
    after: (Seq<ObjectView>, GameView),
    result: PlayerAction,
) -> bool {
    if action == Action::Quit {
        after == before && result == PlayerAction::Exit
    } else if !before.0[0].alive {
        after == before && result == PlayerAction::DidntTakeTurn
    } else {
        match action {
            Action::Move(dx, dy) => after == bump_outcome(before.0, before.1, dx as int, dy as int)
                && result == PlayerAction::TookTurn,
            Action::Wait => after == before && result == PlayerAction::TookTurn,
            Action::PickUp => result == PlayerAction::DidntTakeTurn && after == match item_underfoot(
                before.0,
            ) {
                Some(id) => pickup_outcome(before.0, before.1, id),
                None => before,
            },
            Action::Drop(id) => result == PlayerAction::DidntTakeTurn && after == drop_outcome(
                before.0,
                before.1,
                id as int,
            ),
            Action::Use(id, selection) => {
                let used = use_outcome(id as int, before.0, before.1, fov, selection);
                after == (used.objects, used.game) && result == if used.result
                    == UseResult::Cancelled {
                    PlayerAction::DidntTakeTurn
                } else {
                    PlayerAction::TookTurn
                }
            },
            Action::Descend => result == PlayerAction::DidntTakeTurn && if stairs_underfoot(
                before.0,
            ) {
                descended(before, after)
            } else {
                after == before
            },
            _ => after == before && result == PlayerAction::DidntTakeTurn,
        }
    }
}

/// Resolves one action of the player.
pub fn handle_action(action: Action, objects: &mut Vec<Object>, game: &mut Game, fov: &FovMap) -> (result:
    PlayerAction)
    requires
        action_fits(action, object_views(old(objects)@), old(game)@, fov@),
    ensures
        handled(
            action,
            (object_views(old(objects)@), old(game)@),
            fov@,
            (object_views(final(objects)@), final(game)@),
            result,
        ),
        final(objects).len() > 0,
{
    let player_alive = objects[PLAYER].alive;
    match action {
        Action::Quit => PlayerAction::Exit,
        Action::Move(dx, dy) => {
            if player_alive {
                player_move_or_attack(dx, dy, objects, game);
                PlayerAction::TookTurn
            } else {
                PlayerAction::DidntTakeTurn
            }
        },
        Action::Wait => {
            if player_alive {
                PlayerAction::TookTurn
            } else {
                PlayerAction::DidntTakeTurn
            }
        },
        Action::PickUp => {
            if player_alive {
                if let Some(item_id) = find_item_underfoot(objects) {
                    pick_item_up(item_id, objects, game);
                }
            }
            PlayerAction::DidntTakeTurn
        },
        Action::Drop(inventory_index) => {
            if player_alive {
                drop_item(inventory_index, objects, game);
            }
            PlayerAction::DidntTakeTurn
        },
        Action::Use(inventory_index, selection) => {
            if player_alive {
                match use_item(inventory_index, objects, game, fov, selection) {
                    UseResult::UsedUp => PlayerAction::TookTurn,
                    UseResult::UsedAndKept => PlayerAction::TookTurn,
                    UseResult::Cancelled => PlayerAction::DidntTakeTurn,
                }
            } else {
                PlayerAction::DidntTakeTurn
            }
        },
        Action::Descend => {
            if player_alive {
                if player_on_stairs(objects) {
                    next_level(objects, game);
                }
            }
            PlayerAction::DidntTakeTurn
        },
        Action::Other => PlayerAction::DidntTakeTurn,
    }
}

/// Whether every step is one that a confused monster may stumble.
pub open spec fn drawn(steps: Seq<(int, int)>) -> bool {
    forall|i: int| 0 <= i < steps.len() ==> stumble((#[trigger] steps[i]).0, steps[i].1)
}

/// The store and the game after the turns of the first `k` entities, in
/// the order of the store, where entity `i` stumbles by `steps[i]` if it is
/// confused.
pub open spec fn after_turns(
    state: (Seq<ObjectView>, GameView),
    fov: Seq<Seq<bool>>,
    steps: Seq<(int, int)>,
    k: int,
) -> (Seq<ObjectView>, GameView)
    decreases k,
{
    if k <= 0 {
        state
    } else {
        let earlier = after_turns(state, fov, steps, k - 1);
        turn_outcome(earlier.0, earlier.1, fov, k - 1, steps[k - 1].0, steps[k - 1].1)
    }
}

/// Whether the turn of the next entity can run after the turns of those
/// before it, which stumbled by `steps`.
pub open spec fn next_turn_fits(
    state: (Seq<ObjectView>, GameView),
    fov: Seq<Seq<bool>>,
    steps: Seq<(int, int)>,
) -> bool {
    let reached = after_turns(state, fov, steps, steps.len() as int);
    turn_fits(reached.0, reached.1, fov, steps.len() as int)
}

/// Whether the turns of all entities can run, however the confused among
/// them stumble.
pub open spec fn turns_fit(state: (Seq<ObjectView>, GameView), fov: Seq<Seq<bool>>) -> bool {
    forall|steps: Seq<(int, int)>|
        drawn(steps) && steps.len() < state.0.len() ==> #[trigger] next_turn_fits(
            state,
            fov,
            steps,
        )
}

/// Whether `after` is what the turns of all entities make of `state`, for
/// some steps that the confused among them stumbled.
pub open spec fn monsters_moved(
    state: (Seq<ObjectView>, GameView),
    fov: Seq<Seq<bool>>,
    after: (Seq<ObjectView>, GameView),
) -> bool {
    exists|steps: Seq<(int, int)>|
        drawn(steps) && steps.len() == state.0.len() && after == #[trigger] after_turns(
            state,
            fov,
            steps,
            state.0.len() as int,
        )
}

proof fn lemma_after_turns_prefix(
    state: (Seq<ObjectView>, GameView),
    fov: Seq<Seq<bool>>,
    a: Seq<(int, int)>,
    b: Seq<(int, int)>,
    k: int,
)
    requires
        k <= a.len(),
        k <= b.len(),
        forall|i: int| 0 <= i < k ==> a[i] == b[i],
    ensures
        after_turns(state, fov, a, k) == after_turns(state, fov, b, k),
    decreases k,
{
    if k > 0 {
        lemma_after_turns_prefix(state, fov, a, b, k - 1);
    }
}

/// Lets every entity that has a behaviour take its turn, in the order of
/// the store.
pub fn ai_turns(objects: &mut Vec<Object>, game: &mut Game, fov: &FovMap)
    requires
        turns_fit((object_views(old(objects)@), old(game)@), fov@),
    ensures
        monsters_moved(
            (object_views(old(objects)@), old(game)@),
            fov@,
            (object_views(final(objects)@), final(game)@),
        ),
        final(objects).len() == old(objects).len(),
{
    let ghost state = (object_views(objects@), game@);
    let ghost mut steps: Seq<(int, int)> = Seq::empty();
    let count = objects.len();
    let mut id: usize = 0;
    while id < count
        invariant
            id <= count,
            count == objects.len(),
            count == state.0.len(),
            turns_fit(state, fov@),
            drawn(steps),
            steps.len() == id,
            (object_views(objects@), game@) == after_turns(state, fov@, steps, id as int),
        decreases count - id,
    {
        let ghost reached = (object_views(objects@), game@);
        assert(next_turn_fits(state, fov@, steps));
        let ghost mut step = (0int, 0int);
        if objects[id].ai.is_some() {
            ai_take_turn(id, objects, game, fov);
            proof {
                let after = (object_views(objects@), game@);
                let (dx, dy) = choose|dx: int, dy: int|
                    stumble(dx, dy) && after == #[trigger] turn_outcome(
                        reached.0,
                        reached.1,
                        fov@,
                        id as int,
                        dx,
                        dy,
                    );
                step = (dx, dy);
            }
        }
        proof {
            let longer = steps.push(step);
            lemma_after_turns_prefix(state, fov@, steps, longer, id as int);
            steps = longer;
        }
        id += 1;
    }
}

/// Whether the monsters act after the action was resolved: the player is
/// alive and took a turn.
pub open spec fn monsters_act(state: (Seq<ObjectView>, GameView), result: PlayerAction) -> bool {
    state.0[0].alive && result == PlayerAction::TookTurn
}

/// Whether `after` and `result` are what a turn makes of `before`, with the
/// state `resolved` between the player's action and the monsters' turns.
pub open spec fn turn_played(
    action: Action,
    before: (Seq<ObjectView>, GameView),
    fov: Seq<Seq<bool>>,
    resolved: (Seq<ObjectView>, GameView),
    after: (Seq<ObjectView>, GameView),
    result: PlayerAction,
) -> bool {
    &&& handled(action, before, fov, resolved, result)
    &&& if monsters_act(resolved, result) {
        monsters_moved(resolved, fov, after)
    } else {
        after == resolved
    }
}

/// Whether a turn can be played: the action can be resolved, and whatever
/// it leaves, the monsters' turns can run where they are due.
pub open spec fn turn_fits_action(
    action: Action,
    objects: Seq<ObjectView>,
    game: GameView,
    fov: Seq<Seq<bool>>,
) -> bool {
    &&& action_fits(action, objects, game, fov)
    &&& forall|resolved: (Seq<ObjectView>, GameView), result: PlayerAction| #[trigger]
        handled(action, (objects, game), fov, resolved, result) && monsters_act(resolved, result)
            ==> turns_fit(resolved, fov)
}

/// Plays one turn: resolves the action of the player and then, if the
/// player is alive and the action took a turn, lets the monsters act.
pub fn play_turn(action: Action, objects: &mut Vec<Object>, game: &mut Game, fov: &FovMap) -> (result:
    PlayerAction)
    requires
        turn_fits_action(action, object_views(old(objects)@), old(game)@, fov@),
    ensures
        exists|resolved: (Seq<ObjectView>, GameView)| #[trigger]
            turn_played(
                action,
                (object_views(old(objects)@), old(game)@),
                fov@,
                resolved,
                (object_views(final(objects)@), final(game)@),
                result,
            ),
        final(objects).len() > 0,
{
    let player_action = handle_action(action, objects, game, fov);
    let ghost resolved = (object_views(objects@), game@);
    if player_action == PlayerAction::Exit {
        assert(turn_played(
            action,
            (object_views(old(objects)@), old(game)@),
            fov@,
            resolved,
            resolved,
            player_action,
        ));
        return player_action;
    }
    if objects[PLAYER].alive && player_action != PlayerAction::DidntTakeTurn {
        ai_turns(objects, game, fov);
    }
    assert(turn_played(
        action,
        (object_views(old(objects)@), old(game)@),
        fov@,
        resolved,
        (object_views(objects@), game@),
        player_action,
    ));
    player_action
}

/// The turns of the monsters leave the grid and the inventory as they
/// are, and the store at its size.
pub proof fn lemma_turns_keep_map(
    state: (Seq<ObjectView>, GameView),
    fov: Seq<Seq<bool>>,
    steps: Seq<(int, int)>,
    k: int,
)
    ensures
        after_turns(state, fov, steps, k).1.map == state.1.map,
        after_turns(state, fov, steps, k).1.inventory == state.1.inventory,
        after_turns(state, fov, steps, k).1.dungeon_level == state.1.dungeon_level,
    decreases k,
{
    if k > 0 {
        lemma_turns_keep_map(state, fov, steps, k - 1);
    }
}

/// Only the descent changes the grid: any other action leaves every cell,
/// and so what was explored, as it was, and the dungeon level too.
pub proof fn lemma_map_changes_by_descent_only(
    action: Action,
    before: (Seq<ObjectView>, GameView),
    fov: Seq<Seq<bool>>,
    after: (Seq<ObjectView>, GameView),
    result: PlayerAction,
)
    requires
        handled(action, before, fov, after, result),
        !(action == Action::Descend && before.0[0].alive && stairs_underfoot(before.0)),
    ensures
        after.1.map == before.1.map,
        after.1.dungeon_level == before.1.dungeon_level,
{
}

/// Whether the first entity of the store can be told to be the player for
/// good: it dies the player's death, if it dies, and so keeps its name.
pub open spec fn player_first(objects: Seq<ObjectView>) -> bool {
    objects.len() > 0 && (objects[0].fighter matches Some(f) ==> f.on_death
        == DeathCallback::Player)
}

/// The player stays the first entity of the store. Whatever the action
/// does, picking up and dropping and the descent included, the store keeps
/// a first entity, and it keeps the name and the kind of death of the first
/// entity from before.
pub proof fn lemma_player_stays_first(
    action: Action,
    before: (Seq<ObjectView>, GameView),
    fov: Seq<Seq<bool>>,
    after: (Seq<ObjectView>, GameView),
    result: PlayerAction,
)
    requires
        player_first(before.0),
        action_fits(action, before.0, before.1, fov),
        handled(action, before, fov, after, result),
    ensures
        player_first(after.0),
        after.0[0].name == before.0[0].name,
{
    let objects = before.0;
    if action != Action::Quit && objects[0].alive {
        match action {
            Action::Move(dx, dy) => {
                lemma_first_fighter_at(objects, objects[0].x + dx, objects[0].y + dy, 0);
            },
            Action::PickUp => {
                lemma_first_item_at(objects, objects[0].x as int, objects[0].y as int, 0);
            },
            Action::Use(id, selection) => {
                match before.1.inventory[id as int].item {
                    Some(Item::Lightning) => {
                        lemma_closest_is_nearest(
                            objects,
                            fov,
                            LIGHTNING_RANGE as int,
                            objects.len() as int,
                        );
                    },
                    _ => {},
                }
            },
            _ => {},
        }
    }
}

/// The player stays the first entity of the store through the turns of
/// the monsters, which also leave the store at its size.
pub proof fn lemma_turns_keep_player_first(
    state: (Seq<ObjectView>, GameView),
    fov: Seq<Seq<bool>>,
    steps: Seq<(int, int)>,
    k: int,
)
    requires
        player_first(state.0),
        k <= state.0.len(),
    ensures
        player_first(after_turns(state, fov, steps, k).0),
        after_turns(state, fov, steps, k).0.len() == state.0.len(),
        after_turns(state, fov, steps, k).0[0].name == state.0[0].name,
    decreases k,
{
    if k > 0 {
        lemma_turns_keep_player_first(state, fov, steps, k - 1);
    }
}

} // verus!
