//! A test that can be run before a turn: a game whose numbers are modest
//! can be played without leaving the machine integers.

use vstd::prelude::*;
use crate::ai::{
    basic_attacks, first_fighter_at, lemma_first_fighter_at, stumble, turn_fits, turn_outcome,
    with_ai,
};
use crate::combat::{attack_damage, attack_fits, dies};
use crate::entity::{
    object_views, Ai, DeathCallback, Equipment, Fighter, Game, GameView, Item, Object,
    ObjectView, PLAYER,
};
use crate::equipment::{lemma_first_in_slot, toggled};
use crate::fov::FovMap;
use crate::inventory::INVENTORY_SIZE;
use crate::level::{level_fits, level_up_fits};
use crate::menu::sheet_fits;
use crate::items::{
    blast_xp, effect_outcome, fireball_fits, lemma_closest_is_nearest, Selection,
    LIGHTNING_RANGE,
};
use crate::stats::{computable, effective, equipped, total_bonus, worn, Stat};
use crate::turn::{
    action_fits, after_turns, drawn, handled, lemma_first_item_at, monsters_act, next_turn_fits,
    play_turn, turn_fits_action, turn_played, turns_fit, Action, PlayerAction,
};
use crate::world::{lemma_played_turn_keeps_world_sound, world_sound};

verus! {

/// The largest size of a number of a settled game.
pub const STAT_LIMIT: i32 = 1_000_000;

/// The most entities a settled store holds.
pub const STORE_LIMIT: usize = 1_000;

/// Whether a number is of modest size.
pub open spec fn modest(v: int) -> bool {
    -STAT_LIMIT <= v <= STAT_LIMIT
}

/// Whether the numbers of a fighter are modest.
pub open spec fn fighter_modest(f: Fighter) -> bool {
    &&& modest(f.hp as int)
    &&& modest(f.base_max_hp as int)
    &&& modest(f.base_defense as int)
    &&& modest(f.base_power as int)
    &&& modest(f.xp as int)
}

/// Whether the bonuses of a piece of equipment are modest.
pub open spec fn equipment_modest(e: Equipment) -> bool {
    &&& modest(e.max_hp_bonus as int)
    &&& modest(e.power_bonus as int)
    &&& modest(e.defense_bonus as int)
}

/// Whether an entity is settled: its numbers are modest, and it acts on its
/// own only if it can fight.
pub open spec fn entity_settled(o: ObjectView) -> bool {
    &&& o.fighter matches Some(f) ==> fighter_modest(f)
    &&& o.equipment matches Some(e) ==> equipment_modest(e)
    &&& o.ai is Some ==> o.fighter is Some
}

/// Whether a game is settled: the store and the inventory are of modest
/// size and hold settled entities, and the first entity of the store is a
/// player: a fighter that dies the player's death, is no item and does not
/// act on its own.
pub open spec fn settled(objects: Seq<ObjectView>, game: GameView) -> bool {
    &&& 0 < objects.len() <= STORE_LIMIT
    &&& game.inventory.len() <= INVENTORY_SIZE
    &&& forall|i: int| 0 <= i < objects.len() ==> entity_settled(#[trigger] objects[i])
    &&& forall|i: int| 0 <= i < game.inventory.len() ==> entity_settled(#[trigger] game.inventory[i])
    &&& objects[0].fighter matches Some(f) && f.on_death == DeathCallback::Player
    &&& objects[0].ai is None
    &&& objects[0].item is None
    &&& modest(objects[0].level as int)
    &&& game.dungeon_level < u32::MAX
}

fn is_modest(v: i32) -> (b: bool)
    ensures
        b == modest(v as int),
{
    -STAT_LIMIT <= v && v <= STAT_LIMIT
}

fn is_settled(o: &Object) -> (b: bool)
    ensures
        b == entity_settled(o@),
{
    let fighter_ok = match o.fighter {
        Some(f) => is_modest(f.hp) && is_modest(f.base_max_hp) && is_modest(f.base_defense)
            && is_modest(f.base_power) && is_modest(f.xp),
        None => true,
    };
    let equipment_ok = match o.equipment {
        Some(e) => is_modest(e.max_hp_bonus) && is_modest(e.power_bonus) && is_modest(
            e.defense_bonus,
        ),
        None => true,
    };
    fighter_ok && equipment_ok && (o.ai.is_none() || o.fighter.is_some())
}

fn all_settled(entities: &Vec<Object>) -> (b: bool)
    ensures
        b == forall|i: int|
            0 <= i < entities.len() ==> entity_settled(#[trigger] object_views(entities@)[i]),
{
    let mut i: usize = 0;
    while i < entities.len()
        invariant
            i <= entities.len(),
            forall|j: int| 0 <= j < i ==> entity_settled(#[trigger] object_views(entities@)[j]),
        decreases entities.len() - i,
    {
        if !is_settled(&entities[i]) {
            assert(!entity_settled(object_views(entities@)[i as int]));
            return false;
        }
        i += 1;
    }
    true
}

/// Whether the game is settled.
pub fn within_limits(objects: &Vec<Object>, game: &Game) -> (b: bool)
    ensures
        b == settled(object_views(objects@), game@),
{
    if objects.len() == 0 || objects.len() > STORE_LIMIT {
        return false;
    }
    if game.inventory.len() > INVENTORY_SIZE {
        return false;
    }
    if !all_settled(objects) || !all_settled(&game.inventory) {
        return false;
    }
    let player = &objects[PLAYER];
    let player_ok = match player.fighter {
        Some(f) => match f.on_death {
            DeathCallback::Player => true,
            DeathCallback::Monster => false,
        },
        None => false,
    };
    player_ok && player.ai.is_none() && player.item.is_none() && is_modest(player.level)
        && game.dungeon_level < u32::MAX
}

/// Whether the fighter's own statistics are modest.
pub open spec fn base_modest(o: ObjectView) -> bool {
    o.fighter matches Some(f) ==> modest(f.base_max_hp as int) && modest(f.base_defense as int)
        && modest(f.base_power as int)
}

/// Whether the inventory is of modest size and holds equipment with modest
/// bonuses only.
pub open spec fn inventory_modest(inventory: Seq<ObjectView>) -> bool {
    &&& inventory.len() <= INVENTORY_SIZE
    &&& forall|i: int|
        0 <= i < inventory.len() ==> ((#[trigger] inventory[i]).equipment matches Some(e)
            ==> equipment_modest(e))
}

proof fn lemma_equipped_modest(inventory: Seq<ObjectView>)
    requires
        forall|i: int|
            0 <= i < inventory.len() ==> ((#[trigger] inventory[i]).equipment matches Some(e)
                ==> equipment_modest(e)),
    ensures
        equipped(inventory).len() <= inventory.len(),
        forall|j: int|
            0 <= j < equipped(inventory).len() ==> equipment_modest(
                #[trigger] equipped(inventory)[j],
            ),
    decreases inventory.len(),
{
    if inventory.len() > 0 {
        let rest = inventory.drop_last();
        lemma_equipped_modest(rest);
    }
}

proof fn lemma_total_bonus_modest(pieces: Seq<Equipment>, stat: Stat)
    requires
        forall|j: int| 0 <= j < pieces.len() ==> equipment_modest(#[trigger] pieces[j]),
    ensures
        -pieces.len() * STAT_LIMIT <= total_bonus(pieces, stat) <= pieces.len() * STAT_LIMIT,
    decreases pieces.len(),
{
    if pieces.len() > 0 {
        let rest = pieces.drop_last();
        lemma_total_bonus_modest(rest, stat);
    }
}

/// The statistics of an entity whose own values are modest can be
/// computed with a modest inventory, and stay within 27 times the limit.
pub proof fn lemma_modest_is_computable(o: ObjectView, inventory: Seq<ObjectView>, stat: Stat)
    requires
        base_modest(o),
        inventory_modest(inventory),
    ensures
        computable(o, inventory, stat),
        -27 * STAT_LIMIT <= effective(o, inventory, stat) <= 27 * STAT_LIMIT,
{
    let pieces = worn(o, inventory);
    lemma_equipped_modest(inventory);
    assert forall|k: int| 0 <= k <= pieces.len() implies -26 * STAT_LIMIT
        <= #[trigger] total_bonus(pieces.subrange(0, k), stat) <= 26 * STAT_LIMIT by {
        let part = pieces.subrange(0, k);
        lemma_total_bonus_modest(part, stat);
    }
    assert(pieces.subrange(0, pieces.len() as int) =~= pieces);
}

/// An attack fits where the own statistics of both entities and the
/// inventory are modest, the target has not lost hit points beyond the
/// limit, and the attacker is a fighter whose experience, with that of the
/// target, stays within 1002 times the limit.
pub proof fn lemma_modest_attack_fits(attacker: ObjectView, target: ObjectView, game: GameView)
    requires
        base_modest(attacker),
        base_modest(target),
        inventory_modest(game.inventory),
        target.fighter matches Some(f) ==> f.hp >= -STAT_LIMIT && (attacker.fighter matches Some(g)
            && -1002 * STAT_LIMIT <= g.xp + f.xp <= 1002 * STAT_LIMIT),
    ensures
        attack_fits(attacker, target, game),
        -54 * STAT_LIMIT <= attack_damage(attacker, target, game) <= 54 * STAT_LIMIT,
{
    lemma_modest_is_computable(attacker, game.inventory, Stat::Power);
    lemma_modest_is_computable(target, game.inventory, Stat::Defense);
}

/// Whether the game is steady, as it is between the player's action and
/// the end of the monsters' turns: the own statistics of the fighters and
/// the inventory are modest; what acts on its own is a fighter and not the
/// player; the player's experience is within 1001 times the limit; and
/// while the player has hit points left, the experience of the others is
/// modest.
pub open spec fn steady(objects: Seq<ObjectView>, game: GameView) -> bool {
    &&& objects.len() > 0
    &&& inventory_modest(game.inventory)
    &&& forall|i: int| 0 <= i < objects.len() ==> base_modest(#[trigger] objects[i])
    &&& forall|i: int|
        0 <= i < objects.len() && (#[trigger] objects[i]).ai is Some ==> i != PLAYER
            && objects[i].fighter is Some
    &&& objects[0].fighter matches Some(f) ==> -1001 * STAT_LIMIT <= f.xp <= 1001 * STAT_LIMIT
    &&& (objects[0].fighter matches Some(f) && f.hp > 0) ==> forall|i: int|
        0 < i < objects.len() ==> ((#[trigger] objects[i]).fighter matches Some(g) ==> modest(
            g.xp as int,
        ))
}

/// A settled game is steady.
pub proof fn lemma_settled_is_steady(objects: Seq<ObjectView>, game: GameView)
    requires
        settled(objects, game),
    ensures
        steady(objects, game),
{
}

/// In a steady game the turn of every entity can run.
pub proof fn lemma_steady_turn_fits(
    objects: Seq<ObjectView>,
    game: GameView,
    fov: Seq<Seq<bool>>,
    id: int,
)
    requires
        steady(objects, game),
        0 <= id < objects.len(),
    ensures
        turn_fits(objects, game, fov, id),
{
    if objects[id].ai == Some(Ai::Basic) {
        let idle = objects.update(id, with_ai(objects[id], None));
        if basic_attacks(idle, fov, id) {
            lemma_modest_attack_fits(idle[id], idle[0], game);
        }
    }
}

/// A turn leaves a steady game steady, wherever a confused monster
/// stumbles, and changes neither the size of the store nor the inventory.
pub proof fn lemma_turn_keeps_steady(
    objects: Seq<ObjectView>,
    game: GameView,
    fov: Seq<Seq<bool>>,
    id: int,
    dx: int,
    dy: int,
)
    requires
        steady(objects, game),
        0 <= id < objects.len(),
    ensures
        steady(turn_outcome(objects, game, fov, id, dx, dy).0, turn_outcome(
            objects,
            game,
            fov,
            id,
            dx,
            dy,
        ).1),
        turn_outcome(objects, game, fov, id, dx, dy).0.len() == objects.len(),
{
    if objects[id].ai == Some(Ai::Basic) {
        let idle = objects.update(id, with_ai(objects[id], None));
        if basic_attacks(idle, fov, id) {
            lemma_modest_attack_fits(idle[id], idle[0], game);
        }
    }
}

proof fn lemma_steady_after_turns(
    objects: Seq<ObjectView>,
    game: GameView,
    fov: Seq<Seq<bool>>,
    steps: Seq<(int, int)>,
    k: int,
)
    requires
        steady(objects, game),
        0 <= k <= objects.len(),
        k <= steps.len(),
    ensures
        steady(after_turns((objects, game), fov, steps, k).0, after_turns(
            (objects, game),
            fov,
            steps,
            k,
        ).1),
        after_turns((objects, game), fov, steps, k).0.len() == objects.len(),
    decreases k,
{
    if k > 0 {
        lemma_steady_after_turns(objects, game, fov, steps, k - 1);
        let earlier = after_turns((objects, game), fov, steps, k - 1);
        lemma_turn_keeps_steady(earlier.0, earlier.1, fov, k - 1, steps[k - 1].0, steps[k - 1].1);
    }
}

/// In a steady game the turns of all entities can run, however the
/// confused among them stumble.
pub proof fn lemma_steady_turns_fit(objects: Seq<ObjectView>, game: GameView, fov: Seq<Seq<bool>>)
    requires
        steady(objects, game),
    ensures
        turns_fit((objects, game), fov),
{
    assert forall|steps: Seq<(int, int)>|
        drawn(steps) && steps.len() < objects.len() implies #[trigger] next_turn_fits(
        (objects, game),
        fov,
        steps,
    ) by {
        lemma_steady_after_turns(objects, game, fov, steps, steps.len() as int);
        let reached = after_turns((objects, game), fov, steps, steps.len() as int);
        lemma_steady_turn_fits(reached.0, reached.1, fov, steps.len() as int);
    }
}

/// Whether the action names what exists: a step that is not on the spot, a
/// position of the inventory, and for an item that takes a monster a fighter
/// of the store other than the player.
pub open spec fn action_valid(action: Action, objects: Seq<ObjectView>, game: GameView) -> bool {
    match action {
        Action::Move(dx, dy) => dx != 0 || dy != 0,
        Action::Drop(id) => id < game.inventory.len(),
        Action::Use(id, selection) => id < game.inventory.len() && (selection.monster() matches Some(
            target,
        ) ==> 0 < target < objects.len() && objects[target as int].fighter is Some),
        _ => true,
    }
}

/// Whether the action names what exists.
pub fn is_valid_action(action: Action, objects: &Vec<Object>, game: &Game) -> (b: bool)
    ensures
        b == action_valid(action, object_views(objects@), game@),
{
    match action {
        Action::Move(dx, dy) => dx != 0 || dy != 0,
        Action::Drop(id) => id < game.inventory.len(),
        Action::Use(id, selection) => {
            if id >= game.inventory.len() {
                return false;
            }
            match selection {
                Selection::Monster(target) => 0 < target && target < objects.len()
                    && objects[target].fighter.is_some(),
                _ => true,
            }
        },
        _ => true,
    }
}

proof fn lemma_blast_xp_modest(objects: Seq<ObjectView>, x: int, y: int, k: int)
    requires
        0 <= k <= objects.len(),
        forall|i: int| 0 <= i < objects.len() ==> entity_settled(#[trigger] objects[i]),
    ensures
        -k * STAT_LIMIT <= blast_xp(objects, x, y, k) <= k * STAT_LIMIT,
    decreases k,
{
    if k > 0 {
        lemma_blast_xp_modest(objects, x, y, k - 1);
    }
}

proof fn lemma_settled_fireball_fits(objects: Seq<ObjectView>, game: GameView, x: int, y: int)
    requires
        settled(objects, game),
    ensures
        fireball_fits(objects, x, y),
        -STORE_LIMIT * STAT_LIMIT <= blast_xp(objects, x, y, objects.len() as int) <= STORE_LIMIT
            * STAT_LIMIT,
{
    assert forall|k: int| 0 <= k <= objects.len() implies -1000 * STAT_LIMIT
        <= #[trigger] blast_xp(objects, x, y, k) <= 1000 * STAT_LIMIT by {
        lemma_blast_xp_modest(objects, x, y, k);
    }
}

proof fn lemma_settled_attack_fits(objects: Seq<ObjectView>, game: GameView, from: int, to: int)
    requires
        settled(objects, game),
        0 <= from < objects.len(),
        0 <= to < objects.len(),
        objects[from].fighter is Some,
    ensures
        attack_fits(objects[from], objects[to], game),
{
    lemma_modest_attack_fits(objects[from], objects[to], game);
}

/// In a settled game every action that names what exists can be resolved.
pub proof fn lemma_settled_action_fits(
    action: Action,
    objects: Seq<ObjectView>,
    game: GameView,
    fov: Seq<Seq<bool>>,
)
    requires
        settled(objects, game),
        action_valid(action, objects, game),
    ensures
        action_fits(action, objects, game, fov),
{
    match action {
        Action::Move(dx, dy) => {
            let x = objects[0].x + dx;
            let y = objects[0].y + dy;
            lemma_first_fighter_at(objects, x, y, 0);
            match first_fighter_at(objects, x, y, 0) {
                Some(target) => {
                    lemma_settled_attack_fits(objects, game, 0, target);
                },
                None => {},
            }
        },
        Action::PickUp => {
            lemma_first_item_at(objects, objects[0].x as int, objects[0].y as int, 0);
        },
        Action::Use(id, selection) => {
            match game.inventory[id as int].item {
                Some(Item::Heal) => {
                    lemma_modest_is_computable(objects[0], game.inventory, Stat::MaxHp);
                },
                Some(Item::Lightning) => {
                    lemma_closest_is_nearest(
                        objects,
                        fov,
                        LIGHTNING_RANGE as int,
                        objects.len() as int,
                    );
                },
                Some(Item::Fireball) => {
                    match selection.tile() {
                        Some(cell) => {
                            lemma_settled_fireball_fits(objects, game, cell.0 as int, cell.1 as int);
                        },
                        None => {},
                    }
                },
                _ => {},
            }
        },
        Action::Descend => {
            lemma_modest_is_computable(objects[0], game.inventory, Stat::MaxHp);
        },
        _ => {},
    }
}

proof fn lemma_toggle_keeps_modest(game: GameView, id: int)
    requires
        inventory_modest(game.inventory),
        0 <= id < game.inventory.len(),
    ensures
        inventory_modest(toggled(game, id).inventory),
        toggled(game, id).inventory.len() == game.inventory.len(),
{
    match game.inventory[id].equipment {
        Some(e) => {
            lemma_first_in_slot(game.inventory, e.slot, 0);
        },
        None => {},
    }
}

proof fn lemma_settled_effect_leaves_steady(
    item: Item,
    id: usize,
    objects: Seq<ObjectView>,
    game: GameView,
    fov: Seq<Seq<bool>>,
    selection: Selection,
)
    requires
        settled(objects, game),
        action_valid(Action::Use(id, selection), objects, game),
    ensures
        steady(
            effect_outcome(item, id as int, objects, game, fov, selection).objects,
            effect_outcome(item, id as int, objects, game, fov, selection).game,
        ),
        effect_outcome(item, id as int, objects, game, fov, selection).game.inventory.len()
            == game.inventory.len(),
{
    match item {
        Item::Heal => {},
        Item::Lightning => {
            lemma_closest_is_nearest(objects, fov, LIGHTNING_RANGE as int, objects.len() as int);
        },
        Item::Confuse => {},
        Item::Fireball => {
            match selection.tile() {
                Some(cell) => {
                    lemma_settled_fireball_fits(objects, game, cell.0 as int, cell.1 as int);
                },
                None => {},
            }
        },
        Item::Sword => {
            lemma_toggle_keeps_modest(game, id as int);
        },
        Item::Shield => {
            lemma_toggle_keeps_modest(game, id as int);
        },
    }
}

/// Where the monsters act after an action in a settled game, the game that
/// the action left is steady.
pub proof fn lemma_settled_action_leaves_steady(
    action: Action,
    objects: Seq<ObjectView>,
    game: GameView,
    fov: Seq<Seq<bool>>,
    after: (Seq<ObjectView>, GameView),
    result: PlayerAction,
)
    requires
        settled(objects, game),
        action_valid(action, objects, game),
        handled(action, (objects, game), fov, after, result),
        monsters_act(after, result),
    ensures
        steady(after.0, after.1),
{
    match action {
        Action::Move(dx, dy) => {
            lemma_first_fighter_at(objects, objects[0].x + dx, objects[0].y + dy, 0);
        },
        Action::Use(id, selection) => {
            match game.inventory[id as int].item {
                Some(item) => {
                    lemma_settled_effect_leaves_steady(item, id, objects, game, fov, selection);
                },
                None => {},
            }
        },
        _ => {},
    }
}

/// A turn can be played in a settled game, whatever the action, if it names
/// what exists.
pub proof fn lemma_settled_turn_fits(
    action: Action,
    objects: Seq<ObjectView>,
    game: GameView,
    fov: Seq<Seq<bool>>,
)
    requires
        settled(objects, game),
        action_valid(action, objects, game),
    ensures
        turn_fits_action(action, objects, game, fov),
{
    lemma_settled_action_fits(action, objects, game, fov);
    assert forall|resolved: (Seq<ObjectView>, GameView), result: PlayerAction| #[trigger]
        handled(action, (objects, game), fov, resolved, result) && monsters_act(
            resolved,
            result,
        ) implies turns_fit(resolved, fov) by {
        lemma_settled_action_leaves_steady(action, objects, game, fov, resolved, result);
        lemma_steady_turns_fit(resolved.0, resolved.1, fov);
    }
}

/// Plays one turn if the game is settled and the action names what exists.
/// Returns nothing, and leaves the game as it is, where that is not so. A
/// sound world stays sound.
pub fn try_turn(action: Action, objects: &mut Vec<Object>, game: &mut Game, fov: &FovMap) -> (result:
    Option<PlayerAction>)
    ensures
        result is Some == (settled(object_views(old(objects)@), old(game)@) && action_valid(
            action,
            object_views(old(objects)@),
            old(game)@,
        )),
        match result {
            Some(played) => exists|resolved: (Seq<ObjectView>, GameView)| #[trigger]
                turn_played(
                    action,
                    (object_views(old(objects)@), old(game)@),
                    fov@,
                    resolved,
                    (object_views(final(objects)@), final(game)@),
                    played,
                ),
            None => object_views(final(objects)@) == object_views(old(objects)@) && final(game)@
                == old(game)@,
        },
        world_sound(object_views(old(objects)@), old(game)@) ==> world_sound(
            object_views(final(objects)@),
            final(game)@,
        ),
{
    if !within_limits(objects, game) || !is_valid_action(action, objects, game) {
        return None;
    }
    proof {
        lemma_settled_turn_fits(action, object_views(objects@), game@, fov@);
    }
    let played = play_turn(action, objects, game, fov);
    proof {
        let before = (object_views(old(objects)@), old(game)@);
        let after = (object_views(objects@), game@);
        if world_sound(before.0, before.1) {
            let resolved = choose|resolved: (Seq<ObjectView>, GameView)| #[trigger]
                turn_played(action, before, fov@, resolved, after, played);
            lemma_played_turn_keeps_world_sound(action, before, fov@, resolved, after, played);
        }
    }
    Some(played)
}

/// In a settled game the player can be raised by a level, whatever the
/// statistic to raise, and the character sheet can be drawn up.
pub proof fn lemma_settled_level_up_fits(objects: Seq<ObjectView>, game: GameView, raise: Stat)
    requires
        settled(objects, game),
    ensures
        level_fits(objects[0]),
        level_up_fits(objects[0], raise),
        sheet_fits(objects[0], game.inventory),
{
    lemma_modest_is_computable(objects[0], game.inventory, Stat::MaxHp);
    lemma_modest_is_computable(objects[0], game.inventory, Stat::Power);
    lemma_modest_is_computable(objects[0], game.inventory, Stat::Defense);
}

} // verus!
