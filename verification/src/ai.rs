//! The behaviour of monsters, and the player's own move or attack.

use vstd::prelude::*;
use crate::color::Color;
use crate::combat::{after_damage, attack_damage, attack_fits, attacker_after, log_after_attack};
use crate::entity::{logged, object_views, Ai, Game, GameView, Object, ObjectView, PLAYER};
use crate::fov::{sees, FovMap};
use crate::log::add_message;
use crate::messages::{recovered_message, recovered_text};
use crate::movement::{after_step, approach, gap, move_by, move_towards};
use crate::rng::random_range;

verus! {

/// Borrows two distinct items of a slice at once.
pub fn mut_two<T>(first_index: usize, second_index: usize, items: &mut [T]) -> (pair: (
    &mut T,
    &mut T,
))
    requires
        first_index != second_index,
        first_index < old(items).len(),
        second_index < old(items).len(),
    ensures
        *pair.0 == old(items)[first_index as int],
        *pair.1 == old(items)[second_index as int],
        final(items)@ == old(items)@.update(first_index as int, *final(pair.0)).update(
            second_index as int,
            *final(pair.1),
        ),
{
    if first_index < second_index {
        let (first_slice, second_slice) = items.split_at_mut(second_index);
        (&mut first_slice[first_index], &mut second_slice[0])
    } else {
        let (first_slice, second_slice) = items.split_at_mut(first_index);
        (&mut second_slice[0], &mut first_slice[second_index])
    }
}

/// The store and the game after entity `attacker` attacked entity `target`.
pub open spec fn after_attack(
    objects: Seq<ObjectView>,
    game: GameView,
    attacker: int,
    target: int,
) -> (Seq<ObjectView>, GameView) {
    (
        objects.update(attacker, attacker_after(objects[attacker], objects[target], game)).update(
            target,
            after_damage(
                objects[target],
                attack_damage(objects[attacker], objects[target], game),
            ),
        ),
        GameView { log: log_after_attack(objects[attacker], objects[target], game), ..game },
    )
}

/// Lets entity `attacker` attack entity `target`, another entity of the same
/// store.
pub fn attack_between(attacker: usize, target: usize, objects: &mut Vec<Object>, game: &mut Game)
    requires
        attacker != target,
        attacker < old(objects).len(),
        target < old(objects).len(),
        attack_fits(old(objects)[attacker as int]@, old(objects)[target as int]@, old(game)@),
    ensures
        (object_views(final(objects)@), final(game)@) == after_attack(
            object_views(old(objects)@),
            old(game)@,
            attacker as int,
            target as int,
        ),
        final(objects).len() == old(objects).len(),
{
    let (first, second) = mut_two(attacker, target, objects.as_mut_slice());
    first.attack(second, game);
}

/// Whether a monster with the basic behaviour attacks: it is in sight, next
/// to the player, and the player is a fighter with hit points left.
pub open spec fn basic_attacks(objects: Seq<ObjectView>, fov: Seq<Seq<bool>>, id: int) -> bool {
    &&& sees(fov, objects[id].x as int, objects[id].y as int)
    &&& gap(objects, id) < 4
    &&& objects[0].fighter matches Some(f) && f.hp > 0
}

/// Whether the basic behaviour can run: a monster that attacks is not the
/// player, and its attack can be computed in machine integers.
pub open spec fn basic_fits(
    objects: Seq<ObjectView>,
    game: GameView,
    fov: Seq<Seq<bool>>,
    id: int,
) -> bool {
    basic_attacks(objects, fov, id) ==> id != PLAYER && attack_fits(objects[id], objects[0], game)
}

/// What the basic behaviour does: out of sight nothing; in sight, a monster
/// two cells or more from the player steps towards the player, and one
/// that is nearer attacks a player who has hit points left.
pub open spec fn basic_outcome(
    objects: Seq<ObjectView>,
    game: GameView,
    fov: Seq<Seq<bool>>,
    id: int,
) -> (Seq<ObjectView>, GameView) {
    if !sees(fov, objects[id].x as int, objects[id].y as int) {
        (objects, game)
    } else if gap(objects, id) >= 4 {
        (
            after_step(
                game.map,
                objects,
                id,
                approach(objects[0].x - objects[id].x, objects[0].y - objects[id].y),
                approach(objects[0].y - objects[id].y, objects[0].x - objects[id].x),
            ),
            game,
        )
    } else if basic_attacks(objects, fov, id) {
        after_attack(objects, game, id, 0)
    } else {
        (objects, game)
    }
}

/// One turn of a monster with the basic behaviour. The behaviour stays.
pub fn ai_basic(monster_id: usize, objects: &mut Vec<Object>, game: &mut Game, fov_map: &FovMap) -> (next:
    Ai)
    requires
        monster_id < old(objects).len(),
        basic_fits(object_views(old(objects)@), old(game)@, fov_map@, monster_id as int),
    ensures
        next == Ai::Basic,
        (object_views(final(objects)@), final(game)@) == basic_outcome(
            object_views(old(objects)@),
            old(game)@,
            fov_map@,
            monster_id as int,
        ),
        final(objects).len() == old(objects).len(),
{
    let (monster_x, monster_y) = objects[monster_id].pos();
    if fov_map.is_in_fov(monster_x, monster_y) {
        if objects[PLAYER].distance_squared_to(&objects[monster_id]) >= 4 {
            let (player_x, player_y) = objects[PLAYER].pos();
            move_towards(monster_id, player_x, player_y, &game.map, objects);
            assert(object_views(objects@).len() == objects.len());
        } else if match objects[PLAYER].fighter {
            Some(f) => f.hp > 0,
            None => false,
        } {
            attack_between(monster_id, PLAYER, objects, game);
        }
    }
    Ai::Basic
}

/// Whether `(dx, dy)` is a step that a confused monster may stumble: each
/// part is -1, 0 or 1.
pub open spec fn stumble(dx: int, dy: int) -> bool {
    -1 <= dx <= 1 && -1 <= dy <= 1
}

/// What confusion does when the monster stumbles by `(dx, dy)`: while turns
/// remain, the monster takes the step if it can and one turn is used up;
/// after that the log tells that the confusion is over, and the behaviour
/// from before it comes back.
pub open spec fn confused_outcome(
    objects: Seq<ObjectView>,
    game: GameView,
    id: int,
    previous_ai: Ai,
    num_turns: i32,
    dx: int,
    dy: int,
) -> (Seq<ObjectView>, GameView, Ai) {
    if num_turns >= 0 {
        (
            after_step(game.map, objects, id, dx, dy),
            game,
            Ai::Confused { previous_ai: Box::new(previous_ai), num_turns: (num_turns - 1) as i32 },
        )
    } else {
        (objects, logged(game, recovered_text(objects[id].name), Color::Red), previous_ai)
    }
}

/// One turn of a confused monster that stumbles by `(dx, dy)`.
pub fn stumble_by(
    monster_id: usize,
    dx: i32,
    dy: i32,
    objects: &mut Vec<Object>,
    game: &mut Game,
    previous_ai: Box<Ai>,
    num_turns: i32,
) -> (next: Ai)
    requires
        monster_id < old(objects).len(),
    ensures
        (object_views(final(objects)@), final(game)@, next) == confused_outcome(
            object_views(old(objects)@),
            old(game)@,
            monster_id as int,
            *previous_ai,
            num_turns,
            dx as int,
            dy as int,
        ),
        final(objects).len() == old(objects).len(),
{
    if num_turns >= 0 {
        move_by(monster_id, dx, dy, &game.map, objects);
        assert(object_views(objects@).len() == objects.len());
        Ai::Confused { previous_ai, num_turns: num_turns - 1 }
    } else {
        add_message(
            &mut game.log,
            recovered_message(objects[monster_id].name.as_str()),
            Color::Red,
        );
        *previous_ai
    }
}

/// One turn of a confused monster: while turns remain it stumbles by a step
/// drawn at random.
pub fn ai_confused(
    monster_id: usize,
    objects: &mut Vec<Object>,
    game: &mut Game,
    previous_ai: Box<Ai>,
    num_turns: i32,
) -> (next: Ai)
    requires
        monster_id < old(objects).len(),
    ensures
        exists|dx: int, dy: int|
            stumble(dx, dy) && (object_views(final(objects)@), final(game)@, next)
                == #[trigger] confused_outcome(
                object_views(old(objects)@),
                old(game)@,
                monster_id as int,
                *previous_ai,
                num_turns,
                dx,
                dy,
            ),
        final(objects).len() == old(objects).len(),
{
    let (dx, dy) = if num_turns >= 0 {
        (random_range(-1, 2), random_range(-1, 2))
    } else {
        (0, 0)
    };
    let next = stumble_by(monster_id, dx, dy, objects, game, previous_ai, num_turns);
    next
}

/// The entity with its behaviour replaced.
pub open spec fn with_ai(o: ObjectView, ai: Option<Ai>) -> ObjectView {
    ObjectView { ai, ..o }
}

/// Whether the turn of entity `id` can run.
pub open spec fn turn_fits(
    objects: Seq<ObjectView>,
    game: GameView,
    fov: Seq<Seq<bool>>,
    id: int,
) -> bool {
    objects[id].ai == Some(Ai::Basic) ==> basic_fits(
        objects.update(id, with_ai(objects[id], None)),
        game,
        fov,
        id,
    )
}

/// What the turn of entity `id` does, where a confused monster stumbles by
/// `(dx, dy)`: the entity acts by its behaviour, which is taken from it for
/// the time of the turn and then replaced by what the turn left. An entity
/// without behaviour does nothing.
pub open spec fn turn_outcome(
    objects: Seq<ObjectView>,
    game: GameView,
    fov: Seq<Seq<bool>>,
    id: int,
    dx: int,
    dy: int,
) -> (Seq<ObjectView>, GameView) {
    let idle = objects.update(id, with_ai(objects[id], None));
    match objects[id].ai {
        Some(Ai::Basic) => {
            let acted = basic_outcome(idle, game, fov, id);
            (acted.0.update(id, with_ai(acted.0[id], Some(Ai::Basic))), acted.1)
        },
        Some(Ai::Confused { previous_ai, num_turns }) => {
            let acted = confused_outcome(idle, game, id, *previous_ai, num_turns, dx, dy);
            (acted.0.update(id, with_ai(acted.0[id], Some(acted.2))), acted.1)
        },
        None => (objects, game),
    }
}

/// One turn of entity `monster_id`, by its behaviour.
pub fn ai_take_turn(monster_id: usize, objects: &mut Vec<Object>, game: &mut Game, fov_map: &FovMap)
    requires
        monster_id < old(objects).len(),
        turn_fits(object_views(old(objects)@), old(game)@, fov_map@, monster_id as int),
    ensures
        exists|dx: int, dy: int|
            stumble(dx, dy) && (object_views(final(objects)@), final(game)@)
                == #[trigger] turn_outcome(
                object_views(old(objects)@),
                old(game)@,
                fov_map@,
                monster_id as int,
                dx,
                dy,
            ),
        final(objects).len() == old(objects).len(),
{
    let ghost before = object_views(objects@);
    if let Some(ai) = objects[monster_id].ai.take() {
        let ghost idle = object_views(objects@);
        assert(idle =~= before.update(
            monster_id as int,
            with_ai(before[monster_id as int], None),
        ));
        match ai {
            Ai::Basic => {
                let new_ai = ai_basic(monster_id, objects, game, fov_map);
                objects[monster_id].ai = Some(new_ai);
                assert((object_views(objects@), game@) == turn_outcome(
                    before,
                    old(game)@,
                    fov_map@,
                    monster_id as int,
                    0,
                    0,
                ));
            },
            Ai::Confused { previous_ai, num_turns } => {
                let ghost previous = *previous_ai;
                let new_ai = ai_confused(monster_id, objects, game, previous_ai, num_turns);
                let ghost acted = object_views(objects@);
                let ghost after = game@;
                let ghost (dx, dy) = choose|dx: int, dy: int|
                    stumble(dx, dy) && (acted, after, new_ai) == #[trigger] confused_outcome(
                        idle,
                        old(game)@,
                        monster_id as int,
                        previous,
                        num_turns,
                        dx,
                        dy,
                    );
                objects[monster_id].ai = Some(new_ai);
                assert((object_views(objects@), game@) == turn_outcome(
                    before,
                    old(game)@,
                    fov_map@,
                    monster_id as int,
                    dx,
                    dy,
                ));
            },
        }
    } else {
        assert((object_views(objects@), game@) == turn_outcome(
            before,
            old(game)@,
            fov_map@,
            monster_id as int,
            0,
            0,
        ));
    }
}

/// The behaviour that one turn leaves: the basic behaviour stays; a
/// confusion with turns left loses one, and one without gives way to the
/// behaviour from before it.
pub open spec fn ai_after_turn(ai: Ai) -> Ai {
    match ai {
        Ai::Basic => Ai::Basic,
        Ai::Confused { previous_ai, num_turns } => if num_turns >= 0 {
            Ai::Confused { previous_ai, num_turns: (num_turns - 1) as i32 }
        } else {
            *previous_ai
        },
    }
}

/// The behaviour that `turns` turns leave.
pub open spec fn ai_after_turns(ai: Ai, turns: nat) -> Ai
    decreases turns,
{
    if turns == 0 {
        ai
    } else {
        ai_after_turn(ai_after_turns(ai, (turns - 1) as nat))
    }
}

/// A turn changes the behaviour of the entity whose turn it is by
/// `ai_after_turn`, whatever else the turn does and wherever a confused
/// monster stumbles.
pub proof fn lemma_turn_advances_ai(
    objects: Seq<ObjectView>,
    game: GameView,
    fov: Seq<Seq<bool>>,
    id: int,
    dx: int,
    dy: int,
)
    requires
        0 <= id < objects.len(),
        id != PLAYER,
    ensures
        turn_outcome(objects, game, fov, id, dx, dy).0.len() == objects.len(),
        turn_outcome(objects, game, fov, id, dx, dy).0[id].ai == match objects[id].ai {
            Some(ai) => Some(ai_after_turn(ai)),
            None => None,
        },
{
}

/// Confusion runs its course. A monster confused with `remaining` turns left
/// stumbles on each of its next `remaining + 1` turns, which count the turns
/// left down to zero and below, and on the turn after those it has the
/// behaviour from before the confusion again.
pub proof fn lemma_confusion_runs_out(previous: Ai, remaining: i32, turns: nat)
    requires
        0 <= remaining,
        turns <= remaining + 1,
    ensures
        ai_after_turns(
            Ai::Confused { previous_ai: Box::new(previous), num_turns: remaining },
            turns,
        ) == (Ai::Confused {
            previous_ai: Box::new(previous),
            num_turns: (remaining - turns) as i32,
        }),
        turns == remaining + 1 ==> ai_after_turns(
            Ai::Confused { previous_ai: Box::new(previous), num_turns: remaining },
            turns + 1,
        ) == previous,
    decreases turns,
{
    if turns > 0 {
        lemma_confusion_runs_out(previous, remaining, (turns - 1) as nat);
    }
}

/// Whether entity `id` is a fighter on the cell `(x, y)`.
pub open spec fn fighter_on(objects: Seq<ObjectView>, id: int, x: int, y: int) -> bool {
    objects[id].fighter is Some && objects[id].is_at(x, y)
}

/// The first fighter from position `from` on that stands on `(x, y)`.
pub open spec fn first_fighter_at(objects: Seq<ObjectView>, x: int, y: int, from: int) -> Option<
    int,
>
    decreases objects.len() - from,
{
    if from < 0 || from >= objects.len() {
        None
    } else if fighter_on(objects, from, x, y) {
        Some(from)
    } else {
        first_fighter_at(objects, x, y, from + 1)
    }
}

/// Whether the player can move or attack by `(dx, dy)`: a fighter on the
/// target cell is another entity than the player, and the attack on it can
/// be computed in machine integers.
pub open spec fn bump_fits(objects: Seq<ObjectView>, game: GameView, dx: int, dy: int) -> bool {
    &&& objects.len() > 0
    &&& match first_fighter_at(objects, objects[0].x + dx, objects[0].y + dy, 0) {
        Some(target) => target != PLAYER && attack_fits(objects[0], objects[target], game),
        None => true,
    }
}

/// What the player's move comes to: an attack on the first fighter on the
/// target cell, or else a step onto it.
pub open spec fn bump_outcome(objects: Seq<ObjectView>, game: GameView, dx: int, dy: int) -> (
    Seq<ObjectView>,
    GameView,
) {
    match first_fighter_at(objects, objects[0].x + dx, objects[0].y + dy, 0) {
        Some(target) => after_attack(objects, game, 0, target),
        None => (after_step(game.map, objects, 0, dx, dy), game),
    }
}

/// The first fighter on a cell is a fighter on that cell, and no entity
/// between the start of the search and it is one.
pub proof fn lemma_first_fighter_at(objects: Seq<ObjectView>, x: int, y: int, from: int)
    requires
        0 <= from,
    ensures
        match first_fighter_at(objects, x, y, from) {
            Some(id) => from <= id < objects.len() && fighter_on(objects, id, x, y)
                && forall|i: int| from <= i < id ==> !fighter_on(objects, i, x, y),
            None => forall|i: int| from <= i < objects.len() ==> !fighter_on(objects, i, x, y),
        },
    decreases objects.len() - from,
{
    if from < objects.len() && !fighter_on(objects, from, x, y) {
        lemma_first_fighter_at(objects, x, y, from + 1);
    }
}

/// Moves the player by `(dx, dy)`, or attacks the fighter that stands there.
pub fn player_move_or_attack(dx: i32, dy: i32, objects: &mut Vec<Object>, game: &mut Game)
    requires
        bump_fits(object_views(old(objects)@), old(game)@, dx as int, dy as int),
    ensures
        (object_views(final(objects)@), final(game)@) == bump_outcome(
            object_views(old(objects)@),
            old(game)@,
            dx as int,
            dy as int,
        ),
        final(objects).len() == old(objects).len(),
{
    let x = objects[PLAYER].x as i64 + dx as i64;
    let y = objects[PLAYER].y as i64 + dy as i64;
    let ghost views = object_views(objects@);

    let mut target_id: Option<usize> = None;
    let mut id: usize = 0;
    while id < objects.len()
        invariant_except_break
            target_id is None,
            first_fighter_at(views, x as int, y as int, 0) == first_fighter_at(
                views,
                x as int,
                y as int,
                id as int,
            ),
        invariant
            id <= objects.len(),
            views == object_views(objects@),
        ensures
            views == object_views(objects@),
            match target_id {
                Some(t) => t < objects.len() && first_fighter_at(views, x as int, y as int, 0)
                    == Some(t as int),
                None => first_fighter_at(views, x as int, y as int, 0) is None,
            },
        decreases objects.len() - id,
    {
        if objects[id].fighter.is_some() && objects[id].x as i64 == x && objects[id].y as i64
            == y {
            target_id = Some(id);
            break ;
        }
        id += 1;
    }

    match target_id {
        Some(target_id) => {
            attack_between(PLAYER, target_id, objects, game);
        },
        None => {
            move_by(PLAYER, dx, dy, &game.map, objects);
            assert(object_views(objects@).len() == objects.len());
        },
    }
}

} // verus!
