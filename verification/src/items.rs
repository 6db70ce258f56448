//! The effects of items: healing, lightning, confusion and the fireball.

use vstd::prelude::*;
use vstd::string::StringExecFns;
use crate::color::Color;
use crate::combat::{after_damage, damage_fits, dies, log_after_damage, reward};
use crate::entity::{
    logged, object_views, Ai, Fighter, Game, GameView, Item, Object, ObjectView, PLAYER,
};
use crate::equipment::{toggle_equipment, toggled, UseResult};
use crate::fov::{sees, FovMap};
use crate::log::{add_message, log_added};
use crate::movement::{distance_squared, gap};
use crate::messages::{
    burned_message, burned_text, confused_message, confused_text, fireball_message,
    fireball_text, lightning_message, lightning_text, unusable_message, unusable_text,
};
use crate::stats::{computable, effective, Stat};
use crate::tile::{MAP_HEIGHT, MAP_WIDTH};

verus! {

/// The hit points a healing potion restores.
pub const HEAL_AMOUNT: i32 = 40;

/// The damage of a lightning bolt.
pub const LIGHTNING_DAMAGE: i32 = 40;

/// The range of a lightning bolt.
pub const LIGHTNING_RANGE: i32 = 5;

/// The range within which a monster can be confused.
pub const CONFUSE_RANGE: i32 = 8;

/// The number of turns a confusion lasts.
pub const CONFUSE_NUM_TURNS: i32 = 10;

/// The radius of a fireball.
pub const FIREBALL_RADIUS: i32 = 3;

/// The damage of a fireball.
pub const FIREBALL_DAMAGE: i32 = 25;

/// Whether healing the player can be computed in machine integers.
pub open spec fn heal_spell_fits(player: ObjectView, game: GameView) -> bool {
    player.fighter matches Some(f) ==> computable(player, game.inventory, Stat::MaxHp) && (f.hp
        != effective(player, game.inventory, Stat::MaxHp) ==> f.hp + HEAL_AMOUNT <= i32::MAX)
}

/// Whether the player is hurt: a fighter whose hit points differ from their
/// effective maximum.
pub open spec fn hurt(player: ObjectView, game: GameView) -> bool {
    player.fighter matches Some(f) && f.hp != effective(player, game.inventory, Stat::MaxHp)
}

/// What the use of an item left behind: the store, the game, and what
/// became of the item.
pub struct Outcome {
    pub objects: Seq<ObjectView>,
    pub game: GameView,
    pub result: UseResult,
}

/// The entity with experience added to its fighter.
pub open spec fn gained(o: ObjectView, xp: int) -> ObjectView {
    match o.fighter {
        Some(f) => ObjectView { fighter: Some(Fighter { xp: (f.xp + xp) as i32, ..f }), ..o },
        None => o,
    }
}

/// What drinking a healing potion comes to: a hurt player regains hit
/// points and the potion is used up; a player in full health is told so and
/// keeps it.
pub open spec fn heal_outcome(objects: Seq<ObjectView>, game: GameView) -> Outcome {
    if hurt(objects[0], game) {
        Outcome {
            objects: objects.update(
                0,
                Object::healed(objects[0], HEAL_AMOUNT as int, game.inventory),
            ),
            game: logged(game, "Your wounds start to feel better!"@, Color::LightViolet),
            result: UseResult::UsedUp,
        }
    } else if objects[0].fighter is Some {
        Outcome {
            objects,
            game: logged(game, "You are already at full health"@, Color::Red),
            result: UseResult::Cancelled,
        }
    } else {
        Outcome { objects, game, result: UseResult::Cancelled }
    }
}

/// Drinks a healing potion.
pub fn cast_heal(objects: &mut Vec<Object>, game: &mut Game) -> (result: UseResult)
    requires
        old(objects).len() > 0,
        heal_spell_fits(old(objects)[0]@, old(game)@),
    ensures
        (Outcome { objects: object_views(final(objects)@), game: final(game)@, result })
            == heal_outcome(object_views(old(objects)@), old(game)@),
        final(objects).len() == old(objects).len(),
        final(game).inventory.len() == old(game).inventory.len(),
{
    if let Some(fighter) = objects[PLAYER].fighter {
        if fighter.hp == objects[PLAYER].max_hp(game) {
            add_message(
                &mut game.log,
                String::from_str("You are already at full health"),
                Color::Red,
            );
            return UseResult::Cancelled;
        }
        add_message(
            &mut game.log,
            String::from_str("Your wounds start to feel better!"),
            Color::LightViolet,
        );
        objects[PLAYER].heal(HEAL_AMOUNT, game);
        assert(object_views(objects@) =~= object_views(old(objects)@).update(
            0,
            Object::healed(old(objects)[0]@, HEAL_AMOUNT as int, old(game)@.inventory),
        ));
        return UseResult::UsedUp;
    }
    UseResult::Cancelled
}

/// Whether entity `id` is a hostile fighter in sight: not the player, able
/// to fight and to act, and standing on a visible cell.
pub open spec fn hostile_in_sight(objects: Seq<ObjectView>, fov: Seq<Seq<bool>>, id: int) -> bool {
    &&& id != PLAYER
    &&& objects[id].fighter is Some
    &&& objects[id].ai is Some
    &&& sees(fov, objects[id].x as int, objects[id].y as int)
}

/// Whether a squared distance is within reach: the distance is at most
/// `max_range`.
pub open spec fn in_reach(gap: int, max_range: int) -> bool {
    max_range >= 0 && gap <= max_range * max_range
}

/// Whether entity `id` can be struck from where the player stands.
pub open spec fn strikable(
    objects: Seq<ObjectView>,
    fov: Seq<Seq<bool>>,
    max_range: int,
    id: int,
) -> bool {
    hostile_in_sight(objects, fov, id) && in_reach(gap(objects, id), max_range)
}

/// The entity among the first `k` that can be struck and is nearest to the
/// player; of several at the same distance, the first.
pub open spec fn closest_among(
    objects: Seq<ObjectView>,
    fov: Seq<Seq<bool>>,
    max_range: int,
    k: int,
) -> Option<int>
    decreases k,
{
    if k <= 0 {
        None
    } else {
        let earlier = closest_among(objects, fov, max_range, k - 1);
        if strikable(objects, fov, max_range, k - 1) && (earlier matches Some(e) ==> gap(
            objects,
            k - 1,
        ) < gap(objects, e)) {
            Some(k - 1)
        } else {
            earlier
        }
    }
}

/// The nearest strikable entity is strikable, no strikable entity is nearer,
/// and none before it is as near; there is none only where nothing can be
/// struck.
pub proof fn lemma_closest_is_nearest(
    objects: Seq<ObjectView>,
    fov: Seq<Seq<bool>>,
    max_range: int,
    k: int,
)
    ensures
        match closest_among(objects, fov, max_range, k) {
            Some(id) => {
                &&& 0 <= id < k
                &&& strikable(objects, fov, max_range, id)
                &&& forall|j: int|
                    0 <= j < k && strikable(objects, fov, max_range, j) ==> gap(objects, id)
                        <= #[trigger] gap(objects, j)
                &&& forall|j: int|
                    0 <= j < id && strikable(objects, fov, max_range, j) ==> gap(objects, id)
                        < #[trigger] gap(objects, j)
            },
            None => forall|j: int| 0 <= j < k ==> !#[trigger] strikable(objects, fov, max_range, j),
        },
    decreases k,
{
    if k > 0 {
        lemma_closest_is_nearest(objects, fov, max_range, k - 1);
    }
}

/// Finds the nearest hostile fighter in sight whose distance to the player is
/// at most `max_range`.
pub fn closest_monster(max_range: i32, objects: &Vec<Object>, fov: &FovMap) -> (found: Option<
    usize,
>)
    requires
        objects.len() > 0,
    ensures
        match found {
            Some(id) => id < objects.len() && closest_among(
                object_views(objects@),
                fov@,
                max_range as int,
                objects.len() as int,
            ) == Some(id as int),
            None => closest_among(
                object_views(objects@),
                fov@,
                max_range as int,
                objects.len() as int,
            ) is None,
        },
{
    let mut closest_enemy: Option<usize> = None;
    let limit: i128 = max_range as i128;
    assert(0 <= limit * limit <= 0x1_0000_0000 * 0x1_0000_0000) by (nonlinear_arith)
        requires
            -0x1_0000_0000 < limit < 0x1_0000_0000,
    ;
    let reach: i128 = limit * limit;
    let mut closest_dist: i128 = 0;
    let ghost views = object_views(objects@);
    let mut id: usize = 0;
    while id < objects.len()
        invariant
            id <= objects.len(),
            objects.len() > 0,
            views == object_views(objects@),
            reach == max_range * max_range,
            match closest_enemy {
                Some(e) => e < id && closest_among(views, fov@, max_range as int, id as int)
                    == Some(e as int) && closest_dist == gap(views, e as int),
                None => closest_among(views, fov@, max_range as int, id as int) is None,
            },
        decreases objects.len() - id,
    {
        let object = &objects[id];
        if id != PLAYER && object.fighter.is_some() && object.ai.is_some() && fov.is_in_fov(
            object.x,
            object.y,
        ) {
            let dist = objects[PLAYER].distance_squared_to(object);
            let nearer = match closest_enemy {
                Some(_) => dist < closest_dist,
                None => true,
            };
            if max_range >= 0 && dist <= reach && nearer {
                closest_enemy = Some(id);
                closest_dist = dist;
            }
        }
        id += 1;
    }
    closest_enemy
}

/// The nearest entity that a lightning bolt can strike.
pub open spec fn lightning_target(objects: Seq<ObjectView>, fov: Seq<Seq<bool>>) -> Option<int> {
    closest_among(objects, fov, LIGHTNING_RANGE as int, objects.len() as int)
}

/// Whether a lightning bolt can be cast in machine integers.
pub open spec fn lightning_fits(objects: Seq<ObjectView>, fov: Seq<Seq<bool>>) -> bool {
    match lightning_target(objects, fov) {
        Some(id) => {
            &&& damage_fits(objects[id], LIGHTNING_DAMAGE as int)
            &&& dies(objects[id], LIGHTNING_DAMAGE as int) ==> (objects[0].fighter matches Some(f)
                && i32::MIN <= f.xp + objects[id].fighter.unwrap().xp <= i32::MAX)
        },
        None => true,
    }
}

/// What a lightning bolt comes to: it strikes the nearest hostile fighter in
/// sight and range, whose experience goes to the player if it dies; with no
/// such fighter it is not cast.
pub open spec fn lightning_outcome(objects: Seq<ObjectView>, game: GameView, fov: Seq<Seq<bool>>)
    -> Outcome {
    match lightning_target(objects, fov) {
        Some(id) => {
            let struck = objects.update(id, after_damage(objects[id], LIGHTNING_DAMAGE as int));
            Outcome {
                objects: match reward(objects[id], LIGHTNING_DAMAGE as int) {
                    Some(xp) => struck.update(0, gained(objects[0], xp as int)),
                    None => struck,
                },
                game: GameView {
                    log: log_after_damage(
                        log_added(
                            game.log,
                            lightning_text(objects[id].name, LIGHTNING_DAMAGE as int),
                            Color::LightBlue,
                        ),
                        objects[id],
                        LIGHTNING_DAMAGE as int,
                    ),
                    ..game
                },
                result: UseResult::UsedUp,
            }
        },
        None => Outcome {
            objects,
            game: logged(game, "No enemy is close enough to strike."@, Color::Red),
            result: UseResult::Cancelled,
        },
    }
}

/// Casts a lightning bolt at the nearest hostile fighter in sight.
pub fn cast_lightning(objects: &mut Vec<Object>, game: &mut Game, fov: &FovMap) -> (result:
    UseResult)
    requires
        old(objects).len() > 0,
        lightning_fits(object_views(old(objects)@), fov@),
    ensures
        (Outcome { objects: object_views(final(objects)@), game: final(game)@, result })
            == lightning_outcome(object_views(old(objects)@), old(game)@, fov@),
        final(objects).len() == old(objects).len(),
        final(game).inventory.len() == old(game).inventory.len(),
{
    let monster_id = closest_monster(LIGHTNING_RANGE, objects, fov);
    proof {
        lemma_closest_is_nearest(
            object_views(objects@),
            fov@,
            LIGHTNING_RANGE as int,
            objects.len() as int,
        );
    }
    if let Some(monster_id) = monster_id {
        add_message(
            &mut game.log,
            lightning_message(objects[monster_id].name.as_str(), LIGHTNING_DAMAGE),
            Color::LightBlue,
        );
        let ghost before = object_views(objects@);
        let gain = objects[monster_id].take_damage(LIGHTNING_DAMAGE, game);
        let ghost struck = object_views(objects@);
        assert(game@.inventory.len() == game.inventory.len());
        assert(struck =~= before.update(
            monster_id as int,
            after_damage(before[monster_id as int], LIGHTNING_DAMAGE as int),
        ));
        if let Some(xp) = gain {
            match objects[PLAYER].fighter {
                Some(mut fighter) => {
                    fighter.xp += xp;
                    objects[PLAYER].fighter = Some(fighter);
                },
                None => {},
            }
            assert(object_views(objects@) =~= struck.update(0, gained(before[0], xp as int)));
        }
        UseResult::UsedUp
    } else {
        add_message(
            &mut game.log,
            String::from_str("No enemy is close enough to strike."),
            Color::Red,
        );
        UseResult::Cancelled
    }
}

/// The entity with its wits taken: what it did before is kept for when the
/// confusion ends.
pub open spec fn confused(o: ObjectView) -> ObjectView {
    ObjectView {
        ai: Some(
            Ai::Confused {
                previous_ai: Box::new(
                    match o.ai {
                        Some(ai) => ai,
                        None => Ai::Basic,
                    },
                ),
                num_turns: CONFUSE_NUM_TURNS,
            },
        ),
        ..o
    }
}

/// What a scroll of confusion comes to: the chosen monster is confused;
/// with no monster chosen it is not cast.
pub open spec fn confuse_outcome(objects: Seq<ObjectView>, game: GameView, target: Option<usize>)
    -> Outcome {
    match target {
        Some(id) => Outcome {
            objects: objects.update(id as int, confused(objects[id as int])),
            game: logged(game, confused_text(objects[id as int].name), Color::LightGreen),
            result: UseResult::UsedUp,
        },
        None => Outcome {
            objects,
            game: logged(game, "No enemy is close enough to strike."@, Color::Red),
            result: UseResult::Cancelled,
        },
    }
}

/// Confuses the chosen monster.
pub fn cast_confuse(objects: &mut Vec<Object>, game: &mut Game, target: Option<usize>) -> (result:
    UseResult)
    requires
        target matches Some(id) ==> id < old(objects).len(),
    ensures
        (Outcome { objects: object_views(final(objects)@), game: final(game)@, result })
            == confuse_outcome(object_views(old(objects)@), old(game)@, target),
        final(objects).len() == old(objects).len(),
        final(game).inventory.len() == old(game).inventory.len(),
{
    if let Some(monster_id) = target {
        let old_ai = match objects[monster_id].ai.take() {
            Some(ai) => ai,
            None => Ai::Basic,
        };
        objects[monster_id].ai = Some(
            Ai::Confused { previous_ai: Box::new(old_ai), num_turns: CONFUSE_NUM_TURNS },
        );
        add_message(
            &mut game.log,
            confused_message(objects[monster_id].name.as_str()),
            Color::LightGreen,
        );
        assert(object_views(objects@) =~= object_views(old(objects)@).update(
            monster_id as int,
            confused(old(objects)[monster_id as int]@),
        ));
        UseResult::UsedUp
    } else {
        add_message(
            &mut game.log,
            String::from_str("No enemy is close enough to strike."),
            Color::Red,
        );
        UseResult::Cancelled
    }
}

/// Whether the fireball that explodes at `(x, y)` burns the entity: a
/// fighter within the radius.
pub open spec fn in_blast(o: ObjectView, x: int, y: int) -> bool {
    distance_squared(o, x, y) <= FIREBALL_RADIUS * FIREBALL_RADIUS && o.fighter is Some
}

/// The entity after the fireball exploded at `(x, y)`.
pub open spec fn burned(o: ObjectView, x: int, y: int) -> ObjectView {
    if in_blast(o, x, y) {
        after_damage(o, FIREBALL_DAMAGE as int)
    } else {
        o
    }
}

/// The log after the fireball burned the first `k` entities.
pub open spec fn blast_log(
    log: Seq<(Seq<char>, Color)>,
    objects: Seq<ObjectView>,
    x: int,
    y: int,
    k: int,
) -> Seq<(Seq<char>, Color)>
    decreases k,
{
    if k <= 0 {
        log
    } else {
        let earlier = blast_log(log, objects, x, y, k - 1);
        let o = objects[k - 1];
        if in_blast(o, x, y) {
            log_after_damage(
                log_added(earlier, burned_text(o.name, FIREBALL_DAMAGE as int), Color::Orange),
                o,
                FIREBALL_DAMAGE as int,
            )
        } else {
            earlier
        }
    }
}

/// The experience that the fireball sets free among the first `k` entities;
/// the player's own does not count.
pub open spec fn blast_xp(objects: Seq<ObjectView>, x: int, y: int, k: int) -> int
    decreases k,
{
    if k <= 0 {
        0
    } else {
        blast_xp(objects, x, y, k - 1) + if k - 1 != PLAYER && in_blast(objects[k - 1], x, y) {
            match reward(objects[k - 1], FIREBALL_DAMAGE as int) {
                Some(xp) => xp as int,
                None => 0,
            }
        } else {
            0
        }
    }
}

/// Whether the fireball can explode at `(x, y)` in machine integers, and
/// leaves the player a fighter to gain the experience.
pub open spec fn fireball_fits(objects: Seq<ObjectView>, x: int, y: int) -> bool {
    &&& objects.len() > 0
    &&& burned(objects[0], x, y).fighter is Some
    &&& forall|i: int|
        0 <= i < objects.len() && in_blast(#[trigger] objects[i], x, y) ==> damage_fits(
            objects[i],
            FIREBALL_DAMAGE as int,
        )
    &&& forall|k: int|
        0 <= k <= objects.len() ==> i32::MIN <= #[trigger] blast_xp(objects, x, y, k) <= i32::MAX
    &&& i32::MIN <= burned(objects[0], x, y).fighter.unwrap().xp + blast_xp(
        objects,
        x,
        y,
        objects.len() as int,
    ) <= i32::MAX
}

/// What a fireball comes to: every fighter within the radius of the chosen
/// cell is burned, the player too, and the experience of the others that die
/// goes to the player; the scroll is used up even where nothing burns. With
/// no cell chosen it is not cast.
pub open spec fn fireball_outcome(
    objects: Seq<ObjectView>,
    game: GameView,
    target: Option<(i32, i32)>,
) -> Outcome {
    match target {
        Some((x, y)) => {
            let scorched = Seq::new(objects.len(), |i: int| burned(objects[i], x as int, y as int));
            Outcome {
                objects: scorched.update(
                    0,
                    gained(
                        scorched[0],
                        blast_xp(objects, x as int, y as int, objects.len() as int),
                    ),
                ),
                game: GameView {
                    log: blast_log(
                        log_added(game.log, fireball_text(FIREBALL_RADIUS as int), Color::Orange),
                        objects,
                        x as int,
                        y as int,
                        objects.len() as int,
                    ),
                    ..game
                },
                result: UseResult::UsedUp,
            }
        },
        None => Outcome { objects, game, result: UseResult::Cancelled },
    }
}

/// Lets a fireball explode on the chosen cell.
pub fn cast_fireball(objects: &mut Vec<Object>, game: &mut Game, target: Option<(i32, i32)>) -> (result:
    UseResult)
    requires
        target matches Some(cell) ==> fireball_fits(
            object_views(old(objects)@),
            cell.0 as int,
            cell.1 as int,
        ),
    ensures
        (Outcome { objects: object_views(final(objects)@), game: final(game)@, result })
            == fireball_outcome(object_views(old(objects)@), old(game)@, target),
        final(objects).len() == old(objects).len(),
        final(game).inventory.len() == old(game).inventory.len(),
{
    let (x, y) = match target {
        Some(tile_pos) => tile_pos,
        None => {
            return UseResult::Cancelled;
        },
    };
    add_message(&mut game.log, fireball_message(FIREBALL_RADIUS), Color::Orange);
    let ghost before = object_views(objects@);
    let ghost lit = game@;
    let mut xp_to_gain: i32 = 0;
    let mut id: usize = 0;
    while id < objects.len()
        invariant
            id <= objects.len(),
            objects.len() == before.len(),
            fireball_fits(before, x as int, y as int),
            game.inventory.len() == old(game).inventory.len(),
            object_views(objects@) == Seq::new(
                before.len(),
                |i: int|
                    if i < id {
                        burned(before[i], x as int, y as int)
                    } else {
                        before[i]
                    },
            ),
            game@ == (GameView {
                log: blast_log(lit.log, before, x as int, y as int, id as int),
                ..lit
            }),
            xp_to_gain == blast_xp(before, x as int, y as int, id as int),
        decreases objects.len() - id,
    {
        let ghost earlier = object_views(objects@);
        assert(earlier[id as int] == before[id as int]);
        assert(i32::MIN <= blast_xp(before, x as int, y as int, id + 1) <= i32::MAX);
        if objects[id].distance_squared(x, y) <= (FIREBALL_RADIUS * FIREBALL_RADIUS) as i128
            && objects[id].fighter.is_some() {
            add_message(
                &mut game.log,
                burned_message(objects[id].name.as_str(), FIREBALL_DAMAGE),
                Color::Orange,
            );
            if let Some(xp) = objects[id].take_damage(FIREBALL_DAMAGE, game) {
                if id != PLAYER {
                    xp_to_gain += xp;
                }
            }
            assert(game@.inventory.len() == game.inventory.len());
            assert(object_views(objects@) =~= earlier.update(
                id as int,
                burned(before[id as int], x as int, y as int),
            ));
        }
        id += 1;
    }
    let ghost scorched = object_views(objects@);
    assert(scorched =~= Seq::new(before.len(), |i: int| burned(before[i], x as int, y as int)));
    match objects[PLAYER].fighter {
        Some(mut fighter) => {
            fighter.xp += xp_to_gain;
            objects[PLAYER].fighter = Some(fighter);
        },
        None => {},
    }
    assert(object_views(objects@) =~= scorched.update(0, gained(scorched[0], xp_to_gain as int)));
    UseResult::UsedUp
}

/// What the player chose for an item that needs a target.
#[derive(Clone, Copy, Debug, PartialEq, Eq, Structural)]
pub enum Selection {
    Nothing,
    Monster(usize),
    Tile(i32, i32),
}

impl Selection {
    /// The monster that was chosen, if one was.
    pub open spec fn monster(self) -> Option<usize> {
        match self {
            Selection::Monster(id) => Some(id),
            _ => None,
        }
    }

    /// The cell that was chosen, if one was.
    pub open spec fn tile(self) -> Option<(i32, i32)> {
        match self {
            Selection::Tile(x, y) => Some((x, y)),
            _ => None,
        }
    }
}

/// What an item asks the player to choose before it is used.
#[derive(Clone, Copy, Debug, PartialEq, Eq, Structural)]
pub enum Targeting {
    Nothing,
    Monster { max_range: i32 },
    Tile,
}

/// What the item asks for.
pub open spec fn targeting_of(item: Option<Item>) -> Targeting {
    match item {
        Some(Item::Confuse) => Targeting::Monster { max_range: CONFUSE_RANGE },
        Some(Item::Fireball) => Targeting::Tile,
        _ => Targeting::Nothing,
    }
}

/// Announces the use of the item at `inventory_id`: an item that needs a
/// target tells the player how to choose one. Returns what is to be chosen.
pub fn begin_use(inventory_id: usize, game: &mut Game) -> (targeting: Targeting)
    requires
        inventory_id < old(game).inventory.len(),
    ensures
        targeting == targeting_of(old(game)@.inventory[inventory_id as int].item),
        final(game)@ == match targeting {
            Targeting::Monster { max_range } => logged(
                old(game)@,
                "Left-click an enemy to confuse it, or right-click to cancel."@,
                Color::LightCyan,
            ),
            Targeting::Tile => logged(
                old(game)@,
                "Left-click a target tile for the fireball, or right-click to cancel."@,
                Color::LightCyan,
            ),
            Targeting::Nothing => old(game)@,
        },
{
    match game.inventory[inventory_id].item {
        Some(Item::Confuse) => {
            add_message(
                &mut game.log,
                String::from_str("Left-click an enemy to confuse it, or right-click to cancel."),
                Color::LightCyan,
            );
            Targeting::Monster { max_range: CONFUSE_RANGE }
        },
        Some(Item::Fireball) => {
            add_message(
                &mut game.log,
                String::from_str(
                    "Left-click a target tile for the fireball, or right-click to cancel.",
                ),
                Color::LightCyan,
            );
            Targeting::Tile
        },
        _ => Targeting::Nothing,
    }
}

/// Whether the cell `(x, y)` can be chosen as a target: it is on the map, in
/// sight, and no farther from the player than `max_range`, where there is one.
pub open spec fn targetable(
    objects: Seq<ObjectView>,
    fov: Seq<Seq<bool>>,
    x: int,
    y: int,
    max_range: Option<i32>,
) -> bool {
    &&& x < MAP_WIDTH && y < MAP_HEIGHT && sees(fov, x, y)
    &&& max_range matches Some(range) ==> range >= 0 && distance_squared(objects[0], x, y) <= range
        * range
}

/// Whether the cell `(x, y)` can be chosen as a target.
pub fn can_target(x: i32, y: i32, objects: &Vec<Object>, fov: &FovMap, max_range: Option<i32>) -> (b:
    bool)
    requires
        objects.len() > 0,
    ensures
        b == targetable(object_views(objects@), fov@, x as int, y as int, max_range),
{
    let in_fov = (x < MAP_WIDTH) && (y < MAP_HEIGHT) && fov.is_in_fov(x, y);
    let in_range = match max_range {
        Some(range) => {
            let limit = range as i128;
            assert(limit * limit <= 0x1_0000_0000 * 0x1_0000_0000) by (nonlinear_arith)
                requires
                    -0x1_0000_0000 < limit < 0x1_0000_0000,
            ;
            range >= 0 && objects[PLAYER].distance_squared(x, y) <= limit * limit
        },
        None => true,
    };
    in_fov && in_range
}

/// Whether entity `id` is a monster on the cell `(x, y)`: a fighter that is
/// not the player.
pub open spec fn monster_on(objects: Seq<ObjectView>, id: int, x: int, y: int) -> bool {
    objects[id].is_at(x, y) && objects[id].fighter is Some && id != PLAYER
}

/// The first monster from position `from` on that stands on `(x, y)`.
pub open spec fn first_monster_at(objects: Seq<ObjectView>, x: int, y: int, from: int) -> Option<
    int,
>
    decreases objects.len() - from,
{
    if from < 0 || from >= objects.len() {
        None
    } else if monster_on(objects, from, x, y) {
        Some(from)
    } else {
        first_monster_at(objects, x, y, from + 1)
    }
}

/// Finds the first monster that stands on the cell `(x, y)`.
pub fn monster_at(objects: &Vec<Object>, x: i32, y: i32) -> (found: Option<usize>)
    ensures
        match found {
            Some(id) => id < objects.len() && first_monster_at(
                object_views(objects@),
                x as int,
                y as int,
                0,
            ) == Some(id as int),
            None => first_monster_at(object_views(objects@), x as int, y as int, 0) is None,
        },
{
    let mut id: usize = 0;
    while id < objects.len()
        invariant
            id <= objects.len(),
            first_monster_at(object_views(objects@), x as int, y as int, 0) == first_monster_at(
                object_views(objects@),
                x as int,
                y as int,
                id as int,
            ),
        decreases objects.len() - id,
    {
        if objects[id].x == x && objects[id].y == y && objects[id].fighter.is_some() && id
            != PLAYER {
            return Some(id);
        }
        id += 1;
    }
    None
}

/// Whether the item can take effect in machine integers, on a target that
/// exists.
pub open spec fn effect_fits(
    item: Item,
    objects: Seq<ObjectView>,
    game: GameView,
    fov: Seq<Seq<bool>>,
    selection: Selection,
) -> bool {
    match item {
        Item::Heal => objects.len() > 0 && heal_spell_fits(objects[0], game),
        Item::Lightning => objects.len() > 0 && lightning_fits(objects, fov),
        Item::Confuse => selection.monster() matches Some(id) ==> id < objects.len(),
        Item::Fireball => selection.tile() matches Some(cell) ==> fireball_fits(
            objects,
            cell.0 as int,
            cell.1 as int,
        ),
        Item::Sword => true,
        Item::Shield => true,
    }
}

/// What the effect of an item comes to.
pub open spec fn effect_outcome(
    item: Item,
    id: int,
    objects: Seq<ObjectView>,
    game: GameView,
    fov: Seq<Seq<bool>>,
    selection: Selection,
) -> Outcome {
    match item {
        Item::Heal => heal_outcome(objects, game),
        Item::Lightning => lightning_outcome(objects, game, fov),
        Item::Confuse => confuse_outcome(objects, game, selection.monster()),
        Item::Fireball => fireball_outcome(objects, game, selection.tile()),
        _ => Outcome {
            objects,
            game: toggled(game, id),
            result: if game.inventory[id].equipment is Some {
                UseResult::UsedAndKept
            } else {
                UseResult::Cancelled
            },
        },
    }
}

/// What using the entity at `id` of the inventory comes to: an item takes
/// effect, and is removed if that used it up; a cancelled use is noted in
/// the log. An entity that is no item cannot be used.
pub open spec fn use_outcome(
    id: int,
    objects: Seq<ObjectView>,
    game: GameView,
    fov: Seq<Seq<bool>>,
    selection: Selection,
) -> Outcome {
    match game.inventory[id].item {
        Some(item) => {
            let done = effect_outcome(item, id, objects, game, fov, selection);
            match done.result {
                UseResult::UsedUp => Outcome {
                    game: GameView { inventory: done.game.inventory.remove(id), ..done.game },
                    ..done
                },
                UseResult::UsedAndKept => done,
                UseResult::Cancelled => Outcome {
                    game: logged(done.game, "Cancelled"@, Color::White),
                    ..done
                },
            }
        },
        None => Outcome {
            objects,
            game: logged(game, unusable_text(game.inventory[id].name), Color::White),
            result: UseResult::Cancelled,
        },
    }
}

/// Uses the entity at `inventory_id` of the inventory, with what the player
/// chose for it where it needs a target.
pub fn use_item(
    inventory_id: usize,
    objects: &mut Vec<Object>,
    game: &mut Game,
    fov: &FovMap,
    selection: Selection,
) -> (result: UseResult)
    requires
        inventory_id < old(game).inventory.len(),
        old(game)@.inventory[inventory_id as int].item matches Some(item) ==> effect_fits(
            item,
            object_views(old(objects)@),
            old(game)@,
            fov@,
            selection,
        ),
    ensures
        (Outcome { objects: object_views(final(objects)@), game: final(game)@, result })
            == use_outcome(
            inventory_id as int,
            object_views(old(objects)@),
            old(game)@,
            fov@,
            selection,
        ),
        final(objects).len() == old(objects).len(),
{
    if let Some(item) = game.inventory[inventory_id].item {
        let on_use_result = match item {
            Item::Heal => cast_heal(objects, game),
            Item::Lightning => cast_lightning(objects, game, fov),
            Item::Confuse => cast_confuse(
                objects,
                game,
                match selection {
                    Selection::Monster(id) => Some(id),
                    _ => None,
                },
            ),
            Item::Fireball => cast_fireball(
                objects,
                game,
                match selection {
                    Selection::Tile(x, y) => Some((x, y)),
                    _ => None,
                },
            ),
            Item::Sword => toggle_equipment(inventory_id, game),
            Item::Shield => toggle_equipment(inventory_id, game),
        };
        match on_use_result {
            UseResult::UsedUp => {
                let ghost done = game@;
                game.inventory.remove(inventory_id);
                assert(object_views(game.inventory@) =~= done.inventory.remove(
                    inventory_id as int,
                ));
            },
            UseResult::UsedAndKept => {},
            UseResult::Cancelled => {
                add_message(&mut game.log, String::from_str("Cancelled"), Color::White);
            },
        }
        on_use_result
    } else {
        add_message(
            &mut game.log,
            unusable_message(game.inventory[inventory_id].name.as_str()),
            Color::White,
        );
        UseResult::Cancelled
    }
}

} // verus!
