//! Experience and the player's character level.

use vstd::prelude::*;
use crate::color::Color;
use crate::entity::{logged, object_views, Fighter, Game, Object, ObjectView, PLAYER};
use crate::log::add_message;
use crate::messages::{level_up_message, level_up_text};
use crate::stats::Stat;

verus! {

/// The experience the first level-up takes, less one level's worth.
pub const LEVEL_UP_BASE: i32 = 200;

/// The experience each level adds to the price of the next.
pub const LEVEL_UP_FACTOR: i32 = 150;

/// The experience that leaving a level takes.
pub open spec fn level_up_xp(level: int) -> int {
    LEVEL_UP_BASE + level * LEVEL_UP_FACTOR
}

/// The experience of an entity; zero for one that cannot fight.
pub open spec fn experience(o: ObjectView) -> int {
    match o.fighter {
        Some(f) => f.xp as int,
        None => 0,
    }
}

/// Whether the player has the experience to leave the level.
pub open spec fn level_up_due(player: ObjectView) -> bool {
    experience(player) >= level_up_xp(player.level as int)
}

/// A fighter with one statistic raised by training: constitution adds 20 to
/// the hit points and to their maximum, strength 1 to the power, agility 1
/// to the defense.
pub open spec fn trained(f: Fighter, raise: Stat) -> Fighter {
    match raise {
        Stat::MaxHp => Fighter {
            base_max_hp: (f.base_max_hp + 20) as i32,
            hp: (f.hp + 20) as i32,
            ..f
        },
        Stat::Power => Fighter { base_power: (f.base_power + 1) as i32, ..f },
        Stat::Defense => Fighter { base_defense: (f.base_defense + 1) as i32, ..f },
    }
}

/// The player after a level-up: one level higher, the experience the level
/// took paid, and the chosen statistic raised.
pub open spec fn leveled(player: ObjectView, raise: Stat) -> ObjectView {
    match player.fighter {
        Some(f) => ObjectView {
            level: (player.level + 1) as i32,
            fighter: Some(
                trained(
                    Fighter { xp: (f.xp - level_up_xp(player.level as int)) as i32, ..f },
                    raise,
                ),
            ),
            ..player
        },
        None => player,
    }
}

/// Whether the price of the player's level can be computed in machine
/// integers.
pub open spec fn level_fits(player: ObjectView) -> bool {
    i32::MIN <= player.level * LEVEL_UP_FACTOR && level_up_xp(player.level as int) <= i32::MAX
}

/// Whether a level-up can be computed in machine integers, for a player who
/// is a fighter.
pub open spec fn level_up_fits(player: ObjectView, raise: Stat) -> bool {
    &&& level_fits(player)
    &&& level_up_due(player) ==> {
        &&& player.level < i32::MAX
        &&& player.fighter matches Some(f) && f.xp - level_up_xp(player.level as int) <= i32::MAX
            && match raise {
            Stat::MaxHp => f.base_max_hp + 20 <= i32::MAX && f.hp + 20 <= i32::MAX,
            Stat::Power => f.base_power < i32::MAX,
            Stat::Defense => f.base_defense < i32::MAX,
        }
    }
}

/// Whether the player has the experience to leave the level.
pub fn can_level_up(objects: &Vec<Object>) -> (due: bool)
    requires
        objects.len() > 0,
        level_fits(objects[0]@),
    ensures
        due == level_up_due(objects[0]@),
{
    let player = &objects[PLAYER];
    let level_up_xp = LEVEL_UP_BASE + player.level * LEVEL_UP_FACTOR;
    let xp = match player.fighter {
        Some(f) => f.xp,
        None => 0,
    };
    xp >= level_up_xp
}

/// Raises the player by one level if the experience suffices, with the
/// statistic that the player chose to raise.
pub fn level_up(objects: &mut Vec<Object>, game: &mut Game, raise: Stat)
    requires
        old(objects).len() > 0,
        level_up_fits(old(objects)[0]@, raise),
    ensures
        level_up_due(old(objects)[0]@) ==> object_views(final(objects)@) == object_views(
            old(objects)@,
        ).update(0, leveled(old(objects)[0]@, raise)) && final(game)@ == logged(
            old(game)@,
            level_up_text(old(objects)[0].level + 1),
            Color::Yellow,
        ),
        !level_up_due(old(objects)[0]@) ==> object_views(final(objects)@) == object_views(
            old(objects)@,
        ) && final(game)@ == old(game)@,
        final(objects).len() == old(objects).len(),
{
    let level_up_xp = LEVEL_UP_BASE + objects[PLAYER].level * LEVEL_UP_FACTOR;
    let xp = match objects[PLAYER].fighter {
        Some(f) => f.xp,
        None => 0,
    };
    if xp >= level_up_xp {
        objects[PLAYER].level += 1;
        add_message(&mut game.log, level_up_message(objects[PLAYER].level), Color::Yellow);
        match objects[PLAYER].fighter {
            Some(mut fighter) => {
                fighter.xp -= level_up_xp;
                match raise {
                    Stat::MaxHp => {
                        fighter.base_max_hp += 20;
                        fighter.hp += 20;
                    },
                    Stat::Power => {
                        fighter.base_power += 1;
                    },
                    Stat::Defense => {
                        fighter.base_defense += 1;
                    },
                }
                objects[PLAYER].fighter = Some(fighter);
            },
            None => {},
        }
    }
}

} // verus!
