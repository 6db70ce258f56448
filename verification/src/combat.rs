//! The combat resolver: damage, death and the transfer of experience.

use vstd::prelude::*;
use vstd::string::StringExecFns;
use crate::color::Color;
use crate::entity::{DeathCallback, Fighter, Game, GameView, Object, ObjectView};
use crate::log::{add_message, log_added};
use crate::messages::{
    attack_message, attack_text, monster_death_message, monster_death_text, no_effect_message,
    no_effect_text, remains_name, remains_text,
};
use crate::stats::{computable, effective, Stat};

verus! {

/// The player after death: remains that keep their fighter.
pub open spec fn dead_player(o: ObjectView) -> ObjectView {
    ObjectView { char: '%', color: Color::DarkRed, ..o }
}

/// A monster after death: inert remains, no longer in the way.
pub open spec fn dead_monster(o: ObjectView) -> ObjectView {
    ObjectView {
        char: '%',
        color: Color::DarkRed,
        blocks: false,
        fighter: None,
        ai: None,
        name: remains_text(o.name),
        ..o
    }
}

/// The death of the player: the entity becomes remains, and the log says so.
pub fn player_death(player: &mut Object, game: &mut Game)
    ensures
        final(player)@ == dead_player(old(player)@),
        final(game)@ == (GameView {
            log: log_added(old(game)@.log, "You died!"@, Color::Red),
            ..old(game)@
        }),
{
    add_message(&mut game.log, String::from_str("You died!"), Color::Red);
    player.char = '%';
    player.color = Color::DarkRed;
}

/// The death of a monster: the entity becomes inert remains, and the log
/// names the experience it was worth.
pub fn monster_death(monster: &mut Object, game: &mut Game)
    requires
        old(monster).fighter is Some,
    ensures
        final(monster)@ == dead_monster(old(monster)@),
        final(game)@ == (GameView {
            log: log_added(
                old(game)@.log,
                monster_death_text(old(monster)@.name, old(monster).fighter.unwrap().xp as int),
                Color::Orange,
            ),
            ..old(game)@
        }),
{
    let xp = match monster.fighter {
        Some(fighter) => fighter.xp,
        None => 0,
    };
    add_message(&mut game.log, monster_death_message(monster.name.as_str(), xp), Color::Orange);
    monster.char = '%';
    monster.color = Color::DarkRed;
    monster.blocks = false;
    monster.fighter = None;
    monster.ai = None;
    monster.name = remains_name(monster.name.as_str());
}

impl DeathCallback {
    /// What the death does to the entity.
    pub open spec fn outcome(self, o: ObjectView) -> ObjectView {
        match self {
            DeathCallback::Player => dead_player(o),
            DeathCallback::Monster => dead_monster(o),
        }
    }

    /// What the death writes to the log.
    pub open spec fn epitaph(self, o: ObjectView) -> Seq<char> {
        match self {
            DeathCallback::Player => "You died!"@,
            DeathCallback::Monster => monster_death_text(
                o.name,
                match o.fighter {
                    Some(f) => f.xp as int,
                    None => 0,
                },
            ),
        }
    }

    /// The colour of what the death writes to the log.
    pub open spec fn epitaph_color(self) -> Color {
        match self {
            DeathCallback::Player => Color::Red,
            DeathCallback::Monster => Color::Orange,
        }
    }

    /// Runs the death of the entity.
    pub fn callback(self, object: &mut Object, game: &mut Game)
        requires
            old(object).fighter is Some,
        ensures
            final(object)@ == self.outcome(old(object)@),
            final(game)@ == (GameView {
                log: log_added(
                    old(game)@.log,
                    self.epitaph(old(object)@),
                    self.epitaph_color(),
                ),
                ..old(game)@
            }),
    {
        match self {
            DeathCallback::Player => player_death(object, game),
            DeathCallback::Monster => monster_death(object, game),
        }
    }
}

/// The hit points a fighter is left with by an amount of damage: an amount
/// that is not positive takes nothing.
pub open spec fn hp_after(f: Fighter, damage: int) -> int {
    if damage > 0 {
        f.hp - damage
    } else {
        f.hp as int
    }
}

/// Whether the damage can be taken in machine integers.
pub open spec fn damage_fits(o: ObjectView, damage: int) -> bool {
    match o.fighter {
        Some(f) => hp_after(f, damage) >= i32::MIN,
        None => true,
    }
}

/// Whether the damage kills: the fighter had hit points left and has none
/// after it.
pub open spec fn dies(o: ObjectView, damage: int) -> bool {
    match o.fighter {
        Some(f) => f.hp > 0 && hp_after(f, damage) <= 0,
        None => false,
    }
}

/// The entity after an amount of damage.
pub open spec fn after_damage(o: ObjectView, damage: int) -> ObjectView {
    match o.fighter {
        Some(f) => {
            let hurt = ObjectView {
                fighter: Some(Fighter { hp: hp_after(f, damage) as i32, ..f }),
                ..o
            };
            if dies(o, damage) {
                f.on_death.outcome(ObjectView { alive: false, ..hurt })
            } else {
                hurt
            }
        },
        None => o,
    }
}

/// The experience that the damage sets free: that of the entity it kills.
pub open spec fn reward(o: ObjectView, damage: int) -> Option<i32> {
    if dies(o, damage) {
        Some(o.fighter.unwrap().xp)
    } else {
        None
    }
}

/// The log after an entity took an amount of damage.
pub open spec fn log_after_damage(
    log: Seq<(Seq<char>, Color)>,
    o: ObjectView,
    damage: int,
) -> Seq<(Seq<char>, Color)> {
    if dies(o, damage) {
        let on_death = o.fighter.unwrap().on_death;
        log_added(log, on_death.epitaph(o), on_death.epitaph_color())
    } else {
        log
    }
}

/// Whether `attacker` can attack `target` in machine integers.
pub open spec fn attack_fits(attacker: ObjectView, target: ObjectView, game: GameView) -> bool {
    let damage = attack_damage(attacker, target, game);
    &&& computable(attacker, game.inventory, Stat::Power)
    &&& computable(target, game.inventory, Stat::Defense)
    &&& i32::MIN <= damage <= i32::MAX
    &&& damage_fits(target, damage)
    &&& dies(target, damage) ==> attacker.fighter is Some && attacker.fighter.unwrap().xp
        + target.fighter.unwrap().xp <= i32::MAX && attacker.fighter.unwrap().xp
        + target.fighter.unwrap().xp >= i32::MIN
}

/// The damage of an attack: the attacker's power less the target's defense.
pub open spec fn attack_damage(attacker: ObjectView, target: ObjectView, game: GameView) -> int {
    effective(attacker, game.inventory, Stat::Power) - effective(
        target,
        game.inventory,
        Stat::Defense,
    )
}

/// The attacker after the attack: it gains the experience of a target that
/// it killed.
pub open spec fn attacker_after(attacker: ObjectView, target: ObjectView, game: GameView)
    -> ObjectView {
    match reward(target, attack_damage(attacker, target, game)) {
        Some(xp) => match attacker.fighter {
            Some(f) => ObjectView { fighter: Some(Fighter { xp: (f.xp + xp) as i32, ..f }), ..attacker },
            None => attacker,
        },
        None => attacker,
    }
}

/// The log after the attack.
pub open spec fn log_after_attack(attacker: ObjectView, target: ObjectView, game: GameView)
    -> Seq<(Seq<char>, Color)> {
    let damage = attack_damage(attacker, target, game);
    if damage > 0 {
        log_after_damage(
            log_added(game.log, attack_text(attacker.name, target.name, damage), Color::White),
            target,
            damage,
        )
    } else {
        log_added(game.log, no_effect_text(attacker.name, target.name), Color::White)
    }
}

impl Object {
    /// Takes an amount of damage. Damage that brings a living fighter's hit
    /// points to zero or below kills it: its death runs, and the experience
    /// it was worth is returned.
    pub fn take_damage(&mut self, damage: i32, game: &mut Game) -> (xp: Option<i32>)
        requires
            damage_fits(old(self)@, damage as int),
        ensures
            final(self)@ == after_damage(old(self)@, damage as int),
            xp == reward(old(self)@, damage as int),
            final(game)@ == (GameView {
                log: log_after_damage(old(game)@.log, old(self)@, damage as int),
                ..old(game)@
            }),
    {
        let before = match self.fighter {
            Some(fighter) => fighter,
            None => {
                return None;
            },
        };
        let mut fighter = before;
        if damage > 0 {
            fighter.hp -= damage;
        }
        self.fighter = Some(fighter);
        if before.hp > 0 && fighter.hp <= 0 {
            self.alive = false;
            fighter.on_death.callback(self, game);
            return Some(fighter.xp);
        }
        None
    }

    /// Attacks the target: the damage is this entity's power less the
    /// target's defense, and an attack whose damage is not positive has no
    /// effect.
    pub fn attack(&mut self, target: &mut Object, game: &mut Game)
        requires
            attack_fits(old(self)@, old(target)@, old(game)@),
        ensures
            final(self)@ == attacker_after(old(self)@, old(target)@, old(game)@),
            final(target)@ == after_damage(
                old(target)@,
                attack_damage(old(self)@, old(target)@, old(game)@),
            ),
            final(game)@ == (GameView {
                log: log_after_attack(old(self)@, old(target)@, old(game)@),
                ..old(game)@
            }),
    {
        let damage = self.power(game) - target.defense(game);
        if damage > 0 {
            add_message(
                &mut game.log,
                attack_message(self.name.as_str(), target.name.as_str(), damage),
                Color::White,
            );
            if let Some(xp) = target.take_damage(damage, game) {
                match self.fighter {
                    Some(mut fighter) => {
                        fighter.xp += xp;
                        self.fighter = Some(fighter);
                    },
                    None => {},
                }
            }
        } else {
            add_message(
                &mut game.log,
                no_effect_message(self.name.as_str(), target.name.as_str()),
                Color::White,
            );
        }
    }

    /// Whether the entity can be healed by the amount in machine integers.
    pub open spec fn heal_fits(o: ObjectView, amount: int, inventory: Seq<ObjectView>) -> bool {
        &&& computable(o, inventory, Stat::MaxHp)
        &&& o.fighter matches Some(f) ==> i32::MIN <= f.hp + amount <= i32::MAX
    }

    /// The entity after healing: its hit points grow by the amount, but not
    /// beyond its effective maximum.
    pub open spec fn healed(o: ObjectView, amount: int, inventory: Seq<ObjectView>) -> ObjectView {
        match o.fighter {
            Some(f) => {
                let limit = effective(o, inventory, Stat::MaxHp);
                let hp = if f.hp + amount > limit {
                    limit
                } else {
                    f.hp + amount
                };
                ObjectView { fighter: Some(Fighter { hp: hp as i32, ..f }), ..o }
            },
            None => o,
        }
    }

    /// Heals the entity by the amount, up to its effective maximum of hit
    /// points.
    pub fn heal(&mut self, amount: i32, game: &Game)
        requires
            Object::heal_fits(old(self)@, amount as int, game@.inventory),
        ensures
            final(self)@ == Object::healed(old(self)@, amount as int, game@.inventory),
    {
        let max_hp = self.max_hp(game);
        match self.fighter {
            Some(mut fighter) => {
                fighter.hp += amount;
                if fighter.hp > max_hp {
                    fighter.hp = max_hp;
                }
                self.fighter = Some(fighter);
            },
            None => {},
        }
    }
}

/// Death happens once. Damage that kills leaves an entity that is not alive
/// and that no further damage kills again: it sets no experience free and
/// writes nothing to the log.
pub proof fn lemma_death_happens_once(
    o: ObjectView,
    first: int,
    second: int,
    log: Seq<(Seq<char>, Color)>,
)
    requires
        damage_fits(o, first),
        dies(o, first),
    ensures
        reward(o, first) == Some(o.fighter.unwrap().xp),
        !after_damage(o, first).alive,
        !dies(after_damage(o, first), second),
        reward(after_damage(o, first), second) is None,
        log_after_damage(log, after_damage(o, first), second) == log,
{
}

/// Damage that does not kill takes hit points and nothing else: the entity
/// keeps everything but the hit points lost, no experience is set free, and
/// the log stays as it is.
pub proof fn lemma_damage_without_death(o: ObjectView, damage: int, log: Seq<(Seq<char>, Color)>)
    requires
        damage_fits(o, damage),
        !dies(o, damage),
        o.fighter is Some,
    ensures
        after_damage(o, damage) == (ObjectView {
            fighter: Some(
                Fighter { hp: hp_after(o.fighter.unwrap(), damage) as i32, ..o.fighter.unwrap() },
            ),
            ..o
        }),
        reward(o, damage) is None,
        log_after_damage(log, o, damage) == log,
{
}

} // verus!
