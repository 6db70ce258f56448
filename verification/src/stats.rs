//! Derived statistics: a fighter's own values plus what the equipped items
//! of the inventory add.

use vstd::prelude::*;
use crate::entity::{object_views, Equipment, Fighter, Game, Object, ObjectView};

verus! {

/// The statistics that equipment adds to.
#[derive(Clone, Copy, Debug, PartialEq, Eq, Structural)]
pub enum Stat {
    Power,
    Defense,
    MaxHp,
}

/// The equipment of the equipped items, in the order of the inventory.
pub open spec fn equipped(inventory: Seq<ObjectView>) -> Seq<Equipment>
    decreases inventory.len(),
{
    if inventory.len() == 0 {
        Seq::empty()
    } else {
        let rest = equipped(inventory.drop_last());
        match inventory.last().equipment {
            Some(e) => if e.equipped {
                rest.push(e)
            } else {
                rest
            },
            None => rest,
        }
    }
}

/// The equipment an entity wears: the player wears what is equipped in the
/// inventory, any other entity nothing.
pub open spec fn worn(o: ObjectView, inventory: Seq<ObjectView>) -> Seq<Equipment> {
    if o.is_player() {
        equipped(inventory)
    } else {
        Seq::empty()
    }
}

/// What a piece of equipment adds to a statistic.
pub open spec fn bonus(e: Equipment, stat: Stat) -> int {
    match stat {
        Stat::Power => e.power_bonus as int,
        Stat::Defense => e.defense_bonus as int,
        Stat::MaxHp => e.max_hp_bonus as int,
    }
}

/// What the pieces of equipment add to a statistic, together.
pub open spec fn total_bonus(pieces: Seq<Equipment>, stat: Stat) -> int
    decreases pieces.len(),
{
    if pieces.len() == 0 {
        0
    } else {
        total_bonus(pieces.drop_last(), stat) + bonus(pieces.last(), stat)
    }
}

/// A fighter's own value of a statistic; zero for an entity that cannot
/// fight.
pub open spec fn base(fighter: Option<Fighter>, stat: Stat) -> int {
    match fighter {
        Some(f) => match stat {
            Stat::Power => f.base_power as int,
            Stat::Defense => f.base_defense as int,
            Stat::MaxHp => f.base_max_hp as int,
        },
        None => 0,
    }
}

/// The effective value of a statistic of an entity.
pub open spec fn effective(o: ObjectView, inventory: Seq<ObjectView>, stat: Stat) -> int {
    base(o.fighter, stat) + total_bonus(worn(o, inventory), stat)
}

/// Whether the effective value can be computed in machine integers: the
/// bonuses are summed up one by one, then added to the fighter's own value.
pub open spec fn computable(o: ObjectView, inventory: Seq<ObjectView>, stat: Stat) -> bool {
    &&& forall|k: int|
        0 <= k <= worn(o, inventory).len() ==> i32::MIN <= #[trigger] total_bonus(
            worn(o, inventory).subrange(0, k),
            stat,
        ) <= i32::MAX
    &&& i32::MIN <= effective(o, inventory, stat) <= i32::MAX
}

impl Object {
    /// The equipment the entity wears.
    pub fn get_all_equipped(&self, game: &Game) -> (pieces: Vec<Equipment>)
        ensures
            pieces@ == worn(self@, game@.inventory),
    {
        let mut pieces: Vec<Equipment> = Vec::new();
        if self.is_player() {
            let ghost inventory = object_views(game.inventory@);
            let mut i: usize = 0;
            while i < game.inventory.len()
                invariant
                    i <= game.inventory.len(),
                    inventory == object_views(game.inventory@),
                    pieces@ == equipped(inventory.subrange(0, i as int)),
                decreases game.inventory.len() - i,
            {
                assert(inventory.subrange(0, i + 1).drop_last() =~= inventory.subrange(
                    0,
                    i as int,
                ));
                match game.inventory[i].equipment {
                    Some(e) => {
                        if e.equipped {
                            pieces.push(e);
                        }
                    },
                    None => {},
                }
                i += 1;
            }
            assert(inventory.subrange(0, i as int) =~= inventory);
        }
        pieces
    }

    fn stat(&self, game: &Game, stat: Stat) -> (value: i32)
        requires
            computable(self@, game@.inventory, stat),
        ensures
            value == effective(self@, game@.inventory, stat),
    {
        let own = match self.fighter {
            Some(f) => match stat {
                Stat::Power => f.base_power,
                Stat::Defense => f.base_defense,
                Stat::MaxHp => f.base_max_hp,
            },
            None => 0,
        };
        let pieces = self.get_all_equipped(game);
        let mut sum: i32 = 0;
        let mut i: usize = 0;
        while i < pieces.len()
            invariant
                i <= pieces.len(),
                pieces@ == worn(self@, game@.inventory),
                computable(self@, game@.inventory, stat),
                sum == total_bonus(pieces@.subrange(0, i as int), stat),
            decreases pieces.len() - i,
        {
            assert(pieces@.subrange(0, i + 1).drop_last() =~= pieces@.subrange(0, i as int));
            assert(i32::MIN <= total_bonus(pieces@.subrange(0, i + 1), stat) <= i32::MAX);
            let piece = pieces[i];
            let added = match stat {
                Stat::Power => piece.power_bonus,
                Stat::Defense => piece.defense_bonus,
                Stat::MaxHp => piece.max_hp_bonus,
            };
            sum = sum + added;
            i += 1;
        }
        assert(pieces@.subrange(0, i as int) =~= pieces@);
        own + sum
    }

    /// The effective power of the entity.
    pub fn power(&self, game: &Game) -> (value: i32)
        requires
            computable(self@, game@.inventory, Stat::Power),
        ensures
            value == effective(self@, game@.inventory, Stat::Power),
    {
        self.stat(game, Stat::Power)
    }

    /// The effective defense of the entity.
    pub fn defense(&self, game: &Game) -> (value: i32)
        requires
            computable(self@, game@.inventory, Stat::Defense),
        ensures
            value == effective(self@, game@.inventory, Stat::Defense),
    {
        self.stat(game, Stat::Defense)
    }

    /// The effective maximum of hit points of the entity.
    pub fn max_hp(&self, game: &Game) -> (value: i32)
        requires
            computable(self@, game@.inventory, Stat::MaxHp),
        ensures
            value == effective(self@, game@.inventory, Stat::MaxHp),
    {
        self.stat(game, Stat::MaxHp)
    }
}

} // verus!
