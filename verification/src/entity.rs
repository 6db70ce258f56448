//! The data model: entities, their capabilities and the game aggregate.

use vstd::prelude::*;
use vstd::string::StringExecFns;
use crate::color::Color;
use crate::log::{log_added, log_view, Messages};
use crate::tile::{Tile, TileMap};

verus! {

/// Index of the player in the entity store.
pub const PLAYER: usize = 0;

/// What happens to an entity when its hit points run out.
#[derive(Clone, Copy, Debug, PartialEq, Eq, Structural)]
pub enum DeathCallback {
    Player,
    Monster,
}

/// The combat capability of an entity.
#[derive(Clone, Copy, Debug, PartialEq, Eq, Structural)]
pub struct Fighter {
    pub hp: i32,
    pub base_max_hp: i32,
    pub base_defense: i32,
    pub base_power: i32,
    pub on_death: DeathCallback,
    pub xp: i32,
}

/// The behaviour of an entity that acts on its own.
#[derive(Debug, PartialEq)]
pub enum Ai {
    Basic,
    Confused { previous_ai: Box<Ai>, num_turns: i32 },
}

impl Clone for Ai {
    fn clone(&self) -> (r: Ai)
        ensures
            r == *self,
        decreases *self,
    {
        match self {
            Ai::Basic => Ai::Basic,
            Ai::Confused { previous_ai, num_turns } => Ai::Confused {
                previous_ai: Box::new((**previous_ai).clone()),
                num_turns: *num_turns,
            },
        }
    }
}

/// The kinds of item.
#[derive(Clone, Copy, Debug, PartialEq, Eq, Structural)]
pub enum Item {
    Heal,
    Lightning,
    Confuse,
    Fireball,
    Sword,
    Shield,
}

/// Where a piece of equipment is worn.
#[derive(Clone, Copy, Debug, PartialEq, Eq, Structural)]
pub enum Slot {
    LeftHand,
    RightHand,
    Head,
}

impl Slot {
    /// The name of the slot as it appears in log lines.
    pub open spec fn label(self) -> Seq<char> {
        match self {
            Slot::LeftHand => "left hand"@,
            Slot::RightHand => "right hand"@,
            Slot::Head => "head"@,
        }
    }

    /// The name of the slot as it appears in log lines.
    pub fn name(&self) -> (s: &'static str)
        ensures
            s@ == self.label(),
    {
        match self {
            Slot::LeftHand => "left hand",
            Slot::RightHand => "right hand",
            Slot::Head => "head",
        }
    }
}

/// The wearable capability of an entity.
#[derive(Clone, Copy, Debug, PartialEq, Eq, Structural)]
pub struct Equipment {
    pub slot: Slot,
    pub equipped: bool,
    pub max_hp_bonus: i32,
    pub power_bonus: i32,
    pub defense_bonus: i32,
}

/// Anything that stands in the dungeon: the player, a monster, an item, stairs.
#[derive(Debug)]
pub struct Object {
    pub x: i32,
    pub y: i32,
    pub char: char,
    pub color: Color,
    pub name: String,
    pub blocks: bool,
    pub alive: bool,
    pub fighter: Option<Fighter>,
    pub ai: Option<Ai>,
    pub item: Option<Item>,
    pub always_visible: bool,
    pub level: i32,
    pub equipment: Option<Equipment>,
}

/// An entity as a mathematical value: its name is a sequence of characters.
pub struct ObjectView {
    pub x: i32,
    pub y: i32,
    pub char: char,
    pub color: Color,
    pub name: Seq<char>,
    pub blocks: bool,
    pub alive: bool,
    pub fighter: Option<Fighter>,
    pub ai: Option<Ai>,
    pub item: Option<Item>,
    pub always_visible: bool,
    pub level: i32,
    pub equipment: Option<Equipment>,
}

impl View for Object {
    type V = ObjectView;

    open spec fn view(&self) -> ObjectView {
        ObjectView {
            x: self.x,
            y: self.y,
            char: self.char,
            color: self.color,
            name: self.name@,
            blocks: self.blocks,
            alive: self.alive,
            fighter: self.fighter,
            ai: self.ai,
            item: self.item,
            always_visible: self.always_visible,
            level: self.level,
            equipment: self.equipment,
        }
    }
}

/// The views of a sequence of entities.
pub open spec fn object_views(s: Seq<Object>) -> Seq<ObjectView> {
    s.map_values(|o: Object| o@)
}

impl ObjectView {
    /// A bare entity: no capability, level one, not alive.
    pub open spec fn bare(x: i32, y: i32, char: char, name: Seq<char>, color: Color, blocks: bool)
        -> ObjectView {
        ObjectView {
            x,
            y,
            char,
            color,
            name,
            blocks,
            alive: false,
            fighter: None,
            ai: None,
            item: None,
            always_visible: false,
            level: 1,
            equipment: None,
        }
    }

    /// Whether the entity stands on the cell `(x, y)`.
    pub open spec fn is_at(self, x: int, y: int) -> bool {
        self.x == x && self.y == y
    }

    /// Whether the entity is the player, who is known by name.
    pub open spec fn is_player(self) -> bool {
        self.name == "player"@
    }
}

impl Clone for Object {
    fn clone(&self) -> (o: Object)
        ensures
            o@ == self@,
    {
        Object {
            x: self.x,
            y: self.y,
            char: self.char,
            color: self.color,
            name: self.name.clone(),
            blocks: self.blocks,
            alive: self.alive,
            fighter: self.fighter,
            ai: match &self.ai {
                Some(ai) => Some(ai.clone()),
                None => None,
            },
            item: self.item,
            always_visible: self.always_visible,
            level: self.level,
            equipment: self.equipment,
        }
    }
}

impl Object {
    /// A bare entity: no capability, level one, not alive.
    pub fn new(x: i32, y: i32, char: char, name: &str, color: Color, blocks: bool) -> (o: Object)
        ensures
            o@ == ObjectView::bare(x, y, char, name@, color, blocks),
    {
        Object {
            x,
            y,
            char,
            color,
            name: String::from_str(name),
            blocks,
            alive: false,
            fighter: None,
            ai: None,
            item: None,
            always_visible: false,
            level: 1,
            equipment: None,
        }
    }

    /// The cell the entity stands on.
    pub fn pos(&self) -> (p: (i32, i32))
        ensures
            p == (self.x, self.y),
    {
        (self.x, self.y)
    }

    /// Moves the entity to the cell `(x, y)`.
    pub fn set_pos(&mut self, x: i32, y: i32)
        ensures
            final(self)@ == (ObjectView { x, y, ..old(self)@ }),
    {
        self.x = x;
        self.y = y;
    }

    /// Whether the entity is the player, who is known by name.
    pub fn is_player(&self) -> (b: bool)
        ensures
            b == self@.is_player(),
    {
        let player = String::from_str("player");
        self.name == player
    }
}

/// The state of a game besides the entity store.
#[derive(Debug)]
pub struct Game {
    pub map: TileMap,
    pub log: Messages,
    pub inventory: Vec<Object>,
    pub dungeon_level: u32,
}

/// A game as a mathematical value.
pub struct GameView {
    pub map: Seq<Seq<Tile>>,
    pub log: Seq<(Seq<char>, Color)>,
    pub inventory: Seq<ObjectView>,
    pub dungeon_level: u32,
}

/// The cells of a grid, by column and row.
pub open spec fn grid_view(map: Seq<Vec<Tile>>) -> Seq<Seq<Tile>> {
    map.map_values(|column: Vec<Tile>| column@)
}

impl View for Game {
    type V = GameView;

    open spec fn view(&self) -> GameView {
        GameView {
            map: grid_view(self.map@),
            log: log_view(self.log@),
            inventory: object_views(self.inventory@),
            dungeon_level: self.dungeon_level,
        }
    }
}

/// The game with one more line in its log.
pub open spec fn logged(game: GameView, text: Seq<char>, color: Color) -> GameView {
    GameView { log: log_added(game.log, text, color), ..game }
}

} // verus!
