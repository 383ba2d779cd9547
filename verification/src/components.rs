//! The data that the entities of the game carry. An entity is referred to by
//! its 64-bit identifier.

use vstd::prelude::*;
use crate::tile::ItemContainer;
use crate::tiles::TestTile;
use crate::user_input::KeyInput;
use crate::vector::IntVector2;

verus! {

#[derive(Default, Debug, Clone, Copy, PartialEq, Eq, Structural)]
pub struct Position {
    pub x: i32,
    pub y: i32,
}

#[derive(Default, Debug, Clone, Copy, PartialEq, Eq, Structural)]
pub struct Player {}

#[derive(Default, Debug, Clone, Copy, PartialEq, Eq, Structural)]
pub struct Enemy {}

#[derive(Default, Debug, Clone, Copy, PartialEq, Eq, Structural)]
pub struct Gold {
    pub current: i32,
    pub total: i32,
}

#[derive(Default, Debug, Clone, Copy, PartialEq, Eq, Structural)]
pub struct Xp {
    pub current: i32,
    pub max: i32,
}

#[derive(Default, Debug, Clone)]
pub struct CharacterInfo {
    pub strength: i32,
    pub stamina: i32,
    pub dexterity: i32,
    pub intelligence: i32,
    pub name: String,
    pub xp: Xp,
    pub gold: Gold,
}

#[derive(Debug, Clone, Copy, PartialEq, Eq, Structural)]
pub enum ItemKind {
    Nothing,
    Gold,
    Supplies,
    Potion,
    Wand,
    Weapon,
    Armor,
    Light,
    Ammo,
    Shield,
    Scrolls,
    SpellBook,
}

impl Default for ItemKind {
    fn default() -> (k: Self)
        ensures
            k == ItemKind::Nothing,
    {
        ItemKind::Nothing
    }
}

#[derive(Default, Debug, Clone)]
pub struct Item {
    pub name: String,
    pub kind: ItemKind,
}

#[derive(Default, Debug, Clone, Copy, PartialEq, Eq, Structural)]
pub struct ItemUse {
    pub key: KeyInput,
}

#[derive(Default, Debug, Clone, Copy, PartialEq, Eq, Structural)]
pub struct ModHealth {
    pub amount: i32,
}

#[derive(Default, Debug, Clone)]
pub struct Inventory {
    pub items: Vec<u64>,
    pub capacity: usize,
}

#[derive(Default, Debug, Clone, Copy)]
pub struct SpriteDrawInfo {
    pub sprite_info: &'static str,
}

#[derive(Default, Debug, Clone, Copy, PartialEq, Eq, Structural)]
pub struct Health {
    pub current: i32,
    pub max: i32,
}

/// The wish of an entity to move to a cell.
#[derive(Debug, Clone, Copy, PartialEq, Eq, Structural)]
pub struct MoveIntent {
    pub target: IntVector2,
}

/// The wish of an entity to pick up an item from a tile.
#[derive(Debug)]
pub struct PickIntent {
    pub item: Option<u64>,
    pub tile: Option<TestTile>,
}

impl PickIntent {
    /// The wish to pick up nothing.
    pub fn new() -> (p: Self)
        ensures
            p.item.is_none(),
            p.tile.is_none(),
    {
        Self { item: None, tile: None }
    }

    /// The wish to pick up the first item lying on `tile`.
    pub fn from(tile: Option<TestTile>) -> (p: Self)
        ensures
            p.tile == tile,
            p.item == first_item(tile),
    {
        let item = match &tile {
            None => None,
            Some(t) => if t.items.len() > 0 {
                Some(t.items[0])
            } else {
                None
            },
        };
        Self { item, tile }
    }
}

/// The first item lying on a tile, if there is a tile and an item on it.
pub open spec fn first_item(tile: Option<TestTile>) -> Option<u64> {
    match tile {
        Some(t) => if t.items@.len() > 0 {
            Some(t.items@[0])
        } else {
            None
        },
        None => None,
    }
}

/// What drinking does: the amounts added to health, stamina and mana.
#[derive(Default, Debug, Clone, Copy, PartialEq, Eq, Structural)]
pub struct DrinkEffect {
    pub health: i32,
    pub stamina: i32,
    pub mana: i32,
}

/// The wish of an entity to drink an item lying on its tile.
#[derive(Debug, Clone, Copy, PartialEq, Eq, Structural)]
pub struct DrinkIntent {
    pub item: Option<u64>,
    pub effect: Option<DrinkEffect>,
}

impl DrinkIntent {
    /// The wish to drink the first item lying on `tile`, with `effect`.
    pub fn from(tile: &TestTile, effect: DrinkEffect) -> (d: Self)
        ensures
            d.effect == Some(effect),
            d.item == first_item(Some(*tile)),
    {
        let item = if tile.items.len() > 0 {
            Some(tile.items[0])
        } else {
            None
        };
        Self { item, effect: Some(effect) }
    }
}

/// What an item can be used for.
#[derive(Debug, Clone, Copy, PartialEq, Eq, Structural)]
pub enum UseKind {
    Nothing,
    Pick,
    Drink(DrinkEffect),
}

impl Default for UseKind {
    fn default() -> (k: Self)
        ensures
            k == UseKind::Nothing,
    {
        UseKind::Nothing
    }
}

/// A use of an item, offered under a key.
#[derive(Debug, Clone, Copy, PartialEq, Eq, Structural)]
pub struct Interaction {
    pub key: KeyInput,
    pub kind: UseKind,
}

impl Interaction {
    pub fn new(key: KeyInput, kind: UseKind) -> (i: Self)
        ensures
            i.key == key,
            i.kind == kind,
    {
        Self { key, kind }
    }
}

impl Default for Interaction {
    fn default() -> (i: Self)
        ensures
            i.key == KeyInput::Nothing,
            i.kind == UseKind::Nothing,
    {
        Self { key: KeyInput::Nothing, kind: UseKind::Nothing }
    }
}

/// The uses that an item offers.
#[derive(Debug, Clone, Default)]
pub struct Interactions {
    pub interactions: Vec<Interaction>,
}

impl Interactions {
    pub fn new() -> (i: Self)
        ensures
            i.interactions@ == Seq::<Interaction>::empty(),
    {
        Self { interactions: Vec::new() }
    }

    pub fn add(&mut self, key: KeyInput, kind: UseKind)
        ensures
            final(self).interactions@ == old(self).interactions@.push(Interaction { key, kind }),
    {
        self.interactions.push(Interaction { key, kind });
    }
}

/// The move of an entity from one cell to another.
#[derive(Debug, Clone, Copy, PartialEq, Eq, Structural)]
pub struct MoveAction {
    pub entity: u64,
    pub source: IntVector2,
    pub target: IntVector2,
}

impl MoveAction {
    /// Puts the entity at the target of the move.
    pub fn apply(&self, position: &mut Position)
        ensures
            final(position).x == self.target.x,
            final(position).y == self.target.y,
    {
        position.x = self.target.x;
        position.y = self.target.y;
    }
}

#[derive(Debug, Clone, Copy, PartialEq, Eq, Structural)]
pub struct UseItemAction {
    pub entity: u64,
    pub item: u64,
}

#[derive(Debug, Clone, Copy, PartialEq, Eq, Structural)]
pub struct TestCommand {}

} // verus!
