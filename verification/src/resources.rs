//! The state that the game keeps between frames.

use vstd::prelude::*;
use crate::components::Interaction;
use crate::tiles::TestTile;

verus! {

/// What the game is showing.
#[derive(Clone, Copy, Debug, PartialEq, Eq, Structural)]
pub enum GameState {
    Nothing,
    PlayGame,
    ShowInventory,
}

impl Default for GameState {
    fn default() -> (s: Self)
        ensures
            s == GameState::Nothing,
    {
        GameState::Nothing
    }
}

#[derive(Clone, Copy, Debug, PartialEq, Eq, Structural)]
pub struct GameContext {
    pub state: GameState,
}

impl Default for GameContext {
    fn default() -> (c: Self)
        ensures
            c.state == GameState::Nothing,
    {
        GameContext { state: GameState::Nothing }
    }
}

/// What the player can do on the cell they stand on, and the tile of that cell.
#[derive(Debug)]
pub struct CurrentCellInfo {
    pub interactions: Vec<Interaction>,
    pub current_tile: Option<TestTile>,
}

impl CurrentCellInfo {
    /// The interactions on offer, in the order they were added.
    pub open spec fn offered(&self) -> Seq<Interaction> {
        self.interactions@
    }

    pub fn new() -> (c: Self)
        ensures
            c.offered() == Seq::<Interaction>::empty(),
            c.current_tile.is_none(),
    {
        CurrentCellInfo { interactions: Vec::new(), current_tile: None }
    }

    pub fn len(&self) -> (n: usize)
        ensures
            n == self.offered().len(),
    {
        self.interactions.len()
    }

    pub fn add_all(&mut self, interactions: Vec<Interaction>)
        ensures
            final(self).offered() == old(self).offered() + interactions@,
            final(self).current_tile == old(self).current_tile,
    {
        let mut rest = interactions;
        self.interactions.append(&mut rest);
    }

    pub fn add_interaction(&mut self, interaction: Interaction)
        ensures
            final(self).offered() == old(self).offered().push(interaction),
            final(self).current_tile == old(self).current_tile,
    {
        self.interactions.push(interaction);
    }

    pub fn clear(&mut self)
        ensures
            final(self).offered() == Seq::<Interaction>::empty(),
            final(self).current_tile == old(self).current_tile,
    {
        self.interactions.clear();
    }

    /// A copy of the interactions on offer.
    pub fn interactions(&self) -> (r: Vec<Interaction>)
        ensures
            r@ == self.offered(),
    {
        let mut copy: Vec<Interaction> = Vec::new();
        let mut i: usize = 0;
        while i < self.interactions.len()
            invariant
                i <= self.interactions.len(),
                copy@ == self.interactions@.take(i as int),
            decreases self.interactions.len() - i,
        {
            copy.push(self.interactions[i]);
            assert(self.interactions@.take(i + 1) =~= self.interactions@.take(i as int).push(
                self.interactions@[i as int],
            ));
            i = i + 1;
        }
        assert(self.interactions@.take(i as int) =~= self.interactions@);
        copy
    }

    /// A copy of the tile of the current cell.
    pub fn current_tile(&self) -> (r: Option<TestTile>)
        ensures
            match (r, self.current_tile) {
                (Some(copy), Some(tile)) => copy@ == tile@,
                (None, None) => true,
                _ => false,
            },
    {
        match &self.current_tile {
            Some(tile) => Some(tile.clone()),
            None => None,
        }
    }

    pub fn set_current_tile(&mut self, tile: TestTile)
        ensures
            final(self).current_tile == Some(tile),
            final(self).offered() == old(self).offered(),
    {
        self.current_tile = Some(tile);
    }
}

impl Default for CurrentCellInfo {
    fn default() -> (c: Self)
        ensures
            c.offered() == Seq::<Interaction>::empty(),
            c.current_tile.is_none(),
    {
        Self::new()
    }
}

} // verus!
