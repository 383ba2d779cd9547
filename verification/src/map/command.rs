//! Staged changes to a map, applied together.

use vstd::prelude::*;
use crate::map::{updated, GameMap};
use crate::tile::Tile;
use crate::vector::IntVector2;

verus! {

/// One change to the tile at a position. A command for a position without a
/// tile changes nothing.
#[derive(Debug, Clone, Copy, PartialEq, Eq, Structural)]
pub enum MapCommand {
    SetVisited(IntVector2, bool),
    SetVisible(IntVector2, bool),
    AddItem(IntVector2, u64),
    RemoveItem(IntVector2, u64),
}

/// The cells of a map after one command.
pub open spec fn apply_command<T: Tile>(m: Map<IntVector2, T::V>, command: MapCommand) -> Map<
    IntVector2,
    T::V,
> {
    match command {
        MapCommand::SetVisited(position, visited) => updated(
            m,
            position,
            |v: T::V| T::view_set_visited(v, visited),
        ),
        MapCommand::SetVisible(position, visible) => updated(
            m,
            position,
            |v: T::V| T::view_set_visible(v, visible),
        ),
        MapCommand::AddItem(position, item) => updated(
            m,
            position,
            |v: T::V| T::view_add_item(v, item),
        ),
        MapCommand::RemoveItem(position, item) => updated(
            m,
            position,
            |v: T::V| T::view_remove_item(v, item),
        ),
    }
}

/// The cells of a map after a sequence of commands, applied first to last.
pub open spec fn apply_commands<T: Tile>(m: Map<IntVector2, T::V>, commands: Seq<MapCommand>) -> Map<
    IntVector2,
    T::V,
>
    decreases commands.len(),
{
    if commands.len() == 0 {
        m
    } else {
        apply_command::<T>(apply_commands::<T>(m, commands.drop_last()), commands.last())
    }
}

/// Commands never add or remove a tile.
pub proof fn lemma_commands_keep_domain<T: Tile>(m: Map<IntVector2, T::V>, commands: Seq<MapCommand>)
    ensures
        apply_commands::<T>(m, commands).dom() == m.dom(),
    decreases commands.len(),
{
    if commands.len() > 0 {
        lemma_commands_keep_domain::<T>(m, commands.drop_last());
        let before = apply_commands::<T>(m, commands.drop_last());
        assert(apply_command::<T>(before, commands.last()).dom() =~= before.dom());
    }
}

/// Applying two batches one after the other is applying their concatenation.
pub proof fn lemma_commands_concat<T: Tile>(
    m: Map<IntVector2, T::V>,
    first: Seq<MapCommand>,
    second: Seq<MapCommand>,
)
    ensures
        apply_commands::<T>(m, first + second) == apply_commands::<T>(
            apply_commands::<T>(m, first),
            second,
        ),
    decreases second.len(),
{
    if second.len() == 0 {
        assert(first + second =~= first);
    } else {
        lemma_commands_concat::<T>(m, first, second.drop_last());
        assert((first + second).drop_last() =~= first + second.drop_last());
        assert((first + second).last() == second.last());
    }
}

/// A batch of commands waiting to be applied.
#[derive(Debug, Clone)]
pub struct MapCommands {
    pub commands: Vec<MapCommand>,
}

impl View for MapCommands {
    type V = Seq<MapCommand>;

    open spec fn view(&self) -> Seq<MapCommand> {
        self.commands@
    }
}

impl MapCommands {
    /// An empty batch.
    pub fn new() -> (c: Self)
        ensures
            c@ == Seq::<MapCommand>::empty(),
    {
        MapCommands { commands: Vec::new() }
    }

    /// Appends one command.
    pub fn add(&mut self, command: MapCommand)
        ensures
            final(self)@ == old(self)@.push(command),
    {
        self.commands.push(command);
    }

    /// Appends several commands, keeping their order.
    pub fn add_all(&mut self, commands: Vec<MapCommand>)
        ensures
            final(self)@ == old(self)@ + commands@,
    {
        let mut rest = commands;
        self.commands.append(&mut rest);
    }

    pub fn is_empty(&self) -> (b: bool)
        ensures
            b == (self@.len() == 0),
    {
        self.commands.is_empty()
    }

    /// Drops the staged commands without applying them.
    pub fn clear(&mut self)
        ensures
            final(self)@ == Seq::<MapCommand>::empty(),
    {
        self.commands.clear();
    }

    /// Applies the staged commands to `map`, first to last, and empties the batch.
    pub fn process_commands<T: Tile>(&mut self, map: &mut GameMap<T>)
        ensures
            final(map)@ == apply_commands::<T>(old(map)@, old(self)@),
            final(map).size == old(map).size,
            final(self)@ == Seq::<MapCommand>::empty(),
    {
        let mut i: usize = 0;
        while i < self.commands.len()
            invariant
                i <= self.commands.len(),
                *self == *old(self),
                map.size == old(map).size,
                map@ == apply_commands::<T>(old(map)@, self@.take(i as int)),
            decreases self.commands.len() - i,
        {
            let command = self.commands[i];
            proof {
                assert(self@.take(i + 1).drop_last() =~= self@.take(i as int));
                assert(self@.take(i + 1).last() == command);
            }
            match command {
                MapCommand::SetVisited(pos, visited) => {
                    map.set_visited(pos, visited);
                },
                MapCommand::SetVisible(pos, visible) => {
                    map.set_visible(pos, visible);
                },
                MapCommand::AddItem(pos, item) => {
                    map.add_item(pos, item);
                },
                MapCommand::RemoveItem(pos, item) => {
                    map.remove_item(pos, item);
                },
            }
            i = i + 1;
        }
        assert(self@.take(i as int) =~= self@);
        self.commands.clear();
    }
}

impl Default for MapCommands {
    fn default() -> (c: Self)
        ensures
            c@ == Seq::<MapCommand>::empty(),
    {
        Self::new()
    }
}

} // verus!
