//! The game map: a sparse lattice of tiles with flag and item updates.

use vstd::prelude::*;
use crate::extent::{IntExtent2, IntExtent2Iterator};
use crate::grid::{LatticeGrid2D, Plane};
use crate::line::line_cells;
use crate::tile::Tile;
use crate::vector::{Dimension2, IntVector2};

pub mod builder;
pub mod catalog;
pub mod command;
pub mod noise_builder;
pub mod room;
pub mod room_builder;

pub use builder::{
    stamp_cells, FillWithFloorBuilderAlgo, MapBuilder, MapBuilderAlgorithm, RandomWalkBuilder,
    WalkDirection,
};
pub use catalog::TileCatalog;
pub use noise_builder::BuilderAlgoWithNoise;
pub use command::{MapCommand, MapCommands};
pub use room::Room;
pub use room_builder::{place_rooms, stamp_rooms, RoomBuilder};

verus! {

/// A map of tiles, addressed by lattice coordinates. Cells without a tile
/// are absent, not filled with a default.
#[derive(Debug)]
pub struct GameMap<T: Tile> {
    pub grid: LatticeGrid2D<T>,
    pub size: Dimension2,
}

impl<T: Tile> View for GameMap<T> {
    type V = Map<IntVector2, T::V>;

    open spec fn view(&self) -> Map<IntVector2, T::V> {
        self.grid.cells().map_values(|t: T| t@)
    }
}

/// The cells of `m` after the tile at `position`, if there is one, has been
/// replaced by `change` of it.
pub open spec fn updated<V>(m: Map<IntVector2, V>, position: IntVector2, change: spec_fn(V) -> V) -> Map<
    IntVector2,
    V,
> {
    if m.contains_key(position) {
        m.insert(position, change(m[position]))
    } else {
        m
    }
}

impl<T: Tile> GameMap<T> {
    /// A map without tiles.
    pub fn new() -> (m: Self)
        ensures
            m@ == Map::<IntVector2, T::V>::empty(),
            m.size.spec_width() == 0,
            m.size.spec_height() == 0,
    {
        let m = GameMap { grid: LatticeGrid2D::new(), size: Dimension2::new(0, 0) };
        assert(m@ =~= Map::<IntVector2, T::V>::empty());
        m
    }

    /// A copy of the tile at `(x, y)`, or `None` where there is none.
    pub fn get(&self, x: i32, y: i32) -> (r: Option<T>)
        ensures
            match r {
                Some(tile) => self@.contains_key(IntVector2 { x, y }) && tile@
                    == self@[IntVector2 { x, y }],
                None => !self@.contains_key(IntVector2 { x, y }),
            },
    {
        self.get_position(IntVector2::new(x, y))
    }

    /// A copy of the tile at `position`, or `None` where there is none.
    pub fn get_position(&self, position: IntVector2) -> (r: Option<T>)
        ensures
            match r {
                Some(tile) => self@.contains_key(position) && tile@ == self@[position],
                None => !self@.contains_key(position),
            },
    {
        match self.grid.at(position) {
            Some(tile) => {
                let copy = tile.clone();
                proof {
                    T::lemma_clone_keeps_view(*tile, copy);
                }
                Some(copy)
            },
            None => None,
        }
    }

    /// The tile at `position` by reference, or `None` where there is none.
    pub fn tile_at(&self, position: IntVector2) -> (r: Option<&T>)
        ensures
            match r {
                Some(tile) => self@.contains_key(position) && tile@ == self@[position],
                None => !self@.contains_key(position),
            },
    {
        self.grid.at(position)
    }

    /// Puts `tile` at `(x, y)`, replacing the tile that was there.
    pub fn set(&mut self, x: i32, y: i32, tile: T)
        ensures
            final(self)@ == old(self)@.insert(IntVector2 { x, y }, tile@),
            final(self).size == old(self).size,
    {
        self.grid.put(IntVector2::new(x, y), tile);
        assert(self@ =~= old(self)@.insert(IntVector2 { x, y }, tile@));
    }

    /// Number of tiles.
    pub fn len(&self) -> (n: usize)
        ensures
            self@.dom().finite(),
            n == self@.dom().len(),
    {
        assert(self@.dom() =~= self.grid.cells().dom());
        self.grid.len()
    }

    /// Whether the map has no tile.
    pub fn is_empty(&self) -> (b: bool)
        ensures
            b == (self@ == Map::<IntVector2, T::V>::empty()),
    {
        proof {
            assert(self@.dom() =~= self.grid.cells().dom());
            if self.grid.cells() == Map::<IntVector2, T>::empty() {
                assert(self@ =~= Map::<IntVector2, T::V>::empty());
            }
            if self@ == Map::<IntVector2, T::V>::empty() {
                assert(self.grid.cells() =~= Map::<IntVector2, T>::empty());
            }
        }
        self.grid.is_empty()
    }

    /// Lays `item` on the tile at `position`; does nothing where there is no tile.
    pub fn add_item(&mut self, position: IntVector2, item: u64)
        ensures
            final(self)@ == updated(old(self)@, position, |v: T::V| T::view_add_item(v, item)),
            final(self).size == old(self).size,
    {
        if let Some(tile) = self.grid.at_mut(position) {
            tile.add_item(item);
        }
        assert(self@ =~= updated(old(self)@, position, |v: T::V| T::view_add_item(v, item)));
    }

    /// The items on the tile at `position`, as the tile reports them; `None`
    /// where there is no tile.
    pub fn items(&self, position: IntVector2) -> (r: Option<Vec<u64>>)
        ensures
            !self@.contains_key(position) ==> r.is_none(),
            self@.contains_key(position) ==> match r {
                Some(items) => T::view_items(self@[position]) == Some(items@),
                None => T::view_items(self@[position]).is_none(),
            },
    {
        if let Some(tile) = self.grid.at(position) {
            tile.items()
        } else {
            None
        }
    }

    /// Takes `item` off the tile at `position`; does nothing where there is no tile.
    pub fn remove_item(&mut self, position: IntVector2, item: u64)
        ensures
            final(self)@ == updated(old(self)@, position, |v: T::V| T::view_remove_item(v, item)),
            final(self).size == old(self).size,
    {
        if let Some(tile) = self.grid.at_mut(position) {
            tile.remove_item(item);
        }
        assert(self@ =~= updated(old(self)@, position, |v: T::V| T::view_remove_item(v, item)));
    }

    /// Marks the tile at `position` as seen before or not; does nothing where
    /// there is no tile.
    pub fn set_visited(&mut self, position: IntVector2, visited: bool)
        ensures
            final(self)@ == updated(
                old(self)@,
                position,
                |v: T::V| T::view_set_visited(v, visited),
            ),
            final(self).size == old(self).size,
    {
        if let Some(tile) = self.grid.at_mut(position) {
            tile.set_visited(visited);
        }
        assert(self@ =~= updated(
            old(self)@,
            position,
            |v: T::V| T::view_set_visited(v, visited),
        ));
    }

    /// Marks the tile at `position` as in sight or not; does nothing where
    /// there is no tile.
    pub fn set_visible(&mut self, position: IntVector2, visible: bool)
        ensures
            final(self)@ == updated(
                old(self)@,
                position,
                |v: T::V| T::view_set_visible(v, visible),
            ),
            final(self).size == old(self).size,
    {
        if let Some(tile) = self.grid.at_mut(position) {
            tile.set_visible(visible);
        }
        assert(self@ =~= updated(
            old(self)@,
            position,
            |v: T::V| T::view_set_visible(v, visible),
        ));
    }

    /// The straight line of cells from `start` to `end`, both included.
    pub fn line(&self, start: IntVector2, end: IntVector2) -> (r: Vec<IntVector2>)
        ensures
            r@ == line_cells(start, end),
    {
        self.grid.line(start, end)
    }
}

impl<T: Tile> Clone for GameMap<T> {
    fn clone(&self) -> (m: Self)
        ensures
            m@ == self@,
            m.size == self.size,
    {
        GameMap { grid: self.grid.clone(), size: self.size }
    }
}

impl<T: Tile> Default for GameMap<T> {
    fn default() -> (m: Self)
        ensures
            m@ == Map::<IntVector2, T::V>::empty(),
    {
        Self::new()
    }
}

/// A cursor over the tiles of a map inside a rectangle, in row-major order.
/// Cells without a tile are passed over.
#[derive(Debug)]
pub struct MapVisibleTilesIter<'a, T: Tile> {
    map: &'a GameMap<T>,
    cursor: IntExtent2Iterator,
}

impl<'a, T: Tile> MapVisibleTilesIter<'a, T> {
    /// The tiles being walked.
    pub closed spec fn tiles(&self) -> Map<IntVector2, T::V> {
        self.map@
    }

    /// The rectangle being walked.
    pub closed spec fn extent(&self) -> IntExtent2 {
        self.cursor.extent()
    }

    /// How many cells of the rectangle the cursor has passed.
    pub closed spec fn position(&self) -> nat {
        self.cursor.position()
    }

    pub closed spec fn wf(&self) -> bool {
        self.cursor.wf()
    }

    /// None of the cells from the `from`-th up to the `to`-th, excluded, holds a tile.
    pub open spec fn empty_between(&self, from: int, to: int) -> bool {
        forall|k: int|
            from <= k < to ==> !self.tiles().contains_key(#[trigger] self.extent().cells()[k])
    }

    pub fn new(map: &'a GameMap<T>, extent: &'a IntExtent2) -> (it: Self)
        requires
            extent.fits(),
        ensures
            it.wf(),
            it.tiles() == map@,
            it.extent() == *extent,
            it.position() == 0,
    {
        MapVisibleTilesIter { map, cursor: IntExtent2Iterator::new(extent) }
    }

    /// The next cell of the rectangle that holds a tile, with a copy of the
    /// tile; `None` once no such cell is left.
    pub fn next(&mut self) -> (r: Option<(IntVector2, T)>)
        requires
            old(self).wf(),
        ensures
            final(self).wf(),
            final(self).tiles() == old(self).tiles(),
            final(self).extent() == old(self).extent(),
            old(self).position() <= final(self).position() <= old(self).extent().cell_count(),
            match r {
                Some((pos, tile)) => {
                    &&& final(self).position() > old(self).position()
                    &&& pos == old(self).extent().cells()[final(self).position() - 1]
                    &&& old(self).tiles().contains_key(pos)
                    &&& tile@ == old(self).tiles()[pos]
                    &&& old(self).empty_between(
                        old(self).position() as int,
                        final(self).position() - 1,
                    )
                },
                None => {
                    &&& final(self).position() == old(self).extent().cell_count()
                    &&& old(self).empty_between(
                        old(self).position() as int,
                        old(self).extent().cell_count() as int,
                    )
                },
            },
    {
        let ghost count = self.cursor.extent().cell_count();
        proof {
            self.cursor.lemma_position_in_range();
        }
        loop
            invariant
                self.cursor.wf(),
                self.map == old(self).map,
                self.cursor.extent() == old(self).cursor.extent(),
                old(self).cursor.position() <= self.cursor.position() <= count,
                count == old(self).cursor.extent().cell_count(),
                old(self).empty_between(
                    old(self).cursor.position() as int,
                    self.cursor.position() as int,
                ),
            decreases count - self.cursor.position(),
        {
            let ghost before = self.cursor.position();
            match self.cursor.next() {
                None => {
                    return None;
                },
                Some(pos) => {
                    if let Some(tile) = self.map.get(pos.x, pos.y) {
                        assert(pos == IntVector2 { x: pos.x, y: pos.y });
                        return Some((pos, tile));
                    }
                    assert(pos == IntVector2 { x: pos.x, y: pos.y });
                    assert(!self.map@.contains_key(pos));
                },
            }
        }
    }
}

impl<T: Tile> GameMap<T> {
    /// A cursor over the tiles inside `extent`.
    pub fn iter_over_visible_tiles<'a>(&'a self, extent: &'a IntExtent2) -> (it: MapVisibleTilesIter<
        'a,
        T,
    >)
        requires
            extent.fits(),
        ensures
            it.wf(),
            it.tiles() == self@,
            it.extent() == *extent,
            it.position() == 0,
    {
        MapVisibleTilesIter::new(self, extent)
    }
}

} // verus!
