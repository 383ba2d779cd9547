//! The tiles of the game: grass, floor and named kinds of wall.

use vstd::prelude::*;
use crate::tile::{FovOccluder, ItemContainer, Tile, VisibilityOcclusion, Visible, Visited, Walkable};

verus! {

/// What a tile is made of. A wall carries the name of its sprite.
#[derive(Debug, Clone, Copy, PartialEq, Eq)]
pub enum TileKind {
    Grass,
    Floor,
    Wall(&'static str),
}

/// A tile with its visibility flags and the items lying on it.
#[derive(Debug, PartialEq, Eq)]
pub struct TestTile {
    pub kind: TileKind,
    pub visited: bool,
    pub visible: bool,
    pub items: Vec<u64>,
}

/// The mathematical content of a `TestTile`.
pub struct TestTileView {
    pub kind: TileKind,
    pub visited: bool,
    pub visible: bool,
    pub items: Seq<u64>,
}

impl View for TestTile {
    type V = TestTileView;

    open spec fn view(&self) -> TestTileView {
        TestTileView {
            kind: self.kind,
            visited: self.visited,
            visible: self.visible,
            items: self.items@,
        }
    }
}

impl TestTile {
    pub fn new(kind: TileKind) -> (t: Self)
        ensures
            t@ == (TestTileView { kind, visited: false, visible: false, items: Seq::empty() }),
    {
        TestTile { kind, visited: false, visible: false, items: Vec::new() }
    }

    /// Name of the sprite that shows this tile.
    pub fn sprite_name(&self) -> (name: &'static str)
        ensures
            self.kind is Grass ==> name@ == "grass"@,
            self.kind is Floor ==> name@ == "floor"@,
            self.kind matches TileKind::Wall(wall_name) ==> name == wall_name,
    {
        match self.kind {
            TileKind::Grass => "grass",
            TileKind::Floor => "floor",
            TileKind::Wall(wall_name) => wall_name,
        }
    }
}

impl Default for TestTile {
    fn default() -> (t: Self)
        ensures
            t@ == (TestTileView {
                kind: TileKind::Grass,
                visited: false,
                visible: false,
                items: Seq::empty(),
            }),
    {
        TestTile { kind: TileKind::Grass, visited: false, visible: false, items: Vec::new() }
    }
}

impl Clone for TestTile {
    fn clone(&self) -> (t: Self)
        ensures
            t@ == self@,
    {
        let items = self.items.clone();
        assert(items@ =~= self.items@);
        TestTile { kind: self.kind, visited: self.visited, visible: self.visible, items }
    }
}

impl Visible for TestTile {
    open spec fn view_is_visible(v: TestTileView) -> bool {
        v.visible
    }

    open spec fn view_set_visible(v: TestTileView, visible: bool) -> TestTileView {
        TestTileView { visible, ..v }
    }

    fn is_visible(&self) -> (b: bool) {
        self.visible
    }

    fn set_visible(&mut self, visible: bool) {
        self.visible = visible;
    }
}

impl Visited for TestTile {
    open spec fn view_is_visited(v: TestTileView) -> bool {
        v.visited
    }

    open spec fn view_set_visited(v: TestTileView, visited: bool) -> TestTileView {
        TestTileView { visited, ..v }
    }

    fn is_visited(&self) -> (b: bool) {
        self.visited
    }

    fn set_visited(&mut self, visited: bool) {
        self.visited = visited;
    }
}

impl FovOccluder for TestTile {
    open spec fn view_occlusion(v: TestTileView) -> VisibilityOcclusion {
        if v.kind is Wall {
            VisibilityOcclusion::spec_blocked()
        } else {
            VisibilityOcclusion::spec_visible()
        }
    }

    fn block_visibility(&self) -> (r: VisibilityOcclusion) {
        match self.kind {
            TileKind::Wall(_) => VisibilityOcclusion::blocked(),
            _ => VisibilityOcclusion::visible(),
        }
    }
}

impl Walkable for TestTile {
    open spec fn view_is_walkable(v: TestTileView) -> bool {
        !(v.kind is Wall)
    }

    fn is_walkable(&self) -> (b: bool) {
        match self.kind {
            TileKind::Wall(_) => false,
            _ => true,
        }
    }
}

impl ItemContainer for TestTile {
    open spec fn view_items(v: TestTileView) -> Option<Seq<u64>> {
        if v.items.len() == 0 {
            None
        } else {
            Some(v.items)
        }
    }

    open spec fn view_add_item(v: TestTileView, item: u64) -> TestTileView {
        TestTileView { items: v.items.push(item), ..v }
    }

    open spec fn view_remove_item(v: TestTileView, item: u64) -> TestTileView {
        TestTileView { items: v.items.filter(|i: u64| i != item), ..v }
    }

    fn items(&self) -> (r: Option<Vec<u64>>) {
        if self.items.is_empty() {
            None
        } else {
            let items = self.items.clone();
            assert(items@ =~= self.items@);
            Some(items)
        }
    }

    fn add_item(&mut self, item: u64) {
        self.items.push(item);
    }

    fn remove_item(&mut self, item: u64) {
        let ghost keep = |i: u64| i != item;
        let mut kept: Vec<u64> = Vec::new();
        let mut n: usize = 0;
        while n < self.items.len()
            invariant
                n <= self.items.len(),
                keep == |i: u64| i != item,
                kept@ == self.items@.take(n as int).filter(keep),
                *self == *old(self),
            decreases self.items.len() - n,
        {
            let candidate = self.items[n];
            proof {
                assert(self.items@.take(n + 1) =~= self.items@.take(n as int).push(candidate));
                Seq::lemma_filter_push(self.items@.take(n as int), candidate, keep);
            }
            if candidate != item {
                kept.push(candidate);
            }
            n = n + 1;
        }
        assert(self.items@.take(n as int) =~= self.items@);
        self.items = kept;
    }
}

impl Tile for TestTile {
    proof fn lemma_clone_keeps_view(a: Self, b: Self) {
    }

    proof fn lemma_flags_follow_setters(v: TestTileView, flag: bool) {
    }

    proof fn lemma_occlusion_is_stable(v: TestTileView, flag: bool, item: u64) {
    }
}

} // verus!
