//! Map generation: a builder that holds the map under construction and the
//! tile templates, and the steps that paint into it.

use std::marker::PhantomData;
use vstd::prelude::*;
use crate::extent::IntExtent2;
use crate::line::abs_diff;
use crate::random::random_element;
use crate::map::catalog::TileCatalog;
use crate::map::room::Room;
use crate::map::GameMap;
use crate::tile::Tile;
use crate::vector::IntVector2;

verus! {

/// A map under construction. Steps run in the order they are submitted; a
/// later step overwrites what an earlier one put at the same cell.
#[derive(Debug)]
pub struct MapBuilder<T: Tile> {
    pub map: GameMap<T>,
    /// The region that generation is meant to cover.
    pub extent: IntExtent2,
    /// The rooms that room placement has put on the map.
    pub rooms: Vec<Room>,
    /// The tile templates that steps paint with, by name.
    pub tiles: TileCatalog<T>,
}

/// One step of map generation.
pub trait MapBuilderAlgorithm<T: Tile> {
    /// The step can run on `builder`: what it paints with is registered and
    /// what it paints on is representable.
    spec fn applies(&self, builder: MapBuilder<T>) -> bool;

    /// `after` is a builder that the step may leave when started on `before`.
    spec fn builds(&self, before: MapBuilder<T>, after: MapBuilder<T>) -> bool;

    /// Runs the step on `map_builder` and hands the builder back.
    fn build<'a>(&self, map_builder: &'a mut MapBuilder<T>) -> (r: &'a mut MapBuilder<T>)
        requires
            self.applies(*old(map_builder)),
        ensures
            self.builds(*old(map_builder), *r),
            *final(map_builder) == *final(r),
    ;
}

impl<T: Tile> MapBuilder<T> {
    /// A builder with an empty map, no rooms and no templates.
    pub fn new(extent: IntExtent2) -> (b: Self)
        ensures
            b.map@ == Map::<IntVector2, T::V>::empty(),
            b.tiles@ == Map::<Seq<char>, T::V>::empty(),
            b.rooms@ == Seq::<Room>::empty(),
            b.extent == extent,
    {
        MapBuilder { map: GameMap::<T>::new(), tiles: TileCatalog::new(), rooms: Vec::new(), extent }
    }

    /// Registers `tile` as the template named `name`.
    pub fn add_tile(&mut self, name: String, tile: T)
        ensures
            final(self).tiles@ == old(self).tiles@.insert(name@, tile@),
            final(self).map == old(self).map,
            final(self).extent == old(self).extent,
            final(self).rooms == old(self).rooms,
    {
        self.tiles.insert(name, tile);
    }

    /// The template named `name`, if one is registered.
    pub fn get_tile(&self, name: &str) -> (r: Option<&T>)
        ensures
            match r {
                Some(tile) => self.tiles@.contains_key(name@) && tile@ == self.tiles@[name@],
                None => !self.tiles@.contains_key(name@),
            },
    {
        self.tiles.get(name)
    }

    /// Runs one step and hands the builder back for the next.
    pub fn build_step<A: MapBuilderAlgorithm<T>>(&mut self, algorithm: &A) -> (r: &mut Self)
        requires
            algorithm.applies(*old(self)),
        ensures
            algorithm.builds(*old(self), *r),
            *final(self) == *final(r),
    {
        algorithm.build(self)
    }

    /// A copy of the map as built so far.
    pub fn build(&mut self) -> (m: GameMap<T>)
        ensures
            m@ == old(self).map@,
            m.size == old(self).map.size,
            *final(self) == *old(self),
    {
        self.map.clone()
    }
}

/// The cells of `m` after each cell of `cells` has been given the tile `v`.
pub open spec fn stamped<V>(m: Map<IntVector2, V>, cells: Set<IntVector2>, v: V) -> Map<IntVector2, V> {
    Map::new(
        |p: IntVector2| m.contains_key(p) || cells.contains(p),
        |p: IntVector2|
            if cells.contains(p) {
                v
            } else {
                m[p]
            },
    )
}

/// Puts a copy of the template named `name` on each of `cells`.
pub fn stamp_cells<T: Tile>(map_builder: &mut MapBuilder<T>, cells: &Vec<IntVector2>, name: &str)
    requires
        old(map_builder).tiles@.contains_key(name@),
    ensures
        final(map_builder).map@ == stamped(
            old(map_builder).map@,
            cells@.to_set(),
            old(map_builder).tiles@[name@],
        ),
        final(map_builder).map.size == old(map_builder).map.size,
        final(map_builder).tiles == old(map_builder).tiles,
        final(map_builder).extent == old(map_builder).extent,
        final(map_builder).rooms == old(map_builder).rooms,
{
    let ghost before = map_builder.map@;
    let ghost v = map_builder.tiles@[name@];
    let mut i: usize = 0;
    while i < cells.len()
        invariant
            i <= cells.len(),
            map_builder.tiles == old(map_builder).tiles,
            map_builder.extent == old(map_builder).extent,
            map_builder.rooms == old(map_builder).rooms,
            map_builder.map.size == old(map_builder).map.size,
            map_builder.tiles@.contains_key(name@),
            v == map_builder.tiles@[name@],
            map_builder.map@ == stamped(before, cells@.take(i as int).to_set(), v),
        decreases cells.len() - i,
    {
        let cell = cells[i];
        match map_builder.tiles.get(name) {
            Some(template) => {
                let tile = template.clone();
                proof {
                    T::lemma_clone_keeps_view(*template, tile);
                }
                let ghost previous = map_builder.map@;
                map_builder.map.set(cell.x, cell.y, tile);
                proof {
                    let done_cells = cells@.take(i as int);
                    let next_cells = cells@.take(i + 1);
                    let done = done_cells.to_set();
                    let next = next_cells.to_set();
                    assert(next_cells =~= done_cells.push(cell));
                    assert forall|p: IntVector2| next.contains(p) <==> (done.contains(p) || p
                        == cell) by {
                        if next.contains(p) {
                            let k = choose|k: int| 0 <= k < next_cells.len() && next_cells[k] == p;
                            if k < i {
                                assert(done_cells[k] == p);
                            }
                        }
                        if done.contains(p) {
                            let k = choose|k: int| 0 <= k < done_cells.len() && done_cells[k] == p;
                            assert(next_cells[k] == p);
                        }
                        assert(next_cells[i as int] == cell);
                    }
                    assert(cell == IntVector2 { x: cell.x, y: cell.y });
                    assert(map_builder.map@ =~= stamped(before, next, v));
                }
            },
            None => {
                assert(false);
            },
        }
        i = i + 1;
    }
    assert(cells@.take(i as int) =~= cells@);
}

/// The cells of `extent` that lie in a column before `x`, or in column `x`
/// above row `y`: what a column-by-column scan has passed when it stands at `(x, y)`.
pub open spec fn scanned(extent: IntExtent2, x: int, y: int, p: IntVector2) -> bool {
    extent.spec_contains(p.x as int, p.y as int) && (p.x < x || (p.x == x && p.y < y))
}

/// Paints a rectangle with one template.
#[derive(Debug)]
pub struct FillWithFloorBuilderAlgo<'a, T> where T: Clone {
    extent: IntExtent2,
    tile_name: &'a str,
    _marker: PhantomData<T>,
}

impl<'a, T: Clone> FillWithFloorBuilderAlgo<'a, T> {
    pub closed spec fn spec_extent(&self) -> IntExtent2 {
        self.extent
    }

    pub closed spec fn spec_tile_name(&self) -> Seq<char> {
        self.tile_name@
    }

    pub fn new(extent: IntExtent2, tile_name: &'a str) -> (f: Self)
        ensures
            f.spec_extent() == extent,
            f.spec_tile_name() == tile_name@,
    {
        Self { extent, tile_name, _marker: PhantomData }
    }
}

impl<'a, T: Tile> MapBuilderAlgorithm<T> for FillWithFloorBuilderAlgo<'a, T> {
    open spec fn applies(&self, builder: MapBuilder<T>) -> bool {
        self.spec_extent().fits() && builder.tiles@.contains_key(self.spec_tile_name())
    }

    open spec fn builds(&self, before: MapBuilder<T>, after: MapBuilder<T>) -> bool {
        &&& after.map@ == stamped(
            before.map@,
            Set::new(|p: IntVector2| self.spec_extent().spec_contains(p.x as int, p.y as int)),
            before.tiles@[self.spec_tile_name()],
        )
        &&& after.map.size == before.map.size
        &&& after.tiles == before.tiles
        &&& after.extent == before.extent
        &&& after.rooms == before.rooms
    }

    fn build<'b>(&self, map_builder: &'b mut MapBuilder<T>) -> (r: &'b mut MapBuilder<T>) {
        let ghost before = map_builder.map@;
        let ghost v = map_builder.tiles@[self.tile_name@];
        let left: i64 = self.extent.left() as i64;
        let right: i64 = self.extent.right() as i64;
        let top: i64 = self.extent.top() as i64;
        let bottom: i64 = self.extent.bottom() as i64;
        let mut x: i64 = left;
        assert(map_builder.map@ =~= stamped(
            before,
            Set::new(|p: IntVector2| scanned(self.extent, left as int, top as int, p)),
            v,
        ));
        while x < right
            invariant
                self.extent.fits(),
                left == self.extent.spec_left(),
                right == self.extent.right_bound(),
                top == self.extent.spec_top(),
                bottom == self.extent.bottom_bound(),
                left <= x <= right,
                map_builder.tiles == old(map_builder).tiles,
                map_builder.extent == old(map_builder).extent,
                map_builder.rooms == old(map_builder).rooms,
                map_builder.map.size == old(map_builder).map.size,
                map_builder.tiles@.contains_key(self.tile_name@),
                v == map_builder.tiles@[self.tile_name@],
                map_builder.map@ == stamped(
                    before,
                    Set::new(|p: IntVector2| scanned(self.extent, x as int, top as int, p)),
                    v,
                ),
            decreases right - x,
        {
            let mut y: i64 = top;
            while y < bottom
                invariant
                    self.extent.fits(),
                    left == self.extent.spec_left(),
                    right == self.extent.right_bound(),
                    top == self.extent.spec_top(),
                    bottom == self.extent.bottom_bound(),
                    left <= x < right,
                    top <= y <= bottom,
                    map_builder.tiles == old(map_builder).tiles,
                    map_builder.extent == old(map_builder).extent,
                    map_builder.rooms == old(map_builder).rooms,
                    map_builder.map.size == old(map_builder).map.size,
                    map_builder.tiles@.contains_key(self.tile_name@),
                    v == map_builder.tiles@[self.tile_name@],
                    map_builder.map@ == stamped(
                        before,
                        Set::new(|p: IntVector2| scanned(self.extent, x as int, y as int, p)),
                        v,
                    ),
                decreases bottom - y,
            {
                match map_builder.tiles.get(self.tile_name) {
                    Some(template) => {
                        let tile = template.clone();
                        proof {
                            T::lemma_clone_keeps_view(*template, tile);
                        }
                        map_builder.map.set(x as i32, y as i32, tile);
                        assert(map_builder.map@ =~= stamped(
                            before,
                            Set::new(
                                |p: IntVector2| scanned(self.extent, x as int, y + 1, p),
                            ),
                            v,
                        ));
                    },
                    None => {
                        assert(false);
                    },
                }
                y = y + 1;
            }
            assert(map_builder.map@ =~= stamped(
                before,
                Set::new(|p: IntVector2| scanned(self.extent, x + 1, top as int, p)),
                v,
            ));
            x = x + 1;
        }
        assert(map_builder.map@ =~= stamped(
            before,
            Set::new(|p: IntVector2| self.extent.spec_contains(p.x as int, p.y as int)),
            v,
        ));
        map_builder
    }
}

/// Filling is a function of the map and the templates it starts from: two
/// runs of a fill from equal maps with equal templates leave equal maps.
pub proof fn lemma_fill_is_deterministic<'a, T: Tile>(
    step: FillWithFloorBuilderAlgo<'a, T>,
    first: MapBuilder<T>,
    first_built: MapBuilder<T>,
    second: MapBuilder<T>,
    second_built: MapBuilder<T>,
)
    requires
        first.map@ == second.map@,
        first.tiles@ == second.tiles@,
        step.builds(first, first_built),
        step.builds(second, second_built),
    ensures
        first_built.map@ == second_built.map@,
        first_built.tiles@ == second_built.tiles@,
{
}

/// A direction of a random walk. `Up` and `Left` both lead to the previous
/// column, `Right` to the next column and `Down` to the next row.
#[derive(Debug, Clone, Copy, PartialEq, Eq, Structural)]
pub enum WalkDirection {
    Up,
    Down,
    Left,
    Right,
}

/// Number of cells that a random walk carves.
pub const WALK_LENGTH: usize = 100;

/// Number of draws after which a random walk gives up.
pub const WALK_BUDGET: u64 = 0xffff_ffff_ffff_ffff;

/// The cell one step from `p` in direction `d`.
pub open spec fn stepped(p: IntVector2, d: WalkDirection) -> IntVector2 {
    match d {
        WalkDirection::Up => IntVector2 { x: (p.x - 1) as i32, y: p.y },
        WalkDirection::Down => IntVector2 { x: p.x, y: (p.y + 1) as i32 },
        WalkDirection::Left => IntVector2 { x: (p.x - 1) as i32, y: p.y },
        WalkDirection::Right => IntVector2 { x: (p.x + 1) as i32, y: p.y },
    }
}

/// The cell one step from `p` in direction `d` is a cell of the lattice.
pub open spec fn step_fits(p: IntVector2, d: WalkDirection) -> bool {
    match d {
        WalkDirection::Up => p.x > i32::MIN,
        WalkDirection::Down => p.y < i32::MAX,
        WalkDirection::Left => p.x > i32::MIN,
        WalkDirection::Right => p.x < i32::MAX,
    }
}

/// `p` is at most `d` columns and `d` rows away from `q`.
pub open spec fn within(p: IntVector2, q: IntVector2, d: int) -> bool {
    abs_diff(p.x as int, q.x as int) <= d && abs_diff(p.y as int, q.y as int) <= d
}

/// `p` is one step from `from`.
pub open spec fn is_step(from: IntVector2, p: IntVector2) -> bool {
    exists|d: WalkDirection| p == #[trigger] stepped(from, d)
}

/// `cells` can be the cells of a random walk from `start`, in the order it
/// reached them: no cell twice, at most `WALK_LENGTH` cells, and each cell
/// one step from `start` or from a cell reached before it.
pub open spec fn is_walk(start: IntVector2, cells: Seq<IntVector2>) -> bool {
    &&& cells.no_duplicates()
    &&& cells.len() <= WALK_LENGTH
    &&& forall|i: int|
        0 <= i < cells.len() ==> is_step(start, #[trigger] cells[i]) || exists|j: int|
            0 <= j < i && is_step(#[trigger] cells[j], cells[i])
}

/// The steps of a walk of `WALK_LENGTH` cells from `start` stay on the lattice.
pub open spec fn walk_fits(start: IntVector2) -> bool {
    &&& i32::MIN + WALK_LENGTH <= start.x <= i32::MAX - WALK_LENGTH
    &&& i32::MIN + WALK_LENGTH <= start.y <= i32::MAX - WALK_LENGTH
}

/// The `i`-th cell of a walk is at most `i + 1` steps from its start.
pub proof fn lemma_walk_stays_near(start: IntVector2, cells: Seq<IntVector2>, i: int)
    requires
        is_walk(start, cells),
        walk_fits(start),
        0 <= i < cells.len(),
    ensures
        within(cells[i], start, i + 1),
    decreases i,
{
    if !is_step(start, cells[i]) {
        let j = choose|j: int| 0 <= j < i && is_step(#[trigger] cells[j], cells[i]);
        lemma_walk_stays_near(start, cells, j);
        let d = choose|d: WalkDirection| cells[i] == #[trigger] stepped(cells[j], d);
    } else {
        let d = choose|d: WalkDirection| cells[i] == #[trigger] stepped(start, d);
    }
}

/// What one round of a walk draws: a direction, and a cell to jump to. The
/// jump counts only in a round whose step leads onto a cell reached before.
pub struct WalkDraw {
    pub direction: WalkDirection,
    pub jump: IntVector2,
}

/// Where a walk from `start` stands after the rounds of `draws`: the cells
/// it has reached, in order, and the cell it stands on. A round steps from
/// the current cell in the direction drawn; onto a new cell the walk moves
/// and the cell is reached; from a cell reached before it jumps to the cell
/// drawn.
pub open spec fn walk_after(start: IntVector2, draws: Seq<WalkDraw>) -> (
    Seq<IntVector2>,
    IntVector2,
)
    decreases draws.len(),
{
    if draws.len() == 0 {
        (Seq::empty(), start)
    } else {
        let (cells, current) = walk_after(start, draws.drop_last());
        let next = stepped(current, draws.last().direction);
        if cells.contains(next) {
            (cells, draws.last().jump)
        } else {
            (cells.push(next), next)
        }
    }
}

/// `draws` can be the rounds of a walk from `start`: each round begins with
/// fewer than `WALK_LENGTH` cells reached, and each jump goes to a cell
/// reached before.
pub open spec fn are_walk_draws(start: IntVector2, draws: Seq<WalkDraw>) -> bool
    decreases draws.len(),
{
    draws.len() == 0 || {
        let (cells, current) = walk_after(start, draws.drop_last());
        &&& are_walk_draws(start, draws.drop_last())
        &&& cells.len() < WALK_LENGTH
        &&& cells.contains(stepped(current, draws.last().direction)) ==> cells.contains(
            draws.last().jump,
        )
    }
}

/// `cells` are what the walk of `draws` from `start` leaves when it stops:
/// the cells it has reached, once it has reached `WALK_LENGTH` of them or
/// has used up its `WALK_BUDGET` rounds.
pub open spec fn is_finished_walk(
    start: IntVector2,
    draws: Seq<WalkDraw>,
    cells: Seq<IntVector2>,
) -> bool {
    &&& are_walk_draws(start, draws)
    &&& walk_after(start, draws).0 == cells
    &&& draws.len() <= WALK_BUDGET
    &&& cells.len() == WALK_LENGTH || draws.len() == WALK_BUDGET
}

/// Carves floor along a random walk.
#[derive(Debug)]
pub struct RandomWalkBuilder<T> where T: Tile {
    start_pos: IntVector2,
    _marker: PhantomData<T>,
}

impl<T: Tile> RandomWalkBuilder<T> {
    pub closed spec fn spec_start(&self) -> IntVector2 {
        self.start_pos
    }

    pub fn new(start_pos: IntVector2) -> (w: Self)
        ensures
            w.spec_start() == start_pos,
    {
        Self { start_pos, _marker: PhantomData }
    }

    /// The cell one step from `current` in `direction`.
    pub fn step(current: IntVector2, direction: WalkDirection) -> (next: IntVector2)
        requires
            step_fits(current, direction),
        ensures
            next == stepped(current, direction),
    {
        match direction {
            WalkDirection::Up => IntVector2::new(current.x - 1, current.y),
            WalkDirection::Down => IntVector2::new(current.x, current.y + 1),
            WalkDirection::Left => IntVector2::new(current.x - 1, current.y),
            WalkDirection::Right => IntVector2::new(current.x + 1, current.y),
        }
    }

    /// Takes one step of a walk that has reached `cells` and stands on
    /// `current`: where the cell one step in `direction` is new, it is
    /// appended to `cells` and handed back; where the walk has reached it
    /// before, nothing changes and `None` comes back.
    pub fn advance(
        cells: &mut Vec<IntVector2>,
        current: IntVector2,
        direction: WalkDirection,
    ) -> (r: Option<IntVector2>)
        requires
            step_fits(current, direction),
        ensures
            match r {
                Some(next) => {
                    &&& next == stepped(current, direction)
                    &&& !old(cells)@.contains(next)
                    &&& final(cells)@ == old(cells)@.push(next)
                },
                None => {
                    &&& old(cells)@.contains(stepped(current, direction))
                    &&& final(cells)@ == old(cells)@
                },
            },
    {
        let next = Self::step(current, direction);
        let mut i: usize = 0;
        while i < cells.len()
            invariant
                i <= cells.len(),
                *cells == *old(cells),
                next == stepped(current, direction),
                forall|k: int| 0 <= k < i ==> cells@[k] != next,
            decreases cells.len() - i,
        {
            if cells[i] == next {
                assert(cells@[i as int] == next);
                return None;
            }
            i = i + 1;
        }
        cells.push(next);
        Some(next)
    }

    /// Walks at random from the start: each draw of a direction takes one
    /// step from the current cell; a step onto a cell reached before jumps
    /// to a cell drawn among those reached. Stops after `WALK_LENGTH` cells,
    /// or after `WALK_BUDGET` draws of a direction.
    pub fn walk(&self) -> (cells: Vec<IntVector2>)
        requires
            walk_fits(self.spec_start()),
        ensures
            is_walk(self.spec_start(), cells@),
            exists|draws: Seq<WalkDraw>| is_finished_walk(self.spec_start(), draws, cells@),
    {
        let start = self.start_pos;
        let mut directions: Vec<WalkDirection> = Vec::new();
        directions.push(WalkDirection::Up);
        directions.push(WalkDirection::Down);
        directions.push(WalkDirection::Left);
        directions.push(WalkDirection::Right);
        let mut current = start;
        let mut cells: Vec<IntVector2> = Vec::new();
        let mut budget: u64 = WALK_BUDGET;
        let ghost mut draws: Seq<WalkDraw> = Seq::empty();
        while cells.len() < WALK_LENGTH && budget > 0
            invariant
                start == self.spec_start(),
                walk_fits(start),
                directions@.len() == 4,
                is_walk(start, cells@),
                current == start || cells@.contains(current),
                are_walk_draws(start, draws),
                walk_after(start, draws) == (cells@, current),
                draws.len() == WALK_BUDGET - budget,
            decreases budget,
        {
            budget = budget - 1;
            let ghost earlier = draws;
            let ghost stood = current;
            proof {
                if current != start {
                    let i = choose|i: int| 0 <= i < cells@.len() && cells@[i] == current;
                    lemma_walk_stays_near(start, cells@, i);
                }
            }
            let ghost before = cells@;
            match random_element(&directions) {
                Some(direction) => {
                    match Self::advance(&mut cells, current, direction) {
                        Some(next) => {
                            proof {
                                assert(is_step(current, next));
                                let n = before.len() as int;
                                assert(cells@[n] == next);
                                assert forall|a: int, b: int|
                                    0 <= a < cells@.len() && 0 <= b < cells@.len() && a
                                        != b implies cells@[a] != cells@[b] by {
                                    if a < n && b < n {
                                        assert(before[a] != before[b]);
                                    } else if a < n {
                                        assert(before.contains(before[a]));
                                    } else {
                                        assert(before.contains(before[b]));
                                    }
                                }
                                assert forall|i: int| 0 <= i < cells@.len() implies is_step(
                                    start,
                                    #[trigger] cells@[i],
                                ) || exists|j: int|
                                    0 <= j < i && is_step(#[trigger] cells@[j], cells@[i]) by {
                                    if i < n {
                                        assert(cells@[i] == before[i]);
                                        if !is_step(start, before[i]) {
                                            let j = choose|j: int|
                                                0 <= j < i && is_step(
                                                    #[trigger] before[j],
                                                    before[i],
                                                );
                                            assert(cells@[j] == before[j]);
                                        }
                                    } else if current != start {
                                        let j = choose|j: int|
                                            0 <= j < before.len() && before[j] == current;
                                        assert(cells@[j] == current);
                                        assert(0 <= j < i && is_step(cells@[j], cells@[i]));
                                    }
                                }
                            }
                            current = next;
                        },
                        None => {
                            match random_element(&cells) {
                                Some(cell) => {
                                    current = cell;
                                },
                                None => {},
                            }
                        },
                    }
                    proof {
                        draws = earlier.push(WalkDraw { direction, jump: current });
                        assert(draws.drop_last() =~= earlier);
                        assert(draws.last() == WalkDraw { direction, jump: current });
                        assert(walk_after(start, earlier) == (before, stood));
                    }
                },
                None => {},
            }
        }
        assert(is_finished_walk(start, draws, cells@));
        cells
    }
}

impl<T: Tile> MapBuilderAlgorithm<T> for RandomWalkBuilder<T> {
    open spec fn applies(&self, builder: MapBuilder<T>) -> bool {
        walk_fits(self.spec_start()) && builder.tiles@.contains_key("floor"@)
    }

    open spec fn builds(&self, before: MapBuilder<T>, after: MapBuilder<T>) -> bool {
        &&& exists|cells: Seq<IntVector2>, draws: Seq<WalkDraw>| #[trigger]
            is_finished_walk(self.spec_start(), draws, cells) && is_walk(self.spec_start(), cells)
                && after.map@ == stamped(before.map@, cells.to_set(), before.tiles@["floor"@])
        &&& after.map.size == before.map.size
        &&& after.tiles == before.tiles
        &&& after.extent == before.extent
        &&& after.rooms == before.rooms
    }

    fn build<'a>(&self, map_builder: &'a mut MapBuilder<T>) -> (r: &'a mut MapBuilder<T>) {
        let cells = self.walk();
        stamp_cells(map_builder, &cells, "floor");
        proof {
            let draws = choose|draws: Seq<WalkDraw>|
                is_finished_walk(self.spec_start(), draws, cells@);
            assert(is_finished_walk(self.spec_start(), draws, cells@) && is_walk(
                self.spec_start(),
                cells@,
            ));
        }
        map_builder
    }
}

} // verus!
