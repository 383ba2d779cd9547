//! Field of view: which cells a viewer sees, and how the map's visibility
//! flags follow from one tick to the next.

use std::collections::HashSet;
use vstd::prelude::*;
use vstd::std_specs::iter::IteratorSpec;
use crate::line::line_cells;
use crate::map::command::{
    apply_command,
    apply_commands,
    lemma_commands_concat,
    lemma_commands_keep_domain,
    MapCommand,
    MapCommands,
};
use crate::map::{updated, GameMap};
use crate::morton::{
    decoded,
    encoded,
    lemma_decode_encode,
    lemma_encode_decode,
    lemma_encode_injective,
    PositionDecoder,
    PositionEncoder,
};
use crate::tile::{Tile, VisibilityOcclusion};
use crate::vector::IntVector2;

verus! {

broadcast use vstd::std_specs::hash::group_hash_axioms;

/// The cells whose keys are in `keys`.
pub open spec fn cells_of(keys: Set<u64>) -> Set<IntVector2> {
    Set::new(|p: IntVector2| keys.contains(encoded(p)))
}

/// There is a tile at `p` and sight passes through it.
pub open spec fn lets_sight_through<T: Tile>(m: Map<IntVector2, T::V>, p: IntVector2) -> bool {
    m.contains_key(p) && !T::view_occlusion(m[p]).is_blocked()
}

/// There is a tile at `p` and it stops sight.
pub open spec fn stops_sight<T: Tile>(m: Map<IntVector2, T::V>, p: IntVector2) -> bool {
    m.contains_key(p) && T::view_occlusion(m[p]).is_blocked()
}

/// Sight passes through the first `n` cells of `ray`.
pub open spec fn clear_before<T: Tile>(
    m: Map<IntVector2, T::V>,
    ray: Seq<IntVector2>,
    n: int,
) -> bool {
    forall|j: int| 0 <= j < n ==> lets_sight_through::<T>(m, #[trigger] ray[j])
}

/// `c` lies on `ray`, and sight passes through it and through every cell
/// before it.
pub open spec fn seen_along<T: Tile>(
    m: Map<IntVector2, T::V>,
    ray: Seq<IntVector2>,
    c: IntVector2,
) -> bool {
    exists|k: int| 0 <= k < ray.len() && #[trigger] ray[k] == c && clear_before::<T>(m, ray, k + 1)
}

/// `c` is the tile at which `ray` is stopped: sight passes through every
/// cell before it, and not through `c`.
pub open spec fn stopped_at<T: Tile>(
    m: Map<IntVector2, T::V>,
    ray: Seq<IntVector2>,
    c: IntVector2,
) -> bool {
    exists|k: int|
        0 <= k < ray.len() && #[trigger] ray[k] == c && stops_sight::<T>(m, c) && clear_before::<T>(
            m,
            ray,
            k,
        )
}

/// `t` lies on the border of the square of half-width `radius` around `center`.
pub open spec fn on_ring(center: IntVector2, radius: int, t: IntVector2) -> bool {
    let dx = t.x - center.x;
    let dy = t.y - center.y;
    &&& radius >= 0
    &&& -radius <= dx <= radius
    &&& -radius <= dy <= radius
    &&& (dx == radius || dx == -radius || dy == radius || dy == -radius)
}

/// A ray from `center` to a cell of the ring reaches `c` unhindered.
pub open spec fn in_sight<T: Tile>(
    m: Map<IntVector2, T::V>,
    center: IntVector2,
    radius: int,
    c: IntVector2,
) -> bool {
    exists|t: IntVector2| #[trigger]
        on_ring(center, radius, t) && seen_along::<T>(m, line_cells(center, t), c)
}

/// A ray from `center` to a cell of the ring is stopped by the tile at `c`.
pub open spec fn outlined<T: Tile>(
    m: Map<IntVector2, T::V>,
    center: IntVector2,
    radius: int,
    c: IntVector2,
) -> bool {
    exists|t: IntVector2| #[trigger]
        on_ring(center, radius, t) && stopped_at::<T>(m, line_cells(center, t), c)
}

/// The cells in sight of a viewer at `center`.
pub open spec fn field_of_view<T: Tile>(
    m: Map<IntVector2, T::V>,
    center: IntVector2,
    radius: int,
) -> Set<IntVector2> {
    Set::new(|c: IntVector2| in_sight::<T>(m, center, radius, c))
}

/// There is a tile at `p` that has not been visited.
pub open spec fn is_unvisited<T: Tile>(m: Map<IntVector2, T::V>, p: IntVector2) -> bool {
    m.contains_key(p) && !T::view_is_visited(m[p])
}

/// The cells that a tick marks visited: those in sight and those that stop
/// a ray, as far as their tiles have not been visited before.
pub open spec fn newly_visited<T: Tile>(
    m: Map<IntVector2, T::V>,
    center: IntVector2,
    radius: int,
) -> Set<IntVector2> {
    Set::new(
        |p: IntVector2|
            (in_sight::<T>(m, center, radius, p) || outlined::<T>(m, center, radius, p))
                && is_unvisited::<T>(m, p),
    )
}

/// A tile after a tick: marked visited where the tick marks it, then shown
/// where it came into sight and hidden where it left it.
pub open spec fn tile_after_tick<T: Tile>(
    v: T::V,
    marked: bool,
    was_seen: bool,
    seen: bool,
) -> T::V {
    let visited = if marked {
        T::view_set_visited(v, true)
    } else {
        v
    };
    if was_seen && !seen {
        T::view_set_visible(visited, false)
    } else if !was_seen && seen {
        T::view_set_visible(visited, true)
    } else {
        visited
    }
}

/// The map after a tick that marks the cells `marked` visited, for a viewer
/// who saw `previous` before and sees `seen` now.
pub open spec fn map_after_tick<T: Tile>(
    m: Map<IntVector2, T::V>,
    marked: Set<IntVector2>,
    previous: Set<IntVector2>,
    seen: Set<IntVector2>,
) -> Map<IntVector2, T::V> {
    Map::new(
        |p: IntVector2| m.contains_key(p),
        |p: IntVector2|
            tile_after_tick::<T>(
                m[p],
                marked.contains(p),
                previous.contains(p),
                seen.contains(p),
            ),
    )
}

/// What a viewer sees: the radius of sight, the cells seen at the end of the
/// last tick and the cells gathered during the current one, both as sets of
/// Morton keys.
#[derive(Debug)]
pub struct FovData {
    pub fov_size: i32,
    pub fov_cells: HashSet<u64>,
    pub current_fov_cells: HashSet<u64>,
}

impl FovData {
    /// The cells seen at the end of the last tick.
    pub open spec fn seen(&self) -> Set<IntVector2> {
        cells_of(self.fov_cells@)
    }

    /// Nothing seen yet, with the given radius of sight.
    pub fn new(fov_size: i32) -> (f: Self)
        ensures
            f.fov_size == fov_size,
            f.fov_cells@ == Set::<u64>::empty(),
            f.current_fov_cells@ == Set::<u64>::empty(),
    {
        FovData { fov_size, fov_cells: HashSet::new(), current_fov_cells: HashSet::new() }
    }

    /// The cells seen at the end of the last tick, each once, in no particular order.
    pub fn visible_cells(&self) -> (r: Vec<IntVector2>)
        ensures
            r@.no_duplicates(),
            r@.to_set() == self.seen(),
    {
        let keys = members(&self.fov_cells);
        let mut cells: Vec<IntVector2> = Vec::new();
        let mut i: usize = 0;
        while i < keys.len()
            invariant
                i <= keys.len(),
                cells@.len() == i,
                forall|j: int| 0 <= j < i ==> cells@[j] == decoded(#[trigger] keys@[j]),
            decreases keys.len() - i,
        {
            cells.push(keys[i].decode());
            i = i + 1;
        }
        proof {
            assert forall|a: int, b: int|
                0 <= a < cells@.len() && 0 <= b < cells@.len() && a != b implies cells@[a]
                != cells@[b] by {
                lemma_encode_decode(keys@[a]);
                lemma_encode_decode(keys@[b]);
            }
            assert forall|p: IntVector2| cells@.to_set().contains(p) <==> self.seen().contains(
                p,
            ) by {
                if cells@.to_set().contains(p) {
                    let j = choose|j: int| 0 <= j < cells@.len() && cells@[j] == p;
                    lemma_encode_decode(keys@[j]);
                    assert(keys@.to_set().contains(keys@[j]));
                }
                if self.seen().contains(p) {
                    assert(keys@.to_set().contains(encoded(p)));
                    let j = choose|j: int| 0 <= j < keys@.len() && keys@[j] == encoded(p);
                    lemma_decode_encode(p);
                    assert(cells@[j] == p);
                }
            }
            assert(cells@.to_set() =~= self.seen());
        }
        cells
    }
}

impl Default for FovData {
    /// Nothing seen yet, with a radius of sight of five cells.
    fn default() -> (f: Self)
        ensures
            f.fov_size == 5,
            f.fov_cells@ == Set::<u64>::empty(),
            f.current_fov_cells@ == Set::<u64>::empty(),
    {
        FovData::new(5)
    }
}

/// What one tick found: the cells to mark visited, the cells that left the
/// field of view and the cells that entered it. No cell occurs twice in a list.
#[derive(Debug)]
pub struct FovChanges {
    pub visited: Vec<IntVector2>,
    pub hidden: Vec<IntVector2>,
    pub shown: Vec<IntVector2>,
}

/// Commands that mark each of `cells` visited.
pub open spec fn visited_marks(cells: Seq<IntVector2>) -> Seq<MapCommand> {
    Seq::new(cells.len(), |i: int| MapCommand::SetVisited(cells[i], true))
}

/// Commands that show or hide each of `cells`.
pub open spec fn visibility_marks(cells: Seq<IntVector2>, visible: bool) -> Seq<MapCommand> {
    Seq::new(cells.len(), |i: int| MapCommand::SetVisible(cells[i], visible))
}

impl FovChanges {
    /// The commands of these changes: first the visited marks, then the
    /// cells to hide, then the cells to show.
    pub open spec fn commands(&self) -> Seq<MapCommand> {
        visited_marks(self.visited@) + visibility_marks(self.hidden@, false) + visibility_marks(
            self.shown@,
            true,
        )
    }

    /// Appends the commands of these changes to `commands`.
    pub fn stage(&self, commands: &mut MapCommands)
        ensures
            final(commands)@ == old(commands)@ + self.commands(),
    {
        let mut i: usize = 0;
        while i < self.visited.len()
            invariant
                i <= self.visited.len(),
                commands@ == old(commands)@ + visited_marks(self.visited@.take(i as int)),
            decreases self.visited.len() - i,
        {
            commands.add(MapCommand::SetVisited(self.visited[i], true));
            assert(commands@ =~= old(commands)@ + visited_marks(self.visited@.take(i + 1)));
            i = i + 1;
        }
        assert(self.visited@.take(i as int) =~= self.visited@);
        let ghost marked = old(commands)@ + visited_marks(self.visited@);
        let mut j: usize = 0;
        while j < self.hidden.len()
            invariant
                j <= self.hidden.len(),
                commands@ == marked + visibility_marks(self.hidden@.take(j as int), false),
            decreases self.hidden.len() - j,
        {
            commands.add(MapCommand::SetVisible(self.hidden[j], false));
            assert(commands@ =~= marked + visibility_marks(self.hidden@.take(j + 1), false));
            j = j + 1;
        }
        assert(self.hidden@.take(j as int) =~= self.hidden@);
        let ghost hid = marked + visibility_marks(self.hidden@, false);
        let mut k: usize = 0;
        while k < self.shown.len()
            invariant
                k <= self.shown.len(),
                commands@ == hid + visibility_marks(self.shown@.take(k as int), true),
            decreases self.shown.len() - k,
        {
            commands.add(MapCommand::SetVisible(self.shown[k], true));
            assert(commands@ =~= hid + visibility_marks(self.shown@.take(k + 1), true));
            k = k + 1;
        }
        assert(self.shown@.take(k as int) =~= self.shown@);
        assert(commands@ =~= old(commands)@ + self.commands());
    }
}

/// A batch of commands that each apply the same change to a different cell
/// changes exactly those cells, each once.
pub proof fn lemma_batch_effect<T: Tile>(
    m: Map<IntVector2, T::V>,
    batch: Seq<MapCommand>,
    cells: Seq<IntVector2>,
    change: spec_fn(T::V) -> T::V,
)
    requires
        cells.no_duplicates(),
        batch.len() == cells.len(),
        forall|i: int, x: Map<IntVector2, T::V>|
            0 <= i < batch.len() ==> #[trigger] apply_command::<T>(x, batch[i]) == updated(
                x,
                cells[i],
                change,
            ),
    ensures
        apply_commands::<T>(m, batch) == Map::new(
            |p: IntVector2| m.contains_key(p),
            |p: IntVector2|
                if cells.contains(p) {
                    change(m[p])
                } else {
                    m[p]
                },
        ),
    decreases batch.len(),
{
    let expected = Map::new(
        |p: IntVector2| m.contains_key(p),
        |p: IntVector2|
            if cells.contains(p) {
                change(m[p])
            } else {
                m[p]
            },
    );
    if batch.len() == 0 {
        assert(apply_commands::<T>(m, batch) =~= expected);
    } else {
        let head = batch.drop_last();
        let head_cells = cells.drop_last();
        let last = cells.last();
        assert forall|i: int, x: Map<IntVector2, T::V>| 0 <= i < head.len() implies #[trigger]
            apply_command::<T>(x, head[i]) == updated(x, head_cells[i], change) by {
            assert(head[i] == batch[i]);
            assert(head_cells[i] == cells[i]);
        }
        lemma_batch_effect::<T>(m, head, head_cells, change);
        let before = apply_commands::<T>(m, head);
        assert(apply_command::<T>(before, batch[batch.len() - 1]) == updated(
            before,
            cells[batch.len() - 1],
            change,
        ));
        assert(!head_cells.contains(last)) by {
            if head_cells.contains(last) {
                let i = choose|i: int| 0 <= i < head_cells.len() && head_cells[i] == last;
                assert(cells[i] == cells[cells.len() - 1]);
            }
        }
        assert forall|p: IntVector2| cells.contains(p) <==> (head_cells.contains(p) || p
            == last) by {
            if cells.contains(p) {
                let i = choose|i: int| 0 <= i < cells.len() && cells[i] == p;
                if i < cells.len() - 1 {
                    assert(head_cells[i] == p);
                }
            }
            if head_cells.contains(p) {
                let i = choose|i: int| 0 <= i < head_cells.len() && head_cells[i] == p;
                assert(cells[i] == p);
            }
            assert(cells[cells.len() - 1] == last);
        }
        assert(apply_commands::<T>(m, batch) =~= expected);
    }
}

/// The ring cells whose rays have been cast once the scan stands at column
/// offset `i` and row offset `j`: those of the columns before `i`, and those
/// of column `i` above row `j`.
pub open spec fn cast_before(center: IntVector2, radius: int, i: int, j: int, t: IntVector2) -> bool {
    on_ring(center, radius, t) && (t.x - center.x < i || (t.x - center.x == i && t.y - center.y
        < j))
}

/// A ray cast before the scan stood at `(i, j)` reaches `p`, where `along`
/// says which cells the ray to a ring cell reaches.
pub open spec fn ring_reaches(
    center: IntVector2,
    radius: int,
    i: int,
    j: int,
    along: spec_fn(IntVector2, IntVector2) -> bool,
    p: IntVector2,
) -> bool {
    exists|t: IntVector2| #[trigger] cast_before(center, radius, i, j, t) && along(t, p)
}

/// One step of the scan down a column: the ray to the cell at `(i, j)`, if
/// there is such a cell and it is on the ring, adds what it reaches.
proof fn lemma_ring_step(
    center: IntVector2,
    radius: int,
    i: int,
    j: int,
    on_border: bool,
    before: Set<u64>,
    after: Set<u64>,
    along: spec_fn(IntVector2, IntVector2) -> bool,
)
    requires
        radius >= 0,
        -radius <= i <= radius,
        -radius <= j <= radius,
        on_border == ((i == radius || i == -radius || j == radius || j == -radius) && i32::MIN
            <= center.x + i <= i32::MAX && i32::MIN <= center.y + j <= i32::MAX),
        forall|p: IntVector2|
            #![trigger before.contains(encoded(p))]
            before.contains(encoded(p)) <==> ring_reaches(center, radius, i, j, along, p),
        !on_border ==> after == before,
        on_border ==> forall|p: IntVector2|
            #![trigger after.contains(encoded(p))]
            after.contains(encoded(p)) <==> (before.contains(encoded(p)) || along(
                IntVector2 { x: (center.x + i) as i32, y: (center.y + j) as i32 },
                p,
            )),
    ensures
        forall|p: IntVector2|
            #![trigger after.contains(encoded(p))]
            after.contains(encoded(p)) <==> ring_reaches(center, radius, i, j + 1, along, p),
{
    let target = IntVector2 { x: (center.x + i) as i32, y: (center.y + j) as i32 };
    assert forall|p: IntVector2|
        #![trigger after.contains(encoded(p))]
        after.contains(encoded(p)) <==> ring_reaches(center, radius, i, j + 1, along, p) by {
        if before.contains(encoded(p)) {
            let t = choose|t: IntVector2| #[trigger]
                cast_before(center, radius, i, j, t) && along(t, p);
            assert(cast_before(center, radius, i, j + 1, t));
        }
        if on_border && along(target, p) {
            assert(cast_before(center, radius, i, j + 1, target));
        }
        if ring_reaches(center, radius, i, j + 1, along, p) {
            let t = choose|t: IntVector2| #[trigger]
                cast_before(center, radius, i, j + 1, t) && along(t, p);
            if t.x - center.x == i && t.y - center.y == j {
                assert(t == target);
                assert(on_border);
            } else {
                assert(cast_before(center, radius, i, j, t));
            }
        }
    }
}

/// The end of a column is the start of the next.
proof fn lemma_ring_column(
    center: IntVector2,
    radius: int,
    i: int,
    cells: Set<u64>,
    along: spec_fn(IntVector2, IntVector2) -> bool,
)
    requires
        radius >= 0,
        forall|p: IntVector2|
            #![trigger cells.contains(encoded(p))]
            cells.contains(encoded(p)) <==> ring_reaches(center, radius, i, radius + 1, along, p),
    ensures
        forall|p: IntVector2|
            #![trigger cells.contains(encoded(p))]
            cells.contains(encoded(p)) <==> ring_reaches(center, radius, i + 1, -radius, along, p),
{
    assert forall|p: IntVector2|
        #![trigger cells.contains(encoded(p))]
        cells.contains(encoded(p)) <==> ring_reaches(center, radius, i + 1, -radius, along, p) by {
        if cells.contains(encoded(p)) {
            let t = choose|t: IntVector2| #[trigger]
                cast_before(center, radius, i, radius + 1, t) && along(t, p);
            assert(cast_before(center, radius, i + 1, -radius, t));
        }
        if ring_reaches(center, radius, i + 1, -radius, along, p) {
            let t = choose|t: IntVector2| #[trigger]
                cast_before(center, radius, i + 1, -radius, t) && along(t, p);
            assert(cast_before(center, radius, i, radius + 1, t));
        }
    }
}

/// Once the scan has passed the last column, the rays to all ring cells
/// have been cast; with a negative radius there is no ring cell.
proof fn lemma_ring_done(
    center: IntVector2,
    radius: int,
    i: int,
    cells: Set<u64>,
    along: spec_fn(IntVector2, IntVector2) -> bool,
)
    requires
        radius >= 0 ==> i == radius + 1,
        forall|p: IntVector2|
            #![trigger cells.contains(encoded(p))]
            cells.contains(encoded(p)) <==> ring_reaches(center, radius, i, -radius, along, p),
    ensures
        forall|p: IntVector2|
            #![trigger cells.contains(encoded(p))]
            cells.contains(encoded(p)) <==> exists|t: IntVector2| #[trigger]
                on_ring(center, radius, t) && along(t, p),
{
    assert forall|p: IntVector2|
        #![trigger cells.contains(encoded(p))]
        cells.contains(encoded(p)) <==> exists|t: IntVector2| #[trigger]
            on_ring(center, radius, t) && along(t, p) by {
        if cells.contains(encoded(p)) {
            let t = choose|t: IntVector2| #[trigger]
                cast_before(center, radius, i, -radius, t) && along(t, p);
            assert(on_ring(center, radius, t) && along(t, p));
        }
        if exists|t: IntVector2| #[trigger] on_ring(center, radius, t) && along(t, p) {
            let t = choose|t: IntVector2| #[trigger] on_ring(center, radius, t) && along(t, p);
            assert(cast_before(center, radius, i, -radius, t));
        }
    }
}

/// Walks one ray from `start` towards `target`: gathers the cells that sight
/// passes through in `lit`, the tile that stops the ray in `walls`, and
/// lists each cell that is new to either in `visited`.
fn cast_ray<T: Tile>(
    lit: &mut HashSet<u64>,
    walls: &mut HashSet<u64>,
    visited: &mut Vec<IntVector2>,
    game_map: &GameMap<T>,
    start: IntVector2,
    target: IntVector2,
)
    requires
        old(visited)@.no_duplicates(),
        forall|p: IntVector2|
            #![trigger old(visited)@.contains(p)]
            #![trigger old(lit)@.contains(encoded(p))]
            #![trigger old(walls)@.contains(encoded(p))]
            old(visited)@.contains(p) <==> ((old(lit)@.contains(encoded(p))
                || old(walls)@.contains(encoded(p))) && is_unvisited::<T>(game_map@, p)),
        forall|p: IntVector2|
            #![trigger old(lit)@.contains(encoded(p))]
            old(lit)@.contains(encoded(p)) ==> lets_sight_through::<T>(game_map@, p),
        forall|p: IntVector2|
            #![trigger old(walls)@.contains(encoded(p))]
            old(walls)@.contains(encoded(p)) ==> stops_sight::<T>(game_map@, p),
    ensures
        final(visited)@.no_duplicates(),
        forall|p: IntVector2|
            #![trigger final(visited)@.contains(p)]
            #![trigger final(lit)@.contains(encoded(p))]
            #![trigger final(walls)@.contains(encoded(p))]
            final(visited)@.contains(p) <==> ((final(lit)@.contains(encoded(p))
                || final(walls)@.contains(encoded(p))) && is_unvisited::<T>(game_map@, p)),
        forall|p: IntVector2|
            #![trigger final(lit)@.contains(encoded(p))]
            final(lit)@.contains(encoded(p)) ==> lets_sight_through::<T>(game_map@, p),
        forall|p: IntVector2|
            #![trigger final(walls)@.contains(encoded(p))]
            final(walls)@.contains(encoded(p)) ==> stops_sight::<T>(game_map@, p),
        forall|p: IntVector2|
            #![trigger final(lit)@.contains(encoded(p))]
            #![trigger old(lit)@.contains(encoded(p))]
            final(lit)@.contains(encoded(p)) <==> (old(lit)@.contains(encoded(p))
                || seen_along::<T>(game_map@, line_cells(start, target), p)),
        forall|p: IntVector2|
            #![trigger final(walls)@.contains(encoded(p))]
            #![trigger old(walls)@.contains(encoded(p))]
            final(walls)@.contains(encoded(p)) <==> (old(walls)@.contains(encoded(p))
                || stopped_at::<T>(game_map@, line_cells(start, target), p)),
{
    let path = game_map.line(start, target);
    let ghost ray = path@;
    let ghost m = game_map@;
    let mut k: usize = 0;
    let mut stopped = false;
    while k < path.len() && !stopped
        invariant
            path@ == ray,
            game_map@ == m,
            k <= path.len(),
            clear_before::<T>(m, ray, k as int),
            stopped ==> k < path.len() && !lets_sight_through::<T>(m, ray[k as int]),
            visited@.no_duplicates(),
            forall|p: IntVector2|
                #![trigger visited@.contains(p)]
                #![trigger lit@.contains(encoded(p))]
                #![trigger walls@.contains(encoded(p))]
                visited@.contains(p) <==> ((lit@.contains(encoded(p)) || walls@.contains(
                    encoded(p),
                )) && is_unvisited::<T>(m, p)),
            forall|p: IntVector2|
                #![trigger lit@.contains(encoded(p))]
                lit@.contains(encoded(p)) ==> lets_sight_through::<T>(m, p),
            forall|p: IntVector2|
                #![trigger walls@.contains(encoded(p))]
                walls@.contains(encoded(p)) ==> stops_sight::<T>(m, p),
            forall|p: IntVector2|
                #![trigger lit@.contains(encoded(p))]
                #![trigger old(lit)@.contains(encoded(p))]
                lit@.contains(encoded(p)) <==> (old(lit)@.contains(encoded(p)) || exists|
                    j: int,
                | 0 <= j < k && #[trigger] ray[j] == p),
            forall|p: IntVector2|
                #![trigger walls@.contains(encoded(p))]
                #![trigger old(walls)@.contains(encoded(p))]
                walls@.contains(encoded(p)) <==> (old(walls)@.contains(encoded(p)) || (stopped
                    && stops_sight::<T>(m, p) && p == ray[k as int])),
        decreases
                path.len() - k,
                if stopped {
                    0int
                } else {
                    1int
                },
    {
        let p = path[k];
        let key = p.encode();
        assert(key == encoded(p));
        let ghost lit_before = lit@;
        let ghost walls_before = walls@;
        let ghost visited_before = visited@;
        if lit.contains(&key) {
            assert(lets_sight_through::<T>(m, p));
            k = k + 1;
        } else {
            match game_map.tile_at(p) {
                None => {
                    stopped = true;
                },
                Some(tile) => {
                    if tile.block_visibility() == VisibilityOcclusion::blocked() {
                        assert(stops_sight::<T>(m, p));
                        if !walls.contains(&key) {
                            assert(!lit@.contains(encoded(p)));
                            assert(!visited_before.contains(p));
                            walls.insert(key);
                            if !tile.is_visited() {
                                visited.push(p);
                                proof {
                                    lemma_push_new(visited_before, p);
                                }
                            }
                        }
                        stopped = true;
                        proof {
                            assert forall|q: IntVector2|
                                walls@.contains(encoded(q)) <==> (walls_before.contains(encoded(q))
                                    || q == p) by {
                                if encoded(q) == key {
                                    lemma_encode_injective(q, p);
                                }
                            }
                        }
                    } else {
                        assert(lets_sight_through::<T>(m, p));
                        assert(!walls@.contains(encoded(p)));
                        assert(!visited_before.contains(p));
                        lit.insert(key);
                        if !tile.is_visited() {
                            visited.push(p);
                            proof {
                                lemma_push_new(visited_before, p);
                            }
                        }
                        proof {
                            assert forall|q: IntVector2|
                                lit@.contains(encoded(q)) <==> (lit_before.contains(
                                    encoded(q),
                                ) || q == p) by {
                                if encoded(q) == key {
                                    lemma_encode_injective(q, p);
                                }
                            }
                        }
                        k = k + 1;
                    }
                },
            }
        }
    }
    proof {
        let kk = k as int;
        assert forall|p: IntVector2|
            lit@.contains(encoded(p)) <==> (old(lit)@.contains(encoded(p))
                || seen_along::<T>(m, ray, p)) by {
            if seen_along::<T>(m, ray, p) {
                let j = choose|j: int|
                    0 <= j < ray.len() && #[trigger] ray[j] == p && clear_before::<T>(m, ray, j + 1);
                if j >= kk {
                    assert(stopped);
                    assert(lets_sight_through::<T>(m, ray[kk]));
                }
                assert(0 <= j < kk && ray[j] == p);
            }
            if exists|j: int| 0 <= j < kk && #[trigger] ray[j] == p {
                let j = choose|j: int| 0 <= j < kk && #[trigger] ray[j] == p;
                assert(clear_before::<T>(m, ray, j + 1));
            }
        }
        assert forall|p: IntVector2|
            walls@.contains(encoded(p)) <==> (old(walls)@.contains(encoded(p)) || stopped_at::<T>(
                m,
                ray,
                p,
            )) by {
            if stopped_at::<T>(m, ray, p) {
                let j = choose|j: int|
                    0 <= j < ray.len() && #[trigger] ray[j] == p && stops_sight::<T>(m, p)
                        && clear_before::<T>(m, ray, j);
                if j < kk {
                    assert(lets_sight_through::<T>(m, ray[j]));
                }
                if j > kk {
                    assert(stopped);
                    assert(lets_sight_through::<T>(m, ray[kk]));
                }
                assert(j == kk);
                assert(stopped);
            }
            if stopped && stops_sight::<T>(m, p) && p == ray[kk] {
                assert(ray[kk] == p && clear_before::<T>(m, ray, kk));
            }
        }
    }
}

/// The cells of `keys` whose keys are not in `other`, each once.
fn cells_outside(keys: &Vec<u64>, other: &HashSet<u64>) -> (r: Vec<IntVector2>)
    requires
        keys@.no_duplicates(),
    ensures
        r@.no_duplicates(),
        forall|p: IntVector2|
            #![trigger r@.contains(p)]
            #![trigger keys@.contains(encoded(p))]
            r@.contains(p) <==> (keys@.contains(encoded(p)) && !other@.contains(encoded(p))),
{
    let mut cells: Vec<IntVector2> = Vec::new();
    let mut n: usize = 0;
    while n < keys.len()
        invariant
            n <= keys.len(),
            keys@.no_duplicates(),
            cells@.no_duplicates(),
            forall|p: IntVector2|
                #![trigger cells@.contains(p)]
                cells@.contains(p) <==> (!other@.contains(encoded(p)) && exists|j: int|
                    0 <= j < n && #[trigger] keys@[j] == encoded(p)),
        decreases keys.len() - n,
    {
        let key = keys[n];
        let ghost before = cells@;
        if !other.contains(&key) {
            let cell = key.decode();
            proof {
                assert(cell == decoded(key));
                lemma_encode_decode(key);
                if before.contains(cell) {
                    let j = choose|j: int| 0 <= j < n && #[trigger] keys@[j] == encoded(cell);
                    assert(keys@[j] == keys@[n as int]);
                }
                lemma_push_new(before, cell);
            }
            cells.push(cell);
            proof {
                assert forall|p: IntVector2| #![trigger cells@.contains(p)] cells@.contains(p) <==> (
                !other@.contains(encoded(p)) && exists|j: int|
                    0 <= j < n + 1 && #[trigger] keys@[j] == encoded(p)) by {
                    if before.contains(p) {
                        let j = choose|j: int| 0 <= j < n && #[trigger] keys@[j] == encoded(p);
                        assert(0 <= j < n + 1 && keys@[j] == encoded(p));
                    }
                    if p == cell {
                        assert(keys@[n as int] == encoded(p));
                    }
                    if !other@.contains(encoded(p)) && exists|j: int|
                        0 <= j < n + 1 && #[trigger] keys@[j] == encoded(p) {
                        let j = choose|j: int| 0 <= j < n + 1 && #[trigger] keys@[j] == encoded(p);
                        if j == n {
                            lemma_decode_encode(p);
                            assert(p == cell);
                        } else {
                            assert(0 <= j < n && keys@[j] == encoded(p));
                        }
                    }
                }
            }
        } else {
            proof {
                assert forall|p: IntVector2| #![trigger cells@.contains(p)] cells@.contains(p) <==> (
                !other@.contains(encoded(p)) && exists|j: int|
                    0 <= j < n + 1 && #[trigger] keys@[j] == encoded(p)) by {
                    if before.contains(p) {
                        let j = choose|j: int| 0 <= j < n && #[trigger] keys@[j] == encoded(p);
                        assert(0 <= j < n + 1 && keys@[j] == encoded(p));
                    }
                    if !other@.contains(encoded(p)) && exists|j: int|
                        0 <= j < n + 1 && #[trigger] keys@[j] == encoded(p) {
                        let j = choose|j: int| 0 <= j < n + 1 && #[trigger] keys@[j] == encoded(p);
                        assert(j != n);
                        assert(0 <= j < n && keys@[j] == encoded(p));
                    }
                }
            }
        }
        n = n + 1;
    }
    proof {
        assert forall|p: IntVector2|
            #![trigger cells@.contains(p)]
            #![trigger keys@.contains(encoded(p))]
            cells@.contains(p) <==> (keys@.contains(encoded(p)) && !other@.contains(
                encoded(p),
            )) by {
            if keys@.contains(encoded(p)) {
                let j = choose|j: int| 0 <= j < keys@.len() && keys@[j] == encoded(p);
                assert(0 <= j < n && keys@[j] == encoded(p));
            }
        }
    }
    cells
}

/// Casts the rays of one tick from `position` over `game_map`: gathers the
/// field of view, compares it with that of the last tick and makes it the
/// new one. The map itself is left as it is; the result lists what has to
/// change in it.
pub fn scan_fov<T: Tile>(
    fov_data: &mut FovData,
    game_map: &GameMap<T>,
    position: IntVector2,
) -> (changes: FovChanges)
    ensures
        final(fov_data).fov_size == old(fov_data).fov_size,
        final(fov_data).seen() == field_of_view::<T>(
            game_map@,
            position,
            old(fov_data).fov_size as int,
        ),
        final(fov_data).current_fov_cells@ == Set::<u64>::empty(),
        changes.visited@.no_duplicates(),
        changes.hidden@.no_duplicates(),
        changes.shown@.no_duplicates(),
        forall|p: IntVector2|
            changes.visited@.contains(p) <==> newly_visited::<T>(
                game_map@,
                position,
                old(fov_data).fov_size as int,
            ).contains(p),
        forall|p: IntVector2|
            changes.hidden@.contains(p) <==> (old(fov_data).seen().contains(p) && !in_sight::<T>(
                game_map@,
                position,
                old(fov_data).fov_size as int,
                p,
            )),
        forall|p: IntVector2|
            changes.shown@.contains(p) <==> (!old(fov_data).seen().contains(p) && in_sight::<T>(
                game_map@,
                position,
                old(fov_data).fov_size as int,
                p,
            )),
{
    let radius: i64 = fov_data.fov_size as i64;
    let ghost reach = radius as int;
    let ghost m = game_map@;
    fov_data.current_fov_cells.clear();
    let mut walls: HashSet<u64> = HashSet::new();
    let mut visited: Vec<IntVector2> = Vec::new();
    let mut i: i64 = -radius;
    while i <= radius
        invariant
            reach == radius,
            reach == old(fov_data).fov_size,
            i32::MIN <= reach <= i32::MAX,
            game_map@ == m,
            fov_data.fov_size == old(fov_data).fov_size,
            fov_data.fov_cells == old(fov_data).fov_cells,
            -reach <= i,
            reach >= 0 ==> i <= reach + 1,
            visited@.no_duplicates(),
            forall|p: IntVector2|
                #![trigger visited@.contains(p)]
                #![trigger fov_data.current_fov_cells@.contains(encoded(p))]
                #![trigger walls@.contains(encoded(p))]
                visited@.contains(p) <==> ((fov_data.current_fov_cells@.contains(encoded(p))
                    || walls@.contains(encoded(p))) && is_unvisited::<T>(m, p)),
            forall|p: IntVector2|
                #![trigger fov_data.current_fov_cells@.contains(encoded(p))]
                fov_data.current_fov_cells@.contains(encoded(p)) ==> lets_sight_through::<T>(m, p),
            forall|p: IntVector2|
                #![trigger walls@.contains(encoded(p))]
                walls@.contains(encoded(p)) ==> stops_sight::<T>(m, p),
            forall|p: IntVector2|
                #![trigger fov_data.current_fov_cells@.contains(encoded(p))]
                fov_data.current_fov_cells@.contains(encoded(p)) <==> ring_reaches(
                    position,
                    reach,
                    i as int,
                    -reach,
                    |t: IntVector2, q: IntVector2| seen_along::<T>(m, line_cells(position, t), q),
                    p,
                ),
            forall|p: IntVector2|
                #![trigger walls@.contains(encoded(p))]
                walls@.contains(encoded(p)) <==> ring_reaches(
                    position,
                    reach,
                    i as int,
                    -reach,
                    |t: IntVector2, q: IntVector2| stopped_at::<T>(m, line_cells(position, t), q),
                    p,
                ),
        decreases radius + 1 - i,
    {
        let mut j: i64 = -radius;
        while j <= radius
            invariant
                reach == radius,
                0 <= reach <= i32::MAX,
                    game_map@ == m,
                fov_data.fov_size == old(fov_data).fov_size,
                fov_data.fov_cells == old(fov_data).fov_cells,
                -reach <= i <= reach,
                -reach <= j <= reach + 1,
                visited@.no_duplicates(),
                forall|p: IntVector2|
                    #![trigger visited@.contains(p)]
                    #![trigger fov_data.current_fov_cells@.contains(encoded(p))]
                    #![trigger walls@.contains(encoded(p))]
                    visited@.contains(p) <==> ((fov_data.current_fov_cells@.contains(encoded(p))
                        || walls@.contains(encoded(p))) && is_unvisited::<T>(m, p)),
                forall|p: IntVector2|
                    #![trigger fov_data.current_fov_cells@.contains(encoded(p))]
                    fov_data.current_fov_cells@.contains(encoded(p)) ==> lets_sight_through::<T>(
                        m,
                        p,
                    ),
                forall|p: IntVector2|
                    #![trigger walls@.contains(encoded(p))]
                    walls@.contains(encoded(p)) ==> stops_sight::<T>(m, p),
                forall|p: IntVector2|
                    #![trigger fov_data.current_fov_cells@.contains(encoded(p))]
                    fov_data.current_fov_cells@.contains(encoded(p)) <==> ring_reaches(
                        position,
                        reach,
                        i as int,
                        j as int,
                        |t: IntVector2, q: IntVector2|
                            seen_along::<T>(m, line_cells(position, t), q),
                        p,
                    ),
                forall|p: IntVector2|
                    #![trigger walls@.contains(encoded(p))]
                    walls@.contains(encoded(p)) <==> ring_reaches(
                        position,
                        reach,
                        i as int,
                        j as int,
                        |t: IntVector2, q: IntVector2|
                            stopped_at::<T>(m, line_cells(position, t), q),
                        p,
                    ),
            decreases radius + 1 - j,
        {
            let ghost lit_before = fov_data.current_fov_cells@;
            let ghost walls_before = walls@;
            let x: i64 = position.x as i64 + i;
            let y: i64 = position.y as i64 + j;
            let on_border = (i == radius || i == -radius || j == radius || j == -radius)
                && i32::MIN as i64 <= x && x <= i32::MAX as i64 && i32::MIN as i64 <= y && y
                <= i32::MAX as i64;
            if on_border {
                let target = IntVector2::new(x as i32, y as i32);
                cast_ray(
                    &mut fov_data.current_fov_cells,
                    &mut walls,
                    &mut visited,
                    game_map,
                    position,
                    target,
                );
            }
            proof {
                let seen = |t: IntVector2, p: IntVector2|
                    seen_along::<T>(m, line_cells(position, t), p);
                let stopped = |t: IntVector2, p: IntVector2|
                    stopped_at::<T>(m, line_cells(position, t), p);
                lemma_ring_step(
                    position,
                    reach,
                    i as int,
                    j as int,
                    on_border,
                    lit_before,
                    fov_data.current_fov_cells@,
                    seen,
                );
                lemma_ring_step(
                    position,
                    reach,
                    i as int,
                    j as int,
                    on_border,
                    walls_before,
                    walls@,
                    stopped,
                );
            }
            j = j + 1;
        }
        proof {
            let seen = |t: IntVector2, p: IntVector2|
                seen_along::<T>(m, line_cells(position, t), p);
            let stopped = |t: IntVector2, p: IntVector2|
                stopped_at::<T>(m, line_cells(position, t), p);
            lemma_ring_column(position, reach, i as int, fov_data.current_fov_cells@, seen);
            lemma_ring_column(position, reach, i as int, walls@, stopped);
        }
        i = i + 1;
    }
    proof {
        let seen = |t: IntVector2, p: IntVector2| seen_along::<T>(m, line_cells(position, t), p);
        let stopped = |t: IntVector2, p: IntVector2|
            stopped_at::<T>(m, line_cells(position, t), p);
        lemma_ring_done(position, reach, i as int, fov_data.current_fov_cells@, seen);
        lemma_ring_done(position, reach, i as int, walls@, stopped);
        assert forall|p: IntVector2|
            fov_data.current_fov_cells@.contains(encoded(p)) <==> in_sight::<T>(
                m,
                position,
                reach,
                p,
            ) by {
            if in_sight::<T>(m, position, reach, p) {
                let t = choose|t: IntVector2| #[trigger]
                    on_ring(position, reach, t) && seen_along::<T>(m, line_cells(position, t), p);
                assert(on_ring(position, reach, t) && seen(t, p));
            }
            if exists|t: IntVector2| #[trigger] on_ring(position, reach, t) && seen(t, p) {
                let t = choose|t: IntVector2| #[trigger] on_ring(position, reach, t) && seen(t, p);
                assert(on_ring(position, reach, t) && seen_along::<T>(
                    m,
                    line_cells(position, t),
                    p,
                ));
            }
        }
        assert forall|p: IntVector2|
            walls@.contains(encoded(p)) <==> outlined::<T>(m, position, reach, p) by {
            if outlined::<T>(m, position, reach, p) {
                let t = choose|t: IntVector2| #[trigger]
                    on_ring(position, reach, t) && stopped_at::<T>(m, line_cells(position, t), p);
                assert(on_ring(position, reach, t) && stopped(t, p));
            }
            if exists|t: IntVector2| #[trigger] on_ring(position, reach, t) && stopped(t, p) {
                let t = choose|t: IntVector2| #[trigger]
                    on_ring(position, reach, t) && stopped(t, p);
                assert(on_ring(position, reach, t) && stopped_at::<T>(
                    m,
                    line_cells(position, t),
                    p,
                ));
            }
        }
    }
    let before = members(&fov_data.fov_cells);
    let hidden = cells_outside(&before, &fov_data.current_fov_cells);
    let now = members(&fov_data.current_fov_cells);
    let shown = cells_outside(&now, &fov_data.fov_cells);
    proof {
        assert forall|p: IntVector2|
            hidden@.contains(p) <==> (old(fov_data).seen().contains(p) && !in_sight::<T>(
                m,
                position,
                reach,
                p,
            )) by {
            assert(before@.contains(encoded(p)) <==> before@.to_set().contains(encoded(p)));
        }
        assert forall|p: IntVector2|
            shown@.contains(p) <==> (!old(fov_data).seen().contains(p) && in_sight::<T>(
                m,
                position,
                reach,
                p,
            )) by {
            assert(now@.contains(encoded(p)) <==> now@.to_set().contains(encoded(p)));
        }
    }
    std::mem::swap(&mut fov_data.fov_cells, &mut fov_data.current_fov_cells);
    fov_data.current_fov_cells.clear();
    assert(fov_data.seen() =~= field_of_view::<T>(m, position, reach));
    FovChanges { visited, hidden, shown }
}

/// Commands change neither which cells hold a tile nor the occlusion of any tile.
pub proof fn lemma_commands_keep_occlusion<T: Tile>(m: Map<IntVector2, T::V>, batch: Seq<MapCommand>)
    ensures
        apply_commands::<T>(m, batch).dom() == m.dom(),
        forall|p: IntVector2|
            m.contains_key(p) ==> T::view_occlusion(#[trigger] apply_commands::<T>(m, batch)[p])
                == T::view_occlusion(m[p]),
    decreases batch.len(),
{
    lemma_commands_keep_domain::<T>(m, batch);
    if batch.len() > 0 {
        lemma_commands_keep_occlusion::<T>(m, batch.drop_last());
        lemma_commands_keep_domain::<T>(m, batch.drop_last());
        let before = apply_commands::<T>(m, batch.drop_last());
        let after = apply_commands::<T>(m, batch);
        assert forall|p: IntVector2| m.contains_key(p) implies T::view_occlusion(#[trigger] after[p])
            == T::view_occlusion(m[p]) by {
            assert(before.contains_key(p));
            match batch.last() {
                MapCommand::SetVisited(q, flag) => {
                    T::lemma_occlusion_is_stable(before[p], flag, 0);
                },
                MapCommand::SetVisible(q, flag) => {
                    T::lemma_occlusion_is_stable(before[p], flag, 0);
                },
                MapCommand::AddItem(q, item) => {
                    T::lemma_occlusion_is_stable(before[p], true, item);
                },
                MapCommand::RemoveItem(q, item) => {
                    T::lemma_occlusion_is_stable(before[p], true, item);
                },
            }
        }
    }
}

/// What a viewer sees does not depend on whether a batch of commands has
/// been applied to the map yet.
pub proof fn lemma_commands_keep_sight<T: Tile>(
    m: Map<IntVector2, T::V>,
    batch: Seq<MapCommand>,
    center: IntVector2,
    radius: int,
)
    ensures
        field_of_view::<T>(apply_commands::<T>(m, batch), center, radius) == field_of_view::<T>(
            m,
            center,
            radius,
        ),
{
    lemma_commands_keep_occlusion::<T>(m, batch);
    lemma_same_sight::<T>(apply_commands::<T>(m, batch), m, center, radius);
}

/// Two maps with tiles at the same cells and with the same occlusion at each
/// give the same field of view and the same outline.
pub proof fn lemma_same_sight<T: Tile>(
    a: Map<IntVector2, T::V>,
    b: Map<IntVector2, T::V>,
    center: IntVector2,
    radius: int,
)
    requires
        a.dom() == b.dom(),
        forall|p: IntVector2|
            a.contains_key(p) ==> T::view_occlusion(#[trigger] a[p]) == T::view_occlusion(b[p]),
    ensures
        forall|c: IntVector2|
            in_sight::<T>(a, center, radius, c) == in_sight::<T>(b, center, radius, c),
        forall|c: IntVector2|
            outlined::<T>(a, center, radius, c) == outlined::<T>(b, center, radius, c),
        field_of_view::<T>(a, center, radius) == field_of_view::<T>(b, center, radius),
{
    assert forall|p: IntVector2|
        lets_sight_through::<T>(a, p) == lets_sight_through::<T>(b, p) && stops_sight::<T>(a, p)
            == stops_sight::<T>(b, p) by {
        assert(a.contains_key(p) == b.contains_key(p));
        if a.contains_key(p) {
            assert(T::view_occlusion(a[p]) == T::view_occlusion(b[p]));
        }
    }
    assert forall|ray: Seq<IntVector2>, n: int|
        clear_before::<T>(a, ray, n) == clear_before::<T>(b, ray, n) by {
        if clear_before::<T>(a, ray, n) {
            assert forall|j: int| 0 <= j < n implies lets_sight_through::<T>(
                b,
                #[trigger] ray[j],
            ) by {
                assert(lets_sight_through::<T>(a, ray[j]));
            }
        }
        if clear_before::<T>(b, ray, n) {
            assert forall|j: int| 0 <= j < n implies lets_sight_through::<T>(
                a,
                #[trigger] ray[j],
            ) by {
                assert(lets_sight_through::<T>(b, ray[j]));
            }
        }
    }
    assert forall|ray: Seq<IntVector2>, c: IntVector2|
        seen_along::<T>(a, ray, c) == seen_along::<T>(b, ray, c) && stopped_at::<T>(a, ray, c)
            == stopped_at::<T>(b, ray, c) by {
        lemma_same_along::<T>(a, b, ray, c);
        lemma_same_along::<T>(b, a, ray, c);
    }
    assert forall|c: IntVector2|
        in_sight::<T>(a, center, radius, c) == in_sight::<T>(b, center, radius, c) by {
        if in_sight::<T>(a, center, radius, c) {
            let t = choose|t: IntVector2| #[trigger]
                on_ring(center, radius, t) && seen_along::<T>(a, line_cells(center, t), c);
            assert(on_ring(center, radius, t) && seen_along::<T>(b, line_cells(center, t), c));
        }
        if in_sight::<T>(b, center, radius, c) {
            let t = choose|t: IntVector2| #[trigger]
                on_ring(center, radius, t) && seen_along::<T>(b, line_cells(center, t), c);
            assert(on_ring(center, radius, t) && seen_along::<T>(a, line_cells(center, t), c));
        }
    }
    assert forall|c: IntVector2|
        outlined::<T>(a, center, radius, c) == outlined::<T>(b, center, radius, c) by {
        if outlined::<T>(a, center, radius, c) {
            let t = choose|t: IntVector2| #[trigger]
                on_ring(center, radius, t) && stopped_at::<T>(a, line_cells(center, t), c);
            assert(on_ring(center, radius, t) && stopped_at::<T>(b, line_cells(center, t), c));
        }
        if outlined::<T>(b, center, radius, c) {
            let t = choose|t: IntVector2| #[trigger]
                on_ring(center, radius, t) && stopped_at::<T>(b, line_cells(center, t), c);
            assert(on_ring(center, radius, t) && stopped_at::<T>(a, line_cells(center, t), c));
        }
    }
    assert(field_of_view::<T>(a, center, radius) =~= field_of_view::<T>(b, center, radius));
}

proof fn lemma_same_along<T: Tile>(
    a: Map<IntVector2, T::V>,
    b: Map<IntVector2, T::V>,
    ray: Seq<IntVector2>,
    c: IntVector2,
)
    requires
        forall|p: IntVector2|
            lets_sight_through::<T>(a, p) == lets_sight_through::<T>(b, p) && stops_sight::<T>(
                a,
                p,
            ) == stops_sight::<T>(b, p),
        forall|n: int| clear_before::<T>(a, ray, n) == clear_before::<T>(b, ray, n),
    ensures
        seen_along::<T>(a, ray, c) ==> seen_along::<T>(b, ray, c),
        stopped_at::<T>(a, ray, c) ==> stopped_at::<T>(b, ray, c),
{
    if seen_along::<T>(a, ray, c) {
        let k = choose|k: int|
            0 <= k < ray.len() && #[trigger] ray[k] == c && clear_before::<T>(a, ray, k + 1);
        assert(clear_before::<T>(b, ray, k + 1));
        assert(0 <= k < ray.len() && ray[k] == c);
    }
    if stopped_at::<T>(a, ray, c) {
        let k = choose|k: int|
            0 <= k < ray.len() && #[trigger] ray[k] == c && stops_sight::<T>(a, c)
                && clear_before::<T>(a, ray, k);
        assert(clear_before::<T>(b, ray, k));
        assert(stops_sight::<T>(b, c));
        assert(0 <= k < ray.len() && ray[k] == c);
    }
}

/// Applying the changes of a scan gives the map that a tick owes.
proof fn lemma_tick_effect<T: Tile>(
    m: Map<IntVector2, T::V>,
    changes: FovChanges,
    marked: Set<IntVector2>,
    previous: Set<IntVector2>,
    seen: Set<IntVector2>,
)
    requires
        changes.visited@.no_duplicates(),
        changes.hidden@.no_duplicates(),
        changes.shown@.no_duplicates(),
        forall|p: IntVector2| changes.visited@.contains(p) <==> marked.contains(p),
        forall|p: IntVector2|
            changes.hidden@.contains(p) <==> (previous.contains(p) && !seen.contains(p)),
        forall|p: IntVector2|
            changes.shown@.contains(p) <==> (!previous.contains(p) && seen.contains(p)),
    ensures
        apply_commands::<T>(m, changes.commands()) == map_after_tick::<T>(
            m,
            marked,
            previous,
            seen,
        ),
{
    let marks = visited_marks(changes.visited@);
    let hides = visibility_marks(changes.hidden@, false);
    let shows = visibility_marks(changes.shown@, true);
    lemma_commands_concat::<T>(m, marks + hides, shows);
    lemma_commands_concat::<T>(m, marks, hides);
    let mark = |v: T::V| T::view_set_visited(v, true);
    let hide = |v: T::V| T::view_set_visible(v, false);
    let show = |v: T::V| T::view_set_visible(v, true);
    lemma_batch_effect::<T>(m, marks, changes.visited@, mark);
    let m1 = apply_commands::<T>(m, marks);
    lemma_batch_effect::<T>(m1, hides, changes.hidden@, hide);
    let m2 = apply_commands::<T>(m1, hides);
    lemma_batch_effect::<T>(m2, shows, changes.shown@, show);
    let m3 = apply_commands::<T>(m2, shows);
    assert(m3 =~= map_after_tick::<T>(m, marked, previous, seen));
}

/// The map after one tick of a viewer at `center` who saw `previous` before,
/// on a map `m` with the commands `staged` waiting: the staged commands are
/// applied first, and the tick reads the map as they leave it.
pub open spec fn map_after_update<T: Tile>(
    m: Map<IntVector2, T::V>,
    staged: Seq<MapCommand>,
    previous: Set<IntVector2>,
    center: IntVector2,
    radius: int,
) -> Map<IntVector2, T::V> {
    let flushed = apply_commands::<T>(m, staged);
    map_after_tick::<T>(
        flushed,
        newly_visited::<T>(flushed, center, radius),
        previous,
        field_of_view::<T>(flushed, center, radius),
    )
}

/// One tick of the field of view: applies the commands already staged in
/// `commands`, casts the rays from `position` over the map as they leave it,
/// and applies the visited marks and the visibility changes that the rays
/// call for. The batch is empty afterwards.
pub fn update_fov<T: Tile>(
    fov_data: &mut FovData,
    game_map: &mut GameMap<T>,
    position: IntVector2,
    commands: &mut MapCommands,
)
    ensures
        final(fov_data).fov_size == old(fov_data).fov_size,
        final(fov_data).seen() == field_of_view::<T>(
            apply_commands::<T>(old(game_map)@, old(commands)@),
            position,
            old(fov_data).fov_size as int,
        ),
        final(fov_data).current_fov_cells@ == Set::<u64>::empty(),
        final(commands)@ == Seq::<MapCommand>::empty(),
        final(game_map).size == old(game_map).size,
        final(game_map)@ == map_after_update::<T>(
            old(game_map)@,
            old(commands)@,
            old(fov_data).seen(),
            position,
            old(fov_data).fov_size as int,
        ),
{
    commands.process_commands(game_map);
    let ghost flushed = game_map@;
    let changes = scan_fov(fov_data, game_map, position);
    changes.stage(commands);
    proof {
        assert(commands@ =~= changes.commands());
        lemma_tick_effect::<T>(
            flushed,
            changes,
            newly_visited::<T>(flushed, position, old(fov_data).fov_size as int),
            old(fov_data).seen(),
            field_of_view::<T>(flushed, position, old(fov_data).fov_size as int),
        );
    }
    commands.process_commands(game_map);
}

/// A second tick from the same place over the map that a first tick left
/// sees the same cells and finds every tile it would mark visited already:
/// it marks, shows and hides nothing, and leaves the map as it is. This holds
/// of every first tick, whatever map it started on.
pub proof fn lemma_second_tick_changes_nothing<T: Tile>(
    m: Map<IntVector2, T::V>,
    previous: Set<IntVector2>,
    center: IntVector2,
    radius: int,
)
    ensures
        ({
            let seen = field_of_view::<T>(m, center, radius);
            let first = map_after_tick::<T>(
                m,
                newly_visited::<T>(m, center, radius),
                previous,
                seen,
            );
            &&& field_of_view::<T>(first, center, radius) == seen
            &&& newly_visited::<T>(first, center, radius) == Set::<IntVector2>::empty()
            &&& map_after_tick::<T>(first, Set::<IntVector2>::empty(), seen, seen) == first
        }),
{
    let seen = field_of_view::<T>(m, center, radius);
    let first = map_after_tick::<T>(m, newly_visited::<T>(m, center, radius), previous, seen);
    assert(first.dom() =~= m.dom());
    assert forall|p: IntVector2| first.contains_key(p) implies T::view_occlusion(
        #[trigger] first[p],
    ) == T::view_occlusion(m[p]) by {
        let v = m[p];
        T::lemma_occlusion_is_stable(v, true, 0);
        T::lemma_occlusion_is_stable(v, false, 0);
        T::lemma_occlusion_is_stable(T::view_set_visited(v, true), true, 0);
        T::lemma_occlusion_is_stable(T::view_set_visited(v, true), false, 0);
    }
    lemma_same_sight::<T>(first, m, center, radius);
    assert forall|p: IntVector2| !newly_visited::<T>(first, center, radius).contains(p) by {
        if (in_sight::<T>(m, center, radius, p) || outlined::<T>(m, center, radius, p))
            && first.contains_key(p) {
            let v = m[p];
            T::lemma_flags_follow_setters(v, true);
            T::lemma_flags_follow_setters(v, false);
            T::lemma_flags_follow_setters(T::view_set_visited(v, true), true);
            T::lemma_flags_follow_setters(T::view_set_visited(v, true), false);
        }
    }
    assert(newly_visited::<T>(first, center, radius) =~= Set::<IntVector2>::empty());
    assert(map_after_tick::<T>(first, Set::<IntVector2>::empty(), seen, seen) =~= first);
}

/// Two ticks in a row: after a tick, whatever commands were staged before
/// it, a second tick from the same place with nothing staged sees what the
/// first saw, has no tile to mark, and leaves the map as the first left it.
pub proof fn lemma_second_update_changes_nothing<T: Tile>(
    m: Map<IntVector2, T::V>,
    staged: Seq<MapCommand>,
    previous: Set<IntVector2>,
    center: IntVector2,
    radius: int,
)
    ensures
        ({
            let flushed = apply_commands::<T>(m, staged);
            let seen = field_of_view::<T>(flushed, center, radius);
            let first = map_after_update::<T>(m, staged, previous, center, radius);
            &&& field_of_view::<T>(
                apply_commands::<T>(first, Seq::<MapCommand>::empty()),
                center,
                radius,
            ) == seen
            &&& newly_visited::<T>(first, center, radius) == Set::<IntVector2>::empty()
            &&& map_after_update::<T>(first, Seq::<MapCommand>::empty(), seen, center, radius)
                == first
        }),
{
    let flushed = apply_commands::<T>(m, staged);
    lemma_second_tick_changes_nothing::<T>(flushed, previous, center, radius);
}

/// Appending an element that a duplicate-free sequence lacks keeps it
/// duplicate-free, and adds just that element.
proof fn lemma_push_new(s: Seq<IntVector2>, p: IntVector2)
    requires
        s.no_duplicates(),
        !s.contains(p),
    ensures
        s.push(p).no_duplicates(),
        forall|q: IntVector2| s.push(p).contains(q) <==> (s.contains(q) || q == p),
{
    let t = s.push(p);
    assert forall|q: IntVector2| t.contains(q) <==> (s.contains(q) || q == p) by {
        if t.contains(q) {
            let i = choose|i: int| 0 <= i < t.len() && t[i] == q;
            if i < s.len() {
                assert(s[i] == q);
            }
        }
        if s.contains(q) {
            let i = choose|i: int| 0 <= i < s.len() && s[i] == q;
            assert(t[i] == q);
        }
        assert(t[s.len() as int] == p);
    }
}

/// The members of a set of keys, each once, in the order the set hands them out.
fn members(set: &HashSet<u64>) -> (r: Vec<u64>)
    ensures
        r@.no_duplicates(),
        r@.to_set() == set@,
{
    let mut out: Vec<u64> = Vec::new();
    let ghost all = set.iter().remaining();
    for key in iter: set.iter()
        invariant
            all == iter.seq(),
            out@.len() == iter.index(),
            forall|i: int| 0 <= i < out@.len() ==> out@[i] == *all[i],
    {
        out.push(*key);
    }
    assert(out@ =~= all.unref());
    out
}

} // verus!
