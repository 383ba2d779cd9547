//! Room placement: random candidates, of which those that keep clear of the
//! rooms already placed are stamped on the map.

use vstd::prelude::*;
use crate::map::builder::{stamp_cells, stamped, MapBuilder, MapBuilderAlgorithm};
use crate::map::room::Room;
use crate::tile::Tile;
use crate::vector::IntVector2;

verus! {

/// `room` intersects none of `placed`.
pub open spec fn keeps_clear(room: Room, placed: Seq<Room>) -> bool {
    forall|i: int| 0 <= i < placed.len() ==> !room.spec_intersects(&#[trigger] placed[i])
}

/// The rooms that are placed when `candidates` are tried in order: a
/// candidate is placed if it intersects none of those placed before it.
pub open spec fn selected_rooms(candidates: Seq<Room>) -> Seq<Room>
    decreases candidates.len(),
{
    if candidates.len() == 0 {
        Seq::empty()
    } else {
        let placed = selected_rooms(candidates.drop_last());
        if keeps_clear(candidates.last(), placed) {
            placed.push(candidates.last())
        } else {
            placed
        }
    }
}

/// No two of the selected rooms intersect, and each of them is a candidate.
pub proof fn lemma_selected_rooms_keep_clear(candidates: Seq<Room>)
    ensures
        ({
            let placed = selected_rooms(candidates);
            &&& forall|i: int, j: int|
                #![trigger placed[i], placed[j]]
                0 <= i < j < placed.len() ==> !placed[j].spec_intersects(&placed[i])
            &&& forall|i: int| 0 <= i < placed.len() ==> candidates.contains(#[trigger] placed[i])
            &&& placed.len() <= candidates.len()
        }),
    decreases candidates.len(),
{
    if candidates.len() > 0 {
        let head = candidates.drop_last();
        lemma_selected_rooms_keep_clear(head);
        let placed = selected_rooms(head);
        let all = selected_rooms(candidates);
        assert forall|i: int| 0 <= i < all.len() implies candidates.contains(#[trigger] all[i]) by {
            if i < placed.len() {
                assert(head.contains(placed[i]));
                let k = choose|k: int| 0 <= k < head.len() && head[k] == placed[i];
                assert(candidates[k] == placed[i]);
            } else {
                assert(all[i] == candidates[candidates.len() - 1]);
            }
        }
        assert forall|i: int, j: int|
            #![trigger all[i], all[j]]
            0 <= i < j < all.len() implies !all[j].spec_intersects(&all[i]) by {
            if j < placed.len() {
                assert(!placed[j].spec_intersects(&placed[i]));
            } else {
                assert(keeps_clear(candidates.last(), placed));
                assert(all[i] == placed[i]);
            }
        }
    }
}

/// The cells of `m` after `room` has been stamped: its walls, then its interior.
pub open spec fn room_stamped<V>(m: Map<IntVector2, V>, room: Room, wall: V, floor: V) -> Map<
    IntVector2,
    V,
> {
    stamped(
        stamped(m, room.spec_border_cells().to_set(), wall),
        room.spec_interior_cells().to_set(),
        floor,
    )
}

/// The cells of `m` after `rooms` have been stamped, first to last.
pub open spec fn rooms_stamped<V>(m: Map<IntVector2, V>, rooms: Seq<Room>, wall: V, floor: V) -> Map<
    IntVector2,
    V,
>
    decreases rooms.len(),
{
    if rooms.len() == 0 {
        m
    } else {
        room_stamped(rooms_stamped(m, rooms.drop_last(), wall, floor), rooms.last(), wall, floor)
    }
}

/// Of `candidates`, tried in order, the rooms that intersect none placed before them.
pub fn place_rooms(candidates: &Vec<Room>) -> (placed: Vec<Room>)
    ensures
        placed@ == selected_rooms(candidates@),
{
    let mut placed: Vec<Room> = Vec::new();
    let mut n: usize = 0;
    while n < candidates.len()
        invariant
            n <= candidates.len(),
            placed@ == selected_rooms(candidates@.take(n as int)),
        decreases candidates.len() - n,
    {
        let candidate = candidates[n];
        let mut clear = true;
        let mut i: usize = 0;
        while i < placed.len()
            invariant
                i <= placed.len(),
                clear == keeps_clear(candidate, placed@.take(i as int)),
            decreases placed.len() - i,
        {
            if candidate.intersects(&placed[i]) {
                clear = false;
            }
            proof {
                let before = placed@.take(i as int);
                let after = placed@.take(i + 1);
                assert(after[i as int] == placed@[i as int]);
                assert forall|k: int| 0 <= k < before.len() implies before[k] == after[k] by {}
                if keeps_clear(candidate, after) {
                    assert forall|k: int| 0 <= k < before.len() implies !candidate.spec_intersects(
                        &#[trigger] before[k],
                    ) by {
                        assert(before[k] == after[k]);
                    }
                }
            }
            i = i + 1;
        }
        proof {
            assert(placed@.take(i as int) =~= placed@);
            assert(candidates@.take(n + 1).drop_last() =~= candidates@.take(n as int));
            assert(candidates@.take(n + 1).last() == candidate);
        }
        if clear {
            placed.push(candidate);
        }
        n = n + 1;
    }
    assert(candidates@.take(n as int) =~= candidates@);
    placed
}

/// Stamps `rooms` on the map of `map_builder`, first to last: the walls of
/// each with the template named `wall`, its interior with the one named `floor`.
pub fn stamp_rooms<T: Tile>(map_builder: &mut MapBuilder<T>, rooms: &Vec<Room>, wall: &str, floor: &str)
    requires
        old(map_builder).tiles@.contains_key(wall@),
        old(map_builder).tiles@.contains_key(floor@),
        forall|i: int| 0 <= i < rooms@.len() ==> (#[trigger] rooms@[i]).fits(),
    ensures
        final(map_builder).map@ == rooms_stamped(
            old(map_builder).map@,
            rooms@,
            old(map_builder).tiles@[wall@],
            old(map_builder).tiles@[floor@],
        ),
        final(map_builder).map.size == old(map_builder).map.size,
        final(map_builder).tiles == old(map_builder).tiles,
        final(map_builder).extent == old(map_builder).extent,
        final(map_builder).rooms == old(map_builder).rooms,
{
    let ghost before = map_builder.map@;
    let ghost wall_tile = map_builder.tiles@[wall@];
    let ghost floor_tile = map_builder.tiles@[floor@];
    let mut n: usize = 0;
    while n < rooms.len()
        invariant
            n <= rooms.len(),
            forall|i: int| 0 <= i < rooms@.len() ==> (#[trigger] rooms@[i]).fits(),
            map_builder.tiles == old(map_builder).tiles,
            map_builder.extent == old(map_builder).extent,
            map_builder.rooms == old(map_builder).rooms,
            map_builder.map.size == old(map_builder).map.size,
            map_builder.tiles@.contains_key(wall@),
            map_builder.tiles@.contains_key(floor@),
            wall_tile == map_builder.tiles@[wall@],
            floor_tile == map_builder.tiles@[floor@],
            map_builder.map@ == rooms_stamped(before, rooms@.take(n as int), wall_tile, floor_tile),
        decreases rooms.len() - n,
    {
        let room = rooms[n];
        assert(rooms@[n as int].fits());
        let border = room.border_cells();
        stamp_cells(map_builder, &border, wall);
        let interior = room.interior_cells();
        stamp_cells(map_builder, &interior, floor);
        proof {
            assert(rooms@.take(n + 1).drop_last() =~= rooms@.take(n as int));
            assert(rooms@.take(n + 1).last() == room);
        }
        n = n + 1;
    }
    assert(rooms@.take(n as int) =~= rooms@);
}

/// Number of candidate rooms that room placement tries unless told otherwise.
pub const DEFAULT_ROOM_ATTEMPTS: usize = 30;

/// Smallest width and height of a candidate room.
pub const MIN_ROOM_SIDE: u16 = 5;

/// Width and height that no candidate room reaches.
pub const ROOM_SIDE_LIMIT: u16 = 15;

/// Places rooms by rejection sampling: draws candidates in the builder's
/// extent, keeps each that intersects none of those kept before, stamps the
/// kept rooms and publishes them as the builder's rooms.
#[derive(Debug)]
pub struct RoomBuilder {
    /// Number of candidates to draw.
    pub attempts: usize,
    /// Name of the template for the walls of a room.
    pub wall_name: String,
    /// Name of the template for the interior of a room.
    pub floor_name: String,
}

/// A candidate drawn for a builder with the given extent: its top-left cell
/// lies in the extent and its sides are within the limits.
pub open spec fn is_candidate(builder_extent: crate::extent::IntExtent2, room: Room) -> bool {
    &&& builder_extent.spec_contains(room.x0(), room.y0())
    &&& MIN_ROOM_SIDE <= room.w() < ROOM_SIDE_LIMIT
    &&& MIN_ROOM_SIDE <= room.h() < ROOM_SIDE_LIMIT
}

impl RoomBuilder {
    /// Room placement with `DEFAULT_ROOM_ATTEMPTS` candidates, walls of the
    /// template "wall" and interiors of the template "floor".
    pub fn new() -> (b: Self)
        ensures
            b.attempts == DEFAULT_ROOM_ATTEMPTS,
            b.wall_name@ == "wall"@,
            b.floor_name@ == "floor"@,
    {
        RoomBuilder {
            attempts: DEFAULT_ROOM_ATTEMPTS,
            wall_name: "wall".to_owned(),
            floor_name: "floor".to_owned(),
        }
    }

    /// Draws the candidates for a builder with the given extent.
    pub fn draw_candidates(&self, builder_extent: &crate::extent::IntExtent2) -> (candidates: Vec<Room>)
        requires
            builder_extent.spec_width() > 0,
            builder_extent.spec_height() > 0,
            builder_extent.fits(),
        ensures
            candidates@.len() == self.attempts,
            forall|i: int|
                0 <= i < candidates@.len() ==> is_candidate(
                    *builder_extent,
                    #[trigger] candidates@[i],
                ),
    {
        let mut candidates: Vec<Room> = Vec::new();
        let mut n: usize = 0;
        while n < self.attempts
            invariant
                n <= self.attempts,
                builder_extent.spec_width() > 0,
                builder_extent.spec_height() > 0,
                builder_extent.fits(),
                candidates@.len() == n,
                forall|i: int|
                    0 <= i < candidates@.len() ==> is_candidate(
                        *builder_extent,
                        #[trigger] candidates@[i],
                    ),
            decreases self.attempts - n,
        {
            let room = Room::create_random_in_rect(
                IntVector2::new(builder_extent.left(), builder_extent.top()),
                crate::vector::Dimension2::new(builder_extent.width(), builder_extent.height()),
                (MIN_ROOM_SIDE..ROOM_SIDE_LIMIT, MIN_ROOM_SIDE..ROOM_SIDE_LIMIT),
            );
            candidates.push(room);
            n = n + 1;
        }
        candidates
    }
}

impl Default for RoomBuilder {
    fn default() -> (b: Self)
        ensures
            b.attempts == DEFAULT_ROOM_ATTEMPTS,
            b.wall_name@ == "wall"@,
            b.floor_name@ == "floor"@,
    {
        Self::new()
    }
}

impl<T: Tile> MapBuilderAlgorithm<T> for RoomBuilder {
    open spec fn applies(&self, builder: MapBuilder<T>) -> bool {
        &&& builder.extent.spec_width() > 0
        &&& builder.extent.spec_height() > 0
        &&& builder.extent.right_bound() + ROOM_SIDE_LIMIT <= i32::MAX
        &&& builder.extent.bottom_bound() + ROOM_SIDE_LIMIT <= i32::MAX
        &&& builder.tiles@.contains_key(self.wall_name@)
        &&& builder.tiles@.contains_key(self.floor_name@)
    }

    open spec fn builds(&self, before: MapBuilder<T>, after: MapBuilder<T>) -> bool {
        &&& exists|candidates: Seq<Room>|
            {
                &&& candidates.len() == self.attempts
                &&& forall|i: int|
                    0 <= i < candidates.len() ==> is_candidate(
                        before.extent,
                        #[trigger] candidates[i],
                    )
                &&& after.rooms@ == #[trigger] selected_rooms(candidates)
            }
        &&& after.map@ == rooms_stamped(
            before.map@,
            after.rooms@,
            before.tiles@[self.wall_name@],
            before.tiles@[self.floor_name@],
        )
        &&& after.map.size == before.map.size
        &&& after.tiles == before.tiles
        &&& after.extent == before.extent
    }

    fn build<'a>(&self, map_builder: &'a mut MapBuilder<T>) -> (r: &'a mut MapBuilder<T>) {
        let candidates = self.draw_candidates(&map_builder.extent);
        let placed = place_rooms(&candidates);
        proof {
            lemma_selected_rooms_keep_clear(candidates@);
            assert forall|i: int| 0 <= i < placed@.len() implies (#[trigger] placed@[i]).fits() by {
                assert(candidates@.contains(placed@[i]));
                let k = choose|k: int| 0 <= k < candidates@.len() && candidates@[k] == placed@[i];
                assert(is_candidate(map_builder.extent, candidates@[k]));
            }
        }
        stamp_rooms(map_builder, &placed, self.wall_name.as_str(), self.floor_name.as_str());
        map_builder.rooms = placed;
        assert(map_builder.rooms@ == selected_rooms(candidates@));
        map_builder
    }
}

} // verus!
