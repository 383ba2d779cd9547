//! The world of the game: a floor, walls painted from a noise field, and rooms.

use vstd::prelude::*;
use crate::extent::IntExtent2;
use crate::map::builder::{stamped, FillWithFloorBuilderAlgo, MapBuilder, MapBuilderAlgorithm};
use crate::map::noise_builder::{chosen_name, painted, BuilderAlgoWithNoise};
use crate::map::room::Room;
use crate::map::room_builder::{
    is_candidate,
    rooms_stamped,
    selected_rooms,
    RoomBuilder,
    DEFAULT_ROOM_ATTEMPTS,
};
use crate::map::GameMap;
use crate::tiles::{TestTile, TestTileView, TileKind};
use crate::vector::IntVector2;

verus! {

/// What generation publishes beside the map: the rooms it placed.
#[derive(Debug, Clone, Default)]
pub struct LevelData {
    pub rooms: Vec<Room>,
}

/// Left column and top row of the region that the world is meant to cover.
pub const WORLD_ORIGIN: i32 = -100;

/// Left column and top row of the square of floor.
pub const FLOOR_ORIGIN: i32 = -10;

/// The region that the world is meant to cover.
pub open spec fn world_extent() -> IntExtent2 {
    IntExtent2::spec_new(WORLD_ORIGIN, WORLD_ORIGIN, 200, 200)
}

/// The square of floor that the world starts from.
pub open spec fn floor_extent() -> IntExtent2 {
    IntExtent2::spec_new(FLOOR_ORIGIN, FLOOR_ORIGIN, 50, 50)
}

/// The square over which walls are painted from the noise field.
pub open spec fn noise_extent() -> IntExtent2 {
    IntExtent2::spec_new(0, 0, 100, 100)
}

/// A tile of the given kind that has not been seen and holds no item.
pub open spec fn fresh_tile(kind: TileKind) -> TestTileView {
    TestTileView { kind, visited: false, visible: false, items: Seq::empty() }
}

/// The templates of the world: the floor and two kinds of wall.
pub open spec fn world_templates() -> Map<Seq<char>, TestTileView> {
    Map::<Seq<char>, TestTileView>::empty().insert("floor"@, fresh_tile(TileKind::Floor)).insert(
        "wall"@,
        fresh_tile(TileKind::Wall("wall")),
    ).insert("wall2"@, fresh_tile(TileKind::Wall("wall2")))
}

/// The three names of the templates stand for the three templates.
pub proof fn lemma_world_templates()
    ensures
        world_templates().dom() == set!["floor"@, "wall"@, "wall2"@],
        world_templates()["floor"@] == fresh_tile(TileKind::Floor),
        world_templates()["wall"@] == fresh_tile(TileKind::Wall("wall")),
        world_templates()["wall2"@] == fresh_tile(TileKind::Wall("wall2")),
{
    reveal_strlit("floor");
    reveal_strlit("wall");
    reveal_strlit("wall2");
    assert("floor"@.len() != "wall"@.len());
    assert("wall2"@.len() != "wall"@.len());
    assert("floor"@[0] != "wall2"@[0]);
    assert(world_templates().dom() =~= set!["floor"@, "wall"@, "wall2"@]);
}

/// The world that the choices made of the noise field and the rooms placed
/// give: the square of floor, painted where a template was chosen, with the
/// rooms stamped on it.
pub open spec fn world_map(choices: Seq<Option<String>>, rooms: Seq<Room>) -> Map<
    IntVector2,
    TestTileView,
> {
    rooms_stamped(
        painted(
            stamped(
                Map::<IntVector2, TestTileView>::empty(),
                Set::new(|p: IntVector2| floor_extent().spec_contains(p.x as int, p.y as int)),
                world_templates()["floor"@],
            ),
            noise_extent(),
            choices,
            world_templates(),
            Set::<IntVector2>::full(),
        ),
        rooms,
        world_templates()["wall"@],
        world_templates()["floor"@],
    )
}

/// `choices` holds one choice for each cell of the noise square, and each
/// chosen name is that of a template of the world.
pub open spec fn are_world_choices(choices: Seq<Option<String>>) -> bool {
    &&& choices.len() == 100 * 100
    &&& forall|k: int|
        0 <= k < choices.len() && (#[trigger] chosen_name(choices, k)).is_some()
            ==> world_templates().contains_key(chosen_name(choices, k).unwrap())
}

/// Generates the world: fills the square of floor, paints the noise square
/// by `choices` (one per cell, column by column; `None` leaves the cell as it
/// is), places rooms at random, and hands out the map with the rooms placed.
pub fn generate_world_map(choices: Vec<Option<String>>) -> (world: (GameMap<TestTile>, LevelData))
    requires
        are_world_choices(choices@),
    ensures
        exists|candidates: Seq<Room>|
            {
                &&& candidates.len() == DEFAULT_ROOM_ATTEMPTS
                &&& forall|i: int|
                    0 <= i < candidates.len() ==> is_candidate(
                        world_extent(),
                        #[trigger] candidates[i],
                    )
                &&& world.1.rooms@ == #[trigger] selected_rooms(candidates)
            },
        world.0@ == world_map(choices@, world.1.rooms@),
{
    proof {
        IntExtent2::lemma_spec_new(WORLD_ORIGIN, WORLD_ORIGIN, 200, 200);
        IntExtent2::lemma_spec_new(FLOOR_ORIGIN, FLOOR_ORIGIN, 50, 50);
        IntExtent2::lemma_spec_new(0, 0, 100, 100);
        lemma_world_templates();
    }
    let mut map_builder = MapBuilder::<TestTile>::new(
        IntExtent2::new(WORLD_ORIGIN, WORLD_ORIGIN, 200, 200),
    );
    map_builder.add_tile("floor".to_owned(), TestTile::new(TileKind::Floor));
    map_builder.add_tile("wall".to_owned(), TestTile::new(TileKind::Wall("wall")));
    map_builder.add_tile("wall2".to_owned(), TestTile::new(TileKind::Wall("wall2")));
    assert(map_builder.tiles@ == world_templates());
    let fill = FillWithFloorBuilderAlgo::new(
        IntExtent2::new(FLOOR_ORIGIN, FLOOR_ORIGIN, 50, 50),
        "floor",
    );
    let noise = BuilderAlgoWithNoise::new(choices, IntExtent2::new(0, 0, 100, 100));
    let rooms = RoomBuilder::new();
    let game_map = map_builder.build_step(&fill).build_step(&noise).build_step(&rooms).build();
    let level_data = LevelData { rooms: map_builder.rooms.clone() };
    assert(level_data.rooms@ =~= map_builder.rooms@);
    (game_map, level_data)
}

} // verus!
