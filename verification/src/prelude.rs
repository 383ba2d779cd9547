//! The names most users of the library need, in one place.

pub use crate::action::{
    EntityAction, EntityActionQueue, EntityActivatorFunctionResult, EntityQueue,
};
pub use crate::extent::{IntExtent2, IntExtent2Iterator};
pub use crate::fov::{scan_fov, update_fov, FovChanges, FovData};
pub use crate::grid::{LatticeGrid2D, Plane};
pub use crate::line::bresenham_line;
pub use crate::map::{
    BuilderAlgoWithNoise, FillWithFloorBuilderAlgo, GameMap, MapBuilder, MapBuilderAlgorithm,
    MapCommand, MapCommands, MapVisibleTilesIter, RandomWalkBuilder, Room, RoomBuilder,
    TileCatalog,
};
pub use crate::morton::{PositionDecoder, PositionEncoder};
pub use crate::tile::{
    FovOccluder, ItemContainer, Tile, VisibilityOcclusion, Visible, Visited, Walkable,
};
pub use crate::user_input::KeyInput;
pub use crate::vector::{Dimension2, IntVector2};
