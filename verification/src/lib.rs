//! Spatial map engine for a grid-based roguelike: integer geometry, a sparse
//! Morton-keyed lattice, line casting, map generation steps and an incremental
//! field-of-view tracker, all stated and proved with Verus contracts.

pub mod action;
pub mod components;
pub mod events;
pub mod extent;
pub mod fov;
pub mod grid;
pub mod line;
pub mod map;
pub mod morton;
pub mod prelude;
mod random;
pub mod resources;
pub mod sprite;
pub mod systems;
pub mod tile;
pub mod tiles;
pub mod user_input;
pub mod vector;
pub mod weapon;
pub mod world;

pub use extent::{IntExtent2, IntExtent2Iterator};
pub use vector::{Dimension2, IntVector2};
