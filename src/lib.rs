//! A small turn-based grid game core: a generated tile map, an entity store
//! with one table per attribute kind, movement rules and a render pass.

pub mod components;
pub mod game;
pub mod map;
pub mod movement;
pub mod render;
pub mod terminal;
pub mod world;

pub use components::{Entity, EntityConfig, Position, Renderable, Rgb};
pub use map::{map_from_trials, new_map, xy_idx, TileType};
pub use movement::{delta_of, Key};
pub use render::Cell;
pub use world::World;
