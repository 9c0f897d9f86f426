//! Spatial substrate of a turn-based dungeon crawler: character identities,
//! the partitioned character store, tile grids with occupancy, map assembly
//! from generated layouts, and the stairs that link floors.

pub mod builder;
pub mod chara;
pub mod geom;
pub mod map;
pub mod rng;
pub mod script;
pub mod shop;
