//! Verified core of the Emergence simulation: hexagonal tile coordinates,
//! per-tile indexes of the game map, hex patches of neighbouring data and the
//! small state machines that drive structures.

pub mod tile;
pub mod hexx_ops;
pub mod collections;
pub mod footprint;
pub mod geometry;
pub mod random;
pub mod map_data;
pub mod hex_patch;
pub mod neighbors;
pub mod map_index;
pub mod pathfinding;
pub mod crafting;
pub mod weather;
pub mod terrain;
pub mod structure_manifest;
pub mod simulation;
pub mod status;
pub mod generation;
pub mod ghosts;
