//! Procedural voxel terrain: the integer side of a gradient-noise field,
//! chunks of blocks generated from column heights, and a sparse world map
//! that answers point-solidity queries across chunk boundaries.

pub mod noise;
pub mod chunk;
pub mod chunk_map;
