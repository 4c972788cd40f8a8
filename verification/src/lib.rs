//! Procedural chunk-based world generation with biome blending.
//!
//! A world is a square grid of tiles, partitioned into square chunks. Each
//! chunk is assigned a seed biome by weighted neighbor voting; every tile
//! starts with its chunk's biome, is then probabilistically blended toward
//! the biomes of nearby chunks, and may finally receive a scattered
//! structure (a tree) if its chunk's recorded biome supports growth.
//!
//! Tile positions are exact integers in half-tile units, centered on the
//! origin; the rendering side applies its own pixel scale per tile. All
//! chances are stated in parts per million, and every random draw flows
//! from one explicitly seeded source, so a fixed seed reproduces a run.

pub mod assets;
pub mod blend;
pub mod chunks;
pub mod config;
pub mod fill;
pub mod generate;
pub mod grid;
pub mod rng;
pub mod tile;
