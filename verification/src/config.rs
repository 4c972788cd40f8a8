//! Generation parameters and their validation.

use vstd::prelude::*;

verus! {

/// Default chunk edge length, in tiles.
pub const CHUNK_SIZE: usize = 20;

/// Default world edge length, in tiles: the chunk size scaled by the default
/// 32-pixel tile, rounded up to a multiple of 16.
pub const WORLD_SIZE: usize = (CHUNK_SIZE * 32 + 15) / 16 * 16;

/// Probabilities are stated in parts per million: a field holding `p` means
/// a chance of `p / 1_000_000`.
pub const CHANCE_SCALE: u32 = 1_000_000;

/// How much the blend chance decays, in parts per million, for each tile of
/// distance to the nearest tile of the candidate type: one eighth of
/// certainty per tile.
pub const BLEND_DECAY_PPM: u32 = CHANCE_SCALE / 8;

/// Largest accepted world edge, in tiles. Keeps every index computation and
/// half-tile coordinate comfortably inside the machine integer types.
pub const MAX_WORLD_SIZE: usize = 65536;

/// All parameters of one generation run.
#[derive(Clone, Copy, Debug, PartialEq, Eq, Structural)]
pub struct WorldConfig {
    /// Edge length of the square world, in tiles; a positive multiple of
    /// `chunk_size`, at most `MAX_WORLD_SIZE`.
    pub world_size: usize,
    /// Edge length of a square chunk, in tiles; positive.
    pub chunk_size: usize,
    /// Per-chunk chance of forcing the liquid biome.
    pub water_chance_ppm: u32,
    /// Per-chunk chance of ignoring neighbor influence entirely and picking
    /// a uniformly random spawnable biome.
    pub random_biome_chance_ppm: u32,
    /// Scales the weighted votes a qualifying chunk neighbor contributes:
    /// each casts between 1 and `potential_biomes_multi + 1` votes.
    pub potential_biomes_multi: u32,
    /// Blend chance at distance zero; it decays by `BLEND_DECAY_PPM` per
    /// tile of distance.
    pub base_blend_chance_ppm: u32,
    /// How far along each axis, in tiles, the blender looks for a tile of
    /// the candidate type; at most `MAX_WORLD_SIZE`.
    pub blend_range: usize,
    /// Whether the blender makes a second pass in reversed traversal order,
    /// so influence propagates both ways in one generation call.
    pub double_blend_pass: bool,
    /// Per-tile chance of placing a tree in a growth-eligible chunk.
    pub spawn_tree_chance_ppm: u32,
}

/// Why a configuration was rejected.
#[derive(Clone, Copy, Debug, PartialEq, Eq, Structural)]
pub enum ConfigError {
    /// `world_size` or `chunk_size` is zero.
    ZeroSize,
    /// `chunk_size` does not evenly divide `world_size`.
    UnevenChunks,
    /// `world_size` or `blend_range` exceeds `MAX_WORLD_SIZE`, or
    /// `potential_biomes_multi` exceeds `CHANCE_SCALE`.
    TooLarge,
}

impl WorldConfig {
    /// The well-formedness every generation pass relies on.
    pub open spec fn valid(self) -> bool {
        &&& 0 < self.world_size
        &&& 0 < self.chunk_size
        &&& self.world_size % self.chunk_size == 0
        &&& self.world_size <= MAX_WORLD_SIZE
        &&& self.blend_range <= MAX_WORLD_SIZE
        &&& self.potential_biomes_multi <= CHANCE_SCALE
    }

    /// Edge length of the square chunk grid, in chunks.
    pub open spec fn chunk_count(self) -> int {
        self.world_size as int / self.chunk_size as int
    }

    /// Checks `valid()` at runtime: succeeds exactly on the configurations
    /// it admits, and names what was wrong otherwise.
    pub fn validate(&self) -> (r: Result<(), ConfigError>)
        ensures
            match r {
                Ok(()) => self.valid(),
                Err(ConfigError::ZeroSize) => self.world_size == 0 || self.chunk_size == 0,
                Err(ConfigError::UnevenChunks) => self.world_size > 0 && self.chunk_size > 0
                    && self.world_size % self.chunk_size != 0,
                Err(ConfigError::TooLarge) => self.world_size > 0 && self.chunk_size > 0
                    && self.world_size % self.chunk_size == 0
                    && (self.world_size > MAX_WORLD_SIZE || self.blend_range > MAX_WORLD_SIZE
                        || self.potential_biomes_multi > CHANCE_SCALE),
            },
    {
        if self.world_size == 0 || self.chunk_size == 0 {
            Err(ConfigError::ZeroSize)
        } else if self.world_size % self.chunk_size != 0 {
            Err(ConfigError::UnevenChunks)
        } else if self.world_size > MAX_WORLD_SIZE || self.blend_range > MAX_WORLD_SIZE
            || self.potential_biomes_multi > CHANCE_SCALE {
            Err(ConfigError::TooLarge)
        } else {
            Ok(())
        }
    }

    /// Validates the sizes and bundles the parameters: succeeds exactly on
    /// the configurations that `valid()` admits, and names what was wrong
    /// otherwise.
    pub fn new(
        world_size: usize,
        chunk_size: usize,
        water_chance_ppm: u32,
        random_biome_chance_ppm: u32,
        potential_biomes_multi: u32,
        base_blend_chance_ppm: u32,
        blend_range: usize,
        double_blend_pass: bool,
        spawn_tree_chance_ppm: u32,
    ) -> (r: Result<WorldConfig, ConfigError>)
        ensures
            match r {
                Ok(c) => c == (WorldConfig {
                    world_size,
                    chunk_size,
                    water_chance_ppm,
                    random_biome_chance_ppm,
                    potential_biomes_multi,
                    base_blend_chance_ppm,
                    blend_range,
                    double_blend_pass,
                    spawn_tree_chance_ppm,
                }) && c.valid(),
                Err(ConfigError::ZeroSize) => world_size == 0 || chunk_size == 0,
                Err(ConfigError::UnevenChunks) => world_size > 0 && chunk_size > 0
                    && world_size % chunk_size != 0,
                Err(ConfigError::TooLarge) => world_size > 0 && chunk_size > 0
                    && world_size % chunk_size == 0
                    && (world_size > MAX_WORLD_SIZE || blend_range > MAX_WORLD_SIZE
                        || potential_biomes_multi > CHANCE_SCALE),
            },
    {
        let c = WorldConfig {
            world_size,
            chunk_size,
            water_chance_ppm,
            random_biome_chance_ppm,
            potential_biomes_multi,
            base_blend_chance_ppm,
            blend_range,
            double_blend_pass,
            spawn_tree_chance_ppm,
        };
        match c.validate() {
            Ok(()) => Ok(c),
            Err(e) => Err(e),
        }
    }

    /// Edge length of the square chunk grid, in chunks.
    pub fn chunks_per_axis(&self) -> (n: usize)
        requires
            self.valid(),
        ensures
            n == self.chunk_count(),
            n >= 1,
    {
        proof {
            let w = self.world_size as int;
            let c = self.chunk_size as int;
            assert(w / c >= 1) by (nonlinear_arith)
                requires
                    w > 0,
                    c > 0,
                    w % c == 0,
            ;
        }
        self.world_size / self.chunk_size
    }
}

} // verus!
