//! The tile data model: terrain types, structures, positions and tiles.

use vstd::prelude::*;

verus! {

/// Terrain classification of a tile (and, at chunk granularity, a biome).
/// `Water` is the one liquid type: it is exempt from blending and is not a
/// spawnable biome seed.
#[derive(Clone, Copy, Debug, PartialEq, Eq, Structural)]
pub enum TileType {
    Ground,
    Thud,
    Grass,
    Water,
}

/// A point feature placed on top of a tile; `Empty` means the tile is bare.
#[derive(Clone, Copy, Debug, PartialEq, Eq, Structural)]
pub enum Structure {
    Tree,
    Empty,
}

/// A tile's 2D world-space coordinate, stored in half-tile units so that it
/// stays exact: the pixel coordinate is `x_half * TILE_SIZE / 2` per axis.
/// With tile centers offset by half a tile from the grid lines, half-tile
/// units are the coarsest exact integer representation.
#[derive(Clone, Copy, Debug, PartialEq, Eq, Structural)]
pub struct Position {
    pub x_half: i32,
    pub y_half: i32,
}

/// The atomic unit of the world grid.
#[derive(Clone, Copy, Debug, PartialEq, Eq, Structural)]
pub struct Tile {
    pub tile_type: TileType,
    pub pos: Position,
    pub structure: Structure,
}

/// True of the terrain types that may seed a chunk's biome: everything but
/// the liquid type.
pub open spec fn is_spawnable(t: TileType) -> bool {
    t != TileType::Water
}

/// World-space coordinate, in half-tile units, of the tile at grid index
/// `idx` along one axis: the grid is centered on the origin and tile centers
/// sit half a tile past the grid line, so the coordinate is
/// `(idx - world_size / 2 + 1/2) * TILE_SIZE`, i.e. `2*idx - world_size + 1`
/// half-tiles.
pub open spec fn half_pos(world_size: int, idx: int) -> int {
    2 * idx - world_size + 1
}

/// Runtime test for `is_spawnable`.
pub fn spawnable(t: TileType) -> (r: bool)
    ensures
        r == is_spawnable(t),
{
    t != TileType::Water
}

/// The biomes that may seed a chunk, in their fixed order.
pub fn spawnable_biomes() -> (v: Vec<TileType>)
    ensures
        v@ =~= seq![TileType::Ground, TileType::Thud, TileType::Grass],
        forall|i: int| 0 <= i < v@.len() ==> is_spawnable(#[trigger] v@[i]),
{
    let mut v: Vec<TileType> = Vec::new();
    v.push(TileType::Ground);
    v.push(TileType::Thud);
    v.push(TileType::Grass);
    v
}

/// Every terrain type, in its fixed order: the spawnable biomes followed by
/// the liquid type.
pub fn all_biomes() -> (v: Vec<TileType>)
    ensures
        v@ =~= seq![TileType::Ground, TileType::Thud, TileType::Grass, TileType::Water],
{
    let mut v: Vec<TileType> = Vec::new();
    v.push(TileType::Ground);
    v.push(TileType::Thud);
    v.push(TileType::Grass);
    v.push(TileType::Water);
    v
}

impl Default for Position {
    /// The origin.
    fn default() -> (r: Self)
        ensures
            r == (Position { x_half: 0, y_half: 0 }),
    {
        Position { x_half: 0, y_half: 0 }
    }
}

impl Default for Structure {
    /// A bare tile.
    fn default() -> (r: Self)
        ensures
            r == Structure::Empty,
    {
        Structure::Empty
    }
}

impl Default for Tile {
    /// A bare grass tile at the origin.
    fn default() -> (r: Self)
        ensures
            r == (Tile {
                tile_type: TileType::Grass,
                pos: Position { x_half: 0, y_half: 0 },
                structure: Structure::Empty,
            }),
    {
        Tile {
            tile_type: TileType::Grass,
            pos: Position { x_half: 0, y_half: 0 },
            structure: Structure::Empty,
        }
    }
}

} // verus!
