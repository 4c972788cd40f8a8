//! The full generation pipeline: chunk biome assignment, tile grid
//! construction, biome blending and structure filling, run back to back
//! over one random source, plus the session holder the result lives in.

use vstd::prelude::*;
use crate::blend::{blend_biomes, blend_related};
use crate::chunks::assign_chunk_biomes;
use crate::config::{ConfigError, WorldConfig, CHANCE_SCALE, MAX_WORLD_SIZE};
use crate::fill::{fill_related, fill_world};
use crate::grid::{
    biome_at, biome_grid_wf, build_tile_grid, built_tile, chunk_in_bounds, chunk_of,
    lemma_chunk_index_in_range, near_chunk_biome, tile_at, tile_grid_wf,
};
use crate::rng::WorldRng;
use crate::tile::{half_pos, Structure, Tile, TileType};

verus! {

/// Everything a finished generation run guarantees of one tile: its
/// position is determined by its indices alone; it carries a structure only
/// if it is a tree in a chunk recorded as grass — never when the tree
/// chance is zero, and always when that chance is certainty and the chunk
/// is recorded as grass; a chunk recorded as liquid keeps every one of its
/// tiles liquid; and its terrain type is either its own chunk's recorded
/// biome or the recorded biome of a surrounding chunk (the mark of
/// blending).
pub open spec fn generated_tile_ok(
    w: Seq<Vec<Tile>>,
    cb: Seq<Vec<TileType>>,
    cfg: WorldConfig,
    r: int,
    c: int,
) -> bool {
    let t = tile_at(w, r, c);
    let cx = chunk_of(c, cfg.chunk_size as int);
    let cy = chunk_of(r, cfg.chunk_size as int);
    let own = biome_at(cb, cx, cy);
    &&& t.pos.x_half == half_pos(cfg.world_size as int, c)
    &&& t.pos.y_half == half_pos(cfg.world_size as int, r)
    &&& (t.structure == Structure::Empty || (t.structure == Structure::Tree && own
        == TileType::Grass))
    &&& cfg.spawn_tree_chance_ppm == 0 ==> t.structure == Structure::Empty
    &&& (cfg.spawn_tree_chance_ppm >= CHANCE_SCALE && own == TileType::Grass)
        ==> t.structure == Structure::Tree
    &&& own == TileType::Water ==> t.tile_type == TileType::Water
    &&& (t.tile_type == own || near_chunk_biome(cb, cfg.chunk_count(), cx, cy, t.tile_type))
}

/// The full contract of a generation run over both grids.
pub open spec fn world_generated(
    w: Seq<Vec<Tile>>,
    cb: Seq<Vec<TileType>>,
    cfg: WorldConfig,
) -> bool {
    &&& tile_grid_wf(w, cfg.world_size as int)
    &&& biome_grid_wf(cb, cfg.chunk_count())
    &&& forall|r: int, c: int|
        0 <= r < cfg.world_size && 0 <= c < cfg.world_size
            ==> #[trigger] generated_tile_ok(w, cb, cfg, r, c)
    &&& cfg.water_chance_ppm == 0 ==> forall|cx: int, cy: int|
        chunk_in_bounds(cfg.chunk_count(), cx, cy)
            ==> #[trigger] biome_at(cb, cx, cy) != TileType::Water
    &&& cfg.water_chance_ppm >= CHANCE_SCALE ==> forall|cx: int, cy: int|
        chunk_in_bounds(cfg.chunk_count(), cx, cy)
            ==> #[trigger] biome_at(cb, cx, cy) == TileType::Water
}

/// Runs the whole pipeline: rejects an invalid configuration before any
/// generation attempt, then assigns chunk biomes, builds the tile grid,
/// blends it (twice when configured) and scatters structures, returning the
/// tile grid and the chunk biome grid.
pub fn generate_world(cfg: &WorldConfig, rng: &mut WorldRng) -> (r: Result<
    (Vec<Vec<Tile>>, Vec<Vec<TileType>>),
    ConfigError,
>)
    ensures
        match r {
            Ok(grids) => cfg.valid() && world_generated(grids.0@, grids.1@, *cfg),
            Err(ConfigError::ZeroSize) => cfg.world_size == 0 || cfg.chunk_size == 0,
            Err(ConfigError::UnevenChunks) => cfg.world_size > 0 && cfg.chunk_size > 0
                && cfg.world_size % cfg.chunk_size != 0,
            Err(ConfigError::TooLarge) => cfg.world_size > 0 && cfg.chunk_size > 0
                && cfg.world_size % cfg.chunk_size == 0
                && (cfg.world_size > MAX_WORLD_SIZE || cfg.blend_range > MAX_WORLD_SIZE
                    || cfg.potential_biomes_multi > CHANCE_SCALE),
        },
{
    match cfg.validate() {
        Ok(()) => {},
        Err(e) => {
            return Err(e);
        },
    }
    let chunk_biomes = assign_chunk_biomes(cfg, rng);
    let mut world = build_tile_grid(cfg, &chunk_biomes);
    let ghost w1 = world@;
    blend_biomes(&mut world, &chunk_biomes, cfg, rng);
    let ghost w2 = world@;
    fill_world(&mut world, &chunk_biomes, cfg, rng);
    proof {
        assert forall|r: int, c: int|
            0 <= r < cfg.world_size && 0 <= c < cfg.world_size implies #[trigger]
            generated_tile_ok(world@, chunk_biomes@, *cfg, r, c) by {
            lemma_chunk_index_in_range(*cfg, r);
            lemma_chunk_index_in_range(*cfg, c);
            let t1 = tile_at(w1, r, c);
            let t2 = tile_at(w2, r, c);
            let t3 = tile_at(world@, r, c);
            assert(t1 == built_tile(chunk_biomes@, *cfg, r, c));
            assert(t2.pos == t1.pos && t2.structure == t1.structure);
            assert(t1.tile_type == TileType::Water ==> t2 == t1);
            assert(t3.tile_type == t2.tile_type && t3.pos == t2.pos);
            if cfg.spawn_tree_chance_ppm == 0 {
                assert(world@ == w2);
            }
        }
    }
    Ok((world, chunk_biomes))
}

/// Tile positions depend on the size parameters alone: any two generation
/// results under one configuration carry identical position grids, whatever
/// either run drew from its random source.
pub proof fn lemma_position_determinism(
    w1: Seq<Vec<Tile>>,
    cb1: Seq<Vec<TileType>>,
    w2: Seq<Vec<Tile>>,
    cb2: Seq<Vec<TileType>>,
    cfg: WorldConfig,
)
    requires
        cfg.valid(),
        world_generated(w1, cb1, cfg),
        world_generated(w2, cb2, cfg),
    ensures
        forall|r: int, c: int|
            0 <= r < cfg.world_size && 0 <= c < cfg.world_size
                ==> #[trigger] tile_at(w1, r, c).pos == tile_at(w2, r, c).pos,
{
    assert forall|r: int, c: int|
        0 <= r < cfg.world_size && 0 <= c < cfg.world_size implies #[trigger] tile_at(
        w1,
        r,
        c,
    ).pos == tile_at(w2, r, c).pos by {
        assert(generated_tile_ok(w1, cb1, cfg, r, c));
        assert(generated_tile_ok(w2, cb2, cfg, r, c));
    }
}

/// With the liquid chance at zero, a generated world holds no liquid tile
/// at all: no chunk records the liquid biome, and every tile's type is some
/// chunk's recorded biome.
pub proof fn lemma_no_water_without_chance(
    w: Seq<Vec<Tile>>,
    cb: Seq<Vec<TileType>>,
    cfg: WorldConfig,
)
    requires
        cfg.valid(),
        cfg.water_chance_ppm == 0,
        world_generated(w, cb, cfg),
    ensures
        forall|r: int, c: int|
            0 <= r < cfg.world_size && 0 <= c < cfg.world_size
                ==> #[trigger] tile_at(w, r, c).tile_type != TileType::Water,
{
    assert forall|r: int, c: int|
        0 <= r < cfg.world_size && 0 <= c < cfg.world_size implies #[trigger] tile_at(
        w,
        r,
        c,
    ).tile_type != TileType::Water by {
        assert(generated_tile_ok(w, cb, cfg, r, c));
        lemma_chunk_index_in_range(cfg, r);
        lemma_chunk_index_in_range(cfg, c);
        let cx = chunk_of(c, cfg.chunk_size as int);
        let cy = chunk_of(r, cfg.chunk_size as int);
        let t = tile_at(w, r, c).tile_type;
        if t != biome_at(cb, cx, cy) {
            let (dx, dy) = choose|dx: int, dy: int|
                -1 <= dx <= 1 && -1 <= dy <= 1 && !(dx == 0 && dy == 0)
                    && chunk_in_bounds(cfg.chunk_count(), cx + dx, cy + dy)
                    && #[trigger] biome_at(cb, cx + dx, cy + dy) == t;
            assert(biome_at(cb, cx + dx, cy + dy) != TileType::Water);
        }
    }
}

/// The session-lifetime holder of the generated grids: filled by one
/// generation run on a start signal, dropped whole on teardown.
#[derive(Clone, Debug)]
pub struct TheWorld {
    pub world: Vec<Vec<Tile>>,
    pub chunk_biomes: Vec<Vec<TileType>>,
}

impl TheWorld {
    /// Replaces the held grids with freshly generated ones.
    pub fn new(&mut self, world: Vec<Vec<Tile>>, chunk_biomes: Vec<Vec<TileType>>)
        ensures
            final(self).world == world,
            final(self).chunk_biomes == chunk_biomes,
    {
        self.world = world;
        self.chunk_biomes = chunk_biomes;
    }
}

impl Default for TheWorld {
    /// An empty holder: no world is loaded.
    fn default() -> (r: Self)
        ensures
            r.world@ == Seq::<Vec<Tile>>::empty(),
            r.chunk_biomes@ == Seq::<Vec<TileType>>::empty(),
    {
        TheWorld { world: Vec::new(), chunk_biomes: Vec::new() }
    }
}

/// Whether the debug overlay outlining each chunk is drawn; the
/// collaborator flips it on a key press and renders accordingly.
#[derive(Clone, Copy, Debug, PartialEq, Eq, Structural)]
pub enum ChunkLineRenderState {
    Off,
    On,
}

impl ChunkLineRenderState {
    /// The state one press of the toggle key moves to.
    pub fn toggled(self) -> (r: Self)
        ensures
            self == ChunkLineRenderState::Off ==> r == ChunkLineRenderState::On,
            self == ChunkLineRenderState::On ==> r == ChunkLineRenderState::Off,
    {
        match self {
            ChunkLineRenderState::Off => ChunkLineRenderState::On,
            ChunkLineRenderState::On => ChunkLineRenderState::Off,
        }
    }
}

impl Default for ChunkLineRenderState {
    /// Outlines start hidden.
    fn default() -> (r: Self)
        ensures
            r == ChunkLineRenderState::Off,
    {
        ChunkLineRenderState::Off
    }
}

} // verus!
