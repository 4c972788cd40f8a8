//! Structure filling: the final pass. Chunks whose *recorded* biome is the
//! growth-eligible type scatter trees over their tiles with an independent
//! per-tile chance. Eligibility deliberately keys off the chunk's recorded
//! biome, not the tile's possibly-blended terrain type, so a tree can stand
//! on a tile whose terrain blended away from grass.

use vstd::prelude::*;
use crate::config::{WorldConfig, CHANCE_SCALE};
use crate::grid::{
    biome_at, biome_grid_wf, chunk_of, lemma_chunk_index_in_range, lemma_tile_index_from_chunk,
    tile_at, tile_grid_wf,
};
use crate::rng::WorldRng;
use crate::tile::{Structure, Tile, TileType};

verus! {

/// How the fill pass relates the grid before (`pre`) and after (`post`):
/// shapes, terrain types and positions are untouched, and a tile's
/// structure either stays what it was or becomes a tree inside a chunk
/// whose recorded biome is grass.
pub open spec fn fill_related(
    pre: Seq<Vec<Tile>>,
    post: Seq<Vec<Tile>>,
    cb: Seq<Vec<TileType>>,
    cfg: WorldConfig,
) -> bool {
    &&& post.len() == pre.len()
    &&& forall|r: int| 0 <= r < pre.len() ==> (#[trigger] post[r])@.len() == pre[r]@.len()
    &&& forall|r: int, c: int|
        0 <= r < pre.len() && 0 <= c < pre[r]@.len() ==> {
            let old_tile = #[trigger] tile_at(pre, r, c);
            let new_tile = tile_at(post, r, c);
            &&& new_tile.tile_type == old_tile.tile_type
            &&& new_tile.pos == old_tile.pos
            &&& (new_tile.structure == old_tile.structure || (new_tile.structure
                == Structure::Tree && biome_at(
                cb,
                chunk_of(c, cfg.chunk_size as int),
                chunk_of(r, cfg.chunk_size as int),
            ) == TileType::Grass))
        }
}

/// Within chunk `(cx, cy)`, every tile whose local offset lies
/// lexicographically before `(lx, ly)` carries a tree.
spec fn chunk_prefix_treed(
    w: Seq<Vec<Tile>>,
    cfg: WorldConfig,
    cx: int,
    cy: int,
    lx: int,
    ly: int,
) -> bool {
    forall|ax: int, ay: int|
        0 <= ax < cfg.chunk_size && 0 <= ay < cfg.chunk_size && (ax < lx || (ax == lx && ay < ly))
            ==> #[trigger] tile_at(
            w,
            cy * cfg.chunk_size + ay,
            cx * cfg.chunk_size + ax,
        ).structure == Structure::Tree
}

/// Every tile of every grass-recorded chunk lexicographically before
/// `(cx, cy)` carries a tree.
spec fn grass_prefix_treed(
    w: Seq<Vec<Tile>>,
    cb: Seq<Vec<TileType>>,
    cfg: WorldConfig,
    cx: int,
    cy: int,
) -> bool {
    forall|r: int, c: int|
        0 <= r < cfg.world_size && 0 <= c < cfg.world_size
            && (chunk_of(c, cfg.chunk_size as int) < cx || (chunk_of(c, cfg.chunk_size as int)
            == cx && chunk_of(r, cfg.chunk_size as int) < cy)) && biome_at(
            cb,
            chunk_of(c, cfg.chunk_size as int),
            chunk_of(r, cfg.chunk_size as int),
        ) == TileType::Grass ==> #[trigger] tile_at(w, r, c).structure == Structure::Tree
}

/// Scatters trees over one chunk: each of its tiles becomes a tree with
/// chance `spawn_tree_chance_ppm`, independently. Tiles outside the chunk
/// are untouched; inside it only structures change, and only to a tree —
/// every tile at certainty, none at chance zero.
fn fill_chunk(
    world: &mut Vec<Vec<Tile>>,
    cfg: &WorldConfig,
    rng: &mut WorldRng,
    cx: usize,
    cy: usize,
)
    requires
        cfg.valid(),
        tile_grid_wf(old(world)@, cfg.world_size as int),
        cx < cfg.chunk_count(),
        cy < cfg.chunk_count(),
    ensures
        tile_grid_wf(final(world)@, cfg.world_size as int),
        forall|r: int, c: int|
            0 <= r < cfg.world_size && 0 <= c < cfg.world_size ==> {
                let old_tile = #[trigger] tile_at(old(world)@, r, c);
                let new_tile = tile_at(final(world)@, r, c);
                &&& new_tile.tile_type == old_tile.tile_type
                &&& new_tile.pos == old_tile.pos
                &&& (new_tile.structure == old_tile.structure || new_tile.structure
                    == Structure::Tree)
                &&& !(chunk_of(c, cfg.chunk_size as int) == cx && chunk_of(
                    r,
                    cfg.chunk_size as int,
                ) == cy) ==> new_tile == old_tile
            },
        cfg.spawn_tree_chance_ppm == 0 ==> final(world)@ == old(world)@,
        cfg.spawn_tree_chance_ppm >= CHANCE_SCALE ==> forall|r: int, c: int|
            0 <= r < cfg.world_size && 0 <= c < cfg.world_size && chunk_of(
                c,
                cfg.chunk_size as int,
            ) == cx && chunk_of(r, cfg.chunk_size as int) == cy
                ==> #[trigger] tile_at(final(world)@, r, c).structure == Structure::Tree,
{
    let ghost w_in = world@;
    let cs = cfg.chunk_size;
    let mut lx: usize = 0;
    while lx < cs
        invariant
            cfg.valid(),
            cs == cfg.chunk_size,
            cx < cfg.chunk_count(),
            cy < cfg.chunk_count(),
            tile_grid_wf(w_in, cfg.world_size as int),
            lx <= cs,
            world@.len() == w_in.len(),
            forall|r: int| 0 <= r < w_in.len() ==> (#[trigger] world@[r])@.len() == w_in[r]@.len(),
            forall|r: int, c: int|
                0 <= r < cfg.world_size && 0 <= c < cfg.world_size ==> {
                    let old_tile = #[trigger] tile_at(w_in, r, c);
                    let new_tile = tile_at(world@, r, c);
                    &&& new_tile.tile_type == old_tile.tile_type
                    &&& new_tile.pos == old_tile.pos
                    &&& (new_tile.structure == old_tile.structure || new_tile.structure
                        == Structure::Tree)
                    &&& !(chunk_of(c, cfg.chunk_size as int) == cx && chunk_of(
                        r,
                        cfg.chunk_size as int,
                    ) == cy) ==> new_tile == old_tile
                },
            cfg.spawn_tree_chance_ppm == 0 ==> world@ == w_in,
            cfg.spawn_tree_chance_ppm >= CHANCE_SCALE ==> chunk_prefix_treed(
                world@,
                *cfg,
                cx as int,
                cy as int,
                lx as int,
                0,
            ),
        decreases cs - lx,
    {
        let mut ly: usize = 0;
        while ly < cs
            invariant
                cfg.valid(),
                cs == cfg.chunk_size,
                cx < cfg.chunk_count(),
                cy < cfg.chunk_count(),
                tile_grid_wf(w_in, cfg.world_size as int),
                lx < cs,
                ly <= cs,
                world@.len() == w_in.len(),
                forall|r: int|
                    0 <= r < w_in.len() ==> (#[trigger] world@[r])@.len() == w_in[r]@.len(),
                forall|r: int, c: int|
                    0 <= r < cfg.world_size && 0 <= c < cfg.world_size ==> {
                        let old_tile = #[trigger] tile_at(w_in, r, c);
                        let new_tile = tile_at(world@, r, c);
                        &&& new_tile.tile_type == old_tile.tile_type
                        &&& new_tile.pos == old_tile.pos
                        &&& (new_tile.structure == old_tile.structure || new_tile.structure
                            == Structure::Tree)
                        &&& !(chunk_of(c, cfg.chunk_size as int) == cx && chunk_of(
                            r,
                            cfg.chunk_size as int,
                        ) == cy) ==> new_tile == old_tile
                    },
                cfg.spawn_tree_chance_ppm == 0 ==> world@ == w_in,
                cfg.spawn_tree_chance_ppm >= CHANCE_SCALE ==> chunk_prefix_treed(
                    world@,
                    *cfg,
                    cx as int,
                    cy as int,
                    lx as int,
                    ly as int,
                ),
            decreases cs - ly,
        {
            proof {
                lemma_tile_index_from_chunk(*cfg, cx as int, lx as int);
                lemma_tile_index_from_chunk(*cfg, cy as int, ly as int);
            }
            if rng.roll(cfg.spawn_tree_chance_ppm) {
                let wx = cx * cs + lx;
                let wy = cy * cs + ly;
                let ghost w_mid = world@;
                world[wy][wx].structure = Structure::Tree;
                proof {
                    assert forall|r: int, c: int|
                        0 <= r < cfg.world_size && 0 <= c < cfg.world_size
                            && !(r == wy && c == wx) implies tile_at(world@, r, c) == tile_at(
                        w_mid,
                        r,
                        c,
                    ) by {}
                    if cfg.spawn_tree_chance_ppm >= CHANCE_SCALE {
                        assert forall|ax: int, ay: int|
                            0 <= ax < cs && 0 <= ay < cs
                                && (ax < lx || (ax == lx && ay < ly + 1)) implies #[trigger]
                            tile_at(
                            world@,
                            cy as int * cs + ay,
                            cx as int * cs + ax,
                        ).structure == Structure::Tree by {
                            lemma_tile_index_from_chunk(*cfg, cx as int, ax);
                            lemma_tile_index_from_chunk(*cfg, cy as int, ay);
                            if ax == lx && ay == ly {
                            } else {
                                assert(!(cy as int * cs + ay == wy && cx as int * cs + ax == wx));
                                assert(tile_at(world@, cy as int * cs + ay, cx as int * cs + ax)
                                    == tile_at(w_mid, cy as int * cs + ay, cx as int * cs + ax));
                            }
                        }
                    }
                }
            } else {
                proof {
                    if cfg.spawn_tree_chance_ppm >= CHANCE_SCALE {
                        // roll is certain at this chance, so this branch is
                        // unreachable then.
                        assert(false);
                    }
                }
            }
            ly += 1;
        }
        lx += 1;
    }
    proof {
        if cfg.spawn_tree_chance_ppm >= CHANCE_SCALE {
            assert forall|r: int, c: int|
                0 <= r < cfg.world_size && 0 <= c < cfg.world_size && chunk_of(
                    c,
                    cfg.chunk_size as int,
                ) == cx && chunk_of(r, cfg.chunk_size as int) == cy implies #[trigger] tile_at(
                world@,
                r,
                c,
            ).structure == Structure::Tree by {
                let csi = cfg.chunk_size as int;
                vstd::arithmetic::div_mod::lemma_fundamental_div_mod(c, csi);
                vstd::arithmetic::div_mod::lemma_fundamental_div_mod(r, csi);
                vstd::arithmetic::div_mod::lemma_mod_bound(c, csi);
                vstd::arithmetic::div_mod::lemma_mod_bound(r, csi);
                let ax = c % csi;
                let ay = r % csi;
                vstd::arithmetic::mul::lemma_mul_is_commutative(csi, cx as int);
                vstd::arithmetic::mul::lemma_mul_is_commutative(csi, cy as int);
                assert(c == cx as int * csi + ax);
                assert(r == cy as int * csi + ay);
                assert(tile_at(world@, cy as int * csi + ay, cx as int * csi + ax).structure
                    == Structure::Tree);
            }
        }
    }
}

/// Scatters trees over the grid in place: every tile of every chunk whose
/// recorded biome is grass becomes a tree with chance
/// `spawn_tree_chance_ppm`, independently; all other chunks are untouched.
/// At chance zero the grid comes back unchanged; at certainty every tile of
/// every grass-recorded chunk carries a tree.
pub fn fill_world(
    world: &mut Vec<Vec<Tile>>,
    chunk_biomes: &Vec<Vec<TileType>>,
    cfg: &WorldConfig,
    rng: &mut WorldRng,
)
    requires
        cfg.valid(),
        biome_grid_wf(chunk_biomes@, cfg.chunk_count()),
        tile_grid_wf(old(world)@, cfg.world_size as int),
    ensures
        fill_related(old(world)@, final(world)@, chunk_biomes@, *cfg),
        tile_grid_wf(final(world)@, cfg.world_size as int),
        cfg.spawn_tree_chance_ppm == 0 ==> final(world)@ == old(world)@,
        cfg.spawn_tree_chance_ppm >= CHANCE_SCALE ==> forall|r: int, c: int|
            0 <= r < cfg.world_size && 0 <= c < cfg.world_size && biome_at(
                chunk_biomes@,
                chunk_of(c, cfg.chunk_size as int),
                chunk_of(r, cfg.chunk_size as int),
            ) == TileType::Grass ==> #[trigger] tile_at(final(world)@, r, c).structure
                == Structure::Tree,
{
    let ghost w_in = world@;
    let n = cfg.chunks_per_axis();
    let mut cx: usize = 0;
    while cx < n
        invariant
            cfg.valid(),
            n == cfg.chunk_count(),
            biome_grid_wf(chunk_biomes@, n as int),
            tile_grid_wf(w_in, cfg.world_size as int),
            cx <= n,
            fill_related(w_in, world@, chunk_biomes@, *cfg),
            cfg.spawn_tree_chance_ppm == 0 ==> world@ == w_in,
            cfg.spawn_tree_chance_ppm >= CHANCE_SCALE ==> grass_prefix_treed(
                world@,
                chunk_biomes@,
                *cfg,
                cx as int,
                0,
            ),
        decreases n - cx,
    {
        let mut cy: usize = 0;
        while cy < n
            invariant
                cfg.valid(),
                n == cfg.chunk_count(),
                biome_grid_wf(chunk_biomes@, n as int),
                tile_grid_wf(w_in, cfg.world_size as int),
                cx < n,
                cy <= n,
                fill_related(w_in, world@, chunk_biomes@, *cfg),
                cfg.spawn_tree_chance_ppm == 0 ==> world@ == w_in,
                cfg.spawn_tree_chance_ppm >= CHANCE_SCALE ==> grass_prefix_treed(
                    world@,
                    chunk_biomes@,
                    *cfg,
                    cx as int,
                    cy as int,
                ),
            decreases n - cy,
        {
            if chunk_biomes[cx][cy] == TileType::Grass {
                let ghost w_mid = world@;
                fill_chunk(world, cfg, rng, cx, cy);
                proof {
                    assert forall|r: int, c: int|
                        0 <= r < w_in.len() && 0 <= c < w_in[r]@.len() implies {
                        let old_tile = #[trigger] tile_at(w_in, r, c);
                        let new_tile = tile_at(world@, r, c);
                        &&& new_tile.tile_type == old_tile.tile_type
                        &&& new_tile.pos == old_tile.pos
                        &&& (new_tile.structure == old_tile.structure || (new_tile.structure
                            == Structure::Tree && biome_at(
                            chunk_biomes@,
                            chunk_of(c, cfg.chunk_size as int),
                            chunk_of(r, cfg.chunk_size as int),
                        ) == TileType::Grass))
                    } by {
                        assert(tile_at(w_mid, r, c).pos == tile_at(w_in, r, c).pos);
                        if tile_at(world@, r, c) != tile_at(w_mid, r, c) {
                            assert(chunk_of(c, cfg.chunk_size as int) == cx && chunk_of(
                                r,
                                cfg.chunk_size as int,
                            ) == cy);
                        }
                    }
                    if cfg.spawn_tree_chance_ppm >= CHANCE_SCALE {
                        assert forall|r: int, c: int|
                            0 <= r < cfg.world_size && 0 <= c < cfg.world_size
                                && (chunk_of(c, cfg.chunk_size as int) < cx || (chunk_of(
                                c,
                                cfg.chunk_size as int,
                            ) == cx && chunk_of(r, cfg.chunk_size as int) < cy + 1)) && biome_at(
                                chunk_biomes@,
                                chunk_of(c, cfg.chunk_size as int),
                                chunk_of(r, cfg.chunk_size as int),
                            ) == TileType::Grass implies #[trigger] tile_at(
                            world@,
                            r,
                            c,
                        ).structure == Structure::Tree by {
                            if chunk_of(c, cfg.chunk_size as int) == cx && chunk_of(
                                r,
                                cfg.chunk_size as int,
                            ) == cy {
                            } else {
                                assert(tile_at(world@, r, c) == tile_at(w_mid, r, c));
                                assert(tile_at(w_mid, r, c).structure == Structure::Tree);
                            }
                        }
                    }
                }
            } else {
                proof {
                    if cfg.spawn_tree_chance_ppm >= CHANCE_SCALE {
                        assert forall|r: int, c: int|
                            0 <= r < cfg.world_size && 0 <= c < cfg.world_size
                                && (chunk_of(c, cfg.chunk_size as int) < cx || (chunk_of(
                                c,
                                cfg.chunk_size as int,
                            ) == cx && chunk_of(r, cfg.chunk_size as int) < cy + 1)) && biome_at(
                                chunk_biomes@,
                                chunk_of(c, cfg.chunk_size as int),
                                chunk_of(r, cfg.chunk_size as int),
                            ) == TileType::Grass implies #[trigger] tile_at(
                            world@,
                            r,
                            c,
                        ).structure == Structure::Tree by {
                            assert(!(chunk_of(c, cfg.chunk_size as int) == cx && chunk_of(
                                r,
                                cfg.chunk_size as int,
                            ) == cy));
                        }
                    }
                }
            }
            cy += 1;
        }
        proof {
            if cfg.spawn_tree_chance_ppm >= CHANCE_SCALE {
                assert forall|r: int, c: int|
                    0 <= r < cfg.world_size && 0 <= c < cfg.world_size
                        && (chunk_of(c, cfg.chunk_size as int) < cx + 1 || (chunk_of(
                        c,
                        cfg.chunk_size as int,
                    ) == cx + 1 && chunk_of(r, cfg.chunk_size as int) < 0)) && biome_at(
                        chunk_biomes@,
                        chunk_of(c, cfg.chunk_size as int),
                        chunk_of(r, cfg.chunk_size as int),
                    ) == TileType::Grass implies #[trigger] tile_at(world@, r, c).structure
                    == Structure::Tree by {
                    lemma_chunk_index_in_range(*cfg, c);
                    lemma_chunk_index_in_range(*cfg, r);
                }
            }
        }
        cx += 1;
    }
    proof {
        if cfg.spawn_tree_chance_ppm >= CHANCE_SCALE {
            assert forall|r: int, c: int|
                0 <= r < cfg.world_size && 0 <= c < cfg.world_size && biome_at(
                    chunk_biomes@,
                    chunk_of(c, cfg.chunk_size as int),
                    chunk_of(r, cfg.chunk_size as int),
                ) == TileType::Grass implies #[trigger] tile_at(world@, r, c).structure
                == Structure::Tree by {
                lemma_chunk_index_in_range(*cfg, c);
                lemma_chunk_index_in_range(*cfg, r);
            }
        }
    }
}

} // verus!
