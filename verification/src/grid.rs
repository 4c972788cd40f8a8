//! The two grids of a generated world — the tile grid and the chunk biome
//! grid — and the spec vocabulary shared by every generation pass.

use vstd::prelude::*;
use crate::config::WorldConfig;
use crate::tile::{half_pos, Position, Structure, Tile, TileType};

verus! {

/// A square tile grid of edge `n`, indexed `[row][col]`.
pub open spec fn tile_grid_wf(w: Seq<Vec<Tile>>, n: int) -> bool {
    &&& w.len() == n
    &&& forall|r: int| 0 <= r < n ==> (#[trigger] w[r])@.len() == n
}

/// A square chunk biome grid of edge `n`, indexed `[chunk_x][chunk_y]`.
pub open spec fn biome_grid_wf(cb: Seq<Vec<TileType>>, n: int) -> bool {
    &&& cb.len() == n
    &&& forall|cx: int| 0 <= cx < n ==> (#[trigger] cb[cx])@.len() == n
}

/// The tile at `[r][c]` of the tile grid.
pub open spec fn tile_at(w: Seq<Vec<Tile>>, r: int, c: int) -> Tile {
    w[r]@[c]
}

/// The recorded biome at `[cx][cy]` of the chunk grid.
pub open spec fn biome_at(cb: Seq<Vec<TileType>>, cx: int, cy: int) -> TileType {
    cb[cx]@[cy]
}

/// The chunk-grid index of the chunk that tile index `idx` falls in.
pub open spec fn chunk_of(idx: int, chunk_size: int) -> int {
    idx / chunk_size
}

/// True when `(cx, cy)` lies inside an `n`-by-`n` chunk grid.
pub open spec fn chunk_in_bounds(n: int, cx: int, cy: int) -> bool {
    0 <= cx < n && 0 <= cy < n
}

/// True when one of the up-to-8 chunks surrounding chunk `(cx, cy)` has `t`
/// as its recorded biome; the chunk itself does not count, and chunks past
/// the grid edge are no neighbors.
pub open spec fn near_chunk_biome(
    cb: Seq<Vec<TileType>>,
    n: int,
    cx: int,
    cy: int,
    t: TileType,
) -> bool {
    exists|dx: int, dy: int|
        -1 <= dx <= 1 && -1 <= dy <= 1 && !(dx == 0 && dy == 0)
            && chunk_in_bounds(n, cx + dx, cy + dy)
            && #[trigger] biome_at(cb, cx + dx, cy + dy) == t
}

/// The tile the generator places at `[r][c]` before blending: terrain from
/// the chunk's recorded biome, position determined by the indices alone, no
/// structure.
pub open spec fn built_tile(cb: Seq<Vec<TileType>>, cfg: WorldConfig, r: int, c: int) -> Tile {
    Tile {
        tile_type: cb[chunk_of(c, cfg.chunk_size as int)]@[chunk_of(r, cfg.chunk_size as int)],
        pos: Position {
            x_half: half_pos(cfg.world_size as int, c) as i32,
            y_half: half_pos(cfg.world_size as int, r) as i32,
        },
        structure: Structure::Empty,
    }
}

/// A tile index is in range exactly when its chunk index is: needed at each
/// chunk-grid lookup.
pub proof fn lemma_chunk_index_in_range(cfg: WorldConfig, idx: int)
    requires
        cfg.valid(),
        0 <= idx < cfg.world_size,
    ensures
        0 <= chunk_of(idx, cfg.chunk_size as int) < cfg.chunk_count(),
{
    let cs = cfg.chunk_size as int;
    let ws = cfg.world_size as int;
    vstd::arithmetic::div_mod::lemma_fundamental_div_mod(ws, cs);
    vstd::arithmetic::div_mod::lemma_multiply_divide_lt(idx, cs, ws / cs);
    vstd::arithmetic::div_mod::lemma_div_pos_is_pos(idx, cs);
}

/// A tile index formed from a chunk index and a local offset is in range
/// and falls back into that chunk.
pub proof fn lemma_tile_index_from_chunk(cfg: WorldConfig, c: int, l: int)
    requires
        cfg.valid(),
        0 <= c < cfg.chunk_count(),
        0 <= l < cfg.chunk_size,
    ensures
        0 <= c * cfg.chunk_size + l < cfg.world_size,
        chunk_of(c * cfg.chunk_size + l, cfg.chunk_size as int) == c,
{
    let cs = cfg.chunk_size as int;
    let ws = cfg.world_size as int;
    let n = cfg.chunk_count();
    vstd::arithmetic::div_mod::lemma_fundamental_div_mod(ws, cs);
    assert(ws == cs * n);
    assert(c * cs + l < ws) by {
        vstd::arithmetic::mul::lemma_mul_inequality(c + 1, n, cs);
        assert((c + 1) * cs == c * cs + cs) by {
            vstd::arithmetic::mul::lemma_mul_is_distributive_add_other_way(cs, c, 1);
        }
        assert(n * cs == cs * n) by {
            vstd::arithmetic::mul::lemma_mul_is_commutative(n, cs);
        }
    }
    vstd::arithmetic::div_mod::lemma_fundamental_div_mod_converse(c * cs + l, cs, c, l);
}

/// Builds the pre-blend tile grid from the recorded chunk biomes: every tile
/// starts with its chunk's biome, its grid-determined position, and no
/// structure. This is the shape- and coherence-establishing step of a
/// generation run; it draws nothing from chance.
pub fn build_tile_grid(cfg: &WorldConfig, chunk_biomes: &Vec<Vec<TileType>>) -> (w: Vec<Vec<Tile>>)
    requires
        cfg.valid(),
        biome_grid_wf(chunk_biomes@, cfg.chunk_count()),
    ensures
        tile_grid_wf(w@, cfg.world_size as int),
        forall|r: int, c: int|
            0 <= r < cfg.world_size && 0 <= c < cfg.world_size
                ==> #[trigger] tile_at(w@, r, c) == built_tile(chunk_biomes@, *cfg, r, c),
{
    let ws = cfg.world_size;
    let mut w: Vec<Vec<Tile>> = Vec::new();
    let mut r: usize = 0;
    while r < ws
        invariant
            cfg.valid(),
            biome_grid_wf(chunk_biomes@, cfg.chunk_count()),
            ws == cfg.world_size,
            r <= ws,
            w@.len() == r,
            forall|rr: int| 0 <= rr < r ==> (#[trigger] w@[rr])@.len() == ws,
            forall|rr: int, cc: int|
                0 <= rr < r && 0 <= cc < ws
                    ==> #[trigger] tile_at(w@, rr, cc) == built_tile(chunk_biomes@, *cfg, rr, cc),
        decreases ws - r,
    {
        let mut row: Vec<Tile> = Vec::new();
        let mut c: usize = 0;
        proof {
            lemma_chunk_index_in_range(*cfg, r as int);
        }
        let cy = r / cfg.chunk_size;
        while c < ws
            invariant
                cfg.valid(),
                biome_grid_wf(chunk_biomes@, cfg.chunk_count()),
                ws == cfg.world_size,
                r < ws,
                cy == chunk_of(r as int, cfg.chunk_size as int),
                0 <= cy < cfg.chunk_count(),
                c <= ws,
                row@.len() == c,
                forall|cc: int|
                    0 <= cc < c ==> row@[cc] == built_tile(chunk_biomes@, *cfg, r as int, cc),
            decreases ws - c,
        {
            proof {
                lemma_chunk_index_in_range(*cfg, c as int);
            }
            let cx = c / cfg.chunk_size;
            let x_half: i32 = 2 * (c as i32) - (ws as i32) + 1;
            let y_half: i32 = 2 * (r as i32) - (ws as i32) + 1;
            let tile = Tile {
                tile_type: chunk_biomes[cx][cy],
                pos: Position { x_half, y_half },
                structure: Structure::Empty,
            };
            row.push(tile);
            c += 1;
        }
        let ghost w0 = w@;
        w.push(row);
        proof {
            assert forall|rr: int, cc: int| 0 <= rr < r + 1 && 0 <= cc < ws implies #[trigger]
                tile_at(w@, rr, cc) == built_tile(chunk_biomes@, *cfg, rr, cc) by {
                if rr < r {
                    assert(tile_at(w0, rr, cc) == built_tile(chunk_biomes@, *cfg, rr, cc));
                }
            }
        }
        r += 1;
    }
    w
}

} // verus!
