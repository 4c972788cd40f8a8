//! Biome blending: the pass that softens hard chunk boundaries. Every
//! non-liquid tile may probabilistically take on the terrain type of a
//! nearby chunk's recorded biome, with a chance that decays linearly with
//! the distance to the nearest tile already of that type.

use vstd::prelude::*;
use crate::config::{WorldConfig, BLEND_DECAY_PPM};
use crate::grid::{
    biome_at, biome_grid_wf, chunk_in_bounds, chunk_of, near_chunk_biome, tile_at, tile_grid_wf,
};
use crate::rng::WorldRng;
use crate::tile::{all_biomes, Tile, TileType};

verus! {

/// A tile of type `t` sits within `range` steps of `(y, x)` along the row
/// axis (the tile itself included when it matches).
pub open spec fn x_within(w: Seq<Vec<Tile>>, y: int, x: int, t: TileType, range: int) -> bool {
    exists|d: int|
        -range <= d <= range && 0 <= x + d < w[y]@.len()
            && #[trigger] tile_at(w, y, x + d).tile_type == t
}

/// A tile of type `t` sits within `range` steps of `(y, x)` along the
/// column axis.
pub open spec fn y_within(w: Seq<Vec<Tile>>, y: int, x: int, t: TileType, range: int) -> bool {
    exists|d: int|
        -range <= d <= range && 0 <= y + d < w.len()
            && #[trigger] tile_at(w, y + d, x).tile_type == t
}

/// A tile of type `t` sits within `range` steps of `(y, x)` along one of
/// the two axes: the proximity a successful blend requires.
pub open spec fn axis_within(w: Seq<Vec<Tile>>, y: int, x: int, t: TileType, range: int) -> bool {
    x_within(w, y, x, t, range) || y_within(w, y, x, t, range)
}

/// The blend chance, in parts per million, for a candidate whose nearest
/// same-type tile is `d` steps away: the base chance minus one decay step
/// per tile of distance, floored at zero.
pub open spec fn spec_blend_chance_ppm(base: u32, d: int) -> int {
    if d * (BLEND_DECAY_PPM as int) < base {
        base - d * (BLEND_DECAY_PPM as int)
    } else {
        0
    }
}

/// Runtime blend chance; `distance` is in tiles, bounded as every in-range
/// blend distance is.
pub fn blend_chance_ppm(base: u32, distance: usize) -> (c: u32)
    requires
        distance <= crate::config::MAX_WORLD_SIZE,
    ensures
        c == spec_blend_chance_ppm(base, distance as int),
{
    let scaled: u64 = (distance as u64) * (BLEND_DECAY_PPM as u64);
    if scaled < base as u64 {
        base - (scaled as u32)
    } else {
        0
    }
}

/// The blend chance decays monotonically with distance: a candidate found
/// farther away never blends with a higher chance than one found nearer.
pub proof fn lemma_blend_chance_monotonic(base: u32, d1: int, d2: int)
    requires
        0 <= d1 <= d2,
    ensures
        spec_blend_chance_ppm(base, d2) <= spec_blend_chance_ppm(base, d1),
{
    vstd::arithmetic::mul::lemma_mul_inequality(d1, d2, BLEND_DECAY_PPM as int);
}

/// The farthest distance at which a blend can succeed at all: it must lie
/// within the scan window, and the chance there must still be positive.
/// Negative when the base chance is zero, since then no distance qualifies.
pub open spec fn blend_reach(cfg: WorldConfig) -> int {
    if cfg.base_blend_chance_ppm == 0 {
        -1
    } else {
        let positive = (cfg.base_blend_chance_ppm - 1) as int / (BLEND_DECAY_PPM as int);
        if positive < cfg.blend_range {
            positive
        } else {
            cfg.blend_range as int
        }
    }
}

/// A distance with a positive blend chance lies within `blend_reach`.
pub proof fn lemma_positive_chance_within_reach(cfg: WorldConfig, d: int)
    requires
        0 <= d <= cfg.blend_range,
        spec_blend_chance_ppm(cfg.base_blend_chance_ppm, d) > 0,
    ensures
        d <= blend_reach(cfg),
{
    let base = cfg.base_blend_chance_ppm as int;
    let decay = BLEND_DECAY_PPM as int;
    assert(d * decay < base);
    assert(d * decay <= base - 1);
    vstd::arithmetic::div_mod::lemma_div_is_ordered(d * decay, base - 1, decay);
    assert((d * decay) / decay == d) by {
        vstd::arithmetic::mul::lemma_mul_is_commutative(d, decay);
        vstd::arithmetic::div_mod::lemma_div_multiples_vanish(d, decay);
    }
}

/// Widening the window preserves axis proximity.
proof fn lemma_axis_within_widen(
    w: Seq<Vec<Tile>>,
    y: int,
    x: int,
    t: TileType,
    r1: int,
    r2: int,
)
    requires
        axis_within(w, y, x, t, r1),
        r1 <= r2,
    ensures
        axis_within(w, y, x, t, r2),
{
    if x_within(w, y, x, t, r1) {
        let d = choose|d: int|
            -r1 <= d <= r1 && 0 <= x + d < w[y]@.len()
                && #[trigger] tile_at(w, y, x + d).tile_type == t;
        assert(-r2 <= d <= r2 && 0 <= x + d < w[y]@.len()
            && tile_at(w, y, x + d).tile_type == t);
    } else {
        let d = choose|d: int|
            -r1 <= d <= r1 && 0 <= y + d < w.len()
                && #[trigger] tile_at(w, y + d, x).tile_type == t;
        assert(-r2 <= d <= r2 && 0 <= y + d < w.len()
            && tile_at(w, y + d, x).tile_type == t);
    }
}

/// The chunk neighborhood of `(cx, cy)` holds no chunk recording `cand`
/// among the neighbors scanned so far: those lexicographically before
/// offset `(dx, dy)`.
spec fn scanned_clear(
    cb: Seq<Vec<TileType>>,
    n: int,
    cx: int,
    cy: int,
    cand: TileType,
    dx: int,
    dy: int,
) -> bool {
    forall|ax: int, ay: int|
        -1 <= ax <= 1 && -1 <= ay <= 1 && !(ax == 0 && ay == 0)
            && (ax < dx || (ax == dx && ay < dy))
            && chunk_in_bounds(n, cx + ax, cy + ay)
            ==> #[trigger] biome_at(cb, cx + ax, cy + ay) != cand
}

/// Whether any of the up-to-8 chunks surrounding `(cx, cy)` records `cand`
/// as its biome; chunks past the grid edge are no neighbors.
fn is_near_desired_chunk(
    cfg: &WorldConfig,
    cb: &Vec<Vec<TileType>>,
    cx: usize,
    cy: usize,
    cand: TileType,
) -> (r: bool)
    requires
        cfg.valid(),
        biome_grid_wf(cb@, cfg.chunk_count()),
        cx < cfg.chunk_count(),
        cy < cfg.chunk_count(),
    ensures
        r == near_chunk_biome(cb@, cfg.chunk_count(), cx as int, cy as int, cand),
{
    let n = cfg.chunks_per_axis();
    let mut dx: i64 = -1;
    while dx <= 1
        invariant
            cfg.valid(),
            n == cfg.chunk_count(),
            biome_grid_wf(cb@, n as int),
            cx < n,
            cy < n,
            -1 <= dx <= 2,
            scanned_clear(cb@, n as int, cx as int, cy as int, cand, dx as int, -1),
        decreases 2 - dx,
    {
        let mut dy: i64 = -1;
        while dy <= 1
            invariant
                cfg.valid(),
                n == cfg.chunk_count(),
                biome_grid_wf(cb@, n as int),
                cx < n,
                cy < n,
                -1 <= dx <= 1,
                -1 <= dy <= 2,
                scanned_clear(cb@, n as int, cx as int, cy as int, cand, dx as int, dy as int),
            decreases 2 - dy,
        {
            if !(dx == 0 && dy == 0) {
                let ncx = cx as i64 + dx;
                let ncy = cy as i64 + dy;
                if 0 <= ncx && ncx < n as i64 && 0 <= ncy && ncy < n as i64 {
                    if cb[ncx as usize][ncy as usize] == cand {
                        proof {
                            assert(biome_at(cb@, cx as int + dx as int, cy as int + dy as int)
                                == cand);
                        }
                        return true;
                    }
                }
            }
            dy += 1;
        }
        dx += 1;
    }
    proof {
        assert(!near_chunk_biome(cb@, n as int, cx as int, cy as int, cand)) by {
            if near_chunk_biome(cb@, n as int, cx as int, cy as int, cand) {
                let (ax, ay) = choose|ax: int, ay: int|
                    -1 <= ax <= 1 && -1 <= ay <= 1 && !(ax == 0 && ay == 0)
                        && chunk_in_bounds(n as int, cx as int + ax, cy as int + ay)
                        && #[trigger] biome_at(cb@, cx as int + ax, cy as int + ay) == cand;
                assert(biome_at(cb@, cx as int + ax, cy as int + ay) != cand);
            }
        }
    }
    false
}

/// No tile of type `t` sits at row-axis offsets `lo..=hi` of `(y, x)`.
spec fn x_clear_between(
    w: Seq<Vec<Tile>>,
    y: int,
    x: int,
    t: TileType,
    lo: int,
    hi: int,
) -> bool {
    forall|d: int|
        lo <= d <= hi && 0 <= x + d < w[y]@.len()
            ==> #[trigger] tile_at(w, y, x + d).tile_type != t
}

/// No tile of type `t` sits at column-axis offsets `lo..=hi` of `(y, x)`.
spec fn y_clear_between(
    w: Seq<Vec<Tile>>,
    y: int,
    x: int,
    t: TileType,
    lo: int,
    hi: int,
) -> bool {
    forall|d: int|
        lo <= d <= hi && 0 <= y + d < w.len()
            ==> #[trigger] tile_at(w, y + d, x).tile_type != t
}

/// Scans the blend window around `(y, x)` along both axes for tiles already
/// of type `cand` and returns the smallest absolute offset at which one
/// sits, or the sentinel `usize::MAX` when the window holds none; the
/// result is within the blend range exactly when such a tile exists.
fn min_axis_distance(
    cfg: &WorldConfig,
    world: &Vec<Vec<Tile>>,
    y: usize,
    x: usize,
    cand: TileType,
) -> (dist: usize)
    requires
        cfg.valid(),
        tile_grid_wf(world@, cfg.world_size as int),
        y < cfg.world_size,
        x < cfg.world_size,
    ensures
        (dist <= cfg.blend_range) == axis_within(
            world@,
            y as int,
            x as int,
            cand,
            cfg.blend_range as int,
        ),
        dist != usize::MAX ==> axis_within(world@, y as int, x as int, cand, dist as int),
{
    let ws = cfg.world_size;
    let range = cfg.blend_range;
    let mut best: usize = usize::MAX;
    let mut d: i64 = -(range as i64);
    while d <= range as i64
        invariant
            cfg.valid(),
            ws == cfg.world_size,
            range == cfg.blend_range,
            tile_grid_wf(world@, ws as int),
            y < ws,
            x < ws,
            -(range as int) <= d <= range as int + 1,
            best == usize::MAX || best <= range,
            best != usize::MAX ==> axis_within(
                world@,
                y as int,
                x as int,
                cand,
                best as int,
            ),
            best == usize::MAX ==> x_clear_between(
                world@,
                y as int,
                x as int,
                cand,
                -(range as int),
                d - 1,
            ),
        decreases range as int + 1 - d,
    {
        let check = x as i64 + d;
        if 0 <= check && check < ws as i64 {
            if world[y][check as usize].tile_type == cand {
                let ad: usize = if d < 0 {
                    (-d) as usize
                } else {
                    d as usize
                };
                proof {
                    assert(tile_at(world@, y as int, x as int + d as int).tile_type == cand);
                    assert(x_within(world@, y as int, x as int, cand, ad as int));
                }
                if ad < best {
                    best = ad;
                }
            }
        }
        d += 1;
    }
    let mut d2: i64 = -(range as i64);
    while d2 <= range as i64
        invariant
            cfg.valid(),
            ws == cfg.world_size,
            range == cfg.blend_range,
            tile_grid_wf(world@, ws as int),
            y < ws,
            x < ws,
            -(range as int) <= d2 <= range as int + 1,
            best == usize::MAX || best <= range,
            best != usize::MAX ==> axis_within(
                world@,
                y as int,
                x as int,
                cand,
                best as int,
            ),
            best == usize::MAX ==> x_clear_between(
                world@,
                y as int,
                x as int,
                cand,
                -(range as int),
                range as int,
            ),
            best == usize::MAX ==> y_clear_between(
                world@,
                y as int,
                x as int,
                cand,
                -(range as int),
                d2 - 1,
            ),
        decreases range as int + 1 - d2,
    {
        let check = y as i64 + d2;
        if 0 <= check && check < ws as i64 {
            if world[check as usize][x].tile_type == cand {
                let ad: usize = if d2 < 0 {
                    (-d2) as usize
                } else {
                    d2 as usize
                };
                proof {
                    assert(tile_at(world@, y as int + d2 as int, x as int).tile_type == cand);
                    assert(y_within(world@, y as int, x as int, cand, ad as int));
                }
                if ad < best {
                    best = ad;
                }
            }
        }
        d2 += 1;
    }
    proof {
        if best == usize::MAX {
            assert(!axis_within(world@, y as int, x as int, cand, range as int)) by {
                if x_within(world@, y as int, x as int, cand, range as int) {
                    let dd = choose|dd: int|
                        -(range as int) <= dd <= range as int
                            && 0 <= x as int + dd < world@[y as int]@.len()
                            && #[trigger] tile_at(world@, y as int, x as int + dd).tile_type
                            == cand;
                    assert(tile_at(world@, y as int, x as int + dd).tile_type != cand);
                }
                if y_within(world@, y as int, x as int, cand, range as int) {
                    let dd = choose|dd: int|
                        -(range as int) <= dd <= range as int
                            && 0 <= y as int + dd < world@.len()
                            && #[trigger] tile_at(world@, y as int + dd, x as int).tile_type
                            == cand;
                    assert(tile_at(world@, y as int + dd, x as int).tile_type != cand);
                }
            }
        } else {
            lemma_axis_within_widen(world@, y as int, x as int, cand, best as int, range as int);
        }
    }
    best
}

/// How one blend step at `(y, x)` relates the grid before (`pre`) and after
/// (`post`): every other tile is untouched; the tile keeps its position and
/// structure; a liquid tile is immune; and when the terrain type did change,
/// the old type was not liquid, the new type is the recorded biome of a
/// chunk surrounding the tile's chunk, and a tile of the new type already
/// sat within the blend range along one axis of `pre` — indeed within
/// `blend_reach`, a distance at which the blend chance is still positive,
/// so a change at a zero-chance distance (or with a zero base chance) is
/// ruled out.
pub open spec fn tile_blended(
    pre: Seq<Vec<Tile>>,
    post: Seq<Vec<Tile>>,
    cb: Seq<Vec<TileType>>,
    cfg: WorldConfig,
    y: int,
    x: int,
) -> bool {
    let old_tile = tile_at(pre, y, x);
    let new_tile = tile_at(post, y, x);
    &&& post.len() == pre.len()
    &&& forall|r: int| 0 <= r < pre.len() ==> (#[trigger] post[r])@.len() == pre[r]@.len()
    &&& forall|r: int, c: int|
        0 <= r < pre.len() && 0 <= c < pre[r]@.len() && !(r == y && c == x)
            ==> #[trigger] tile_at(post, r, c) == tile_at(pre, r, c)
    &&& new_tile.pos == old_tile.pos
    &&& new_tile.structure == old_tile.structure
    &&& old_tile.tile_type == TileType::Water ==> new_tile == old_tile
    &&& new_tile.tile_type != old_tile.tile_type ==> {
        &&& old_tile.tile_type != TileType::Water
        &&& near_chunk_biome(
            cb,
            cfg.chunk_count(),
            chunk_of(x, cfg.chunk_size as int),
            chunk_of(y, cfg.chunk_size as int),
            new_tile.tile_type,
        )
        &&& axis_within(pre, y, x, new_tile.tile_type, cfg.blend_range as int)
        &&& axis_within(pre, y, x, new_tile.tile_type, blend_reach(cfg))
    }
}

/// Tries one candidate type for the tile at `(y, x)`: checks chunk
/// proximity, measures the axis distance to the nearest tile of that type,
/// and on a successful chance draw overwrites the tile's terrain type.
/// Returns whether it overwrote.
fn try_candidate(
    cfg: &WorldConfig,
    world: &mut Vec<Vec<Tile>>,
    cb: &Vec<Vec<TileType>>,
    rng: &mut WorldRng,
    y: usize,
    x: usize,
    cand: TileType,
) -> (changed: bool)
    requires
        cfg.valid(),
        biome_grid_wf(cb@, cfg.chunk_count()),
        tile_grid_wf(old(world)@, cfg.world_size as int),
        y < cfg.world_size,
        x < cfg.world_size,
        cand != tile_at(old(world)@, y as int, x as int).tile_type,
        tile_at(old(world)@, y as int, x as int).tile_type != TileType::Water,
    ensures
        !changed ==> final(world)@ == old(world)@,
        final(world)@.len() == old(world)@.len(),
        forall|r: int|
            0 <= r < old(world)@.len()
                ==> (#[trigger] final(world)@[r])@.len() == old(world)@[r]@.len(),
        forall|r: int, c: int|
            0 <= r < old(world)@.len() && 0 <= c < old(world)@[r]@.len() && !(r == y && c == x)
                ==> #[trigger] tile_at(final(world)@, r, c) == tile_at(old(world)@, r, c),
        changed ==> {
            &&& tile_at(final(world)@, y as int, x as int) == (Tile {
                tile_type: cand,
                pos: tile_at(old(world)@, y as int, x as int).pos,
                structure: tile_at(old(world)@, y as int, x as int).structure,
            })
            &&& near_chunk_biome(
                cb@,
                cfg.chunk_count(),
                chunk_of(x as int, cfg.chunk_size as int),
                chunk_of(y as int, cfg.chunk_size as int),
                cand,
            )
            &&& axis_within(old(world)@, y as int, x as int, cand, cfg.blend_range as int)
            &&& axis_within(old(world)@, y as int, x as int, cand, blend_reach(*cfg))
        },
{
    proof {
        crate::grid::lemma_chunk_index_in_range(*cfg, y as int);
        crate::grid::lemma_chunk_index_in_range(*cfg, x as int);
    }
    let cxc = x / cfg.chunk_size;
    let cyc = y / cfg.chunk_size;
    if is_near_desired_chunk(cfg, cb, cxc, cyc, cand) {
        let dist = min_axis_distance(cfg, world, y, x, cand);
        if dist <= cfg.blend_range {
            let chance = blend_chance_ppm(cfg.base_blend_chance_ppm, dist);
            if rng.roll(chance) {
                proof {
                    // A successful draw means the chance was positive, so the
                    // measured distance lies within the positive-chance reach.
                    lemma_positive_chance_within_reach(*cfg, dist as int);
                    lemma_axis_within_widen(
                        world@,
                        y as int,
                        x as int,
                        cand,
                        dist as int,
                        blend_reach(*cfg),
                    );
                }
                let pos = world[y][x].pos;
                let structure = world[y][x].structure;
                world[y][x] = Tile { tile_type: cand, pos, structure };
                return true;
            }
        }
    }
    false
}

/// One blend step: the tile at `(y, x)` tries every terrain type as a
/// replacement candidate, in a freshly shuffled order, and takes the first
/// that succeeds. A liquid tile is left untouched; position and structure
/// never change; and a change is always toward the recorded biome of a
/// surrounding chunk whose type already sat within the blend range along
/// one axis.
pub fn blend_tile(
    cfg: &WorldConfig,
    world: &mut Vec<Vec<Tile>>,
    chunk_biomes: &Vec<Vec<TileType>>,
    rng: &mut WorldRng,
    y: usize,
    x: usize,
)
    requires
        cfg.valid(),
        biome_grid_wf(chunk_biomes@, cfg.chunk_count()),
        tile_grid_wf(old(world)@, cfg.world_size as int),
        y < cfg.world_size,
        x < cfg.world_size,
    ensures
        tile_blended(old(world)@, final(world)@, chunk_biomes@, *cfg, y as int, x as int),
{
    let ghost w_in = world@;
    let cur = world[y][x].tile_type;
    if cur == TileType::Water {
        return;
    }
    let mut candidates = all_biomes();
    rng.shuffle_types(&mut candidates);
    let clen = candidates.len();
    let mut k: usize = 0;
    while k < clen
        invariant_except_break
            cfg.valid(),
            biome_grid_wf(chunk_biomes@, cfg.chunk_count()),
            tile_grid_wf(w_in, cfg.world_size as int),
            y < cfg.world_size,
            x < cfg.world_size,
            cur == tile_at(w_in, y as int, x as int).tile_type,
            cur != TileType::Water,
            clen == candidates@.len(),
            k <= clen,
            world@ == w_in,
        ensures
            tile_blended(w_in, world@, chunk_biomes@, *cfg, y as int, x as int),
        decreases clen - k,
    {
        let cand = candidates[k];
        if cand != cur {
            let changed = try_candidate(cfg, world, chunk_biomes, rng, y, x, cand);
            if changed {
                break;
            }
        }
        k += 1;
    }
}

/// Outside the blend range the blend succeeds exactly never: a blend step
/// cannot turn a tile into a type of which no tile sat within the blend
/// range along either of its axes.
pub proof fn lemma_no_blend_beyond_range(
    pre: Seq<Vec<Tile>>,
    post: Seq<Vec<Tile>>,
    cb: Seq<Vec<TileType>>,
    cfg: WorldConfig,
    y: int,
    x: int,
    t: TileType,
)
    requires
        tile_blended(pre, post, cb, cfg, y, x),
        tile_at(pre, y, x).tile_type != t,
        !axis_within(pre, y, x, t, cfg.blend_range as int),
    ensures
        tile_at(post, y, x).tile_type != t,
{
}

/// With a zero base chance the blender never changes a tile: no distance
/// has a positive chance, so a blend step leaves the tile exactly as it
/// was.
pub proof fn lemma_no_blend_without_base_chance(
    pre: Seq<Vec<Tile>>,
    post: Seq<Vec<Tile>>,
    cb: Seq<Vec<TileType>>,
    cfg: WorldConfig,
    y: int,
    x: int,
)
    requires
        tile_blended(pre, post, cb, cfg, y, x),
        cfg.base_blend_chance_ppm == 0,
    ensures
        tile_at(post, y, x) == tile_at(pre, y, x),
{
    let t = tile_at(post, y, x).tile_type;
    if t != tile_at(pre, y, x).tile_type {
        let reach = blend_reach(cfg);
        assert(reach == -1);
        assert(axis_within(pre, y, x, t, reach));
        if x_within(pre, y, x, t, reach) {
            let d = choose|d: int|
                -reach <= d <= reach && 0 <= x + d < pre[y]@.len()
                    && #[trigger] tile_at(pre, y, x + d).tile_type == t;
            assert(false);
        }
        if y_within(pre, y, x, t, reach) {
            let d = choose|d: int|
                -reach <= d <= reach && 0 <= y + d < pre.len()
                    && #[trigger] tile_at(pre, y + d, x).tile_type == t;
            assert(false);
        }
    }
}

/// How the whole blend pass relates the grid before (`pre`) and after
/// (`post`): shapes, positions and structures are untouched; liquid tiles
/// are immune; and every tile whose terrain type changed was not liquid and
/// now shows the recorded biome of a chunk surrounding its own. (The
/// per-step axis proximity is measured against the evolving grid, so it
/// does not survive into a whole-pass statement.)
pub open spec fn blend_related(
    pre: Seq<Vec<Tile>>,
    post: Seq<Vec<Tile>>,
    cb: Seq<Vec<TileType>>,
    cfg: WorldConfig,
) -> bool {
    &&& post.len() == pre.len()
    &&& forall|r: int| 0 <= r < pre.len() ==> (#[trigger] post[r])@.len() == pre[r]@.len()
    &&& forall|r: int, c: int|
        0 <= r < pre.len() && 0 <= c < pre[r]@.len() ==> {
            let old_tile = #[trigger] tile_at(pre, r, c);
            let new_tile = tile_at(post, r, c);
            &&& new_tile.pos == old_tile.pos
            &&& new_tile.structure == old_tile.structure
            &&& old_tile.tile_type == TileType::Water ==> new_tile == old_tile
            &&& new_tile.tile_type != old_tile.tile_type ==> {
                &&& old_tile.tile_type != TileType::Water
                &&& near_chunk_biome(
                    cb,
                    cfg.chunk_count(),
                    chunk_of(c, cfg.chunk_size as int),
                    chunk_of(r, cfg.chunk_size as int),
                    new_tile.tile_type,
                )
            }
        }
}

/// `blend_related` absorbs one more blend step: what held from the original
/// grid to the current one still holds after blending one further tile.
pub proof fn lemma_blend_compose(
    w0: Seq<Vec<Tile>>,
    w1: Seq<Vec<Tile>>,
    w2: Seq<Vec<Tile>>,
    cb: Seq<Vec<TileType>>,
    cfg: WorldConfig,
    y: int,
    x: int,
)
    requires
        blend_related(w0, w1, cb, cfg),
        tile_blended(w1, w2, cb, cfg, y, x),
        0 <= y < w0.len(),
        0 <= x < w0[y]@.len(),
    ensures
        blend_related(w0, w2, cb, cfg),
{
    assert forall|r: int, c: int| 0 <= r < w0.len() && 0 <= c < w0[r]@.len() implies {
        let old_tile = #[trigger] tile_at(w0, r, c);
        let new_tile = tile_at(w2, r, c);
        &&& new_tile.pos == old_tile.pos
        &&& new_tile.structure == old_tile.structure
        &&& old_tile.tile_type == TileType::Water ==> new_tile == old_tile
        &&& new_tile.tile_type != old_tile.tile_type ==> {
            &&& old_tile.tile_type != TileType::Water
            &&& near_chunk_biome(
                cb,
                cfg.chunk_count(),
                chunk_of(c, cfg.chunk_size as int),
                chunk_of(r, cfg.chunk_size as int),
                new_tile.tile_type,
            )
        }
    } by {
        assert(tile_at(w0, r, c).pos == tile_at(w1, r, c).pos);
        if !(r == y && c == x) {
            assert(tile_at(w2, r, c) == tile_at(w1, r, c));
        }
    }
}

/// Blends the whole grid in place, visiting tiles row by row; with
/// `double_blend_pass` set, a second pass then visits the rows in reverse
/// order, so influence propagates both ways in one call.
pub fn blend_biomes(
    world: &mut Vec<Vec<Tile>>,
    chunk_biomes: &Vec<Vec<TileType>>,
    cfg: &WorldConfig,
    rng: &mut WorldRng,
)
    requires
        cfg.valid(),
        biome_grid_wf(chunk_biomes@, cfg.chunk_count()),
        tile_grid_wf(old(world)@, cfg.world_size as int),
    ensures
        blend_related(old(world)@, final(world)@, chunk_biomes@, *cfg),
        tile_grid_wf(final(world)@, cfg.world_size as int),
{
    let ghost w_in = world@;
    let ws = cfg.world_size;
    let mut y: usize = 0;
    while y < ws
        invariant
            cfg.valid(),
            ws == cfg.world_size,
            biome_grid_wf(chunk_biomes@, cfg.chunk_count()),
            tile_grid_wf(w_in, ws as int),
            y <= ws,
            blend_related(w_in, world@, chunk_biomes@, *cfg),
        decreases ws - y,
    {
        let mut x: usize = 0;
        while x < ws
            invariant
                cfg.valid(),
                ws == cfg.world_size,
                biome_grid_wf(chunk_biomes@, cfg.chunk_count()),
                tile_grid_wf(w_in, ws as int),
                y < ws,
                x <= ws,
                blend_related(w_in, world@, chunk_biomes@, *cfg),
            decreases ws - x,
        {
            let ghost w_mid = world@;
            blend_tile(cfg, world, chunk_biomes, rng, y, x);
            proof {
                lemma_blend_compose(
                    w_in,
                    w_mid,
                    world@,
                    chunk_biomes@,
                    *cfg,
                    y as int,
                    x as int,
                );
            }
            x += 1;
        }
        y += 1;
    }
    if cfg.double_blend_pass {
        let mut yr: usize = ws;
        while yr > 0
            invariant
                cfg.valid(),
                ws == cfg.world_size,
                biome_grid_wf(chunk_biomes@, cfg.chunk_count()),
                tile_grid_wf(w_in, ws as int),
                yr <= ws,
                blend_related(w_in, world@, chunk_biomes@, *cfg),
            decreases yr,
        {
            let y2 = yr - 1;
            let mut x: usize = 0;
            while x < ws
                invariant
                    cfg.valid(),
                    ws == cfg.world_size,
                    biome_grid_wf(chunk_biomes@, cfg.chunk_count()),
                    tile_grid_wf(w_in, ws as int),
                    y2 < ws,
                    x <= ws,
                    blend_related(w_in, world@, chunk_biomes@, *cfg),
                decreases ws - x,
            {
                let ghost w_mid = world@;
                blend_tile(cfg, world, chunk_biomes, rng, y2, x);
                proof {
                    lemma_blend_compose(
                        w_in,
                        w_mid,
                        world@,
                        chunk_biomes@,
                        *cfg,
                        y2 as int,
                        x as int,
                    );
                }
                x += 1;
            }
            yr -= 1;
        }
    }
}

} // verus!
