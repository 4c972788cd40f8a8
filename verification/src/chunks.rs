//! Chunk biome assignment: the first step of a generation run. Every chunk
//! draws a biome under weighted influence from its four orthogonal
//! neighbors, with small chances of forcing the liquid biome or of ignoring
//! the neighbors entirely.

use vstd::prelude::*;
use crate::config::{WorldConfig, CHANCE_SCALE};
use crate::grid::{biome_at, biome_grid_wf, chunk_in_bounds};
use crate::rng::WorldRng;
use crate::tile::{all_biomes, is_spawnable, spawnable, spawnable_biomes, TileType};
use vstd::pervasive::unreached;

verus! {

/// All entries of a vote pool are spawnable biomes.
spec fn pool_spawnable(pool: Seq<TileType>) -> bool {
    forall|i: int| 0 <= i < pool.len() ==> is_spawnable(#[trigger] pool[i])
}

/// Every chunk lexicographically before `(cx, cy)` records a non-liquid
/// biome: the part of the grid the reassignment loop has already covered.
spec fn prefix_not_water(cb: Seq<Vec<TileType>>, n: int, cx: int, cy: int) -> bool {
    forall|ax: int, ay: int|
        0 <= ax < n && 0 <= ay < n && (ax < cx || (ax == cx && ay < cy))
            ==> #[trigger] biome_at(cb, ax, ay) != TileType::Water
}

/// Every chunk lexicographically before `(cx, cy)` records the liquid
/// biome: what the loop has covered when the liquid chance is certainty.
spec fn prefix_water(cb: Seq<Vec<TileType>>, n: int, cx: int, cy: int) -> bool {
    forall|ax: int, ay: int|
        0 <= ax < n && 0 <= ay < n && (ax < cx || (ax == cx && ay < cy))
            ==> #[trigger] biome_at(cb, ax, ay) == TileType::Water
}

/// Chunk `(cx + dx, cy + dy)` qualifies to vote: it lies on the grid and
/// currently records a spawnable biome.
spec fn neighbor_qualifies(
    cb: Seq<Vec<TileType>>,
    n: int,
    cx: int,
    cy: int,
    dx: int,
    dy: int,
) -> bool {
    chunk_in_bounds(n, cx + dx, cy + dy) && is_spawnable(biome_at(cb, cx + dx, cy + dy))
}

/// Collects one orthogonal neighbor's votes into `pool`: if chunk
/// `(cx + dx, cy + dy)` lies on the grid and currently records a spawnable
/// biome, it casts between 1 and `potential_biomes_multi + 1` weighted votes
/// for that biome — so the pool grows exactly when the neighbor qualifies,
/// and only by copies of that neighbor's biome; a chunk past the grid edge
/// is silently no neighbor, never an error.
fn add_neighbor_votes(
    cfg: &WorldConfig,
    cb: &Vec<Vec<TileType>>,
    pool: &mut Vec<TileType>,
    rng: &mut WorldRng,
    cx: usize,
    cy: usize,
    dx: i64,
    dy: i64,
)
    requires
        cfg.valid(),
        biome_grid_wf(cb@, cfg.chunk_count()),
        cx < cfg.chunk_count(),
        cy < cfg.chunk_count(),
        -1 <= dx <= 1,
        -1 <= dy <= 1,
        pool_spawnable(old(pool)@),
    ensures
        pool_spawnable(final(pool)@),
        old(pool)@.is_prefix_of(final(pool)@),
        forall|i: int|
            old(pool)@.len() <= i < final(pool)@.len() ==> final(pool)@[i] == biome_at(
                cb@,
                cx as int + dx as int,
                cy as int + dy as int,
            ),
        (final(pool)@.len() > old(pool)@.len()) == neighbor_qualifies(
            cb@,
            cfg.chunk_count(),
            cx as int,
            cy as int,
            dx as int,
            dy as int,
        ),
{
    let ghost pool0 = pool@;
    let n = cfg.chunks_per_axis();
    let nx = cx as i64 + dx;
    let ny = cy as i64 + dy;
    if 0 <= nx && nx < n as i64 && 0 <= ny && ny < n as i64 {
        let b = cb[nx as usize][ny as usize];
        if spawnable(b) {
            let votes = rng.next_below(cfg.potential_biomes_multi + 1);
            let mut k: u32 = 0;
            while k < votes + 1
                invariant
                    is_spawnable(b),
                    b == biome_at(cb@, cx as int + dx as int, cy as int + dy as int),
                    votes <= 1_000_000,
                    k <= votes + 1,
                    pool_spawnable(pool@),
                    pool@.len() == pool0.len() + k,
                    forall|i: int| 0 <= i < pool0.len() ==> pool@[i] == pool0[i],
                    forall|i: int| pool0.len() <= i < pool@.len() ==> pool@[i] == b,
                decreases votes + 1 - k,
            {
                pool.push(b);
                k += 1;
            }
        }
    }
    proof {
        assert(pool0.is_prefix_of(pool@)) by {
            assert(pool0 =~= pool@.subrange(0, pool0.len() as int));
        }
    }
}

/// Picks one biome for chunk `(cx, cy)` from its shuffled vote pool and the
/// configured chances: the liquid biome with chance `water_chance_ppm`, else
/// a uniformly random spawnable biome with chance `random_biome_chance_ppm`,
/// else one of the pooled votes (a uniformly random one, if any were cast),
/// else a uniformly random spawnable biome. The result is the liquid biome
/// only if `water_chance_ppm` is nonzero, and always the liquid biome when
/// that chance is certainty.
fn pick_chunk_biome(cfg: &WorldConfig, pool: &Vec<TileType>, rng: &mut WorldRng) -> (t: TileType)
    requires
        pool_spawnable(pool@),
    ensures
        cfg.water_chance_ppm == 0 ==> is_spawnable(t),
        cfg.water_chance_ppm >= CHANCE_SCALE ==> t == TileType::Water,
{
    let spawnables = spawnable_biomes();
    if rng.roll(cfg.water_chance_ppm) {
        TileType::Water
    } else if rng.roll(cfg.random_biome_chance_ppm) {
        match rng.choose_type(&spawnables) {
            Some(b) => {
                proof {
                    let i = choose|i: int|
                        0 <= i < spawnables@.len() && spawnables@[i] == b;
                    assert(is_spawnable(spawnables@[i]));
                }
                b
            },
            None => unreached(),
        }
    } else if pool.len() > 0 {
        match rng.choose_type(pool) {
            Some(b) => {
                proof {
                    let i = choose|i: int| 0 <= i < pool@.len() && pool@[i] == b;
                    assert(is_spawnable(pool@[i]));
                }
                b
            },
            None => unreached(),
        }
    } else {
        match rng.choose_type(&spawnables) {
            Some(b) => {
                proof {
                    let i = choose|i: int|
                        0 <= i < spawnables@.len() && spawnables@[i] == b;
                    assert(is_spawnable(spawnables@[i]));
                }
                b
            },
            None => unreached(),
        }
    }
}

/// Assigns every chunk its recorded biome. The grid is first seeded with
/// uniformly random biomes (the liquid one included), then every chunk is
/// reassigned in order under weighted influence from its four orthogonal
/// neighbors, so earlier neighbors are read post-reassignment and later ones
/// pre-reassignment. Since every chunk is reassigned, a zero
/// `water_chance_ppm` leaves no liquid chunk anywhere, and a
/// `water_chance_ppm` at or above certainty makes every chunk liquid.
pub fn assign_chunk_biomes(cfg: &WorldConfig, rng: &mut WorldRng) -> (cb: Vec<Vec<TileType>>)
    requires
        cfg.valid(),
    ensures
        biome_grid_wf(cb@, cfg.chunk_count()),
        cfg.water_chance_ppm == 0 ==> forall|cx: int, cy: int|
            chunk_in_bounds(cfg.chunk_count(), cx, cy)
                ==> #[trigger] biome_at(cb@, cx, cy) != TileType::Water,
        cfg.water_chance_ppm >= CHANCE_SCALE ==> forall|cx: int, cy: int|
            chunk_in_bounds(cfg.chunk_count(), cx, cy)
                ==> #[trigger] biome_at(cb@, cx, cy) == TileType::Water,
{
    let n = cfg.chunks_per_axis();
    let all = all_biomes();
    let mut cb: Vec<Vec<TileType>> = Vec::new();
    let mut i: usize = 0;
    while i < n
        invariant
            all@.len() == 4,
            i <= n,
            cb@.len() == i,
            forall|r: int| 0 <= r < i ==> (#[trigger] cb@[r])@.len() == n,
        decreases n - i,
    {
        let mut row: Vec<TileType> = Vec::new();
        let mut j: usize = 0;
        while j < n
            invariant
                all@.len() == 4,
                j <= n,
                row@.len() == j,
            decreases n - j,
        {
            let idx = rng.next_below(4);
            row.push(all[idx as usize]);
            j += 1;
        }
        cb.push(row);
        i += 1;
    }
    let mut cx: usize = 0;
    while cx < n
        invariant
            cfg.valid(),
            n == cfg.chunk_count(),
            cx <= n,
            biome_grid_wf(cb@, n as int),
            cfg.water_chance_ppm == 0 ==> prefix_not_water(cb@, n as int, cx as int, 0),
            cfg.water_chance_ppm >= CHANCE_SCALE ==> prefix_water(cb@, n as int, cx as int, 0),
        decreases n - cx,
    {
        let mut cy: usize = 0;
        while cy < n
            invariant
                cfg.valid(),
                n == cfg.chunk_count(),
                cx < n,
                cy <= n,
                biome_grid_wf(cb@, n as int),
                cfg.water_chance_ppm == 0 ==> prefix_not_water(cb@, n as int, cx as int, cy as int),
                cfg.water_chance_ppm >= CHANCE_SCALE ==> prefix_water(
                    cb@,
                    n as int,
                    cx as int,
                    cy as int,
                ),
            decreases n - cy,
        {
            let mut pool: Vec<TileType> = Vec::new();
            add_neighbor_votes(cfg, &cb, &mut pool, rng, cx, cy, -1, 0);
            add_neighbor_votes(cfg, &cb, &mut pool, rng, cx, cy, 0, -1);
            add_neighbor_votes(cfg, &cb, &mut pool, rng, cx, cy, 1, 0);
            add_neighbor_votes(cfg, &cb, &mut pool, rng, cx, cy, 0, 1);
            let ghost pool0 = pool@;
            rng.shuffle_types(&mut pool);
            proof {
                broadcast use vstd::seq_lib::group_to_multiset_ensures;
                assert forall|i2: int| 0 <= i2 < pool@.len() implies is_spawnable(
                    #[trigger] pool@[i2],
                ) by {
                    assert(pool@.contains(pool@[i2]));
                    assert(pool0.to_multiset().count(pool@[i2]) > 0);
                    assert(pool0.contains(pool@[i2]));
                    let j2 = choose|j2: int| 0 <= j2 < pool0.len() && pool0[j2] == pool@[i2];
                    assert(is_spawnable(pool0[j2]));
                }
            }
            let t = pick_chunk_biome(cfg, &pool, rng);
            let ghost cb0 = cb@;
            cb[cx][cy] = t;
            proof {
                if cfg.water_chance_ppm == 0 {
                    assert forall|ax: int, ay: int|
                        0 <= ax < n && 0 <= ay < n
                            && (ax < cx || (ax == cx && ay < cy + 1)) implies #[trigger] biome_at(
                        cb@,
                        ax,
                        ay,
                    ) != TileType::Water by {
                        if ax == cx && ay == cy {
                        } else {
                            assert(biome_at(cb@, ax, ay) == biome_at(cb0, ax, ay));
                            assert(biome_at(cb0, ax, ay) != TileType::Water);
                        }
                    }
                }
                if cfg.water_chance_ppm >= CHANCE_SCALE {
                    assert forall|ax: int, ay: int|
                        0 <= ax < n && 0 <= ay < n
                            && (ax < cx || (ax == cx && ay < cy + 1)) implies #[trigger] biome_at(
                        cb@,
                        ax,
                        ay,
                    ) == TileType::Water by {
                        if ax == cx && ay == cy {
                        } else {
                            assert(biome_at(cb@, ax, ay) == biome_at(cb0, ax, ay));
                            assert(biome_at(cb0, ax, ay) == TileType::Water);
                        }
                    }
                }
            }
            cy += 1;
        }
        cx += 1;
    }
    cb
}

} // verus!
