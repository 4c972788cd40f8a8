use worldgen::blend::{blend_biomes, blend_chance_ppm, blend_tile};
use worldgen::config::WorldConfig;
use worldgen::grid::build_tile_grid;
use worldgen::rng::WorldRng;
use worldgen::tile::TileType;

fn blend_config() -> WorldConfig {
    WorldConfig {
        world_size: 16,
        chunk_size: 4,
        water_chance_ppm: 0,
        random_biome_chance_ppm: 0,
        potential_biomes_multi: 100,
        base_blend_chance_ppm: 410_000,
        blend_range: 5,
        double_blend_pass: true,
        spawn_tree_chance_ppm: 0,
    }
}

fn uniform_chunks(biome: TileType) -> Vec<Vec<TileType>> {
    vec![vec![biome; 4]; 4]
}

#[test]
fn blend_chance_follows_formula() {
    assert_eq!(blend_chance_ppm(410_000, 0), 410_000);
    assert_eq!(blend_chance_ppm(410_000, 1), 285_000);
    assert_eq!(blend_chance_ppm(410_000, 2), 160_000);
    assert_eq!(blend_chance_ppm(410_000, 3), 35_000);
    assert_eq!(blend_chance_ppm(410_000, 4), 0);
    assert_eq!(blend_chance_ppm(410_000, 100), 0);
    assert_eq!(blend_chance_ppm(0, 0), 0);
    assert_eq!(blend_chance_ppm(1_000_000, 8), 0);
}

#[test]
fn liquid_tiles_never_blend() {
    let cfg = blend_config();
    let mut chunks = uniform_chunks(TileType::Grass);
    chunks[0][0] = TileType::Water;
    chunks[1][1] = TileType::Water;
    chunks[2][3] = TileType::Ground;
    for seed in 0..20u64 {
        let mut rng = WorldRng::from_seed(seed);
        let before = build_tile_grid(&cfg, &chunks);
        let mut world = before.clone();
        blend_biomes(&mut world, &chunks, &cfg, &mut rng);
        for r in 0..16 {
            for c in 0..16 {
                if before[r][c].tile_type == TileType::Water {
                    assert_eq!(world[r][c], before[r][c]);
                }
                assert_eq!(world[r][c].pos, before[r][c].pos);
                assert_eq!(world[r][c].structure, before[r][c].structure);
            }
        }
    }
}

// Builds an all-ground world whose chunk grid nevertheless records grass
// for chunk (1, 0), and plants a single grass tile at row 0, column `d`:
// tile (0, 0) then sees grass as a nearby-chunk candidate at axis
// distance exactly `d`.
fn single_candidate_world(cfg: &WorldConfig, d: usize) -> (Vec<Vec<worldgen::tile::Tile>>, Vec<Vec<TileType>>) {
    let ground = uniform_chunks(TileType::Ground);
    let mut world = build_tile_grid(cfg, &ground);
    world[0][d].tile_type = TileType::Grass;
    let mut chunks = ground;
    chunks[1][0] = TileType::Grass;
    (world, chunks)
}

fn count_blend_successes(cfg: &WorldConfig, d: usize, trials: u64) -> u64 {
    let mut successes = 0;
    for seed in 0..trials {
        let (mut world, chunks) = single_candidate_world(cfg, d);
        let mut rng = WorldRng::from_seed(seed);
        blend_tile(cfg, &mut world, &chunks, &mut rng, 0, 0);
        if world[0][0].tile_type == TileType::Grass {
            successes += 1;
        }
    }
    successes
}

#[test]
fn blend_rate_decays_with_distance() {
    let cfg = blend_config();
    let trials = 400;
    let c1 = count_blend_successes(&cfg, 1, trials);
    let c2 = count_blend_successes(&cfg, 2, trials);
    let c3 = count_blend_successes(&cfg, 3, trials);
    let c4 = count_blend_successes(&cfg, 4, trials);
    // Expected rates: 28.5%, 16%, 3.5%, 0%.
    assert!(c1 > c2);
    assert!(c2 > c3);
    assert!(c3 > 0);
    assert_eq!(c4, 0);
}

#[test]
fn blend_never_succeeds_beyond_range() {
    let cfg = blend_config();
    for d in [6usize, 7, 10, 15] {
        assert_eq!(count_blend_successes(&cfg, d, 200), 0);
    }
}

#[test]
fn no_blend_at_all_when_base_chance_zero() {
    let mut cfg = blend_config();
    cfg.base_blend_chance_ppm = 0;
    let mut chunks = uniform_chunks(TileType::Ground);
    chunks[1][0] = TileType::Grass;
    chunks[2][2] = TileType::Thud;
    for seed in 0..50u64 {
        let mut rng = WorldRng::from_seed(seed);
        let before = build_tile_grid(&cfg, &chunks);
        let mut world = before.clone();
        blend_biomes(&mut world, &chunks, &cfg, &mut rng);
        assert_eq!(world, before);
    }
}

#[test]
fn liquid_is_a_valid_blend_target() {
    // The liquid type is exempt as a source but not as a candidate: a
    // non-liquid tile next to a liquid tile, near a chunk recording the
    // liquid biome, can blend into it.
    let cfg = blend_config();
    let ground = uniform_chunks(TileType::Ground);
    let mut successes = 0;
    for seed in 0..200u64 {
        let mut world = build_tile_grid(&cfg, &ground);
        world[0][1].tile_type = TileType::Water;
        let mut chunks = uniform_chunks(TileType::Ground);
        chunks[1][0] = TileType::Water;
        let mut rng = WorldRng::from_seed(seed);
        blend_tile(&cfg, &mut world, &chunks, &mut rng, 0, 0);
        if world[0][0].tile_type == TileType::Water {
            successes += 1;
        }
    }
    assert!(successes > 0);
}
