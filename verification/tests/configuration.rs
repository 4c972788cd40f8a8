use worldgen::config::{
    ConfigError, WorldConfig, BLEND_DECAY_PPM, CHANCE_SCALE, CHUNK_SIZE, MAX_WORLD_SIZE,
    WORLD_SIZE,
};
use worldgen::generate::generate_world;
use worldgen::rng::WorldRng;

#[test]
fn default_constants_are_consistent() {
    assert_eq!(CHUNK_SIZE, 20);
    assert_eq!(WORLD_SIZE, 640);
    assert_eq!(WORLD_SIZE % CHUNK_SIZE, 0);
    assert_eq!(CHANCE_SCALE, 1_000_000);
    assert_eq!(BLEND_DECAY_PPM, 125_000);
    assert_eq!(MAX_WORLD_SIZE, 65_536);
}

#[test]
fn new_accepts_valid_sizes() {
    let cfg = WorldConfig::new(16, 4, 5_000, 100, 100, 410_000, 5, true, 10_000).unwrap();
    assert_eq!(cfg.world_size, 16);
    assert_eq!(cfg.chunk_size, 4);
    assert_eq!(cfg.water_chance_ppm, 5_000);
    assert_eq!(cfg.random_biome_chance_ppm, 100);
    assert_eq!(cfg.potential_biomes_multi, 100);
    assert_eq!(cfg.base_blend_chance_ppm, 410_000);
    assert_eq!(cfg.blend_range, 5);
    assert!(cfg.double_blend_pass);
    assert_eq!(cfg.spawn_tree_chance_ppm, 10_000);
    assert_eq!(cfg.chunks_per_axis(), 4);
    assert!(cfg.validate().is_ok());
}

#[test]
fn new_accepts_default_constants() {
    let cfg = WorldConfig::new(
        WORLD_SIZE, CHUNK_SIZE, 5_000, 100, 100, 410_000, 5, true, 10_000,
    )
    .unwrap();
    assert_eq!(cfg.chunks_per_axis(), 32);
}

#[test]
fn zero_world_size_is_rejected() {
    let r = WorldConfig::new(0, 4, 0, 0, 100, 410_000, 5, false, 0);
    assert_eq!(r.unwrap_err(), ConfigError::ZeroSize);
}

#[test]
fn zero_chunk_size_is_rejected() {
    let r = WorldConfig::new(16, 0, 0, 0, 100, 410_000, 5, false, 0);
    assert_eq!(r.unwrap_err(), ConfigError::ZeroSize);
}

#[test]
fn uneven_chunks_are_rejected() {
    let r = WorldConfig::new(10, 4, 0, 0, 100, 410_000, 5, false, 0);
    assert_eq!(r.unwrap_err(), ConfigError::UnevenChunks);
}

#[test]
fn oversized_world_is_rejected() {
    let r = WorldConfig::new(MAX_WORLD_SIZE + 1, 1, 0, 0, 100, 410_000, 5, false, 0);
    assert_eq!(r.unwrap_err(), ConfigError::TooLarge);
}

#[test]
fn oversized_blend_range_is_rejected() {
    let r = WorldConfig::new(16, 4, 0, 0, 100, 410_000, MAX_WORLD_SIZE + 1, false, 0);
    assert_eq!(r.unwrap_err(), ConfigError::TooLarge);
}

#[test]
fn oversized_vote_multiplier_is_rejected() {
    let r = WorldConfig::new(16, 4, 0, 0, CHANCE_SCALE + 1, 410_000, 5, false, 0);
    assert_eq!(r.unwrap_err(), ConfigError::TooLarge);
}

#[test]
fn generate_surfaces_config_errors() {
    let cfg = WorldConfig {
        world_size: 10,
        chunk_size: 4,
        water_chance_ppm: 0,
        random_biome_chance_ppm: 0,
        potential_biomes_multi: 100,
        base_blend_chance_ppm: 410_000,
        blend_range: 5,
        double_blend_pass: false,
        spawn_tree_chance_ppm: 0,
    };
    let mut rng = WorldRng::from_seed(1);
    assert_eq!(
        generate_world(&cfg, &mut rng).unwrap_err(),
        ConfigError::UnevenChunks
    );
}
