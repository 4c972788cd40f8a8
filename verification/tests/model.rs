use worldgen::assets::{asset_subpath, Path};
use worldgen::generate::{ChunkLineRenderState, TheWorld};
use worldgen::tile::{all_biomes, spawnable, spawnable_biomes, Position, Structure, Tile, TileType};

#[test]
fn position_default_is_origin() {
    let p = Position::default();
    assert_eq!(p.x_half, 0);
    assert_eq!(p.y_half, 0);
}

#[test]
fn structure_default_is_empty() {
    assert_eq!(Structure::default(), Structure::Empty);
}

#[test]
fn tile_default_is_bare_grass_at_origin() {
    let t = Tile::default();
    assert_eq!(t.tile_type, TileType::Grass);
    assert_eq!(t.pos, Position::default());
    assert_eq!(t.structure, Structure::Empty);
}

#[test]
fn only_water_is_not_spawnable() {
    assert!(spawnable(TileType::Ground));
    assert!(spawnable(TileType::Thud));
    assert!(spawnable(TileType::Grass));
    assert!(!spawnable(TileType::Water));
}

#[test]
fn biome_lists_are_fixed() {
    let s = spawnable_biomes();
    assert_eq!(s, vec![TileType::Ground, TileType::Thud, TileType::Grass]);
    let a = all_biomes();
    assert_eq!(
        a,
        vec![TileType::Ground, TileType::Thud, TileType::Grass, TileType::Water]
    );
}

#[test]
fn asset_subpaths_name_the_bundled_files() {
    assert_eq!(asset_subpath(Path::OptionButton), "sprites/Options-Button.png");
    assert_eq!(asset_subpath(Path::PlayButton), "sprites/Play-Button.png");
    assert_eq!(asset_subpath(Path::QuitButton), "sprites/Quit-Button.png");
    assert_eq!(asset_subpath(Path::ResumeButton), "sprites/Resume-Button.png");
    assert_eq!(asset_subpath(Path::Font), "fonts/Righteous-Regular.ttf");
}

#[test]
fn chunk_outline_toggle_alternates() {
    let s = ChunkLineRenderState::default();
    assert_eq!(s, ChunkLineRenderState::Off);
    assert_eq!(s.toggled(), ChunkLineRenderState::On);
    assert_eq!(s.toggled().toggled(), ChunkLineRenderState::Off);
}

#[test]
fn the_world_default_is_empty() {
    let holder = TheWorld::default();
    assert!(holder.world.is_empty());
    assert!(holder.chunk_biomes.is_empty());
}

#[test]
fn the_world_new_replaces_the_grids() {
    let mut holder = TheWorld::default();
    let world = vec![vec![Tile::default(); 2]; 2];
    let chunks = vec![vec![TileType::Thud]];
    holder.new(world.clone(), chunks.clone());
    assert_eq!(holder.world, world);
    assert_eq!(holder.chunk_biomes, chunks);
}
