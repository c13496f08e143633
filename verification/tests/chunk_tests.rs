use moonlit::chunk::generate;
use moonlit::coords::{ChunkCoord, GridConfig};
use moonlit::tile::classify;

fn grid() -> GridConfig {
    GridConfig { tile_size: 16, chunk_width: 10, chunk_height: 10 }
}

#[test]
fn generate_fills_the_whole_grid() {
    let chunk = generate(ChunkCoord { x: 0, y: 0 }, grid(), 42);
    assert_eq!(chunk.width, 10);
    assert_eq!(chunk.height, 10);
    assert_eq!(chunk.tiles.len(), 100);
}

#[test]
fn generate_classifies_each_cell_at_its_world_coordinate() {
    let seed = 777;
    let coord = ChunkCoord { x: 3, y: -2 };
    let chunk = generate(coord, grid(), seed);
    for ly in 0..10u32 {
        for lx in 0..10u32 {
            let wx = coord.x * 10 + lx as i32;
            let wy = coord.y * 10 + ly as i32;
            assert_eq!(chunk.tile(lx, ly), classify(wx, wy, seed));
        }
    }
}

#[test]
fn generate_is_deterministic() {
    let coord = ChunkCoord { x: -5, y: 9 };
    let a = generate(coord, grid(), 2024);
    let b = generate(coord, grid(), 2024);
    assert_eq!(a, b);
}

#[test]
fn generate_supports_other_chunk_dimensions() {
    let small = GridConfig { tile_size: 16, chunk_width: 6, chunk_height: 6 };
    let chunk = generate(ChunkCoord { x: 1, y: 1 }, small, 5);
    assert_eq!(chunk.tiles.len(), 36);
    assert_eq!(chunk.tile(5, 5), classify(11, 11, 5));
}

#[test]
fn generate_handles_negative_coordinates() {
    let chunk = generate(ChunkCoord { x: -1, y: -1 }, grid(), 42);
    assert_eq!(chunk.tile(0, 0), classify(-10, -10, 42));
    assert_eq!(chunk.tile(9, 9), classify(-1, -1, 42));
}
