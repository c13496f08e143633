use moonlit::coords::{chunk_origin, floor_div, world_to_chunk, ChunkCoord, GridConfig, WorldPos};

fn grid() -> GridConfig {
    GridConfig { tile_size: 16, chunk_width: 10, chunk_height: 10 }
}

#[test]
fn floor_div_rounds_toward_negative_infinity() {
    assert_eq!(floor_div(0, 160), 0);
    assert_eq!(floor_div(159, 160), 0);
    assert_eq!(floor_div(160, 160), 1);
    assert_eq!(floor_div(-1, 160), -1);
    assert_eq!(floor_div(-160, 160), -1);
    assert_eq!(floor_div(-161, 160), -2);
}

#[test]
fn extent_is_dimensions_times_tile_size() {
    let cfg = grid();
    assert_eq!(cfg.extent_x(), 160);
    assert_eq!(cfg.extent_y(), 160);
    let tall = GridConfig { tile_size: 16, chunk_width: 6, chunk_height: 8 };
    assert_eq!(tall.extent_x(), 96);
    assert_eq!(tall.extent_y(), 128);
}

#[test]
fn boundary_positions_map_to_floor_chunks() {
    // A viewpoint at (0,0) sits in chunk (0,0); a viewpoint at (-1,-1)
    // sits in chunk (-1,-1), not (0,0).
    let cfg = grid();
    let at_zero = world_to_chunk(WorldPos { x: 0, y: 0 }, cfg);
    assert_eq!((at_zero.x, at_zero.y), (0, 0));
    let below_zero = world_to_chunk(WorldPos { x: -1, y: -1 }, cfg);
    assert_eq!((below_zero.x, below_zero.y), (-1, -1));
}

#[test]
fn world_to_chunk_spans_whole_chunks() {
    let cfg = grid();
    let inside = world_to_chunk(WorldPos { x: 159, y: 0 }, cfg);
    assert_eq!((inside.x, inside.y), (0, 0));
    let next = world_to_chunk(WorldPos { x: 160, y: -320 }, cfg);
    assert_eq!((next.x, next.y), (1, -2));
}

#[test]
fn chunk_origin_scales_by_extent() {
    let cfg = grid();
    let origin = chunk_origin(ChunkCoord { x: 3, y: -2 }, cfg);
    assert_eq!((origin.x, origin.y), (480, -320));
}

#[test]
fn chunk_origin_round_trips_through_world_to_chunk() {
    let cfg = grid();
    for (x, y) in [(0, 0), (1, -1), (-7, 12), (250, -250)] {
        let c = ChunkCoord { x, y };
        let back = world_to_chunk(chunk_origin(c, cfg), cfg);
        assert_eq!((back.x, back.y), (x, y));
    }
}
