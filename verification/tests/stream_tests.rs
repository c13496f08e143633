use moonlit::coords::{ChunkCoord, GridConfig, WorldPos};
use moonlit::registry::Registry;
use moonlit::stream::{chunk_in_range, tick, wanted_chunks, RangePolicy, StreamConfig};

fn c(x: i32, y: i32) -> ChunkCoord {
    ChunkCoord { x, y }
}

fn grid() -> GridConfig {
    GridConfig { tile_size: 16, chunk_width: 10, chunk_height: 10 }
}

fn rect_cfg(rx: u32, ry: u32) -> StreamConfig {
    StreamConfig { grid: grid(), policy: RangePolicy::Rect { rx, ry } }
}

fn radial_cfg(radius: u32) -> StreamConfig {
    StreamConfig { grid: grid(), policy: RangePolicy::Radial { radius } }
}

#[test]
fn wanted_chunks_tile_the_render_rectangle() {
    // Render distance 2 on both axes around chunk (0,0): exactly the
    // 5 x 5 block of chunks, no gap and no extras.
    let wanted = wanted_chunks(WorldPos { x: 0, y: 0 }, rect_cfg(2, 2));
    assert_eq!(wanted.len(), 25);
    for y in -2..=2 {
        for x in -2..=2 {
            assert!(wanted.contains(&c(x, y)));
        }
    }
    assert!(!wanted.contains(&c(3, 0)));
    assert!(!wanted.contains(&c(0, -3)));
}

#[test]
fn wanted_chunks_follow_the_viewpoint_chunk() {
    // A viewpoint in chunk (-1,-1) wants the rectangle centered there.
    let wanted = wanted_chunks(WorldPos { x: -1, y: -1 }, rect_cfg(1, 1));
    assert_eq!(wanted.len(), 9);
    assert!(wanted.contains(&c(-2, -2)));
    assert!(wanted.contains(&c(0, 0)));
    assert!(!wanted.contains(&c(1, 0)));
}

#[test]
fn rect_render_distance_is_independent_per_axis() {
    let wanted = wanted_chunks(WorldPos { x: 0, y: 0 }, rect_cfg(2, 1));
    assert_eq!(wanted.len(), 15);
    assert!(wanted.contains(&c(2, 1)));
    assert!(!wanted.contains(&c(0, 2)));
}

#[test]
fn first_tick_materializes_the_wanted_set() {
    let mut reg = Registry::new();
    let (spawned, evicted) = tick(&mut reg, WorldPos { x: 0, y: 0 }, rect_cfg(2, 2));
    assert_eq!(spawned.len(), 25);
    assert_eq!(evicted.len(), 0);
    assert_eq!(reg.len(), 25);
    assert!(reg.contains(c(2, 2)));
    assert!(!reg.contains(c(3, 2)));
}

#[test]
fn second_tick_with_unchanged_viewpoint_is_silent() {
    let mut reg = Registry::new();
    let vp = WorldPos { x: 123, y: -77 };
    let cfg = rect_cfg(2, 2);
    tick(&mut reg, vp, cfg);
    let before = reg.len();
    let (spawned, evicted) = tick(&mut reg, vp, cfg);
    assert_eq!(spawned.len(), 0);
    assert_eq!(evicted.len(), 0);
    assert_eq!(reg.len(), before);
}

#[test]
fn far_chunk_is_evicted_and_near_chunk_remains() {
    // Render distance 2, viewpoint in chunk (0,0): a registered chunk at
    // (5,5) must go, a registered chunk at (2,0) must stay.
    let mut reg = Registry::new();
    reg.insert(c(5, 5));
    reg.insert(c(2, 0));
    let (spawned, evicted) = tick(&mut reg, WorldPos { x: 0, y: 0 }, rect_cfg(2, 2));
    assert!(evicted.contains(&c(5, 5)));
    assert!(!evicted.contains(&c(2, 0)));
    assert!(!reg.contains(c(5, 5)));
    assert!(reg.contains(c(2, 0)));
    // (2,0) was already present, so it is not spawned again.
    assert!(!spawned.contains(&c(2, 0)));
}

#[test]
fn moving_one_chunk_swaps_one_column() {
    let mut reg = Registry::new();
    let cfg = rect_cfg(2, 2);
    tick(&mut reg, WorldPos { x: 0, y: 0 }, cfg);
    // One chunk to the right: the column at x == -2 leaves, x == 3 enters.
    let (spawned, evicted) = tick(&mut reg, WorldPos { x: 160, y: 0 }, cfg);
    assert_eq!(spawned.len(), 5);
    assert_eq!(evicted.len(), 5);
    for y in -2..=2 {
        assert!(spawned.contains(&c(3, y)));
        assert!(evicted.contains(&c(-2, y)));
    }
}

#[test]
fn radial_policy_keeps_chunks_by_center_distance() {
    // Chunk extent is 160, so chunk (0,0) has center (80,80). With the
    // viewpoint at the origin and radius 400: (0,0) is in range, while
    // (2,0) with center (400,80) is just out (400^2 + 80^2 > 400^2).
    let cfg = radial_cfg(400);
    let vp = WorldPos { x: 0, y: 0 };
    assert!(chunk_in_range(c(0, 0), vp, cfg));
    assert!(chunk_in_range(c(-1, -1), vp, cfg));
    assert!(!chunk_in_range(c(2, 0), vp, cfg));
    assert!(!chunk_in_range(c(2, 2), vp, cfg));
}

#[test]
fn radial_tick_materializes_the_disk() {
    let cfg = radial_cfg(400);
    let vp = WorldPos { x: 0, y: 0 };
    let mut reg = Registry::new();
    reg.insert(c(5, 5));
    let (spawned, evicted) = tick(&mut reg, vp, cfg);
    assert!(reg.contains(c(0, 0)));
    assert!(reg.contains(c(-2, 0)));
    assert!(!reg.contains(c(2, 0)));
    assert!(evicted.contains(&c(5, 5)));
    assert!(spawned.contains(&c(0, 0)));
    // Every wanted chunk of the disk got spawned exactly once.
    let wanted = wanted_chunks(vp, cfg);
    assert_eq!(spawned.len(), wanted.len());
    for w in &wanted {
        assert!(spawned.contains(w));
    }
}

#[test]
fn radial_second_tick_is_silent() {
    let cfg = radial_cfg(500);
    let vp = WorldPos { x: -333, y: 919 };
    let mut reg = Registry::new();
    tick(&mut reg, vp, cfg);
    let (spawned, evicted) = tick(&mut reg, vp, cfg);
    assert_eq!(spawned.len(), 0);
    assert_eq!(evicted.len(), 0);
}
