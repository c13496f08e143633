use moonlit::tile::{classify, classify_samples, TileType, WorldSeed};

#[test]
fn classify_samples_covers_every_band() {
    // Deep water below the water threshold.
    assert_eq!(classify_samples(-300, 0), TileType::Water);
    assert_eq!(classify_samples(-257, 1024), TileType::Water);
    // Lowland band: wet gives grass, dry gives sand.
    assert_eq!(classify_samples(-256, 308), TileType::Grass);
    assert_eq!(classify_samples(-256, 307), TileType::Sand);
    assert_eq!(classify_samples(-1, -1024), TileType::Sand);
    // Midland band: the moisture threshold drops.
    assert_eq!(classify_samples(0, 103), TileType::Grass);
    assert_eq!(classify_samples(0, 102), TileType::Sand);
    assert_eq!(classify_samples(306, 200), TileType::Grass);
    // Forest band: only very dry spots thin out to forest edge.
    assert_eq!(classify_samples(307, 0), TileType::Forest);
    assert_eq!(classify_samples(400, -206), TileType::ForestEdge);
    assert_eq!(classify_samples(562, -205), TileType::Forest);
    // Mountains above the forest band.
    assert_eq!(classify_samples(563, 0), TileType::Mountain);
    assert_eq!(classify_samples(1024, -1024), TileType::Mountain);
}

#[test]
fn classify_samples_is_total_over_extremes() {
    for t in [i64::MIN, -1024, 0, 1024, i64::MAX] {
        for m in [i64::MIN, -1024, 0, 1024, i64::MAX] {
            let tile = classify_samples(t, m);
            assert!(tile.texture_index() <= 5);
        }
    }
}

#[test]
fn classify_is_deterministic() {
    for (x, y) in [(0, 0), (17, -4), (-100_000, 100_000), (i32::MAX, i32::MIN)] {
        let a = classify(x, y, 42);
        let b = classify(x, y, 42);
        assert_eq!(a, b);
    }
}

#[test]
fn classify_accepts_the_full_coordinate_range() {
    for (x, y) in [
        (i32::MIN, i32::MIN),
        (i32::MIN, i32::MAX),
        (i32::MAX, i32::MIN),
        (i32::MAX, i32::MAX),
        (0, 0),
    ] {
        for seed in [0u64, 1, u64::MAX] {
            let tile = classify(x, y, seed);
            assert!(tile.texture_index() <= 5);
        }
    }
}

#[test]
fn texture_indices_match_the_tileset_order() {
    assert_eq!(TileType::Grass.texture_index(), 0);
    assert_eq!(TileType::Water.texture_index(), 1);
    assert_eq!(TileType::Sand.texture_index(), 2);
    assert_eq!(TileType::Forest.texture_index(), 3);
    assert_eq!(TileType::ForestEdge.texture_index(), 4);
    assert_eq!(TileType::Mountain.texture_index(), 5);
}

#[test]
fn world_seed_holds_its_value() {
    let seed = WorldSeed::new(0xdead_beef);
    assert_eq!(seed.value, 0xdead_beef);
}
