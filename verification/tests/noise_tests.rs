use moonlit::noise::{base_layer, fbm, NoiseParams, CORNER_SPAN, UNIT};

fn params() -> NoiseParams {
    NoiseParams { octaves: 4, lacunarity: 2, gain: 512 }
}

#[test]
fn base_layer_is_deterministic() {
    for (px, py) in [(0i64, 0i64), (12345, -6789), (-1_000_000, 1_000_000)] {
        let a = base_layer(px, py, 42);
        let b = base_layer(px, py, 42);
        assert_eq!(a, b);
    }
}

#[test]
fn base_layer_stays_in_corner_span() {
    let mut p: i64 = -5_000;
    while p < 5_000 {
        let v = base_layer(p, -p * 3, 7);
        assert!(v <= CORNER_SPAN as u64);
        p += 137;
    }
}

#[test]
fn fbm_is_deterministic() {
    for (px, py) in [(0i64, 0i64), (82_000, -82_000), (-1, 1)] {
        let a = fbm(px, py, params(), 99);
        let b = fbm(px, py, params(), 99);
        assert_eq!(a, b);
    }
}

#[test]
fn fbm_stays_clamped_to_unit_range() {
    let mut p: i64 = -200_000;
    while p < 200_000 {
        let v = fbm(p, 1 - p, params(), 1234567);
        assert!(-UNIT <= v && v <= UNIT);
        p += 4321;
    }
}

#[test]
fn fbm_seeds_decorrelate_the_field() {
    // Two different seeds should disagree somewhere over a spread of
    // sample positions.
    let mut differs = false;
    let mut p: i64 = 0;
    while p < 100_000 {
        if fbm(p, p / 2, params(), 1) != fbm(p, p / 2, params(), 2) {
            differs = true;
        }
        p += 997;
    }
    assert!(differs);
}

#[test]
fn fbm_varies_over_space() {
    // A noise field that is constant everywhere is useless for terrain:
    // expect at least two distinct values over a spread of positions.
    let first = fbm(0, 0, params(), 3);
    let mut varies = false;
    let mut p: i64 = 0;
    while p < 500_000 {
        if fbm(p, -p, params(), 3) != first {
            varies = true;
        }
        p += 9973;
    }
    assert!(varies);
}
