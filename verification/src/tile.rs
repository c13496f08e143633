//! Tile classification: from a world tile coordinate and a world seed to
//! a terrain kind.
//!
//! Two independent noise channels are sampled at the same position: a
//! terrain channel using the seed directly, and a moisture channel at a
//! spatially offset position under a derived seed, so the two fields do
//! not correlate. A fixed decision tree over the two fixed-point samples
//! picks the tile type; the tree is total, so every sample pair maps to
//! a valid tile.

use vstd::prelude::*;

verus! {

use crate::noise::{fbm, spec_fbm, NoiseParams};

/// Position step per world tile in fixed-point cells: the sampling
/// frequency 0.08 expressed in 1/1024 cell units.
pub const FREQ_STEP: i64 = 82;

/// Offset, in fixed-point cells, between the terrain and moisture
/// sampling positions: 100 cells on both axes.
pub const MOISTURE_OFFSET: i64 = 102_400;

/// Distance between the terrain seed and the derived moisture seed.
pub const MOISTURE_SEED_STEP: u64 = 1000;

/// Terrain sample thresholds, fixed-point with `UNIT` standing for 1.0.
pub const T_WATER_MAX: i64 = -256;

pub const T_LOWLAND_MAX: i64 = 0;

pub const T_MIDLAND_MAX: i64 = 307;

pub const T_FOREST_MAX: i64 = 563;

/// Moisture thresholds for the lowland, midland and forest bands.
pub const M_LOWLAND_WET: i64 = 307;

pub const M_MIDLAND_WET: i64 = 102;

pub const M_FOREST_DRY: i64 = -205;

/// The session's world seed: chosen once at world initialization, passed
/// explicitly wherever generation needs it, and never mutated, so that
/// the whole world is reproducible from the seed alone.
#[derive(Clone, Copy, PartialEq, Eq, Structural, Debug)]
pub struct WorldSeed {
    pub value: u64,
}

impl WorldSeed {
    pub fn new(value: u64) -> (r: WorldSeed)
        ensures
            r.value == value,
    {
        WorldSeed { value }
    }
}

/// The closed palette of terrain kinds.
#[derive(Clone, Copy, PartialEq, Eq, Structural, Debug, Hash)]
pub enum TileType {
    Water,
    Sand,
    Grass,
    ForestEdge,
    Forest,
    Mountain,
}

/// Noise shape of the terrain channel.
pub open spec fn spec_terrain_params() -> NoiseParams {
    NoiseParams { octaves: 4, lacunarity: 2, gain: 512 }
}

pub fn terrain_params() -> (r: NoiseParams)
    ensures
        r == spec_terrain_params(),
        r.wf(),
{
    NoiseParams { octaves: 4, lacunarity: 2, gain: 512 }
}

/// Noise shape of the moisture channel.
pub open spec fn spec_moisture_params() -> NoiseParams {
    NoiseParams { octaves: 3, lacunarity: 2, gain: 512 }
}

pub fn moisture_params() -> (r: NoiseParams)
    ensures
        r == spec_moisture_params(),
        r.wf(),
{
    NoiseParams { octaves: 3, lacunarity: 2, gain: 512 }
}

/// The fixed decision tree over a (terrain, moisture) sample pair. Total:
/// every pair of integers falls into exactly one band.
pub open spec fn spec_classify_samples(terrain: int, moisture: int) -> TileType {
    if terrain < T_WATER_MAX {
        TileType::Water
    } else if terrain < T_LOWLAND_MAX {
        if moisture > M_LOWLAND_WET {
            TileType::Grass
        } else {
            TileType::Sand
        }
    } else if terrain < T_MIDLAND_MAX {
        if moisture > M_MIDLAND_WET {
            TileType::Grass
        } else {
            TileType::Sand
        }
    } else if terrain < T_FOREST_MAX {
        if moisture < M_FOREST_DRY {
            TileType::ForestEdge
        } else {
            TileType::Forest
        }
    } else {
        TileType::Mountain
    }
}

/// Classify one (terrain, moisture) sample pair. Accepts the full range
/// of sample values and always returns a tile type.
pub fn classify_samples(terrain: i64, moisture: i64) -> (r: TileType)
    ensures
        r == spec_classify_samples(terrain as int, moisture as int),
{
    if terrain < T_WATER_MAX {
        TileType::Water
    } else if terrain < T_LOWLAND_MAX {
        if moisture > M_LOWLAND_WET {
            TileType::Grass
        } else {
            TileType::Sand
        }
    } else if terrain < T_MIDLAND_MAX {
        if moisture > M_MIDLAND_WET {
            TileType::Grass
        } else {
            TileType::Sand
        }
    } else if terrain < T_FOREST_MAX {
        if moisture < M_FOREST_DRY {
            TileType::ForestEdge
        } else {
            TileType::Forest
        }
    } else {
        TileType::Mountain
    }
}

/// The sampling position of a world tile coordinate, in fixed-point
/// cells.
pub open spec fn spec_tile_sample_pos(w: i32) -> int {
    w as int * FREQ_STEP
}

/// The tile type at a world tile coordinate under a world seed: the
/// terrain sample uses the seed itself, the moisture sample a spatially
/// offset position and a derived seed. Opaque so that callers reason
/// about classification as a pure function of `(x, y, seed)` without
/// unfolding the noise pipeline.
#[verifier::opaque]
pub open spec fn spec_classify(x: i32, y: i32, seed: u64) -> TileType {
    let px = spec_tile_sample_pos(x);
    let py = spec_tile_sample_pos(y);
    let terrain = spec_fbm(px, py, spec_terrain_params(), seed);
    let moisture = spec_fbm(
        px + MOISTURE_OFFSET,
        py + MOISTURE_OFFSET,
        spec_moisture_params(),
        seed.wrapping_add(MOISTURE_SEED_STEP),
    );
    spec_classify_samples(terrain, moisture)
}

/// Classify the tile at a world tile coordinate. Total over the full
/// coordinate and seed range, and deterministic: the result is a pure
/// function of `(x, y, seed)`.
pub fn classify(x: i32, y: i32, seed: u64) -> (r: TileType)
    ensures
        r == spec_classify(x, y, seed),
{
    proof {
        reveal(spec_classify);
    }
    let px = (x as i64) * FREQ_STEP;
    let py = (y as i64) * FREQ_STEP;
    let terrain = fbm(px, py, terrain_params(), seed);
    let moisture = fbm(
        px + MOISTURE_OFFSET,
        py + MOISTURE_OFFSET,
        moisture_params(),
        seed.wrapping_add(MOISTURE_SEED_STEP),
    );
    classify_samples(terrain, moisture)
}

/// The tileset index each terrain kind is drawn with.
pub open spec fn spec_texture_index(t: TileType) -> u32 {
    match t {
        TileType::Grass => 0u32,
        TileType::Water => 1u32,
        TileType::Sand => 2u32,
        TileType::Forest => 3u32,
        TileType::ForestEdge => 4u32,
        TileType::Mountain => 5u32,
    }
}

impl TileType {
    pub fn texture_index(&self) -> (r: u32)
        ensures
            r == spec_texture_index(*self),
    {
        match self {
            TileType::Grass => 0,
            TileType::Water => 1,
            TileType::Sand => 2,
            TileType::Forest => 3,
            TileType::ForestEdge => 4,
            TileType::Mountain => 5,
        }
    }
}

/// Determinism of classification: any two results of classifying the
/// same coordinate under the same seed are equal, since `classify`
/// returns exactly `spec_classify` of its inputs.
pub proof fn lemma_classify_deterministic(x: i32, y: i32, seed: u64, r1: TileType, r2: TileType)
    requires
        r1 == spec_classify(x, y, seed),
        r2 == spec_classify(x, y, seed),
    ensures
        r1 == r2,
{
}

/// Totality of the classifier: every (terrain, moisture) pair, over all
/// integers and in particular over the full sample range
/// [-UNIT, UNIT] x [-UNIT, UNIT], maps to one of the palette's kinds.
pub proof fn lemma_classifier_total(terrain: int, moisture: int)
    ensures
        spec_classify_samples(terrain, moisture) == TileType::Water || spec_classify_samples(
            terrain,
            moisture,
        ) == TileType::Sand || spec_classify_samples(terrain, moisture) == TileType::Grass
            || spec_classify_samples(terrain, moisture) == TileType::ForestEdge
            || spec_classify_samples(terrain, moisture) == TileType::Forest
            || spec_classify_samples(terrain, moisture) == TileType::Mountain,
{
}

} // verus!
