//! Chunk generation: materializing the full tile grid of one chunk.
//!
//! A chunk owns a fixed-size row-major grid of tile types together with
//! its coordinate. Generation classifies every cell at its world tile
//! coordinate, `chunk_coord * chunk_dimensions + local_coord`, and has no
//! other effect, so generating the same coordinate under the same seed
//! always yields the same chunk, and chunks for distinct coordinates are
//! independent of each other.

use vstd::prelude::*;

verus! {

use crate::coords::{ChunkCoord, GridConfig, CHUNK_COORD_LIMIT};
use crate::tile::{classify, spec_classify, TileType};

/// Row-major index of a local tile coordinate.
pub open spec fn row_index(width: int, lx: int, ly: int) -> int {
    ly * width + lx
}

/// One materialized chunk: its coordinate, its tile dimensions, and the
/// row-major grid of tile types.
#[derive(Debug, PartialEq)]
pub struct Chunk {
    pub coord: ChunkCoord,
    pub width: u32,
    pub height: u32,
    pub tiles: Vec<TileType>,
}

impl Chunk {
    /// Well-formedness: in-range dimensions and coordinate, and a grid
    /// that holds exactly one tile per cell.
    pub open spec fn wf(self) -> bool {
        &&& 1 <= self.width <= 64
        &&& 1 <= self.height <= 64
        &&& self.coord.in_bounds()
        &&& self.tiles@.len() == self.width * self.height
    }

    /// The tile at a local coordinate.
    pub open spec fn spec_tile(self, lx: int, ly: int) -> TileType {
        self.tiles@[row_index(self.width as int, lx, ly)]
    }

    /// The world tile x coordinate of a local column.
    pub open spec fn spec_world_x(self, lx: int) -> int {
        self.coord.x * self.width + lx
    }

    /// The world tile y coordinate of a local row.
    pub open spec fn spec_world_y(self, ly: int) -> int {
        self.coord.y * self.height + ly
    }

    /// Every cell holds the classification of its world tile coordinate
    /// under the given seed.
    pub open spec fn generated_from(self, seed: u64) -> bool {
        forall|lx: int, ly: int|
            0 <= lx < self.width && 0 <= ly < self.height ==> self.spec_tile(lx, ly)
                == spec_classify(self.spec_world_x(lx) as i32, self.spec_world_y(ly) as i32, seed)
    }

    /// Read the tile at a local coordinate.
    pub fn tile(&self, lx: u32, ly: u32) -> (r: TileType)
        requires
            self.wf(),
            lx < self.width,
            ly < self.height,
        ensures
            r == self.spec_tile(lx as int, ly as int),
    {
        proof {
            lemma_row_index_bound(self.width as int, self.height as int, lx as int, ly as int);
        }
        self.tiles[(ly as usize) * (self.width as usize) + (lx as usize)]
    }
}

/// A row-major index lies inside the grid.
proof fn lemma_row_index_bound(width: int, height: int, lx: int, ly: int)
    requires
        1 <= width <= 64,
        1 <= height <= 64,
        0 <= lx < width,
        0 <= ly < height,
    ensures
        0 <= row_index(width, lx, ly) < width * height,
        row_index(width, lx, ly) == ly * width + lx,
        width * height <= 4096,
{
    assert(0 <= ly * width + lx < width * height && width * height <= 4096) by (nonlinear_arith)
        requires
            1 <= width <= 64,
            1 <= height <= 64,
            0 <= lx < width,
            0 <= ly < height,
    ;
}

/// The world tile coordinates of an in-range chunk fit in `i32`.
proof fn lemma_world_tile_in_range(cw: int, dim: int, l: int)
    requires
        -CHUNK_COORD_LIMIT <= cw <= CHUNK_COORD_LIMIT,
        1 <= dim <= 64,
        0 <= l <= 64,
    ensures
        -2_112_000_000 <= cw * dim <= 2_112_000_000,
        i32::MIN <= cw * dim + l <= i32::MAX,
{
    assert(-2_112_000_000 <= cw * dim <= 2_112_000_000) by (nonlinear_arith)
        requires
            -CHUNK_COORD_LIMIT <= cw <= CHUNK_COORD_LIMIT,
            1 <= dim <= 64,
    ;
}

/// Generate the chunk at a coordinate: classify every cell of the grid
/// at its world tile coordinate. A pure function of its inputs with no
/// other effect; generating the same coordinate twice under one seed
/// gives equal chunks.
#[verifier::rlimit(50)]
pub fn generate(coord: ChunkCoord, cfg: GridConfig, seed: u64) -> (r: Chunk)
    requires
        cfg.wf(),
        coord.in_bounds(),
    ensures
        r.wf(),
        r.coord == coord,
        r.width == cfg.chunk_width,
        r.height == cfg.chunk_height,
        r.generated_from(seed),
{
    let width = cfg.chunk_width;
    let height = cfg.chunk_height;
    let mut tiles: Vec<TileType> = Vec::new();
    let mut ly: u32 = 0;
    while ly < height
        invariant
            1 <= width <= 64,
            1 <= height <= 64,
            coord.in_bounds(),
            ly <= height,
            tiles@.len() == ly * width,
            forall|jx: int, jy: int|
                0 <= jx < width && 0 <= jy < ly ==> tiles@[row_index(width as int, jx, jy)]
                    == spec_classify(
                    (coord.x * width + jx) as i32,
                    (coord.y * height + jy) as i32,
                    seed,
                ),
        decreases height - ly,
    {
        let mut lx: u32 = 0;
        while lx < width
            invariant
                1 <= width <= 64,
                1 <= height <= 64,
                coord.in_bounds(),
                ly < height,
                lx <= width,
                tiles@.len() == ly * width + lx,
                forall|jx: int, jy: int|
                    0 <= jx < width && 0 <= jy < ly ==> tiles@[row_index(width as int, jx, jy)]
                        == spec_classify(
                        (coord.x * width + jx) as i32,
                        (coord.y * height + jy) as i32,
                        seed,
                    ),
                forall|jx: int|
                    0 <= jx < lx ==> tiles@[row_index(width as int, jx, ly as int)]
                        == spec_classify(
                        (coord.x * width + jx) as i32,
                        (coord.y * height + ly) as i32,
                        seed,
                    ),
            decreases width - lx,
        {
            proof {
                lemma_world_tile_in_range(coord.x as int, width as int, lx as int);
                lemma_world_tile_in_range(coord.y as int, height as int, ly as int);
                lemma_row_index_bound(width as int, height as int, lx as int, ly as int);
            }
            let wx = coord.x * (width as i32) + (lx as i32);
            let wy = coord.y * (height as i32) + (ly as i32);
            let t = classify(wx, wy, seed);
            tiles.push(t);
            proof {
                assert forall|jx: int, jy: int| 0 <= jx < width && 0 <= jy < ly implies 0 <= (
                #[trigger] row_index(width as int, jx, jy)) < (ly * width + lx) by {
                    assert(0 <= jy * width + jx < ly * width + lx) by (nonlinear_arith)
                        requires
                            0 <= jx < width,
                            0 <= jy < ly,
                            0 <= lx,
                    ;
                }
            }
            lx = lx + 1;
        }
        ly = ly + 1;
        proof {
            assert(tiles@.len() == (ly - 1) * width + width);
            assert((ly - 1) * width + width == ly * width) by (nonlinear_arith);
        }
    }
    proof {
        assert(tiles@.len() == height * width);
        assert(height * width == width * height) by (nonlinear_arith);
    }
    Chunk { coord, width, height, tiles }
}

/// Determinism of generation: any two chunks that both satisfy
/// `generate`'s contract for the same coordinate, geometry and seed have
/// equal tiles in every cell.
pub proof fn lemma_generate_deterministic(r1: Chunk, r2: Chunk, seed: u64)
    requires
        r1.wf(),
        r2.wf(),
        r1.coord == r2.coord,
        r1.width == r2.width,
        r1.height == r2.height,
        r1.generated_from(seed),
        r2.generated_from(seed),
    ensures
        forall|lx: int, ly: int|
            0 <= lx < r1.width && 0 <= ly < r1.height ==> r1.spec_tile(lx, ly) == r2.spec_tile(
                lx,
                ly,
            ),
{
}

} // verus!
