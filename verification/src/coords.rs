//! Coordinate types and the conversions between them.
//!
//! The world is an infinite integer grid of tiles; tiles are grouped into
//! fixed-size chunks. A viewpoint lives in continuous world space, held
//! here as whole world units, and its containing chunk is found by
//! division that floors toward negative infinity, so that positions just
//! below zero land in the chunk at coordinate -1 rather than 0.

use vstd::prelude::*;

verus! {

use vstd::arithmetic::div_mod::{
    lemma_div_is_ordered,
    lemma_div_multiples_vanish,
    lemma_div_nonincreasing,
    lemma_div_pos_is_pos,
    lemma_div_of0,
};

/// Largest magnitude accepted for a chunk coordinate component. Chosen so
/// that a world tile coordinate, chunk coordinate times chunk dimension
/// plus local offset, always fits in an `i32`.
pub const CHUNK_COORD_LIMIT: i32 = 33_000_000;

/// Largest magnitude accepted for a viewpoint world position component.
/// Leaves room below `CHUNK_COORD_LIMIT` so that every chunk within any
/// configured render distance of a viewpoint has in-range coordinates.
pub const VIEW_LIMIT: i64 = 30_000_000;

/// Identifies one chunk on the infinite grid; equality is by value.
#[derive(Clone, Copy, PartialEq, Eq, Structural, Debug, Hash)]
pub struct ChunkCoord {
    pub x: i32,
    pub y: i32,
}

/// A position in world space, in whole world units.
#[derive(Clone, Copy, PartialEq, Eq, Structural, Debug)]
pub struct WorldPos {
    pub x: i64,
    pub y: i64,
}

/// Grid geometry: the world-unit size of one square tile and the tile
/// dimensions of one chunk.
#[derive(Clone, Copy, PartialEq, Eq, Structural, Debug)]
pub struct GridConfig {
    pub tile_size: u32,
    pub chunk_width: u32,
    pub chunk_height: u32,
}

impl ChunkCoord {
    /// Both components within the range the library's arithmetic covers.
    pub open spec fn in_bounds(self) -> bool {
        -CHUNK_COORD_LIMIT <= self.x <= CHUNK_COORD_LIMIT
            && -CHUNK_COORD_LIMIT <= self.y <= CHUNK_COORD_LIMIT
    }

    pub fn new(x: i32, y: i32) -> (r: ChunkCoord)
        ensures
            r.x == x,
            r.y == y,
    {
        ChunkCoord { x, y }
    }
}

impl WorldPos {
    /// Both components within the range the library's arithmetic covers.
    pub open spec fn in_bounds(self) -> bool {
        -VIEW_LIMIT <= self.x <= VIEW_LIMIT && -VIEW_LIMIT <= self.y <= VIEW_LIMIT
    }

    pub fn new(x: i64, y: i64) -> (r: WorldPos)
        ensures
            r.x == x,
            r.y == y,
    {
        WorldPos { x, y }
    }
}

impl GridConfig {
    /// Geometry the library accepts: nonzero dimensions, small enough
    /// that all derived products fit comfortably in the integer types.
    pub open spec fn wf(self) -> bool {
        1 <= self.tile_size <= 1024 && 1 <= self.chunk_width <= 64 && 1 <= self.chunk_height
            <= 64
    }

    /// World units spanned by one chunk along the x axis.
    pub open spec fn spec_extent_x(self) -> int {
        self.chunk_width * self.tile_size
    }

    /// World units spanned by one chunk along the y axis.
    pub open spec fn spec_extent_y(self) -> int {
        self.chunk_height * self.tile_size
    }

    pub fn extent_x(&self) -> (r: u32)
        requires
            self.wf(),
        ensures
            r == self.spec_extent_x(),
            1 <= r <= 65536,
    {
        proof {
            assert(1 <= self.chunk_width * self.tile_size <= 65536) by (nonlinear_arith)
                requires
                    1 <= self.chunk_width <= 64,
                    1 <= self.tile_size <= 1024,
            ;
        }
        self.chunk_width * self.tile_size
    }

    pub fn extent_y(&self) -> (r: u32)
        requires
            self.wf(),
        ensures
            r == self.spec_extent_y(),
            1 <= r <= 65536,
    {
        proof {
            assert(1 <= self.chunk_height * self.tile_size <= 65536) by (nonlinear_arith)
                requires
                    1 <= self.chunk_height <= 64,
                    1 <= self.tile_size <= 1024,
            ;
        }
        self.chunk_height * self.tile_size
    }
}

/// The world-unit extent of a chunk on each axis is positive and small.
pub proof fn lemma_extent_bounds(cfg: GridConfig)
    requires
        cfg.wf(),
    ensures
        1 <= cfg.spec_extent_x() <= 65536,
        1 <= cfg.spec_extent_y() <= 65536,
{
    assert(1 <= cfg.chunk_width * cfg.tile_size <= 65536) by (nonlinear_arith)
        requires
            1 <= cfg.chunk_width <= 64,
            1 <= cfg.tile_size <= 1024,
    ;
    assert(1 <= cfg.chunk_height * cfg.tile_size <= 65536) by (nonlinear_arith)
        requires
            1 <= cfg.chunk_height <= 64,
            1 <= cfg.tile_size <= 1024,
    ;
}

/// Quotient of `a` and `b` rounded toward negative infinity. For a
/// positive divisor this is exactly the mathematical (Euclidean)
/// quotient `a / b` of the specification language.
pub proof fn lemma_floor_div_range(a: int, b: int)
    requires
        1 <= b,
        i64::MIN <= a <= i64::MAX,
    ensures
        a >= 0 ==> 0 <= a / b <= a,
        a < 0 ==> a <= a / b <= 0,
{
    if a >= 0 {
        lemma_div_nonincreasing(a, b);
        if a > 0 {
            lemma_div_pos_is_pos(a, b);
        } else {
            lemma_div_of0(b);
        }
    } else {
        // b*a <= a because b >= 1 and a < 0, so (b*a)/b <= a/b, and
        // (b*a)/b == a.
        assert(b * a <= a) by (nonlinear_arith)
            requires
                a < 0,
                b >= 1,
        ;
        lemma_div_is_ordered(b * a, a, b);
        lemma_div_multiples_vanish(a, b);
        assert(a == (b * a) / b);
        assert(a <= a / b);
        lemma_div_is_ordered(a, 0, b);
        lemma_div_of0(b);
        assert(a / b <= 0);
    }
}

/// Division of world units flooring toward negative infinity.
pub fn floor_div(a: i64, b: i64) -> (q: i64)
    requires
        1 <= b,
    ensures
        q == a as int / b as int,
{
    proof {
        lemma_floor_div_range(a as int, b as int);
    }
    let r = a.checked_div_euclid(b);
    r.unwrap()
}

/// The chunk containing a world position: component-wise floored
/// division by the chunk's world-unit extent.
pub open spec fn spec_world_to_chunk(pos: WorldPos, cfg: GridConfig) -> (int, int) {
    (pos.x as int / cfg.spec_extent_x(), pos.y as int / cfg.spec_extent_y())
}

/// Maps a viewpoint position to the coordinate of the chunk that
/// contains it, flooring toward negative infinity on both axes.
pub fn world_to_chunk(pos: WorldPos, cfg: GridConfig) -> (r: ChunkCoord)
    requires
        cfg.wf(),
        pos.in_bounds(),
    ensures
        (r.x as int, r.y as int) == spec_world_to_chunk(pos, cfg),
        r.in_bounds(),
        -VIEW_LIMIT <= r.x <= VIEW_LIMIT,
        -VIEW_LIMIT <= r.y <= VIEW_LIMIT,
{
    let ex = cfg.extent_x() as i64;
    let ey = cfg.extent_y() as i64;
    proof {
        lemma_floor_div_range(pos.x as int, ex as int);
        lemma_floor_div_range(pos.y as int, ey as int);
    }
    let cx = floor_div(pos.x, ex);
    let cy = floor_div(pos.y, ey);
    ChunkCoord { x: cx as i32, y: cy as i32 }
}

/// World-space origin of a chunk: its coordinate scaled by the chunk's
/// world-unit extent on each axis.
pub open spec fn spec_chunk_origin(c: ChunkCoord, cfg: GridConfig) -> (int, int) {
    (c.x * cfg.spec_extent_x(), c.y * cfg.spec_extent_y())
}

/// The world-space transform of a chunk, derived purely from its
/// coordinate and the grid geometry.
pub fn chunk_origin(c: ChunkCoord, cfg: GridConfig) -> (r: WorldPos)
    requires
        cfg.wf(),
        c.in_bounds(),
    ensures
        (r.x as int, r.y as int) == spec_chunk_origin(c, cfg),
{
    let ex = cfg.extent_x() as i64;
    let ey = cfg.extent_y() as i64;
    proof {
        assert(-0x7fff_ffff_ffff_ffff <= c.x * ex <= 0x7fff_ffff_ffff_ffff) by (nonlinear_arith)
            requires
                -CHUNK_COORD_LIMIT <= c.x <= CHUNK_COORD_LIMIT,
                1 <= ex <= 65536,
        ;
        assert(-0x7fff_ffff_ffff_ffff <= c.y * ey <= 0x7fff_ffff_ffff_ffff) by (nonlinear_arith)
            requires
                -CHUNK_COORD_LIMIT <= c.y <= CHUNK_COORD_LIMIT,
                1 <= ey <= 65536,
        ;
    }
    WorldPos { x: (c.x as i64) * ex, y: (c.y as i64) * ey }
}

/// Round trip between a chunk coordinate and world space: the chunk
/// containing a chunk's origin is that chunk itself, so a chunk's
/// world-space transform never drifts onto a neighbouring coordinate.
pub proof fn lemma_origin_round_trip(c: ChunkCoord, cfg: GridConfig)
    requires
        cfg.wf(),
    ensures
        spec_chunk_origin(c, cfg).0 / cfg.spec_extent_x() == c.x as int,
        spec_chunk_origin(c, cfg).1 / cfg.spec_extent_y() == c.y as int,
{
    lemma_extent_bounds(cfg);
    lemma_div_multiples_vanish(c.x as int, cfg.spec_extent_x());
    lemma_div_multiples_vanish(c.y as int, cfg.spec_extent_y());
    assert(c.x * cfg.spec_extent_x() == cfg.spec_extent_x() * c.x);
    assert(c.y * cfg.spec_extent_y() == cfg.spec_extent_y() * c.y);
}

} // verus!
