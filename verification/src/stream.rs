//! The streaming controller: deciding, once per tick, which chunks to
//! materialize and which to evict around a moving viewpoint.
//!
//! A chunk is wanted when it lies within the configured range of the
//! viewpoint: either a rectangular render distance in chunks around the
//! viewpoint's chunk (the default), or a radial policy keeping chunks
//! whose center lies within a world-unit radius of the viewpoint. Each
//! tick diffs the wanted set against the registry: missing wanted chunks
//! are registered and reported for materialization, registered chunks no
//! longer in range are unregistered and reported for destruction.

use vstd::prelude::*;

verus! {

use crate::coords::{
    ChunkCoord,
    GridConfig,
    WorldPos,
    lemma_extent_bounds,
    spec_world_to_chunk,
    world_to_chunk,
    CHUNK_COORD_LIMIT,
    VIEW_LIMIT,
};
use crate::registry::Registry;
use vstd::arithmetic::div_mod::{lemma_fundamental_div_mod, lemma_div_is_ordered};

/// Largest render distance, in chunks per axis, the library accepts.
pub const RENDER_DISTANCE_LIMIT: u32 = 1024;

/// Largest radial render distance, in world units, the library accepts.
pub const RADIUS_LIMIT: u32 = 1_048_576;

/// How "near the viewpoint" is measured.
#[derive(Clone, Copy, PartialEq, Eq, Structural, Debug)]
pub enum RangePolicy {
    /// All chunks within a rectangular distance, in chunks and
    /// independent per axis, of the viewpoint's own chunk.
    Rect { rx: u32, ry: u32 },
    /// All chunks whose world-space center lies within a Euclidean
    /// distance, in world units, of the viewpoint.
    Radial { radius: u32 },
}

/// Streaming configuration: grid geometry plus range policy.
#[derive(Clone, Copy, PartialEq, Eq, Structural, Debug)]
pub struct StreamConfig {
    pub grid: GridConfig,
    pub policy: RangePolicy,
}

impl StreamConfig {
    pub open spec fn wf(self) -> bool {
        &&& self.grid.wf()
        &&& match self.policy {
            RangePolicy::Rect { rx, ry } => rx <= RENDER_DISTANCE_LIMIT && ry
                <= RENDER_DISTANCE_LIMIT,
            RangePolicy::Radial { radius } => radius <= RADIUS_LIMIT,
        }
    }
}

/// The world-space center of a chunk on one axis: the chunk origin plus
/// half the chunk's extent.
pub open spec fn spec_center_coord(c: int, extent: int) -> int {
    c * extent + extent / 2
}

/// Whether a chunk is wanted for a viewpoint: inside the rectangular
/// render distance around the viewpoint's chunk, or, under the radial
/// policy, with its center within the configured world-unit radius of
/// the viewpoint.
pub open spec fn spec_in_range(c: ChunkCoord, vp: WorldPos, cfg: StreamConfig) -> bool {
    match cfg.policy {
        RangePolicy::Rect { rx, ry } => {
            let center = spec_world_to_chunk(vp, cfg.grid);
            &&& -(rx as int) <= c.x - center.0 <= rx as int
            &&& -(ry as int) <= c.y - center.1 <= ry as int
        },
        RangePolicy::Radial { radius } => {
            let ox = spec_center_coord(c.x as int, cfg.grid.spec_extent_x()) - vp.x;
            let oy = spec_center_coord(c.y as int, cfg.grid.spec_extent_y()) - vp.y;
            ox * ox + oy * oy <= (radius as int) * (radius as int)
        },
    }
}

/// The wanted set of a viewpoint: every chunk coordinate in range.
pub open spec fn spec_wanted(vp: WorldPos, cfg: StreamConfig) -> Set<ChunkCoord> {
    Set::new(|c: ChunkCoord| spec_in_range(c, vp, cfg))
}

/// Half-width, in chunks, of a bounding box around the viewpoint's chunk
/// that contains every wanted chunk.
pub open spec fn spec_half_x(cfg: StreamConfig) -> int {
    match cfg.policy {
        RangePolicy::Rect { rx, .. } => rx as int,
        RangePolicy::Radial { radius } => radius as int / cfg.grid.spec_extent_x() + 2,
    }
}

pub open spec fn spec_half_y(cfg: StreamConfig) -> int {
    match cfg.policy {
        RangePolicy::Rect { ry, .. } => ry as int,
        RangePolicy::Radial { radius } => radius as int / cfg.grid.spec_extent_y() + 2,
    }
}

/// On one axis: a chunk whose center lies within `r` world units of a
/// position inside chunk `q` is at most `r / extent + 2` chunks from `q`.
proof fn lemma_radial_axis_bound(c: int, v: int, extent: int, r: int)
    requires
        1 <= extent,
        0 <= r,
        -r <= c * extent + extent / 2 - v <= r,
    ensures
        v / extent - (r / extent + 2) <= c <= v / extent + (r / extent + 2),
{
    let q = v / extent;
    let k = r / extent;
    lemma_fundamental_div_mod(v, extent);
    lemma_fundamental_div_mod(r, extent);
    let vm = v % extent;
    let rm = r % extent;
    assert(0 <= vm < extent);
    assert(0 <= rm < extent);
    assert(0 <= extent / 2 < extent) by {
        lemma_fundamental_div_mod(extent, 2);
        assert(0 <= extent % 2 < 2);
        lemma_div_is_ordered(0, extent, 2);
        assert(2 * (extent / 2) <= 2 * (extent / 2) + extent % 2);
    }
    assert(0 <= k) by {
        lemma_div_is_ordered(0, r, extent);
    }
    // c * extent <= v + r <= (q + k + 2) * extent - 1, so c <= q + k + 1.
    assert(c * extent <= v + r);
    assert(v + r == extent * q + vm + extent * k + rm);
    assert(c * extent < (q + k + 2) * extent) by (nonlinear_arith)
        requires
            c * extent <= extent * q + vm + extent * k + rm,
            vm < extent,
            rm < extent,
            1 <= extent,
    ;
    assert(c < q + k + 2) by (nonlinear_arith)
        requires
            c * extent < (q + k + 2) * extent,
            1 <= extent,
    ;
    // c * extent >= v - r - extent / 2 > (q - k - 2) * extent, so c > q - k - 2.
    assert(c * extent + extent / 2 >= v - r);
    assert(v - r == extent * q + vm - extent * k - rm);
    assert(c * extent > (q - k - 2) * extent) by (nonlinear_arith)
        requires
            c * extent + extent / 2 >= extent * q + vm - extent * k - rm,
            0 <= vm,
            rm < extent,
            0 <= extent / 2 < extent,
            1 <= extent,
    ;
    assert(c > q - k - 2) by (nonlinear_arith)
        requires
            c * extent > (q - k - 2) * extent,
            1 <= extent,
    ;
}

/// Every wanted chunk lies inside the bounding box around the
/// viewpoint's chunk given by `spec_half_x` and `spec_half_y`.
proof fn lemma_in_range_in_box(c: ChunkCoord, vp: WorldPos, cfg: StreamConfig)
    requires
        cfg.wf(),
        spec_in_range(c, vp, cfg),
    ensures
        spec_world_to_chunk(vp, cfg.grid).0 - spec_half_x(cfg) <= c.x as int
            <= spec_world_to_chunk(vp, cfg.grid).0 + spec_half_x(cfg),
        spec_world_to_chunk(vp, cfg.grid).1 - spec_half_y(cfg) <= c.y as int
            <= spec_world_to_chunk(vp, cfg.grid).1 + spec_half_y(cfg),
{
    lemma_extent_bounds(cfg.grid);
    match cfg.policy {
        RangePolicy::Rect { rx, ry } => {},
        RangePolicy::Radial { radius } => {
            let ex = cfg.grid.spec_extent_x();
            let ey = cfg.grid.spec_extent_y();
            let ox = spec_center_coord(c.x as int, ex) - vp.x;
            let oy = spec_center_coord(c.y as int, ey) - vp.y;
            assert(-(radius as int) <= ox <= radius as int && -(radius as int) <= oy
                <= radius as int) by (nonlinear_arith)
                requires
                    ox * ox + oy * oy <= (radius as int) * (radius as int),
                    0 <= radius as int,
            ;
            lemma_radial_axis_bound(c.x as int, vp.x as int, ex, radius as int);
            lemma_radial_axis_bound(c.y as int, vp.y as int, ey, radius as int);
        },
    }
}

/// Whether a chunk is wanted for a viewpoint under the configured range
/// policy.
pub fn chunk_in_range(c: ChunkCoord, vp: WorldPos, cfg: StreamConfig) -> (r: bool)
    requires
        cfg.wf(),
        vp.in_bounds(),
        c.in_bounds(),
    ensures
        r == spec_in_range(c, vp, cfg),
{
    proof {
        lemma_extent_bounds(cfg.grid);
    }
    match cfg.policy {
        RangePolicy::Rect { rx, ry } => {
            let center = world_to_chunk(vp, cfg.grid);
            let dx = c.x as i64 - center.x as i64;
            let dy = c.y as i64 - center.y as i64;
            -(rx as i64) <= dx && dx <= rx as i64 && -(ry as i64) <= dy && dy <= ry as i64
        },
        RangePolicy::Radial { radius } => {
            let ex = cfg.grid.extent_x() as i64;
            let ey = cfg.grid.extent_y() as i64;
            proof {
                assert(-0x1_0000_0000_0000 <= c.x * ex <= 0x1_0000_0000_0000) by (nonlinear_arith)
                    requires
                        -CHUNK_COORD_LIMIT <= c.x <= CHUNK_COORD_LIMIT,
                        1 <= ex <= 65536,
                ;
                assert(-0x1_0000_0000_0000 <= c.y * ey <= 0x1_0000_0000_0000) by (nonlinear_arith)
                    requires
                        -CHUNK_COORD_LIMIT <= c.y <= CHUNK_COORD_LIMIT,
                        1 <= ey <= 65536,
                ;
            }
            let ox = (c.x as i64) * ex + ex / 2 - vp.x;
            let oy = (c.y as i64) * ey + ey / 2 - vp.y;
            let rr = radius as i64;
            if ox < -rr || ox > rr || oy < -rr || oy > rr {
                // An offset beyond the radius on either axis already puts
                // the squared distance past the squared radius.
                proof {
                    assert((ox as int) * (ox as int) + (oy as int) * (oy as int) > (rr as int) * (
                    rr as int)) by (nonlinear_arith)
                        requires
                            0 <= rr,
                            ox < -rr || ox > rr || oy < -rr || oy > rr,
                    ;
                }
                false
            } else {
                proof {
                    assert(0 <= (ox as int) * (ox as int) <= 0x100_0000_0000 && 0 <= (oy as int) * (
                    oy as int) <= 0x100_0000_0000 && 0 <= (rr as int) * (rr as int)
                        <= 0x100_0000_0000) by (nonlinear_arith)
                        requires
                            -rr <= ox <= rr,
                            -rr <= oy <= rr,
                            0 <= rr <= RADIUS_LIMIT,
                    ;
                }
                ox * ox + oy * oy <= rr * rr
            }
        },
    }
}

/// Enumerate the wanted set of a viewpoint. The result holds each wanted
/// coordinate exactly once and nothing else: a coordinate is in the list
/// if and only if it is in range, so the wanted chunks tile the
/// configured rectangle (or disk) around the viewpoint's chunk with no
/// gap.
pub fn wanted_chunks(vp: WorldPos, cfg: StreamConfig) -> (r: Vec<ChunkCoord>)
    requires
        cfg.wf(),
        vp.in_bounds(),
    ensures
        r@.no_duplicates(),
        forall|c: ChunkCoord| r@.contains(c) <==> spec_in_range(c, vp, cfg),
        forall|i: int| 0 <= i < r@.len() ==> r@[i].in_bounds(),
{
    broadcast use vstd::seq_lib::lemma_seq_contains_after_push;

    proof {
        lemma_extent_bounds(cfg.grid);
    }
    let center = world_to_chunk(vp, cfg.grid);
    let hx: i64;
    let hy: i64;
    match cfg.policy {
        RangePolicy::Rect { rx, ry } => {
            hx = rx as i64;
            hy = ry as i64;
        },
        RangePolicy::Radial { radius } => {
            hx = (radius / cfg.grid.extent_x()) as i64 + 2;
            hy = (radius / cfg.grid.extent_y()) as i64 + 2;
        },
    }
    proof {
        assert(hx == spec_half_x(cfg));
        assert(hy == spec_half_y(cfg));
        assert(0 <= hx <= 1_048_578);
        assert(0 <= hy <= 1_048_578);
    }
    let x_lo = center.x as i64 - hx;
    let x_hi = center.x as i64 + hx;
    let y_lo = center.y as i64 - hy;
    let y_hi = center.y as i64 + hy;
    let mut out: Vec<ChunkCoord> = Vec::new();
    proof {
        assert forall|c: ChunkCoord| spec_in_range(c, vp, cfg) implies y_lo <= c.y by {
            lemma_in_range_in_box(c, vp, cfg);
        }
    }
    let mut cy: i64 = y_lo;
    while cy <= y_hi
        invariant
            cfg.wf(),
            vp.in_bounds(),
            center.x as int == spec_world_to_chunk(vp, cfg.grid).0,
            center.y as int == spec_world_to_chunk(vp, cfg.grid).1,
            -VIEW_LIMIT <= center.x <= VIEW_LIMIT,
            -VIEW_LIMIT <= center.y <= VIEW_LIMIT,
            hx == spec_half_x(cfg),
            hy == spec_half_y(cfg),
            0 <= hx <= 1_048_578,
            0 <= hy <= 1_048_578,
            x_lo == center.x - hx,
            x_hi == center.x + hx,
            y_lo == center.y - hy,
            y_hi == center.y + hy,
            y_lo <= cy <= y_hi + 1,
            out@.no_duplicates(),
            forall|i: int| 0 <= i < out@.len() ==> (#[trigger] out@[i]).in_bounds(),
            forall|c: ChunkCoord| #[trigger]
                out@.contains(c) <==> (spec_in_range(c, vp, cfg) && c.y < cy),
        decreases y_hi + 1 - cy,
    {
        proof {
            assert forall|c: ChunkCoord| spec_in_range(c, vp, cfg) implies x_lo <= c.x by {
                lemma_in_range_in_box(c, vp, cfg);
            }
        }
        let mut cx: i64 = x_lo;
        while cx <= x_hi
            invariant
                cfg.wf(),
                vp.in_bounds(),
                center.x as int == spec_world_to_chunk(vp, cfg.grid).0,
                center.y as int == spec_world_to_chunk(vp, cfg.grid).1,
                -VIEW_LIMIT <= center.x <= VIEW_LIMIT,
                -VIEW_LIMIT <= center.y <= VIEW_LIMIT,
                hx == spec_half_x(cfg),
                hy == spec_half_y(cfg),
                0 <= hx <= 1_048_578,
                0 <= hy <= 1_048_578,
                x_lo == center.x - hx,
                x_hi == center.x + hx,
                y_lo == center.y - hy,
                y_hi == center.y + hy,
                y_lo <= cy <= y_hi,
                x_lo <= cx <= x_hi + 1,
                out@.no_duplicates(),
                forall|i: int| 0 <= i < out@.len() ==> (#[trigger] out@[i]).in_bounds(),
                forall|c: ChunkCoord| #[trigger]
                    out@.contains(c) <==> (spec_in_range(c, vp, cfg) && (c.y < cy || (c.y == cy
                        && c.x < cx))),
            decreases x_hi + 1 - cx,
        {
            let cand = ChunkCoord { x: cx as i32, y: cy as i32 };
            let ghost prev = out@;
            let hit = chunk_in_range(cand, vp, cfg);
            if hit {
                proof {
                    assert(!prev.contains(cand));
                    assert(forall|j: int| 0 <= j < prev.len() ==> prev[j] != cand);
                }
                out.push(cand);
            }
            proof {
                assert(out@.no_duplicates());
                assert forall|c: ChunkCoord| #[trigger]
                    out@.contains(c) <==> (spec_in_range(c, vp, cfg) && (c.y < cy || (c.y == cy
                        && c.x < cx + 1))) by {
                    if hit {
                        vstd::seq_lib::lemma_seq_contains_after_push(prev, cand, c);
                    }
                    assert(prev.contains(c) <==> (spec_in_range(c, vp, cfg) && (c.y < cy || (c.y
                        == cy && c.x < cx))));
                    if c.y == cy && c.x == cx {
                        assert(c == cand);
                    }
                }
            }
            cx = cx + 1;
        }
        proof {
            assert forall|c: ChunkCoord|
                spec_in_range(c, vp, cfg) && c.y == cy implies c.x < cx by {
                lemma_in_range_in_box(c, vp, cfg);
            }
        }
        cy = cy + 1;
    }
    proof {
        assert forall|c: ChunkCoord| spec_in_range(c, vp, cfg) implies c.y < cy by {
            lemma_in_range_in_box(c, vp, cfg);
        }
    }
    out
}

/// Register every listed chunk that is not yet registered, and report
/// exactly the newly registered ones.
fn spawn_missing(reg: &mut Registry, wanted: &Vec<ChunkCoord>) -> (spawned: Vec<ChunkCoord>)
    requires
        old(reg).wf(),
        wanted@.no_duplicates(),
    ensures
        final(reg).wf(),
        final(reg).members() == old(reg).members().union(wanted@.to_set()),
        spawned@.no_duplicates(),
        forall|c: ChunkCoord| #[trigger]
            spawned@.contains(c) <==> (wanted@.contains(c) && !old(reg).members().contains(c)),
{
    broadcast use vstd::seq_lib::lemma_seq_contains_after_push;

    let mut spawned: Vec<ChunkCoord> = Vec::new();
    let n = wanted.len();
    let mut i: usize = 0;
    proof {
        assert(reg.members() =~= old(reg).members().union(wanted@.take(0).to_set()));
    }
    while i < n
        invariant
            n == wanted@.len(),
            i <= n,
            wanted@.no_duplicates(),
            reg.wf(),
            reg.members() == old(reg).members().union(wanted@.take(i as int).to_set()),
            spawned@.no_duplicates(),
            forall|c: ChunkCoord| #[trigger]
                spawned@.contains(c) <==> (wanted@.take(i as int).contains(c) && !old(
                    reg,
                ).members().contains(c)),
        decreases n - i,
    {
        let c = wanted[i];
        let ghost prev_members = reg.members();
        let ghost prev_spawned = spawned@;
        let added = reg.insert(c);
        if added {
            spawned.push(c);
        }
        proof {
            assert(wanted@.take(i + 1) =~= wanted@.take(i as int).push(wanted@[i as int]));
            assert forall|d: ChunkCoord|
                #[trigger] reg.members().contains(d) <==> old(reg).members().union(
                    wanted@.take(i + 1).to_set(),
                ).contains(d) by {
                vstd::seq_lib::lemma_seq_contains_after_push(
                    wanted@.take(i as int),
                    wanted@[i as int],
                    d,
                );
                assert(prev_members.contains(d) <==> old(reg).members().union(
                    wanted@.take(i as int).to_set(),
                ).contains(d));
            }
            assert(reg.members() =~= old(reg).members().union(wanted@.take(i + 1).to_set()));
            assert forall|d: ChunkCoord| #[trigger]
                spawned@.contains(d) <==> (wanted@.take(i + 1).contains(d) && !old(
                    reg,
                ).members().contains(d)) by {
                vstd::seq_lib::lemma_seq_contains_after_push(
                    wanted@.take(i as int),
                    wanted@[i as int],
                    d,
                );
                if added {
                    vstd::seq_lib::lemma_seq_contains_after_push(prev_spawned, c, d);
                }
                assert(prev_spawned.contains(d) <==> (wanted@.take(i as int).contains(d) && !old(
                    reg,
                ).members().contains(d)));
            }
            assert(spawned@.no_duplicates()) by {
                if added {
                    assert(!prev_spawned.contains(c));
                    assert(forall|j: int| 0 <= j < prev_spawned.len() ==> prev_spawned[j] != c);
                }
            }
        }
        i = i + 1;
    }
    proof {
        assert(wanted@.take(n as int) =~= wanted@);
    }
    spawned
}

/// Unregister every registered chunk that is out of range, and report
/// exactly the unregistered ones.
fn evict_outside(reg: &mut Registry, vp: WorldPos, cfg: StreamConfig) -> (evicted: Vec<ChunkCoord>)
    requires
        old(reg).wf(),
        cfg.wf(),
        vp.in_bounds(),
        forall|c: ChunkCoord| #[trigger] old(reg).members().contains(c) ==> c.in_bounds(),
    ensures
        final(reg).wf(),
        forall|c: ChunkCoord| #[trigger]
            final(reg).members().contains(c) <==> (old(reg).members().contains(c) && spec_in_range(
                c,
                vp,
                cfg,
            )),
        evicted@.no_duplicates(),
        forall|c: ChunkCoord| #[trigger]
            evicted@.contains(c) <==> (old(reg).members().contains(c) && !spec_in_range(
                c,
                vp,
                cfg,
            )),
{
    broadcast use vstd::seq_lib::lemma_seq_contains_after_push;

    let members = reg.members_vec();
    let mut evicted: Vec<ChunkCoord> = Vec::new();
    let n = members.len();
    let mut i: usize = 0;
    while i < n
        invariant
            n == members@.len(),
            i <= n,
            cfg.wf(),
            vp.in_bounds(),
            members@.no_duplicates(),
            members@.to_set() == old(reg).members(),
            forall|c: ChunkCoord| #[trigger] old(reg).members().contains(c) ==> c.in_bounds(),
            reg.wf(),
            forall|c: ChunkCoord| #[trigger]
                reg.members().contains(c) <==> (old(reg).members().contains(c) && !(members@.take(
                    i as int,
                ).contains(c) && !spec_in_range(c, vp, cfg))),
            evicted@.no_duplicates(),
            forall|c: ChunkCoord| #[trigger]
                evicted@.contains(c) <==> (members@.take(i as int).contains(c) && !spec_in_range(
                    c,
                    vp,
                    cfg,
                )),
        decreases n - i,
    {
        let c = members[i];
        proof {
            assert(members@.contains(c));
            assert(old(reg).members().contains(c));
        }
        let ghost prev_members = reg.members();
        let ghost prev_evicted = evicted@;
        let keep = chunk_in_range(c, vp, cfg);
        if !keep {
            reg.remove(c);
            evicted.push(c);
        }
        proof {
            assert(members@.take(i + 1) =~= members@.take(i as int).push(members@[i as int]));
            assert forall|d: ChunkCoord| #[trigger]
                reg.members().contains(d) <==> (old(reg).members().contains(d) && !(members@.take(
                    i + 1,
                ).contains(d) && !spec_in_range(d, vp, cfg))) by {
                vstd::seq_lib::lemma_seq_contains_after_push(
                    members@.take(i as int),
                    members@[i as int],
                    d,
                );
                assert(prev_members.contains(d) <==> (old(reg).members().contains(d) && !(
                members@.take(i as int).contains(d) && !spec_in_range(d, vp, cfg))));
            }
            assert forall|d: ChunkCoord| #[trigger]
                evicted@.contains(d) <==> (members@.take(i + 1).contains(d) && !spec_in_range(
                    d,
                    vp,
                    cfg,
                )) by {
                vstd::seq_lib::lemma_seq_contains_after_push(
                    members@.take(i as int),
                    members@[i as int],
                    d,
                );
                if !keep {
                    vstd::seq_lib::lemma_seq_contains_after_push(prev_evicted, c, d);
                }
                assert(prev_evicted.contains(d) <==> (members@.take(i as int).contains(d)
                    && !spec_in_range(d, vp, cfg)));
            }
            assert(evicted@.no_duplicates()) by {
                if !keep {
                    assert(!members@.take(i as int).contains(c)) by {
                        if members@.take(i as int).contains(c) {
                            let j = choose|j: int|
                                0 <= j < i && members@.take(i as int)[j] == c;
                            assert(members@[j] == members@[i as int]);
                        }
                    }
                    assert(!prev_evicted.contains(c));
                    assert(forall|j: int| 0 <= j < prev_evicted.len() ==> prev_evicted[j] != c);
                }
            }
        }
        i = i + 1;
    }
    proof {
        assert(members@.take(n as int) =~= members@);
        assert forall|c: ChunkCoord| #[trigger]
            reg.members().contains(c) <==> (old(reg).members().contains(c) && spec_in_range(
                c,
                vp,
                cfg,
            )) by {
            assert(members@.contains(c) <==> old(reg).members().contains(c));
        }
    }
    evicted
}

/// One streaming tick. Converts the viewpoint to its chunk, diffs the
/// wanted set against the registry, registers and reports the missing
/// chunks for materialization, and unregisters and reports the chunks now
/// out of range for destruction. After the tick the registry holds
/// exactly the wanted set; a second tick with an unchanged viewpoint
/// reports no events at all.
pub fn tick(reg: &mut Registry, vp: WorldPos, cfg: StreamConfig) -> (events: (
    Vec<ChunkCoord>,
    Vec<ChunkCoord>,
))
    requires
        old(reg).wf(),
        cfg.wf(),
        vp.in_bounds(),
        forall|c: ChunkCoord| #[trigger] old(reg).members().contains(c) ==> c.in_bounds(),
    ensures
        final(reg).wf(),
        final(reg).members() == spec_wanted(vp, cfg),
        forall|c: ChunkCoord| #[trigger] final(reg).members().contains(c) ==> c.in_bounds(),
        events.0@.no_duplicates(),
        forall|c: ChunkCoord| #[trigger]
            events.0@.contains(c) <==> (spec_in_range(c, vp, cfg) && !old(reg).members().contains(
                c,
            )),
        forall|i: int| 0 <= i < events.0@.len() ==> (#[trigger] events.0@[i]).in_bounds(),
        events.1@.no_duplicates(),
        forall|c: ChunkCoord| #[trigger]
            events.1@.contains(c) <==> (old(reg).members().contains(c) && !spec_in_range(
                c,
                vp,
                cfg,
            )),
        old(reg).members() == spec_wanted(vp, cfg) ==> events.0@.len() == 0 && events.1@.len()
            == 0,
{
    let wanted = wanted_chunks(vp, cfg);
    let spawned = spawn_missing(reg, &wanted);
    let ghost mid = reg.members();
    let evicted = evict_outside(reg, vp, cfg);
    proof {
        // After spawning, the registry holds the old members plus every
        // wanted chunk; eviction then keeps exactly the wanted ones.
        assert(wanted@.to_set() =~= spec_wanted(vp, cfg));
        assert(reg.members() =~= spec_wanted(vp, cfg));
        assert forall|c: ChunkCoord| #[trigger] reg.members().contains(c) implies c.in_bounds() by {
            if reg.members().contains(c) {
                assert(wanted@.contains(c));
                let j = choose|j: int| 0 <= j < wanted@.len() && wanted@[j] == c;
            }
        }
        assert forall|c: ChunkCoord| #[trigger]
            evicted@.contains(c) <==> (old(reg).members().contains(c) && !spec_in_range(
                c,
                vp,
                cfg,
            )) by {
            assert(mid.contains(c) <==> old(reg).members().contains(c) || wanted@.contains(c));
        }
        assert forall|i: int| 0 <= i < spawned@.len() implies (#[trigger] spawned@[i]).in_bounds() by {
            assert(spawned@.contains(spawned@[i]));
            assert(wanted@.contains(spawned@[i]));
            let j = choose|j: int| 0 <= j < wanted@.len() && wanted@[j] == spawned@[i];
        }
        if old(reg).members() == spec_wanted(vp, cfg) {
            assert(spawned@.len() == 0) by {
                if spawned@.len() > 0 {
                    assert(spawned@.contains(spawned@[0]));
                }
            }
            assert(evicted@.len() == 0) by {
                if evicted@.len() > 0 {
                    assert(evicted@.contains(evicted@[0]));
                }
            }
        }
    }
    (spawned, evicted)
}

/// Registry/materialization agreement over one tick: if the materialized
/// chunks matched the registry before a tick, then materializing every
/// spawned chunk and destroying every evicted one makes them match the
/// registry after it; no spawned chunk was already materialized (a chunk
/// is never inserted twice without an intervening removal), and every
/// evicted chunk was materialized.
pub proof fn lemma_tick_preserves_tracking(
    mat: Set<ChunkCoord>,
    before: Set<ChunkCoord>,
    after: Set<ChunkCoord>,
    spawned: Seq<ChunkCoord>,
    evicted: Seq<ChunkCoord>,
    vp: WorldPos,
    cfg: StreamConfig,
)
    requires
        mat == before,
        after == spec_wanted(vp, cfg),
        forall|c: ChunkCoord| #[trigger]
            spawned.contains(c) <==> (spec_in_range(c, vp, cfg) && !before.contains(c)),
        forall|c: ChunkCoord| #[trigger]
            evicted.contains(c) <==> (before.contains(c) && !spec_in_range(c, vp, cfg)),
    ensures
        mat.union(spawned.to_set()).difference(evicted.to_set()) == after,
        forall|c: ChunkCoord| #[trigger] spawned.contains(c) ==> !mat.contains(c),
        forall|c: ChunkCoord| #[trigger] evicted.contains(c) ==> mat.contains(c),
{
    assert(mat.union(spawned.to_set()).difference(evicted.to_set()) =~= after);
}

} // verus!
