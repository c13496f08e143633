//! Camera/input adapter: from a directional input signal to a per-tick
//! viewpoint displacement.
//!
//! The adapter maps a discrete direction (each axis -1, 0 or +1) to a
//! displacement scaled by a fixed speed constant and the elapsed tick
//! time, optionally scaling diagonal movement down so that it is not
//! faster than axis-aligned movement. It only produces the viewpoint the
//! streaming controller consumes; it never touches the registry.

use vstd::prelude::*;

verus! {

use crate::coords::{WorldPos, VIEW_LIMIT};

/// Fixed-point approximation of 1/sqrt(2) in thousandths, used to scale
/// diagonal movement.
pub const DIAGONAL_SCALE_NUM: u64 = 707;

pub const DIAGONAL_SCALE_DEN: u64 = 1000;

/// Largest speed, in world units per second, the library accepts.
pub const SPEED_LIMIT: u32 = 10_000;

/// Largest tick duration, in milliseconds, the library accepts.
pub const TICK_MS_LIMIT: u32 = 10_000;

/// Camera movement configuration: speed in world units per second, and
/// whether diagonal movement is normalized.
#[derive(Clone, Copy, PartialEq, Eq, Structural, Debug)]
pub struct CameraConfig {
    pub speed: u32,
    pub normalize_diagonal: bool,
}

impl CameraConfig {
    pub open spec fn wf(self) -> bool {
        1 <= self.speed <= SPEED_LIMIT
    }
}

/// A per-tick directional input: each axis is -1, 0 or +1.
#[derive(Clone, Copy, PartialEq, Eq, Structural, Debug)]
pub struct MoveInput {
    pub dx: i8,
    pub dy: i8,
}

impl MoveInput {
    pub open spec fn wf(self) -> bool {
        -1 <= self.dx <= 1 && -1 <= self.dy <= 1
    }
}

/// World units travelled in one tick along a full axis: the speed scaled
/// by the elapsed milliseconds, reduced by the diagonal factor when both
/// axes are active and normalization is on.
pub open spec fn spec_step(input: MoveInput, cfg: CameraConfig, dt_ms: u32) -> int {
    let base = (cfg.speed * dt_ms) as int / 1000;
    if cfg.normalize_diagonal && input.dx != 0 && input.dy != 0 {
        base * DIAGONAL_SCALE_NUM as int / (DIAGONAL_SCALE_DEN as int)
    } else {
        base
    }
}

/// The displacement of one tick: the input direction scaled by the step.
pub open spec fn spec_displacement(input: MoveInput, cfg: CameraConfig, dt_ms: u32) -> (int, int) {
    (input.dx * spec_step(input, cfg, dt_ms), input.dy * spec_step(input, cfg, dt_ms))
}

/// Map a directional input to this tick's displacement vector. With
/// normalization on, the squared length of a diagonal displacement never
/// exceeds the squared axis-aligned step, so diagonal movement is not
/// faster than axis-aligned movement.
pub fn displacement(input: MoveInput, cfg: CameraConfig, dt_ms: u32) -> (r: (i64, i64))
    requires
        input.wf(),
        cfg.wf(),
        dt_ms <= TICK_MS_LIMIT,
    ensures
        (r.0 as int, r.1 as int) == spec_displacement(input, cfg, dt_ms),
        -100_000 <= r.0 <= 100_000,
        -100_000 <= r.1 <= 100_000,
        cfg.normalize_diagonal ==> {
            let base = (cfg.speed * dt_ms) as int / 1000;
            r.0 * r.0 + r.1 * r.1 <= base * base
        },
{
    proof {
        assert(cfg.speed * dt_ms <= 100_000_000) by (nonlinear_arith)
            requires
                cfg.speed <= SPEED_LIMIT,
                dt_ms <= TICK_MS_LIMIT,
        ;
    }
    let base = ((cfg.speed as u64) * (dt_ms as u64)) / 1000;
    proof {
        vstd::arithmetic::div_mod::lemma_div_is_ordered(
            cfg.speed * dt_ms,
            100_000_000,
            1000,
        );
        assert(base <= 100_000);
        assert(base * 707 <= 100_000_000) by (nonlinear_arith)
            requires
                base <= 100_000,
        ;
    }
    let step = if cfg.normalize_diagonal && input.dx != 0 && input.dy != 0 {
        base * DIAGONAL_SCALE_NUM / DIAGONAL_SCALE_DEN
    } else {
        base
    };
    proof {
        vstd::arithmetic::div_mod::lemma_div_is_ordered(
            base as int * 707,
            100_000_000,
            1000,
        );
        assert(step <= 100_000);
        if cfg.normalize_diagonal {
            if input.dx != 0 && input.dy != 0 {
                // 1000 * step <= 707 * base, so squaring both sides gives
                // 2 * step^2 below base^2.
                assert(1000 * step <= 707 * base) by {
                    vstd::arithmetic::div_mod::lemma_fundamental_div_mod(base as int * 707, 1000);
                }
                assert(2 * (step * step) <= base * base) by (nonlinear_arith)
                    requires
                        1000 * (step as int) <= 707 * (base as int),
                        0 <= step,
                        0 <= base,
                ;
            } else {
                assert(step * step <= base * base) by (nonlinear_arith)
                    requires
                        0 <= step <= base,
                ;
            }
        }
    }
    proof {
        assert(-100_000 <= input.dx * step <= 100_000 && -100_000 <= input.dy * step <= 100_000)
            by (nonlinear_arith)
            requires
                -1 <= input.dx <= 1,
                -1 <= input.dy <= 1,
                0 <= step <= 100_000,
        ;
    }
    let sx = (input.dx as i64) * (step as i64);
    let sy = (input.dy as i64) * (step as i64);
    proof {
        if cfg.normalize_diagonal {
            if input.dx != 0 && input.dy != 0 {
                assert(sx * sx + sy * sy <= 2 * (step * step)) by (nonlinear_arith)
                    requires
                        -1 <= input.dx <= 1,
                        -1 <= input.dy <= 1,
                        sx == input.dx as int * (step as int),
                        sy == input.dy as int * (step as int),
                        0 <= step,
                ;
            } else {
                assert(sx * sx + sy * sy <= step * step) by (nonlinear_arith)
                    requires
                        input.dx == 0 || input.dy == 0,
                        -1 <= input.dx <= 1,
                        -1 <= input.dy <= 1,
                        sx == input.dx as int * (step as int),
                        sy == input.dy as int * (step as int),
                        0 <= step,
                ;
            }
        }
    }
    (sx, sy)
}

/// Clamp a value into the world's playable range.
pub open spec fn spec_clamp_view(v: int) -> int {
    if v < -VIEW_LIMIT {
        -VIEW_LIMIT as int
    } else if v > VIEW_LIMIT {
        VIEW_LIMIT as int
    } else {
        v
    }
}

/// Apply a displacement to the viewpoint, saturating at the world's
/// playable range instead of wrapping.
pub fn apply_displacement(vp: WorldPos, d: (i64, i64)) -> (r: WorldPos)
    requires
        vp.in_bounds(),
        -1_000_000 <= d.0 <= 1_000_000,
        -1_000_000 <= d.1 <= 1_000_000,
    ensures
        r.x == spec_clamp_view(vp.x + d.0),
        r.y == spec_clamp_view(vp.y + d.1),
        r.in_bounds(),
{
    let nx = vp.x + d.0;
    let ny = vp.y + d.1;
    let cx = if nx < -VIEW_LIMIT {
        -VIEW_LIMIT
    } else if nx > VIEW_LIMIT {
        VIEW_LIMIT
    } else {
        nx
    };
    let cy = if ny < -VIEW_LIMIT {
        -VIEW_LIMIT
    } else if ny > VIEW_LIMIT {
        VIEW_LIMIT
    } else {
        ny
    };
    WorldPos { x: cx, y: cy }
}

} // verus!
