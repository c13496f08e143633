//! Deterministic seeded 2D noise field in fixed-point arithmetic.
//!
//! Positions are fixed-point numbers with `CELL` steps per lattice cell;
//! noise values are fixed-point numbers where `UNIT` stands for 1.0. The
//! base layer hashes the four surrounding lattice corners and
//! interpolates bilinearly between them; `fbm` accumulates several such
//! layers, starting at amplitude 1 and frequency 1 and multiplying the
//! amplitude by `gain` and the frequency by `lacunarity` after each
//! layer, then clamps the sum back into [-UNIT, UNIT]. Every function is
//! a total function of its arguments: the same position, parameters and
//! seed always give the same sample.

use vstd::prelude::*;

verus! {

use crate::coords::floor_div;
use vstd::arithmetic::div_mod::{lemma_div_is_ordered, lemma_div_multiples_vanish};

/// Fixed-point 1.0 for noise values and for the fBM gain.
pub const UNIT: i64 = 1024;

/// Fixed-point position steps per lattice cell.
pub const CELL: i64 = 1024;

/// Largest interpolated corner value: corners lie in [0, 2 * UNIT].
pub const CORNER_SPAN: i64 = 2048;

/// Largest magnitude accepted for a base-layer sample position.
pub const POS_LIMIT: i64 = 0x100_0000_0000_0000;

/// Largest magnitude accepted for an fBM sample position: leaves room
/// for the frequency growth of the deepest layer below `POS_LIMIT`.
pub const FBM_POS_LIMIT: i64 = 0x100_0000_0000;

/// Offset that makes lattice coordinates non-negative before hashing.
pub const LATTICE_OFFSET: i64 = 0x1_0000_0000_0000;

/// Fixed divisor applied to fBM input positions to control feature size.
pub const PRESCALE: i64 = 10;

/// Shape of one fBM channel: layer count, per-layer frequency factor,
/// and per-layer fixed-point amplitude factor (`UNIT` stands for 1.0).
#[derive(Clone, Copy, PartialEq, Eq, Structural, Debug)]
pub struct NoiseParams {
    pub octaves: u32,
    pub lacunarity: u32,
    pub gain: u32,
}

impl NoiseParams {
    /// Parameter ranges the library accepts.
    pub open spec fn wf(self) -> bool {
        1 <= self.octaves <= 8 && 1 <= self.lacunarity <= 4 && self.gain <= 1024
    }
}

/// 64-bit finalizing mixer: deterministic diffusion of one word.
pub open spec fn spec_mix64(z: u64) -> u64 {
    let a = (z ^ (z >> 33u64)).wrapping_mul(0xff51_afd7_ed55_8ccd);
    let b = (a ^ (a >> 33u64)).wrapping_mul(0xc4ce_b9fe_1a85_ec53);
    b ^ (b >> 33u64)
}

fn mix64(z: u64) -> (r: u64)
    ensures
        r == spec_mix64(z),
{
    let a = (z ^ (z >> 33u64)).wrapping_mul(0xff51_afd7_ed55_8ccd);
    let b = (a ^ (a >> 33u64)).wrapping_mul(0xc4ce_b9fe_1a85_ec53);
    b ^ (b >> 33u64)
}

/// Hash of one lattice corner under one seed.
pub open spec fn spec_corner_hash(x: int, y: int, seed: u64) -> u64 {
    spec_mix64(spec_mix64(spec_mix64(seed) ^ ((x + LATTICE_OFFSET) as u64)) ^ ((y
        + LATTICE_OFFSET) as u64))
}

/// Corner value drawn from a hash: an integer in [0, CORNER_SPAN].
pub open spec fn spec_corner(h: u64) -> int {
    (h as int) % (CORNER_SPAN + 1) as int
}

/// Linear interpolation between fixed-point corner values: `t` runs from
/// 0 (all `a`) to CELL (all `b`).
pub open spec fn spec_lerp(a: int, b: int, t: int) -> int {
    (a * (CELL - t) + b * t) / (CELL as int)
}

proof fn lemma_lerp_range(a: int, b: int, t: int)
    requires
        0 <= a <= CORNER_SPAN,
        0 <= b <= CORNER_SPAN,
        0 <= t <= CELL,
    ensures
        0 <= spec_lerp(a, b, t) <= CORNER_SPAN,
{
    assert(0 <= a * (CELL - t) + b * t <= CORNER_SPAN * CELL) by (nonlinear_arith)
        requires
            0 <= a <= CORNER_SPAN,
            0 <= b <= CORNER_SPAN,
            0 <= t <= CELL,
    ;
    lemma_div_is_ordered(0, a * (CELL - t) + b * t, CELL as int);
    lemma_div_is_ordered(a * (CELL - t) + b * t, CORNER_SPAN * CELL, CELL as int);
    lemma_div_multiples_vanish(CORNER_SPAN as int, CELL as int);
    assert(CORNER_SPAN * CELL == CELL * CORNER_SPAN);
}

fn lerp(a: u64, b: u64, t: u64) -> (r: u64)
    requires
        a <= CORNER_SPAN,
        b <= CORNER_SPAN,
        t <= CELL,
    ensures
        r as int == spec_lerp(a as int, b as int, t as int),
        r <= CORNER_SPAN,
{
    proof {
        lemma_lerp_range(a as int, b as int, t as int);
    }
    (a * ((CELL as u64) - t) + b * t) / (CELL as u64)
}

/// One coherent-noise layer: bilinear interpolation between the hashed
/// values of the four lattice corners around the position. The result is
/// an unsigned fixed-point value in [0, CORNER_SPAN]; `fbm` recenters
/// the accumulated sum around zero.
pub open spec fn spec_base_layer(px: int, py: int, seed: u64) -> int {
    let x0 = px / (CELL as int);
    let fx = px % (CELL as int);
    let y0 = py / (CELL as int);
    let fy = py % (CELL as int);
    let c00 = spec_corner(spec_corner_hash(x0, y0, seed));
    let c10 = spec_corner(spec_corner_hash(x0 + 1, y0, seed));
    let c01 = spec_corner(spec_corner_hash(x0, y0 + 1, seed));
    let c11 = spec_corner(spec_corner_hash(x0 + 1, y0 + 1, seed));
    spec_lerp(spec_lerp(c00, c10, fx), spec_lerp(c01, c11, fx), fy)
}

fn corner(x: i64, y: i64, seed: u64) -> (r: u64)
    requires
        -POS_LIMIT <= x <= POS_LIMIT + 1,
        -POS_LIMIT <= y <= POS_LIMIT + 1,
    ensures
        r as int == spec_corner(spec_corner_hash(x as int, y as int, seed)),
        r <= CORNER_SPAN,
{
    let xu = (x + LATTICE_OFFSET) as u64;
    let yu = (y + LATTICE_OFFSET) as u64;
    let h = mix64(mix64(mix64(seed) ^ xu) ^ yu);
    h % ((CORNER_SPAN + 1) as u64)
}

/// One executable coherent-noise layer; see `spec_base_layer`.
pub fn base_layer(px: i64, py: i64, seed: u64) -> (r: u64)
    requires
        -POS_LIMIT <= px <= POS_LIMIT,
        -POS_LIMIT <= py <= POS_LIMIT,
    ensures
        r as int == spec_base_layer(px as int, py as int, seed),
        r <= CORNER_SPAN,
{
    proof {
        lemma_div_is_ordered(-POS_LIMIT as int, px as int, CELL as int);
        lemma_div_is_ordered(px as int, POS_LIMIT as int, CELL as int);
        lemma_div_is_ordered(-POS_LIMIT as int, py as int, CELL as int);
        lemma_div_is_ordered(py as int, POS_LIMIT as int, CELL as int);
    }
    let x0 = floor_div(px, CELL);
    let y0 = floor_div(py, CELL);
    let fx = px.checked_rem_euclid(CELL).unwrap() as u64;
    let fy = py.checked_rem_euclid(CELL).unwrap() as u64;
    let c00 = corner(x0, y0, seed);
    let c10 = corner(x0 + 1, y0, seed);
    let c01 = corner(x0, y0 + 1, seed);
    let c11 = corner(x0 + 1, y0 + 1, seed);
    lerp(lerp(c00, c10, fx), lerp(c01, c11, fx), fy)
}

/// Powers of four, the largest frequency growth one layer can apply.
spec fn pow4(n: nat) -> int
    decreases n,
{
    if n == 0 {
        1
    } else {
        4 * pow4((n - 1) as nat)
    }
}

proof fn lemma_pow4_mono(a: nat, b: nat)
    requires
        a <= b,
    ensures
        1 <= pow4(a) <= pow4(b),
    decreases b,
{
    if a == b {
        if a == 0 {
        } else {
            lemma_pow4_mono((a - 1) as nat, (b - 1) as nat);
        }
    } else {
        lemma_pow4_mono(a, (b - 1) as nat);
    }
}

/// Accumulated fBM layers: returns the sum of the per-layer
/// contributions (each an unsigned corner value scaled by the layer's
/// amplitude) and the sum of the layer amplitudes, which recenters the
/// total around zero.
pub open spec fn spec_fbm_acc(
    px: int,
    py: int,
    seed: u64,
    oct: nat,
    lac: int,
    gain: int,
    amp: int,
    freq: int,
) -> (int, int)
    decreases oct,
{
    if oct == 0 {
        (0, 0)
    } else {
        let c = spec_base_layer(px * freq, py * freq, seed);
        let term = (c * amp) / (UNIT as int);
        let rest = spec_fbm_acc(
            px,
            py,
            seed,
            (oct - 1) as nat,
            lac,
            gain,
            (amp * gain) / (UNIT as int),
            freq * lac,
        );
        (term + rest.0, amp + rest.1)
    }
}

/// Clamp a fixed-point noise sum back into [-UNIT, UNIT].
pub open spec fn spec_clamp_unit(v: int) -> int {
    if v < -UNIT {
        -UNIT as int
    } else if v > UNIT {
        UNIT as int
    } else {
        v
    }
}

/// The fBM sample at a fixed-point position: the input is divided by
/// `PRESCALE`, the layers are accumulated starting at amplitude `UNIT`
/// and frequency 1, the unsigned sum is recentered by the accumulated
/// amplitude, and the result is clamped into [-UNIT, UNIT].
pub open spec fn spec_fbm(px: int, py: int, params: NoiseParams, seed: u64) -> int {
    let sx = px / (PRESCALE as int);
    let sy = py / (PRESCALE as int);
    let r = spec_fbm_acc(
        sx,
        sy,
        seed,
        params.octaves as nat,
        params.lacunarity as int,
        params.gain as int,
        UNIT as int,
        1,
    );
    spec_clamp_unit(r.0 - r.1)
}

/// Deterministic fractal noise sample. The same position, parameters and
/// seed always give the same value, and the result always lies in
/// [-UNIT, UNIT].
pub fn fbm(px: i64, py: i64, params: NoiseParams, seed: u64) -> (r: i64)
    requires
        params.wf(),
        -FBM_POS_LIMIT <= px <= FBM_POS_LIMIT,
        -FBM_POS_LIMIT <= py <= FBM_POS_LIMIT,
    ensures
        r == spec_fbm(px as int, py as int, params, seed),
        -UNIT <= r <= UNIT,
{
    proof {
        crate::coords::lemma_floor_div_range(px as int, PRESCALE as int);
        crate::coords::lemma_floor_div_range(py as int, PRESCALE as int);
    }
    let sx = floor_div(px, PRESCALE);
    let sy = floor_div(py, PRESCALE);
    let octaves = params.octaves;
    let lac = params.lacunarity as u64;
    let gain = params.gain as u64;
    let mut acc: u64 = 0;
    let mut amp_tot: u64 = 0;
    let mut amp: u64 = UNIT as u64;
    let mut freq: u64 = 1;
    let ghost full = spec_fbm_acc(
        sx as int,
        sy as int,
        seed,
        octaves as nat,
        lac as int,
        gain as int,
        UNIT as int,
        1,
    );
    let mut i: u32 = 0;
    while i < octaves
        invariant
            i <= octaves,
            1 <= octaves <= 8,
            1 <= lac <= 4,
            gain <= 1024,
            -FBM_POS_LIMIT <= sx <= FBM_POS_LIMIT,
            -FBM_POS_LIMIT <= sy <= FBM_POS_LIMIT,
            amp <= UNIT,
            1 <= freq <= pow4(i as nat),
            acc <= CORNER_SPAN * i,
            amp_tot <= UNIT * i,
            full == spec_fbm_acc(
                sx as int,
                sy as int,
                seed,
                octaves as nat,
                lac as int,
                gain as int,
                UNIT as int,
                1,
            ),
            full.0 == acc + spec_fbm_acc(
                sx as int,
                sy as int,
                seed,
                (octaves - i) as nat,
                lac as int,
                gain as int,
                amp as int,
                freq as int,
            ).0,
            full.1 == amp_tot + spec_fbm_acc(
                sx as int,
                sy as int,
                seed,
                (octaves - i) as nat,
                lac as int,
                gain as int,
                amp as int,
                freq as int,
            ).1,
        decreases octaves - i,
    {
        proof {
            lemma_pow4_mono(i as nat, 7);
            assert(pow4(7) == 16384) by {
                reveal_with_fuel(pow4, 8);
            }
            assert(-POS_LIMIT <= sx * freq <= POS_LIMIT) by (nonlinear_arith)
                requires
                    -FBM_POS_LIMIT <= sx <= FBM_POS_LIMIT,
                    1 <= freq <= 16384,
            ;
            assert(-POS_LIMIT <= sy * freq <= POS_LIMIT) by (nonlinear_arith)
                requires
                    -FBM_POS_LIMIT <= sy <= FBM_POS_LIMIT,
                    1 <= freq <= 16384,
            ;
        }
        let fi = freq as i64;
        let p_x = sx * fi;
        let p_y = sy * fi;
        let c = base_layer(p_x, p_y, seed);
        proof {
            assert(c * amp <= CORNER_SPAN * UNIT) by (nonlinear_arith)
                requires
                    c <= CORNER_SPAN,
                    amp <= UNIT,
            ;
            lemma_div_is_ordered(c as int * amp as int, CORNER_SPAN * UNIT, UNIT as int);
            lemma_div_multiples_vanish(CORNER_SPAN as int, UNIT as int);
            assert(CORNER_SPAN * UNIT == UNIT * CORNER_SPAN);
            assert(amp * gain <= UNIT * UNIT) by (nonlinear_arith)
                requires
                    amp <= UNIT,
                    gain <= 1024,
            ;
            lemma_div_is_ordered(amp as int * gain as int, UNIT * UNIT, UNIT as int);
            lemma_div_multiples_vanish(UNIT as int, UNIT as int);
            assert(UNIT * UNIT == UNIT * UNIT);
            assert(freq * lac <= pow4((i + 1) as nat)) by (nonlinear_arith)
                requires
                    1 <= freq <= pow4(i as nat),
                    1 <= lac <= 4,
                    pow4((i + 1) as nat) == 4 * pow4(i as nat),
            ;
            assert(1 <= freq * lac) by (nonlinear_arith)
                requires
                    1 <= freq,
                    1 <= lac,
            ;
        }
        let term = c * amp / (UNIT as u64);
        acc = acc + term;
        amp_tot = amp_tot + amp;
        amp = amp * gain / (UNIT as u64);
        freq = freq * lac;
        i = i + 1;
    }
    let raw = acc as i64 - amp_tot as i64;
    if raw < -UNIT {
        -UNIT
    } else if raw > UNIT {
        UNIT
    } else {
        raw
    }
}

} // verus!
