//! Deterministic multi-octave coherent noise over a 65536-periodic
//! integer lattice, entirely in fixed-point arithmetic.
//!
//! Each octave evaluates value noise: a pseudo-random lattice value is
//! hashed from (seed, lattice x, lattice y) and bilinearly interpolated
//! at the sample position. Octave `i` doubles the lattice frequency
//! (lacunarity 2^i) and halves the amplitude (amplitude 2^-i); the
//! accumulated value is normalized by the amplitude sum, so every sample
//! lies in `[0, FRAC_ONE)`. The whole pipeline is integer arithmetic on
//! wrapped 32-bit positions, hence bit-stable across runs and platforms.
use vstd::prelude::*;

use vstd::arithmetic::div_mod::{
    lemma_div_is_ordered, lemma_div_by_multiple, lemma_div_pos_is_pos,
    lemma_mod_multiples_vanish, lemma_small_mod,
};
use crate::chunk::ChunkCoordinate;

verus! {

/// Pseudo-random lattice value in `[0, FRAC_ONE)` for a lattice corner,
/// a pure function of (seed, x, y).
pub open spec fn spec_lattice_hash(seed: u32, x: int, y: int) -> int {
    let s = (seed as int) % 65536;
    let a = (x * 3061 + y * 6007 + s * 1597 + 769) % 65536;
    let b = (a * a + x * 7919 + y * 971) % 65536;
    (b * b + a * 331 + 17) % 65536
}

/// Fixed-point linear interpolation between `a` and `b` by fraction
/// `f / FRAC_ONE`.
pub open spec fn spec_lerp(a: int, b: int, f: int) -> int {
    (a * (65536 - f) + b * f) / 65536
}

/// One octave's value at a wrapped 32-bit fixed-point position: the
/// bilinear interpolation of the four surrounding lattice corners.
pub open spec fn spec_octave_value(seed: u32, px: int, py: int) -> int {
    let cx = px / 65536;
    let fx = px % 65536;
    let cy = py / 65536;
    let fy = py % 65536;
    let x1 = (cx + 1) % 65536;
    let y1 = (cy + 1) % 65536;
    spec_lerp(
        spec_lerp(spec_lattice_hash(seed, cx, cy), spec_lattice_hash(seed, x1, cy), fx),
        spec_lerp(spec_lattice_hash(seed, cx, y1), spec_lattice_hash(seed, x1, y1), fx),
        fy,
    )
}

/// A cell's base position on one axis, in fixed-point world units,
/// wrapped to 32 bits: chunk origin plus the cell's fraction of the
/// chunk.
pub open spec fn spec_cell_position(chunk_coord: int, cell: int) -> int {
    (chunk_coord * 65536 + cell * 4096) % 0x1_0000_0000
}

/// The base position scaled by the fixed-point frequency, wrapped to 32
/// bits.
pub open spec fn spec_freq_position(w: int, frequency: int) -> int {
    (w * frequency / 65536) % 0x1_0000_0000
}

/// The sample position of octave `i`: the scaled position doubled once
/// per octave (lacunarity 2 per octave), wrapped to 32 bits.
pub open spec fn spec_octave_position(sp: int, i: nat) -> int
    decreases i,
{
    if i == 0 {
        sp % 0x1_0000_0000
    } else {
        spec_octave_position(sp, (i - 1) as nat) * 2 % 0x1_0000_0000
    }
}

/// Sum of the octave amplitude weights `2^(n-1) + ... + 2 + 1`, the
/// normalizer of the accumulated value: `2^n - 1`.
pub open spec fn spec_amp_total(n: nat) -> int
    decreases n,
{
    if n == 0 {
        0
    } else {
        2 * spec_amp_total((n - 1) as nat) + 1
    }
}

/// Two to the power `n`.
pub open spec fn spec_pow2(n: nat) -> int
    decreases n,
{
    if n == 0 {
        1
    } else {
        2 * spec_pow2((n - 1) as nat)
    }
}

proof fn lemma_pow2_pos(n: nat)
    ensures
        spec_pow2(n) >= 1,
    decreases n,
{
    if n > 0 {
        lemma_pow2_pos((n - 1) as nat);
    }
}

proof fn lemma_pow2_mono(a: nat, b: nat)
    requires
        a <= b,
    ensures
        spec_pow2(a) <= spec_pow2(b),
    decreases b,
{
    if a < b {
        lemma_pow2_mono(a, (b - 1) as nat);
        lemma_pow2_pos((b - 1) as nat);
    }
}

/// The amplitude sum of `n` octaves is `2^n - 1`.
pub proof fn lemma_amp_total_is_pow2(n: nat)
    ensures
        spec_amp_total(n) == spec_pow2(n) - 1,
    decreases n,
{
    if n > 0 {
        lemma_amp_total_is_pow2((n - 1) as nat);
    }
}

proof fn lemma_amp_total_le(n: nat)
    requires
        n <= 16,
    ensures
        spec_amp_total(n) <= 65535,
        n >= 1 ==> spec_amp_total(n) >= 1,
    decreases n,
{
    lemma_amp_total_is_pow2(n);
    lemma_pow2_mono(n, 16);
    assert(spec_pow2(16) == 65536) by {
        reveal_with_fuel(spec_pow2, 17);
    }
    if n >= 1 {
        assert(spec_pow2(0) == 1);
        assert(spec_pow2(1) == 2 * spec_pow2(0));
        lemma_pow2_mono(1, n);
    }
}

/// Amplitude-weighted accumulation of the first `n` octaves: octave `i`
/// carries weight `2^(n-1-i)`, so each octave weighs half its
/// predecessor.
pub open spec fn spec_octave_acc(seed: u32, spx: int, spy: int, n: nat) -> int
    decreases n,
{
    if n == 0 {
        0
    } else {
        2 * spec_octave_acc(seed, spx, spy, (n - 1) as nat) + spec_octave_value(
            seed,
            spec_octave_position(spx, (n - 1) as nat),
            spec_octave_position(spy, (n - 1) as nat),
        )
    }
}

/// The normalized fractal sample at cell (x, y) of the chunk at
/// `coord`: the octave accumulation divided by the amplitude sum
/// `2^octaves - 1`, a value in `[0, FRAC_ONE)`.
pub open spec fn spec_noise_at(
    coord: ChunkCoordinate,
    seed: u32,
    frequency: u32,
    octaves: u32,
    x: int,
    y: int,
) -> int {
    let spx = spec_freq_position(spec_cell_position(coord.x as int, x), frequency as int);
    let spy = spec_freq_position(spec_cell_position(coord.y as int, y), frequency as int);
    spec_octave_acc(seed, spx, spy, octaves as nat) / spec_amp_total(octaves as nat)
}

/// A square grid of `CHUNK_AREA` fixed-point noise samples in
/// `[0, FRAC_ONE)`, row-major by cell x.
pub struct NoiseField {
    pub samples: Vec<u32>,
}

impl NoiseField {
    /// Well-formedness: one sample per cell, all proper fractions.
    pub open spec fn wf(&self) -> bool {
        &&& self.samples@.len() == crate::chunk::CHUNK_AREA
        &&& forall|k: int|
            0 <= k < self.samples@.len() ==> #[trigger] self.samples@[k] < crate::FRAC_ONE
    }

    /// The sample at cell (x, y).
    pub open spec fn spec_sample(&self, x: int, y: int) -> int {
        self.samples@[x * 16 + y] as int
    }

    /// Reads the sample at cell (x, y).
    pub fn sample(&self, x: usize, y: usize) -> (r: u32)
        requires
            self.wf(),
            x < crate::chunk::CHUNK_SIZE,
            y < crate::chunk::CHUNK_SIZE,
        ensures
            r as int == self.spec_sample(x as int, y as int),
            r < crate::FRAC_ONE,
    {
        self.samples[x * 16 + y]
    }
}

fn lattice_hash(seed: u32, x: u64, y: u64) -> (h: u64)
    requires
        x < 65536,
        y < 65536,
    ensures
        h as int == spec_lattice_hash(seed, x as int, y as int),
        h < 65536,
{
    let s = (seed as u64) % 65536;
    let a = (x * 3061 + y * 6007 + s * 1597 + 769) % 65536;
    proof {
        assert(a * a <= 65535 * 65535) by (nonlinear_arith)
            requires a < 65536;
    }
    let b = (a * a + x * 7919 + y * 971) % 65536;
    proof {
        assert(b * b <= 65535 * 65535) by (nonlinear_arith)
            requires b < 65536;
    }
    (b * b + a * 331 + 17) % 65536
}

fn lerp(a: u64, b: u64, f: u64) -> (r: u64)
    requires
        a < 65536,
        b < 65536,
        f < 65536,
    ensures
        r as int == spec_lerp(a as int, b as int, f as int),
        r < 65536,
{
    proof {
        assert(a * (65536 - f) <= 65535 * 65536) by (nonlinear_arith)
            requires a < 65536 && f < 65536;
        assert(b * f <= 65535 * 65535) by (nonlinear_arith)
            requires b < 65536 && f < 65536;
        assert(a * (65536 - f) + b * f <= 65535 * 65536) by (nonlinear_arith)
            requires a < 65536 && b < 65536 && 0 <= f < 65536;
        lemma_div_is_ordered(
            a as int * (65536 - f as int) + b as int * f as int,
            65535int * 65536,
            65536,
        );
        lemma_div_pos_is_pos(a as int * (65536 - f as int) + b as int * f as int, 65536);
    }
    (a * (65536 - f) + b * f) / 65536
}

fn octave_value(seed: u32, px: u64, py: u64) -> (v: u64)
    requires
        px < 0x1_0000_0000,
        py < 0x1_0000_0000,
    ensures
        v as int == spec_octave_value(seed, px as int, py as int),
        v < 65536,
{
    let cx = px / 65536;
    let fx = px % 65536;
    let cy = py / 65536;
    let fy = py % 65536;
    let x1 = (cx + 1) % 65536;
    let y1 = (cy + 1) % 65536;
    let v00 = lattice_hash(seed, cx, cy);
    let v10 = lattice_hash(seed, x1, cy);
    let v01 = lattice_hash(seed, cx, y1);
    let v11 = lattice_hash(seed, x1, y1);
    lerp(lerp(v00, v10, fx), lerp(v01, v11, fx), fy)
}

proof fn lemma_octave_step(
    seed: u32,
    spx: int,
    spy: int,
    i: nat,
    pxi: int,
    pyi: int,
    acc: int,
    wsum: int,
    v: int,
)
    requires
        pxi == spec_octave_position(spx, i),
        pyi == spec_octave_position(spy, i),
        acc == spec_octave_acc(seed, spx, spy, i),
        wsum == spec_amp_total(i),
        acc <= wsum * 65535,
        0 <= v < 65536,
        v == spec_octave_value(seed, pxi, pyi),
        i + 1 <= 16,
    ensures
        pxi * 2 % 0x1_0000_0000 == spec_octave_position(spx, i + 1),
        pyi * 2 % 0x1_0000_0000 == spec_octave_position(spy, i + 1),
        acc * 2 + v == spec_octave_acc(seed, spx, spy, i + 1),
        wsum * 2 + 1 == spec_amp_total(i + 1),
        acc * 2 + v <= (wsum * 2 + 1) * 65535,
        wsum * 2 + 1 <= 65535,
{
    assert(spec_octave_position(spx, i + 1) == spec_octave_position(spx, i) * 2 % 0x1_0000_0000);
    assert(spec_octave_position(spy, i + 1) == spec_octave_position(spy, i) * 2 % 0x1_0000_0000);
    assert(spec_octave_acc(seed, spx, spy, i + 1) == 2 * spec_octave_acc(seed, spx, spy, i)
        + spec_octave_value(seed, spec_octave_position(spx, i), spec_octave_position(spy, i)));
    assert(spec_amp_total(i + 1) == 2 * spec_amp_total(i) + 1);
    lemma_amp_total_le(i + 1);
    assert(acc * 2 + v <= (2 * wsum + 1) * 65535) by (nonlinear_arith)
        requires acc <= wsum * 65535 && v <= 65535;
}

fn fractal_sample(seed: u32, spx: u64, spy: u64, octaves: u32) -> (r: u32)
    requires
        spx < 0x1_0000_0000,
        spy < 0x1_0000_0000,
        1 <= octaves <= 16,
    ensures
        r as int == spec_octave_acc(seed, spx as int, spy as int, octaves as nat)
            / spec_amp_total(octaves as nat),
        r < crate::FRAC_ONE,
{
    let mut acc: u64 = 0;
    let mut wsum: u64 = 0;
    let mut pxi: u64 = spx;
    let mut pyi: u64 = spy;
    let mut i: u32 = 0;
    proof {
        lemma_small_mod(spx as nat, 0x1_0000_0000);
        lemma_small_mod(spy as nat, 0x1_0000_0000);
    }
    while i < octaves
        invariant
            i <= octaves <= 16,
            spx < 0x1_0000_0000,
            spy < 0x1_0000_0000,
            pxi < 0x1_0000_0000,
            pyi < 0x1_0000_0000,
            pxi as int == spec_octave_position(spx as int, i as nat),
            pyi as int == spec_octave_position(spy as int, i as nat),
            acc as int == spec_octave_acc(seed, spx as int, spy as int, i as nat),
            wsum as int == spec_amp_total(i as nat),
            acc <= wsum * 65535,
            wsum < 65536,
        decreases octaves - i,
    {
        let v = octave_value(seed, pxi, pyi);
        proof {
            lemma_octave_step(
                seed,
                spx as int,
                spy as int,
                i as nat,
                pxi as int,
                pyi as int,
                acc as int,
                wsum as int,
                v as int,
            );
        }
        acc = acc * 2 + v;
        wsum = wsum * 2 + 1;
        pxi = pxi * 2 % 0x1_0000_0000;
        pyi = pyi * 2 % 0x1_0000_0000;
        i = i + 1;
    }
    proof {
        lemma_amp_total_le(octaves as nat);
        lemma_div_is_ordered(acc as int, wsum as int * 65535, wsum as int);
        lemma_div_by_multiple(65535, wsum as int);
        lemma_div_pos_is_pos(acc as int, wsum as int);
    }
    (acc / wsum) as u32
}

/// Samples the fractal noise field for the chunk at `coordinate`:
/// deterministic in (coordinate, seed, frequency, octaves), one sample
/// per cell, every sample in `[0, FRAC_ONE)`. `frequency` is fixed
/// point (`FRAC_ONE` = 1.0).
pub fn get_noise(coordinate: ChunkCoordinate, seed: u32, frequency: u32, octaves: u32) -> (r:
    NoiseField)
    requires
        1 <= octaves <= 16,
    ensures
        r.wf(),
        forall|x: int, y: int|
            0 <= x < 16 && 0 <= y < 16 ==> r.spec_sample(x, y) == spec_noise_at(
                coordinate,
                seed,
                frequency,
                octaves,
                x,
                y,
            ),
{
    let mut samples: Vec<u32> = Vec::new();
    let mut x: usize = 0;
    while x < 16
        invariant
            x <= 16,
            1 <= octaves <= 16,
            samples@.len() == x * 16,
            forall|k: int| 0 <= k < samples@.len() ==> #[trigger] samples@[k] < crate::FRAC_ONE,
            forall|i: int, j: int|
                0 <= i < x && 0 <= j < 16 ==> samples@[i * 16 + j] == spec_noise_at(
                    coordinate,
                    seed,
                    frequency,
                    octaves,
                    i,
                    j,
                ),
        decreases 16 - x,
    {
        let mut y: usize = 0;
        while y < 16
            invariant
                x < 16,
                y <= 16,
                1 <= octaves <= 16,
                samples@.len() == x * 16 + y,
                forall|k: int| 0 <= k < samples@.len() ==> #[trigger] samples@[k] < crate::FRAC_ONE,
                forall|i: int, j: int|
                    0 <= i < x && 0 <= j < 16 ==> samples@[i * 16 + j] == spec_noise_at(
                        coordinate,
                        seed,
                        frequency,
                        octaves,
                        i,
                        j,
                    ),
                forall|j: int|
                    0 <= j < y ==> samples@[x * 16 + j] == spec_noise_at(
                        coordinate,
                        seed,
                        frequency,
                        octaves,
                        x as int,
                        j,
                    ),
            decreases 16 - y,
        {
            let v = noise_sample_at(coordinate, seed, frequency, octaves, x, y);
            samples.push(v);
            y = y + 1;
        }
        x = x + 1;
    }
    let r = NoiseField { samples };
    proof {
        assert(r.wf());
    }
    r
}

fn noise_sample_at(
    coordinate: ChunkCoordinate,
    seed: u32,
    frequency: u32,
    octaves: u32,
    x: usize,
    y: usize,
) -> (r: u32)
    requires
        1 <= octaves <= 16,
        x < 16,
        y < 16,
    ensures
        r as int == spec_noise_at(coordinate, seed, frequency, octaves, x as int, y as int),
        r < crate::FRAC_ONE,
{
    let spx = scaled_axis_position(coordinate.x, x, frequency);
    let spy = scaled_axis_position(coordinate.y, y, frequency);
    fractal_sample(seed, spx, spy, octaves)
}

fn scaled_axis_position(chunk_coord: i32, cell: usize, frequency: u32) -> (r: u64)
    requires
        cell < 16,
    ensures
        r as int == spec_freq_position(
            spec_cell_position(chunk_coord as int, cell as int),
            frequency as int,
        ),
        r < 0x1_0000_0000,
{
    let base: i64 = (chunk_coord as i64) * 65536 + (cell as i64) * 4096;
    let wrapped: u64 = ((base + 0x8000_0000_0000) as u64) % 0x1_0000_0000;
    proof {
        lemma_mod_multiples_vanish(32768, base as int, 0x1_0000_0000);
    }
    proof {
        assert(wrapped as int * frequency as int <= 0xFFFF_FFFF * 0xFFFF_FFFF) by (nonlinear_arith)
            requires wrapped as int <= 0xFFFF_FFFF && frequency as int <= 0xFFFF_FFFF;
        lemma_div_pos_is_pos(wrapped as int * frequency as int, 65536);
    }
    let scaled: u64 = wrapped * (frequency as u64) / 65536 % 0x1_0000_0000;
    scaled
}

/// Determinism of the noise sampler: two fields sampled with the same
/// (coordinate, seed, frequency, octaves) hold identical samples.
pub proof fn lemma_noise_deterministic(
    f1: NoiseField,
    f2: NoiseField,
    coordinate: ChunkCoordinate,
    seed: u32,
    frequency: u32,
    octaves: u32,
)
    requires
        f1.wf(),
        f2.wf(),
        forall|x: int, y: int|
            0 <= x < 16 && 0 <= y < 16 ==> f1.spec_sample(x, y) == spec_noise_at(
                coordinate,
                seed,
                frequency,
                octaves,
                x,
                y,
            ),
        forall|x: int, y: int|
            0 <= x < 16 && 0 <= y < 16 ==> f2.spec_sample(x, y) == spec_noise_at(
                coordinate,
                seed,
                frequency,
                octaves,
                x,
                y,
            ),
    ensures
        f1.samples@ == f2.samples@,
{
    assert forall|k: int| 0 <= k < 256 implies f1.samples@[k] == f2.samples@[k] by {
        let x = k / 16;
        let y = k % 16;
        assert(k == x * 16 + y);
        assert(f1.spec_sample(x, y) == f2.spec_sample(x, y));
    }
    assert(f1.samples@ =~= f2.samples@);
}

} // verus!
