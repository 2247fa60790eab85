//! Procedural 2D tile-world core: fractal noise sampling, weighted
//! biome/tile/foliage selection, grid-to-mesh building, and a streaming
//! chunk store with distance-based eviction and a remesh queue.
//!
//! All scalar quantities that are conceptually fractions in [0, 1) --
//! noise samples, selection draws, foliage densities, texture
//! coordinates -- are fixed-point integers with `FRAC_ONE` standing for
//! 1.0, so every computation is exact and deterministic.
use vstd::prelude::*;

pub mod biome;
pub mod chunk;
pub mod chunk_handler;
pub mod foliage;
pub mod meshing;
pub mod noise;
pub mod terrain;
pub mod tile;

verus! {

/// Fixed-point unit: the integer that stands for 1.0. A sample `u` with
/// `0 <= u < FRAC_ONE` stands for the real number `u / FRAC_ONE` in [0, 1).
pub const FRAC_ONE: u32 = 65536;

} // verus!
