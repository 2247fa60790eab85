//! A single cell of a chunk: a tile kind together with the biome that
//! produced it.
use vstd::prelude::*;

use crate::biome::BiomeType;

verus! {

/// One grid cell: the atlas index of its ground texture and its owning
/// biome.
#[derive(Copy, Clone, PartialEq, Eq, Structural, Debug)]
pub struct Tile {
    pub tile: usize,
    pub biome: BiomeType,
}

impl Tile {
    /// The empty/plains tile every cell starts from.
    pub fn default() -> (r: Tile)
        ensures
            r.tile == 0,
            r.biome == BiomeType::PLAINS,
    {
        Tile { tile: 0, biome: BiomeType::PLAINS }
    }
}

} // verus!
