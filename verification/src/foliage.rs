//! Foliage kinds: optional decorative overlays placed on tiles, gated by
//! a per-biome density and by the set of tile kinds each foliage may
//! spawn on.
use vstd::prelude::*;

verus! {

/// One foliage catalog entry: a kind, its roulette weight, its sprite
/// scale (fixed point, `FRAC_ONE` = 1.0), and the tile kinds it may
/// spawn on.
#[derive(Clone)]
pub struct Foliage {
    pub foliage_type: FoliageType,
    pub weight: u16,
    pub scale: u32,
    pub spawns_on: Vec<usize>,
}

/// The closed enumeration of foliage kinds. `NONE` is a valid kind and
/// means the cell carries no foliage.
#[derive(Clone, Copy, PartialEq, Eq, Structural, Debug)]
pub enum FoliageType {
    NONE,
    CACTUS,
    ROSE,
    ROCK,
}

impl Foliage {
    /// Whether this foliage kind is allowed to spawn on the given tile kind.
    pub fn spawns_on_tile(&self, tile_type: usize) -> (r: bool)
        ensures
            r == self.spawns_on@.contains(tile_type),
    {
        let mut i: usize = 0;
        while i < self.spawns_on.len()
            invariant
                i <= self.spawns_on@.len(),
                forall|j: int| 0 <= j < i ==> self.spawns_on@[j] != tile_type,
            decreases self.spawns_on@.len() - i,
        {
            if self.spawns_on[i] == tile_type {
                return true;
            }
            i = i + 1;
        }
        false
    }
}

/// Sprite asset path for a foliage kind; the empty string for `NONE`,
/// which is never presented.
pub fn get_foliage_paths(foliage_type: FoliageType) -> (r: &'static str)
    ensures
        foliage_type == FoliageType::NONE ==> r@ == ""@,
        foliage_type != FoliageType::NONE ==> r@.len() > 0,
{
    match foliage_type {
        FoliageType::CACTUS => {
            proof { reveal_strlit("sprites/foliage/cactus.png"); }
            "sprites/foliage/cactus.png"
        }
        FoliageType::NONE => { "" }
        FoliageType::ROSE => {
            proof { reveal_strlit("sprites/foliage/rose.png"); }
            "sprites/foliage/rose.png"
        }
        FoliageType::ROCK => {
            proof { reveal_strlit("sprites/foliage/rock.png"); }
            "sprites/foliage/rock.png"
        }
    }
}

} // verus!
