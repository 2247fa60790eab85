//! Weighted biome catalog and the roulette-wheel draws that resolve
//! noise samples into biomes, tile kinds and foliage kinds.
//!
//! A draw takes a fixed-point sample `u` in `[0, FRAC_ONE)`, scales it
//! by the running weight sum, and walks the catalog in registration
//! order, returning the first entry whose cumulative weight exceeds the
//! scaled value. Registration order is the tie-break order.
use vstd::prelude::*;

use crate::foliage::{Foliage, FoliageType};
use crate::noise::NoiseField;

verus! {

/// Sum of the first `i` weights.
pub open spec fn prefix_weight_sum(ws: Seq<u16>, i: int) -> int
    decreases i,
{
    if i <= 0 {
        0
    } else {
        prefix_weight_sum(ws, i - 1) + ws[i - 1]
    }
}

/// Sum of all weights in the list.
pub open spec fn total_weight(ws: Seq<u16>) -> int {
    prefix_weight_sum(ws, ws.len() as int)
}

/// Index selected by a roulette-wheel draw: the first index whose
/// cumulative weight strictly exceeds `val`.
pub open spec fn pick_index(ws: Seq<u16>, val: int) -> int
    decreases ws.len(),
{
    if ws.len() == 0 {
        0
    } else if val < ws[0] {
        0
    } else {
        1 + pick_index(ws.drop_first(), val - ws[0])
    }
}

/// The scaled threshold a draw compares cumulative weights against:
/// `u` (a fraction of one, fixed point) of the total weight `sum`,
/// rounded down.
pub open spec fn scaled_threshold(u: int, sum: int) -> int {
    u * sum / (crate::FRAC_ONE as int)
}

proof fn lemma_prefix_weight_sum_drop_first(ws: Seq<u16>, i: int)
    requires
        ws.len() > 0,
        0 <= i < ws.len(),
    ensures
        prefix_weight_sum(ws.drop_first(), i) == prefix_weight_sum(ws, i + 1) - ws[0],
    decreases i,
{
    if i == 0 {
        assert(prefix_weight_sum(ws.drop_first(), 0) == 0);
        assert(prefix_weight_sum(ws, 0) == 0);
        assert(prefix_weight_sum(ws, 1) == prefix_weight_sum(ws, 0) + ws[0]);
    } else {
        lemma_prefix_weight_sum_drop_first(ws, i - 1);
        assert(ws.drop_first()[i - 1] == ws[i]);
        assert(prefix_weight_sum(ws.drop_first(), i) == prefix_weight_sum(ws.drop_first(), i - 1)
            + ws.drop_first()[i - 1]);
        assert(prefix_weight_sum(ws, i + 1) == prefix_weight_sum(ws, i) + ws[i]);
    }
}

/// Prefix sums never decrease as more weights are taken in.
pub proof fn lemma_prefix_weight_sum_monotonic(ws: Seq<u16>, i: int, j: int)
    requires
        0 <= i <= j <= ws.len(),
    ensures
        prefix_weight_sum(ws, i) <= prefix_weight_sum(ws, j),
    decreases j - i,
{
    if i < j {
        lemma_prefix_weight_sum_monotonic(ws, i, j - 1);
    }
}

/// Law of the roulette wheel, one direction: a draw whose scaled value
/// falls in the cumulative-weight interval of index `i` selects exactly
/// index `i`. The preimage of index `i` is therefore an interval of
/// length `ws[i]`, which is what makes selection frequency proportional
/// to weight.
pub proof fn lemma_pick_index_from_interval(ws: Seq<u16>, val: int, i: int)
    requires
        0 <= i < ws.len(),
        0 <= val,
        prefix_weight_sum(ws, i) <= val < prefix_weight_sum(ws, i + 1),
    ensures
        pick_index(ws, val) == i,
    decreases i,
{
    if i == 0 {
    } else {
        lemma_prefix_weight_sum_drop_first(ws, i - 1);
        lemma_prefix_weight_sum_drop_first(ws, i);
        lemma_prefix_weight_sum_monotonic(ws, 1, i);
        assert(prefix_weight_sum(ws, 0) == 0);
        assert(prefix_weight_sum(ws, 1) == ws[0]);
        lemma_pick_index_from_interval(ws.drop_first(), val - ws[0], i - 1);
    }
}

/// Law of the roulette wheel, the other direction: every draw with a
/// scaled value below the total weight lands on some index, and that
/// index's cumulative-weight interval contains the value.
pub proof fn lemma_pick_index_in_range(ws: Seq<u16>, val: int)
    requires
        0 <= val < total_weight(ws),
    ensures
        0 <= pick_index(ws, val) < ws.len(),
        prefix_weight_sum(ws, pick_index(ws, val)) <= val,
        val < prefix_weight_sum(ws, pick_index(ws, val) + 1),
    decreases ws.len(),
{
    assert(total_weight(ws) > 0);
    if ws.len() == 0 {
        assert(prefix_weight_sum(ws, 0) == 0);
    } else if val < ws[0] {
        assert(prefix_weight_sum(ws, 0) == 0);
        assert(prefix_weight_sum(ws, 1) == ws[0]);
    } else {
        lemma_prefix_weight_sum_drop_first(ws, ws.len() as int - 1);
        assert(total_weight(ws.drop_first()) == total_weight(ws) - ws[0]);
        lemma_pick_index_in_range(ws.drop_first(), val - ws[0]);
        let k = pick_index(ws.drop_first(), val - ws[0]);
        lemma_prefix_weight_sum_drop_first(ws, k);
        lemma_prefix_weight_sum_drop_first(ws, k + 1);
    }
}

/// The scaled threshold stays strictly below the total weight, so a
/// draw with `u < FRAC_ONE` always lands on some entry.
pub proof fn lemma_scaled_threshold_lt(u: int, sum: int)
    requires
        0 <= u < crate::FRAC_ONE as int,
        0 < sum,
    ensures
        0 <= scaled_threshold(u, sum) < sum,
{
    let f = crate::FRAC_ONE as int;
    assert(u * sum <= (f - 1) * sum) by (nonlinear_arith)
        requires 0 <= u <= f - 1 && 0 < sum;
    assert((f - 1) * sum < f * sum) by (nonlinear_arith)
        requires 0 < sum && 0 < f;
    assert(u * sum / f < sum) by (nonlinear_arith)
        requires u * sum < f * sum && 0 < f && 0 < sum;
    assert(u * sum >= 0) by (nonlinear_arith)
        requires u >= 0 && sum >= 0;
    assert(u * sum / f >= 0) by (nonlinear_arith)
        requires u * sum >= 0 && 0 < f;
}

/// A weighted tile kind: the atlas index of the ground texture and its
/// roulette weight within the owning biome.
#[derive(Clone, Copy)]
pub struct TileType {
    pub tile_type: usize,
    pub weight: u16,
}

impl TileType {
    /// Returns the same tile kind with its weight replaced.
    pub fn set_weight(self, weight: u16) -> (r: TileType)
        ensures
            r.tile_type == self.tile_type,
            r.weight == weight,
    {
        let mut t = self;
        t.weight = weight;

        t
    }
}

/// The closed enumeration of biome identifiers.
#[derive(Clone, Copy, PartialEq, Eq, Structural, Debug)]
pub enum BiomeType {
    PLAINS,
    DESERT,
    GRASSLAND,
    BEACH,
    OCEAN,
}

proof fn lemma_prefix_weight_sum_push(ws: Seq<u16>, w: u16, i: int)
    requires
        0 <= i <= ws.len(),
    ensures
        prefix_weight_sum(ws.push(w), i) == prefix_weight_sum(ws, i),
    decreases i,
{
    if i > 0 {
        lemma_prefix_weight_sum_push(ws, w, i - 1);
    }
}

/// Appending one weight raises the total by exactly that weight.
pub proof fn lemma_total_weight_push(ws: Seq<u16>, w: u16)
    ensures
        total_weight(ws.push(w)) == total_weight(ws) + w,
{
    lemma_prefix_weight_sum_push(ws, w, ws.len() as int);
    assert(prefix_weight_sum(ws.push(w), ws.len() as int + 1) == prefix_weight_sum(ws.push(w), ws.len() as int)
        + ws.push(w)[ws.len() as int]);
}

/// A biome: its own roulette weight within the table, its weighted tile
/// and foliage catalogs with their precomputed weight sums, and the
/// fixed-point foliage density in [0, 1).
pub struct Biome {
    pub tiles: Vec<TileType>,
    pub foliage: Vec<Foliage>,
    pub weight: u16,
    pub biome_type: BiomeType,
    pub foliage_density: u32,
    pub tiles_weight_sum: u16,
    pub foliage_weight_sum: u16,
}

impl Biome {
    /// The tile weights in registration order.
    pub open spec fn tile_weights(&self) -> Seq<u16> {
        self.tiles@.map_values(|t: TileType| t.weight)
    }

    /// The foliage weights in registration order.
    pub open spec fn foliage_weights(&self) -> Seq<u16> {
        self.foliage@.map_values(|f: Foliage| f.weight)
    }

    /// Well-formedness: the cached weight sums agree with the catalogs,
    /// the density is a proper fraction, and every tile kind fits the
    /// texture atlas.
    pub open spec fn wf(&self) -> bool {
        &&& self.tiles_weight_sum as int == total_weight(self.tile_weights())
        &&& self.foliage_weight_sum as int == total_weight(self.foliage_weights())
        &&& self.foliage_density < crate::FRAC_ONE
        &&& forall|i: int|
            0 <= i < self.tiles@.len() ==> (#[trigger] self.tiles@[i]).tile_type
                < crate::terrain::ATLAS_TILE_COUNT
    }

    /// The tile kind a draw with sample `u` selects.
    pub open spec fn spec_tile_from_rng(&self, u: int) -> usize {
        self.tiles@[pick_index(
            self.tile_weights(),
            scaled_threshold(u, self.tiles_weight_sum as int),
        )].tile_type
    }

    /// The foliage kind a draw with sample `u` on tile kind `tile_type`
    /// yields: `NONE` unless the sample passes the density gate, and
    /// `NONE` again when the drawn kind cannot spawn on that tile (no
    /// re-roll; this is intentional sparsity).
    pub open spec fn spec_foliage_from_rng(&self, u: int, tile_type: usize) -> FoliageType {
        if self.foliage_weight_sum > 0 && u < self.foliage_density {
            let k = pick_index(
                self.foliage_weights(),
                scaled_threshold(u, self.foliage_weight_sum as int),
            );
            if self.foliage@[k].spawns_on@.contains(tile_type) {
                self.foliage@[k].foliage_type
            } else {
                FoliageType::NONE
            }
        } else {
            FoliageType::NONE
        }
    }

    /// A fresh biome with empty catalogs.
    pub fn new(weight: u16, biome_type: BiomeType, foliage_density: u32) -> (r: Self)
        requires
            foliage_density < crate::FRAC_ONE,
        ensures
            r.wf(),
            r.tiles@ == Seq::<TileType>::empty(),
            r.foliage@ == Seq::<Foliage>::empty(),
            r.weight == weight,
            r.biome_type == biome_type,
            r.foliage_density == foliage_density,
            r.tiles_weight_sum == 0,
            r.foliage_weight_sum == 0,
    {
        let r = Biome {
            tiles: Vec::new(),
            foliage: Vec::new(),
            weight,
            biome_type,
            foliage_density,
            tiles_weight_sum: 0,
            foliage_weight_sum: 0,
        };
        proof {
            assert(r.tile_weights() =~= Seq::<u16>::empty());
            assert(r.foliage_weights() =~= Seq::<u16>::empty());
        }
        r
    }

    /// Registers one tile kind, keeping the running weight sum in step.
    pub fn add_tile(self, tile: TileType) -> (r: Self)
        requires
            self.wf(),
            self.tiles_weight_sum + tile.weight <= u16::MAX,
            tile.tile_type < crate::terrain::ATLAS_TILE_COUNT,
        ensures
            r.wf(),
            r.tiles@ == self.tiles@.push(tile),
            r.tiles_weight_sum == self.tiles_weight_sum + tile.weight,
            r.foliage@ == self.foliage@,
            r.weight == self.weight,
            r.biome_type == self.biome_type,
            r.foliage_density == self.foliage_density,
            r.foliage_weight_sum == self.foliage_weight_sum,
    {
        let mut b = self;
        let w = tile.weight;
        b.tiles.push(tile);
        b.tiles_weight_sum = b.tiles_weight_sum + w;
        proof {
            assert(b.tile_weights() =~= self.tile_weights().push(w));
            lemma_total_weight_push(self.tile_weights(), w);
        }
        b
    }

    /// Registers one foliage kind, keeping the running weight sum in step.
    pub fn add_foliage(self, foliage: Foliage) -> (r: Self)
        requires
            self.wf(),
            self.foliage_weight_sum + foliage.weight <= u16::MAX,
        ensures
            r.wf(),
            r.foliage@ == self.foliage@.push(foliage),
            r.foliage_weight_sum == self.foliage_weight_sum + foliage.weight,
            r.tiles@ == self.tiles@,
            r.weight == self.weight,
            r.biome_type == self.biome_type,
            r.foliage_density == self.foliage_density,
            r.tiles_weight_sum == self.tiles_weight_sum,
    {
        let mut b = self;
        let w = foliage.weight;
        b.foliage.push(foliage);
        b.foliage_weight_sum = b.foliage_weight_sum + w;
        proof {
            assert(b.foliage_weights() =~= self.foliage_weights().push(w));
            lemma_total_weight_push(self.foliage_weights(), w);
        }
        b
    }

    /// Roulette-wheel draw of a tile kind from this biome's catalog.
    pub fn get_tile_from_rng(&self, rng: u32) -> (r: usize)
        requires
            self.wf(),
            self.tiles_weight_sum > 0,
            rng < crate::FRAC_ONE,
        ensures
            r == self.spec_tile_from_rng(rng as int),
            r < crate::terrain::ATLAS_TILE_COUNT,
    {
        let ghost ws = self.tile_weights();
        let total = self.tiles_weight_sum;
        proof {
            lemma_scaled_threshold_lt(rng as int, total as int);
        }
        let val = ((rng as u64) * (total as u64) / (crate::FRAC_ONE as u64)) as u16;
        let ghost v = scaled_threshold(rng as int, total as int);

        let mut sum: u16 = 0;
        let mut i: usize = 0;
        while i < self.tiles.len()
            invariant
                self.wf(),
                self.tiles_weight_sum == total,
                total > 0,
                ws == self.tile_weights(),
                i <= self.tiles@.len(),
                sum as int == prefix_weight_sum(ws, i as int),
                sum as int <= v,
                0 <= v < total,
                val as int == v,
                v == scaled_threshold(rng as int, total as int),
            decreases self.tiles@.len() - i,
        {
            let w = self.tiles[i].weight;
            proof {
                assert(ws[i as int] == w);
                assert(prefix_weight_sum(ws, i + 1) == prefix_weight_sum(ws, i as int) + w);
                lemma_prefix_weight_sum_monotonic(ws, i + 1, ws.len() as int);
            }
            let new_sum = sum + w;
            if new_sum > val {
                proof {
                    lemma_pick_index_from_interval(ws, v, i as int);
                }
                return self.tiles[i].tile_type;
            }
            sum = new_sum;
            i = i + 1;
        }
        proof {
            assert(false);
        }
        unreached()
    }

    /// Roulette-wheel draw of a foliage kind, gated by the density and
    /// by tile compatibility.
    pub fn get_foliage_from_rng(&self, rng: u32, tile_type: usize) -> (r: FoliageType)
        requires
            self.wf(),
            rng < crate::FRAC_ONE,
        ensures
            r == self.spec_foliage_from_rng(rng as int, tile_type),
            rng >= self.foliage_density ==> r == FoliageType::NONE,
    {
        let ghost ws = self.foliage_weights();
        let total = self.foliage_weight_sum;

        if total > 0 && rng < self.foliage_density {
            proof {
                lemma_scaled_threshold_lt(rng as int, total as int);
            }
            let val = ((rng as u64) * (total as u64) / (crate::FRAC_ONE as u64)) as u16;
            let ghost v = scaled_threshold(rng as int, total as int);

            let mut sum: u16 = 0;
            let mut i: usize = 0;
            while i < self.foliage.len()
                invariant
                    self.wf(),
                    self.foliage_weight_sum == total,
                    total > 0,
                    ws == self.foliage_weights(),
                    i <= self.foliage@.len(),
                    sum as int == prefix_weight_sum(ws, i as int),
                    sum as int <= v,
                    0 <= v < total,
                    val as int == v,
                    v == scaled_threshold(rng as int, total as int),
                    rng < self.foliage_density,
                decreases self.foliage@.len() - i,
            {
                let w = self.foliage[i].weight;
                proof {
                    assert(ws[i as int] == w);
                    assert(prefix_weight_sum(ws, i + 1) == prefix_weight_sum(ws, i as int) + w);
                    lemma_prefix_weight_sum_monotonic(ws, i + 1, ws.len() as int);
                }
                let new_sum = sum + w;
                if new_sum > val {
                    proof {
                        lemma_pick_index_from_interval(ws, v, i as int);
                    }
                    if self.foliage[i].spawns_on_tile(tile_type) {
                        return self.foliage[i].foliage_type;
                    }
                    return FoliageType::NONE;
                }
                sum = new_sum;
                i = i + 1;
            }
            proof {
                assert(false);
            }
            unreached()
        } else {
            FoliageType::NONE
        }
    }
}

/// Foliage gating law: a draw whose sample is at or past the biome's
/// density yields no foliage regardless of the weights; and when the
/// gate passes but the drawn kind cannot spawn on the sampled tile
/// kind, the result is still no foliage -- no alternate kind is ever
/// substituted.
pub proof fn lemma_foliage_gating(b: Biome, u: int, tile_type: usize)
    requires
        b.wf(),
        0 <= u < crate::FRAC_ONE as int,
    ensures
        u >= b.foliage_density as int ==> b.spec_foliage_from_rng(u, tile_type)
            == FoliageType::NONE,
        (b.foliage_weight_sum > 0 && u < b.foliage_density as int && !b.foliage@[pick_index(
            b.foliage_weights(),
            scaled_threshold(u, b.foliage_weight_sum as int),
        )].spawns_on@.contains(tile_type)) ==> b.spec_foliage_from_rng(u, tile_type)
            == FoliageType::NONE,
{
}

impl Default for Biome {
    /// A zero-weight plains biome with empty catalogs.
    fn default() -> (r: Self)
        ensures
            r.wf(),
            r.tiles@ == Seq::<TileType>::empty(),
            r.foliage@ == Seq::<Foliage>::empty(),
            r.biome_type == BiomeType::PLAINS,
            r.weight == 0,
            r.foliage_density == 0,
            r.tiles_weight_sum == 0,
            r.foliage_weight_sum == 0,
    {
        let r = Biome {
            tiles: Vec::new(),
            foliage: Vec::new(),
            biome_type: BiomeType::PLAINS,
            weight: 0,
            foliage_density: 0,
            tiles_weight_sum: 0,
            foliage_weight_sum: 0,
        };
        proof {
            assert(r.tile_weights() =~= Seq::<u16>::empty());
            assert(r.foliage_weights() =~= Seq::<u16>::empty());
        }
        r
    }
}

/// First index in `biomes` whose biome identifier equals `bt`.
pub open spec fn first_index_of_type(biomes: Seq<Biome>, bt: BiomeType) -> int
    decreases biomes.len(),
{
    if biomes.len() == 0 {
        0
    } else if biomes[0].biome_type == bt {
        0
    } else {
        1 + first_index_of_type(biomes.drop_first(), bt)
    }
}

proof fn lemma_first_index_of_type(biomes: Seq<Biome>, bt: BiomeType, i: int)
    requires
        0 <= i < biomes.len(),
        biomes[i].biome_type == bt,
        forall|j: int| 0 <= j < i ==> biomes[j].biome_type != bt,
    ensures
        first_index_of_type(biomes, bt) == i,
    decreases i,
{
    if i > 0 {
        lemma_first_index_of_type(biomes.drop_first(), bt, i - 1);
    }
}

/// The registered set of biomes plus the precomputed running weight
/// sum; built once at startup and read-only afterwards.
pub struct BiomeHandle {
    pub biomes: Vec<Biome>,
    pub biomes_weight_sum: u16,
}

impl BiomeHandle {
    /// The biome weights in registration order.
    pub open spec fn biome_weights(&self) -> Seq<u16> {
        self.biomes@.map_values(|b: Biome| b.weight)
    }

    /// Well-formedness: the cached weight sum agrees with the catalog
    /// and every registered biome is itself well formed.
    pub open spec fn wf(&self) -> bool {
        &&& self.biomes_weight_sum as int == total_weight(self.biome_weights())
        &&& forall|i: int| 0 <= i < self.biomes@.len() ==> (#[trigger] self.biomes@[i]).wf()
    }

    /// Ready for chunk generation: well formed, with a positive biome
    /// weight sum and a positive tile weight sum in every biome.
    pub open spec fn ready(&self) -> bool {
        &&& self.wf()
        &&& self.biomes_weight_sum > 0
        &&& forall|i: int|
            0 <= i < self.biomes@.len() ==> (#[trigger] self.biomes@[i]).tiles_weight_sum > 0
    }

    /// Whether some biome of the given identifier is registered.
    pub open spec fn spec_has_biome(&self, bt: BiomeType) -> bool {
        exists|i: int| 0 <= i < self.biomes@.len() && self.biomes@[i].biome_type == bt
    }

    /// The biome an exact lookup of `bt` retrieves: the first registered
    /// one of that identifier.
    pub open spec fn spec_biome_of_type(&self, bt: BiomeType) -> Biome {
        self.biomes@[first_index_of_type(self.biomes@, bt)]
    }

    /// The biome identifier a draw with sample `u` selects.
    pub open spec fn spec_biome_from_rng(&self, u: int) -> BiomeType {
        self.biomes@[pick_index(
            self.biome_weights(),
            scaled_threshold(u, self.biomes_weight_sum as int),
        )].biome_type
    }

    /// An empty biome table.
    pub fn new() -> (r: Self)
        ensures
            r.wf(),
            r.biomes@ == Seq::<Biome>::empty(),
            r.biomes_weight_sum == 0,
    {
        let r = BiomeHandle { biomes: Vec::new(), biomes_weight_sum: 0 };
        proof {
            assert(r.biome_weights() =~= Seq::<u16>::empty());
        }
        r
    }

    /// Registers a biome, keeping the running weight sum in step.
    pub fn add_biome(&mut self, biome: Biome)
        requires
            old(self).wf(),
            biome.wf(),
            old(self).biomes_weight_sum + biome.weight <= u16::MAX,
        ensures
            final(self).wf(),
            final(self).biomes@ == old(self).biomes@.push(biome),
            final(self).biomes_weight_sum == old(self).biomes_weight_sum + biome.weight,
    {
        let w = biome.weight;
        self.biomes.push(biome);
        self.biomes_weight_sum = self.biomes_weight_sum + w;
        proof {
            assert(self.biome_weights() =~= old(self).biome_weights().push(w));
            lemma_total_weight_push(old(self).biome_weights(), w);
        }
    }

    /// Exact lookup of a registered biome; the caller must know the
    /// identifier is registered.
    pub fn get_biome(&self, biome_type: BiomeType) -> (r: &Biome)
        requires
            self.spec_has_biome(biome_type),
        ensures
            *r == self.spec_biome_of_type(biome_type),
            r.biome_type == biome_type,
            exists|i: int| 0 <= i < self.biomes@.len() && *r == self.biomes@[i],
    {
        let mut i: usize = 0;
        while i < self.biomes.len()
            invariant
                self.spec_has_biome(biome_type),
                i <= self.biomes@.len(),
                forall|j: int| 0 <= j < i ==> self.biomes@[j].biome_type != biome_type,
            decreases self.biomes@.len() - i,
        {
            if self.biomes[i].biome_type == biome_type {
                proof {
                    lemma_first_index_of_type(self.biomes@, biome_type, i as int);
                }
                return &self.biomes[i];
            }
            i = i + 1;
        }
        proof {
            assert(false);
        }
        unreached()
    }

    /// Roulette-wheel draw of a biome identifier from the table.
    pub fn get_biome_from_rng(&self, rng: u32) -> (r: BiomeType)
        requires
            self.wf(),
            self.biomes_weight_sum > 0,
            rng < crate::FRAC_ONE,
        ensures
            r == self.spec_biome_from_rng(rng as int),
            self.spec_has_biome(r),
    {
        let ghost ws = self.biome_weights();
        let total = self.biomes_weight_sum;
        proof {
            lemma_scaled_threshold_lt(rng as int, total as int);
        }
        let val = ((rng as u64) * (total as u64) / (crate::FRAC_ONE as u64)) as u16;
        let ghost v = scaled_threshold(rng as int, total as int);

        let mut sum: u16 = 0;
        let mut i: usize = 0;
        while i < self.biomes.len()
            invariant
                self.wf(),
                self.biomes_weight_sum == total,
                total > 0,
                ws == self.biome_weights(),
                i <= self.biomes@.len(),
                sum as int == prefix_weight_sum(ws, i as int),
                sum as int <= v,
                0 <= v < total,
                val as int == v,
                v == scaled_threshold(rng as int, total as int),
            decreases self.biomes@.len() - i,
        {
            let w = self.biomes[i].weight;
            proof {
                assert(ws[i as int] == w);
                assert(prefix_weight_sum(ws, i + 1) == prefix_weight_sum(ws, i as int) + w);
                lemma_prefix_weight_sum_monotonic(ws, i + 1, ws.len() as int);
            }
            let new_sum = sum + w;
            if new_sum > val {
                proof {
                    lemma_pick_index_from_interval(ws, v, i as int);
                }
                return self.biomes[i].biome_type;
            }
            sum = new_sum;
            i = i + 1;
        }
        proof {
            assert(false);
        }
        unreached()
    }

    /// One biome draw per cell of a noise field, in the field's own
    /// cell order.
    pub fn get_biome_type_array_from_rng(&self, rng_array: &NoiseField) -> (r: Vec<BiomeType>)
        requires
            self.wf(),
            self.biomes_weight_sum > 0,
            rng_array.wf(),
        ensures
            r@.len() == rng_array.samples@.len(),
            forall|k: int|
                0 <= k < r@.len() ==> #[trigger] r@[k] == self.spec_biome_from_rng(
                    rng_array.samples@[k] as int,
                ),
            forall|k: int| 0 <= k < r@.len() ==> self.spec_has_biome(#[trigger] r@[k]),
    {
        let mut r: Vec<BiomeType> = Vec::new();
        let mut k: usize = 0;
        while k < rng_array.samples.len()
            invariant
                self.wf(),
                self.biomes_weight_sum > 0,
                rng_array.wf(),
                k <= rng_array.samples@.len(),
                r@.len() == k,
                forall|j: int|
                    0 <= j < k ==> #[trigger] r@[j] == self.spec_biome_from_rng(
                        rng_array.samples@[j] as int,
                    ),
                forall|j: int| 0 <= j < k ==> self.spec_has_biome(#[trigger] r@[j]),
            decreases rng_array.samples@.len() - k,
        {
            let u = rng_array.samples[k];
            r.push(self.get_biome_from_rng(u));
            k = k + 1;
        }
        r
    }
}

} // verus!
