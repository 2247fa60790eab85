//! The texture atlas layout shared with the renderer, the tile kinds of
//! the standard catalog, and the catalog itself.
use vstd::prelude::*;

use crate::biome::{Biome, BiomeHandle, BiomeType, TileType};
use crate::foliage::{Foliage, FoliageType};

verus! {

/// Number of tile columns (and rows) in the square texture atlas.
pub const TEXTURE_DIMENSION: usize = 8;

/// Capacity of the atlas: every tile kind must lie below this bound so
/// that its UV cell exists.
pub const ATLAS_TILE_COUNT: usize = TEXTURE_DIMENSION * TEXTURE_DIMENSION;

pub const DIRT: usize = 0;

pub const GRASS: usize = 1;

pub const STONE: usize = 2;

pub const SAND: usize = 3;

/// Water sits at the start of the atlas's second row.
pub const WATER: usize = TEXTURE_DIMENSION;

/// Foliage density shared by the inhabited biomes: about 0.3 in fixed
/// point.
pub const STANDARD_FOLIAGE_DENSITY: u32 = 19661;

/// Sprite scale shared by all foliage kinds: 1/16 in fixed point.
pub const FOLIAGE_SCALE: u32 = 4096;

fn rock_foliage() -> (r: Foliage)
    ensures
        r.foliage_type == FoliageType::ROCK,
        r.weight == 10,
        r.scale == FOLIAGE_SCALE,
        r.spawns_on@ == seq![STONE, DIRT, GRASS],
{
    let r = Foliage {
        foliage_type: FoliageType::ROCK,
        weight: 10,
        scale: FOLIAGE_SCALE,
        spawns_on: vec![STONE, DIRT, GRASS],
    };
    proof {
        assert(r.spawns_on@ =~= seq![STONE, DIRT, GRASS]);
    }
    r
}

/// Builds the standard biome catalog: plains, desert, grassland, beach
/// and ocean, in that registration (and hence tie-break) order, with
/// their weighted tile and foliage lists. The result is ready for chunk
/// generation.
pub fn init_biomes() -> (r: BiomeHandle)
    ensures
        r.ready(),
        r.biomes@.len() == 5,
        r.biomes_weight_sum == 85,
        r.biomes@[0].biome_type == BiomeType::PLAINS && r.biomes@[0].weight == 20,
        r.biomes@[1].biome_type == BiomeType::DESERT && r.biomes@[1].weight == 10,
        r.biomes@[2].biome_type == BiomeType::GRASSLAND && r.biomes@[2].weight == 10,
        r.biomes@[3].biome_type == BiomeType::BEACH && r.biomes@[3].weight == 5,
        r.biomes@[4].biome_type == BiomeType::OCEAN && r.biomes@[4].weight == 40,
        r.biomes@[0].foliage_density == STANDARD_FOLIAGE_DENSITY,
        r.biomes@[1].foliage_density == STANDARD_FOLIAGE_DENSITY,
        r.biomes@[2].foliage_density == STANDARD_FOLIAGE_DENSITY,
        r.biomes@[3].foliage_density == 0,
        r.biomes@[4].foliage_density == 0,
        r.biomes@[0].tiles@ == seq![
            TileType { tile_type: GRASS, weight: 10 },
            TileType { tile_type: DIRT, weight: 5 },
            TileType { tile_type: STONE, weight: 5 },
            TileType { tile_type: WATER, weight: 6 },
        ],
        r.biomes@[1].tiles@ == seq![
            TileType { tile_type: DIRT, weight: 4 },
            TileType { tile_type: SAND, weight: 20 },
        ],
        r.biomes@[2].tiles@ == seq![
            TileType { tile_type: GRASS, weight: 20 },
            TileType { tile_type: DIRT, weight: 4 },
            TileType { tile_type: STONE, weight: 4 },
            TileType { tile_type: WATER, weight: 10 },
        ],
        r.biomes@[3].tiles@ == seq![
            TileType { tile_type: WATER, weight: 4 },
            TileType { tile_type: SAND, weight: 10 },
        ],
        r.biomes@[4].tiles@ == seq![
            TileType { tile_type: WATER, weight: 30 },
            TileType { tile_type: SAND, weight: 4 },
        ],
        r.biomes@[0].foliage@.len() == 1 && r.biomes@[0].foliage@[0].foliage_type
            == FoliageType::ROCK,
        r.biomes@[1].foliage@.len() == 1 && r.biomes@[1].foliage@[0].foliage_type
            == FoliageType::CACTUS,
        r.biomes@[2].foliage@.len() == 2 && r.biomes@[2].foliage@[0].foliage_type
            == FoliageType::ROSE && r.biomes@[2].foliage@[1].foliage_type == FoliageType::ROCK,
        r.biomes@[3].foliage@.len() == 0,
        r.biomes@[4].foliage@.len() == 0,
{
    let grass_tile = TileType { tile_type: GRASS, weight: 10 };
    let dirt_tile = TileType { tile_type: DIRT, weight: 5 };
    let stone_tile = TileType { tile_type: STONE, weight: 5 };
    let sand_tile = TileType { tile_type: SAND, weight: 5 };
    let water_tile = TileType { tile_type: WATER, weight: 6 };

    let cactus = Foliage {
        foliage_type: FoliageType::CACTUS,
        weight: 10,
        scale: FOLIAGE_SCALE,
        spawns_on: vec![SAND],
    };
    let rose = Foliage {
        foliage_type: FoliageType::ROSE,
        weight: 10,
        scale: FOLIAGE_SCALE,
        spawns_on: vec![GRASS],
    };
    let plains_biome = Biome::new(20, BiomeType::PLAINS, STANDARD_FOLIAGE_DENSITY).add_tile(
        grass_tile.clone(),
    ).add_tile(dirt_tile.clone()).add_tile(stone_tile.clone()).add_tile(
        water_tile.clone(),
    ).add_foliage(rock_foliage());

    let desert_biome = Biome::new(10, BiomeType::DESERT, STANDARD_FOLIAGE_DENSITY).add_tile(
        dirt_tile.clone().set_weight(4),
    ).add_tile(sand_tile.clone().set_weight(20)).add_foliage(cactus);

    let grassland_biome = Biome::new(10, BiomeType::GRASSLAND, STANDARD_FOLIAGE_DENSITY).add_tile(
        grass_tile.clone().set_weight(20),
    ).add_tile(dirt_tile.clone().set_weight(4)).add_tile(
        stone_tile.clone().set_weight(4),
    ).add_tile(water_tile.clone().set_weight(10)).add_foliage(rose).add_foliage(rock_foliage());

    let beach_biome = Biome::new(5, BiomeType::BEACH, 0).add_tile(
        water_tile.clone().set_weight(4),
    ).add_tile(sand_tile.clone().set_weight(10));

    let ocean_biome = Biome::new(40, BiomeType::OCEAN, 0).add_tile(
        water_tile.set_weight(30),
    ).add_tile(sand_tile.set_weight(4));

    proof {
        assert(plains_biome.tiles@ =~= seq![
            TileType { tile_type: GRASS, weight: 10 },
            TileType { tile_type: DIRT, weight: 5 },
            TileType { tile_type: STONE, weight: 5 },
            TileType { tile_type: WATER, weight: 6 },
        ]);
        assert(desert_biome.tiles@ =~= seq![
            TileType { tile_type: DIRT, weight: 4 },
            TileType { tile_type: SAND, weight: 20 },
        ]);
        assert(grassland_biome.tiles@ =~= seq![
            TileType { tile_type: GRASS, weight: 20 },
            TileType { tile_type: DIRT, weight: 4 },
            TileType { tile_type: STONE, weight: 4 },
            TileType { tile_type: WATER, weight: 10 },
        ]);
        assert(beach_biome.tiles@ =~= seq![
            TileType { tile_type: WATER, weight: 4 },
            TileType { tile_type: SAND, weight: 10 },
        ]);
        assert(ocean_biome.tiles@ =~= seq![
            TileType { tile_type: WATER, weight: 30 },
            TileType { tile_type: SAND, weight: 4 },
        ]);
    }

    let mut biome_handle = BiomeHandle::new();
    biome_handle.add_biome(plains_biome);
    biome_handle.add_biome(desert_biome);
    biome_handle.add_biome(grassland_biome);
    biome_handle.add_biome(beach_biome);
    biome_handle.add_biome(ocean_biome);

    biome_handle
}

} // verus!
