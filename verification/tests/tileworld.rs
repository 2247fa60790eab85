use tileworld::biome::{Biome, BiomeType, TileType};
use tileworld::chunk::{foliage_placements, Chunk, ChunkCoordinate};
use tileworld::chunk_handler::{world_to_chunk, ChunkHandler};
use tileworld::foliage::{get_foliage_paths, Foliage, FoliageType};
use tileworld::meshing::ChunkTileMapBuilder;
use tileworld::noise::get_noise;
use tileworld::terrain::init_biomes;
use tileworld::tile::Tile;

fn three_tile_biome() -> Biome {
    Biome::new(1, BiomeType::PLAINS, 0)
        .add_tile(TileType { tile_type: 1, weight: 10 })
        .add_tile(TileType { tile_type: 2, weight: 5 })
        .add_tile(TileType { tile_type: 3, weight: 5 })
}

#[test]
fn noise_is_deterministic() {
    let c = ChunkCoordinate { x: 3, y: -2 };
    let f1 = get_noise(c, 42, 45875, 5);
    let f2 = get_noise(c, 42, 45875, 5);
    assert_eq!(f1.samples, f2.samples);
    assert_eq!(f1.samples.len(), 256);
    for v in &f1.samples {
        assert!(*v < 65536);
    }
}

#[test]
fn noise_sample_accessor_matches_grid() {
    let c = ChunkCoordinate { x: 0, y: 0 };
    let f = get_noise(c, 7, 65536, 3);
    for x in 0..16 {
        for y in 0..16 {
            assert_eq!(f.sample(x, y), f.samples[x * 16 + y]);
        }
    }
}

#[test]
fn weighted_draw_first_and_last() {
    let b = three_tile_biome();
    // u = 0.0 selects the first tile; u = 0.999 selects the last.
    assert_eq!(b.get_tile_from_rng(0), 1);
    assert_eq!(b.get_tile_from_rng(65470), 3);
}

#[test]
fn weighted_draw_boundaries() {
    let b = three_tile_biome();
    // The scaled value crosses from 9 to 10 (first to second tile)
    // exactly at u = 32768 (0.5 of the weight sum 20).
    assert_eq!(b.get_tile_from_rng(32767), 1);
    assert_eq!(b.get_tile_from_rng(32768), 2);
    // And from 14 to 15 (second to third) at u = 49152.
    assert_eq!(b.get_tile_from_rng(49151), 2);
    assert_eq!(b.get_tile_from_rng(49152), 3);
}

#[test]
fn weighted_draw_frequency_is_proportional() {
    let b = three_tile_biome();
    let mut counts = [0usize; 3];
    for u in 0..65536u32 {
        match b.get_tile_from_rng(u) {
            1 => counts[0] += 1,
            2 => counts[1] += 1,
            3 => counts[2] += 1,
            _ => panic!("unknown tile"),
        }
    }
    // Weights [10, 5, 5] of sum 20: exactly 1/2, 1/4, 1/4 of the
    // sample space land on each tile.
    assert_eq!(counts[0], 32768);
    assert_eq!(counts[1], 16384);
    assert_eq!(counts[2], 16384);
}

#[test]
fn biome_draw_order_and_boundaries() {
    let table = init_biomes();
    // Weights [20, 10, 10, 5, 40] of sum 85, registration order
    // plains, desert, grassland, beach, ocean.
    assert!(table.get_biome_from_rng(0) == BiomeType::PLAINS);
    assert!(table.get_biome_from_rng(65535) == BiomeType::OCEAN);
    // The scaled value reaches 20 (desert) exactly at u = 15421.
    assert!(table.get_biome_from_rng(15420) == BiomeType::PLAINS);
    assert!(table.get_biome_from_rng(15421) == BiomeType::DESERT);
}

#[test]
fn foliage_density_gate() {
    let b = Biome::new(1, BiomeType::DESERT, 19661).add_foliage(Foliage {
        foliage_type: FoliageType::CACTUS,
        weight: 10,
        scale: 4096,
        spawns_on: vec![3],
    });
    // Any draw at or past the density yields no foliage.
    assert!(b.get_foliage_from_rng(19661, 3) == FoliageType::NONE);
    assert!(b.get_foliage_from_rng(30000, 3) == FoliageType::NONE);
    assert!(b.get_foliage_from_rng(65535, 3) == FoliageType::NONE);
    // Below the density, a compatible tile receives the drawn kind.
    assert!(b.get_foliage_from_rng(0, 3) == FoliageType::CACTUS);
    assert!(b.get_foliage_from_rng(19660, 3) == FoliageType::CACTUS);
    // An incompatible tile yields none.
    assert!(b.get_foliage_from_rng(0, 1) == FoliageType::NONE);
}

#[test]
fn foliage_incompatible_draw_is_not_rerolled() {
    // Two kinds; every gate-passing draw lands on the first one
    // (cactus). On a tile only the second kind could decorate, the
    // result is still none: no alternate kind is substituted.
    let b = Biome::new(1, BiomeType::DESERT, 19661)
        .add_foliage(Foliage {
            foliage_type: FoliageType::CACTUS,
            weight: 10,
            scale: 4096,
            spawns_on: vec![3],
        })
        .add_foliage(Foliage {
            foliage_type: FoliageType::ROSE,
            weight: 10,
            scale: 4096,
            spawns_on: vec![1],
        });
    for u in [0u32, 5000, 19660] {
        assert!(b.get_foliage_from_rng(u, 1) == FoliageType::NONE);
    }
}

#[test]
fn foliage_zero_weight_catalog_yields_none() {
    let b = Biome::new(1, BiomeType::BEACH, 19661);
    assert!(b.get_foliage_from_rng(0, 0) == FoliageType::NONE);
}

#[test]
fn foliage_spawns_on_lookup() {
    let f = Foliage {
        foliage_type: FoliageType::ROCK,
        weight: 10,
        scale: 4096,
        spawns_on: vec![2, 0, 1],
    };
    assert!(f.spawns_on_tile(0));
    assert!(f.spawns_on_tile(1));
    assert!(f.spawns_on_tile(2));
    assert!(!f.spawns_on_tile(3));
}

#[test]
fn foliage_paths() {
    assert_eq!(get_foliage_paths(FoliageType::NONE), "");
    assert_eq!(get_foliage_paths(FoliageType::CACTUS), "sprites/foliage/cactus.png");
    assert_eq!(get_foliage_paths(FoliageType::ROSE), "sprites/foliage/rose.png");
    assert_eq!(get_foliage_paths(FoliageType::ROCK), "sprites/foliage/rock.png");
}

#[test]
fn mesh_builder_counts() {
    let mut b = ChunkTileMapBuilder::new();
    for k in 0..7i64 {
        b.add_tile(k, 0, 3);
    }
    let m = b.build();
    assert_eq!(m.vertices.len(), 28);
    assert_eq!(m.normals.len(), 28);
    assert_eq!(m.uvs.len(), 28);
    assert_eq!(m.triangles.len(), 42);
    for t in &m.triangles {
        assert!((*t as usize) < 28);
    }
    b.clear();
    let m2 = b.build();
    assert_eq!(m2.vertices.len(), 0);
    assert_eq!(m2.normals.len(), 0);
    assert_eq!(m2.uvs.len(), 0);
    assert_eq!(m2.triangles.len(), 0);
}

#[test]
fn mesh_quad_contents() {
    let mut b = ChunkTileMapBuilder::new();
    // Tile kind 9 sits at atlas cell (column 1, row 1); one cell is
    // 8192 fixed-point UV units wide.
    b.add_tile(2, 5, 9);
    let m = b.build();
    assert_eq!(m.vertices, vec![(2, 5), (2, 6), (3, 5), (3, 6)]);
    assert_eq!(m.triangles, vec![1, 0, 2, 1, 2, 3]);
    assert_eq!(
        m.uvs,
        vec![(16384, 16384), (8192, 8192), (8192, 16384), (16384, 8192)]
    );
    assert_eq!(m.normals, vec![(0, 0, 1), (0, 0, 1), (0, 0, 1), (0, 0, 1)]);
}

#[test]
fn mesh_second_quad_indices_are_offset() {
    let mut b = ChunkTileMapBuilder::new();
    b.add_tile(0, 0, 0);
    b.add_tile(1, 0, 0);
    let m = b.build();
    assert_eq!(m.triangles, vec![1, 0, 2, 1, 2, 3, 5, 4, 6, 5, 6, 7]);
}

#[test]
fn tile_default_is_empty_plains() {
    let t = Tile::default();
    assert_eq!(t.tile, 0);
    assert!(t.biome == BiomeType::PLAINS);
}

#[test]
fn tile_type_set_weight() {
    let t = TileType { tile_type: 5, weight: 1 }.set_weight(9);
    assert_eq!(t.tile_type, 5);
    assert_eq!(t.weight, 9);
}

#[test]
fn catalog_registration() {
    let table = init_biomes();
    assert_eq!(table.biomes.len(), 5);
    assert_eq!(table.biomes_weight_sum, 85);
    assert!(table.biomes[0].biome_type == BiomeType::PLAINS);
    assert!(table.biomes[4].biome_type == BiomeType::OCEAN);
    let ocean = table.get_biome(BiomeType::OCEAN);
    assert_eq!(ocean.weight, 40);
    assert_eq!(ocean.foliage_density, 0);
    let plains = table.get_biome(BiomeType::PLAINS);
    assert_eq!(plains.weight, 20);
    assert_eq!(plains.foliage_density, 19661);
}

#[test]
fn biome_type_array_matches_per_cell_draws() {
    let table = init_biomes();
    let field = get_noise(ChunkCoordinate { x: 1, y: 1 }, 5, 6554, 3);
    let kinds = table.get_biome_type_array_from_rng(&field);
    assert_eq!(kinds.len(), 256);
    for k in 0..256 {
        assert!(kinds[k] == table.get_biome_from_rng(field.samples[k]));
    }
}

#[test]
fn chunk_generation_shape_and_determinism() {
    let table = init_biomes();
    let c = Chunk::new(ChunkCoordinate { x: 0, y: 0 }, 123, &table);
    assert_eq!(c.tiles.len(), 256);
    assert_eq!(c.foliage_type.len(), 256);
    for t in &c.tiles {
        assert!(t.tile < 64);
    }
    let c2 = Chunk::new(ChunkCoordinate { x: 0, y: 0 }, 123, &table);
    for k in 0..256 {
        assert_eq!(c.tiles[k].tile, c2.tiles[k].tile);
        assert!(c.tiles[k].biome == c2.tiles[k].biome);
        assert!(c.foliage_type[k] == c2.foliage_type[k]);
    }
}

#[test]
fn chunk_mesh_generation_and_remesh() {
    let table = init_biomes();
    let mut c = Chunk::new(ChunkCoordinate { x: 2, y: -3 }, 9, &table);
    let m = c.generate_mesh();
    assert_eq!(m.vertices.len(), 1024);
    assert_eq!(m.triangles.len(), 1536);
    assert_eq!(m.uvs.len(), 1024);
    for t in &m.triangles {
        assert!((*t as usize) < 1024);
    }
    // Remeshing the unchanged grid reproduces the same geometry.
    let m2 = c.generate_mesh();
    assert_eq!(m.vertices, m2.vertices);
    assert_eq!(m.triangles, m2.triangles);
    assert_eq!(m.uvs, m2.uvs);
}

#[test]
fn set_block_overwrites_one_cell() {
    let table = init_biomes();
    let mut c = Chunk::new(ChunkCoordinate { x: 0, y: 0 }, 1, &table);
    c.set_block(3, 4, 7);
    assert_eq!(c.tiles[3 * 16 + 4].tile, 7);
    assert!(c.tiles[3 * 16 + 4].biome == BiomeType::PLAINS);
}

#[test]
fn foliage_placement_positions() {
    let table = init_biomes();
    let c = Chunk::new(ChunkCoordinate { x: 1, y: 0 }, 77, &table);
    let placements = foliage_placements(&c);
    let expected: usize = c
        .foliage_type
        .iter()
        .filter(|f| **f != FoliageType::NONE)
        .count();
    assert_eq!(placements.len(), expected);
    for (wx, wy, kind) in &placements {
        assert!(*kind != FoliageType::NONE);
        // Cell centers of chunk (1, 0): 1048576 + cell * 65536 + 32768.
        assert!((*wx - 32768) % 65536 == 0);
        assert!((*wy - 32768) % 65536 == 0);
        assert!(*wx >= 1048576 && *wx < 2097152);
        assert!(*wy >= 0 && *wy < 1048576);
    }
}

#[test]
fn streaming_window_pass() {
    let table = init_biomes();
    let mut h = ChunkHandler::new();
    let added = h.update_chunks(ChunkCoordinate { x: 0, y: 0 }, 0, &table);
    // visible_range 3: the (2*3 - 1)^2 = 25 coordinates of
    // [-2, 2] x [-2, 2] and nothing else.
    assert_eq!(added.len(), 25);
    assert_eq!(h.chunk_count(), 25);
    for x in -2..=2 {
        for y in -2..=2 {
            assert!(h.contains_chunk(ChunkCoordinate { x, y }));
        }
    }
    assert!(!h.contains_chunk(ChunkCoordinate { x: 3, y: 0 }));
    assert!(!h.contains_chunk(ChunkCoordinate { x: 0, y: -3 }));
    // A second pass over the same window adds nothing.
    let added2 = h.update_chunks(ChunkCoordinate { x: 0, y: 0 }, 0, &table);
    assert_eq!(added2.len(), 0);
    assert_eq!(h.chunk_count(), 25);
    // A shifted window generates only the missing column/row.
    let added3 = h.update_chunks(ChunkCoordinate { x: 1, y: 0 }, 0, &table);
    assert_eq!(added3.len(), 5);
    assert_eq!(h.chunk_count(), 30);
}

#[test]
fn eviction_gate_and_boundary() {
    let table = init_biomes();
    let mut h = ChunkHandler::new();
    h.update_chunks(ChunkCoordinate { x: 0, y: 0 }, 7, &table);

    // Below the movement gate (half a chunk side) nothing runs.
    let (ran, evicted) = h.remove_chunks(99999999, 0, 524288);
    assert!(!ran);
    assert_eq!(evicted.len(), 0);
    assert_eq!(h.chunk_count(), 25);

    // From the window's center every chunk is within range.
    let (ran2, evicted2) = h.remove_chunks(0, 0, 524289);
    assert!(ran2);
    assert_eq!(evicted2.len(), 0);
    assert_eq!(h.chunk_count(), 25);

    // Observer one chunk to the left: chunk (2, 0) sits at exactly
    // 3 chunk sides (the boundary) and is retained; (2, +-1) and
    // (2, +-2) lie strictly beyond and are evicted.
    let (ran3, evicted3) = h.remove_chunks(-1048576, 0, 1048576);
    assert!(ran3);
    assert!(h.contains_chunk(ChunkCoordinate { x: 2, y: 0 }));
    assert!(!h.contains_chunk(ChunkCoordinate { x: 2, y: 1 }));
    assert!(!h.contains_chunk(ChunkCoordinate { x: 2, y: -1 }));
    assert!(!h.contains_chunk(ChunkCoordinate { x: 2, y: 2 }));
    assert!(!h.contains_chunk(ChunkCoordinate { x: 2, y: -2 }));
    assert_eq!(evicted3.len(), 4);
    assert_eq!(h.chunk_count(), 21);

    // One fixed-point unit farther and the boundary chunk goes too.
    let mut h2 = ChunkHandler::new();
    h2.update_chunks(ChunkCoordinate { x: 0, y: 0 }, 7, &table);
    h2.remove_chunks(-1048577, 0, 1048576);
    assert!(!h2.contains_chunk(ChunkCoordinate { x: 2, y: 0 }));
}

#[test]
fn remesh_queue_collapses_duplicates() {
    let table = init_biomes();
    let mut h = ChunkHandler::new();
    h.update_chunks(ChunkCoordinate { x: 0, y: 0 }, 1, &table);
    let c = ChunkCoordinate { x: 0, y: 0 };
    h.chunks_to_remesh(c);
    h.chunks_to_remesh(c);
    let batch = h.drain_remesh();
    // Two enqueues before the drain still mean exactly one rebuild.
    assert_eq!(batch.len(), 1);
    assert_eq!(batch[0], c);
    // The drain emptied the queue.
    let batch2 = h.drain_remesh();
    assert_eq!(batch2.len(), 0);
    // A queued coordinate whose chunk is gone is dropped at the drain.
    h.chunks_to_remesh(ChunkCoordinate { x: 9, y: 9 });
    let batch3 = h.drain_remesh();
    assert_eq!(batch3.len(), 0);
}

#[test]
fn remesh_through_store_matches_chunk_mesh() {
    let table = init_biomes();
    let mut h = ChunkHandler::new();
    h.update_chunks(ChunkCoordinate { x: 0, y: 0 }, 3, &table);
    let c = ChunkCoordinate { x: 1, y: 1 };
    let m = h.remesh_chunk(c);
    assert_eq!(m.vertices.len(), 1024);
    assert_eq!(m.triangles.len(), 1536);
    let mut fresh = Chunk::new(c, 3, &table);
    let m2 = fresh.generate_mesh();
    assert_eq!(m.uvs, m2.uvs);
}

#[test]
fn world_to_chunk_floors() {
    assert_eq!(world_to_chunk(0, 0), ChunkCoordinate { x: 0, y: 0 });
    assert_eq!(world_to_chunk(1048575, 1048576), ChunkCoordinate { x: 0, y: 1 });
    assert_eq!(world_to_chunk(-1, -1048576), ChunkCoordinate { x: -1, y: -1 });
    assert_eq!(world_to_chunk(-1048577, 2097152), ChunkCoordinate { x: -2, y: 2 });
}

#[test]
fn get_chunk_xy_locates_cell() {
    let table = init_biomes();
    let mut h = ChunkHandler::new();
    h.update_chunks(ChunkCoordinate { x: 0, y: 0 }, 0, &table);
    let (chunk, x, y) = h.get_chunk_xy(3 * 65536 + 100, -65536);
    assert_eq!(chunk.coordinate, ChunkCoordinate { x: 0, y: -1 });
    assert_eq!(x, 3);
    assert_eq!(y, 15);
}

#[test]
fn update_chunk_edits_stored_chunk() {
    let table = init_biomes();
    let mut h = ChunkHandler::new();
    h.update_chunks(ChunkCoordinate { x: 0, y: 0 }, 0, &table);
    let c = ChunkCoordinate { x: -1, y: 2 };
    h.update_chunk(c, 5, 6, 8);
    let chunk = h.get_chunk(c);
    assert_eq!(chunk.tiles[5 * 16 + 6].tile, 8);
    assert!(chunk.tiles[5 * 16 + 6].biome == BiomeType::PLAINS);
}
