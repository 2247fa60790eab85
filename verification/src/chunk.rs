//! Chunks: fixed-size square grids of tiles, the unit of generation and
//! streaming.
//!
//! World positions are fixed-point integers: `FRAC_ONE` units per tile,
//! so one chunk spans `CHUNK_SIDE_SIZE` fixed-point units per axis.
use vstd::prelude::*;

use crate::biome::BiomeHandle;
use crate::biome::BiomeType;
use crate::foliage::FoliageType;
use crate::meshing::{
    quad_normals, quad_triangles, quad_uvs, quad_vertices, ChunkTileMapBuilder, Mesh,
};
use crate::noise::{get_noise, spec_noise_at, NoiseField};
use crate::tile::Tile;

verus! {

/// Side length of a chunk, in tiles.
pub const CHUNK_SIZE: usize = 16;

/// Number of cells in a chunk.
pub const CHUNK_AREA: usize = CHUNK_SIZE * CHUNK_SIZE;

/// Side length of a tile in world units (tiles are the world unit).
pub const TILE_SIZE: i64 = 1;

/// Side length of a chunk in fixed-point world units
/// (`CHUNK_SIZE * FRAC_ONE`).
pub const CHUNK_SIDE_SIZE: i64 = 1048576;

/// A whole-number chunk index on each axis; equality is exact.
#[derive(Copy, Clone, PartialEq, Eq, Structural, Debug)]
pub struct ChunkCoordinate {
    pub x: i32,
    pub y: i32,
}

/// Frequency of the tile-selection noise field (fixed point, about 0.7).
pub const TILE_NOISE_FREQUENCY: u32 = 45875;

/// Octave count of the tile-selection noise field.
pub const TILE_NOISE_OCTAVES: u32 = 5;

/// Frequency of the biome-selection noise field (fixed point, about
/// 0.1): much lower than the tile field, so biome regions span many
/// tiles and the three fields stay visually decorrelated.
pub const BIOME_NOISE_FREQUENCY: u32 = 6554;

/// Octave count of the biome-selection noise field.
pub const BIOME_NOISE_OCTAVES: u32 = 3;

/// Frequency of the foliage-placement noise field (fixed point, 5.0).
pub const FOLIAGE_NOISE_FREQUENCY: u32 = 327680;

/// Octave count of the foliage-placement noise field.
pub const FOLIAGE_NOISE_OCTAVES: u32 = 5;

/// The tile generation resolves for cell (x, y) of the chunk at
/// `coord`: the biome field picks the biome, the tile field picks a
/// tile kind within it.
#[verifier::opaque]
pub open spec fn spec_generated_tile(
    handle: BiomeHandle,
    coord: ChunkCoordinate,
    seed: u32,
    x: int,
    y: int,
) -> Tile {
    let bu = spec_noise_at(coord, seed, BIOME_NOISE_FREQUENCY, BIOME_NOISE_OCTAVES, x, y);
    let bt = handle.spec_biome_from_rng(bu);
    let b = handle.spec_biome_of_type(bt);
    let tu = spec_noise_at(coord, seed, TILE_NOISE_FREQUENCY, TILE_NOISE_OCTAVES, x, y);
    Tile { tile: b.spec_tile_from_rng(tu), biome: bt }
}

/// The foliage kind generation resolves for cell (x, y): the foliage
/// field's draw within the cell's biome, gated by the cell's tile kind.
#[verifier::opaque]
pub open spec fn spec_generated_foliage(
    handle: BiomeHandle,
    coord: ChunkCoordinate,
    seed: u32,
    x: int,
    y: int,
) -> FoliageType {
    let t = spec_generated_tile(handle, coord, seed, x, y);
    let b = handle.spec_biome_of_type(t.biome);
    let fu = spec_noise_at(coord, seed, FOLIAGE_NOISE_FREQUENCY, FOLIAGE_NOISE_OCTAVES, x, y);
    b.spec_foliage_from_rng(fu, t.tile)
}

/// A chunk: a tile per cell, a foliage kind per cell (`NONE` meaning
/// no foliage), the chunk's coordinate, and the mesh builder scratch
/// state, row-major by cell x.
pub struct Chunk {
    pub tiles: Vec<Tile>,
    pub foliage_type: Vec<FoliageType>,
    pub coordinate: ChunkCoordinate,
    pub chunk_tile_map_builder: ChunkTileMapBuilder,
}

/// Positions of the first `n` quads of a chunk mesh: one unit quad per
/// cell at the cell's offset in tile units.
pub open spec fn spec_grid_vertices(n: int) -> Seq<(i64, i64)>
    decreases n,
{
    if n <= 0 {
        Seq::empty()
    } else {
        spec_grid_vertices(n - 1) + quad_vertices(((n - 1) / 16) as i64, ((n - 1) % 16) as i64)
    }
}

/// Triangle indices of the first `n` quads of a chunk mesh.
pub open spec fn spec_grid_triangles(n: int) -> Seq<u32>
    decreases n,
{
    if n <= 0 {
        Seq::empty()
    } else {
        spec_grid_triangles(n - 1) + quad_triangles((n - 1) as u32)
    }
}

/// Normals of the first `n` quads of a chunk mesh.
pub open spec fn spec_grid_normals(n: int) -> Seq<(i32, i32, i32)>
    decreases n,
{
    if n <= 0 {
        Seq::empty()
    } else {
        spec_grid_normals(n - 1) + quad_normals()
    }
}

/// UVs of the first `n` quads of a chunk mesh, from the cells' tile
/// kinds.
pub open spec fn spec_grid_uvs(tiles: Seq<Tile>, n: int) -> Seq<(u32, u32)>
    decreases n,
{
    if n <= 0 {
        Seq::empty()
    } else {
        spec_grid_uvs(tiles, n - 1) + quad_uvs(tiles[n - 1].tile)
    }
}

proof fn lemma_grid_lens(tiles: Seq<Tile>, n: int)
    requires
        n >= 0,
    ensures
        spec_grid_vertices(n).len() == 4 * n,
        spec_grid_triangles(n).len() == 6 * n,
        spec_grid_normals(n).len() == 4 * n,
        spec_grid_uvs(tiles, n).len() == 4 * n,
    decreases n,
{
    if n > 0 {
        lemma_grid_lens(tiles, n - 1);
    }
}

impl Chunk {
    /// Well-formedness: one tile and one foliage kind per cell, every
    /// tile kind within the atlas, and the builder scratch state empty.
    pub open spec fn wf(&self) -> bool {
        &&& self.tiles@.len() == CHUNK_AREA
        &&& self.foliage_type@.len() == CHUNK_AREA
        &&& forall|k: int|
            0 <= k < self.tiles@.len() ==> (#[trigger] self.tiles@[k]).tile
                < crate::terrain::ATLAS_TILE_COUNT
        &&& self.chunk_tile_map_builder.wf()
        &&& self.chunk_tile_map_builder.spec_empty()
    }

    /// The tile at cell (x, y).
    pub open spec fn spec_tile(&self, x: int, y: int) -> Tile {
        self.tiles@[x * 16 + y]
    }

    /// The foliage kind at cell (x, y).
    pub open spec fn spec_foliage(&self, x: int, y: int) -> FoliageType {
        self.foliage_type@[x * 16 + y]
    }

    /// What generation produces for (handle, coord, seed): every cell's
    /// tile and foliage kind equal the resolved draws.
    pub open spec fn is_generated(
        &self,
        handle: BiomeHandle,
        coord: ChunkCoordinate,
        seed: u32,
    ) -> bool {
        &&& self.wf()
        &&& self.coordinate == coord
        &&& forall|x: int, y: int|
            0 <= x < 16 && 0 <= y < 16 ==> #[trigger] self.spec_tile(x, y) == spec_generated_tile(
                handle,
                coord,
                seed,
                x,
                y,
            )
        &&& forall|x: int, y: int|
            0 <= x < 16 && 0 <= y < 16 ==> #[trigger] self.spec_foliage(x, y)
                == spec_generated_foliage(handle, coord, seed, x, y)
    }

    /// Generates the chunk at `coordinate`: samples the three noise
    /// fields and resolves every cell through the biome table.
    pub fn new(coordinate: ChunkCoordinate, seed: u32, biome_handle: &BiomeHandle) -> (r: Self)
        requires
            biome_handle.ready(),
        ensures
            r.is_generated(*biome_handle, coordinate, seed),
    {
        let noise = get_noise(coordinate, seed, TILE_NOISE_FREQUENCY, TILE_NOISE_OCTAVES);
        let biome_noise = get_noise(coordinate, seed, BIOME_NOISE_FREQUENCY, BIOME_NOISE_OCTAVES);
        let biome_type = biome_handle.get_biome_type_array_from_rng(&biome_noise);
        let foliage_noise = get_noise(
            coordinate,
            seed,
            FOLIAGE_NOISE_FREQUENCY,
            FOLIAGE_NOISE_OCTAVES,
        );

        let mut tiles: Vec<Tile> = Vec::new();
        let mut foliage_type: Vec<FoliageType> = Vec::new();
        let mut x: usize = 0;
        while x < 16
            invariant
                x <= 16,
                biome_handle.ready(),
                noise.wf(),
                biome_noise.wf(),
                foliage_noise.wf(),
                forall|i: int, j: int|
                    0 <= i < 16 && 0 <= j < 16 ==> noise.spec_sample(i, j) == spec_noise_at(
                        coordinate,
                        seed,
                        TILE_NOISE_FREQUENCY,
                        TILE_NOISE_OCTAVES,
                        i,
                        j,
                    ),
                forall|i: int, j: int|
                    0 <= i < 16 && 0 <= j < 16 ==> biome_noise.spec_sample(i, j) == spec_noise_at(
                        coordinate,
                        seed,
                        BIOME_NOISE_FREQUENCY,
                        BIOME_NOISE_OCTAVES,
                        i,
                        j,
                    ),
                forall|i: int, j: int|
                    0 <= i < 16 && 0 <= j < 16 ==> foliage_noise.spec_sample(i, j) == spec_noise_at(
                        coordinate,
                        seed,
                        FOLIAGE_NOISE_FREQUENCY,
                        FOLIAGE_NOISE_OCTAVES,
                        i,
                        j,
                    ),
                biome_type@.len() == 256,
                forall|k: int|
                    0 <= k < 256 ==> #[trigger] biome_type@[k] == biome_handle.spec_biome_from_rng(
                        biome_noise.samples@[k] as int,
                    ),
                forall|k: int| 0 <= k < 256 ==> biome_handle.spec_has_biome(#[trigger] biome_type@[k]),
                tiles@.len() == x * 16,
                foliage_type@.len() == x * 16,
                forall|k: int|
                    0 <= k < tiles@.len() ==> (#[trigger] tiles@[k]).tile
                        < crate::terrain::ATLAS_TILE_COUNT,
                forall|i: int, j: int|
                    0 <= i < x && 0 <= j < 16 ==> tiles@[i * 16 + j] == spec_generated_tile(
                        *biome_handle,
                        coordinate,
                        seed,
                        i,
                        j,
                    ),
                forall|i: int, j: int|
                    0 <= i < x && 0 <= j < 16 ==> foliage_type@[i * 16 + j]
                        == spec_generated_foliage(*biome_handle, coordinate, seed, i, j),
            decreases 16 - x,
        {
            let mut y: usize = 0;
            while y < 16
                invariant
                    x < 16,
                    y <= 16,
                    biome_handle.ready(),
                    noise.wf(),
                    biome_noise.wf(),
                    foliage_noise.wf(),
                    forall|i: int, j: int|
                        0 <= i < 16 && 0 <= j < 16 ==> noise.spec_sample(i, j) == spec_noise_at(
                            coordinate,
                            seed,
                            TILE_NOISE_FREQUENCY,
                            TILE_NOISE_OCTAVES,
                            i,
                            j,
                        ),
                    forall|i: int, j: int|
                        0 <= i < 16 && 0 <= j < 16 ==> biome_noise.spec_sample(i, j)
                            == spec_noise_at(
                            coordinate,
                            seed,
                            BIOME_NOISE_FREQUENCY,
                            BIOME_NOISE_OCTAVES,
                            i,
                            j,
                        ),
                    forall|i: int, j: int|
                        0 <= i < 16 && 0 <= j < 16 ==> foliage_noise.spec_sample(i, j)
                            == spec_noise_at(
                            coordinate,
                            seed,
                            FOLIAGE_NOISE_FREQUENCY,
                            FOLIAGE_NOISE_OCTAVES,
                            i,
                            j,
                        ),
                    biome_type@.len() == 256,
                    forall|k: int|
                        0 <= k < 256 ==> #[trigger] biome_type@[k]
                            == biome_handle.spec_biome_from_rng(biome_noise.samples@[k] as int),
                    forall|k: int|
                        0 <= k < 256 ==> biome_handle.spec_has_biome(#[trigger] biome_type@[k]),
                    tiles@.len() == x * 16 + y,
                    foliage_type@.len() == x * 16 + y,
                    forall|k: int|
                        0 <= k < tiles@.len() ==> (#[trigger] tiles@[k]).tile
                            < crate::terrain::ATLAS_TILE_COUNT,
                    forall|i: int, j: int|
                        0 <= i < x && 0 <= j < 16 ==> tiles@[i * 16 + j] == spec_generated_tile(
                            *biome_handle,
                            coordinate,
                            seed,
                            i,
                            j,
                        ),
                    forall|i: int, j: int|
                        0 <= i < x && 0 <= j < 16 ==> foliage_type@[i * 16 + j]
                            == spec_generated_foliage(*biome_handle, coordinate, seed, i, j),
                    forall|j: int|
                        0 <= j < y ==> tiles@[x * 16 + j] == spec_generated_tile(
                            *biome_handle,
                            coordinate,
                            seed,
                            x as int,
                            j,
                        ),
                    forall|j: int|
                        0 <= j < y ==> foliage_type@[x * 16 + j] == spec_generated_foliage(
                            *biome_handle,
                            coordinate,
                            seed,
                            x as int,
                            j,
                        ),
                decreases 16 - y,
            {
                let bt = biome_type[x * 16 + y];
                proof {
                    reveal(spec_generated_tile);
                    reveal(spec_generated_foliage);
                    assert(biome_noise.spec_sample(x as int, y as int) == biome_noise.samples@[x
                        * 16 + y] as int);
                }
                let biome = biome_handle.get_biome(bt);
                let tu = noise.sample(x, y);
                let tile_type = biome.get_tile_from_rng(tu);
                let fu = foliage_noise.sample(x, y);
                let fol = biome.get_foliage_from_rng(fu, tile_type);
                tiles.push(Tile { tile: tile_type, biome: bt });
                foliage_type.push(fol);
                y = y + 1;
            }
            x = x + 1;
        }

        Chunk { tiles, foliage_type, coordinate, chunk_tile_map_builder: ChunkTileMapBuilder::new() }
    }

    /// Overwrites one cell's tile with the given kind, owned by the
    /// plains biome.
    pub fn set_block(&mut self, x: usize, y: usize, block: usize)
        requires
            old(self).wf(),
            x < CHUNK_SIZE,
            y < CHUNK_SIZE,
            block < crate::terrain::ATLAS_TILE_COUNT,
        ensures
            final(self).wf(),
            final(self).tiles@ == old(self).tiles@.update(
                x * 16 + y,
                Tile { tile: block, biome: BiomeType::PLAINS },
            ),
            final(self).foliage_type@ == old(self).foliage_type@,
            final(self).coordinate == old(self).coordinate,
            final(self).chunk_tile_map_builder == old(self).chunk_tile_map_builder,
    {
        self.tiles[x * 16 + y] = Tile { tile: block, biome: BiomeType::PLAINS };
    }

    /// Builds the chunk's mesh: one quad per cell, row-major, then
    /// resets the builder so the chunk is ready for the next remesh.
    pub fn generate_mesh(&mut self) -> (m: Mesh)
        requires
            old(self).wf(),
        ensures
            final(self).wf(),
            final(self).tiles@ == old(self).tiles@,
            final(self).foliage_type@ == old(self).foliage_type@,
            final(self).coordinate == old(self).coordinate,
            m.vertices@ == spec_grid_vertices(256),
            m.triangles@ == spec_grid_triangles(256),
            m.normals@ == spec_grid_normals(256),
            m.uvs@ == spec_grid_uvs(old(self).tiles@, 256),
            m.vertices@.len() == 4 * 256,
            m.triangles@.len() == 6 * 256,
            m.normals@.len() == 4 * 256,
            m.uvs@.len() == 4 * 256,
    {
        let ghost tiles0 = self.tiles@;
        let ghost foliage0 = self.foliage_type@;
        let ghost coord0 = self.coordinate;
        let mut k: usize = 0;
        while k < 256
            invariant
                k <= 256,
                self.tiles@ == tiles0,
                self.foliage_type@ == foliage0,
                self.foliage_type@.len() == 256,
                self.coordinate == coord0,
                self.tiles@.len() == 256,
                forall|j: int|
                    0 <= j < self.tiles@.len() ==> (#[trigger] self.tiles@[j]).tile
                        < crate::terrain::ATLAS_TILE_COUNT,
                self.chunk_tile_map_builder.wf(),
                self.chunk_tile_map_builder.face_count == k,
                self.chunk_tile_map_builder.vertices@ == spec_grid_vertices(k as int),
                self.chunk_tile_map_builder.triangles@ == spec_grid_triangles(k as int),
                self.chunk_tile_map_builder.normals@ == spec_grid_normals(k as int),
                self.chunk_tile_map_builder.uvs@ == spec_grid_uvs(tiles0, k as int),
            decreases 256 - k,
        {
            let t = self.tiles[k].tile;
            let ox = (k / 16) as i64;
            let oy = (k % 16) as i64;
            self.chunk_tile_map_builder.add_tile(ox, oy, t);
            k = k + 1;
        }

        let mesh = self.chunk_tile_map_builder.build();
        proof {
            lemma_grid_lens(tiles0, 256);
        }
        self.clear_builder();
        mesh
    }

    /// Resets the mesh builder scratch state.
    pub fn clear_builder(&mut self)
        ensures
            final(self).tiles@ == old(self).tiles@,
            final(self).foliage_type@ == old(self).foliage_type@,
            final(self).coordinate == old(self).coordinate,
            final(self).chunk_tile_map_builder.wf(),
            final(self).chunk_tile_map_builder.spec_empty(),
    {
        self.chunk_tile_map_builder.clear();
    }
}

/// The decoration pairs of the first `n` cells: the world position of
/// each cell's center (fixed-point units) and its foliage kind, for
/// cells whose kind is not `NONE`.
pub open spec fn spec_foliage_placements(c: Chunk, n: int) -> Seq<(i64, i64, FoliageType)>
    decreases n,
{
    if n <= 0 {
        Seq::empty()
    } else {
        let prev = spec_foliage_placements(c, n - 1);
        if c.foliage_type@[n - 1] != FoliageType::NONE {
            prev.push(
                (
                    (c.coordinate.x as int * 1048576 + (n - 1) / 16 * 65536 + 32768) as i64,
                    (c.coordinate.y as int * 1048576 + (n - 1) % 16 * 65536 + 32768) as i64,
                    c.foliage_type@[n - 1],
                ),
            )
        } else {
            prev
        }
    }
}

/// Lists the decoration pairs the chunk's presenter must place: one
/// (world position of cell center, foliage kind) pair per cell with
/// foliage.
pub fn foliage_placements(chunk: &Chunk) -> (r: Vec<(i64, i64, FoliageType)>)
    requires
        chunk.wf(),
    ensures
        r@ == spec_foliage_placements(*chunk, 256),
{
    let mut r: Vec<(i64, i64, FoliageType)> = Vec::new();
    let mut k: usize = 0;
    while k < 256
        invariant
            k <= 256,
            chunk.wf(),
            r@ == spec_foliage_placements(*chunk, k as int),
        decreases 256 - k,
    {
        let fol = chunk.foliage_type[k];
        if !matches!(fol, FoliageType::NONE) {
            let wx = (chunk.coordinate.x as i64) * 1048576 + ((k / 16) as i64) * 65536 + 32768;
            let wy = (chunk.coordinate.y as i64) * 1048576 + ((k % 16) as i64) * 65536 + 32768;
            r.push((wx, wy, fol));
        }
        k = k + 1;
    }
    r
}

} // verus!
