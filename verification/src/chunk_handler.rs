//! The chunk store and streaming controller: owns the set of generated
//! chunks, decides which chunks must exist around the observer,
//! generates and evicts them, and drains the remesh queue.
//!
//! World positions are fixed-point integers (`FRAC_ONE` units per
//! tile); chunk coordinates are whole numbers. Per tick the caller is
//! expected to drain remeshes first, then evict, then generate, so a
//! chunk is never both evicted and generated in one pass.
use vstd::prelude::*;

use vstd::arithmetic::div_mod::lemma_fundamental_div_mod_converse;
use crate::biome::BiomeHandle;
use crate::chunk::{Chunk, ChunkCoordinate, CHUNK_SIDE_SIZE, CHUNK_SIZE};
use crate::meshing::Mesh;

verus! {

/// Radius, in chunks, of the square window that must exist around the
/// observer; chunks farther than this (in world distance) are evicted.
pub const VISIBLE_CHUNKS: i32 = 3;

/// The chunk store: the generated chunks (one per coordinate) and the
/// queue of coordinates pending a remesh (kept free of duplicates,
/// since remeshing is idempotent).
pub struct ChunkHandler {
    pub chunks: Vec<Chunk>,
    pub chunks_to_remesh: Vec<ChunkCoordinate>,
}

impl ChunkHandler {
    /// Whether a chunk with this coordinate is in the store.
    pub open spec fn has_chunk(&self, c: ChunkCoordinate) -> bool {
        exists|i: int| 0 <= i < self.chunks@.len() && self.chunks@[i].coordinate == c
    }

    /// The store's index of the chunk with this coordinate.
    pub open spec fn spec_index_of(&self, c: ChunkCoordinate) -> int {
        choose|i: int| 0 <= i < self.chunks@.len() && self.chunks@[i].coordinate == c
    }

    /// The chunk with this coordinate.
    pub open spec fn spec_chunk(&self, c: ChunkCoordinate) -> Chunk {
        self.chunks@[self.spec_index_of(c)]
    }

    /// Well-formedness: at most one chunk per coordinate, every chunk
    /// well formed, and no duplicate coordinates in the remesh queue.
    pub open spec fn wf(&self) -> bool {
        &&& forall|i: int, j: int|
            0 <= i < j < self.chunks@.len() ==> (#[trigger] self.chunks@[i]).coordinate != (
            #[trigger] self.chunks@[j]).coordinate
        &&& forall|i: int| 0 <= i < self.chunks@.len() ==> (#[trigger] self.chunks@[i]).wf()
        &&& forall|i: int, j: int|
            0 <= i < j < self.chunks_to_remesh@.len() ==> self.chunks_to_remesh@[i]
                != self.chunks_to_remesh@[j]
    }

    /// An empty store with an empty remesh queue.
    pub fn new() -> (r: Self)
        ensures
            r.wf(),
            r.chunks@.len() == 0,
            r.chunks_to_remesh@.len() == 0,
    {
        ChunkHandler { chunks: Vec::new(), chunks_to_remesh: Vec::new() }
    }

    /// Number of chunks currently in the store.
    pub fn chunk_count(&self) -> (r: usize)
        ensures
            r == self.chunks@.len(),
    {
        self.chunks.len()
    }

    /// Whether the chunk at this coordinate has been generated.
    pub fn contains_chunk(&self, chunk_coordinate: ChunkCoordinate) -> (r: bool)
        ensures
            r == self.has_chunk(chunk_coordinate),
    {
        let mut i: usize = 0;
        while i < self.chunks.len()
            invariant
                i <= self.chunks@.len(),
                forall|j: int| 0 <= j < i ==> (#[trigger] self.chunks@[j]).coordinate
                    != chunk_coordinate,
            decreases self.chunks@.len() - i,
        {
            if self.chunks[i].coordinate == chunk_coordinate {
                return true;
            }
            i = i + 1;
        }
        false
    }

    /// Looks up the chunk at this coordinate; the caller must know it
    /// is in the store.
    pub fn get_chunk(&self, chunk_coordinate: ChunkCoordinate) -> (r: &Chunk)
        requires
            self.wf(),
            self.has_chunk(chunk_coordinate),
        ensures
            *r == self.spec_chunk(chunk_coordinate),
            r.coordinate == chunk_coordinate,
            r.wf(),
    {
        let mut i: usize = 0;
        while i < self.chunks.len()
            invariant
                self.wf(),
                self.has_chunk(chunk_coordinate),
                i <= self.chunks@.len(),
                forall|j: int| 0 <= j < i ==> (#[trigger] self.chunks@[j]).coordinate
                    != chunk_coordinate,
            decreases self.chunks@.len() - i,
        {
            if self.chunks[i].coordinate == chunk_coordinate {
                proof {
                    let w = self.spec_index_of(chunk_coordinate);
                    assert(0 <= w < self.chunks@.len() && self.chunks@[w].coordinate
                        == chunk_coordinate);
                    assert(w == i as int);
                }
                return &self.chunks[i];
            }
            i = i + 1;
        }
        proof {
            assert(false);
        }
        unreached()
    }

    /// Enqueues a coordinate for remeshing; a coordinate already queued
    /// is not queued again, since one rebuild suffices.
    pub fn chunks_to_remesh(&mut self, chunk_coord: ChunkCoordinate)
        requires
            old(self).wf(),
        ensures
            final(self).wf(),
            final(self).chunks@ == old(self).chunks@,
            old(self).chunks_to_remesh@.contains(chunk_coord) ==> final(self).chunks_to_remesh@
                == old(self).chunks_to_remesh@,
            !old(self).chunks_to_remesh@.contains(chunk_coord) ==> final(self).chunks_to_remesh@
                == old(self).chunks_to_remesh@.push(chunk_coord),
            final(self).chunks_to_remesh@.contains(chunk_coord),
    {
        let mut i: usize = 0;
        while i < self.chunks_to_remesh.len()
            invariant
                *self == *old(self),
                self.wf(),
                i <= self.chunks_to_remesh@.len(),
                forall|j: int| 0 <= j < i ==> self.chunks_to_remesh@[j] != chunk_coord,
            decreases self.chunks_to_remesh@.len() - i,
        {
            if self.chunks_to_remesh[i] == chunk_coord {
                proof {
                    assert(self.chunks_to_remesh@.contains(chunk_coord));
                }
                return;
            }
            i = i + 1;
        }
        proof {
            assert(!self.chunks_to_remesh@.contains(chunk_coord));
        }
        self.chunks_to_remesh.push(chunk_coord);
        proof {
            assert(self.chunks_to_remesh@.last() == chunk_coord);
            assert(self.chunks_to_remesh@.contains(chunk_coord));
        }
    }
}

/// The coordinates a queue drain keeps of the first `n` queued entries:
/// those whose chunk is still in the store, in queue order.
pub open spec fn spec_drained(h: ChunkHandler, n: int) -> Seq<ChunkCoordinate>
    decreases n,
{
    if n <= 0 {
        Seq::empty()
    } else {
        let prev = spec_drained(h, n - 1);
        if h.has_chunk(h.chunks_to_remesh@[n - 1]) {
            prev.push(h.chunks_to_remesh@[n - 1])
        } else {
            prev
        }
    }
}

impl ChunkHandler {
    /// Empties the remesh queue and returns the coordinates whose chunk
    /// is still in the store, each at most once: the chunks the caller
    /// must now rebuild.
    pub fn drain_remesh(&mut self) -> (r: Vec<ChunkCoordinate>)
        requires
            old(self).wf(),
        ensures
            final(self).wf(),
            final(self).chunks@ == old(self).chunks@,
            final(self).chunks_to_remesh@.len() == 0,
            r@ == spec_drained(*old(self), old(self).chunks_to_remesh@.len() as int),
            forall|i: int, j: int| 0 <= i < j < r@.len() ==> r@[i] != r@[j],
            forall|i: int| 0 <= i < r@.len() ==> old(self).has_chunk(#[trigger] r@[i]),
    {
        let ghost h0 = *self;
        let mut r: Vec<ChunkCoordinate> = Vec::new();
        let mut k: usize = 0;
        while k < self.chunks_to_remesh.len()
            invariant
                *self == h0,
                self.wf(),
                k <= self.chunks_to_remesh@.len(),
                r@ == spec_drained(h0, k as int),
                forall|i: int, j: int| 0 <= i < j < r@.len() ==> r@[i] != r@[j],
                forall|i: int|
                    0 <= i < r@.len() ==> exists|m: int|
                        0 <= m < k && h0.chunks_to_remesh@[m] == #[trigger] r@[i],
                forall|i: int| 0 <= i < r@.len() ==> h0.has_chunk(#[trigger] r@[i]),
            decreases self.chunks_to_remesh@.len() - k,
        {
            let c = self.chunks_to_remesh[k];
            if self.contains_chunk(c) {
                proof {
                    assert forall|i: int| 0 <= i < r@.len() implies r@[i] != c by {
                        let m = choose|m: int|
                            0 <= m < k && h0.chunks_to_remesh@[m] == r@[i];
                        assert(h0.chunks_to_remesh@[m] != h0.chunks_to_remesh@[k as int]);
                    }
                }
                r.push(c);
                proof {
                    assert(h0.chunks_to_remesh@[k as int] == r@[r@.len() - 1]);
                }
            }
            k = k + 1;
        }
        self.chunks_to_remesh.clear();
        r
    }
}

/// The chunk coordinate whose chunk contains the world position
/// `(wx, wy)`: floor division by the chunk side.
pub open spec fn spec_world_to_chunk(wx: int, wy: int) -> ChunkCoordinate {
    ChunkCoordinate { x: (wx / 1048576) as i32, y: (wy / 1048576) as i32 }
}

fn floor_div_side(v: i64) -> (q: i32)
    requires
        -0x8_0000_0000_0000 <= v < 0x8_0000_0000_0000,
    ensures
        q as int == v as int / (CHUNK_SIDE_SIZE as int),
{
    if v >= 0 {
        ((v as u64) / 1048576) as i32
    } else {
        let n = -(v + 1);
        let q0 = (n as u64) / 1048576;
        proof {
            vstd::arithmetic::div_mod::lemma_fundamental_div_mod(n as int, 1048576);
            lemma_fundamental_div_mod_converse(
                v as int,
                1048576,
                -(q0 as int) - 1,
                1048576 - (n as int % 1048576) - 1,
            );
        }
        -(q0 as i32) - 1
    }
}

/// Maps a fixed-point world position to the coordinate of the chunk
/// containing it (floor semantics on both axes).
pub fn world_to_chunk(wx: i64, wy: i64) -> (r: ChunkCoordinate)
    requires
        -0x8_0000_0000_0000 <= wx < 0x8_0000_0000_0000,
        -0x8_0000_0000_0000 <= wy < 0x8_0000_0000_0000,
    ensures
        r == spec_world_to_chunk(wx as int, wy as int),
{
    ChunkCoordinate { x: floor_div_side(wx), y: floor_div_side(wy) }
}

impl ChunkHandler {
    /// Looks up the chunk containing a world position, together with
    /// the position's cell indices within that chunk.
    pub fn get_chunk_xy(&self, coordinate_x: i64, coordinate_y: i64) -> (r: (&Chunk, usize, usize))
        requires
            self.wf(),
            -0x8_0000_0000_0000 <= coordinate_x < 0x8_0000_0000_0000,
            -0x8_0000_0000_0000 <= coordinate_y < 0x8_0000_0000_0000,
            self.has_chunk(spec_world_to_chunk(coordinate_x as int, coordinate_y as int)),
        ensures
            *(r.0) == self.spec_chunk(spec_world_to_chunk(coordinate_x as int, coordinate_y as int)),
            r.0.coordinate == spec_world_to_chunk(coordinate_x as int, coordinate_y as int),
            r.1 as int == (coordinate_x as int) % (CHUNK_SIDE_SIZE as int) / (crate::FRAC_ONE
                as int),
            r.2 as int == (coordinate_y as int) % (CHUNK_SIDE_SIZE as int) / (crate::FRAC_ONE
                as int),
            r.1 < CHUNK_SIZE,
            r.2 < CHUNK_SIZE,
    {
        let chunk_coord = world_to_chunk(coordinate_x, coordinate_y);
        let chunk = self.get_chunk(chunk_coord);

        proof {
            vstd::arithmetic::div_mod::lemma_fundamental_div_mod(coordinate_x as int, 1048576);
            vstd::arithmetic::div_mod::lemma_fundamental_div_mod(coordinate_y as int, 1048576);
        }
        let dx = coordinate_x - (chunk_coord.x as i64) * 1048576;
        let dy = coordinate_y - (chunk_coord.y as i64) * 1048576;
        let x = ((dx as u64) / 65536) as usize;
        let y = ((dy as u64) / 65536) as usize;

        (chunk, x, y)
    }

    /// Replaces one cell's tile in the chunk at `chunk_coordinate`;
    /// the chunk must be in the store.
    pub fn update_chunk(
        &mut self,
        chunk_coordinate: ChunkCoordinate,
        x: usize,
        y: usize,
        new_block: usize,
    )
        requires
            old(self).wf(),
            old(self).has_chunk(chunk_coordinate),
            x < CHUNK_SIZE,
            y < CHUNK_SIZE,
            new_block < crate::terrain::ATLAS_TILE_COUNT,
        ensures
            final(self).wf(),
            final(self).chunks_to_remesh@ == old(self).chunks_to_remesh@,
            final(self).chunks@.len() == old(self).chunks@.len(),
            forall|j: int|
                0 <= j < old(self).chunks@.len() && j != old(self).spec_index_of(chunk_coordinate)
                    ==> final(self).chunks@[j] == old(self).chunks@[j],
            final(self).chunks@[old(self).spec_index_of(chunk_coordinate)].tiles@ == old(
                self,
            ).chunks@[old(self).spec_index_of(chunk_coordinate)].tiles@.update(
                x * 16 + y,
                crate::tile::Tile { tile: new_block, biome: crate::biome::BiomeType::PLAINS },
            ),
            final(self).chunks@[old(self).spec_index_of(chunk_coordinate)].foliage_type@ == old(
                self,
            ).chunks@[old(self).spec_index_of(chunk_coordinate)].foliage_type@,
            final(self).chunks@[old(self).spec_index_of(chunk_coordinate)].coordinate
                == chunk_coordinate,
    {
        let mut i: usize = 0;
        while i < self.chunks.len()
            invariant
                *self == *old(self),
                self.wf(),
                self.has_chunk(chunk_coordinate),
                x < CHUNK_SIZE,
                y < CHUNK_SIZE,
                new_block < crate::terrain::ATLAS_TILE_COUNT,
                i <= self.chunks@.len(),
                forall|j: int| 0 <= j < i ==> (#[trigger] self.chunks@[j]).coordinate
                    != chunk_coordinate,
            decreases self.chunks@.len() - i,
        {
            if self.chunks[i].coordinate == chunk_coordinate {
                proof {
                    let w = self.spec_index_of(chunk_coordinate);
                    assert(0 <= w < self.chunks@.len() && self.chunks@[w].coordinate
                        == chunk_coordinate);
                    assert(w == i as int);
                }
                self.chunks[i].set_block(x, y, new_block);
                return;
            }
            i = i + 1;
        }
        proof {
            assert(false);
        }
    }

    /// Clears and rebuilds the mesh of the chunk at `chunk_coordinate`
    /// from its current tile grid; the chunk must be in the store. The
    /// store's contents (tiles, foliage, coordinates) are unchanged.
    pub fn remesh_chunk(&mut self, chunk_coordinate: ChunkCoordinate) -> (m: Mesh)
        requires
            old(self).wf(),
            old(self).has_chunk(chunk_coordinate),
        ensures
            final(self).wf(),
            final(self).chunks_to_remesh@ == old(self).chunks_to_remesh@,
            final(self).chunks@.len() == old(self).chunks@.len(),
            forall|j: int|
                0 <= j < old(self).chunks@.len() ==> (#[trigger] final(self).chunks@[j]).coordinate
                    == old(self).chunks@[j].coordinate && final(self).chunks@[j].tiles@ == old(
                    self,
                ).chunks@[j].tiles@ && final(self).chunks@[j].foliage_type@ == old(
                    self,
                ).chunks@[j].foliage_type@,
            m.vertices@ == crate::chunk::spec_grid_vertices(256),
            m.triangles@ == crate::chunk::spec_grid_triangles(256),
            m.normals@ == crate::chunk::spec_grid_normals(256),
            m.uvs@ == crate::chunk::spec_grid_uvs(
                old(self).spec_chunk(chunk_coordinate).tiles@,
                256,
            ),
            m.vertices@.len() == 1024,
            m.triangles@.len() == 1536,
    {
        let mut i: usize = 0;
        while i < self.chunks.len()
            invariant
                *self == *old(self),
                self.wf(),
                self.has_chunk(chunk_coordinate),
                i <= self.chunks@.len(),
                forall|j: int| 0 <= j < i ==> (#[trigger] self.chunks@[j]).coordinate
                    != chunk_coordinate,
            decreases self.chunks@.len() - i,
        {
            if self.chunks[i].coordinate == chunk_coordinate {
                proof {
                    let w = self.spec_index_of(chunk_coordinate);
                    assert(0 <= w < self.chunks@.len() && self.chunks@[w].coordinate
                        == chunk_coordinate);
                    assert(w == i as int);
                }
                let m = self.chunks[i].generate_mesh();
                return m;
            }
            i = i + 1;
        }
        proof {
            assert(false);
        }
        unreached()
    }
}

/// Squared world distance (fixed-point units) from the observer to the
/// chunk's world-space anchor.
pub open spec fn spec_dist2(ox: int, oy: int, c: ChunkCoordinate) -> int {
    (ox - c.x as int * 1048576) * (ox - c.x as int * 1048576) + (oy - c.y as int * 1048576) * (oy
        - c.y as int * 1048576)
}

/// Whether an eviction pass keeps the chunk at `c`: the comparison is
/// strict, so a chunk exactly at distance
/// `VISIBLE_CHUNKS * CHUNK_SIDE_SIZE` is retained and only chunks
/// strictly beyond it are evicted.
pub open spec fn spec_retained(ox: int, oy: int, c: ChunkCoordinate) -> bool {
    spec_dist2(ox, oy, c) <= (VISIBLE_CHUNKS as int * CHUNK_SIDE_SIZE as int) * (VISIBLE_CHUNKS
        as int * CHUNK_SIDE_SIZE as int)
}

/// The chunks an eviction pass keeps of the first `n` stored chunks,
/// in store order.
pub open spec fn spec_retained_chunks(chunks: Seq<Chunk>, ox: int, oy: int, n: int) -> Seq<Chunk>
    decreases n,
{
    if n <= 0 {
        Seq::empty()
    } else {
        let prev = spec_retained_chunks(chunks, ox, oy, n - 1);
        if spec_retained(ox, oy, chunks[n - 1].coordinate) {
            prev.push(chunks[n - 1])
        } else {
            prev
        }
    }
}

/// The coordinates an eviction pass removes from the first `n` stored
/// chunks, in store order: what the presenter must retire.
pub open spec fn spec_evicted_coords(
    chunks: Seq<Chunk>,
    ox: int,
    oy: int,
    n: int,
) -> Seq<ChunkCoordinate>
    decreases n,
{
    if n <= 0 {
        Seq::empty()
    } else {
        let prev = spec_evicted_coords(chunks, ox, oy, n - 1);
        if spec_retained(ox, oy, chunks[n - 1].coordinate) {
            prev
        } else {
            prev.push(chunks[n - 1].coordinate)
        }
    }
}

/// Whether some chunk in the sequence has the given coordinate.
pub open spec fn seq_has_coord(s: Seq<Chunk>, c: ChunkCoordinate) -> bool {
    exists|i: int| 0 <= i < s.len() && s[i].coordinate == c
}

proof fn lemma_retained_membership(chunks: Seq<Chunk>, ox: int, oy: int, n: int, c: ChunkCoordinate)
    requires
        0 <= n <= chunks.len(),
    ensures
        seq_has_coord(spec_retained_chunks(chunks, ox, oy, n), c) <==> (exists|j: int|
            0 <= j < n && chunks[j].coordinate == c) && spec_retained(ox, oy, c),
    decreases n,
{
    if n > 0 {
        lemma_retained_membership(chunks, ox, oy, n - 1, c);
        let prev = spec_retained_chunks(chunks, ox, oy, n - 1);
        let cur = spec_retained_chunks(chunks, ox, oy, n);
        if spec_retained(ox, oy, chunks[n - 1].coordinate) {
            assert forall|i: int| 0 <= i < cur.len() implies (cur[i] == chunks[n - 1] || prev[i]
                == cur[i]) by {}
            if seq_has_coord(cur, c) {
                let i = choose|i: int| 0 <= i < cur.len() && cur[i].coordinate == c;
                if i < prev.len() {
                    assert(seq_has_coord(prev, c));
                } else {
                    assert(cur[i] == chunks[n - 1]);
                }
            }
            if (exists|j: int| 0 <= j < n && chunks[j].coordinate == c) && spec_retained(
                ox,
                oy,
                c,
            ) {
                let j = choose|j: int| 0 <= j < n && chunks[j].coordinate == c;
                if j < n - 1 {
                    assert(seq_has_coord(prev, c));
                    let i = choose|i: int| 0 <= i < prev.len() && prev[i].coordinate == c;
                    assert(cur[i].coordinate == c);
                } else {
                    assert(cur[cur.len() - 1].coordinate == c);
                }
            }
        } else {
            if seq_has_coord(cur, c) {
                assert(seq_has_coord(prev, c));
            }
            if (exists|j: int| 0 <= j < n && chunks[j].coordinate == c) && spec_retained(
                ox,
                oy,
                c,
            ) {
                let j = choose|j: int| 0 <= j < n && chunks[j].coordinate == c;
                assert(j != n - 1);
                assert(seq_has_coord(prev, c));
                let i = choose|i: int| 0 <= i < prev.len() && prev[i].coordinate == c;
                assert(cur[i].coordinate == c);
            }
        }
    }
}

impl ChunkHandler {
    /// Runs an eviction pass when the observer has moved more than half
    /// a chunk side since the last one: removes every chunk whose
    /// anchor lies strictly beyond `VISIBLE_CHUNKS` chunk sides from
    /// the observer, and returns whether the pass ran together with the
    /// removed coordinates, which the presenter must retire. A chunk
    /// exactly at the boundary distance is retained.
    pub fn remove_chunks(&mut self, observer_x: i64, observer_y: i64, distance_moved: i64) -> (r: (
        bool,
        Vec<ChunkCoordinate>,
    ))
        requires
            old(self).wf(),
            -0x10_0000_0000_0000 <= observer_x <= 0x10_0000_0000_0000,
            -0x10_0000_0000_0000 <= observer_y <= 0x10_0000_0000_0000,
        ensures
            final(self).wf(),
            final(self).chunks_to_remesh@ == old(self).chunks_to_remesh@,
            r.0 == (distance_moved > CHUNK_SIDE_SIZE / 2),
            !r.0 ==> final(self).chunks@ == old(self).chunks@ && r.1@.len() == 0,
            r.0 ==> final(self).chunks@ == spec_retained_chunks(
                old(self).chunks@,
                observer_x as int,
                observer_y as int,
                old(self).chunks@.len() as int,
            ),
            r.0 ==> r.1@ == spec_evicted_coords(
                old(self).chunks@,
                observer_x as int,
                observer_y as int,
                old(self).chunks@.len() as int,
            ),
            r.0 ==> forall|c: ChunkCoordinate|
                #[trigger] final(self).has_chunk(c) <==> old(self).has_chunk(c) && spec_retained(
                    observer_x as int,
                    observer_y as int,
                    c,
                ),
    {
        if distance_moved <= CHUNK_SIDE_SIZE / 2 {
            return (false, Vec::new());
        }

        let ghost chunks0 = self.chunks@;
        let ghost ox = observer_x as int;
        let ghost oy = observer_y as int;

        let mut pending: Vec<Chunk> = Vec::new();
        core::mem::swap(&mut self.chunks, &mut pending);

        let total = pending.len();
        let mut evicted: Vec<ChunkCoordinate> = Vec::new();
        let mut k: usize = 0;
        while k < total
            invariant
                total == chunks0.len(),
                k <= total,
                -0x10_0000_0000_0000 <= observer_x <= 0x10_0000_0000_0000,
                -0x10_0000_0000_0000 <= observer_y <= 0x10_0000_0000_0000,
                ox == observer_x as int,
                oy == observer_y as int,
                pending@ == chunks0.subrange(k as int, total as int),
                self.chunks@ == spec_retained_chunks(chunks0, ox, oy, k as int),
                evicted@ == spec_evicted_coords(chunks0, ox, oy, k as int),
                self.chunks_to_remesh@ == old(self).chunks_to_remesh@,
                forall|i: int, j: int|
                    0 <= i < j < chunks0.len() ==> (#[trigger] chunks0[i]).coordinate != (
                    #[trigger] chunks0[j]).coordinate,
                forall|i: int| 0 <= i < chunks0.len() ==> (#[trigger] chunks0[i]).wf(),
                forall|i: int, j: int|
                    0 <= i < j < self.chunks@.len() ==> (#[trigger] self.chunks@[i]).coordinate != (
                    #[trigger] self.chunks@[j]).coordinate,
                forall|i: int| 0 <= i < self.chunks@.len() ==> (#[trigger] self.chunks@[i]).wf(),
                forall|i: int, j: int|
                    0 <= i < j < self.chunks_to_remesh@.len() ==> self.chunks_to_remesh@[i]
                        != self.chunks_to_remesh@[j],
            decreases total - k,
        {
            let c = pending.remove(0);
            proof {
                assert(c == chunks0[k as int]);
                assert(pending@ =~= chunks0.subrange(k + 1, total as int));
                lemma_retained_membership(chunks0, ox, oy, k as int, c.coordinate);
            }
            if chunk_retained(observer_x, observer_y, c.coordinate) {
                proof {
                    assert forall|i: int| 0 <= i < self.chunks@.len() implies (
                    #[trigger] self.chunks@[i]).coordinate != c.coordinate by {
                        assert(seq_has_coord(self.chunks@, self.chunks@[i].coordinate));
                    }
                }
                self.chunks.push(c);
            } else {
                evicted.push(c.coordinate);
            }
            k = k + 1;
        }

        proof {
            assert forall|c: ChunkCoordinate| #[trigger] self.has_chunk(c) <==> (
            seq_has_coord(chunks0, c) && spec_retained(ox, oy, c)) by {
                lemma_retained_membership(chunks0, ox, oy, chunks0.len() as int, c);
            }
        }
        (true, evicted)
    }
}

/// Whether `c` lies in the square window of chunks that must exist
/// around the observer's chunk coordinate.
pub open spec fn spec_in_window(obs: ChunkCoordinate, c: ChunkCoordinate) -> bool {
    &&& obs.x as int - (VISIBLE_CHUNKS as int - 1) <= c.x as int <= obs.x as int + (VISIBLE_CHUNKS
        as int - 1)
    &&& obs.y as int - (VISIBLE_CHUNKS as int - 1) <= c.y as int <= obs.y as int + (VISIBLE_CHUNKS
        as int - 1)
}

/// The coordinate of the window cell at offsets `(a, b)` from the
/// window's lower-left corner.
spec fn spec_window_coord(obs: ChunkCoordinate, a: int, b: int) -> ChunkCoordinate {
    ChunkCoordinate {
        x: (obs.x as int - (VISIBLE_CHUNKS as int - 1) + a) as i32,
        y: (obs.y as int - (VISIBLE_CHUNKS as int - 1) + b) as i32,
    }
}

impl ChunkHandler {
    /// Generates and stores the chunk at `cc` unless it already exists;
    /// reports whether a chunk was added.
    fn ensure_chunk(
        &mut self,
        cc: ChunkCoordinate,
        seed: u32,
        biome_handle: &BiomeHandle,
    ) -> (added: bool)
        requires
            old(self).wf(),
            biome_handle.ready(),
        ensures
            final(self).wf(),
            final(self).chunks_to_remesh@ == old(self).chunks_to_remesh@,
            final(self).has_chunk(cc),
            forall|c: ChunkCoordinate|
                #[trigger] final(self).has_chunk(c) <==> old(self).has_chunk(c) || c == cc,
            added == !old(self).has_chunk(cc),
            !added ==> final(self).chunks@ == old(self).chunks@,
            added ==> final(self).chunks@.len() == old(self).chunks@.len() + 1,
            added ==> final(self).chunks@.subrange(0, old(self).chunks@.len() as int) == old(
                self,
            ).chunks@,
            added ==> final(self).chunks@.last().is_generated(*biome_handle, cc, seed),
            added ==> final(self).chunks@.last().coordinate == cc,
    {
        if self.contains_chunk(cc) {
            return false;
        }
        let ch = Chunk::new(cc, seed, biome_handle);
        let ghost pre = self.chunks@;
        self.chunks.push(ch);
        proof {
            assert(self.chunks@ == pre.push(ch));
            assert(self.chunks@.subrange(0, pre.len() as int) =~= pre);
            assert(self.chunks@.last() == ch);
            assert(self.chunks@[pre.len() as int].coordinate == cc);
            assert(self.has_chunk(cc));
            assert forall|i: int| 0 <= i < pre.len() implies (#[trigger] pre[i]).coordinate != cc by {
                if pre[i].coordinate == cc {
                    assert(old(self).has_chunk(cc));
                }
            }
            assert forall|c: ChunkCoordinate| #[trigger] self.has_chunk(c) implies (old(
                self,
            ).has_chunk(c) || c == cc) by {
                let i = choose|i: int|
                    0 <= i < self.chunks@.len() && self.chunks@[i].coordinate == c;
                if i < pre.len() {
                    assert(pre[i].coordinate == c);
                }
            }
            assert forall|c: ChunkCoordinate| old(self).has_chunk(c) implies #[trigger] self
                .has_chunk(c) by {
                let i = choose|i: int| 0 <= i < pre.len() && pre[i].coordinate == c;
                assert(self.chunks@[i].coordinate == c);
            }
        }
        true
    }

    /// One generation pass: makes every chunk in the window around the
    /// observer's chunk coordinate exist, generating the missing ones,
    /// and returns the coordinates of the newly generated chunks in the
    /// order they were added (and now stand at the end of the store).
    pub fn update_chunks(
        &mut self,
        observer: ChunkCoordinate,
        seed: u32,
        biome_handle: &BiomeHandle,
    ) -> (r: Vec<ChunkCoordinate>)
        requires
            old(self).wf(),
            biome_handle.ready(),
            i32::MIN + 4 <= observer.x <= i32::MAX - 4,
            i32::MIN + 4 <= observer.y <= i32::MAX - 4,
        ensures
            final(self).wf(),
            final(self).chunks_to_remesh@ == old(self).chunks_to_remesh@,
            final(self).chunks@.len() >= old(self).chunks@.len(),
            final(self).chunks@.subrange(0, old(self).chunks@.len() as int) == old(self).chunks@,
            forall|c: ChunkCoordinate|
                #[trigger] final(self).has_chunk(c) <==> old(self).has_chunk(c) || spec_in_window(
                    observer,
                    c,
                ),
            forall|i: int|
                old(self).chunks@.len() <= i < final(self).chunks@.len()
                    ==> (#[trigger] final(self).chunks@[i]).is_generated(
                    *biome_handle,
                    final(self).chunks@[i].coordinate,
                    seed,
                ),
            forall|i: int|
                old(self).chunks@.len() <= i < final(self).chunks@.len() ==> spec_in_window(
                    observer,
                    (#[trigger] final(self).chunks@[i]).coordinate,
                ) && !old(self).has_chunk(final(self).chunks@[i].coordinate),
            r@.len() == final(self).chunks@.len() - old(self).chunks@.len(),
            forall|m: int|
                0 <= m < r@.len() ==> #[trigger] r@[m] == final(self).chunks@[old(self).chunks@.len()
                    + m].coordinate,
    {
        let ghost n0 = old(self).chunks@.len() as int;
        let mut r: Vec<ChunkCoordinate> = Vec::new();
        let span = 2 * VISIBLE_CHUNKS - 1;
        let mut dxi: i32 = 0;
        while dxi < span
            invariant
                span == 2 * VISIBLE_CHUNKS as int - 1,
                0 <= dxi <= span,
                biome_handle.ready(),
                i32::MIN + 4 <= observer.x <= i32::MAX - 4,
                i32::MIN + 4 <= observer.y <= i32::MAX - 4,
                self.wf(),
                self.chunks_to_remesh@ == old(self).chunks_to_remesh@,
                self.chunks@.len() >= n0,
                n0 == old(self).chunks@.len(),
                self.chunks@.subrange(0, n0) == old(self).chunks@,
                forall|a: int, b: int|
                    0 <= a < dxi && 0 <= b < span ==> #[trigger] self.has_chunk(
                        spec_window_coord(observer, a, b),
                    ),
                forall|c: ChunkCoordinate| #[trigger] old(self).has_chunk(c) ==> self.has_chunk(c),
                forall|i: int|
                    n0 <= i < self.chunks@.len() ==> (#[trigger] self.chunks@[i]).is_generated(
                        *biome_handle,
                        self.chunks@[i].coordinate,
                        seed,
                    ),
                forall|i: int|
                    n0 <= i < self.chunks@.len() ==> spec_in_window(
                        observer,
                        (#[trigger] self.chunks@[i]).coordinate,
                    ) && !old(self).has_chunk(self.chunks@[i].coordinate),
                r@.len() == self.chunks@.len() - n0,
                forall|m: int|
                    0 <= m < r@.len() ==> #[trigger] r@[m] == self.chunks@[n0 + m].coordinate,
            decreases span - dxi,
        {
            let mut dyi: i32 = 0;
            while dyi < span
                invariant
                    span == 2 * VISIBLE_CHUNKS as int - 1,
                    0 <= dxi < span,
                    0 <= dyi <= span,
                    biome_handle.ready(),
                    i32::MIN + 4 <= observer.x <= i32::MAX - 4,
                    i32::MIN + 4 <= observer.y <= i32::MAX - 4,
                    self.wf(),
                    self.chunks_to_remesh@ == old(self).chunks_to_remesh@,
                    self.chunks@.len() >= n0,
                    n0 == old(self).chunks@.len(),
                    self.chunks@.subrange(0, n0) == old(self).chunks@,
                    forall|a: int, b: int|
                        (0 <= a < dxi && 0 <= b < span) || (a == dxi && 0 <= b < dyi)
                            ==> #[trigger] self.has_chunk(spec_window_coord(observer, a, b)),
                    forall|c: ChunkCoordinate|
                        #[trigger] old(self).has_chunk(c) ==> self.has_chunk(c),
                    forall|i: int|
                        n0 <= i < self.chunks@.len() ==> (#[trigger] self.chunks@[i]).is_generated(
                            *biome_handle,
                            self.chunks@[i].coordinate,
                            seed,
                        ),
                    forall|i: int|
                        n0 <= i < self.chunks@.len() ==> spec_in_window(
                            observer,
                            (#[trigger] self.chunks@[i]).coordinate,
                        ) && !old(self).has_chunk(self.chunks@[i].coordinate),
                    r@.len() == self.chunks@.len() - n0,
                    forall|m: int|
                        0 <= m < r@.len() ==> #[trigger] r@[m] == self.chunks@[n0 + m].coordinate,
                decreases span - dyi,
            {
                let cc = ChunkCoordinate {
                    x: observer.x - (VISIBLE_CHUNKS - 1) + dxi,
                    y: observer.y - (VISIBLE_CHUNKS - 1) + dyi,
                };
                proof {
                    assert(cc == spec_window_coord(observer, dxi as int, dyi as int));
                    assert(spec_in_window(observer, cc));
                }
                let ghost mid = *self;
                let added = self.ensure_chunk(cc, seed, biome_handle);
                if added {
                    r.push(cc);
                }
                proof {
                    if added {
                        assert(self.chunks@.len() == mid.chunks@.len() + 1);
                        assert(self.chunks@.subrange(0, n0) =~= mid.chunks@.subrange(0, n0));
                        assert forall|i: int| n0 <= i < self.chunks@.len() - 1 implies self.chunks@[i]
                            == mid.chunks@[i] by {
                            assert(self.chunks@.subrange(0, mid.chunks@.len() as int)
                                == mid.chunks@);
                            assert(self.chunks@.subrange(0, mid.chunks@.len() as int)[i]
                                == self.chunks@[i]);
                        }
                        if old(self).has_chunk(cc) {
                            assert(mid.has_chunk(cc));
                        }
                        assert(!old(self).has_chunk(cc));
                        assert(r@[r@.len() - 1] == cc);
                    }
                    let last = self.chunks@.len() - 1;
                    assert forall|i: int| n0 <= i < self.chunks@.len() implies (
                    #[trigger] self.chunks@[i]).is_generated(
                        *biome_handle,
                        self.chunks@[i].coordinate,
                        seed,
                    ) && spec_in_window(observer, self.chunks@[i].coordinate) && !old(
                        self,
                    ).has_chunk(self.chunks@[i].coordinate) by {
                        if added && i == last {
                            assert(self.chunks@[last] == self.chunks@.last());
                            assert(self.chunks@[last].coordinate == cc);
                            assert(self.chunks@[last].is_generated(*biome_handle, cc, seed));
                        } else {
                            assert(self.chunks@[i] == mid.chunks@[i]);
                            assert(mid.chunks@[i].is_generated(
                                *biome_handle,
                                mid.chunks@[i].coordinate,
                                seed,
                            ));
                        }
                    }
                    assert forall|a: int, b: int|
                        (0 <= a < dxi && 0 <= b < span) || (a == dxi && 0 <= b < dyi + 1)
                            implies #[trigger] self.has_chunk(spec_window_coord(observer, a, b)) by {
                        if a == dxi && b == dyi {
                            assert(self.has_chunk(cc));
                        } else {
                            assert(mid.has_chunk(spec_window_coord(observer, a, b)));
                        }
                    }
                }
                dyi = dyi + 1;
            }
            dxi = dxi + 1;
        }
        proof {
            assert forall|c: ChunkCoordinate| #[trigger] self.has_chunk(c) implies (old(
                self,
            ).has_chunk(c) || spec_in_window(observer, c)) by {
                let i = choose|i: int|
                    0 <= i < self.chunks@.len() && self.chunks@[i].coordinate == c;
                if i < n0 {
                    assert(self.chunks@.subrange(0, n0)[i] == self.chunks@[i]);
                    assert(old(self).chunks@[i].coordinate == c);
                } else {
                    assert(spec_in_window(observer, self.chunks@[i].coordinate));
                }
            }
            assert forall|c: ChunkCoordinate|
                spec_in_window(observer, c) implies #[trigger] self.has_chunk(c) by {
                let a = c.x as int - (observer.x as int - (VISIBLE_CHUNKS as int - 1));
                let b = c.y as int - (observer.y as int - (VISIBLE_CHUNKS as int - 1));
                assert(c == spec_window_coord(observer, a, b));
                assert(self.has_chunk(spec_window_coord(observer, a, b)));
            }
        }
        r
    }
}

/// Eviction boundary law: a chunk whose anchor lies exactly at world
/// distance `VISIBLE_CHUNKS * CHUNK_SIDE_SIZE` from the observer is
/// retained; only a chunk strictly beyond that distance is evicted.
pub proof fn lemma_eviction_boundary(ox: int, oy: int, c: ChunkCoordinate)
    ensures
        spec_dist2(ox, oy, c) == (VISIBLE_CHUNKS as int * CHUNK_SIDE_SIZE as int) * (VISIBLE_CHUNKS
            as int * CHUNK_SIDE_SIZE as int) ==> spec_retained(ox, oy, c),
        spec_dist2(ox, oy, c) > (VISIBLE_CHUNKS as int * CHUNK_SIDE_SIZE as int) * (VISIBLE_CHUNKS
            as int * CHUNK_SIDE_SIZE as int) ==> !spec_retained(ox, oy, c),
{
}

/// Idempotent remesh law: a drained batch names each coordinate at
/// most once, so enqueuing the same coordinate repeatedly before a
/// drain still leads to exactly one rebuild of that chunk.
pub proof fn lemma_drain_rebuilds_once(r: Seq<ChunkCoordinate>, c: ChunkCoordinate, i: int, j: int)
    requires
        forall|a: int, b: int| 0 <= a < b < r.len() ==> r[a] != r[b],
        0 <= i < r.len(),
        0 <= j < r.len(),
        r[i] == c,
        r[j] == c,
    ensures
        i == j,
{
}

/// Fresh streaming pass law: starting from an empty store, one
/// generation pass leaves the store holding exactly the chunks of the
/// window around the observer -- the `(2 * VISIBLE_CHUNKS - 1)` by
/// `(2 * VISIBLE_CHUNKS - 1)` square of coordinates.
pub proof fn lemma_fresh_pass_window(h0: ChunkHandler, h1: ChunkHandler, observer: ChunkCoordinate)
    requires
        h0.chunks@.len() == 0,
        forall|c: ChunkCoordinate|
            #[trigger] h1.has_chunk(c) <==> h0.has_chunk(c) || spec_in_window(observer, c),
    ensures
        forall|c: ChunkCoordinate| #[trigger] h1.has_chunk(c) <==> spec_in_window(observer, c),
{
}

fn chunk_retained(observer_x: i64, observer_y: i64, c: ChunkCoordinate) -> (r: bool)
    requires
        -0x10_0000_0000_0000 <= observer_x <= 0x10_0000_0000_0000,
        -0x10_0000_0000_0000 <= observer_y <= 0x10_0000_0000_0000,
    ensures
        r == spec_retained(observer_x as int, observer_y as int, c),
{
    let ax = (c.x as i64) * 1048576;
    let ay = (c.y as i64) * 1048576;
    let dx = (observer_x - ax) as i128;
    let dy = (observer_y - ay) as i128;
    proof {
        assert(dx * dx <= 0x20_0000_0000_0000 * 0x20_0000_0000_0000) by (nonlinear_arith)
            requires -0x20_0000_0000_0000 <= dx <= 0x20_0000_0000_0000;
        assert(dy * dy <= 0x20_0000_0000_0000 * 0x20_0000_0000_0000) by (nonlinear_arith)
            requires -0x20_0000_0000_0000 <= dy <= 0x20_0000_0000_0000;
        assert(dx * dx >= 0) by (nonlinear_arith);
        assert(dy * dy >= 0) by (nonlinear_arith);
    }
    let d2 = dx * dx + dy * dy;
    proof {
        assert((VISIBLE_CHUNKS as int) * (CHUNK_SIDE_SIZE as int) == 3145728);
    }
    let radius = (VISIBLE_CHUNKS as i128) * (CHUNK_SIDE_SIZE as i128);
    d2 <= radius * radius
}

} // verus!
