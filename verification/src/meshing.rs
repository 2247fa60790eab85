//! Grid-to-mesh building: one unit quad per tile, two triangles per
//! quad, UVs looked up in a fixed-width texture atlas.
//!
//! Positions are in whole tile units; UV coordinates are fixed point
//! with `FRAC_ONE` standing for 1.0, so one atlas cell spans
//! `FRAC_ONE / TEXTURE_DIMENSION` = 8192 units. The vertical flip
//! convention is fixed: the quad's bottom-left corner takes the atlas
//! cell's bottom-right UV corner, exactly as the quad spec functions
//! state.
use vstd::prelude::*;

verus! {

/// The four corner positions of the unit quad at `(ox, oy)`, in order
/// bottom-left, top-left, bottom-right, top-right.
pub open spec fn quad_vertices(ox: i64, oy: i64) -> Seq<(i64, i64)> {
    seq![
        (ox, oy),
        (ox, (oy + 1) as i64),
        ((ox + 1) as i64, oy),
        ((ox + 1) as i64, (oy + 1) as i64),
    ]
}

/// The six triangle indices of face `fc`: the fixed pattern
/// `[1, 0, 2, 1, 2, 3]` offset by `4 * fc`.
pub open spec fn quad_triangles(fc: u32) -> Seq<u32> {
    seq![
        (4 * fc + 1) as u32,
        (4 * fc) as u32,
        (4 * fc + 2) as u32,
        (4 * fc + 1) as u32,
        (4 * fc + 2) as u32,
        (4 * fc + 3) as u32,
    ]
}

/// Four unit normals pointing out of the plane.
pub open spec fn quad_normals() -> Seq<(i32, i32, i32)> {
    seq![(0i32, 0i32, 1i32), (0i32, 0i32, 1i32), (0i32, 0i32, 1i32), (0i32, 0i32, 1i32)]
}

/// The four UV corners for `tile_type`, atlas cell
/// `(tile_type % TEXTURE_DIMENSION, tile_type / TEXTURE_DIMENSION)`,
/// in the same corner order as `quad_vertices`.
pub open spec fn quad_uvs(tile_type: usize) -> Seq<(u32, u32)> {
    let row = tile_type as int / 8;
    let col = tile_type as int % 8;
    seq![
        ((col * 8192 + 8192) as u32, (row * 8192 + 8192) as u32),
        ((col * 8192) as u32, (row * 8192) as u32),
        ((col * 8192) as u32, (row * 8192 + 8192) as u32),
        ((col * 8192 + 8192) as u32, (row * 8192) as u32),
    ]
}

/// Finished renderable geometry: parallel vertex, normal and UV buffers
/// plus a triangle index buffer.
pub struct Mesh {
    pub vertices: Vec<(i64, i64)>,
    pub normals: Vec<(i32, i32, i32)>,
    pub uvs: Vec<(u32, u32)>,
    pub triangles: Vec<u32>,
}

/// Stateful mesh accumulator: `add_tile` appends one quad, `build`
/// assembles the buffers, `clear` resets them for a remesh.
pub struct ChunkTileMapBuilder {
    pub vertices: Vec<(i64, i64)>,
    pub triangles: Vec<u32>,
    pub normals: Vec<(i32, i32, i32)>,
    pub uvs: Vec<(u32, u32)>,
    pub face_count: u32,
}

fn copy_vec<T: Copy>(v: &Vec<T>) -> (r: Vec<T>)
    ensures
        r@ == v@,
{
    let mut r: Vec<T> = Vec::new();
    let mut i: usize = 0;
    while i < v.len()
        invariant
            i <= v@.len(),
            r@ == v@.subrange(0, i as int),
        decreases v@.len() - i,
    {
        r.push(v[i]);
        proof {
            assert(r@ =~= v@.subrange(0, i + 1));
        }
        i = i + 1;
    }
    proof {
        assert(r@ =~= v@);
    }
    r
}

impl ChunkTileMapBuilder {
    /// The mesh invariant: 4 vertices, 4 normals, 4 UVs and 6 indices
    /// per face, and every index below the vertex count.
    pub open spec fn wf(&self) -> bool {
        &&& self.vertices@.len() == 4 * self.face_count
        &&& self.normals@.len() == 4 * self.face_count
        &&& self.uvs@.len() == 4 * self.face_count
        &&& self.triangles@.len() == 6 * self.face_count
        &&& forall|k: int|
            0 <= k < self.triangles@.len() ==> (#[trigger] self.triangles@[k]) < 4
                * self.face_count
    }

    /// Empty (freshly cleared) state.
    pub open spec fn spec_empty(&self) -> bool {
        &&& self.vertices@.len() == 0
        &&& self.normals@.len() == 0
        &&& self.uvs@.len() == 0
        &&& self.triangles@.len() == 0
        &&& self.face_count == 0
    }

    /// A fresh, empty builder.
    pub fn new() -> (r: Self)
        ensures
            r.wf(),
            r.spec_empty(),
    {
        ChunkTileMapBuilder {
            vertices: Vec::new(),
            triangles: Vec::new(),
            normals: Vec::new(),
            uvs: Vec::new(),
            face_count: 0,
        }
    }

    /// Resets all buffers to empty so the builder can be reused for a
    /// remesh without leaking stale geometry.
    pub fn clear(&mut self)
        ensures
            final(self).wf(),
            final(self).spec_empty(),
    {
        self.vertices.clear();
        self.triangles.clear();
        self.normals.clear();
        self.uvs.clear();
        self.face_count = 0;
    }

    /// Appends one unit quad at `tile_offset` with UVs for `tile_type`:
    /// 4 vertices, 4 normals, 4 UV corners and the 6-index triangle
    /// pattern of the new face.
    pub fn add_tile(&mut self, tile_offset_x: i64, tile_offset_y: i64, tile_type: usize)
        requires
            old(self).wf(),
            old(self).face_count < 0x1000_0000,
            tile_offset_x < i64::MAX,
            tile_offset_y < i64::MAX,
            tile_type < crate::terrain::ATLAS_TILE_COUNT,
        ensures
            final(self).wf(),
            final(self).face_count == old(self).face_count + 1,
            final(self).vertices@ == old(self).vertices@ + quad_vertices(
                tile_offset_x,
                tile_offset_y,
            ),
            final(self).triangles@ == old(self).triangles@ + quad_triangles(old(self).face_count),
            final(self).normals@ == old(self).normals@ + quad_normals(),
            final(self).uvs@ == old(self).uvs@ + quad_uvs(tile_type),
    {
        let bl = (tile_offset_x, tile_offset_y);
        let tl = (tile_offset_x, tile_offset_y + crate::chunk::TILE_SIZE);
        let br = (tile_offset_x + crate::chunk::TILE_SIZE, tile_offset_y);
        let tr = (
            tile_offset_x + crate::chunk::TILE_SIZE,
            tile_offset_y + crate::chunk::TILE_SIZE,
        );
        self.vertices.push(bl);
        self.vertices.push(tl);
        self.vertices.push(br);
        self.vertices.push(tr);

        let base = 4 * self.face_count;
        self.triangles.push(base + 1);
        self.triangles.push(base);
        self.triangles.push(base + 2);
        self.triangles.push(base + 1);
        self.triangles.push(base + 2);
        self.triangles.push(base + 3);

        self.normals.push((0, 0, 1));
        self.normals.push((0, 0, 1));
        self.normals.push((0, 0, 1));
        self.normals.push((0, 0, 1));

        let row = (tile_type / crate::terrain::TEXTURE_DIMENSION) as u32;
        let col = (tile_type % crate::terrain::TEXTURE_DIMENSION) as u32;
        let side_size: u32 = crate::FRAC_ONE / 8;
        self.uvs.push((col * side_size + side_size, row * side_size + side_size));
        self.uvs.push((col * side_size, row * side_size));
        self.uvs.push((col * side_size, row * side_size + side_size));
        self.uvs.push((col * side_size + side_size, row * side_size));

        self.face_count = self.face_count + 1;

        proof {
            assert(self.vertices@ =~= old(self).vertices@ + quad_vertices(
                tile_offset_x,
                tile_offset_y,
            ));
            assert(self.triangles@ =~= old(self).triangles@ + quad_triangles(
                old(self).face_count,
            ));
            assert(self.normals@ =~= old(self).normals@ + quad_normals());
            assert(self.uvs@ =~= old(self).uvs@ + quad_uvs(tile_type));
        }
    }

    /// Assembles the accumulated buffers into a mesh; the builder keeps
    /// its state (a following `clear` readies it for reuse).
    pub fn build(&self) -> (m: Mesh)
        ensures
            m.vertices@ == self.vertices@,
            m.normals@ == self.normals@,
            m.uvs@ == self.uvs@,
            m.triangles@ == self.triangles@,
    {
        Mesh {
            vertices: copy_vec(&self.vertices),
            normals: copy_vec(&self.normals),
            uvs: copy_vec(&self.uvs),
            triangles: copy_vec(&self.triangles),
        }
    }
}

/// The mesh invariants in one statement: after `n` quads have been
/// added to a well-formed builder, it holds 4n vertices, 4n normals,
/// 4n UVs and 6n indices, every index below the vertex count; and a
/// build of a cleared builder yields empty buffers.
pub proof fn lemma_mesh_invariants(b: ChunkTileMapBuilder)
    requires
        b.wf(),
    ensures
        b.vertices@.len() == 4 * b.face_count,
        b.normals@.len() == 4 * b.face_count,
        b.uvs@.len() == 4 * b.face_count,
        b.triangles@.len() == 6 * b.face_count,
        forall|k: int|
            0 <= k < b.triangles@.len() ==> (#[trigger] b.triangles@[k]) < b.vertices@.len(),
        b.spec_empty() ==> b.vertices@.len() == 0 && b.triangles@.len() == 0,
{
}

} // verus!
