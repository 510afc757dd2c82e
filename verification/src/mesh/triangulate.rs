//! Splitting quads into triangles.
use vstd::prelude::*;
use crate::mesh::BlenderMesh;
use crate::mesh::multi_indexed::{lemma_sum_take_le, lemma_sum_take_step, sum_counts};

verus! {

/// Every face has 3 or 4 vertices and the faces' corners lie inside `n` indices.
pub open spec fn faces_triangulable(faces: Seq<u8>, n: int) -> bool {
    &&& forall|f: int| 0 <= f < faces.len() ==> (#[trigger] faces[f] == 3 || faces[f] == 4)
    &&& sum_counts(faces) <= n
}

/// The triangles of the face with `count` corners starting at `start`: the face itself if it is a
/// triangle, `(0, 1, 2)` and `(0, 2, 3)` if it is a quad.
pub open spec fn face_triangles(indices: Seq<u16>, start: int, count: u8) -> Seq<u16> {
    let tri = seq![indices[start], indices[start + 1], indices[start + 2]];
    if count == 4 {
        tri + seq![indices[start], indices[start + 2], indices[start + 3]]
    } else {
        tri
    }
}

/// The indices of all of the faces' triangles, face by face.
pub open spec fn triangulated(faces: Seq<u8>, indices: Seq<u16>) -> Seq<u16>
    decreases faces.len(),
{
    if faces.len() == 0 {
        seq![]
    } else {
        triangulated(faces.drop_last(), indices) + face_triangles(
            indices,
            sum_counts(faces.drop_last()),
            faces.last(),
        )
    }
}

/// The number of triangles of the faces: one per triangle, two per quad.
pub open spec fn triangle_count(faces: Seq<u8>) -> int
    decreases faces.len(),
{
    if faces.len() == 0 {
        0
    } else {
        triangle_count(faces.drop_last()) + if faces.last() == 4 {
            2int
        } else {
            1int
        }
    }
}

/// Triangulating takes three indices per triangle.
pub proof fn lemma_triangulated_len(faces: Seq<u8>, indices: Seq<u16>)
    ensures
        triangulated(faces, indices).len() == 3 * triangle_count(faces),
    decreases faces.len(),
{
    if faces.len() > 0 {
        lemma_triangulated_len(faces.drop_last(), indices);
    }
}

/// Split every quad into two triangles: the indices of the triangles of each face, in order.
///
/// Faces must have 3 or 4 vertices (any other count is a caller error) and lie inside the indices.
pub fn triangulate_indices(faces: &Vec<u8>, indices: &Vec<u16>) -> (out: Vec<u16>)
    requires
        faces_triangulable(faces@, indices@.len() as int),
    ensures
        out@ == triangulated(faces@, indices@),
        out@.len() == 3 * triangle_count(faces@),
{
    let mut out: Vec<u16> = Vec::new();
    let mut face_pointer: usize = 0;
    let mut f: usize = 0;
    let n_indices = indices.len();
    assert(faces@.take(0) =~= Seq::<u8>::empty());
    while f < faces.len()
        invariant
            faces_triangulable(faces@, indices@.len() as int),
            n_indices == indices@.len(),
            f <= faces@.len(),
            face_pointer == sum_counts(faces@.take(f as int)),
            out@ == triangulated(faces@.take(f as int), indices@),
        decreases faces@.len() - f,
    {
        let count = faces[f];
        proof {
            lemma_sum_take_step(faces@, f as int);
            lemma_sum_take_le(faces@, f as int + 1);
            assert(faces@.take(f + 1).drop_last() =~= faces@.take(f as int));
            assert(count == 3 || count == 4);
        }
        let ghost before = out@;
        out.push(indices[face_pointer]);
        out.push(indices[face_pointer + 1]);
        out.push(indices[face_pointer + 2]);
        if count == 4 {
            out.push(indices[face_pointer]);
            out.push(indices[face_pointer + 2]);
            out.push(indices[face_pointer + 3]);
        }
        assert(out@ =~= before + face_triangles(indices@, face_pointer as int, count));
        face_pointer = face_pointer + count as usize;
        f = f + 1;
    }
    assert(faces@.take(faces@.len() as int) =~= faces@);
    proof {
        lemma_triangulated_len(faces@, indices@);
    }
    out
}

/// `n` faces of 3 vertices each.
pub open spec fn all_triangles(n: int) -> Seq<u8> {
    Seq::new(n as nat, |i: int| 3u8)
}

/// `k` triangles take 3 indices each, count as `k` triangles, and triangulating them keeps their
/// indices as they are.
pub proof fn lemma_all_triangles(k: nat, s: Seq<u16>)
    requires
        s.len() >= 3 * k,
    ensures
        sum_counts(all_triangles(k as int)) == 3 * k,
        triangle_count(all_triangles(k as int)) == k,
        triangulated(all_triangles(k as int), s) == s.take(3 * k as int),
    decreases k,
{
    if k > 0 {
        let f = all_triangles(k as int);
        assert(f.drop_last() =~= all_triangles(k - 1));
        lemma_all_triangles((k - 1) as nat, s);
        assert(f.last() == 3);
        assert(s.take(3 * k as int) =~= s.take(3 * (k - 1)) + seq![
            s[3 * k - 3],
            s[3 * k - 2],
            s[3 * k - 1],
        ]);
    } else {
        assert(s.take(0) =~= Seq::<u16>::empty());
    }
}

/// Triangulating a second time changes nothing: what triangulating leaves is all triangles,
/// which it can triangulate again and keeps as they are.
pub proof fn lemma_triangulate_idempotent(faces: Seq<u8>, indices: Seq<u16>)
    requires
        faces_triangulable(faces, indices.len() as int),
    ensures
        ({
            let t = triangulated(faces, indices);
            let f = all_triangles(triangle_count(faces));
            &&& faces_triangulable(f, t.len() as int)
            &&& triangulated(f, t) == t
            &&& all_triangles(triangle_count(f)) == f
        }),
{
    let t = triangulated(faces, indices);
    let k = triangle_count(faces);
    lemma_triangulated_len(faces, indices);
    lemma_triangle_count_nonneg(faces);
    lemma_all_triangles(k as nat, t);
    assert(t.take(3 * k) =~= t);
}

/// Triangle counts are not negative.
proof fn lemma_triangle_count_nonneg(faces: Seq<u8>)
    ensures
        triangle_count(faces) >= 0,
    decreases faces.len(),
{
    if faces.len() > 0 {
        lemma_triangle_count_nonneg(faces.drop_last());
    }
}

impl BlenderMesh {
    /// Convert every quad into two triangles, each with 3 vertices.
    ///
    /// When exporting a mesh from Blender, faces usually have 4 vertices (quad) but some might
    /// have 3 (triangle). Only the position indices and the face sizes change.
    pub fn triangulate(&mut self)
        requires
            faces_triangulable(
                old(self).multi_indexed_vertex_attributes.vertices_in_each_face@,
                old(self).multi_indexed_vertex_attributes.positions.indices@.len() as int,
            ),
        ensures
            ({
                let m0 = old(self).multi_indexed_vertex_attributes;
                let m1 = final(self).multi_indexed_vertex_attributes;
                &&& m1.positions.indices@ == triangulated(m0.vertices_in_each_face@, m0.positions.indices@)
                &&& m1.vertices_in_each_face@ == all_triangles(triangle_count(m0.vertices_in_each_face@))
                &&& m1.positions.attribute == m0.positions.attribute
                &&& m1.normals == m0.normals
                &&& m1.uvs == m0.uvs
                &&& m1.bone_influences == m0.bone_influences
            }),
            final(self).name == old(self).name,
            final(self).armature_name == old(self).armature_name,
            final(self).bounding_box == old(self).bounding_box,
            final(self).materials == old(self).materials,
            final(self).custom_properties == old(self).custom_properties,
    {
        let indices = triangulate_indices(
            &self.multi_indexed_vertex_attributes.vertices_in_each_face,
            &self.multi_indexed_vertex_attributes.positions.indices,
        );
        let n = indices.len() / 3;
        let mut counts: Vec<u8> = Vec::new();
        let mut i: usize = 0;
        while i < n
            invariant
                i <= n,
                counts@ =~= all_triangles(i as int),
            decreases n - i,
        {
            counts.push(3);
            i = i + 1;
        }
        self.multi_indexed_vertex_attributes.positions.indices = indices;
        self.multi_indexed_vertex_attributes.vertices_in_each_face = counts;
    }
}

} // verus!
