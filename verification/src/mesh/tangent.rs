//! The indices that face tangents are computed from.
use vstd::prelude::*;
use crate::mesh::BlenderMesh;
use crate::mesh::multi_indexed::{group_start, lemma_sum_take_le, lemma_sum_take_step, sum_counts};

verus! {

/// An error while calculating the tangents of a mesh's vertices.
#[derive(Debug, PartialEq, Eq, Structural, Clone, Copy)]
pub enum TangentError {
    /// Vertex tangents cannot be calculated for a mesh without uvs.
    NoVertexUvs,
}

/// The first three corners' indices of face `f`: the positions, then the uvs.
pub open spec fn face_tangent_indices(positions: Seq<u16>, uvs: Seq<u16>, faces: Seq<u8>, f: int) -> (
    [u16; 3],
    [u16; 3],
) {
    let s = group_start(faces, f);
    (
        [positions[s], positions[s + 1], positions[s + 2]],
        [uvs[s], uvs[s + 1], uvs[s + 2]],
    )
}

/// The first three corners of every face lie inside the indices, and the running count of
/// corners fits in 16 bits.
pub open spec fn tangent_faces_fit(positions: Seq<u16>, uvs: Seq<u16>, faces: Seq<u8>) -> bool {
    &&& sum_counts(faces) <= u16::MAX
    &&& forall|f: int|
        0 <= f < faces.len() ==> #[trigger] group_start(faces, f) + 3 <= positions.len()
            && group_start(faces, f) + 3 <= uvs.len()
}

/// Corner `i` belongs to face `f`: the corners of each face follow those of the faces before
/// it, and the last face takes every corner after them.
pub open spec fn in_face(faces: Seq<u8>, i: int, f: int) -> bool {
    &&& 0 <= f < faces.len()
    &&& f > 0 ==> group_start(faces, f) <= i
    &&& f + 1 < faces.len() ==> i < group_start(faces, f + 1)
}

/// The corners that a face's tangent is computed from are its own: face 0 starts at corner 0,
/// and each face starts right after the corners of the face before it.
pub proof fn lemma_face_tangent_corners_follow_faces(positions: Seq<u16>, uvs: Seq<u16>, faces: Seq<u8>, f: int)
    requires
        0 <= f < faces.len(),
    ensures
        face_tangent_indices(positions, uvs, faces, 0) == ([positions[0], positions[1], positions[2]], [
            uvs[0],
            uvs[1],
            uvs[2],
        ]),
        f + 1 < faces.len() ==> {
            let s = sum_counts(faces.take(f)) + faces[f];
            face_tangent_indices(positions, uvs, faces, f + 1) == (
                [positions[s], positions[s + 1], positions[s + 2]],
                [uvs[s], uvs[s + 1], uvs[s + 2]],
            )
        },
{
    assert(faces.take(0) =~= Seq::<u8>::empty());
    if f + 1 < faces.len() {
        lemma_sum_take_step(faces, f);
    }
}

/// Every corner is in some face when every face has a corner.
pub proof fn lemma_in_face_exists(faces: Seq<u8>, i: int)
    requires
        faces.len() > 0,
        forall|h: int| 0 <= h < faces.len() ==> #[trigger] faces[h] > 0,
        i >= 0,
    ensures
        exists|f: int| in_face(faces, i, f),
        in_face(faces, i, face_of_corner(faces, i)),
    decreases faces.len(),
{
    if faces.len() == 1 {
        assert(in_face(faces, i, 0));
    } else {
        let p = faces.drop_last();
        lemma_in_face_exists(p, i);
        let g = face_of_corner(p, i);
        assert(in_face(p, i, g));
        assert forall|h: int| 0 <= h <= p.len() implies #[trigger] group_start(faces, h) == group_start(p, h) by {
            assert(faces.take(h) =~= p.take(h));
        }
        if g + 1 < p.len() {
            assert(in_face(faces, i, g));
        } else if i < group_start(faces, g + 1) {
            assert(in_face(faces, i, g));
        } else {
            assert(in_face(faces, i, g + 1));
        }
    }
}

/// Every corner belongs to one face at most.
pub proof fn lemma_in_face_unique(faces: Seq<u8>, i: int, f: int, g: int)
    requires
        forall|h: int| 0 <= h < faces.len() ==> #[trigger] faces[h] > 0,
        in_face(faces, i, f),
        in_face(faces, i, g),
    ensures
        f == g,
{
    if f < g {
        lemma_group_start_grows(faces, f + 1, g);
    } else if g < f {
        lemma_group_start_grows(faces, g + 1, f);
    }
}

/// Group starts do not decrease.
proof fn lemma_group_start_grows(faces: Seq<u8>, a: int, b: int)
    requires
        0 <= a <= b <= faces.len(),
    ensures
        group_start(faces, a) <= group_start(faces, b),
    decreases b - a,
{
    if a < b {
        lemma_group_start_grows(faces, a, b - 1);
        lemma_sum_take_step(faces, b - 1);
    }
}

/// The face of each of the first `corners` corners, counting the corners of each face in turn
/// (see `in_face`).
pub fn corner_faces(faces: &Vec<u8>, corners: usize) -> (r: Vec<usize>)
    requires
        faces@.len() > 0,
        forall|h: int| 0 <= h < faces@.len() ==> #[trigger] faces@[h] > 0,
    ensures
        r@.len() == corners,
        forall|i: int| 0 <= i < corners ==> in_face(faces@, i, #[trigger] r@[i] as int),
        forall|i: int| 0 <= i < corners ==> #[trigger] r@[i] == face_of_corner(faces@, i),
{
    let mut out: Vec<usize> = Vec::new();
    let mut face_idx: usize = 0;
    let mut remaining: u8 = faces[0];
    let mut i: usize = 0;
    proof {
        lemma_sum_take_step(faces@, 0);
        assert(faces@.take(0) =~= Seq::<u8>::empty());
    }
    while i < corners
        invariant
            faces@.len() > 0,
            forall|h: int| 0 <= h < faces@.len() ==> #[trigger] faces@[h] > 0,
            i <= corners,
            out@.len() == i,
            face_idx < faces.len(),
            remaining > 0,
            face_idx > 0 ==> group_start(faces@, face_idx as int) <= i,
            face_idx + 1 < faces@.len() ==> remaining == group_start(faces@, face_idx + 1) - i,
            forall|j: int| 0 <= j < i ==> in_face(faces@, j, #[trigger] out@[j] as int),
        decreases corners - i,
    {
        out.push(face_idx);
        if face_idx + 1 < faces.len() {
            remaining = remaining - 1;
        }
        if remaining == 0 {
            face_idx = face_idx + 1;
            proof {
                lemma_sum_take_step(faces@, face_idx as int);
            }
            remaining = faces[face_idx];
        }
        i = i + 1;
    }
    assert forall|j: int| 0 <= j < corners implies #[trigger] out@[j] == face_of_corner(faces@, j) by {
        assert(in_face(faces@, j, out@[j] as int));
        lemma_in_face_unique(faces@, j, out@[j] as int, face_of_corner(faces@, j));
    }
    out
}

/// The face of corner `i` (see `in_face`).
pub open spec fn face_of_corner(faces: Seq<u8>, i: int) -> int {
    choose|f: int| in_face(faces, i, f)
}

/// The faces of the first `n` corners whose vertex is `v`, in corner order: the faces whose
/// tangents vertex `v` sums.
pub open spec fn faces_of_vertex(corner_vertices: Seq<u16>, faces: Seq<u8>, v: int, n: int) -> Seq<usize>
    decreases n,
{
    if n <= 0 {
        seq![]
    } else {
        let prev = faces_of_vertex(corner_vertices, faces, v, n - 1);
        if corner_vertices[n - 1] == v {
            prev.push(face_of_corner(faces, n - 1) as usize)
        } else {
            prev
        }
    }
}

/// Every face in `listed` is the face of one of the first `n` corners that use vertex `v`.
pub open spec fn faces_of_corners_using(
    corner_vertices: Seq<u16>,
    faces: Seq<u8>,
    v: int,
    n: int,
    listed: Seq<usize>,
) -> bool {
    forall|q: int|
        #![trigger listed[q]]
        0 <= q < listed.len() ==> listed[q] < faces.len() && exists|i: int|
            #![trigger corner_vertices[i]]
            0 <= i < n && corner_vertices[i] == v && in_face(faces, i, listed[q] as int)
}

/// The `q`-th face listed for vertex `v` is the face of a corner `i` that uses `v`.
pub proof fn lemma_listed_face_corner(corner_vertices: Seq<u16>, faces: Seq<u8>, v: int, n: int, q: int) -> (i: int)
    requires
        faces.len() > 0,
        faces.len() <= usize::MAX,
        forall|h: int| 0 <= h < faces.len() ==> #[trigger] faces[h] > 0,
        0 <= n <= corner_vertices.len(),
        0 <= q < faces_of_vertex(corner_vertices, faces, v, n).len(),
    ensures
        0 <= i < n,
        corner_vertices[i] == v,
        in_face(faces, i, faces_of_vertex(corner_vertices, faces, v, n)[q] as int),
    decreases n,
{
    let prev = faces_of_vertex(corner_vertices, faces, v, n - 1);
    let cur = faces_of_vertex(corner_vertices, faces, v, n);
    if q < prev.len() {
        assert(cur[q] == prev[q]);
        lemma_listed_face_corner(corner_vertices, faces, v, n - 1, q)
    } else {
        lemma_in_face_exists(faces, n - 1);
        assert(corner_vertices[n - 1] == v);
        assert(cur[q] == face_of_corner(faces, n - 1) as usize);
        n - 1
    }
}

/// Every face listed for vertex `v` is the face of a corner that uses `v`.
pub proof fn lemma_listed_faces_are_corner_faces(corner_vertices: Seq<u16>, faces: Seq<u8>, v: int, n: int)
    requires
        faces.len() > 0,
        faces.len() <= usize::MAX,
        forall|h: int| 0 <= h < faces.len() ==> #[trigger] faces[h] > 0,
        0 <= n <= corner_vertices.len(),
    ensures
        faces_of_corners_using(corner_vertices, faces, v, n, faces_of_vertex(corner_vertices, faces, v, n)),
{
    let cur = faces_of_vertex(corner_vertices, faces, v, n);
    assert forall|q: int| #![trigger cur[q]] 0 <= q < cur.len() implies cur[q] < faces.len() && exists|i: int|
        #![trigger corner_vertices[i]]
        0 <= i < n && corner_vertices[i] == v && in_face(faces, i, cur[q] as int) by {
        let i = lemma_listed_face_corner(corner_vertices, faces, v, n, q);
        assert(corner_vertices[i] == v);
    }
}

/// For each of `vertex_count` vertices, the faces (in corner order) of the corners that use it:
/// a vertex's tangent is the sum of those faces' tangents.
pub fn tangent_faces_by_vertex(corner_vertices: &Vec<u16>, faces: &Vec<u8>, vertex_count: usize) -> (r: Vec<
    Vec<usize>,
>)
    requires
        faces@.len() > 0,
        forall|h: int| 0 <= h < faces@.len() ==> #[trigger] faces@[h] > 0,
    ensures
        r@.len() == vertex_count,
        forall|v: int|
            0 <= v < vertex_count ==> (#[trigger] r@[v])@ == faces_of_vertex(
                corner_vertices@,
                faces@,
                v,
                corner_vertices@.len() as int,
            ),
        forall|v: int|
            0 <= v < vertex_count ==> faces_of_corners_using(
                corner_vertices@,
                faces@,
                v,
                corner_vertices@.len() as int,
                #[trigger] r@[v]@,
            ),
{
    let n = corner_vertices.len();
    let face_of = corner_faces(faces, n);
    let mut r: Vec<Vec<usize>> = Vec::new();
    let mut w: usize = 0;
    while w < vertex_count
        invariant
            w <= vertex_count,
            r@.len() == w,
            forall|u: int| 0 <= u < w ==> (#[trigger] r@[u])@ == Seq::<usize>::empty(),
        decreases vertex_count - w,
    {
        r.push(Vec::new());
        w = w + 1;
    }
    let mut i: usize = 0;
    while i < n
        invariant
            i <= n,
            n == corner_vertices@.len(),
            face_of@.len() == n,
            forall|j: int| 0 <= j < n ==> #[trigger] face_of@[j] == face_of_corner(faces@, j),
            r@.len() == vertex_count,
            forall|u: int|
                0 <= u < vertex_count ==> (#[trigger] r@[u])@ == faces_of_vertex(
                    corner_vertices@,
                    faces@,
                    u,
                    i as int,
                ),
        decreases n - i,
    {
        let v = corner_vertices[i] as usize;
        let ghost before = r@;
        if v < vertex_count {
            let f = face_of[i];
            r[v].push(f);
        }
        proof {
            assert forall|u: int| 0 <= u < vertex_count implies (#[trigger] r@[u])@ == faces_of_vertex(
                corner_vertices@,
                faces@,
                u,
                i + 1,
            ) by {
                assert(faces_of_vertex(corner_vertices@, faces@, u, i + 1) == if corner_vertices@[i as int]
                    == u {
                    faces_of_vertex(corner_vertices@, faces@, u, i as int).push(
                        face_of_corner(faces@, i as int) as usize,
                    )
                } else {
                    faces_of_vertex(corner_vertices@, faces@, u, i as int)
                });
                if u != v {
                    assert(r@[u] == before[u]);
                }
            }
        }
        i = i + 1;
    }
    proof {
        assert forall|v: int| 0 <= v < vertex_count implies faces_of_corners_using(
            corner_vertices@,
            faces@,
            v,
            n as int,
            #[trigger] r@[v]@,
        ) by {
            assert(faces@.len() == faces.len());
            lemma_listed_faces_are_corner_faces(corner_vertices@, faces@, v, n as int);
        }
    }
    r
}

/// Whether the first three corners of every face lie inside the indices and the running count
/// of corners fits in 16 bits: see `tangent_faces_fit`.
fn tangent_faces_fit_check(positions: &Vec<u16>, uvs: &Vec<u16>, faces: &Vec<u8>) -> (b: bool)
    ensures
        b == tangent_faces_fit(positions@, uvs@, faces@),
{
    let mut start: u128 = 0;
    let mut f: usize = 0;
    assert(faces@.take(0) =~= Seq::<u8>::empty());
    while f < faces.len()
        invariant
            f <= faces@.len(),
            start == group_start(faces@, f as int),
            start <= 255 * f,
            forall|g: int|
                0 <= g < f ==> #[trigger] group_start(faces@, g) + 3 <= positions@.len()
                    && group_start(faces@, g) + 3 <= uvs@.len(),
        decreases faces@.len() - f,
    {
        if start + 3 > positions.len() as u128 || start + 3 > uvs.len() as u128 {
            assert(!(group_start(faces@, f as int) + 3 <= positions@.len() && group_start(faces@, f as int)
                + 3 <= uvs@.len()));
            return false;
        }
        proof {
            lemma_sum_take_step(faces@, f as int);
        }
        start = start + faces[f] as u128;
        f = f + 1;
    }
    assert(faces@.take(faces@.len() as int) =~= faces@);
    start <= 0xffff
}

impl BlenderMesh {
    /// Whether `face_tangent_corners` can gather the corners of the mesh's faces: it can for a
    /// mesh without uvs, and for one with uvs when `tangent_faces_fit` holds.
    pub fn tangent_corners_fit(&self) -> (b: bool)
        ensures
            b == (self.multi_indexed_vertex_attributes.uvs matches Some(u) ==> tangent_faces_fit(
                self.multi_indexed_vertex_attributes.positions.indices@,
                u.indices@,
                self.multi_indexed_vertex_attributes.vertices_in_each_face@,
            )),
    {
        let m = &self.multi_indexed_vertex_attributes;
        match &m.uvs {
            None => true,
            Some(u) => tangent_faces_fit_check(&m.positions.indices, &u.indices, &m.vertices_in_each_face),
        }
    }

    /// For each face, the position and uv indices of its first three corners: what the face's
    /// tangent, used for normal mapping, is computed from.
    ///
    /// A mesh without uvs has no tangents (`NoVertexUvs`).
    pub fn face_tangent_corners(&self) -> (r: Result<Vec<([u16; 3], [u16; 3])>, TangentError>)
        requires
            self.multi_indexed_vertex_attributes.uvs matches Some(u) ==> tangent_faces_fit(
                self.multi_indexed_vertex_attributes.positions.indices@,
                u.indices@,
                self.multi_indexed_vertex_attributes.vertices_in_each_face@,
            ),
        ensures
            match self.multi_indexed_vertex_attributes.uvs {
                None => r == Err::<Vec<([u16; 3], [u16; 3])>, TangentError>(TangentError::NoVertexUvs),
                Some(u) => r matches Ok(v) && v@.len()
                    == self.multi_indexed_vertex_attributes.vertices_in_each_face@.len() && forall|f: int|
                    0 <= f < v@.len() ==> #[trigger] v@[f] == face_tangent_indices(
                        self.multi_indexed_vertex_attributes.positions.indices@,
                        u.indices@,
                        self.multi_indexed_vertex_attributes.vertices_in_each_face@,
                        f,
                    ),
            },
            match self.multi_indexed_vertex_attributes.uvs {
                Some(u) => r matches Ok(v) && forall|f: int| 0 <= f < v@.len() ==> {
                    let s = sum_counts(self.multi_indexed_vertex_attributes.vertices_in_each_face@.take(f));
                    let p = self.multi_indexed_vertex_attributes.positions.indices@;
                    #[trigger] v@[f] == ([p[s], p[s + 1], p[s + 2]], [u.indices@[s], u.indices@[s + 1], u.indices@[s + 2]])
                },
                None => true,
            },
    {
        let m = &self.multi_indexed_vertex_attributes;
        let uvs = match &m.uvs {
            None => {
                return Err(TangentError::NoVertexUvs);
            },
            Some(u) => &u.indices,
        };
        let faces = &m.vertices_in_each_face;
        let positions = &m.positions.indices;
        let mut out: Vec<([u16; 3], [u16; 3])> = Vec::new();
        let mut total_indices_processed: u16 = 0;
        let mut f: usize = 0;
        assert(faces@.take(0) =~= Seq::<u8>::empty());
        while f < faces.len()
            invariant
                tangent_faces_fit(positions@, uvs@, faces@),
                f <= faces@.len(),
                total_indices_processed == group_start(faces@, f as int),
                out@.len() == f,
                forall|g: int| 0 <= g < f ==> #[trigger] out@[g] == face_tangent_indices(
                    positions@,
                    uvs@,
                    faces@,
                    g,
                ),
            decreases faces@.len() - f,
        {
            proof {
                lemma_sum_take_step(faces@, f as int);
                lemma_sum_take_le(faces@, f as int + 1);
                assert(group_start(faces@, f as int) + 3 <= positions@.len());
            }
            let idx = total_indices_processed as usize;
            let p = [positions[idx], positions[idx + 1], positions[idx + 2]];
            let u = [uvs[idx], uvs[idx + 1], uvs[idx + 2]];
            out.push((p, u));
            proof {
                assert(out@[f as int] == face_tangent_indices(positions@, uvs@, faces@, f as int));
            }
            total_indices_processed = total_indices_processed + faces[f] as u16;
            f = f + 1;
        }
        Ok(out)
    }
}

} // verus!
