//! Vertex data with a single index buffer, ready for most rendering pipelines.
use vstd::prelude::*;
use crate::mesh::multi_indexed::MultiIndexedVertexAttributes;
use crate::mesh::vertex_attribute::{BoneAttributes, VertexAttribute};

verus! {

/// The index of a bone that influences a vertex, along with the weight of that influence.
#[derive(Debug, Copy, Clone, PartialEq, Default)]
pub struct BoneInfluence {
    /// The index of this bone within the mesh's parent armature's bones.
    pub bone_idx: u8,
    /// The bits of the weight, an `f32` between 0.0 and 1.0.
    pub weight: u32,
}

impl BoneInfluence {
    /// The index of this bone within the mesh's parent armature's bones.
    pub fn bone_idx(&self) -> (r: u8)
        ensures
            r == self.bone_idx,
    {
        self.bone_idx
    }

    /// The amount (bits of an `f32` between 0.0 and 1.0) that this bone influences the vertex.
    pub fn weight(&self) -> (r: u32)
        ensures
            r == self.weight,
    {
        self.weight
    }
}

/// A vertex within a mesh (floats as their bits).
#[derive(Debug, Copy, Clone, PartialEq, Default)]
pub struct Vertex {
    /// The model space position.
    pub position: [u32; 3],
    /// The surface normal of the face that this vertex belongs to.
    pub normal: Option<[u32; 3]>,
    /// The face tangent of the face(s) that this vertex belongs to.
    pub face_tangent: Option<[u32; 3]>,
    /// The uv coordinates.
    pub uv: Option<[u32; 2]>,
    /// Up to 4 bones that influence the vertex; unused slots have a weight of zero.
    pub bones: Option<[BoneInfluence; 4]>,
}

impl Vertex {
    /// The model space position of this vertex.
    pub fn position(&self) -> (r: [u32; 3])
        ensures
            r == self.position,
    {
        self.position
    }

    /// The surface normal for the face that this vertex belongs to.
    pub fn normal(&self) -> (r: Option<[u32; 3]>)
        ensures
            r == self.normal,
    {
        self.normal
    }

    /// The face tangent for the face that this vertex belongs to.
    pub fn face_tangent(&self) -> (r: Option<[u32; 3]>)
        ensures
            r == self.face_tangent,
    {
        self.face_tangent
    }

    /// The uv coordinates of this vertex.
    pub fn uv(&self) -> (r: Option<[u32; 2]>)
        ensures
            r == self.uv,
    {
        self.uv
    }

    /// The bones that influence this vertex.
    pub fn bones(&self) -> (r: Option<[BoneInfluence; 4]>)
        ensures
            r == self.bones,
    {
        self.bones
    }
}

/// Vertex data with a single index: every 3 indices are one triangle.
#[derive(Debug, PartialEq, Clone, Default)]
pub struct SingleIndexedVertexAttributes {
    /// Every 3 indices are one triangle.
    pub indices: Vec<u16>,
    /// The vertices that the indices point to.
    pub vertices: Vec<Vertex>,
}

impl SingleIndexedVertexAttributes {
    /// Every 3 indices correspond to one triangle.
    pub fn indices(&self) -> (r: &Vec<u16>)
        ensures
            r@ == self.indices@,
    {
        &self.indices
    }

    /// All of the vertex data for the mesh, indexed by `indices`.
    pub fn vertices(&self) -> (r: &Vec<Vertex>)
        ensures
            r@ == self.vertices@,
    {
        &self.vertices
    }
}

/// Single indexed vertex data held attribute by attribute.
#[derive(Debug, PartialEq, Clone, Default)]
pub struct SingleIndexVertexAttributes {
    /// Every 3 indices are one triangle.
    pub indices: Vec<u16>,
    /// Every 3 values are one vertex's position.
    pub positions: VertexAttribute<u32>,
    /// Every 3 values are one vertex's normal.
    pub normals: Option<VertexAttribute<u32>>,
    /// Every 3 values are one tangent vector.
    pub tangents: Option<VertexAttribute<u32>>,
    /// Every 2 values are one vertex's uv.
    pub uvs: Option<VertexAttribute<u32>>,
    /// The bones that influence each vertex.
    pub bones: Option<BoneAttributes>,
}

impl SingleIndexVertexAttributes {
    /// Every 3 indices correspond to one triangle.
    pub fn indices(&self) -> (r: &Vec<u16>)
        ensures
            r@ == self.indices@,
    {
        &self.indices
    }

    /// Every 3 values correspond to one vertex's position.
    pub fn positions(&self) -> (r: &VertexAttribute<u32>)
        ensures
            *r == self.positions,
    {
        &self.positions
    }

    /// Every 3 values correspond to one vertex's normal.
    pub fn normals(&self) -> (r: Option<&VertexAttribute<u32>>)
        ensures
            r == match &self.normals {
                Some(a) => Some(a),
                None => None::<&VertexAttribute<u32>>,
            },
    {
        self.normals.as_ref()
    }

    /// Every 3 values correspond to one tangent vector.
    pub fn face_tangents(&self) -> (r: Option<&VertexAttribute<u32>>)
        ensures
            r == match &self.tangents {
                Some(a) => Some(a),
                None => None::<&VertexAttribute<u32>>,
            },
    {
        self.tangents.as_ref()
    }

    /// Every 2 values correspond to one vertex's uv.
    pub fn uvs(&self) -> (r: Option<&VertexAttribute<u32>>)
        ensures
            r == match &self.uvs {
                Some(a) => Some(a),
                None => None::<&VertexAttribute<u32>>,
            },
    {
        self.uvs.as_ref()
    }

    /// The indices of the bones that influence each vertex.
    pub fn bones_influencers(&self) -> (r: Option<&VertexAttribute<u8>>)
        ensures
            r == match &self.bones {
                Some(b) => Some(&b.bone_influencers),
                None => None::<&VertexAttribute<u8>>,
            },
    {
        match &self.bones {
            Some(b) => Some(&b.bone_influencers),
            None => None,
        }
    }

    /// The weights of each bone influencer.
    pub fn bone_influencer_weights(&self) -> (r: Option<&VertexAttribute<u32>>)
        ensures
            r == match &self.bones {
                Some(b) => Some(&b.bone_weights),
                None => None::<&VertexAttribute<u32>>,
            },
    {
        match &self.bones {
            Some(b) => Some(&b.bone_weights),
            None => None,
        }
    }
}

/// Per vertex data: with multiple indices as exported from Blender, or with a single index.
#[derive(Debug, PartialEq, Clone)]
pub enum VertexAttributes {
    /// One index per attribute.
    Multi(MultiIndexedVertexAttributes),
    /// One index for all of the data.
    Single(SingleIndexVertexAttributes),
}

impl Default for VertexAttributes {
    fn default() -> (r: Self)
        ensures
            r matches VertexAttributes::Multi(m) && m.vertices_in_each_face@.len() == 0,
    {
        VertexAttributes::Multi(MultiIndexedVertexAttributes {
            vertices_in_each_face: Vec::new(),
            positions: crate::mesh::multi_indexed::IndexedAttribute {
                indices: Vec::new(),
                attribute: VertexAttribute { data: Vec::new(), attribute_size: 0 },
            },
            normals: None,
            uvs: None,
            bone_influences: None,
        })
    }
}

/// The contents of an optional vector.
pub open spec fn opt_view<T>(o: Option<Vec<T>>) -> Option<Seq<T>> {
    match o {
        Some(v) => Some(v@),
        None => None,
    }
}

/// The bone influence of vertex `idx`'s slot `k` when `count` bones influence each vertex.
pub open spec fn spec_bone_slot(b: BoneAttributes, count: u8, idx: int, k: int) -> BoneInfluence {
    if k < count {
        BoneInfluence {
            bone_idx: b.bone_influencers.data@[idx * count + k],
            weight: b.bone_weights.data@[idx * count + k],
        }
    } else {
        BoneInfluence { bone_idx: 0, weight: 0 }
    }
}

/// Vertex `idx` is the vertex made from the flat attribute data: 3 position values, 3 normal
/// values, 2 uv values, 3 tangent values and `count` bone influences per vertex.
pub open spec fn vertex_from_data(
    v: Vertex,
    positions: Seq<u32>,
    normals: Option<Seq<u32>>,
    uvs: Option<Seq<u32>>,
    tangents: Option<Seq<u32>>,
    bones: Option<(BoneAttributes, u8)>,
    idx: int,
) -> bool {
    &&& v.position@ == positions.subrange(idx * 3, idx * 3 + 3)
    &&& match normals {
        Some(n) => v.normal matches Some(a) && a@ == n.subrange(idx * 3, idx * 3 + 3),
        None => v.normal is None,
    }
    &&& match uvs {
        Some(u) => v.uv matches Some(a) && a@ == u.subrange(idx * 2, idx * 2 + 2),
        None => v.uv is None,
    }
    &&& match tangents {
        Some(t) => v.face_tangent matches Some(a) && a@ == t.subrange(idx * 3, idx * 3 + 3),
        None => v.face_tangent is None,
    }
    &&& match bones {
        Some((b, count)) => v.bones matches Some(a) && a@ == Seq::new(
            4,
            |k: int| spec_bone_slot(b, count, idx, k),
        ),
        None => v.bones is None,
    }
}

/// The flat attribute data is long enough for `positions.len() / 3` vertices.
pub open spec fn vertex_data_fits(
    positions: Seq<u32>,
    normals: Option<Seq<u32>>,
    uvs: Option<Seq<u32>>,
    tangents: Option<Seq<u32>>,
    bones: Option<(BoneAttributes, u8)>,
) -> bool {
    let n = positions.len() / 3;
    &&& normals matches Some(s) ==> s.len() >= n * 3
    &&& uvs matches Some(s) ==> s.len() >= n * 2
    &&& tangents matches Some(s) ==> s.len() >= n * 3
    &&& bones matches Some((b, c)) ==> c <= 4 && b.bone_influencers.data@.len() >= n * c
        && b.bone_weights.data@.len() >= n * c
}

/// Gather the attribute data of vertex `idx` into `Vertex` form.
fn vertex_at(
    positions: &Vec<u32>,
    normals: &Option<Vec<u32>>,
    uvs: &Option<Vec<u32>>,
    tangents: &Option<Vec<u32>>,
    bones: &Option<(BoneAttributes, u8)>,
    idx: usize,
) -> (v: Vertex)
    requires
        idx < positions@.len() / 3,
        vertex_data_fits(
            positions@,
            opt_view(*normals),
            opt_view(*uvs),
            opt_view(*tangents),
            *bones,
        ),
    ensures
        vertex_from_data(
            v,
            positions@,
            opt_view(*normals),
            opt_view(*uvs),
            opt_view(*tangents),
            *bones,
            idx as int,
        ),
{
    let n = positions.len() / 3;
    assert(idx * 3 + 3 <= n * 3);
    let position = [positions[idx * 3], positions[idx * 3 + 1], positions[idx * 3 + 2]];
    assert(position@ =~= positions@.subrange(idx * 3, idx * 3 + 3));
    let normal = match normals {
        Some(s) => {
            let a = [s[idx * 3], s[idx * 3 + 1], s[idx * 3 + 2]];
            assert(a@ =~= s@.subrange(idx * 3, idx * 3 + 3));
            Some(a)
        },
        None => None,
    };
    let uv = match uvs {
        Some(s) => {
            let a = [s[idx * 2], s[idx * 2 + 1]];
            assert(a@ =~= s@.subrange(idx * 2, idx * 2 + 2));
            Some(a)
        },
        None => None,
    };
    let face_tangent = match tangents {
        Some(s) => {
            let a = [s[idx * 3], s[idx * 3 + 1], s[idx * 3 + 2]];
            assert(a@ =~= s@.subrange(idx * 3, idx * 3 + 3));
            Some(a)
        },
        None => None,
    };
    let bone_slots = match bones {
        Some((b, count)) => {
            let ghost c = *count;
            proof {
                assert(idx * c + c <= n * c) by (nonlinear_arith)
                    requires
                        idx + 1 <= n,
                ;
                assert(0 <= idx * c) by (nonlinear_arith);
            }
            let b0 = bone_slot(b, *count, idx, 0);
            let b1 = bone_slot(b, *count, idx, 1);
            let b2 = bone_slot(b, *count, idx, 2);
            let b3 = bone_slot(b, *count, idx, 3);
            let a = [b0, b1, b2, b3];
            assert(a@ =~= Seq::new(4, |k: int| spec_bone_slot(*b, c, idx as int, k)));
            Some(a)
        },
        None => None,
    };
    Vertex { position, normal, face_tangent, uv, bones: bone_slots }
}

/// Slot `k` of vertex `idx`'s bone influences.
fn bone_slot(b: &BoneAttributes, count: u8, idx: usize, k: usize) -> (r: BoneInfluence)
    requires
        k < 4,
        idx * count + count <= b.bone_influencers.data@.len(),
        idx * count + count <= b.bone_weights.data@.len(),
    ensures
        r == spec_bone_slot(*b, count, idx as int, k as int),
{
    if k < count as usize {
        let len = b.bone_weights.data.len();
        proof {
            assert(0 <= idx * count) by (nonlinear_arith);
        }
        let i = idx * count as usize + k;
        BoneInfluence { bone_idx: b.bone_influencers.data[i], weight: b.bone_weights.data[i] }
    } else {
        BoneInfluence { bone_idx: 0, weight: 0 }
    }
}

/// Turn flat attribute data into vertices: one vertex per 3 position values.
pub fn make_vertices(
    positions: Vec<u32>,
    normals: Option<Vec<u32>>,
    uvs: Option<Vec<u32>>,
    tangents: Option<Vec<u32>>,
    bones: Option<(BoneAttributes, u8)>,
) -> (out: Vec<Vertex>)
    requires
        vertex_data_fits(
            positions@,
            opt_view(normals),
            opt_view(uvs),
            opt_view(tangents),
            bones,
        ),
    ensures
        out@.len() == positions@.len() / 3,
        forall|i: int|
            0 <= i < out@.len() ==> vertex_from_data(
                #[trigger] out@[i],
                positions@,
                opt_view(normals),
                opt_view(uvs),
                opt_view(tangents),
                bones,
                i,
            ),
{
    let mut vertices: Vec<Vertex> = Vec::new();
    let n = positions.len() / 3;
    let mut idx: usize = 0;
    while idx < n
        invariant
            n == positions@.len() / 3,
            idx <= n,
            vertex_data_fits(
                positions@,
                opt_view(normals),
                opt_view(uvs),
                opt_view(tangents),
                bones,
            ),
            vertices@.len() == idx,
            forall|i: int|
                0 <= i < idx ==> vertex_from_data(
                    #[trigger] vertices@[i],
                    positions@,
                    opt_view(normals),
                    opt_view(uvs),
                    opt_view(tangents),
                    bones,
                    i,
                ),
        decreases n - idx,
    {
        let v = vertex_at(&positions, &normals, &uvs, &tangents, &bones, idx);
        vertices.push(v);
        idx = idx + 1;
    }
    vertices
}

} // verus!
