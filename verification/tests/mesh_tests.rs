use landon::mesh::can_combine::can_combine;
use landon::mesh::combine::CreateSingleIndexConfig;
use landon::mesh::interleave::InterleaveError;
use landon::mesh::multi_indexed::{
    BoneInfluences, BoneInfluencesPerVertex, IndexedAttribute, MultiIndexedVertexAttributes,
};
use landon::mesh::single_indexed::{make_vertices, SingleIndexedVertexAttributes};
use landon::mesh::tangent::{corner_faces, TangentError};
use landon::mesh::vertex_attribute::{BoneAttributes, VertexAttribute};
use landon::mesh::{BlenderMesh, BoundingBox};

fn bits(values: &[f32]) -> Vec<u32> {
    values.iter().map(|x| x.to_bits()).collect()
}

fn v(x: u8) -> Vec<f32> {
    vec![x as f32, x as f32, x as f32]
}

fn v2(x: u8) -> Vec<f32> {
    vec![x as f32, x as f32]
}

fn v3_x3(a: u8, b: u8, c: u8) -> Vec<f32> {
    [v(a), v(b), v(c)].concat()
}

fn v3_x4(a: u8, b: u8, c: u8, d: u8) -> Vec<f32> {
    [v(a), v(b), v(c), v(d)].concat()
}

fn v2_x4(a: u8, b: u8, c: u8, d: u8) -> Vec<f32> {
    [v2(a), v2(b), v2(c), v2(d)].concat()
}

fn attribute(data: &[f32], size: u8) -> VertexAttribute<u32> {
    VertexAttribute { data: bits(data), attribute_size: size }
}

/// Multi indexed data as exported: positions, normals (always present), optional uvs and bones.
struct Multi {
    positions: Vec<f32>,
    position_indices: Vec<u16>,
    faces: Vec<u8>,
    normals: Vec<f32>,
    normal_indices: Vec<u16>,
    uvs: Option<(Vec<f32>, Vec<u16>)>,
    bones: Option<(Vec<u8>, Vec<u8>, Vec<f32>)>,
}

impl Default for Multi {
    fn default() -> Self {
        Multi {
            positions: vec![],
            position_indices: vec![],
            faces: vec![],
            normals: vec![],
            normal_indices: vec![],
            uvs: None,
            bones: None,
        }
    }
}

impl Multi {
    fn build(self) -> MultiIndexedVertexAttributes {
        MultiIndexedVertexAttributes {
            vertices_in_each_face: self.faces,
            positions: IndexedAttribute {
                indices: self.position_indices,
                attribute: attribute(&self.positions, 3),
            },
            normals: Some(IndexedAttribute {
                indices: self.normal_indices,
                attribute: attribute(&self.normals, 3),
            }),
            uvs: self.uvs.map(|(data, indices)| IndexedAttribute {
                indices,
                attribute: attribute(&data, 2),
            }),
            bone_influences: self.bones.map(|(counts, indices, weights)| BoneInfluences {
                bones_per_vertex: BoneInfluencesPerVertex::NonUniform(counts),
                bone_indices: indices,
                bone_weights: bits(&weights),
            }),
        }
    }
}

/// Single indexed data, as the combined mesh should come out.
fn single(
    indices: Vec<u16>,
    positions: Vec<f32>,
    normals: Vec<f32>,
    uvs: Option<Vec<f32>>,
    bones: Option<(Vec<u8>, Vec<f32>, u8)>,
) -> SingleIndexedVertexAttributes {
    let bones = bones.map(|(indices, weights, count)| {
        (
            BoneAttributes {
                bone_influencers: VertexAttribute { data: indices, attribute_size: count },
                bone_weights: VertexAttribute { data: bits(&weights), attribute_size: count },
            },
            count,
        )
    });
    SingleIndexedVertexAttributes {
        indices,
        vertices: make_vertices(
            bits(&positions),
            Some(bits(&normals)),
            uvs.map(|u| bits(&u)),
            None,
            bones,
        ),
    }
}

fn combine(multi: MultiIndexedVertexAttributes, config: CreateSingleIndexConfig) -> SingleIndexedVertexAttributes {
    let mut mesh = BlenderMesh {
        multi_indexed_vertex_attributes: multi,
        ..BlenderMesh::default()
    };
    mesh.combine_vertex_indices(&config, None)
}

fn no_bones_config() -> CreateSingleIndexConfig {
    CreateSingleIndexConfig::default()
}

#[test]
fn set_joints_per_vert() {
    let mut multi = Multi {
        bones: Some((
            vec![1, 3, 4],
            vec![0, 2, 3, 4, 0, 1, 3, 2],
            vec![1.0, 0.5, 0.2, 0.3, 0.6, 0.15, 0.1, 0.15],
        )),
        ..Multi::default()
    }
    .build();

    multi.set_bone_influences_per_vertex(3);

    let expected = MultiIndexedVertexAttributes {
        bone_influences: Some(BoneInfluences {
            bones_per_vertex: BoneInfluencesPerVertex::Uniform(3),
            bone_indices: vec![0, 0, 0, 2, 4, 3, 0, 1, 2],
            bone_weights: bits(&[1.0, 0.0, 0.0, 0.5, 0.3, 0.2, 0.6, 0.15, 0.15]),
        }),
        ..Multi::default().build()
    };
    assert_eq!(multi, expected);
}

fn mesh_to_combine_without_uvs() -> MultiIndexedVertexAttributes {
    Multi {
        positions: [v(0), v(1), v(2), v(3)].concat(),
        position_indices: vec![0, 1, 2, 3, 0, 1, 2, 3, 0, 1, 2, 3],
        faces: vec![4, 4, 4],
        normals: [v(4), v(5), v(6)].concat(),
        normal_indices: vec![0, 1, 0, 1, 2, 2, 2, 2, 2, 2, 2, 2],
        uvs: None,
        bones: Some((
            vec![3, 2, 5, 1],
            vec![0, 1, 2, 0, 3, 4, 5, 6, 7, 8, 11],
            vec![0.05, 0.8, 0.15, 0.5, 0.5, 0.1, 0.2, 0.2, 0.2, 0.3, 0.999],
        )),
    }
    .build()
}

#[test]
fn mod_combine_pos_norm_indices() {
    let combined = combine(
        mesh_to_combine_without_uvs(),
        CreateSingleIndexConfig {
            bone_influences_per_vertex: Some(3),
            calculate_face_tangents: false,
        },
    );
    let expected = single(
        vec![0, 1, 2, 0, 2, 3, 4, 5, 6, 4, 6, 7, 4, 5, 6, 4, 6, 7],
        [v(0), v(1), v(2), v(3), v(0), v(1), v(2), v(3)].concat(),
        [v(4), v(5), v(4), v(5), v(6), v(6), v(6), v(6)].concat(),
        None,
        Some((
            vec![1, 2, 0, 0, 3, 0, 8, 5, 6, 11, 0, 0, 1, 2, 0, 0, 3, 0, 8, 5, 6, 11, 0, 0],
            vec![
                0.8, 0.15, 0.05, 0.5, 0.5, 0.0, 0.3, 0.2, 0.2, 0.999, 0.0, 0.0, 0.8, 0.15, 0.05,
                0.5, 0.5, 0.0, 0.3, 0.2, 0.2, 0.999, 0.0, 0.0,
            ],
            3,
        )),
    );
    assert_eq!(combined, expected);
}

#[test]
fn combine_mesh_with_non_sequential_indices() {
    let multi = Multi {
        positions: [v(5), v(6), v(7)].concat(),
        normals: [v(10), v(11), v(12)].concat(),
        uvs: Some(([v2(15), v2(16), v2(17)].concat(), vec![2, 1, 0])),
        faces: vec![3],
        position_indices: vec![2, 1, 0],
        normal_indices: vec![2, 1, 0],
        bones: None,
    }
    .build();
    let expected = single(
        vec![2, 1, 0],
        [v(5), v(6), v(7)].concat(),
        [v(10), v(11), v(12)].concat(),
        Some([v2(15), v2(16), v2(17)].concat()),
        None,
    );
    assert_eq!(combine(multi, no_bones_config()), expected);
}

fn already_triangulated_mesh() -> MultiIndexedVertexAttributes {
    Multi {
        positions: [v(5), v(6), v(7), v(8)].concat(),
        normals: [v(10), v(11), v(12), v(13), v(14), v(15), v(16), v(17)].concat(),
        faces: vec![3, 3, 3],
        position_indices: [vec![0, 1, 2], vec![0, 2, 3], vec![0, 2, 3]].concat(),
        normal_indices: [vec![0, 1, 2], vec![0, 2, 3], vec![4, 5, 6]].concat(),
        ..Multi::default()
    }
    .build()
}

#[test]
fn mod_combine_already_triangulated_mesh() {
    let expected = single(
        [vec![0, 1, 2], vec![0, 2, 3], vec![4, 5, 6]].concat(),
        [v3_x3(5, 6, 7), v(8), v3_x3(5, 7, 8)].concat(),
        [v3_x3(10, 11, 12), v(13), v3_x3(14, 15, 16)].concat(),
        None,
        None,
    );
    assert_eq!(combine(already_triangulated_mesh(), no_bones_config()), expected);
}

#[test]
fn combine_indices_combine_already_triangulated_mesh() {
    let combined = combine(already_triangulated_mesh(), no_bones_config());
    let expected = single(
        [vec![0, 1, 2], vec![0, 2, 3], vec![4, 5, 6]].concat(),
        [v3_x3(5, 6, 7), v(8), v3_x3(5, 7, 8)].concat(),
        [v3_x3(10, 11, 12), v(13), v3_x3(14, 15, 16)].concat(),
        None,
        None,
    );
    assert_eq!(combined.indices, expected.indices);
    assert_eq!(combined.vertices, expected.vertices);
}

fn mesh_to_combine_pos_norm_uv_indices() -> MultiIndexedVertexAttributes {
    Multi {
        positions: [v(0), v(1), v(2), v(3)].concat(),
        normals: [v(4), v(5), v(6)].concat(),
        faces: vec![4, 4, 4, 4],
        position_indices: [vec![0, 1, 2, 3], vec![0, 1, 2, 3], vec![0, 1, 2, 3], vec![0, 1, 2, 3]].concat(),
        normal_indices: [vec![0, 1, 0, 1], vec![2, 2, 2, 2], vec![2, 2, 2, 2], vec![2, 2, 2, 2]].concat(),
        uvs: Some((
            [v2(7), v2(8), v2(9), v2(10)].concat(),
            [vec![0, 1, 0, 1], vec![2, 2, 2, 2], vec![3, 3, 3, 3], vec![3, 3, 3, 3]].concat(),
        )),
        bones: None,
    }
    .build()
}

fn expected_pos_norm_uv_indices() -> SingleIndexedVertexAttributes {
    single(
        [
            vec![0, 1, 2, 0, 2, 3],
            vec![4, 5, 6, 4, 6, 7],
            vec![8, 9, 10, 8, 10, 11],
            vec![8, 9, 10, 8, 10, 11],
        ]
        .concat(),
        [v3_x4(0, 1, 2, 3), v3_x4(0, 1, 2, 3), v3_x4(0, 1, 2, 3)].concat(),
        [v3_x4(4, 5, 4, 5), v3_x4(6, 6, 6, 6), v3_x4(6, 6, 6, 6)].concat(),
        Some([v2_x4(7, 8, 7, 8), v2_x4(9, 9, 9, 9), v2_x4(10, 10, 10, 10)].concat()),
        None,
    )
}

#[test]
fn mod_combine_pos_norm_uv_indices() {
    assert_eq!(
        combine(mesh_to_combine_pos_norm_uv_indices(), no_bones_config()),
        expected_pos_norm_uv_indices()
    );
}

#[test]
fn combine_indices_combine_pos_norm_uv_indices() {
    let combined = combine(mesh_to_combine_pos_norm_uv_indices(), no_bones_config());
    let expected = expected_pos_norm_uv_indices();
    assert_eq!(combined.vertices, expected.vertices);
    assert_eq!(combined.indices, expected.indices);
}

#[test]
fn combine_indices_combine_pos_norm_indices() {
    let mut multi = mesh_to_combine_without_uvs();
    multi.bone_influences = None;
    let combined = combine(multi, no_bones_config());
    let expected = single(
        vec![0, 1, 2, 0, 2, 3, 4, 5, 6, 4, 6, 7, 4, 5, 6, 4, 6, 7],
        [v(0), v(1), v(2), v(3), v(0), v(1), v(2), v(3)].concat(),
        [v(4), v(5), v(4), v(5), v(6), v(6), v(6), v(6)].concat(),
        None,
        None,
    );
    assert_eq!(combined, expected);
}

#[test]
fn generate_vertex_buffer() {
    let mut mesh = BlenderMesh::pbr_cube_without_textures();
    let combined = mesh.combine_vertex_indices(&CreateSingleIndexConfig {
        bone_influences_per_vertex: None,
        calculate_face_tangents: false,
    }, None);
    // Six quads of two triangles each.
    assert_eq!(combined.indices.len(), 36);
    // Every corner of every face has its own normal, so 8 positions become 24 vertices.
    assert_eq!(combined.vertices.len(), 24);
}

#[test]
fn triangulate_faces() {
    let mut start_mesh = BlenderMesh {
        multi_indexed_vertex_attributes: MultiIndexedVertexAttributes {
            positions: IndexedAttribute {
                indices: vec![0, 1, 2, 3, 4, 5, 6, 7],
                attribute: VertexAttribute::default(),
            },
            vertices_in_each_face: vec![4, 4],
            ..MultiIndexedVertexAttributes::default()
        },
        ..BlenderMesh::default()
    };

    start_mesh.triangulate();

    let expected_mesh = BlenderMesh {
        multi_indexed_vertex_attributes: MultiIndexedVertexAttributes {
            positions: IndexedAttribute {
                indices: vec![0, 1, 2, 0, 2, 3, 4, 5, 6, 4, 6, 7],
                attribute: VertexAttribute::default(),
            },
            vertices_in_each_face: vec![3, 3, 3, 3],
            ..MultiIndexedVertexAttributes::default()
        },
        ..BlenderMesh::default()
    };

    assert_eq!(start_mesh, expected_mesh);
}

#[test]
fn combine_two_attributes() {
    let positions = VertexAttribute::new(bits(&[0., 1., 2., 3., 4., 5.]), 3).unwrap();
    let uvs = VertexAttribute::new(bits(&[50., 51., 52., 53.]), 2).unwrap();

    let combined = SingleIndexedVertexAttributes::interleave(&[&positions, &uvs]).unwrap();

    assert_eq!(combined, bits(&[0., 1., 2., 50., 51., 3., 4., 5., 52., 53.]));
}

#[test]
fn only_one_buffer_provided() {
    let positions = VertexAttribute::new(bits(&[0., 1., 2., 3., 4., 5.]), 3).unwrap();
    match SingleIndexedVertexAttributes::interleave(&[&positions]) {
        Err(InterleaveError::RequiresAtLeastTwoBuffers { num_provided: 1 }) => {}
        _ => unreachable!(),
    };
}

#[test]
fn error_if_incompatible_lengths() {
    let positions = VertexAttribute::new(bits(&[0.]), 3).unwrap();
    let uvs = VertexAttribute::new(bits(&[50., 51., 52., 53.]), 2).unwrap();

    match SingleIndexedVertexAttributes::interleave(&[&positions, &uvs]) {
        Err(InterleaveError::MismatchedLengths) => {}
        _ => unreachable!(),
    };
}

#[test]
fn z_up_to_y_up() {
    let mut start_mesh = BlenderMesh {
        multi_indexed_vertex_attributes: MultiIndexedVertexAttributes {
            positions: IndexedAttribute {
                indices: vec![],
                attribute: attribute(&[0.0, 1.0, 2.0, 0.0, 1.0, 2.0], 3),
            },
            normals: Some(IndexedAttribute {
                indices: vec![],
                attribute: attribute(&[0.0, 1.0, 2.0], 3),
            }),
            ..MultiIndexedVertexAttributes::default()
        },
        bounding_box: BoundingBox {
            min_corner: [1.0f32.to_bits(), 2.0f32.to_bits(), 3.0f32.to_bits()],
            max_corner: [5.0f32.to_bits(), 6.0f32.to_bits(), 7.0f32.to_bits()],
        },
        ..BlenderMesh::default()
    };

    start_mesh.y_up();

    let expected_mesh = BlenderMesh {
        multi_indexed_vertex_attributes: MultiIndexedVertexAttributes {
            positions: IndexedAttribute {
                indices: vec![],
                attribute: attribute(&[0.0, 2.0, -1.0, 0.0, 2.0, -1.0], 3),
            },
            normals: Some(IndexedAttribute {
                indices: vec![],
                attribute: attribute(&[0.0, 2.0, -1.0], 3),
            }),
            ..MultiIndexedVertexAttributes::default()
        },
        bounding_box: BoundingBox {
            min_corner: [1.0f32.to_bits(), 3.0f32.to_bits(), (-2.0f32).to_bits()],
            max_corner: [5.0f32.to_bits(), 7.0f32.to_bits(), (-6.0f32).to_bits()],
        },
        ..BlenderMesh::default()
    };

    assert_eq!(start_mesh, expected_mesh);
}

#[test]
fn no_vertex_uvs() {
    let mesh = BlenderMesh {
        multi_indexed_vertex_attributes: Multi {
            positions: [v(0), v(1), v(2)].concat(),
            position_indices: vec![0, 1, 2],
            faces: vec![3],
            normals: v(0),
            normal_indices: vec![0, 0, 0],
            uvs: None,
            bones: None,
        }
        .build(),
        ..BlenderMesh::default()
    };
    match mesh.face_tangent_corners() {
        Err(TangentError::NoVertexUvs) => {}
        _ => unreachable!(),
    };
}

#[test]
fn can_combine_tells_which_meshes_combine() {
    let config = CreateSingleIndexConfig { bone_influences_per_vertex: None, calculate_face_tangents: false };
    let good = already_triangulated_mesh();
    assert!(can_combine(&good, &config));

    // A pentagon cannot be triangulated.
    let mut pentagon = already_triangulated_mesh();
    pentagon.vertices_in_each_face = vec![5];
    assert!(!can_combine(&pentagon, &config));

    // An index past the positions.
    let mut out_of_range = already_triangulated_mesh();
    out_of_range.positions.indices[0] = 1000;
    assert!(!can_combine(&out_of_range, &config));

    // Bones asked for from a mesh without bones: fine as long as no corner needs a new vertex.
    let with_bones = CreateSingleIndexConfig { bone_influences_per_vertex: Some(3), calculate_face_tangents: false };
    assert!(!can_combine(&good, &with_bones));
    let no_new_vertex = Multi {
        positions: [v(5), v(6), v(7)].concat(),
        normals: [v(10), v(11), v(12)].concat(),
        faces: vec![3],
        position_indices: vec![0, 1, 2],
        normal_indices: vec![0, 1, 2],
        ..Multi::default()
    }
    .build();
    assert!(can_combine(&no_new_vertex, &with_bones));
}

#[test]
fn each_corner_belongs_to_its_face() {
    // A triangle, then a quad; corners past the faces go to the last face.
    assert_eq!(corner_faces(&vec![3, 4], 9), vec![0, 0, 0, 1, 1, 1, 1, 1, 1]);
    assert_eq!(corner_faces(&vec![4, 3, 3], 10), vec![0, 0, 0, 0, 1, 1, 1, 2, 2, 2]);
}

/// When a vertex is reused, the tangents of the faces of all of its corners are summed.
#[test]
fn calculate_per_vertex_tangents_encountered_duplicate_data() {
    let quad = vec![0, 1, 2, 3];
    let mut mesh = BlenderMesh {
        multi_indexed_vertex_attributes: Multi {
            positions: [v(0), vec![1.0, 0.0, 0.0], vec![1.0, 1.0, 0.0], vec![0., 1., 0.]].concat(),
            normals: [v(4), v(5), v(6), v(7)].concat(),
            faces: vec![4, 4, 4, 4],
            position_indices: quad.repeat(4),
            normal_indices: quad.repeat(4),
            uvs: Some(([v2(0), vec![0.5, 0.0], v2(1), vec![0., 1.]].concat(), quad.repeat(4))),
            ..Multi::default()
        }
        .build(),
        ..BlenderMesh::default()
    };
    // The first three corners of each face, whose positions and uvs give the face's tangent.
    let corners = match mesh.face_tangent_corners() {
        Ok(c) => c,
        Err(_) => unreachable!(),
    };
    assert_eq!(corners, vec![([0, 1, 2], [0, 1, 2]); 4]);

    // Each face's tangent is [2., 0., 0.]; every vertex is used by one corner of each face.
    let face_tangents = [2.0f32, 0.0, 0.0].repeat(4);
    let faces_by_vertex = mesh.vertex_tangent_faces();
    assert_eq!(faces_by_vertex, vec![vec![0, 1, 2, 3]; 4]);
    let mut vertex_tangents = vec![];
    for faces in &faces_by_vertex {
        let mut sum = [0.0f32; 3];
        for f in faces {
            for k in 0..3 {
                sum[k] += face_tangents[f * 3 + k];
            }
        }
        vertex_tangents.extend(bits(&sum));
    }

    let config = CreateSingleIndexConfig { bone_influences_per_vertex: None, calculate_face_tangents: true };
    let combined = mesh.combine_vertex_indices(&config, Some(vertex_tangents));

    let mut expected = single(
        [0, 1, 2, 0, 2, 3].repeat(4),
        vec![0.0, 0.0, 0.0, 1.0, 0.0, 0.0, 1.0, 1.0, 0.0, 0.0, 1.0, 0.0],
        vec![4.0, 4.0, 4.0, 5.0, 5.0, 5.0, 6.0, 6.0, 6.0, 7.0, 7.0, 7.0],
        Some(vec![0.0, 0.0, 0.5, 0.0, 1.0, 1.0, 0.0, 1.0]),
        None,
    );
    // 4 duplicate vertices, each with [2., 0., 0.] as the tangent: combined [8., 0., 0.].
    for vertex in expected.vertices.iter_mut() {
        vertex.face_tangent = Some([8.0f32.to_bits(), 0, 0]);
    }
    assert_eq!(combined, expected);
}
