use landon::armature::BlenderArmature;
use landon::float_bits::negate;
use landon::mesh::multi_indexed::{IndexedAttribute, MultiIndexedVertexAttributes};
use landon::mesh::vertex_attribute::VertexAttribute;
use landon::mesh::weighted_normals::{connected_corners, group_corners_by_position};
use landon::mesh::{BlenderMesh, BoundingBox};
use landon::str_map::StrMap;

fn bits(values: &[f32]) -> Vec<u32> {
    values.iter().map(|x| x.to_bits()).collect()
}

#[test]
fn set_name_then_read_it_back() {
    let mut armature = BlenderArmature::default();
    armature.set_name("Some Name".to_string());

    assert_eq!(armature.name(), "Some Name");
}

#[test]
fn bone_group_is_read_back_after_creating_it() {
    let mut armature = BlenderArmature::default();
    armature.create_bone_group("My bone group".to_string(), vec![3, 1]);
    armature.create_bone_group("Other".to_string(), vec![]);

    assert_eq!(armature.bone_groups().get(&"My bone group".to_string()), Some(&vec![3, 1]));
    assert_eq!(armature.bone_groups().get(&"Other".to_string()), Some(&vec![]));
    assert_eq!(armature.bone_groups().get(&"Missing".to_string()), None);
}

#[test]
fn str_map_reads_back_what_was_written() {
    let mut map: StrMap<u32> = StrMap::new();
    map.insert("b".to_string(), 1);
    map.insert("a".to_string(), 2);
    map.insert("b".to_string(), 3);

    assert_eq!(map.len(), 2);
    assert_eq!(map.get(&"b".to_string()), Some(&3));
    assert_eq!(map.get(&"a".to_string()), Some(&2));
    // A replaced key keeps its place.
    assert_eq!(map.entries()[0], ("b".to_string(), 3));
    assert_eq!(map.entries()[1], ("a".to_string(), 2));

    assert_eq!(map.remove(&"b".to_string()), Some(3));
    assert_eq!(map.remove(&"b".to_string()), None);
    assert!(!map.contains_key(&"b".to_string()));
    assert_eq!(map.len(), 1);
}

#[test]
fn negating_twice_gives_the_bits_back() {
    for x in [0.0f32, -0.0, 1.5, -2.25, f32::INFINITY, f32::NAN] {
        assert_eq!(negate(negate(x.to_bits())), x.to_bits());
        assert_eq!(f32::from_bits(negate(x.to_bits())).to_bits(), (-x).to_bits());
    }
}

#[test]
fn four_y_up_turns_give_the_mesh_back() {
    let start = BlenderMesh {
        multi_indexed_vertex_attributes: MultiIndexedVertexAttributes {
            positions: IndexedAttribute {
                indices: vec![0, 1],
                attribute: VertexAttribute { data: bits(&[0.5, 1.0, -2.0, 3.0, -0.0, 4.0]), attribute_size: 3 },
            },
            normals: Some(IndexedAttribute {
                indices: vec![0, 0],
                attribute: VertexAttribute { data: bits(&[0.0, 1.0, 0.0]), attribute_size: 3 },
            }),
            ..MultiIndexedVertexAttributes::default()
        },
        bounding_box: BoundingBox {
            min_corner: [1.0f32.to_bits(), 2.0f32.to_bits(), 3.0f32.to_bits()],
            max_corner: [5.0f32.to_bits(), 6.0f32.to_bits(), 7.0f32.to_bits()],
        },
        ..BlenderMesh::default()
    };

    let mut mesh = start.clone();
    mesh.y_up();
    assert_ne!(mesh, start);
    mesh.y_up();
    mesh.y_up();
    mesh.y_up();

    assert_eq!(mesh, start);
}

#[test]
fn pbr_cube_has_six_quads_over_eight_corners() {
    let cube = BlenderMesh::pbr_cube_without_textures();
    let multi = &cube.multi_indexed_vertex_attributes;

    assert_eq!(cube.name, "CubeWithoutTextures");
    assert_eq!(multi.vertices_in_each_face, vec![4; 6]);
    assert_eq!(multi.positions.indices.len(), 24);
    assert_eq!(multi.positions.attribute.data.len(), 24);
    assert!(multi.uvs.is_none());
    assert!(cube.materials.get(&"Default".to_string()).is_some());
    assert_eq!(cube.bounding_box.min_corner, [(-1.0f32).to_bits(); 3]);
    assert_eq!(cube.bounding_box.max_corner, [1.0f32.to_bits(); 3]);
}

#[test]
fn corners_at_one_position_share_a_group() {
    // Positions 0 and 2 are at the same place.
    let positions = bits(&[0.0, 0.0, 0.0, 1.0, 0.0, 0.0, 0.0, 0.0, 0.0, 0.0, 1.0, 0.0]);
    let indices = vec![0, 1, 3, 2, 3, 1];

    let groups = group_corners_by_position(&indices, &positions);

    assert_eq!(groups.first_corners, vec![0, 1, 2]);
    assert_eq!(groups.group_of_corner, vec![0, 1, 2, 0, 2, 1]);
}

#[test]
fn connected_corners_are_the_rest_of_the_triangle() {

    assert_eq!(connected_corners(0), (1, 2));
    assert_eq!(connected_corners(4), (3, 5));
    assert_eq!(connected_corners(8), (6, 7));
}

#[test]
fn triangulating_twice_changes_nothing() {
    let mut mesh = BlenderMesh {
        multi_indexed_vertex_attributes: MultiIndexedVertexAttributes {
            vertices_in_each_face: vec![4, 3, 4],
            positions: IndexedAttribute {
                indices: vec![0, 1, 2, 3, 4, 5, 6, 7, 8, 9, 10],
                attribute: VertexAttribute { data: vec![0; 33], attribute_size: 3 },
            },
            ..MultiIndexedVertexAttributes::default()
        },
        ..BlenderMesh::default()
    };
    mesh.triangulate();
    let once = mesh.clone();
    assert_eq!(once.multi_indexed_vertex_attributes.vertices_in_each_face, vec![3; 5]);
    assert_eq!(
        once.multi_indexed_vertex_attributes.positions.indices,
        vec![0, 1, 2, 0, 2, 3, 4, 5, 6, 7, 8, 9, 7, 9, 10]
    );
    mesh.triangulate();
    assert_eq!(mesh, once);
}

#[test]
fn custom_properties_can_be_changed_in_place() {
    let mut mesh = BlenderMesh::default();
    mesh.custom_properties_mut().insert("answer".to_string(), landon::mesh::CustomProperty::Int(42));
    assert_eq!(mesh.custom_properties().len(), 1);
}
