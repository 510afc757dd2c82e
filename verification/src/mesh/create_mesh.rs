//! Meshes made from scratch.
use vstd::prelude::*;
use crate::mesh::{BlenderMesh, BoundingBox};
use crate::mesh::material::{MaterialInput, PrincipledBSDF};
use crate::mesh::multi_indexed::{IndexedAttribute, MultiIndexedVertexAttributes};
use crate::mesh::vertex_attribute::VertexAttribute;
use crate::str_map::StrMap;

verus! {

/// The position indices of the cube's six quads.
pub open spec fn cube_position_indices() -> Seq<u16> {
    seq![0, 1, 2, 3, 4, 7, 6, 5, 0, 4, 5, 1, 1, 5, 6, 2, 2, 6, 7, 3, 4, 0, 3, 7]
}

/// The bits of the cube's corner positions (each coordinate is 1.0 or -1.0).
pub open spec fn cube_positions() -> Seq<u32> {
    seq![
        0x3f80_0000, 0x3f80_0000, 0xbf80_0000,
        0x3f80_0000, 0xbf80_0000, 0xbf80_0000,
        0xbf80_0000, 0xbf80_0000, 0xbf80_0000,
        0xbf80_0000, 0x3f80_0000, 0xbf80_0000,
        0x3f80_0000, 0x3f80_0000, 0x3f80_0000,
        0x3f80_0000, 0xbf80_0000, 0x3f80_0000,
        0xbf80_0000, 0xbf80_0000, 0x3f80_0000,
        0xbf80_0000, 0x3f80_0000, 0x3f80_0000,
    ]
}

/// The normal index of each corner: one normal per face.
pub open spec fn cube_normal_indices() -> Seq<u16> {
    seq![0, 0, 0, 0, 1, 1, 1, 1, 2, 2, 2, 2, 3, 3, 3, 3, 4, 4, 4, 4, 5, 5, 5, 5]
}

/// The bits of the cube's six face normals.
pub open spec fn cube_normals() -> Seq<u32> {
    seq![
        0, 0, 0xbf80_0000,
        0, 0, 0x3f80_0000,
        0x3f80_0000, 0, 0,
        0, 0xbf80_0000, 0,
        0xbf80_0000, 0, 0,
        0, 0x3f80_0000, 0,
    ]
}

impl BlenderMesh {
    /// A default Blender cube with uniform PBR material inputs: a 2x2x2 cube centered about the
    /// origin, with six quads, one normal per face, a material named "Default" (base color
    /// `[0.4, 0.5, 0.6]`, roughness 0.2, metallic 0.3) and no uvs or bones.
    pub fn pbr_cube_without_textures() -> (r: Self)
        ensures
            r.name@ == "CubeWithoutTextures"@,
            r.armature_name is None,
            r.bounding_box.min_corner@ == seq![0xbf80_0000u32, 0xbf80_0000u32, 0xbf80_0000u32],
            r.bounding_box.max_corner@ == seq![0x3f80_0000u32, 0x3f80_0000u32, 0x3f80_0000u32],
            r.multi_indexed_vertex_attributes.vertices_in_each_face@ == seq![4u8, 4, 4, 4, 4, 4],
            r.multi_indexed_vertex_attributes.positions.indices@ == cube_position_indices(),
            r.multi_indexed_vertex_attributes.positions.attribute.data@ == cube_positions(),
            r.multi_indexed_vertex_attributes.positions.attribute.attribute_size == 3,
            r.multi_indexed_vertex_attributes.normals matches Some(n) && n.indices@
                == cube_normal_indices() && n.attribute.data@ == cube_normals()
                && n.attribute.attribute_size == 3,
            r.multi_indexed_vertex_attributes.uvs is None,
            r.multi_indexed_vertex_attributes.bone_influences is None,
            r.materials.contents().dom() == set!["Default"@],
            r.materials.contents()["Default"@].base_color == MaterialInput::<[u32; 3], String>::Uniform(
                [0x3ecc_cccdu32, 0x3f00_0000u32, 0x3f19_999au32],
            ),
            r.materials.contents()["Default"@].roughness == MaterialInput::<
                u32,
                (String, crate::mesh::material::Channel),
            >::Uniform(0x3e4c_cccdu32),
            r.materials.contents()["Default"@].metallic == MaterialInput::<
                u32,
                (String, crate::mesh::material::Channel),
            >::Uniform(0x3e99_999au32),
            r.materials.contents()["Default"@].normal_map is None,
            r.custom_properties.contents() == Map::<Seq<char>, crate::mesh::CustomProperty>::empty(),
    {
        let mut materials: StrMap<PrincipledBSDF> = StrMap::new();
        materials.insert(
            String::from_str("Default"),
            PrincipledBSDF {
                base_color: MaterialInput::Uniform([0x3ecc_cccd, 0x3f00_0000, 0x3f19_999a]),
                roughness: MaterialInput::Uniform(0x3e4c_cccd),
                metallic: MaterialInput::Uniform(0x3e99_999a),
                normal_map: None,
            },
        );
        let position_indices: Vec<u16> = vec![
            0, 1, 2, 3, 4, 7, 6, 5, 0, 4, 5, 1, 1, 5, 6, 2, 2, 6, 7, 3, 4, 0, 3, 7,
        ];
        let positions: Vec<u32> = vec![
            0x3f80_0000, 0x3f80_0000, 0xbf80_0000,
            0x3f80_0000, 0xbf80_0000, 0xbf80_0000,
            0xbf80_0000, 0xbf80_0000, 0xbf80_0000,
            0xbf80_0000, 0x3f80_0000, 0xbf80_0000,
            0x3f80_0000, 0x3f80_0000, 0x3f80_0000,
            0x3f80_0000, 0xbf80_0000, 0x3f80_0000,
            0xbf80_0000, 0xbf80_0000, 0x3f80_0000,
            0xbf80_0000, 0x3f80_0000, 0x3f80_0000,
        ];
        let normal_indices: Vec<u16> = vec![
            0, 0, 0, 0, 1, 1, 1, 1, 2, 2, 2, 2, 3, 3, 3, 3, 4, 4, 4, 4, 5, 5, 5, 5,
        ];
        let normals: Vec<u32> = vec![
            0, 0, 0xbf80_0000,
            0, 0, 0x3f80_0000,
            0x3f80_0000, 0, 0,
            0, 0xbf80_0000, 0,
            0xbf80_0000, 0, 0,
            0, 0x3f80_0000, 0,
        ];
        assert(position_indices@ =~= cube_position_indices());
        assert(positions@ =~= cube_positions());
        assert(normal_indices@ =~= cube_normal_indices());
        assert(normals@ =~= cube_normals());
        let multi_indexed_vertex_attributes = MultiIndexedVertexAttributes {
            vertices_in_each_face: vec![4, 4, 4, 4, 4, 4],
            positions: IndexedAttribute::new(position_indices, VertexAttribute::new(positions, 3).unwrap()),
            normals: Some(IndexedAttribute::new(normal_indices, VertexAttribute::new(normals, 3).unwrap())),
            uvs: None,
            bone_influences: None,
        };
        proof {
            assert(materials.contents().dom() =~= set!["Default"@]);
        }
        let r = BlenderMesh {
            name: String::from_str("CubeWithoutTextures"),
            armature_name: None,
            bounding_box: BoundingBox {
                min_corner: [0xbf80_0000, 0xbf80_0000, 0xbf80_0000],
                max_corner: [0x3f80_0000, 0x3f80_0000, 0x3f80_0000],
            },
            multi_indexed_vertex_attributes,
            materials,
            custom_properties: StrMap::new(),
        };
        assert(r.multi_indexed_vertex_attributes.vertices_in_each_face@ =~= seq![4u8, 4, 4, 4, 4, 4]);
        assert(r.bounding_box.min_corner@ =~= seq![0xbf80_0000u32, 0xbf80_0000u32, 0xbf80_0000u32]);
        assert(r.bounding_box.max_corner@ =~= seq![0x3f80_0000u32, 0x3f80_0000u32, 0x3f80_0000u32]);
        r
    }
}

} // verus!
