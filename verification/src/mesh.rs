//! Meshes: vertices and data about those vertices, such as their normals or uv coordinates,
//! together with metadata such as the name of the mesh's parent armature.
pub mod vertex_attribute;
pub mod multi_indexed;
pub mod single_indexed;
pub mod material;
pub mod triangulate;
pub mod interleave;
pub mod combine;
pub mod can_combine;
pub mod export;
pub mod tangent;
pub mod weighted_normals;
pub mod create_mesh;
pub mod y_up;

use vstd::prelude::*;
use crate::str_map::StrMap;
use crate::mesh::material::PrincipledBSDF;
use crate::mesh::multi_indexed::MultiIndexedVertexAttributes;

verus! {

/// Something went wrong in the Blender child process that was exporting meshes: Blender wrote
/// this to stderr.
#[derive(Debug, PartialEq, Clone)]
pub enum BlenderError {
    /// The stderr output of Blender.
    Stderr(String),
}

/// The bounding box that encompasses a mesh (corners as bits of `f32`s, `[x, y, z]`).
#[derive(Debug, PartialEq, Clone, Copy, Default)]
pub struct BoundingBox {
    /// The corner with the lowest x, y and z values.
    pub min_corner: [u32; 3],
    /// The corner with the greatest x, y and z values.
    pub max_corner: [u32; 3],
}

/// A Blender custom property.
#[derive(Debug, PartialEq, Clone)]
pub enum CustomProperty {
    /// A float (its bits).
    Float(u32),
    /// An integer.
    Int(i32),
    /// A string.
    String(String),
}

/// All of the data about a mesh.
#[derive(Debug, PartialEq, Clone, Default)]
pub struct BlenderMesh {
    /// The name of the mesh.
    pub name: String,
    /// The name of the mesh's parent armature.
    pub armature_name: Option<String>,
    /// The smallest box that contains the entire mesh.
    pub bounding_box: BoundingBox,
    /// The vertex data, one index buffer per attribute.
    pub multi_indexed_vertex_attributes: MultiIndexedVertexAttributes,
    /// Material name to material data.
    pub materials: StrMap<PrincipledBSDF>,
    /// Custom properties of the mesh.
    pub custom_properties: StrMap<CustomProperty>,
}

impl BlenderMesh {
    /// The name of this mesh's parent armature.
    pub fn armature_name(&self) -> (r: Option<&String>)
        ensures
            r == match &self.armature_name {
                Some(n) => Some(n),
                None => None::<&String>,
            },
    {
        self.armature_name.as_ref()
    }

    /// Set the name of this mesh's parent armature.
    pub fn set_armature_name(&mut self, armature_name: Option<String>)
        ensures
            *final(self) == (BlenderMesh { armature_name, ..*old(self) }),
    {
        self.armature_name = armature_name;
    }

    /// A map of material name to the material's data.
    pub fn materials(&self) -> (r: &StrMap<PrincipledBSDF>)
        ensures
            *r == self.materials,
    {
        &self.materials
    }

    /// The materials of the mesh, to change them.
    pub fn materials_mut(&mut self) -> (r: &mut StrMap<PrincipledBSDF>)
        ensures
            *r == old(self).materials,
            *final(self) == (BlenderMesh { materials: *final(r), ..*old(self) }),
    {
        &mut self.materials
    }

    /// Custom properties for this mesh.
    pub fn custom_properties(&self) -> (r: &StrMap<CustomProperty>)
        ensures
            *r == self.custom_properties,
    {
        &self.custom_properties
    }

    /// Custom properties for this mesh, to change them.
    pub fn custom_properties_mut(&mut self) -> (r: &mut StrMap<CustomProperty>)
        ensures
            *r == old(self).custom_properties,
            *final(self) == (BlenderMesh { custom_properties: *final(r), ..*old(self) }),
    {
        &mut self.custom_properties
    }

    /// The smallest box that contains the entire mesh.
    pub fn bounding_box(&self) -> (r: BoundingBox)
        ensures
            r == self.bounding_box,
    {
        self.bounding_box
    }

    /// Set the mesh's bounding box.
    pub fn set_bounding_box(&mut self, bounding_box: BoundingBox)
        ensures
            *final(self) == (BlenderMesh { bounding_box, ..*old(self) }),
    {
        self.bounding_box = bounding_box;
    }

    /// The name of the mesh.
    pub fn name(&self) -> (r: &String)
        ensures
            *r == self.name,
    {
        &self.name
    }

    /// Set the name of the mesh.
    pub fn set_name(&mut self, name: String)
        ensures
            *final(self) == (BlenderMesh { name, ..*old(self) }),
    {
        self.name = name;
    }
}

} // verus!

