//! Material data for a mesh, read from the first Principled BSDF node of a Blender material.
use vstd::prelude::*;

verus! {

/// An input to a material property: a value uniform across the mesh, or a texture.
#[derive(Debug, PartialEq, Clone)]
pub enum MaterialInput<U, I> {
    /// A value that is the same for all vertices / fragments of the mesh.
    Uniform(U),
    /// The name (without its path) of the texture image from an image texture node.
    ImageTexture(I),
}

/// An individual channel of an image: red, green or blue.
#[derive(Debug, PartialEq, Eq, Copy, Clone)]
pub enum Channel {
    /// The red channel.
    Red,
    /// The green channel.
    Green,
    /// The blue channel.
    Blue,
}

/// Material data for a mesh (floats as their bits).
#[derive(Debug, PartialEq, Clone)]
pub struct PrincipledBSDF {
    /// `[r, g, b]`
    pub base_color: MaterialInput<[u32; 3], String>,
    /// The roughness.
    pub roughness: MaterialInput<u32, (String, Channel)>,
    /// How metallic the material is.
    pub metallic: MaterialInput<u32, (String, Channel)>,
    /// The filename of the material's normal map.
    pub normal_map: Option<String>,
}

impl PrincipledBSDF {
    /// The base color of the material.
    pub fn base_color(&self) -> (r: &MaterialInput<[u32; 3], String>)
        ensures
            *r == self.base_color,
    {
        &self.base_color
    }

    /// The roughness of the material.
    pub fn roughness(&self) -> (r: &MaterialInput<u32, (String, Channel)>)
        ensures
            *r == self.roughness,
    {
        &self.roughness
    }

    /// How metallic the material is. Most materials should be 0.0 or 1.0.
    pub fn metallic(&self) -> (r: &MaterialInput<u32, (String, Channel)>)
        ensures
            *r == self.metallic,
    {
        &self.metallic
    }

    /// The normal map.
    pub fn normal_map(&self) -> (r: Option<&String>)
        ensures
            r == match &self.normal_map {
                Some(n) => Some(n),
                None => None::<&String>,
            },
    {
        self.normal_map.as_ref()
    }
}

} // verus!
