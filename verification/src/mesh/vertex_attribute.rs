//! Per vertex data such as positions, normals or uvs.
use vstd::prelude::*;

verus! {

/// Data for an individual vertex attribute such as positions, normals or uvs.
///
/// For example, the data `[0., 10., 2., 65.2, 4., 5.]` with an attribute size of three holds
/// data for two vertices, `(0., 10., 2.)` and `(65.2, 4., 5.)`.
///
/// Float data is held as the bits of each `f32`.
#[derive(Debug, PartialEq, Clone, Default)]
pub struct VertexAttribute<T> {
    /// The values, `attribute_size` of them per vertex.
    pub data: Vec<T>,
    /// The number of values per vertex.
    pub attribute_size: u8,
}

/// Used for vertex skinning: which bones influence each vertex, and by how much.
#[derive(Debug, PartialEq, Clone, Default)]
pub struct BoneAttributes {
    /// The indices of the bones that influence each vertex.
    pub bone_influencers: VertexAttribute<u8>,
    /// The weight (bits of an `f32`) of each bone influencer.
    pub bone_weights: VertexAttribute<u32>,
}

/// The `attribute_size` values of vertex `vertex_idx` in `data`.
pub open spec fn spec_data_at<T>(data: Seq<T>, attribute_size: int, vertex_idx: int) -> Seq<T> {
    data.subrange(vertex_idx * attribute_size, vertex_idx * attribute_size + attribute_size)
}

impl<T> VertexAttribute<T> {
    /// Create a vertex attribute.
    ///
    /// Always succeeds, for data that is not empty: the size is not checked against the data.
    pub fn new(data: Vec<T>, attribute_size: u8) -> (r: Result<VertexAttribute<T>, ()>)
        requires
            data@.len() > 0,
        ensures
            r matches Ok(a) && a.data@ == data@ && a.attribute_size == attribute_size,
    {
        Ok(VertexAttribute { data, attribute_size })
    }

    /// The underlying values.
    pub fn as_slice(&self) -> (s: &[T])
        ensures
            s@ == self.data@,
    {
        self.data.as_slice()
    }

    /// The number of values per vertex.
    ///
    /// Typically positions and normals have a size of 3 (x, y, z) and uvs a size of 2 (u, v).
    pub fn attribute_size(&self) -> (n: u8)
        ensures
            n == self.attribute_size,
    {
        self.attribute_size
    }

    /// The underlying data for this attribute, useful for buffering vertex data onto the GPU.
    pub fn data(&self) -> (d: &Vec<T>)
        ensures
            d@ == self.data@,
    {
        &self.data
    }

    /// Push a value to the end of the data.
    pub fn push(&mut self, val: T)
        ensures
            final(self).data@ == old(self).data@.push(val),
            final(self).attribute_size == old(self).attribute_size,
    {
        self.data.push(val)
    }
}

impl<T: Copy> VertexAttribute<T> {
    /// The values of the vertex with index `vertex_idx`.
    pub fn data_at_idx(&self, vertex_idx: u16) -> (out: Vec<T>)
        requires
            (vertex_idx + 1) * self.attribute_size <= self.data@.len(),
        ensures
            out@ == spec_data_at(self.data@, self.attribute_size as int, vertex_idx as int),
    {
        let size = self.attribute_size as usize;
        let len = self.data.len();
        proof {
            assert((vertex_idx as int) * size + size == (vertex_idx + 1) * size) by (nonlinear_arith);
            assert(0 <= (vertex_idx as int) * size) by (nonlinear_arith);
        }
        let start = vertex_idx as usize * size;
        let mut out: Vec<T> = Vec::new();
        let mut i: usize = 0;
        while i < size
            invariant
                size == self.attribute_size,
                start == vertex_idx * size,
                start + size <= self.data@.len(),
                self.data@.len() <= usize::MAX,
                i <= size,
                out@ == self.data@.subrange(start as int, start + i),
            decreases size - i,
        {
            out.push(self.data[start + i]);
            i = i + 1;
            assert(out@ =~= self.data@.subrange(start as int, start + i));
        }
        out
    }

    /// Set the values of vertex `idx` of an attribute with 3 values per vertex.
    pub fn set_three_components(&mut self, idx: usize, comp1: T, comp2: T, comp3: T)
        requires
            idx * 3 + 3 <= old(self).data@.len(),
        ensures
            final(self).attribute_size == old(self).attribute_size,
            final(self).data@ == old(self).data@.update(idx * 3, comp1).update(idx * 3 + 1, comp2).update(
                idx * 3 + 2,
                comp3,
            ),
    {
        let len = self.data.len();
        assert(idx * 3 + 3 <= len);
        self.data.set(idx * 3, comp1);
        self.data.set(idx * 3 + 1, comp2);
        self.data.set(idx * 3 + 2, comp3);
    }

    /// Set the values of vertex `idx` of an attribute with 2 values per vertex.
    pub fn set_two_components(&mut self, idx: usize, comp1: T, comp2: T)
        requires
            idx * 2 + 2 <= old(self).data@.len(),
        ensures
            final(self).attribute_size == old(self).attribute_size,
            final(self).data@ == old(self).data@.update(idx * 2, comp1).update(idx * 2 + 1, comp2),
    {
        let len = self.data.len();
        assert(idx * 2 + 2 <= len);
        self.data.set(idx * 2, comp1);
        self.data.set(idx * 2 + 1, comp2);
    }
}

/// The number of values per vertex of an attribute: two (uvs) or three (positions, normals).
#[derive(Debug, PartialEq, Eq, Structural, Clone, Copy)]
pub enum AttributeSize {
    /// Two values per vertex.
    Two,
    /// Three values per vertex.
    Three,
}

impl AttributeSize {
    /// The number of values per vertex.
    pub fn value(&self) -> (n: u8)
        ensures
            n == match self {
                AttributeSize::Two => 2u8,
                AttributeSize::Three => 3u8,
            },
    {
        match self {
            AttributeSize::Two => 2,
            AttributeSize::Three => 3,
        }
    }
}

impl Default for AttributeSize {
    fn default() -> (r: Self)
        ensures
            r == AttributeSize::Three,
    {
        AttributeSize::Three
    }
}

} // verus!
