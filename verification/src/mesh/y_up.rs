//! Turning a mesh exported Z up into a Y up mesh.
use vstd::prelude::*;
use crate::float_bits::{negate, spec_negate};
use crate::mesh::BlenderMesh;

verus! {

/// The data of 3-value vertices turned from Z up to Y up: `[x, y, z]` becomes `[x, z, -y]`;
/// values after the last whole vertex stay as they are.
pub open spec fn y_up_data(d: Seq<u32>) -> Seq<u32> {
    Seq::new(
        d.len(),
        |i: int|
            if i < (d.len() / 3) * 3 {
                if i % 3 == 1 {
                    d[i + 1]
                } else if i % 3 == 2 {
                    spec_negate(d[i - 1])
                } else {
                    d[i]
                }
            } else {
                d[i]
            },
    )
}

/// A corner `[x, y, z]` turned from Z up to Y up: `[x, z, -y]`.
pub open spec fn y_up_corner(c: Seq<u32>) -> Seq<u32> {
    seq![c[0], c[2], spec_negate(c[1])]
}

/// Turning data from Z up to Y up four times gives it back.
pub proof fn lemma_y_up_four_times(d: Seq<u32>)
    ensures
        y_up_data(y_up_data(y_up_data(y_up_data(d)))) == d,
{
    let d1 = y_up_data(d);
    let d2 = y_up_data(d1);
    let d3 = y_up_data(d2);
    let d4 = y_up_data(d3);
    assert forall|i: int| 0 <= i < d.len() implies d4[i] == d[i] by {
        if i < (d.len() / 3) * 3 {
            if i % 3 == 0 {
            } else if i % 3 == 1 {
                assert(i + 1 < (d.len() / 3) * 3);
                assert((i + 1) % 3 == 2);
                assert((i + 1) - 1 == i);
            } else {
                assert(i - 1 >= 0);
                assert((i - 1) % 3 == 1);
            }
        }
    }
    assert(d4 =~= d);
}

/// Turn 3-value vertex data from Z up to Y up.
fn y_up_values(data: &mut Vec<u32>)
    ensures
        final(data)@ == y_up_data(old(data)@),
{
    let ghost start = data@;
    let len = data.len();
    let n = len / 3;
    let mut v: usize = 0;
    while v < n
        invariant
            len == start.len(),
            n == start.len() / 3,
            data@.len() == start.len(),
            v <= n,
            forall|i: int| 3 * v <= i < start.len() ==> #[trigger] data@[i] == start[i],
            forall|i: int| 0 <= i < 3 * v ==> #[trigger] data@[i] == y_up_data(start)[i],
        decreases n - v,
    {
        let y_index = v * 3 + 1;
        let z_index = y_index + 1;
        let new_z = negate(data[y_index]);
        let z = data[z_index];
        data.set(y_index, z);
        data.set(z_index, new_z);
        proof {
            assert forall|i: int| 0 <= i < 3 * (v + 1) implies #[trigger] data@[i] == y_up_data(start)[i] by {
                if i >= 3 * v {
                    assert(i < (start.len() / 3) * 3);
                    assert(i % 3 == i - 3 * v);
                }
            }
        }
        v = v + 1;
    }
    assert(data@ =~= y_up_data(start));
}

impl BlenderMesh {
    /// Blender meshes get exported with a Z up coordinate system; flip the positions, the
    /// normals and the bounding box to be Y up: `[x, y, z]` becomes `[x, z, -y]`.
    pub fn y_up(&mut self)
        ensures
            final(self).multi_indexed_vertex_attributes.positions.attribute.data@ == y_up_data(
                old(self).multi_indexed_vertex_attributes.positions.attribute.data@,
            ),
            final(self).multi_indexed_vertex_attributes.positions.indices
                == old(self).multi_indexed_vertex_attributes.positions.indices,
            final(self).multi_indexed_vertex_attributes.positions.attribute.attribute_size
                == old(self).multi_indexed_vertex_attributes.positions.attribute.attribute_size,
            match old(self).multi_indexed_vertex_attributes.normals {
                Some(a) => final(self).multi_indexed_vertex_attributes.normals matches Some(b)
                    && b.attribute.data@ == y_up_data(a.attribute.data@) && b.indices == a.indices
                    && b.attribute.attribute_size == a.attribute.attribute_size,
                None => final(self).multi_indexed_vertex_attributes.normals is None,
            },
            final(self).multi_indexed_vertex_attributes.uvs
                == old(self).multi_indexed_vertex_attributes.uvs,
            final(self).multi_indexed_vertex_attributes.bone_influences
                == old(self).multi_indexed_vertex_attributes.bone_influences,
            final(self).multi_indexed_vertex_attributes.vertices_in_each_face
                == old(self).multi_indexed_vertex_attributes.vertices_in_each_face,
            final(self).bounding_box.min_corner@ == y_up_corner(old(self).bounding_box.min_corner@),
            final(self).bounding_box.max_corner@ == y_up_corner(old(self).bounding_box.max_corner@),
            final(self).name == old(self).name,
            final(self).armature_name == old(self).armature_name,
            final(self).materials == old(self).materials,
            final(self).custom_properties == old(self).custom_properties,
    {
        y_up_values(&mut self.multi_indexed_vertex_attributes.positions.attribute.data);
        match &mut self.multi_indexed_vertex_attributes.normals {
            Some(n) => {
                y_up_values(&mut n.attribute.data);
            },
            None => {},
        }
        let min = self.bounding_box.min_corner;
        let new_min = [min[0], min[2], negate(min[1])];
        assert(new_min@ =~= y_up_corner(min@));
        self.bounding_box.min_corner = new_min;
        let max = self.bounding_box.max_corner;
        let new_max = [max[0], max[2], negate(max[1])];
        assert(new_max@ =~= y_up_corner(max@));
        self.bounding_box.max_corner = new_max;
    }
}

} // verus!
