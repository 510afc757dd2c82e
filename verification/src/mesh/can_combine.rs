//! Whether a mesh's vertex data can be combined into a single index.
use vstd::prelude::*;
use crate::float_bits::{is_nan, spec_is_nan};
use crate::mesh::combine::{
    attribute_indices_fit, combinable, combine_corners, corners_fit, largest_index,
    mesh_combine_state, CreateSingleIndexConfig,
};
use crate::mesh::multi_indexed::{
    group_pairs, group_start, influences_normalizable, lemma_normalized_len, lemma_sum_take_le,
    lemma_sum_take_step, normalized_bone_indices, normalized_influence_pairs, sum_counts,
    BoneInfluences, BoneInfluencesPerVertex, IndexedAttribute, MultiIndexedVertexAttributes,
};
use crate::mesh::triangulate::faces_triangulable;

verus! {

/// Whether the first `n` indices of the attribute point inside its data, `size` values per
/// vertex.
fn attribute_fits(a: &IndexedAttribute, size: u8, n: usize) -> (b: bool)
    ensures
        b == attribute_indices_fit(*a, size as int, n as int),
{
    if a.attribute.attribute_size != size || a.indices.len() < n {
        return false;
    }
    let mut i: usize = 0;
    while i < n
        invariant
            i <= n,
            n <= a.indices@.len(),
            a.attribute.attribute_size == size,
            forall|j: int|
                0 <= j < i ==> (#[trigger] a.indices@[j] + 1) * size <= a.attribute.data@.len(),
        decreases n - i,
    {
        let idx = a.indices[i] as usize;
        assert((idx + 1) * size <= 65536 * 255) by (nonlinear_arith)
            requires
                idx < 65536,
                size < 256,
        ;
        if (idx + 1) * (size as usize) > a.attribute.data.len() {
            return false;
        }
        i = i + 1;
    }
    true
}

/// The sum of the counts.
fn counts_sum(counts: &Vec<u8>) -> (total: u128)
    ensures
        total == sum_counts(counts@),
{
    let mut total: u128 = 0;
    let mut i: usize = 0;
    assert(counts@.take(0) =~= Seq::<u8>::empty());
    while i < counts.len()
        invariant
            i <= counts@.len(),
            total == sum_counts(counts@.take(i as int)),
            total <= 255 * i,
        decreases counts@.len() - i,
    {
        proof {
            lemma_sum_take_step(counts@, i as int);
        }
        total = total + counts[i] as u128;
        i = i + 1;
    }
    assert(counts@.take(counts@.len() as int) =~= counts@);
    total
}

/// Whether every face has 3 or 4 vertices and the faces' corners lie inside `n` indices.
fn faces_fit(faces: &Vec<u8>, n: usize) -> (b: bool)
    ensures
        b == faces_triangulable(faces@, n as int),
{
    let mut i: usize = 0;
    while i < faces.len()
        invariant
            i <= faces@.len(),
            forall|f: int| 0 <= f < i ==> (#[trigger] faces@[f] == 3 || faces@[f] == 4),
        decreases faces@.len() - i,
    {
        if faces[i] != 3 && faces[i] != 4 {
            return false;
        }
        i = i + 1;
    }
    counts_sum(faces) <= n as u128
}

/// Whether one of the `c` weights from `start` on is NaN.
fn any_nan(weights: &Vec<u32>, start: usize, c: usize) -> (b: bool)
    requires
        start + c <= weights.len(),
    ensures
        b == exists|k: int| 0 <= k < c && spec_is_nan(#[trigger] weights@[start + k]),
{
    let mut k: usize = 0;
    while k < c
        invariant
            k <= c,
            start + c <= weights.len(),
            forall|j: int| 0 <= j < k ==> !spec_is_nan(#[trigger] weights@[start + j]),
        decreases c - k,
    {
        if is_nan(weights[start + k]) {
            return true;
        }
        k = k + 1;
    }
    false
}

/// Whether no weight that normalizing has to sort is NaN.
fn weights_sortable(counts: &Vec<u8>, weights: &Vec<u32>, indices: &Vec<u8>) -> (b: bool)
    requires
        sum_counts(counts@) <= weights@.len(),
    ensures
        b == forall|g: int, k: int|
            0 <= g < counts@.len() && counts@[g] >= 2 && 0 <= k < counts@[g] ==> !spec_is_nan(
                (#[trigger] group_pairs(counts@, weights@, indices@, g)[k]).0,
            ),
{
    let mut g: usize = 0;
    let mut start: usize = 0;
    assert(counts@.take(0) =~= Seq::<u8>::empty());
    while g < counts.len()
        invariant
            g <= counts@.len(),
            sum_counts(counts@) <= weights.len(),
            start == group_start(counts@, g as int),
            forall|h: int, k: int|
                0 <= h < g && counts@[h] >= 2 && 0 <= k < counts@[h] ==> !spec_is_nan(
                    (#[trigger] group_pairs(counts@, weights@, indices@, h)[k]).0,
                ),
        decreases counts@.len() - g,
    {
        proof {
            lemma_sum_take_step(counts@, g as int);
            lemma_sum_take_le(counts@, g + 1);
        }
        let c = counts[g] as usize;
        if c >= 2 && any_nan(weights, start, c) {
            proof {
                let k = choose|k: int| 0 <= k < c && spec_is_nan(#[trigger] weights@[start + k]);
                assert(group_pairs(counts@, weights@, indices@, g as int)[k].0 == weights@[start + k]);
            }
            return false;
        }
        proof {
            assert forall|h: int, k: int|
                0 <= h < g + 1 && counts@[h] >= 2 && 0 <= k < counts@[h] implies !spec_is_nan(
                    (#[trigger] group_pairs(counts@, weights@, indices@, h)[k]).0,
                ) by {
                if h == g {
                    assert(group_pairs(counts@, weights@, indices@, h)[k].0 == weights@[start + k]);
                }
            }
        }
        start = start + c;
        g = g + 1;
    }
    true
}

/// Whether the bone influences can be made uniform.
fn influences_fit(b: &BoneInfluences) -> (r: bool)
    ensures
        r == influences_normalizable(*b),
{
    match &b.bones_per_vertex {
        BoneInfluencesPerVertex::Uniform(_) => true,
        BoneInfluencesPerVertex::NonUniform(counts) => {
            let total = counts_sum(counts);
            if total > b.bone_weights.len() as u128 || total > b.bone_indices.len() as u128
                || total > 0xffff_ffff {
                return false;
            }
            weights_sortable(counts, &b.bone_weights, &b.bone_indices)
        },
    }
}

/// Whether `combine_vertex_indices` can combine the mesh's indices with the configuration: see
/// `combinable`.
pub fn can_combine(m: &MultiIndexedVertexAttributes, config: &CreateSingleIndexConfig) -> (b: bool)
    ensures
        b == combinable(*m, *config),
{
    let n = m.positions.indices.len();
    if n == 0 || n > 0x1000_0000 || !attribute_fits(&m.positions, 3, n) {
        return false;
    }
    match &m.normals {
        Some(a) => {
            if !attribute_fits(a, 3, n) {
                return false;
            }
        },
        None => {},
    }
    match &m.uvs {
        Some(a) => {
            if !attribute_fits(a, 2, n) {
                return false;
            }
        },
        None => {},
    }
    assert(corners_fit(*m));
    if m.vertices_in_each_face.len() == 0 || !faces_fit(&m.vertices_in_each_face, n) {
        return false;
    }
    let l0 = largest_index(&m.positions.indices);
    match (&m.bone_influences, config.bone_influences_per_vertex) {
        (Some(b), Some(c)) => {
            if !influences_fit(b) || c == 0 || c > 4 {
                return false;
            }
            match &b.bones_per_vertex {
                BoneInfluencesPerVertex::Uniform(_) => {
                    assert(normalized_bone_indices(*b, c).len() == 0);
                    assert((l0 + 1) * c > 0) by (nonlinear_arith)
                        requires
                            c > 0,
                            l0 >= 0,
                    ;
                    false
                },
                BoneInfluencesPerVertex::NonUniform(counts) => {
                    proof {
                        lemma_normalized_len(
                            counts@,
                            b.bone_weights@,
                            b.bone_indices@,
                            c,
                            counts@.len() as int,
                        );
                        assert(normalized_bone_indices(*b, c).len() == normalized_influence_pairs(
                            *b,
                            c,
                        ).len());
                        let len = counts@.len() as int;
                        assert((l0 + 1) * c <= len * c <==> l0 + 1 <= len) by (nonlinear_arith)
                            requires
                                c > 0,
                        ;
                    }
                    (l0 as usize) + 1 <= counts.len()
                },
            }
        },
        (None, Some(_)) => {
            let r = combine_corners(m, None, 0);
            proof {
                let st = mesh_combine_state(*m);
                assert(st.largest == l0 + st.gens.len());
            }
            r.positions.len() == (l0 as usize + 1) * 3
        },
        _ => true,
    }
}

} // verus!
