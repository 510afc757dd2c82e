//! Combining the per attribute indices of a mesh into a single index.
//!
//! Blender exports a mesh with one index per attribute (positions, normals, uvs). Most
//! rendering pipelines take a single index buffer, so every distinct combination of indices
//! that a face corner uses becomes one vertex. A corner keeps its position index as its vertex
//! when that position has not been seen before; a new combination for a position that has been
//! seen gets a new vertex after all of the existing ones.
use vstd::prelude::*;
use std::collections::HashMap;
use crate::mesh::multi_indexed::{IndexedAttribute, MultiIndexedVertexAttributes};
use crate::mesh::vertex_attribute::{BoneAttributes, VertexAttribute};
use crate::mesh::BlenderMesh;
use crate::mesh::multi_indexed::{
    influences_normalizable, normalized_bone_indices, normalized_bone_weights,
    BoneInfluencesPerVertex,
};
use crate::mesh::single_indexed::{make_vertices, BoneInfluence, SingleIndexedVertexAttributes, Vertex};
use crate::mesh::triangulate::{faces_triangulable, triangulate_indices, triangulated};
use crate::mesh::tangent::{faces_of_corners_using, faces_of_vertex, tangent_faces_by_vertex};

verus! {

/// The indices that a face corner uses: position, normal (if the mesh has normals) and uv (if
/// the mesh has uvs).
pub type Corner = (u16, Option<u16>, Option<u16>);

/// The largest of the indices (0 when there are none).
pub open spec fn max_index(s: Seq<u16>) -> int
    decreases s.len(),
{
    if s.len() == 0 {
        0
    } else {
        let m = max_index(s.drop_last());
        if s.last() > m {
            s.last() as int
        } else {
            m
        }
    }
}

/// No index is larger than `max_index`, which is one of the indices.
pub proof fn lemma_max_index(s: Seq<u16>)
    ensures
        0 <= max_index(s) <= u16::MAX,
        forall|i: int| 0 <= i < s.len() ==> s[i] <= max_index(s),
        s.len() > 0 ==> exists|i: int| 0 <= i < s.len() && s[i] == max_index(s),
    decreases s.len(),
{
    if s.len() > 0 {
        let prev = s.drop_last();
        lemma_max_index(prev);
        assert forall|i: int| 0 <= i < prev.len() implies prev[i] == s[i] by {}
        if s.last() <= max_index(prev) && prev.len() > 0 {
            let i = choose|i: int| 0 <= i < prev.len() && prev[i] == max_index(prev);
            assert(s[i] == max_index(s));
        } else {
            assert(s[s.len() - 1] == max_index(s));
        }
    }
}

/// The largest index.
pub(crate) fn largest_index(s: &Vec<u16>) -> (m: u16)
    ensures
        m == max_index(s@),
{
    let mut m: u16 = 0;
    let mut i: usize = 0;
    assert(s@.take(0) =~= Seq::<u16>::empty());
    while i < s.len()
        invariant
            i <= s@.len(),
            m == max_index(s@.take(i as int)),
        decreases s@.len() - i,
    {
        assert(s@.take(i + 1).drop_last() =~= s@.take(i as int));
        if s[i] > m {
            m = s[i];
        }
        i = i + 1;
    }
    assert(s@.take(s@.len() as int) =~= s@);
    m
}

/// The number of an optional index: 0 for none, the index plus one otherwise.
pub open spec fn option_code(o: Option<u16>) -> int {
    match o {
        Some(x) => x + 1,
        None => 0,
    }
}

/// A number that tells corners apart.
pub open spec fn corner_key(c: Corner) -> int {
    c.0 * 0x4_0000_0000 + option_code(c.1) * 0x2_0000 + option_code(c.2)
}

/// Different corners have different keys.
pub proof fn lemma_corner_key_injective(a: Corner, b: Corner)
    requires
        corner_key(a) == corner_key(b),
    ensures
        a == b,
{
    assert(0 <= option_code(a.1) < 0x2_0000 && 0 <= option_code(a.2) < 0x2_0000);
    assert(0 <= option_code(b.1) < 0x2_0000 && 0 <= option_code(b.2) < 0x2_0000);
    assert(a.0 == b.0 && option_code(a.1) == option_code(b.1) && option_code(a.2) == option_code(b.2));
}

/// The key of a corner.
fn encode_corner(c: Corner) -> (k: u64)
    ensures
        k == corner_key(c),
{
    let n: u64 = match c.1 {
        Some(x) => x as u64 + 1,
        None => 0,
    };
    let u: u64 = match c.2 {
        Some(x) => x as u64 + 1,
        None => 0,
    };
    c.0 as u64 * 0x4_0000_0000 + n * 0x2_0000 + u
}

/// The bits of `123456789.0f32`: vertex data that no corner fills keeps this value, which is easy
/// to recognize if it ever shows up in rendered data.
pub const EASILY_RECOGNIZABLE_NUMBER: u32 = 0x4ceb_79a3u32;

/// The index that a corner uses for an attribute: 0 is the position, 1 the normal, 2 the uv.
pub open spec fn corner_attr(c: Corner, which: int) -> Option<u16> {
    if which == 0 {
        Some(c.0)
    } else if which == 1 {
        c.1
    } else {
        c.2
    }
}

/// Value `k` of vertex `v`'s attribute `which` after combining: the data that the corner the
/// vertex was made for points to, or `EASILY_RECOGNIZABLE_NUMBER` for a vertex that no corner
/// made.
pub open spec fn attr_value(
    data: Seq<u32>,
    size: int,
    made: Map<int, Corner>,
    which: int,
    v: int,
    k: int,
) -> u32 {
    if made.contains_key(v) && corner_attr(made[v], which) is Some {
        data[corner_attr(made[v], which)->0 * size + k]
    } else {
        EASILY_RECOGNIZABLE_NUMBER
    }
}

/// `out` holds attribute `which` (with `size` values per vertex) of `count` combined vertices.
pub open spec fn expanded_matches(
    out: Seq<u32>,
    data: Seq<u32>,
    size: int,
    made: Map<int, Corner>,
    which: int,
    count: int,
) -> bool {
    &&& out.len() == count * size
    &&& forall|v: int, k: int|
        0 <= v < count && 0 <= k < size ==> out[v * size + k] == #[trigger] attr_value(
            data,
            size,
            made,
            which,
            v,
            k,
        )
}

/// `out` with the values of vertex `v` replaced by those of data index `ix`.
pub open spec fn set_values(out: Seq<u32>, data: Seq<u32>, size: int, v: int, ix: int) -> Seq<u32> {
    Seq::new(
        out.len(),
        |j: int|
            if v * size <= j < v * size + size {
                data[ix * size + (j - v * size)]
            } else {
                out[j]
            },
    )
}

/// A vector of `n` copies of `x`.
fn filled(x: u32, n: usize) -> (v: Vec<u32>)
    ensures
        v@ == Seq::new(n as nat, |j: int| x),
{
    let mut v: Vec<u32> = Vec::new();
    let mut i: usize = 0;
    while i < n
        invariant
            i <= n,
            v@ =~= Seq::new(i as nat, |j: int| x),
        decreases n - i,
    {
        v.push(x);
        i = i + 1;
    }
    v
}

/// Before any corner made a vertex, every value is `EASILY_RECOGNIZABLE_NUMBER`.
proof fn lemma_expanded_start(data: Seq<u32>, size: int, which: int, count: int)
    requires
        size == 2 || size == 3,
        count >= 0,
    ensures
        expanded_matches(
            Seq::new((count * size) as nat, |j: int| EASILY_RECOGNIZABLE_NUMBER),
            data,
            size,
            Map::empty(),
            which,
            count,
        ),
{
    let out = Seq::new((count * size) as nat, |j: int| EASILY_RECOGNIZABLE_NUMBER);
    assert(count * size >= 0) by (nonlinear_arith)
        requires
            count >= 0,
            size >= 0,
    ;
    assert forall|v: int, k: int| 0 <= v < count && 0 <= k < size implies out[v * size + k]
        == #[trigger] attr_value(data, size, Map::empty(), which, v, k) by {
        assert(0 <= v * size + k < count * size) by (nonlinear_arith)
            requires
                0 <= v < count,
                0 <= k < size,
        ;
    }
}

/// Writing a corner's data as vertex `v`'s values records that the corner made the vertex.
proof fn lemma_expanded_set(
    out: Seq<u32>,
    data: Seq<u32>,
    size: int,
    made: Map<int, Corner>,
    which: int,
    count: int,
    v: int,
    c: Corner,
)
    requires
        expanded_matches(out, data, size, made, which, count),
        size == 2 || size == 3,
        0 <= v < count,
        corner_attr(c, which) is Some,
    ensures
        expanded_matches(
            set_values(out, data, size, v, corner_attr(c, which)->0 as int),
            data,
            size,
            made.insert(v, c),
            which,
            count,
        ),
{
    let ix = corner_attr(c, which)->0 as int;
    let out2 = set_values(out, data, size, v, ix);
    let made2 = made.insert(v, c);
    assert forall|w: int, k: int| 0 <= w < count && 0 <= k < size implies out2[w * size + k]
        == #[trigger] attr_value(data, size, made2, which, w, k) by {
        assert(0 <= w * size + k < count * size) by (nonlinear_arith)
            requires
                0 <= w < count,
                0 <= k < size,
        ;
        if w == v {
            assert(out2[w * size + k] == data[ix * size + k]);
        } else {
            assert(!(v * size <= w * size + k < v * size + size)) by (nonlinear_arith)
                requires
                    w != v,
                    0 <= k < size,
            ;
            assert(out2[w * size + k] == out[w * size + k]);
            assert(attr_value(data, size, made2, which, w, k) == attr_value(data, size, made, which, w, k));
        }
    }
}

/// Appending a corner's data adds a vertex made for that corner.
proof fn lemma_expanded_push(
    out: Seq<u32>,
    data: Seq<u32>,
    size: int,
    made: Map<int, Corner>,
    which: int,
    count: int,
    c: Corner,
)
    requires
        expanded_matches(out, data, size, made, which, count),
        size == 2 || size == 3,
        count >= 0,
        corner_attr(c, which) is Some,
        (corner_attr(c, which)->0 + 1) * size <= data.len(),
    ensures
        expanded_matches(
            out + data.subrange(
                corner_attr(c, which)->0 * size,
                corner_attr(c, which)->0 * size + size,
            ),
            data,
            size,
            made.insert(count, c),
            which,
            count + 1,
        ),
{
    let ix = corner_attr(c, which)->0 as int;
    let out2 = out + data.subrange(ix * size, ix * size + size);
    let made2 = made.insert(count, c);
    assert(0 <= ix * size) by (nonlinear_arith)
        requires
            ix >= 0,
            size >= 0,
    ;
    assert(out2.len() == (count + 1) * size) by (nonlinear_arith)
        requires
            out2.len() == out.len() + size,
            out.len() == count * size,
    ;
    assert forall|w: int, k: int| 0 <= w < count + 1 && 0 <= k < size implies out2[w * size + k]
        == #[trigger] attr_value(data, size, made2, which, w, k) by {
        if w == count {
            assert(w * size + k == out.len() + k) by (nonlinear_arith)
                requires
                    w == count,
                    out.len() == count * size,
            ;
        } else {
            assert(0 <= w * size + k < count * size) by (nonlinear_arith)
                requires
                    0 <= w < count,
                    0 <= k < size,
            ;
            assert(attr_value(data, size, made2, which, w, k) == attr_value(data, size, made, which, w, k));
        }
    }
}

/// Replace vertex `v`'s values by those of data index `ix`.
fn set_vertex_values(out: &mut Vec<u32>, data: &Vec<u32>, size: usize, v: usize, ix: u16)
    requires
        size == 2 || size == 3,
        (v + 1) * size <= old(out)@.len(),
        (ix + 1) * size <= data@.len(),
    ensures
        final(out)@ == set_values(old(out)@, data@, size as int, v as int, ix as int),
{
    let ghost start = out@;
    let len = out.len();
    assert(v * size + size <= start.len()) by (nonlinear_arith)
        requires
            (v + 1) * size <= start.len(),
    ;
    let mut k: usize = 0;
    while k < size
        invariant
            size == 2 || size == 3,
            v * size + size <= start.len(),
            start.len() == len,
            (ix + 1) * size <= data@.len(),
            k <= size,
            out@.len() == start.len(),
            forall|j: int|
                0 <= j < start.len() ==> #[trigger] out@[j] == if v * size <= j < v * size + k {
                    data@[ix * size + (j - v * size)]
                } else {
                    start[j]
                },
        decreases size - k,
    {
        out.set(v * size + k, data[ix as usize * size + k]);
        k = k + 1;
    }
    assert(out@ =~= set_values(start, data@, size as int, v as int, ix as int));
}

/// Append the values of data index `ix`.
fn push_vertex_values(out: &mut Vec<u32>, data: &Vec<u32>, size: usize, ix: u16)
    requires
        size == 2 || size == 3,
        (ix + 1) * size <= data@.len(),
    ensures
        final(out)@ == old(out)@ + data@.subrange(ix * size, ix * size + size),
{
    let ghost start = out@;
    let mut k: usize = 0;
    while k < size
        invariant
            size == 2 || size == 3,
            (ix + 1) * size <= data@.len(),
            k <= size,
            out@ =~= start + data@.subrange(ix * size, ix * size + k),
        decreases size - k,
    {
        out.push(data[ix as usize * size + k]);
        k = k + 1;
    }
}

/// The `count` bone values of vertex `g` in `base`.
pub open spec fn bone_chunk<T>(base: Seq<T>, g: int, count: int) -> Seq<T> {
    Seq::new(count as nat, |k: int| base[g * count + k])
}

/// The bone data appended for the generated vertices: each copies the `count` values of the
/// position it was generated for.
pub open spec fn generated_bone_data<T>(base: Seq<T>, gens: Seq<u16>, count: int) -> Seq<T>
    decreases gens.len(),
{
    if gens.len() == 0 {
        seq![]
    } else {
        generated_bone_data(base, gens.drop_last(), count) + bone_chunk(
            base,
            gens.last() as int,
            count,
        )
    }
}

/// Vertex `x` carries, in its first `count` bone slots, the bone data of position `p`.
pub open spec fn vertex_bones_of_position(x: Vertex, indices: Seq<u8>, weights: Seq<u32>, count: u8, p: int) -> bool {
    x.bones matches Some(bs) && forall|k: int|
        0 <= k < count ==> #[trigger] bs@[k] == (BoneInfluence {
            bone_idx: indices[p * count + k],
            weight: weights[p * count + k],
        })
}

/// The `j`-th generated vertex's bone data is a copy of the bone data of the position it was
/// generated from.
pub proof fn lemma_generated_bones_copy_positions<T>(base: Seq<T>, gens: Seq<u16>, count: int, j: int, k: int)
    requires
        count >= 0,
        0 <= j < gens.len(),
        0 <= k < count,
    ensures
        generated_bone_data(base, gens, count).len() == gens.len() * count,
        generated_bone_data(base, gens, count)[j * count + k] == base[gens[j] * count + k],
    decreases gens.len(),
{
    lemma_generated_len(base, gens, count as nat);
    let p = gens.drop_last();
    lemma_generated_len(base, p, count as nat);
    if j < gens.len() - 1 {
        lemma_generated_bones_copy_positions(base, p, count, j, k);
        assert(j * count + k < p.len() * count) by (nonlinear_arith)
            requires
                j < p.len(),
                0 <= k < count,
        ;
        assert(0 <= j * count) by (nonlinear_arith)
            requires
                j >= 0,
                count >= 0,
        ;
    } else {
        assert(j * count + k - p.len() * count == k) by (nonlinear_arith)
            requires
                j == p.len(),
        ;
        assert(j * count + k >= p.len() * count) by (nonlinear_arith)
            requires
                j == p.len(),
                k >= 0,
        ;
    }
}

/// The generated vertices come from corners' positions, so none is past `l0`.
proof fn lemma_gens_bounded(cs: Seq<Corner>, l0: int)
    requires
        forall|i: int| 0 <= i < cs.len() ==> (#[trigger] cs[i]).0 <= l0,
    ensures
        forall|j: int| 0 <= j < combine_state(cs, l0).gens.len() ==> #[trigger] combine_state(cs, l0).gens[j] <= l0,
    decreases cs.len(),
{
    if cs.len() > 0 {
        let p = cs.drop_last();
        assert forall|i: int| 0 <= i < p.len() implies (#[trigger] p[i]).0 <= l0 by {
            assert(p[i] == cs[i]);
        }
        lemma_gens_bounded(p, l0);
        assert(cs.last() == cs[cs.len() - 1]);
        let st = combine_state(p, l0);
        let g = combine_state(cs, l0).gens;
        assert(cs.drop_last() == p);
        assert(g == st.gens || g == st.gens.push(cs.last().0));
        assert forall|j: int| 0 <= j < g.len() implies #[trigger] g[j] <= l0 by {
            if j < st.gens.len() {
                assert(st.gens[j] <= l0);
            }
        }
    }
}

/// After combining, every vertex holds the bone data of the position its corner uses: `bones`
/// (one `count`-long chunk per position, for exactly the positions up to the largest index) with
/// the generated vertices' chunks appended gives vertex `v` the chunk of position `made[v].0`.
pub proof fn lemma_vertex_bones_follow_positions<T>(
    cs: Seq<Corner>,
    l0: int,
    bones: Seq<T>,
    count: int,
    v: int,
    k: int,
)
    requires
        l0 >= 0,
        forall|i: int| 0 <= i < cs.len() ==> (#[trigger] cs[i]).0 <= l0,
        count >= 0,
        bones.len() == (l0 + 1) * count,
        combine_state(cs, l0).made.contains_key(v),
        0 <= k < count,
    ensures
        ({
            let st = combine_state(cs, l0);
            let all = bones + generated_bone_data(bones, st.gens, count);
            &&& 0 <= v * count + k < all.len()
            &&& 0 <= st.made[v].0 * count + k < bones.len()
            &&& all[v * count + k] == bones[st.made[v].0 * count + k]
        }),
{
    lemma_combine_state(cs, l0);
    let st = combine_state(cs, l0);
    let g = st.gens;
    lemma_generated_len(bones, g, count as nat);
    let p = st.made[v].0 as int;
    assert(0 <= v <= st.largest);
    assert(st.largest == l0 + g.len());
    assert(0 <= v * count + k < (st.largest + 1) * count) by (nonlinear_arith)
        requires
            0 <= v <= st.largest,
            0 <= k < count,
    ;
    assert((st.largest + 1) * count == (l0 + 1) * count + g.len() * count) by (nonlinear_arith)
        requires
            st.largest == l0 + g.len(),
    ;
    if v <= l0 {
        assert(p == v);
        assert(v * count + k < (l0 + 1) * count) by (nonlinear_arith)
            requires
                v <= l0,
                0 <= k < count,
        ;
    } else {
        let j = v - l0 - 1;
        assert(g[j] == p);
        lemma_generated_bones_copy_positions(bones, g, count, j, k);
        assert(v * count + k - (l0 + 1) * count == j * count + k) by (nonlinear_arith)
            requires
                j == v - l0 - 1,
        ;
        assert(v * count + k >= (l0 + 1) * count) by (nonlinear_arith)
            requires
                v >= l0 + 1,
                k >= 0,
                count >= 0,
        ;
        lemma_gens_bounded(cs, l0);
        assert(p <= l0);
        assert(0 <= p * count + k < (l0 + 1) * count) by (nonlinear_arith)
            requires
                0 <= p <= l0,
                0 <= k < count,
        ;
    }
}

/// Append a copy of vertex `vert_idx`'s bone data for a vertex generated from its position.
fn push_bone_data_for_generated_vertex(
    vert_idx: usize,
    bone_influences_per_vertex: u8,
    new_group_indices: &mut Vec<u8>,
    new_group_weights: &mut Vec<u32>,
)
    requires
        vert_idx * bone_influences_per_vertex + bone_influences_per_vertex <= old(
            new_group_indices,
        )@.len(),
        vert_idx * bone_influences_per_vertex + bone_influences_per_vertex <= old(
            new_group_weights,
        )@.len(),
    ensures
        final(new_group_indices)@ == old(new_group_indices)@ + bone_chunk(
            old(new_group_indices)@,
            vert_idx as int,
            bone_influences_per_vertex as int,
        ),
        final(new_group_weights)@ == old(new_group_weights)@ + bone_chunk(
            old(new_group_weights)@,
            vert_idx as int,
            bone_influences_per_vertex as int,
        ),
{
    let count = bone_influences_per_vertex as usize;
    let ghost idx0 = new_group_indices@;
    let ghost w0 = new_group_weights@;
    let li = new_group_indices.len();
    let lw = new_group_weights.len();
    let group_data_start_idx = vert_idx * count;
    let mut i: usize = 0;
    while i < count
        invariant
            group_data_start_idx == vert_idx * count,
            group_data_start_idx + count <= idx0.len(),
            group_data_start_idx + count <= w0.len(),
            idx0.len() == li,
            i <= count,
            new_group_indices@ =~= idx0 + bone_chunk(idx0, vert_idx as int, count as int).take(
                i as int,
            ),
            new_group_weights@ =~= w0 + bone_chunk(w0, vert_idx as int, count as int).take(
                i as int,
            ),
        decreases count - i,
    {
        let group_data_idx = group_data_start_idx + i;
        let weight = new_group_weights[group_data_idx];
        new_group_weights.push(weight);
        let index = new_group_indices[group_data_idx];
        new_group_indices.push(index);
        i = i + 1;
    }
    assert(bone_chunk(idx0, vert_idx as int, count as int).take(count as int) =~= bone_chunk(
        idx0,
        vert_idx as int,
        count as int,
    ));
    assert(bone_chunk(w0, vert_idx as int, count as int).take(count as int) =~= bone_chunk(
        w0,
        vert_idx as int,
        count as int,
    ));
}

/// The corner `i` of the mesh: its position, normal and uv indices.
pub open spec fn mesh_corner(m: MultiIndexedVertexAttributes, i: int) -> Corner {
    (
        m.positions.indices@[i],
        match m.normals {
            Some(a) => Some(a.indices@[i]),
            None => None,
        },
        match m.uvs {
            Some(a) => Some(a.indices@[i]),
            None => None,
        },
    )
}

/// The corners of the mesh, in order.
pub open spec fn mesh_corners(m: MultiIndexedVertexAttributes) -> Seq<Corner> {
    Seq::new(m.positions.indices@.len(), |i: int| mesh_corner(m, i))
}

/// The indices of an attribute with `size` values per vertex all point inside its data.
pub open spec fn attribute_indices_fit(a: IndexedAttribute, size: int, n: int) -> bool {
    &&& a.attribute.attribute_size == size
    &&& a.indices@.len() >= n
    &&& forall|i: int| 0 <= i < n ==> (#[trigger] a.indices@[i] + 1) * size <= a.attribute.data@.len()
}

/// Every corner's indices point inside the attributes' data (3 values per position and normal,
/// 2 per uv) and there is at least one corner.
///
/// The corner count is at most `0x1000_0000`: combining can make a vertex per corner beyond the
/// positions, and the 3 values of each must be addressable by a `usize` on a 32-bit target,
/// where a vector of that many 16-bit indices already takes half of the address space.
pub open spec fn corners_fit(m: MultiIndexedVertexAttributes) -> bool {
    let n = m.positions.indices@.len() as int;
    &&& n > 0
    &&& n <= 0x1000_0000
    &&& attribute_indices_fit(m.positions, 3, n)
    &&& m.normals matches Some(a) ==> attribute_indices_fit(a, 3, n)
    &&& m.uvs matches Some(a) ==> attribute_indices_fit(a, 2, n)
}

/// What combining the first corners has produced.
pub struct CombineState {
    /// The vertex of each combination of indices seen so far.
    pub ids: Map<Corner, int>,
    /// The combination of indices that each vertex was made for.
    pub made: Map<int, Corner>,
    /// The largest vertex index.
    pub largest: int,
    /// The vertex of each corner.
    pub out: Seq<int>,
    /// The position index of each generated vertex, in order.
    pub gens: Seq<u16>,
}

/// Combine the corners `cs` one by one, starting with `largest` as the largest vertex index.
pub open spec fn combine_state(cs: Seq<Corner>, largest: int) -> CombineState
    decreases cs.len(),
{
    if cs.len() == 0 {
        CombineState {
            ids: Map::empty(),
            made: Map::empty(),
            largest,
            out: seq![],
            gens: seq![],
        }
    } else {
        let st = combine_state(cs.drop_last(), largest);
        let c = cs.last();
        if st.ids.contains_key(c) {
            CombineState { out: st.out.push(st.ids[c]), ..st }
        } else if !st.made.contains_key(c.0 as int) {
            CombineState {
                ids: st.ids.insert(c, c.0 as int),
                made: st.made.insert(c.0 as int, c),
                out: st.out.push(c.0 as int),
                ..st
            }
        } else {
            CombineState {
                ids: st.ids.insert(c, st.largest + 1),
                made: st.made.insert(st.largest + 1, c),
                largest: st.largest + 1,
                out: st.out.push(st.largest + 1),
                gens: st.gens.push(c.0),
            }
        }
    }
}

/// The facts about a combine state that every step keeps.
pub open spec fn combine_state_facts(cs: Seq<Corner>, l0: int, st: CombineState) -> bool {
    &&& st.out.len() == cs.len()
    &&& st.largest == l0 + st.gens.len()
    &&& forall|i: int|
        0 <= i < cs.len() ==> st.ids.contains_key(#[trigger] cs[i]) && st.ids[cs[i]] == st.out[i]
    &&& forall|c: Corner| #[trigger]
        st.ids.contains_key(c) ==> st.made.contains_key(st.ids[c]) && st.made[st.ids[c]] == c
    &&& forall|v: int| #[trigger]
        st.made.contains_key(v) ==> {
            &&& st.ids.contains_key(st.made[v])
            &&& st.ids[st.made[v]] == v
            &&& 0 <= v <= st.largest
            &&& v <= l0 ==> st.made[v].0 == v
            &&& v > l0 ==> st.gens[v - l0 - 1] == st.made[v].0
        }
    &&& forall|v: int| l0 < v <= st.largest ==> #[trigger] st.made.contains_key(v)
}

/// Every state reached by combining corners whose positions are at most `l0` has the facts.
pub proof fn lemma_combine_state(cs: Seq<Corner>, l0: int)
    requires
        l0 >= 0,
        forall|i: int| 0 <= i < cs.len() ==> (#[trigger] cs[i]).0 <= l0,
    ensures
        combine_state_facts(cs, l0, combine_state(cs, l0)),
    decreases cs.len(),
{
    if cs.len() > 0 {
        let prev = cs.drop_last();
        assert forall|i: int| 0 <= i < prev.len() implies (#[trigger] prev[i]).0 <= l0 by {
            assert(prev[i] == cs[i]);
        }
        lemma_combine_state(prev, l0);
        let st = combine_state(prev, l0);
        let c = cs.last();
        let n = cs.len() - 1;
        assert forall|i: int| 0 <= i < n implies cs[i] == prev[i] by {}
        assert(cs[n] == c);
        let st2 = combine_state(cs, l0);
        if st.ids.contains_key(c) {
            assert(combine_state_facts(cs, l0, st2));
        } else if !st.made.contains_key(c.0 as int) {
            assert forall|v: int| #[trigger] st2.made.contains_key(v) implies {
                &&& st2.ids.contains_key(st2.made[v])
                &&& st2.ids[st2.made[v]] == v
                &&& 0 <= v <= st2.largest
                &&& v <= l0 ==> st2.made[v].0 == v
                &&& v > l0 ==> st2.gens[v - l0 - 1] == st2.made[v].0
            } by {
                if v != c.0 as int {
                    assert(st.made.contains_key(v));
                    assert(st.made[v] != c);
                }
            }
            assert forall|c1: Corner| #[trigger] st2.ids.contains_key(c1) implies st2.made.contains_key(
                st2.ids[c1],
            ) && st2.made[st2.ids[c1]] == c1 by {
                if c1 != c {
                    assert(st.ids.contains_key(c1));
                    assert(st.made.contains_key(st.ids[c1]));
                    assert(st.ids[c1] != c.0 as int);
                }
            }
            assert(combine_state_facts(cs, l0, st2));
        } else {
            assert forall|v: int| #[trigger] st2.made.contains_key(v) implies {
                &&& st2.ids.contains_key(st2.made[v])
                &&& st2.ids[st2.made[v]] == v
                &&& 0 <= v <= st2.largest
                &&& v <= l0 ==> st2.made[v].0 == v
                &&& v > l0 ==> st2.gens[v - l0 - 1] == st2.made[v].0
            } by {
                if v != st.largest + 1 {
                    assert(st.made.contains_key(v));
                    assert(st.made[v] != c);
                    if v > l0 {
                        assert(st2.gens[v - l0 - 1] == st.gens[v - l0 - 1]);
                    }
                }
            }
            assert forall|c1: Corner| #[trigger] st2.ids.contains_key(c1) implies st2.made.contains_key(
                st2.ids[c1],
            ) && st2.made[st2.ids[c1]] == c1 by {
                if c1 != c {
                    assert(st.ids.contains_key(c1));
                    assert(st.made.contains_key(st.ids[c1]));
                }
            }
            assert(combine_state_facts(cs, l0, st2));
        }
    }
}

/// A corner's key as the map of combinations holds it.
pub open spec fn key_of(c: Corner) -> u64 {
    corner_key(c) as u64
}

/// A corner's key fits in 64 bits.
proof fn lemma_corner_key_bounds(c: Corner)
    ensures
        0 <= corner_key(c) < 0x8_0000_0000_0000,
        key_of(c) == corner_key(c),
{
    assert(0 <= c.0 <= 0xffff);
    assert(0 <= option_code(c.1) <= 0x1_0000);
    assert(0 <= option_code(c.2) <= 0x1_0000);
}


/// One more corner: the state of the first `i + 1` corners follows from that of the first `i`.
proof fn lemma_combine_take_step(cs: Seq<Corner>, l0: int, i: int)
    requires
        0 <= i < cs.len(),
    ensures
        cs.take(i + 1).drop_last() == cs.take(i),
        cs.take(i + 1).last() == cs[i],
        cs.take(i + 1).len() == i + 1,
{
    assert(cs.take(i + 1).drop_last() =~= cs.take(i));
}

/// The vertex data of a mesh after combining its indices, before triangulating.
pub struct Combined {
    /// The vertex of each corner.
    pub corner_vertices: Vec<u16>,
    /// 3 position values per vertex.
    pub positions: Vec<u32>,
    /// 3 normal values per vertex, if the mesh has normals.
    pub normals: Option<Vec<u32>>,
    /// 2 uv values per vertex, if the mesh has uvs.
    pub uvs: Option<Vec<u32>>,
    /// The bone indices and weights, if there are bones.
    pub bones: Option<(Vec<u8>, Vec<u32>)>,
}

/// A vector of `n` times `false`.
fn all_unseen(n: usize) -> (v: Vec<bool>)
    ensures
        v@ == Seq::new(n as nat, |j: int| false),
{
    let mut v: Vec<bool> = Vec::new();
    let mut i: usize = 0;
    while i < n
        invariant
            i <= n,
            v@ =~= Seq::new(i as nat, |j: int| false),
        decreases n - i,
    {
        v.push(false);
        i = i + 1;
    }
    v
}

/// Give every distinct combination of a corner's indices a vertex of its own, copying the data
/// that the combination points to.
#[verifier::rlimit(80)]
#[verifier::spinoff_prover]
pub fn combine_corners(m: &MultiIndexedVertexAttributes, bones: Option<(Vec<u8>, Vec<u32>)>, count: u8) -> (r:
    Combined)
    requires
        corners_fit(*m),
        bones matches Some((bi, bw)) ==> (max_index(m.positions.indices@) + 1) * count <= bi@.len()
            && (max_index(m.positions.indices@) + 1) * count <= bw@.len(),
    ensures
        ({
            let n = m.positions.indices@.len() as int;
            let l0 = max_index(m.positions.indices@);
            let st = combine_state(mesh_corners(*m), l0);
            &&& combine_state_facts(mesh_corners(*m), l0, st)
            &&& r.corner_vertices@.len() == n
            &&& forall|i: int| 0 <= i < n ==> #[trigger] r.corner_vertices@[i] == st.out[i] as u16
            &&& expanded_matches(
                r.positions@,
                m.positions.attribute.data@,
                3,
                st.made,
                0,
                st.largest + 1,
            )
            &&& match m.normals {
                Some(a) => r.normals matches Some(no) && expanded_matches(
                    no@,
                    a.attribute.data@,
                    3,
                    st.made,
                    1,
                    st.largest + 1,
                ),
                None => r.normals is None,
            }
            &&& match m.uvs {
                Some(a) => r.uvs matches Some(uo) && expanded_matches(
                    uo@,
                    a.attribute.data@,
                    2,
                    st.made,
                    2,
                    st.largest + 1,
                ),
                None => r.uvs is None,
            }
            &&& match bones {
                Some((bi, bw)) => r.bones matches Some((oi, ow)) && oi@ == bi@ + generated_bone_data(
                    bi@,
                    st.gens,
                    count as int,
                ) && ow@ == bw@ + generated_bone_data(bw@, st.gens, count as int),
                None => r.bones is None,
            }
        }),
{
    broadcast use vstd::std_specs::hash::group_hash_axioms;

    let n = m.positions.indices.len();
    let l0 = largest_index(&m.positions.indices);
    let ghost cs = mesh_corners(*m);
    proof {
        lemma_max_index(m.positions.indices@);
        assert forall|j: int| 0 <= j < cs.len() implies (#[trigger] cs[j]).0 <= l0 by {
            assert(cs[j].0 == m.positions.indices@[j]);
        }
        assert(cs.take(0) =~= Seq::<Corner>::empty());
        lemma_combine_state(cs.take(0), l0 as int);
    }
    let has_normals = m.normals.is_some();
    let has_uvs = m.uvs.is_some();
    let has_bones = bones.is_some();
    let (mut bone_indices, mut bone_weights) = match bones {
        Some((a, b)) => (a, b),
        None => (Vec::new(), Vec::new()),
    };
    let ghost base_i = bone_indices@;
    let ghost base_w = bone_weights@;
    let size0 = l0 as usize + 1;
    let mut positions = filled(EASILY_RECOGNIZABLE_NUMBER, size0 * 3);
    let mut normals = if has_normals {
        filled(EASILY_RECOGNIZABLE_NUMBER, size0 * 3)
    } else {
        Vec::new()
    };
    let mut uvs = if has_uvs {
        filled(EASILY_RECOGNIZABLE_NUMBER, size0 * 2)
    } else {
        Vec::new()
    };
    proof {
        lemma_expanded_start(m.positions.attribute.data@, 3, 0, size0 as int);
        if let Some(a) = &m.normals {
            lemma_expanded_start(a.attribute.data@, 3, 1, size0 as int);
        }
        if let Some(a) = &m.uvs {
            lemma_expanded_start(a.attribute.data@, 2, 2, size0 as int);
        }
    }
    let mut seen = all_unseen(size0);
    let mut ids: HashMap<u64, u16> = HashMap::new();
    let mut corner_vertices: Vec<u16> = Vec::new();
    let mut largest: usize = l0 as usize;
    let ghost mut st = combine_state(cs.take(0), l0 as int);
    let mut i: usize = 0;
    while i < n
        invariant
            n == m.positions.indices@.len(),
            corners_fit(*m),
            cs == mesh_corners(*m),
            l0 == max_index(m.positions.indices@),
            forall|j: int| 0 <= j < cs.len() ==> (#[trigger] cs[j]).0 <= l0,
            size0 == l0 + 1,
            has_normals == m.normals is Some,
            has_uvs == m.uvs is Some,
            has_bones == bones is Some,
            bones matches Some((bi, bw)) ==> bi@ == base_i && bw@ == base_w,
            has_bones ==> (l0 + 1) * count <= base_i.len() && (l0 + 1) * count <= base_w.len(),
            i <= n,
            st == combine_state(cs.take(i as int), l0 as int),
            combine_state_facts(cs.take(i as int), l0 as int, st),
            largest == st.largest,
            largest <= l0 + i,
            corner_vertices@.len() == i,
            forall|j: int| 0 <= j < i ==> #[trigger] corner_vertices@[j] == st.out[j] as u16,
            seen@.len() == size0,
            forall|p: int| 0 <= p < size0 ==> #[trigger] seen@[p] == st.made.contains_key(p),
            forall|c: Corner| #[trigger]
                st.ids.contains_key(c) == ids@.contains_key(key_of(c)),
            forall|c: Corner| #[trigger]
                st.ids.contains_key(c) ==> ids@[key_of(c)] == st.ids[c] as u16,
            expanded_matches(
                positions@,
                m.positions.attribute.data@,
                3,
                st.made,
                0,
                st.largest + 1,
            ),
            m.normals matches Some(a) ==> expanded_matches(
                normals@,
                a.attribute.data@,
                3,
                st.made,
                1,
                st.largest + 1,
            ),
            m.uvs matches Some(a) ==> expanded_matches(
                uvs@,
                a.attribute.data@,
                2,
                st.made,
                2,
                st.largest + 1,
            ),
            has_bones ==> bone_indices@ == base_i + generated_bone_data(base_i, st.gens, count as int),
            has_bones ==> bone_weights@ == base_w + generated_bone_data(base_w, st.gens, count as int),
        decreases n - i,
    {
        let p = m.positions.indices[i];
        let nix: Option<u16> = match &m.normals {
            Some(a) => Some(a.indices[i]),
            None => None,
        };
        let uix: Option<u16> = match &m.uvs {
            Some(a) => Some(a.indices[i]),
            None => None,
        };
        let c: Corner = (p, nix, uix);
        let key = encode_corner(c);
        let ghost prev = st;
        proof {
            assert(c == cs[i as int]);
            lemma_corner_key_bounds(c);
            lemma_combine_take_step(cs, l0 as int, i as int);
            lemma_combine_state(cs.take(i + 1), l0 as int);
            st = combine_state(cs.take(i + 1), l0 as int);
        }
        let found: Option<u16> = match ids.get(&key) {
            Some(v) => Some(*v),
            None => None,
        };
        match found {
            Some(v) => {
                corner_vertices.push(v);
            },
            None => {
                if !seen[p as usize] {
                    corner_vertices.push(p);
                    proof {
                        lemma_expanded_set(
                            positions@,
                            m.positions.attribute.data@,
                            3,
                            prev.made,
                            0,
                            prev.largest + 1,
                            p as int,
                            c,
                        );
                    }
                    set_vertex_values(&mut positions, &m.positions.attribute.data, 3, p as usize, p);
                    match &m.normals {
                        Some(a) => {
                            proof {
                                lemma_expanded_set(
                                    normals@,
                                    a.attribute.data@,
                                    3,
                                    prev.made,
                                    1,
                                    prev.largest + 1,
                                    p as int,
                                    c,
                                );
                            }
                            set_vertex_values(&mut normals, &a.attribute.data, 3, p as usize, a.indices[i]);
                        },
                        None => {},
                    }
                    match &m.uvs {
                        Some(a) => {
                            proof {
                                lemma_expanded_set(
                                    uvs@,
                                    a.attribute.data@,
                                    2,
                                    prev.made,
                                    2,
                                    prev.largest + 1,
                                    p as int,
                                    c,
                                );
                            }
                            set_vertex_values(&mut uvs, &a.attribute.data, 2, p as usize, a.indices[i]);
                        },
                        None => {},
                    }
                    seen.set(p as usize, true);
                    ids.insert(key, p);
                } else {
                    largest = largest + 1;
                    corner_vertices.push(#[verifier::truncate] (largest as u16));
                    proof {
                        lemma_expanded_push(
                            positions@,
                            m.positions.attribute.data@,
                            3,
                            prev.made,
                            0,
                            prev.largest + 1,
                            c,
                        );
                    }
                    push_vertex_values(&mut positions, &m.positions.attribute.data, 3, p);
                    match &m.normals {
                        Some(a) => {
                            proof {
                                lemma_expanded_push(
                                    normals@,
                                    a.attribute.data@,
                                    3,
                                    prev.made,
                                    1,
                                    prev.largest + 1,
                                    c,
                                );
                            }
                            push_vertex_values(&mut normals, &a.attribute.data, 3, a.indices[i]);
                        },
                        None => {},
                    }
                    match &m.uvs {
                        Some(a) => {
                            proof {
                                lemma_expanded_push(
                                    uvs@,
                                    a.attribute.data@,
                                    2,
                                    prev.made,
                                    2,
                                    prev.largest + 1,
                                    c,
                                );
                            }
                            push_vertex_values(&mut uvs, &a.attribute.data, 2, a.indices[i]);
                        },
                        None => {},
                    }
                    if has_bones {
                        let ghost old_i = bone_indices@;
                        let ghost old_w = bone_weights@;
                        proof {
                            let c8 = count as int;
                            let pp = p as int;
                            assert(pp * c8 + c8 <= (l0 + 1) * c8) by (nonlinear_arith)
                                requires
                                    pp <= l0,
                                    c8 >= 0,
                            ;
                            assert(0 <= pp * c8) by (nonlinear_arith)
                                requires
                                    pp >= 0,
                                    c8 >= 0,
                            ;
                            assert(bone_chunk(old_i, pp, c8) =~= bone_chunk(base_i, pp, c8));
                            assert(bone_chunk(old_w, pp, c8) =~= bone_chunk(base_w, pp, c8));
                            assert(st.gens.drop_last() =~= prev.gens);
                        }
                        push_bone_data_for_generated_vertex(
                            p as usize,
                            count,
                            &mut bone_indices,
                            &mut bone_weights,
                        );
                    }
                    ids.insert(key, #[verifier::truncate] (largest as u16));
                }
            },
        }
        i = i + 1;
    }
    proof {
        assert(cs.take(n as int) =~= cs);
    }
    Combined {
        corner_vertices,
        positions,
        normals: if has_normals {
            Some(normals)
        } else {
            None
        },
        uvs: if has_uvs {
            Some(uvs)
        } else {
            None
        },
        bones: if has_bones {
            Some((bone_indices, bone_weights))
        } else {
            None
        },
    }
}

/// Each generated vertex appends `count` values.
pub proof fn lemma_generated_len<T>(base: Seq<T>, gens: Seq<u16>, count: nat)
    ensures
        generated_bone_data(base, gens, count as int).len() == gens.len() * count,
    decreases gens.len(),
{
    if gens.len() > 0 {
        lemma_generated_len(base, gens.drop_last(), count);
        let p = gens.drop_last().len();
        assert(gens.len() * count == p * count + count) by (nonlinear_arith)
            requires
                gens.len() == p + 1,
        ;
    }
}

/// A copy of a vector.
fn copy_vec<T: Copy>(v: &Vec<T>) -> (r: Vec<T>)
    ensures
        r@ == v@,
{
    let mut r: Vec<T> = Vec::new();
    let mut i: usize = 0;
    while i < v.len()
        invariant
            i <= v@.len(),
            r@ =~= v@.take(i as int),
        decreases v@.len() - i,
    {
        r.push(v[i]);
        i = i + 1;
    }
    assert(v@.take(v@.len() as int) =~= v@);
    r
}

/// Configuration for combining multiple indices into a single index.
pub struct CreateSingleIndexConfig {
    /// The number of bones that influence each vertex.
    ///
    /// If unset then no bone influences will be included in the final single indexed data.
    pub bone_influences_per_vertex: Option<u8>,
    /// Whether or not to calculate the tangents for each vertex.
    ///
    /// You'll want to do this when you plan to use normal mapping in your rendering pipeline.
    pub calculate_face_tangents: bool,
}

impl Default for CreateSingleIndexConfig {
    fn default() -> (r: Self)
        ensures
            r.bone_influences_per_vertex is None,
            !r.calculate_face_tangents,
    {
        CreateSingleIndexConfig { bone_influences_per_vertex: None, calculate_face_tangents: false }
    }
}

/// The state that combining the mesh's corners ends in.
pub open spec fn mesh_combine_state(m: MultiIndexedVertexAttributes) -> CombineState {
    combine_state(mesh_corners(m), max_index(m.positions.indices@))
}

/// The single index of each corner, before triangulating.
pub open spec fn combined_corner_indices(m: MultiIndexedVertexAttributes) -> Seq<u16> {
    let st = mesh_combine_state(m);
    Seq::new(st.out.len(), |i: int| st.out[i] as u16)
}

/// The `size` values of vertex `v`'s attribute `which` after combining.
pub open spec fn attr_values(
    data: Seq<u32>,
    size: int,
    made: Map<int, Corner>,
    which: int,
    v: int,
) -> Seq<u32> {
    Seq::new(size as nat, |k: int| attr_value(data, size, made, which, v, k))
}

/// Bone slot `k` of vertex `v` when `count` bones influence each vertex.
pub open spec fn combined_bone_slot(
    indices: Seq<u8>,
    weights: Seq<u32>,
    count: u8,
    v: int,
    k: int,
) -> BoneInfluence {
    if k < count {
        BoneInfluence { bone_idx: indices[v * count + k], weight: weights[v * count + k] }
    } else {
        BoneInfluence { bone_idx: 0, weight: 0 }
    }
}

/// The mesh can be combined without a panic: the corners point inside the data, the faces are
/// triangles and quads that lie inside the corners, and the bone data asked for is there.
///
/// Bones are asked for with `count` influences per vertex; `count` must be between 1 and 4,
/// every position up to the largest must have bone data and, for a mesh without bone
/// influences, no combination may need a generated vertex.
pub open spec fn combinable(m: MultiIndexedVertexAttributes, config: CreateSingleIndexConfig) -> bool {
    let l0 = max_index(m.positions.indices@);
    &&& corners_fit(m)
    &&& m.vertices_in_each_face@.len() > 0
    &&& faces_triangulable(m.vertices_in_each_face@, m.positions.indices@.len() as int)
    &&& match (m.bone_influences, config.bone_influences_per_vertex) {
        (Some(b), Some(c)) => {
            &&& influences_normalizable(b)
            &&& 0 < c <= 4
            &&& (l0 + 1) * c <= normalized_bone_indices(b, c).len()
        },
        (None, Some(c)) => mesh_combine_state(m).gens.len() == 0,
        _ => true,
    }
}

/// Combining gives corner `i` a vertex made for exactly its combination of indices.
pub proof fn lemma_corner_vertex(cs: Seq<Corner>, l0: int, i: int)
    requires
        l0 >= 0,
        forall|j: int| 0 <= j < cs.len() ==> (#[trigger] cs[j]).0 <= l0,
        0 <= i < cs.len(),
    ensures
        combine_state(cs, l0).made.contains_key(combine_state(cs, l0).out[i]),
        combine_state(cs, l0).made[combine_state(cs, l0).out[i]] == cs[i],
{
    lemma_combine_state(cs, l0);
    let st = combine_state(cs, l0);
    assert(st.ids.contains_key(cs[i]) && st.ids[cs[i]] == st.out[i]);
    assert(st.made.contains_key(st.ids[cs[i]]));
}

/// Two corners share a vertex exactly when they use the same indices: no vertex data is
/// duplicated and none is shared between different combinations.
pub proof fn lemma_same_vertex_iff_same_corner(cs: Seq<Corner>, l0: int, i: int, j: int)
    requires
        l0 >= 0,
        forall|k: int| 0 <= k < cs.len() ==> (#[trigger] cs[k]).0 <= l0,
        0 <= i < cs.len(),
        0 <= j < cs.len(),
    ensures
        (combine_state(cs, l0).out[i] == combine_state(cs, l0).out[j]) == (cs[i] == cs[j]),
{
    lemma_corner_vertex(cs, l0, i);
    lemma_corner_vertex(cs, l0, j);
    lemma_combine_state(cs, l0);
    let st = combine_state(cs, l0);
    assert(st.ids[cs[i]] == st.out[i] && st.ids[cs[j]] == st.out[j]);
}

/// The vertex of a corner holds the corner's data: value `k` of attribute `which` is the data
/// that the corner's index for that attribute points to.
pub proof fn lemma_vertex_holds_corner_data(
    data: Seq<u32>,
    size: int,
    cs: Seq<Corner>,
    l0: int,
    which: int,
    i: int,
    k: int,
)
    requires
        l0 >= 0,
        forall|j: int| 0 <= j < cs.len() ==> (#[trigger] cs[j]).0 <= l0,
        0 <= i < cs.len(),
        corner_attr(cs[i], which) is Some,
    ensures
        attr_value(data, size, combine_state(cs, l0).made, which, combine_state(cs, l0).out[i], k)
            == data[corner_attr(cs[i], which)->0 * size + k],
{
    lemma_corner_vertex(cs, l0, i);
}

/// Vertices up to the largest position index keep their index; every other vertex is a
/// generated one, made for a combination whose position had been seen before.
pub proof fn lemma_vertex_count(cs: Seq<Corner>, l0: int)
    requires
        l0 >= 0,
        forall|j: int| 0 <= j < cs.len() ==> (#[trigger] cs[j]).0 <= l0,
    ensures
        combine_state(cs, l0).largest == l0 + combine_state(cs, l0).gens.len(),
        forall|v: int| #[trigger]
            combine_state(cs, l0).made.contains_key(v) ==> 0 <= v <= combine_state(cs, l0).largest,
        forall|v: int|
            l0 < v <= combine_state(cs, l0).largest ==> #[trigger] combine_state(
                cs,
                l0,
            ).made.contains_key(v),
{
    lemma_combine_state(cs, l0);
}

impl BlenderMesh {
    /// Convert the mesh's vertex data from one index per attribute (positions, normals, uvs) to a
    /// single index, as most rendering pipelines need, duplicating as little vertex data as
    /// possible, then split the faces into triangles.
    ///
    /// A corner whose combination of indices was seen before reuses that vertex. A new
    /// combination keeps the corner's position index as its vertex when that position was not
    /// used yet, and otherwise gets a new vertex after all of the existing ones (its bone data,
    /// if any, copied from the position's). Vertices that no corner uses hold
    /// `EASILY_RECOGNIZABLE_NUMBER`.
    ///
    /// With `bone_influences_per_vertex` set, the bone influences are first made uniform (see
    /// `set_bone_influences_per_vertex`).
    ///
    /// A vertex's tangent is the sum of the tangents of the faces that `vertex_tangent_faces`
    /// lists for it, a floating point sum that this function does not compute: exactly when the
    /// configuration asks to `calculate_face_tangents`, the caller passes the sums as
    /// `vertex_tangents` (3 values per vertex) and each vertex gets its three; otherwise no
    /// vertex has a tangent.
    pub fn combine_vertex_indices(
        &mut self,
        config: &CreateSingleIndexConfig,
        vertex_tangents: Option<Vec<u32>>,
    ) -> (r: SingleIndexedVertexAttributes)
        requires
            combinable(old(self).multi_indexed_vertex_attributes, *config),
            config.calculate_face_tangents <==> vertex_tangents is Some,
            vertex_tangents matches Some(t) ==> t@.len() >= (mesh_combine_state(
                old(self).multi_indexed_vertex_attributes,
            ).largest + 1) * 3,
        ensures
            ({
                let m0 = old(self).multi_indexed_vertex_attributes;
                let m1 = final(self).multi_indexed_vertex_attributes;
                let st = mesh_combine_state(m0);
                &&& m1.vertices_in_each_face == m0.vertices_in_each_face
                &&& m1.positions == m0.positions
                &&& m1.normals == m0.normals
                &&& m1.uvs == m0.uvs
                &&& config.bone_influences_per_vertex is None ==> m1.bone_influences
                    == m0.bone_influences
                &&& config.bone_influences_per_vertex matches Some(c) ==> match m0.bone_influences {
                    None => m1.bone_influences is None,
                    Some(b) => m1.bone_influences matches Some(nb) && nb.bones_per_vertex
                        == BoneInfluencesPerVertex::Uniform(c) && nb.bone_indices@
                        == normalized_bone_indices(b, c) && nb.bone_weights@
                        == normalized_bone_weights(b, c),
                }
                &&& r.indices@ == triangulated(m0.vertices_in_each_face@, combined_corner_indices(m0))
                &&& r.vertices@.len() == st.largest + 1
                &&& forall|v: int|
                    0 <= v < r.vertices@.len() ==> {
                        let vx = #[trigger] r.vertices@[v];
                        &&& vx.position@ == attr_values(
                            m0.positions.attribute.data@,
                            3,
                            st.made,
                            0,
                            v,
                        )
                        &&& match m0.normals {
                            Some(a) => vx.normal matches Some(x) && x@ == attr_values(
                                a.attribute.data@,
                                3,
                                st.made,
                                1,
                                v,
                            ),
                            None => vx.normal is None,
                        }
                        &&& match m0.uvs {
                            Some(a) => vx.uv matches Some(x) && x@ == attr_values(
                                a.attribute.data@,
                                2,
                                st.made,
                                2,
                                v,
                            ),
                            None => vx.uv is None,
                        }
                        &&& match vertex_tangents {
                            Some(t) => vx.face_tangent matches Some(x) && x@ == t@.subrange(
                                v * 3,
                                v * 3 + 3,
                            ),
                            None => vx.face_tangent is None,
                        }
                        &&& match (m0.bone_influences, config.bone_influences_per_vertex) {
                            (Some(b), Some(c)) => {
                                let bi = normalized_bone_indices(b, c);
                                let bw = normalized_bone_weights(b, c);
                                let fi = bi + generated_bone_data(bi, st.gens, c as int);
                                let fw = bw + generated_bone_data(bw, st.gens, c as int);
                                vx.bones matches Some(x) && x@ == Seq::new(
                                    4,
                                    |k: int| combined_bone_slot(fi, fw, c, v, k),
                                )
                            },
                            _ => vx.bones is None,
                        }
                    }
            }),
            final(self).name == old(self).name,
            final(self).armature_name == old(self).armature_name,
            final(self).bounding_box == old(self).bounding_box,
            final(self).materials == old(self).materials,
            final(self).custom_properties == old(self).custom_properties,
            ({
                let m0 = old(self).multi_indexed_vertex_attributes;
                let st = mesh_combine_state(m0);
                match (m0.bone_influences, config.bone_influences_per_vertex) {
                    (Some(b), Some(c)) => normalized_bone_indices(b, c).len() == (max_index(
                        m0.positions.indices@,
                    ) + 1) * c ==> forall|v: int|
                        0 <= v < r.vertices@.len() && st.made.contains_key(v) ==> vertex_bones_of_position(
                            #[trigger] r.vertices@[v],
                            normalized_bone_indices(b, c),
                            normalized_bone_weights(b, c),
                            c,
                            st.made[v].0 as int,
                        ),
                    _ => true,
                }
            }),
    {
        let ghost m0 = self.multi_indexed_vertex_attributes;
        if let Some(c) = config.bone_influences_per_vertex {
            self.multi_indexed_vertex_attributes.set_bone_influences_per_vertex(c);
        }
        let multi = &self.multi_indexed_vertex_attributes;
        proof {
            assert(mesh_corners(*multi) =~= mesh_corners(m0));
        }
        let (bones, count): (Option<(Vec<u8>, Vec<u32>)>, u8) = match (
            &multi.bone_influences,
            config.bone_influences_per_vertex,
        ) {
            (Some(b), Some(c)) => (Some((copy_vec(&b.bone_indices), copy_vec(&b.bone_weights))), c),
            _ => (None, 0),
        };
        let ghost st = mesh_combine_state(m0);
        let ghost l0 = max_index(m0.positions.indices@);
        let ghost base_i: Seq<u8> = match bones {
            Some((ref a, _)) => a@,
            None => seq![],
        };
        let ghost base_w: Seq<u32> = match bones {
            Some((_, ref b)) => b@,
            None => seq![],
        };
        proof {
            lemma_max_index(m0.positions.indices@);
            if bones is Some {
                assert((l0 + 1) * count <= base_i.len() && (l0 + 1) * count <= base_w.len());
            }
        }
        let combined = combine_corners(multi, bones, count);
        let indices = triangulate_indices(&multi.vertices_in_each_face, &combined.corner_vertices);
        proof {
            assert(combined.corner_vertices@ =~= combined_corner_indices(m0));
            let vcount = st.largest + 1;
            assert(combined.positions@.len() / 3 == vcount);
        }
        let bone_attributes: Option<(BoneAttributes, u8)> = match combined.bones {
            Some((bi, bw)) => {
                proof {
                    let c = count as int;
                    let g = st.gens.len() as int;
                    lemma_generated_len(base_i, st.gens, count as nat);
                    lemma_generated_len(base_w, st.gens, count as nat);
                    assert(st.largest + 1 == l0 + 1 + g);
                    assert((l0 + 1) * c + g * c == (st.largest + 1) * c && (l0 + 1) * c >= 1)
                        by (nonlinear_arith)
                        requires
                            st.largest + 1 == l0 + 1 + g,
                            l0 >= 0,
                            c >= 1,
                    ;
                }
                Some(
                    (
                        BoneAttributes {
                            bone_influencers: VertexAttribute::new(bi, count).unwrap(),
                            bone_weights: VertexAttribute::new(bw, count).unwrap(),
                        },
                        count,
                    ),
                )
            },
            None => None,
        };
        let vertices = make_vertices(
            combined.positions,
            combined.normals,
            combined.uvs,
            vertex_tangents,
            bone_attributes,
        );
        let r = SingleIndexedVertexAttributes { indices, vertices };
        proof {
            match (m0.bone_influences, config.bone_influences_per_vertex) {
                (Some(b), Some(c)) => {
                    let bi = normalized_bone_indices(b, c);
                    let bw = normalized_bone_weights(b, c);
                    if bi.len() == (l0 + 1) * c {
                        assert(bw.len() == bi.len());
                        let cs = mesh_corners(m0);
                        lemma_max_index(m0.positions.indices@);
                        assert forall|j: int| 0 <= j < cs.len() implies (#[trigger] cs[j]).0 <= l0 by {
                            assert(cs[j].0 == m0.positions.indices@[j]);
                        }
                        let fi = bi + generated_bone_data(bi, st.gens, c as int);
                        let fw = bw + generated_bone_data(bw, st.gens, c as int);
                        assert forall|v: int|
                            0 <= v < r.vertices@.len() && st.made.contains_key(v) implies vertex_bones_of_position(
                            #[trigger] r.vertices@[v],
                            bi,
                            bw,
                            c,
                            st.made[v].0 as int,
                        ) by {
                            let x = r.vertices@[v];
                            assert(x.bones matches Some(bs) && bs@ == Seq::new(
                                4,
                                |k: int| combined_bone_slot(fi, fw, c, v, k),
                            ));
                            let bs = x.bones->0;
                            assert forall|k: int| 0 <= k < c implies #[trigger] bs@[k] == (BoneInfluence {
                                bone_idx: bi[st.made[v].0 * c + k],
                                weight: bw[st.made[v].0 * c + k],
                            }) by {
                                lemma_vertex_bones_follow_positions(cs, l0 as int, bi, c as int, v, k);
                                lemma_vertex_bones_follow_positions(cs, l0 as int, bw, c as int, v, k);
                                assert(bs@[k] == combined_bone_slot(fi, fw, c, v, k));
                            }
                        }
                    }
                },
                _ => {},
            }
        }
        r
    }

    /// For each vertex that `combine_vertex_indices` makes, the faces (in corner order) of the
    /// corners that use it: the faces whose tangents the vertex's tangent sums.
    pub fn vertex_tangent_faces(&self) -> (r: Vec<Vec<usize>>)
        requires
            corners_fit(self.multi_indexed_vertex_attributes),
            self.multi_indexed_vertex_attributes.vertices_in_each_face@.len() > 0,
            forall|h: int|
                0 <= h < self.multi_indexed_vertex_attributes.vertices_in_each_face@.len()
                    ==> #[trigger] self.multi_indexed_vertex_attributes.vertices_in_each_face@[h] > 0,
        ensures
            ({
                let m = self.multi_indexed_vertex_attributes;
                &&& r@.len() == mesh_combine_state(m).largest + 1
                &&& forall|v: int|
                    0 <= v < r@.len() ==> (#[trigger] r@[v])@ == faces_of_vertex(
                        combined_corner_indices(m),
                        m.vertices_in_each_face@,
                        v,
                        m.positions.indices@.len() as int,
                    )
                &&& forall|v: int|
                    0 <= v < r@.len() ==> faces_of_corners_using(
                        combined_corner_indices(m),
                        m.vertices_in_each_face@,
                        v,
                        m.positions.indices@.len() as int,
                        #[trigger] r@[v]@,
                    )
            }),
    {
        let m = &self.multi_indexed_vertex_attributes;
        let combined = combine_corners(m, None, 0);
        proof {
            assert(combined.corner_vertices@ =~= combined_corner_indices(*m));
        }
        let vertex_count = combined.positions.len() / 3;
        tangent_faces_by_vertex(&combined.corner_vertices, &m.vertices_in_each_face, vertex_count)
    }
}

} // verus!
