//! Vertex data with one index buffer per attribute, as exported from Blender.
use vstd::prelude::*;
use crate::float_bits::{float_order_key, is_nan, order_key, spec_is_nan};
use crate::mesh::vertex_attribute::VertexAttribute;
use crate::sorting::{insert_by_key, lemma_insert_at, lemma_sort_by_key, lemma_sort_take_step, sort_by_key};

verus! {

/// Indices into the data of an attribute, one per corner of each face.
#[derive(Debug, PartialEq, Clone, Default)]
pub struct IndexedAttribute {
    /// Which vertex of the attribute each face corner uses.
    pub indices: Vec<u16>,
    /// The attribute's data (bits of `f32`s).
    pub attribute: VertexAttribute<u32>,
}

impl IndexedAttribute {
    /// Pair indices with the attribute they index into.
    pub fn new(indices: Vec<u16>, attribute: VertexAttribute<u32>) -> (r: IndexedAttribute)
        ensures
            r.indices@ == indices@,
            r.attribute == attribute,
    {
        IndexedAttribute { indices, attribute }
    }
}

/// The number of bones that influence each vertex.
///
/// When exported from Blender this is non uniform; it becomes uniform once
/// `set_bone_influences_per_vertex` gives every vertex the same number of influences.
#[derive(Debug, PartialEq, Clone)]
pub enum BoneInfluencesPerVertex {
    /// The number of bones influencing each vertex, vertex by vertex.
    NonUniform(Vec<u8>),
    /// Every vertex is influenced by this many bones.
    Uniform(u8),
}

impl Default for BoneInfluencesPerVertex {
    fn default() -> (r: Self)
        ensures
            r == BoneInfluencesPerVertex::Uniform(0),
    {
        BoneInfluencesPerVertex::Uniform(0)
    }
}

/// The amount that each bone in the mesh's parent armature influences each vertex.
///
/// For example, if `bone_indices = [0, 1, 2, 2, 5]`, `bone_weights = [0.2, 0.4, 0.2, 0.5, 0.5]`
/// and `bones_per_vertex = [3, 2]` then the first vertex is influenced by bone 0 by 0.2, bone 1
/// by 0.4 and bone 2 by 0.2, and the second vertex by bone 2 by 0.5 and bone 5 by 0.5.
#[derive(Debug, PartialEq, Clone, Default)]
pub struct BoneInfluences {
    /// The number of bones that affect each vertex.
    pub bones_per_vertex: BoneInfluencesPerVertex,
    /// The indices of the bones that affect each vertex.
    pub bone_indices: Vec<u8>,
    /// The corresponding weight (bits of an `f32`) of each bone index.
    pub bone_weights: Vec<u32>,
}

/// Vertex data with multiple indices: one for positions, one for normals and one for uvs.
#[derive(Debug, PartialEq, Clone, Default)]
pub struct MultiIndexedVertexAttributes {
    /// The number of vertices of each face: `[3, 4, 4]` is a triangle followed by two quads.
    pub vertices_in_each_face: Vec<u8>,
    /// Position indices (3 values per position).
    pub positions: IndexedAttribute,
    /// Normal indices (3 values per normal).
    pub normals: Option<IndexedAttribute>,
    /// Uv indices (2 values per uv).
    pub uvs: Option<IndexedAttribute>,
    /// How the bones of the parent armature influence each position.
    pub bone_influences: Option<BoneInfluences>,
}

/// The sum of the counts.
pub open spec fn sum_counts(counts: Seq<u8>) -> int
    decreases counts.len(),
{
    if counts.len() == 0 {
        0
    } else {
        sum_counts(counts.drop_last()) + counts.last()
    }
}

/// Where the data of group `g` starts: the sum of the counts before it.
pub open spec fn group_start(counts: Seq<u8>, g: int) -> int {
    sum_counts(counts.take(g))
}

/// Orders (weight, bone index) pairs by descending weight.
pub open spec fn descending_weight() -> spec_fn((u32, u8)) -> int {
    |p: (u32, u8)| -order_key(p.0)
}

/// The (weight, bone index) pairs of group `g`, in their stored order.
pub open spec fn group_pairs(counts: Seq<u8>, weights: Seq<u32>, indices: Seq<u8>, g: int) -> Seq<
    (u32, u8),
> {
    Seq::new(
        counts[g] as nat,
        |k: int| (weights[group_start(counts, g) + k], indices[group_start(counts, g) + k]),
    )
}

/// Group `g`'s pairs sorted (stably) by descending weight, then cut or padded with `(0, 0)` to
/// `count` pairs.
pub open spec fn normalized_group(
    counts: Seq<u8>,
    weights: Seq<u32>,
    indices: Seq<u8>,
    g: int,
    count: u8,
) -> Seq<(u32, u8)> {
    let sorted = sort_by_key(group_pairs(counts, weights, indices, g), descending_weight());
    Seq::new(count as nat, |k: int| if k < sorted.len() { sorted[k] } else { (0u32, 0u8) })
}

/// The normalized groups `0..n`, one after the other.
pub open spec fn normalized_pairs(
    counts: Seq<u8>,
    weights: Seq<u32>,
    indices: Seq<u8>,
    count: u8,
    n: int,
) -> Seq<(u32, u8)>
    decreases n,
{
    if n <= 0 {
        seq![]
    } else {
        normalized_pairs(counts, weights, indices, count, n - 1) + normalized_group(
            counts,
            weights,
            indices,
            n - 1,
            count,
        )
    }
}

/// The normalized (weight, bone index) pairs of the bone influences `b`: none when the
/// influences are already uniform.
pub open spec fn normalized_influence_pairs(b: BoneInfluences, count: u8) -> Seq<(u32, u8)> {
    match b.bones_per_vertex {
        BoneInfluencesPerVertex::NonUniform(counts) => normalized_pairs(
            counts@,
            b.bone_weights@,
            b.bone_indices@,
            count,
            counts@.len() as int,
        ),
        BoneInfluencesPerVertex::Uniform(_) => seq![],
    }
}

/// The bone indices that `set_bone_influences_per_vertex(count)` makes of `b`.
pub open spec fn normalized_bone_indices(b: BoneInfluences, count: u8) -> Seq<u8> {
    normalized_influence_pairs(b, count).map_values(|p: (u32, u8)| p.1)
}

/// The bone weights that `set_bone_influences_per_vertex(count)` makes of `b`.
pub open spec fn normalized_bone_weights(b: BoneInfluences, count: u8) -> Seq<u32> {
    normalized_influence_pairs(b, count).map_values(|p: (u32, u8)| p.0)
}

/// The bone influences can be normalized without a panic: the groups lie inside the data and no
/// group that has to be sorted (two or more influences) holds a NaN weight.
pub open spec fn influences_normalizable(b: BoneInfluences) -> bool {
    match b.bones_per_vertex {
        BoneInfluencesPerVertex::NonUniform(counts) => {
            &&& sum_counts(counts@) <= b.bone_weights@.len()
            &&& sum_counts(counts@) <= b.bone_indices@.len()
            &&& sum_counts(counts@) <= u32::MAX
            &&& forall|g: int, k: int|
                0 <= g < counts@.len() && counts@[g] >= 2 && 0 <= k < counts@[g] ==> !spec_is_nan(
                    (#[trigger] group_pairs(counts@, b.bone_weights@, b.bone_indices@, g)[k]).0,
                )
        },
        BoneInfluencesPerVertex::Uniform(_) => true,
    }
}

/// The prefix sums grow by one count at a time.
pub proof fn lemma_sum_take_step(counts: Seq<u8>, g: int)
    requires
        0 <= g < counts.len(),
    ensures
        sum_counts(counts.take(g + 1)) == sum_counts(counts.take(g)) + counts[g],
{
    assert(counts.take(g + 1).drop_last() =~= counts.take(g));
}

/// A prefix sum is at most the whole sum.
pub proof fn lemma_sum_take_le(counts: Seq<u8>, g: int)
    requires
        0 <= g <= counts.len(),
    ensures
        0 <= sum_counts(counts.take(g)) <= sum_counts(counts),
    decreases counts.len(),
{
    if g == counts.len() {
        assert(counts.take(g) =~= counts);
        lemma_sum_nonneg(counts);
    } else {
        lemma_sum_take_le(counts.drop_last(), g);
        assert(counts.drop_last().take(g) =~= counts.take(g));
    }
}

/// Sums of counts are not negative.
pub proof fn lemma_sum_nonneg(counts: Seq<u8>)
    ensures
        sum_counts(counts) >= 0,
    decreases counts.len(),
{
    if counts.len() > 0 {
        lemma_sum_nonneg(counts.drop_last());
    }
}

/// Sort (weight, bone index) pairs stably by descending weight.
fn sort_by_descending_weight(v: Vec<(u32, u8)>) -> (r: Vec<(u32, u8)>)
    ensures
        r@ == sort_by_key(v@, descending_weight()),
{
    let mut out: Vec<(u32, u8)> = Vec::new();
    let mut i: usize = 0;
    assert(v@.take(0) =~= Seq::<(u32, u8)>::empty());
    while i < v.len()
        invariant
            i <= v@.len(),
            out@ == sort_by_key(v@.take(i as int), descending_weight()),
        decreases v@.len() - i,
    {
        let x = v[i];
        let kx = float_order_key(x.0);
        proof {
            lemma_sort_by_key(v@.take(i as int), descending_weight());
        }
        let mut p = out.len();
        while p > 0 && float_order_key(out[p - 1].0) < kx
            invariant
                p <= out@.len(),
                kx == order_key(x.0),
                forall|j: int|
                    p <= j < out@.len() ==> (descending_weight())(#[trigger] out@[j])
                        > (descending_weight())(x),
            decreases p,
        {
            p = p - 1;
        }
        proof {
            lemma_insert_at(out@, x, descending_weight(), p as int);
            lemma_sort_take_step(v@, descending_weight(), i as int);
        }
        out.insert(p, x);
        i = i + 1;
    }
    assert(v@.take(v@.len() as int) =~= v@);
    out
}

impl MultiIndexedVertexAttributes {
    /// Give every vertex the same number, `count`, of bone influences.
    ///
    /// Different vertices might be influenced by different numbers of bones, but a GPU needs the
    /// same number of bone attributes for each vertex. Each vertex's influences are sorted by
    /// descending weight; a vertex with too few gets fake bones (index 0, weight 0.0), and one
    /// with too many loses those with the smallest weights.
    ///
    /// Influences that are already uniform are replaced by empty data.
    pub fn set_bone_influences_per_vertex(&mut self, count: u8)
        requires
            old(self).bone_influences matches Some(b) ==> influences_normalizable(b),
        ensures
            final(self).vertices_in_each_face == old(self).vertices_in_each_face,
            final(self).positions == old(self).positions,
            final(self).normals == old(self).normals,
            final(self).uvs == old(self).uvs,
            old(self).bone_influences is None ==> final(self).bone_influences is None,
            old(self).bone_influences matches Some(b) ==> final(self).bone_influences matches Some(
                nb,
            ) && nb.bones_per_vertex == BoneInfluencesPerVertex::Uniform(count)
                && nb.bone_indices@ == normalized_bone_indices(b, count)
                && nb.bone_weights@ == normalized_bone_weights(b, count),
    {
        let (new_indices, new_weights) = match &self.bone_influences {
            None => {
                return ;
            },
            Some(b) => normalize_influences(b, count),
        };
        self.bone_influences = Some(
            BoneInfluences {
                bones_per_vertex: BoneInfluencesPerVertex::Uniform(count),
                bone_indices: new_indices,
                bone_weights: new_weights,
            },
        );
    }
}

/// The indices and weights of the normalized groups.
fn normalize_influences(b: &BoneInfluences, count: u8) -> (r: (Vec<u8>, Vec<u32>))
    requires
        influences_normalizable(*b),
    ensures
        r.0@ == normalized_bone_indices(*b, count),
        r.1@ == normalized_bone_weights(*b, count),
{
    let mut out_indices: Vec<u8> = Vec::new();
    let mut out_weights: Vec<u32> = Vec::new();
    let counts = match &b.bones_per_vertex {
        BoneInfluencesPerVertex::NonUniform(counts) => counts,
        BoneInfluencesPerVertex::Uniform(_) => {
            assert(out_indices@ =~= Seq::<(u32, u8)>::empty().map_values(|p: (u32, u8)| p.1));
            assert(out_weights@ =~= Seq::<(u32, u8)>::empty().map_values(|p: (u32, u8)| p.0));
            return (out_indices, out_weights);
        },
    };
    let ghost weights = b.bone_weights@;
    let ghost indices = b.bone_indices@;
    let mut current: usize = 0;
    let mut g: usize = 0;
    assert(counts@.take(0) =~= Seq::<u8>::empty());
    while g < counts.len()
        invariant
            influences_normalizable(*b),
            b.bones_per_vertex == BoneInfluencesPerVertex::NonUniform(*counts),
            weights == b.bone_weights@,
            indices == b.bone_indices@,
            g <= counts@.len(),
            current == group_start(counts@, g as int),
            out_indices@ == normalized_pairs(counts@, weights, indices, count, g as int).map_values(
                |p: (u32, u8)| p.1,
            ),
            out_weights@ == normalized_pairs(counts@, weights, indices, count, g as int).map_values(
                |p: (u32, u8)| p.0,
            ),
        decreases counts@.len() - g,
    {
        let group_count = counts[g] as usize;
        proof {
            lemma_sum_take_step(counts@, g as int);
            lemma_sum_take_le(counts@, g as int + 1);
        }
        let mut pairs: Vec<(u32, u8)> = Vec::new();
        let mut k: usize = 0;
        let n_weights = b.bone_weights.len();
        while k < group_count
            invariant
                group_count == counts@[g as int],
                current + group_count <= weights.len(),
                current + group_count <= indices.len(),
                weights.len() == n_weights,
                weights == b.bone_weights@,
                indices == b.bone_indices@,
                current == group_start(counts@, g as int),
                k <= group_count,
                pairs@ =~= group_pairs(counts@, weights, indices, g as int).take(k as int),
            decreases group_count - k,
        {
            pairs.push((b.bone_weights[current + k], b.bone_indices[current + k]));
            k = k + 1;
        }
        assert(pairs@ =~= group_pairs(counts@, weights, indices, g as int));
        let sorted = sort_by_descending_weight(pairs);
        proof {
            lemma_sort_by_key(group_pairs(counts@, weights, indices, g as int), descending_weight());
        }
        let ghost ng = normalized_group(counts@, weights, indices, g as int, count);
        let ghost before_i = out_indices@;
        let ghost before_w = out_weights@;
        let mut j: usize = 0;
        while j < count as usize
            invariant
                sorted@ == sort_by_key(group_pairs(counts@, weights, indices, g as int), descending_weight()),
                ng == normalized_group(counts@, weights, indices, g as int, count),
                j <= count,
                out_indices@ == before_i + ng.take(j as int).map_values(|p: (u32, u8)| p.1),
                out_weights@ == before_w + ng.take(j as int).map_values(|p: (u32, u8)| p.0),
            decreases count - j,
        {
            let pair = if j < sorted.len() {
                sorted[j]
            } else {
                (0u32, 0u8)
            };
            assert(pair == ng[j as int]);
            out_indices.push(pair.1);
            out_weights.push(pair.0);
            proof {
                assert(ng.take(j + 1) =~= ng.take(j as int).push(pair));
                assert(out_indices@ =~= before_i + ng.take(j + 1).map_values(|p: (u32, u8)| p.1));
                assert(out_weights@ =~= before_w + ng.take(j + 1).map_values(|p: (u32, u8)| p.0));
            }
            j = j + 1;
        }
        proof {
            assert(ng.take(count as int) =~= ng);
            let prev = normalized_pairs(counts@, weights, indices, count, g as int);
            assert(normalized_pairs(counts@, weights, indices, count, g + 1) == prev + ng);
            assert((prev + ng).map_values(|p: (u32, u8)| p.1) =~= prev.map_values(|p: (u32, u8)| p.1)
                + ng.map_values(|p: (u32, u8)| p.1));
            assert((prev + ng).map_values(|p: (u32, u8)| p.0) =~= prev.map_values(|p: (u32, u8)| p.0)
                + ng.map_values(|p: (u32, u8)| p.0));
        }
        current = current + group_count;
        g = g + 1;
    }
    (out_indices, out_weights)
}

/// Value `k` of vertex `g` in the normalized pairs is value `k` of vertex `g`'s normalized group.
pub proof fn lemma_normalized_pairs_index(
    counts: Seq<u8>,
    weights: Seq<u32>,
    indices: Seq<u8>,
    count: u8,
    n: int,
    g: int,
    k: int,
)
    requires
        0 <= g < n,
        0 <= k < count,
    ensures
        normalized_pairs(counts, weights, indices, count, n)[g * count + k] == normalized_group(
            counts,
            weights,
            indices,
            g,
            count,
        )[k],
    decreases n,
{
    lemma_normalized_len(counts, weights, indices, count, n - 1);
    let c = count as int;
    if g < n - 1 {
        lemma_normalized_pairs_index(counts, weights, indices, count, n - 1, g, k);
        assert(g * c + k < (n - 1) * c) by (nonlinear_arith)
            requires
                g < n - 1,
                0 <= k < c,
        ;
    } else {
        assert(g * c + k - (n - 1) * c == k) by (nonlinear_arith)
            requires
                g == n - 1,
        ;
        assert(g * c + k >= (n - 1) * c) by (nonlinear_arith)
            requires
                g == n - 1,
                k >= 0,
        ;
    }
}

/// A normalized vertex holds its heaviest influences first: its first `min(counts[g], count)`
/// pairs are pairs of vertex `g`, in descending order of weight, and the rest are `(0, 0)`.
pub proof fn lemma_normalized_group_sorted(
    counts: Seq<u8>,
    weights: Seq<u32>,
    indices: Seq<u8>,
    g: int,
    count: u8,
)
    requires
        0 <= g < counts.len(),
    ensures
        ({
            let ng = normalized_group(counts, weights, indices, g, count);
            let m = if counts[g] < count { counts[g] as int } else { count as int };
            &&& ng.len() == count
            &&& forall|i: int, j: int|
                0 <= i <= j < m ==> order_key((#[trigger] ng[i]).0) >= order_key((#[trigger] ng[j]).0)
            &&& forall|k: int|
                0 <= k < m ==> group_pairs(counts, weights, indices, g).contains(#[trigger] ng[k])
            &&& forall|k: int| m <= k < count ==> #[trigger] ng[k] == (0u32, 0u8)
        }),
{
    broadcast use vstd::seq_lib::group_to_multiset_ensures;

    let pairs = group_pairs(counts, weights, indices, g);
    let sorted = sort_by_key(pairs, descending_weight());
    lemma_sort_by_key(pairs, descending_weight());
    let ng = normalized_group(counts, weights, indices, g, count);
    assert forall|k: int| 0 <= k < sorted.len() implies pairs.contains(#[trigger] sorted[k]) by {
        assert(sorted.to_multiset().count(sorted[k]) > 0);
    }
    assert forall|i: int, j: int| 0 <= i <= j < sorted.len() implies order_key((#[trigger] sorted[i]).0)
        >= order_key((#[trigger] sorted[j]).0) by {
        assert(descending_weight()(sorted[i]) <= descending_weight()(sorted[j]));
    }
}

/// Making the influences uniform keeps each vertex's heaviest influences, heaviest first: for
/// vertex `g` (of `counts[g]` influences), its slots `g * count .. (g + 1) * count` hold first
/// `min(counts[g], count)` influences of that vertex in descending order of weight, and then
/// padding (bone 0, weight 0).
pub proof fn lemma_normalized_influences(b: BoneInfluences, count: u8, g: int)
    requires
        b.bones_per_vertex is NonUniform,
        0 <= g < b.bones_per_vertex->NonUniform_0@.len(),
    ensures
        ({
            let counts = b.bones_per_vertex->NonUniform_0@;
            let c = count as int;
            let ni = normalized_bone_indices(b, count);
            let nw = normalized_bone_weights(b, count);
            let wi = ni.subrange(g * c, g * c + c);
            let ww = nw.subrange(g * c, g * c + c);
            let m = if counts[g] < count { counts[g] as int } else { c };
            let pairs = group_pairs(counts, b.bone_weights@, b.bone_indices@, g);
            &&& ni.len() == counts.len() * c
            &&& nw.len() == counts.len() * c
            &&& 0 <= g * c
            &&& g * c + c <= counts.len() * c
            &&& forall|i: int, j: int| 0 <= i <= j < m ==> order_key(#[trigger] ww[i]) >= order_key(#[trigger] ww[j])
            &&& forall|k: int| 0 <= k < m ==> pairs.contains((#[trigger] ww[k], wi[k]))
            &&& forall|k: int| m <= k < c ==> #[trigger] ww[k] == 0 && wi[k] == 0
        }),
{
    let counts = b.bones_per_vertex->NonUniform_0@;
    let n = counts.len() as int;
    let c = count as int;
    let np = normalized_pairs(counts, b.bone_weights@, b.bone_indices@, count, n);
    let ni = normalized_bone_indices(b, count);
    let nw = normalized_bone_weights(b, count);
    lemma_normalized_len(counts, b.bone_weights@, b.bone_indices@, count, n);
    lemma_normalized_group_sorted(counts, b.bone_weights@, b.bone_indices@, g, count);
    let ng = normalized_group(counts, b.bone_weights@, b.bone_indices@, g, count);
    assert(0 <= g * c && g * c + c <= n * c) by (nonlinear_arith)
        requires
            0 <= g < n,
            c >= 0,
    ;
    let wi = ni.subrange(g * c, g * c + c);
    let ww = nw.subrange(g * c, g * c + c);
    assert forall|k: int| 0 <= k < c implies #[trigger] ww[k] == ng[k].0 && wi[k] == ng[k].1 by {
        lemma_normalized_pairs_index(counts, b.bone_weights@, b.bone_indices@, count, n, g, k);
        assert(0 <= g * c + k < n * c);
        assert(nw[g * c + k] == np[g * c + k].0);
        assert(ni[g * c + k] == np[g * c + k].1);
    }
    let m = if counts[g] < count { counts[g] as int } else { c };
    assert forall|k: int| 0 <= k < m implies group_pairs(counts, b.bone_weights@, b.bone_indices@, g).contains(
        (#[trigger] ww[k], wi[k]),
    ) by {
        assert(ng[k] == (ww[k], wi[k]));
    }
    assert forall|i: int, j: int| 0 <= i <= j < m implies order_key(#[trigger] ww[i]) >= order_key(
        #[trigger] ww[j],
    ) by {
        assert(ww[i] == ng[i].0 && ww[j] == ng[j].0);
    }
    assert forall|k: int| m <= k < c implies #[trigger] ww[k] == 0 && wi[k] == 0 by {
        assert(ng[k] == (0u32, 0u8));
    }
}

/// Making the influences uniform gives every vertex exactly `count` influences.
pub proof fn lemma_normalized_len(counts: Seq<u8>, weights: Seq<u32>, indices: Seq<u8>, count: u8, n: int)
    requires
        n >= 0,
    ensures
        normalized_pairs(counts, weights, indices, count, n).len() == n * count,
    decreases n,
{
    if n > 0 {
        lemma_normalized_len(counts, weights, indices, count, n - 1);
        let prev = normalized_pairs(counts, weights, indices, count, n - 1);
        let g = normalized_group(counts, weights, indices, n - 1, count);
        assert(g.len() == count);
        assert(normalized_pairs(counts, weights, indices, count, n) == prev + g);
        assert(n * count == (n - 1) * count + count) by (nonlinear_arith);
    } else {
        assert(n * count == 0) by (nonlinear_arith)
            requires
                n == 0,
        ;
    }
}

impl From<Vec<u8>> for BoneInfluencesPerVertex {
    /// The per vertex counts of influences, as exported from Blender.
    fn from(influences: Vec<u8>) -> (r: Self)
        ensures
            r == BoneInfluencesPerVertex::NonUniform(influences),
    {
        BoneInfluencesPerVertex::NonUniform(influences)
    }
}

impl vstd::std_specs::convert::FromSpecImpl<Vec<u8>> for BoneInfluencesPerVertex {
    open spec fn obeys_from_spec() -> bool {
        true
    }

    open spec fn from_spec(v: Vec<u8>) -> Self {
        BoneInfluencesPerVertex::NonUniform(v)
    }
}

} // verus!
