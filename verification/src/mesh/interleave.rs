//! Interleaving vertex attributes into a single buffer.
use vstd::prelude::*;
use crate::mesh::single_indexed::SingleIndexedVertexAttributes;
use crate::mesh::vertex_attribute::{spec_data_at, VertexAttribute};

verus! {

/// An error while interleaving vertex data.
#[derive(Debug, PartialEq, Clone)]
pub enum InterleaveError {
    /// Fewer than two buffers were provided, so there is nothing to interleave.
    RequiresAtLeastTwoBuffers {
        /// The number of buffers provided.
        num_provided: usize,
    },
    /// The attributes do not hold data for the same number of vertices.
    MismatchedLengths,
}

/// Every attribute holds data for the same number of vertices: the same length per value of
/// attribute size, and no attribute size is zero.
pub open spec fn attribute_lengths_match<T>(a: Seq<&VertexAttribute<T>>) -> bool {
    forall|i: int|
        0 <= i < a.len() ==> (#[trigger] a[i]).attribute_size > 0 && a[i].data@.len()
            * a[0].attribute_size == a[0].data@.len() * a[i].attribute_size
}

/// Every attribute has a size of zero but holds data: interleaving them never ends.
pub open spec fn attributes_never_end<T>(a: Seq<&VertexAttribute<T>>) -> bool {
    forall|i: int| 0 <= i < a.len() ==> (#[trigger] a[i]).attribute_size == 0 && a[i].data@.len() > 0
}

/// The number of vertices that the attributes hold data for.
pub open spec fn attribute_vertex_count<T>(a: Seq<&VertexAttribute<T>>) -> int {
    a[0].data@.len() as int / a[0].attribute_size as int
}

/// Vertex `v`'s data from the first `k` attributes, one after the other.
pub open spec fn vertex_record<T>(a: Seq<&VertexAttribute<T>>, v: int, k: int) -> Seq<T>
    decreases k,
{
    if k <= 0 {
        seq![]
    } else {
        vertex_record(a, v, k - 1) + spec_data_at(
            a[k - 1].data@,
            a[k - 1].attribute_size as int,
            v,
        )
    }
}

/// The records of vertices `0..n`, one after the other.
pub open spec fn interleaved<T>(a: Seq<&VertexAttribute<T>>, n: int) -> Seq<T>
    decreases n,
{
    if n <= 0 {
        seq![]
    } else {
        interleaved(a, n - 1) + vertex_record(a, n - 1, a.len() as int)
    }
}

/// The total size of the first `j` attributes: where attribute `j` starts in a vertex's record.
pub open spec fn sizes_before<T>(a: Seq<&VertexAttribute<T>>, j: int) -> int
    decreases j,
{
    if j <= 0 {
        0
    } else {
        sizes_before(a, j - 1) + a[j - 1].attribute_size
    }
}

/// Where value `t` of attribute `j` of vertex `v` goes in the interleaved buffer.
pub open spec fn interleave_slot<T>(a: Seq<&VertexAttribute<T>>, v: int, j: int, t: int) -> int {
    v * sizes_before(a, a.len() as int) + sizes_before(a, j) + t
}

/// Sizes of attributes add up without going down.
proof fn lemma_sizes_before_grows<T>(a: Seq<&VertexAttribute<T>>, i: int, j: int)
    requires
        0 <= i <= j,
    ensures
        0 <= sizes_before(a, i) <= sizes_before(a, j),
    decreases j,
{
    if j > i {
        lemma_sizes_before_grows(a, i, j - 1);
    } else if i > 0 {
        lemma_sizes_before_grows(a, 0, i - 1);
    }
}

/// A vertex's record holds each attribute's values for the vertex, one attribute after the
/// other.
pub proof fn lemma_vertex_record_layout<T>(a: Seq<&VertexAttribute<T>>, v: int, k: int)
    requires
        0 <= v,
        0 <= k <= a.len(),
        forall|j: int| 0 <= j < k ==> (v + 1) * (#[trigger] a[j]).attribute_size <= a[j].data@.len(),
    ensures
        vertex_record(a, v, k).len() == sizes_before(a, k),
        forall|j: int, t: int|
            0 <= j < k && 0 <= t < a[j].attribute_size ==> #[trigger] vertex_record(a, v, k)[sizes_before(a, j) + t]
                == a[j].data@[v * a[j].attribute_size + t],
    decreases k,
{
    if k > 0 {
        lemma_vertex_record_layout(a, v, k - 1);
        let s = a[k - 1].attribute_size as int;
        let prev = vertex_record(a, v, k - 1);
        assert(v * s + s == (v + 1) * s) by (nonlinear_arith);
        assert(0 <= v * s) by (nonlinear_arith)
            requires
                v >= 0,
                s >= 0,
        ;
        assert forall|j: int, t: int|
            0 <= j < k && 0 <= t < a[j].attribute_size implies #[trigger] vertex_record(a, v, k)[sizes_before(a, j) + t]
                == a[j].data@[v * a[j].attribute_size + t] by {
            assert(sizes_before(a, j + 1) == sizes_before(a, j) + a[j].attribute_size);
            lemma_sizes_before_grows(a, 0, j);
            if j < k - 1 {
                lemma_sizes_before_grows(a, j + 1, k - 1);
                assert(vertex_record(a, v, k - 1)[sizes_before(a, j) + t] == a[j].data@[v * a[j].attribute_size + t]);
                assert(vertex_record(a, v, k) == prev + spec_data_at(a[k - 1].data@, s, v));
            } else {
                assert(j == k - 1);
                assert(vertex_record(a, v, k) == prev + spec_data_at(a[k - 1].data@, s, v));
                assert(spec_data_at(a[k - 1].data@, s, v)[t] == a[j].data@[v * s + t]);
            }
        }
    }
}

/// The interleaved buffer of `n` vertices holds, for every vertex, attribute and value, the
/// attribute's value for the vertex at `interleave_slot`, and nothing else.
pub proof fn lemma_interleaved_layout<T>(a: Seq<&VertexAttribute<T>>, n: int)
    requires
        0 <= n,
        forall|j: int| 0 <= j < a.len() ==> n * (#[trigger] a[j]).attribute_size <= a[j].data@.len(),
    ensures
        interleaved(a, n).len() == n * sizes_before(a, a.len() as int),
        forall|v: int, j: int, t: int|
            0 <= v < n && 0 <= j < a.len() && 0 <= t < a[j].attribute_size ==> interleaved(a, n)[
                #[trigger] interleave_slot(a, v, j, t)
            ] == a[j].data@[v * a[j].attribute_size + t],
    decreases n,
{
    let total = sizes_before(a, a.len() as int);
    lemma_sizes_before_grows(a, 0, a.len() as int);
    if n > 0 {
        assert forall|j: int| 0 <= j < a.len() implies (n - 1) * (#[trigger] a[j]).attribute_size
            <= a[j].data@.len() by {
            let s = a[j].attribute_size as int;
            assert((n - 1) * s <= n * s) by (nonlinear_arith)
                requires
                    s >= 0,
            ;
        }
        lemma_interleaved_layout(a, n - 1);
        lemma_vertex_record_layout(a, n - 1, a.len() as int);
        let prev = interleaved(a, n - 1);
        assert(interleaved(a, n) == prev + vertex_record(a, n - 1, a.len() as int));
        assert(prev.len() == (n - 1) * total);
        assert(vertex_record(a, n - 1, a.len() as int).len() == total);
        assert((n - 1) * total + total == n * total) by (nonlinear_arith);
        assert(interleaved(a, n).len() == n * total);
        assert((n - 1) * total + total == n * total) by (nonlinear_arith);
        assert forall|v: int, j: int, t: int|
            0 <= v < n && 0 <= j < a.len() && 0 <= t < a[j].attribute_size implies interleaved(a, n)[
                #[trigger] interleave_slot(a, v, j, t)
            ] == a[j].data@[v * a[j].attribute_size + t] by {
            lemma_sizes_before_grows(a, j + 1, a.len() as int);
            lemma_sizes_before_grows(a, 0, j);
            assert(sizes_before(a, j + 1) == sizes_before(a, j) + a[j].attribute_size);
            let x = sizes_before(a, j) + t;
            assert(0 <= x < total);
            if v < n - 1 {
                assert(v * total + x < (n - 1) * total) by (nonlinear_arith)
                    requires
                        v < n - 1,
                        0 <= x < total,
                ;
                assert(0 <= v * total) by (nonlinear_arith)
                    requires
                        v >= 0,
                        total >= 0,
                ;
                assert(interleaved(a, n - 1)[interleave_slot(a, v, j, t)] == a[j].data@[v * a[j].attribute_size + t]);
            } else {
                assert(vertex_record(a, n - 1, a.len() as int)[sizes_before(a, j) + t] == a[j].data@[(n - 1) * a[j].attribute_size + t]);
            }
        }
    } else {
        assert(n * total == 0) by (nonlinear_arith)
            requires
                n == 0,
        ;
    }
}

proof fn lemma_count_fits(len0: int, s0: int, len_a: int, s_a: int)
    requires
        s0 > 0,
        s_a > 0,
        len0 >= 0,
        len_a >= 0,
        len_a * s0 == len0 * s_a,
    ensures
        (len0 / s0) * s_a <= len_a,
{
    let vc = len0 / s0;
    assert(vc * s0 <= len0) by (nonlinear_arith)
        requires
            vc == len0 / s0,
            s0 > 0,
            len0 >= 0,
    ;
    assert(vc * s0 * s_a <= len0 * s_a) by (nonlinear_arith)
        requires
            vc * s0 <= len0,
            s_a > 0,
    ;
    assert(vc * s_a * s0 <= len_a * s0) by (nonlinear_arith)
        requires
            vc * s0 * s_a <= len0 * s_a,
            len_a * s0 == len0 * s_a,
    ;
    assert(vc * s_a <= len_a) by (nonlinear_arith)
        requires
            vc * s_a * s0 <= len_a * s0,
            s0 > 0,
    ;
}

impl SingleIndexedVertexAttributes {
    /// Combine any number of vertex attributes into a single buffer of vertex data.
    ///
    /// Positions `[0., 1., 2., 10., 11., 12.]` (size 3) and uvs `[0., 1., 1., 1.]` (size 2) are
    /// stitched together as `[0., 1., 2., 0., 1., 10., 11., 12., 1., 1.]`.
    pub fn interleave<T: Copy>(attribs: &[&VertexAttribute<T>]) -> (r: Result<
        Vec<T>,
        InterleaveError,
    >)
        requires
            !(attribs@.len() >= 2 && attributes_never_end(attribs@)),
        ensures
            attribs@.len() < 2 ==> r == Err::<Vec<T>, InterleaveError>(
                InterleaveError::RequiresAtLeastTwoBuffers { num_provided: attribs@.len() as usize },
            ),
            attribs@.len() >= 2 && !attribute_lengths_match(attribs@) ==> r == Err::<
                Vec<T>,
                InterleaveError,
            >(InterleaveError::MismatchedLengths),
            attribs@.len() >= 2 && attribute_lengths_match(attribs@) ==> (r matches Ok(v) && v@
                == interleaved(attribs@, attribute_vertex_count(attribs@))),
            attribs@.len() >= 2 && attribute_lengths_match(attribs@) ==> (r matches Ok(out) && {
                let a = attribs@;
                let count = attribute_vertex_count(a);
                &&& out@.len() == count * sizes_before(a, a.len() as int)
                &&& forall|v: int, j: int, t: int|
                    0 <= v < count && 0 <= j < a.len() && 0 <= t < a[j].attribute_size ==> out@[
                        #[trigger] interleave_slot(a, v, j, t)
                    ] == a[j].data@[v * a[j].attribute_size + t]
            }),
    {
        if attribs.len() < 2 {
            return Err(InterleaveError::RequiresAtLeastTwoBuffers { num_provided: attribs.len() });
        }
        let len0 = attribs[0].data.len() as u128;
        let size0 = attribs[0].attribute_size as u128;
        let mut i: usize = 0;
        while i < attribs.len()
            invariant
                2 <= attribs@.len(),
                i <= attribs@.len(),
                len0 == attribs@[0].data@.len(),
                len0 <= usize::MAX,
                size0 == attribs@[0].attribute_size,
                forall|j: int|
                    0 <= j < i ==> (#[trigger] attribs@[j]).attribute_size > 0 && attribs@[j].data@.len()
                        * size0 == len0 * attribs@[j].attribute_size,
            decreases attribs@.len() - i,
        {
            let size = attribs[i].attribute_size as u128;
            let len = attribs[i].data.len() as u128;
            proof {
                assert(len * size0 <= 0xffff_ffff_ffff_ffffu128 * 255) by (nonlinear_arith)
                    requires
                        len <= 0xffff_ffff_ffff_ffffu128,
                        size0 <= 255,
                ;
                assert(len0 * size <= 0xffff_ffff_ffff_ffffu128 * 255) by (nonlinear_arith)
                    requires
                        len0 <= 0xffff_ffff_ffff_ffffu128,
                        size <= 255,
                ;
            }
            if size == 0 || len * size0 != len0 * size {
                return Err(InterleaveError::MismatchedLengths);
            }
            i = i + 1;
        }
        let vertex_count = attribs[0].data.len() / attribs[0].attribute_size as usize;
        let mut out: Vec<T> = Vec::new();
        let mut v: usize = 0;
        while v < vertex_count
            invariant
                2 <= attribs@.len(),
                attribute_lengths_match(attribs@),
                vertex_count == attribute_vertex_count(attribs@),
                v <= vertex_count,
                out@ == interleaved(attribs@, v as int),
            decreases vertex_count - v,
        {
            let ghost before = out@;
            let mut a: usize = 0;
            while a < attribs.len()
                invariant
                    2 <= attribs@.len(),
                    attribute_lengths_match(attribs@),
                    vertex_count == attribute_vertex_count(attribs@),
                    v < vertex_count,
                    a <= attribs@.len(),
                    out@ == before + vertex_record(attribs@, v as int, a as int),
                decreases attribs@.len() - a,
            {
                let attrib = attribs[a];
                let size = attrib.attribute_size as usize;
                let n = attrib.data.len();
                proof {
                    assert(attribs@[a as int] == attrib);
                    lemma_count_fits(
                        attribs@[0].data@.len() as int,
                        attribs@[0].attribute_size as int,
                        attrib.data@.len() as int,
                        size as int,
                    );
                    assert((v + 1) * size <= vertex_count * size) by (nonlinear_arith)
                        requires
                            v + 1 <= vertex_count,
                    ;
                    assert(v * size + size == (v + 1) * size) by (nonlinear_arith);
                    assert(0 <= v * size) by (nonlinear_arith);
                }
                let index = v * size;
                let ghost before_a = out@;
                let mut idx = index;
                while idx < index + size
                    invariant
                        index <= idx <= index + size,
                        index + size <= n,
                        n == attrib.data@.len(),
                        out@ == before_a + attrib.data@.subrange(index as int, idx as int),
                    decreases index + size - idx,
                {
                    out.push(attrib.data[idx]);
                    idx = idx + 1;
                    assert(out@ =~= before_a + attrib.data@.subrange(index as int, idx as int));
                }
                proof {
                    assert(attrib.data@.subrange(index as int, (index + size) as int) == spec_data_at(
                        attrib.data@,
                        size as int,
                        v as int,
                    ));
                    assert(out@ =~= before + vertex_record(attribs@, v as int, a + 1));
                }
                a = a + 1;
            }
            v = v + 1;
        }
        proof {
            let a = attribs@;
            assert forall|j: int| 0 <= j < a.len() implies vertex_count * (#[trigger] a[j]).attribute_size
                <= a[j].data@.len() by {
                lemma_count_fits(
                    a[0].data@.len() as int,
                    a[0].attribute_size as int,
                    a[j].data@.len() as int,
                    a[j].attribute_size as int,
                );
            }
            lemma_interleaved_layout(a, vertex_count as int);
        }
        Ok(out)
    }
}

} // verus!
