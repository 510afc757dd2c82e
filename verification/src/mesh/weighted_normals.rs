//! Weighting normals by the surface and angle of the faces they belong to: which corners of a
//! triangle list share a position, and which corners make up each triangle.
use vstd::prelude::*;
use std::collections::HashMap;

verus! {

/// An error while weighting normals.
#[derive(Debug, PartialEq, Eq, Structural, Clone, Copy)]
pub enum WeightedNormalsError {
    /// There were no normals to weight.
    NoNormals,
}

/// The range of the 3 values of vertex `idx`.
pub fn to_range(idx: usize) -> (r: std::ops::Range<usize>)
    requires
        3 * idx + 3 <= usize::MAX,
    ensures
        r.start == 3 * idx,
        r.end == 3 * idx + 3,
{
    3 * idx..3 * idx + 3
}

/// The other two corners of the triangle that corner `vertex_num` belongs to, in a list of
/// triangles of three corners each.
pub fn connected_corners(vertex_num: usize) -> (r: (usize, usize))
    requires
        vertex_num + 2 <= usize::MAX,
    ensures
        vertex_num % 3 == 0 ==> r.0 == vertex_num + 1 && r.1 == vertex_num + 2,
        vertex_num % 3 == 1 ==> r.0 == vertex_num - 1 && r.1 == vertex_num + 1,
        vertex_num % 3 == 2 ==> r.0 == vertex_num - 2 && r.1 == vertex_num - 1,
{
    let m = vertex_num % 3;
    if m == 0 {
        (vertex_num + 1, vertex_num + 2)
    } else if m == 1 {
        (vertex_num - 1, vertex_num + 1)
    } else {
        (vertex_num - 2, vertex_num - 1)
    }
}

/// The bits of the position of vertex `idx` (3 values per position).
pub open spec fn position_bits(positions: Seq<u32>, idx: int) -> (u32, u32, u32) {
    (positions[3 * idx], positions[3 * idx + 1], positions[3 * idx + 2])
}

/// The bits of the position that corner `i` uses.
pub open spec fn corner_position(indices: Seq<u16>, positions: Seq<u32>, i: int) -> (u32, u32, u32) {
    position_bits(positions, indices[i] as int)
}

/// Every corner's position lies inside the position data.
pub open spec fn positions_cover(indices: Seq<u16>, positions: Seq<u32>) -> bool {
    forall|i: int| 0 <= i < indices.len() ==> 3 * indices[i] + 3 <= positions.len()
}

/// Corner `j` is the first corner at corner `i`'s position.
pub open spec fn first_corner_at(indices: Seq<u16>, positions: Seq<u32>, i: int, j: int) -> bool {
    &&& 0 <= j <= i
    &&& corner_position(indices, positions, j) == corner_position(indices, positions, i)
    &&& forall|k: int|
        0 <= k < j ==> corner_position(indices, positions, k) != corner_position(
            indices,
            positions,
            i,
        )
}

/// The corners of a mesh grouped by the bits of their positions: corners at the same position
/// share a weighted normal.
#[derive(Debug, PartialEq, Clone)]
pub struct PositionGroups {
    /// The group of each corner.
    pub group_of_corner: Vec<usize>,
    /// The first corner of each group, in increasing order.
    pub first_corners: Vec<usize>,
}

/// `g` groups the corners by position: a corner's group is the one that the first corner at its
/// position starts, and the groups come in the order of their first corners.
pub open spec fn groups_by_position(indices: Seq<u16>, positions: Seq<u32>, g: PositionGroups) -> bool {
    let of = g.group_of_corner@;
    let firsts = g.first_corners@;
    &&& of.len() == indices.len()
    &&& forall|i: int|
        0 <= i < indices.len() ==> #[trigger] of[i] < firsts.len() && first_corner_at(
            indices,
            positions,
            i,
            firsts[of[i] as int] as int,
        )
    &&& forall|a: int, b: int| 0 <= a < b < firsts.len() ==> #[trigger] firsts[a] < #[trigger] firsts[b]
    &&& forall|a: int|
        0 <= a < firsts.len() ==> #[trigger] firsts[a] < indices.len() && of[firsts[a] as int] == a
}

/// Two corners share a group, and so a weighted normal, exactly when they are at the same
/// position.
pub proof fn lemma_same_group_iff_same_position(
    indices: Seq<u16>,
    positions: Seq<u32>,
    g: PositionGroups,
    i: int,
    j: int,
)
    requires
        groups_by_position(indices, positions, g),
        0 <= i < indices.len(),
        0 <= j < indices.len(),
    ensures
        g.group_of_corner@[i] == g.group_of_corner@[j] <==> corner_position(indices, positions, i)
            == corner_position(indices, positions, j),
{
    let of = g.group_of_corner@;
    let firsts = g.first_corners@;
    let a = of[i] as int;
    let b = of[j] as int;
    assert(first_corner_at(indices, positions, i, firsts[a] as int));
    assert(first_corner_at(indices, positions, j, firsts[b] as int));
    if corner_position(indices, positions, i) == corner_position(indices, positions, j) {
        let fi = firsts[a] as int;
        let fj = firsts[b] as int;
        if fi < fj {
            assert(corner_position(indices, positions, fi) == corner_position(indices, positions, j));
        } else if fj < fi {
            assert(corner_position(indices, positions, fj) == corner_position(indices, positions, i));
        }
        if a < b {
            assert(firsts[a] < firsts[b]);
        } else if b < a {
            assert(firsts[b] < firsts[a]);
        }
    }
}

/// The bits of the position at corner `i`.
fn corner_position_at(indices: &Vec<u16>, positions: &Vec<u32>, i: usize) -> (r: (u32, u32, u32))
    requires
        i < indices@.len(),
        positions_cover(indices@, positions@),
    ensures
        r == corner_position(indices@, positions@, i as int),
{
    let p = indices[i] as usize * 3;
    assert(3 * indices@[i as int] + 3 <= positions@.len());
    (positions[p], positions[p + 1], positions[p + 2])
}

/// A number that tells the bits of positions apart.
pub open spec fn position_code(p: (u32, u32, u32)) -> int {
    p.0 * 0x1_0000_0000_0000_0000 + p.1 * 0x1_0000_0000 + p.2
}

/// Different positions have different codes.
pub proof fn lemma_position_code_injective(a: (u32, u32, u32), b: (u32, u32, u32))
    requires
        position_code(a) == position_code(b),
    ensures
        a == b,
{
    assert(a.0 == b.0 && a.1 == b.1 && a.2 == b.2);
}

/// The code of the bits of a position.
fn encode_position(p: (u32, u32, u32)) -> (k: u128)
    ensures
        k == position_code(p),
{
    p.0 as u128 * 0x1_0000_0000_0000_0000 + p.1 as u128 * 0x1_0000_0000 + p.2 as u128
}

/// Group the corners of a mesh by the bits of their positions, for weighting normals: all
/// corners at one position get the normalized sum of their weighted normals.
pub fn group_corners_by_position(indices: &Vec<u16>, positions: &Vec<u32>) -> (r: PositionGroups)
    requires
        positions_cover(indices@, positions@),
    ensures
        groups_by_position(indices@, positions@, r),
{
    broadcast use vstd::std_specs::hash::group_hash_axioms;

    let mut group_of_corner: Vec<usize> = Vec::new();
    let mut first_corners: Vec<usize> = Vec::new();
    let mut group_at: HashMap<u128, usize> = HashMap::new();
    let n = indices.len();
    let mut i: usize = 0;
    while i < n
        invariant
            n == indices@.len(),
            i <= n,
            positions_cover(indices@, positions@),
            group_of_corner@.len() == i,
            forall|c: int|
                0 <= c < i ==> #[trigger] group_of_corner@[c] < first_corners@.len()
                    && first_corner_at(
                    indices@,
                    positions@,
                    c,
                    first_corners@[group_of_corner@[c] as int] as int,
                ),
            forall|a: int, b: int|
                0 <= a < b < first_corners@.len() ==> #[trigger] first_corners@[a]
                    < #[trigger] first_corners@[b],
            forall|a: int|
                0 <= a < first_corners@.len() ==> #[trigger] first_corners@[a] < i
                    && group_of_corner@[first_corners@[a] as int] == a,
            forall|a: int|
                0 <= a < first_corners@.len() ==> #[trigger] group_at@.contains_key(
                    position_code(corner_position(indices@, positions@, first_corners@[a] as int))
                        as u128,
                ),
            forall|a: int|
                0 <= a < first_corners@.len() ==> group_at@[position_code(
                    corner_position(indices@, positions@, #[trigger] first_corners@[a] as int),
                ) as u128] == a,
            forall|k: u128| #[trigger]
                group_at@.contains_key(k) ==> group_at@[k] < first_corners@.len() && position_code(
                    corner_position(indices@, positions@, first_corners@[group_at@[k] as int] as int),
                ) == k,
        decreases n - i,
    {
        let ghost ki = corner_position(indices@, positions@, i as int);
        let key = encode_position(corner_position_at(indices, positions, i));
        let found: Option<usize> = match group_at.get(&key) {
            Some(g) => Some(*g),
            None => None,
        };
        match found {
            Some(g) => {
                proof {
                    let f = first_corners@[g as int] as int;
                    lemma_position_code_injective(corner_position(indices@, positions@, f), ki);
                    assert(group_of_corner@[f] == g);
                    assert(first_corner_at(
                        indices@,
                        positions@,
                        f,
                        first_corners@[group_of_corner@[f] as int] as int,
                    ));
                }
                group_of_corner.push(g);
            },
            None => {
                proof {
                    assert forall|k: int| 0 <= k < i implies corner_position(indices@, positions@, k)
                        != ki by {
                        if corner_position(indices@, positions@, k) == ki {
                            let a = group_of_corner@[k] as int;
                            assert(first_corner_at(indices@, positions@, k, first_corners@[a] as int));
                            assert(corner_position(indices@, positions@, first_corners@[a] as int)
                                == ki);
                            assert(group_at@.contains_key(
                                position_code(
                                    corner_position(indices@, positions@, first_corners@[a] as int),
                                ) as u128,
                            ));
                        }
                    }
                }
                let a = first_corners.len();
                let ghost firsts0 = first_corners@;
                first_corners.push(i);
                group_of_corner.push(a);
                group_at.insert(key, a);
                proof {
                    assert forall|b: int| 0 <= b < first_corners@.len() implies group_at@[position_code(
                        corner_position(indices@, positions@, #[trigger] first_corners@[b] as int),
                    ) as u128] == b by {
                        if b < a {
                            assert(first_corners@[b] == firsts0[b]);
                            let fb = firsts0[b] as int;
                            if position_code(corner_position(indices@, positions@, fb)) as u128
                                == key {
                                lemma_position_code_injective(
                                    corner_position(indices@, positions@, fb),
                                    ki,
                                );
                                assert(first_corner_at(
                                    indices@,
                                    positions@,
                                    fb,
                                    first_corners@[group_of_corner@[fb] as int] as int,
                                ));
                                assert(false);
                            }
                        }
                    }
                }
            },
        }
        i = i + 1;
    }
    PositionGroups { group_of_corner, first_corners }
}

} // verus!
