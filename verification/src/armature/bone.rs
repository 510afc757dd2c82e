//! Bones: transforms held as a 4x4 matrix or as a dual quaternion.
use vstd::prelude::*;
use crate::float_bits::{negate, spec_negate};

verus! {

/// A bone in an armature: a transform held as a matrix or as a dual quaternion, with each `f32`
/// held as its bits.
///
/// When you export bones from Blender they come as matrices; dual quaternions are usually more
/// favorable when implementing skeletal animation with rigid transformations.
#[derive(Debug, Copy, Clone, PartialEq)]
pub enum Bone {
    /// A transform held as a 4x4 matrix, column after column.
    Matrix([u32; 16]),
    /// A rigid transform held as a dual quaternion.
    DualQuat([u32; 8]),
}

/// The transpose of a 4x4 matrix held column after column: entry `i` of the result is entry
/// (row `i / 4`, column `i % 4`) of the matrix turned around.
pub open spec fn transposed(m: Seq<u32>) -> Seq<u32> {
    Seq::new(16, |i: int| m[(i % 4) * 4 + i / 4])
}

/// Transposing twice gives the matrix back.
pub proof fn lemma_transpose_involution(m: Seq<u32>)
    requires
        m.len() == 16,
    ensures
        transposed(transposed(m)) == m,
{
    assert(transposed(transposed(m)) =~= m);
}

/// The dual quaternion of a Z up right handed system in a Y up right handed one: the old +Z axis
/// becomes +Y and the old +Y axis becomes -Z, in the real and in the dual part.
pub open spec fn z_up_to_y_up(q: Seq<u32>) -> Seq<u32> {
    seq![q[0], q[1], q[3], spec_negate(q[2]), q[4], q[5], q[7], spec_negate(q[6])]
}

/// Turning a Z up dual quaternion a quarter four times gives it back.
pub proof fn lemma_z_up_to_y_up_four_times(q: Seq<u32>)
    requires
        q.len() == 8,
    ensures
        z_up_to_y_up(z_up_to_y_up(z_up_to_y_up(z_up_to_y_up(q)))) == q,
{
    assert(z_up_to_y_up(z_up_to_y_up(z_up_to_y_up(z_up_to_y_up(q)))) =~= q);
}

impl Bone {
    /// Transpose the bone's matrix.
    ///
    /// A dual quaternion cannot be transposed, so the bone must be a matrix.
    pub fn transpose(&mut self)
        requires
            *old(self) is Matrix,
        ensures
            *final(self) matches Bone::Matrix(m) && *old(self) matches Bone::Matrix(m0) && m@
                == transposed(m0@),
    {
        match self {
            Bone::Matrix(m) => {
                let t = [
                    m[0], m[4], m[8], m[12],
                    m[1], m[5], m[9], m[13],
                    m[2], m[6], m[10], m[14],
                    m[3], m[7], m[11], m[15],
                ];
                proof {
                    assert(t@ =~= transposed(m@));
                }
                *self = Bone::Matrix(t);
            },
            Bone::DualQuat(_) => {},
        }
    }

    /// The bone's values: 16 for a matrix, 8 for a dual quaternion.
    pub fn as_slice(&self) -> (s: &[u32])
        ensures
            match self {
                Bone::Matrix(m) => s@ == m@,
                Bone::DualQuat(q) => s@ == q@,
            },
    {
        match self {
            Bone::Matrix(m) => m.as_slice(),
            Bone::DualQuat(q) => q.as_slice(),
        }
    }
}

/// Convert a Z up right handed dual quaternion to Y up right handed.
///
/// Only dual quaternions can be converted, so the bone must not be a matrix.
pub fn dual_quat_z_up_right_to_y_up_right(bone: &mut Bone)
    requires
        *old(bone) is DualQuat,
    ensures
        *final(bone) matches Bone::DualQuat(q) && *old(bone) matches Bone::DualQuat(q0) && q@
            == z_up_to_y_up(q0@),
{
    match bone {
        Bone::DualQuat(q) => {
            let r = [q[0], q[1], q[3], negate(q[2]), q[4], q[5], q[7], negate(q[6])];
            proof {
                assert(r@ =~= z_up_to_y_up(q@));
            }
            *bone = Bone::DualQuat(r);
        },
        Bone::Matrix(_) => {},
    }
}

} // verus!
