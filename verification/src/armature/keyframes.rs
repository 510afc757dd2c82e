//! Keyframes: the transforms of bones at given frames, kept in ascending frame order.
use vstd::prelude::*;
use std::collections::HashMap;
use crate::armature::bone::{dual_quat_z_up_right_to_y_up_right, transposed, z_up_to_y_up, Bone};
use crate::sorting::{insert_by_key, lemma_insert_at, lemma_sort_by_key, lemma_sort_take_step, sort_by_key, sorted_by_key};

verus! {

/// The transformation for a bone at a particular frame.
#[derive(Debug, PartialEq, Copy, Clone)]
pub struct BoneKeyframe {
    /// The frame.
    pub frame: u16,
    /// The bone's transform at that frame.
    pub bone: Bone,
}

impl BoneKeyframe {
    /// A keyframe for `bone` at `frame`.
    pub fn new(frame: u16, bone: Bone) -> (r: Self)
        ensures
            r.frame == frame,
            r.bone == bone,
    {
        BoneKeyframe { frame, bone }
    }

    /// The frame.
    pub fn frame(&self) -> (r: u16)
        ensures
            r == self.frame,
    {
        self.frame
    }

    /// The bone's transform.
    pub fn bone(&self) -> (r: Bone)
        ensures
            r == self.bone,
    {
        self.bone
    }

    /// The bone's transform, to change it.
    pub fn bone_mut(&mut self) -> (r: &mut Bone)
        ensures
            *r == old(self).bone,
            final(self).frame == old(self).frame,
            final(self).bone == *final(r),
    {
        &mut self.bone
    }

    /// Replace the bone's transform.
    pub fn set_bone(&mut self, bone: Bone)
        ensures
            final(self).frame == old(self).frame,
            final(self).bone == bone,
    {
        self.bone = bone;
    }
}

/// `new` is `old` with its dual quaternion turned from Z up to Y up.
pub open spec fn turned_y_up(new: BoneKeyframe, old: BoneKeyframe) -> bool {
    &&& new.frame == old.frame
    &&& match (new.bone, old.bone) {
        (Bone::DualQuat(q), Bone::DualQuat(q0)) => q@ == z_up_to_y_up(q0@),
        _ => false,
    }
}

/// `new` is `old` with its matrix transposed.
pub open spec fn transposed_keyframe(new: BoneKeyframe, old: BoneKeyframe) -> bool {
    &&& new.frame == old.frame
    &&& match (new.bone, old.bone) {
        (Bone::Matrix(m), Bone::Matrix(m0)) => m@ == transposed(m0@),
        _ => false,
    }
}

/// Orders bone keyframes by frame.
pub open spec fn frame_key() -> spec_fn(BoneKeyframe) -> int {
    |k: BoneKeyframe| k.frame as int
}

/// Inserting by key puts the element at some position of the sequence.
pub proof fn lemma_insert_by_key_position<T>(s: Seq<T>, x: T, key: spec_fn(T) -> int) -> (p: int)
    ensures
        0 <= p <= s.len(),
        insert_by_key(s, x, key) == s.insert(p, x),
    decreases s.len(),
{
    if s.len() == 0 {
        assert(s.insert(0, x) =~= seq![x]);
        0
    } else if key(s.last()) <= key(x) {
        assert(s.insert(s.len() as int, x) =~= s.push(x));
        s.len() as int
    } else {
        let t = s.drop_last();
        let p = lemma_insert_by_key_position(t, x, key);
        assert(s.insert(p, x) =~= t.insert(p, x).push(s.last()));
        p
    }
}

/// Keyframes sorted in ascending frame order; keyframes with the same frame keep the order in
/// which they came.
#[derive(Debug, PartialEq)]
pub struct SortedKeyframes(Vec<BoneKeyframe>);

impl Clone for SortedKeyframes {
    fn clone(&self) -> (r: Self)
        ensures
            r@ == self@,
    {
        proof {
            use_type_invariant(self);
        }
        let mut v: Vec<BoneKeyframe> = Vec::new();
        let mut i: usize = 0;
        while i < self.0.len()
            invariant
                i <= self.0@.len(),
                v@ =~= self.0@.take(i as int),
            decreases self.0@.len() - i,
        {
            v.push(self.0[i]);
            i = i + 1;
        }
        assert(v@ =~= self.0@);
        SortedKeyframes(v)
    }
}

impl View for SortedKeyframes {
    type V = Seq<BoneKeyframe>;

    closed spec fn view(&self) -> Seq<BoneKeyframe> {
        self.0@
    }
}

/// Insert `x` into keyframes sorted by frame, after every keyframe whose frame is not larger.
fn insert_keyframe_sorted(out: &mut Vec<BoneKeyframe>, x: BoneKeyframe)
    requires
        sorted_by_key(old(out)@, frame_key()),
    ensures
        final(out)@ == insert_by_key(old(out)@, x, frame_key()),
        sorted_by_key(final(out)@, frame_key()),
{
    proof {
        crate::sorting::lemma_insert_sorted(out@, x, frame_key());
    }
    let mut p = out.len();
    while p > 0 && out[p - 1].frame > x.frame
        invariant
            p <= out@.len(),
            forall|j: int| p <= j < out@.len() ==> (frame_key())(#[trigger] out@[j]) > (frame_key())(x),
        decreases p,
    {
        p = p - 1;
    }
    proof {
        lemma_insert_at(out@, x, frame_key(), p as int);
    }
    out.insert(p, x);
}

impl SortedKeyframes {
    #[verifier::type_invariant]
    spec fn sorted(&self) -> bool {
        sorted_by_key(self.0@, frame_key())
    }

    /// Sort the keyframes in ascending frame order (a stable sort).
    pub fn new(keyframes: Vec<BoneKeyframe>) -> (r: Self)
        ensures
            r@ == sort_by_key(keyframes@, frame_key()),
    {
        let mut out: Vec<BoneKeyframe> = Vec::new();
        let mut i: usize = 0;
        assert(keyframes@.take(0) =~= Seq::<BoneKeyframe>::empty());
        while i < keyframes.len()
            invariant
                i <= keyframes@.len(),
                out@ == sort_by_key(keyframes@.take(i as int), frame_key()),
                sorted_by_key(out@, frame_key()),
            decreases keyframes@.len() - i,
        {
            proof {
                lemma_sort_take_step(keyframes@, frame_key(), i as int);
            }
            insert_keyframe_sorted(&mut out, keyframes[i]);
            i = i + 1;
        }
        assert(keyframes@.take(keyframes@.len() as int) =~= keyframes@);
        SortedKeyframes(out)
    }

    /// The keyframes, in ascending frame order.
    pub fn keyframes(&self) -> (r: &Vec<BoneKeyframe>)
        ensures
            r@ == self@,
            sorted_by_key(r@, frame_key()),
    {
        proof {
            use_type_invariant(self);
        }
        &self.0
    }

    /// The number of keyframes.
    pub fn len(&self) -> (n: usize)
        ensures
            n == self@.len(),
    {
        self.0.len()
    }

    /// Add a keyframe, after the keyframes whose frame is not larger: the same as pushing it and
    /// sorting again.
    pub fn push(&mut self, bone_keyframe: BoneKeyframe)
        ensures
            final(self)@ == insert_by_key(old(self)@, bone_keyframe, frame_key()),
            final(self)@ == sort_by_key(old(self)@.push(bone_keyframe), frame_key()),
    {
        proof {
            use_type_invariant(&*self);
            lemma_sort_sorted(self@, frame_key());
            assert(self@.push(bone_keyframe).drop_last() =~= self@);
        }
        let mut v = Vec::new();
        std::mem::swap(&mut v, &mut self.0);
        insert_keyframe_sorted(&mut v, bone_keyframe);
        self.0 = v;
    }

    /// Turn every keyframe's dual quaternion from Z up right handed to Y up right handed.
    pub fn z_up_to_y_up(&mut self)
        requires
            forall|i: int| 0 <= i < old(self)@.len() ==> (#[trigger] old(self)@[i]).bone is DualQuat,
        ensures
            final(self)@.len() == old(self)@.len(),
            forall|i: int|
                0 <= i < old(self)@.len() ==> turned_y_up(#[trigger] final(self)@[i], old(self)@[i]),
    {
        proof {
            use_type_invariant(&*self);
        }
        let ghost start = self@;
        let mut v = Vec::new();
        std::mem::swap(&mut v, &mut self.0);
        let mut i: usize = 0;
        while i < v.len()
            invariant
                v@.len() == start.len(),
                i <= v@.len(),
                sorted_by_key(start, frame_key()),
                forall|j: int| i <= j < v@.len() ==> #[trigger] v@[j] == start[j],
                forall|j: int|
                    0 <= j < i ==> turned_y_up(#[trigger] v@[j], start[j]),
                forall|j: int| 0 <= j < start.len() ==> (#[trigger] start[j]).bone is DualQuat,
            decreases v@.len() - i,
        {
            let mut k = v[i];
            dual_quat_z_up_right_to_y_up_right(&mut k.bone);
            v.set(i, k);
            i = i + 1;
        }
        assert(sorted_by_key(v@, frame_key())) by {
            assert forall|a: int, b: int| 0 <= a <= b < v@.len() implies (frame_key())(v@[a]) <= (
            frame_key())(v@[b]) by {
                assert((frame_key())(start[a]) <= (frame_key())(start[b]));
            }
        }
        self.0 = v;
    }

    /// Transpose every keyframe's bone matrix.
    pub fn transpose(&mut self)
        requires
            forall|i: int| 0 <= i < old(self)@.len() ==> (#[trigger] old(self)@[i]).bone is Matrix,
        ensures
            final(self)@.len() == old(self)@.len(),
            forall|i: int|
                0 <= i < old(self)@.len() ==> transposed_keyframe(#[trigger] final(self)@[i], old(self)@[i]),
    {
        proof {
            use_type_invariant(&*self);
        }
        let ghost start = self@;
        let mut v = Vec::new();
        std::mem::swap(&mut v, &mut self.0);
        let mut i: usize = 0;
        while i < v.len()
            invariant
                v@.len() == start.len(),
                i <= v@.len(),
                sorted_by_key(start, frame_key()),
                forall|j: int| i <= j < v@.len() ==> #[trigger] v@[j] == start[j],
                forall|j: int|
                    0 <= j < i ==> transposed_keyframe(#[trigger] v@[j], start[j]),
                forall|j: int| 0 <= j < start.len() ==> (#[trigger] start[j]).bone is Matrix,
            decreases v@.len() - i,
        {
            let mut k = v[i];
            k.bone.transpose();
            v.set(i, k);
            i = i + 1;
        }
        assert(sorted_by_key(v@, frame_key())) by {
            assert forall|a: int, b: int| 0 <= a <= b < v@.len() implies (frame_key())(v@[a]) <= (
            frame_key())(v@[b]) by {
                assert((frame_key())(start[a]) <= (frame_key())(start[b]));
            }
        }
        self.0 = v;
    }
}

/// Sorting an already sorted sequence leaves it as it is.
pub proof fn lemma_sort_sorted<T>(s: Seq<T>, key: spec_fn(T) -> int)
    requires
        sorted_by_key(s, key),
    ensures
        sort_by_key(s, key) == s,
    decreases s.len(),
{
    if s.len() > 0 {
        let t = s.drop_last();
        assert(sorted_by_key(t, key));
        lemma_sort_sorted(t, key);
        assert(s =~= t.push(s.last()));
        if t.len() > 0 {
            assert(key(t.last()) <= key(s.last()));
        }
    }
}

} // verus!
