//! Actions: the keyframes of each bone, and the frame range that they span.
use vstd::prelude::*;
use std::collections::HashMap;
use crate::armature::bone::Bone;
use crate::armature::keyframes::{
    frame_key, lemma_insert_by_key_position, transposed_keyframe, turned_y_up, BoneKeyframe,
    SortedKeyframes,
};
use crate::sorting::{insert_by_key, sort_by_key};

verus! {

/// Some bone has a keyframe at frame `f`.
pub open spec fn has_frame(frames: Map<u8, Seq<BoneKeyframe>>, f: int) -> bool {
    exists|b: u8, i: int|
        frames.contains_key(b) && 0 <= i < frames[b].len() && #[trigger] frames[b][i].frame == f
}

/// Every keyframe's frame lies in `lo..=hi`.
pub open spec fn frames_within(frames: Map<u8, Seq<BoneKeyframe>>, lo: int, hi: int) -> bool {
    forall|b: u8, i: int|
        frames.contains_key(b) && 0 <= i < frames[b].len() ==> lo <= #[trigger] frames[b][i].frame
            <= hi
}

/// `range` is the smallest and largest frame of the keyframes, or none when there are no
/// keyframes.
pub open spec fn frame_range_of(frames: Map<u8, Seq<BoneKeyframe>>, range: Option<(u16, u16)>) -> bool {
    match range {
        None => forall|b: u8| #[trigger] frames.contains_key(b) ==> frames[b].len() == 0,
        Some((lo, hi)) => {
            &&& has_frame(frames, lo as int)
            &&& has_frame(frames, hi as int)
            &&& frames_within(frames, lo as int, hi as int)
        },
    }
}

/// The keyframes of each bone of an action, along with the range of frames that they span.
#[derive(Debug)]
pub struct BoneKeyframes {
    frame_range_inclusive: Option<(u16, u16)>,
    keyframes: HashMap<u8, SortedKeyframes>,
}

impl BoneKeyframes {
    /// The range of frames, smallest and largest.
    pub closed spec fn range(&self) -> Option<(u16, u16)> {
        self.frame_range_inclusive
    }

    /// Each bone's keyframes.
    pub closed spec fn bone_frames(&self) -> Map<u8, Seq<BoneKeyframe>> {
        self.keyframes@.map_values(|k: SortedKeyframes| k@)
    }

    #[verifier::type_invariant]
    spec fn range_matches(&self) -> bool {
        frame_range_of(self.bone_frames(), self.frame_range_inclusive)
    }

    /// The range always matches the keyframes.
    pub fn frame_range_inclusive(&self) -> (r: Option<(u16, u16)>)
        ensures
            r == self.range(),
            frame_range_of(self.bone_frames(), r),
    {
        proof {
            use_type_invariant(self);
        }
        self.frame_range_inclusive
    }

    /// An empty set of bone keyframes.
    pub fn new() -> (r: Self)
        ensures
            r.range() is None,
            r.bone_frames() == Map::<u8, Seq<BoneKeyframe>>::empty(),
    {
        let r = BoneKeyframes { frame_range_inclusive: None, keyframes: HashMap::new() };
        assert(r.bone_frames() =~= Map::<u8, Seq<BoneKeyframe>>::empty());
        r
    }

    /// The smallest frame, if there are keyframes.
    pub fn smallest_frame(&self) -> (r: Option<u16>)
        ensures
            r == match self.range() {
                Some((lo, _)) => Some(lo),
                None => None::<u16>,
            },
    {
        match self.frame_range_inclusive {
            Some((lo, _)) => Some(lo),
            None => None,
        }
    }

    /// The largest frame, if there are keyframes.
    pub fn largest_frame(&self) -> (r: Option<u16>)
        ensures
            r == match self.range() {
                Some((_, hi)) => Some(hi),
                None => None::<u16>,
            },
    {
        match self.frame_range_inclusive {
            Some((_, hi)) => Some(hi),
            None => None,
        }
    }

    /// The largest frame minus the smallest, if there are keyframes.
    pub fn frame_duration(&self) -> (r: Option<u16>)
        ensures
            r == match self.range() {
                Some((lo, hi)) => Some((hi - lo) as u16),
                None => None::<u16>,
            },
            r matches Some(d) ==> self.range() matches Some((lo, hi)) && d + lo == hi,
    {
        proof {
            use_type_invariant(self);
        }
        match self.frame_range_inclusive {
            Some((lo, hi)) => {
                proof {
                    let frames = self.bone_frames();
                    let (b, i) = choose|b: u8, i: int|
                        frames.contains_key(b) && 0 <= i < frames[b].len() && #[trigger] frames[b][i].frame
                            == lo;
                    assert(lo <= frames[b][i].frame <= hi);
                }
                Some(hi - lo)
            },
            None => None,
        }
    }

    /// The keyframes of bone `bone_idx`, if it has any.
    pub fn get(&self, bone_idx: u8) -> (r: Option<&SortedKeyframes>)
        ensures
            match r {
                Some(k) => self.bone_frames().contains_key(bone_idx) && k@ == self.bone_frames()[bone_idx],
                None => !self.bone_frames().contains_key(bone_idx),
            },
    {
        broadcast use vstd::std_specs::hash::group_hash_axioms;

        self.keyframes.get(&bone_idx)
    }

    /// Add a transformation keyframe for a bone, keeping its keyframes sorted by frame, and widen
    /// the frame range to take it in.
    pub fn insert_bone_keyframe(&mut self, bone_idx: u8, keyframe: BoneKeyframe)
        ensures
            ({
                let old_frames = old(self).bone_frames();
                let before = if old_frames.contains_key(bone_idx) {
                    old_frames[bone_idx]
                } else {
                    Seq::empty()
                };
                final(self).bone_frames() == old_frames.insert(
                    bone_idx,
                    sort_by_key(before.push(keyframe), frame_key()),
                )
            }),
            final(self).range() == match old(self).range() {
                None => Some((keyframe.frame, keyframe.frame)),
                Some((lo, hi)) => Some(
                    (
                        if keyframe.frame < lo {
                            keyframe.frame
                        } else {
                            lo
                        },
                        if keyframe.frame > hi {
                            keyframe.frame
                        } else {
                            hi
                        },
                    ),
                ),
            },
    {
        broadcast use vstd::std_specs::hash::group_hash_axioms;

        proof {
            use_type_invariant(&*self);
        }
        let mut this = BoneKeyframes::new();
        std::mem::swap(&mut this, self);
        let ghost old_frames = this.bone_frames();
        let ghost old_range = this.frame_range_inclusive;
        let BoneKeyframes { frame_range_inclusive, mut keyframes } = this;
        let mut sorted = match keyframes.remove(&bone_idx) {
            Some(k) => k,
            None => SortedKeyframes::new(Vec::new()),
        };
        let ghost before = sorted@;
        assert(before == if old_frames.contains_key(bone_idx) {
            old_frames[bone_idx]
        } else {
            Seq::empty()
        });
        sorted.push(keyframe);
        let ghost after = sorted@;
        keyframes.insert(bone_idx, sorted);
        let f = keyframe.frame;
        let new_range = match frame_range_inclusive {
            None => (f, f),
            Some((lo, hi)) => (
                if f < lo {
                    f
                } else {
                    lo
                },
                if f > hi {
                    f
                } else {
                    hi
                },
            ),
        };
        let ghost new_frames = keyframes@.map_values(|k: SortedKeyframes| k@);
        proof {
            assert(new_frames =~= old_frames.insert(bone_idx, after));
            let p = lemma_insert_by_key_position(before, keyframe, frame_key());
            assert(after == before.insert(p, keyframe));
            assert(new_frames[bone_idx][p] == keyframe);
            assert(has_frame(new_frames, f as int));
            match old_range {
                None => {
                    assert(before.len() == 0);
                    assert forall|b: u8, i: int|
                        new_frames.contains_key(b) && 0 <= i < new_frames[b].len() implies new_range.0
                        <= #[trigger] new_frames[b][i].frame <= new_range.1 by {
                        if b != bone_idx {
                            assert(old_frames.contains_key(b));
                        }
                    }
                },
                Some((lo, hi)) => {
                    assert forall|b: u8, i: int|
                        new_frames.contains_key(b) && 0 <= i < new_frames[b].len() implies new_range.0
                        <= #[trigger] new_frames[b][i].frame <= new_range.1 by {
                        if b != bone_idx {
                            assert(old_frames.contains_key(b));
                            assert(old_frames[b][i] == new_frames[b][i]);
                        } else if i < p {
                            assert(new_frames[b][i] == before[i]);
                            assert(old_frames[b][i] == before[i]);
                        } else if i > p {
                            assert(new_frames[b][i] == before[i - 1]);
                            assert(old_frames[b][i - 1] == before[i - 1]);
                        }
                    }
                    let (b1, i1) = choose|b1: u8, i1: int|
                        old_frames.contains_key(b1) && 0 <= i1 < old_frames[b1].len()
                            && #[trigger] old_frames[b1][i1].frame == lo;
                    let (b2, i2) = choose|b2: u8, i2: int|
                        old_frames.contains_key(b2) && 0 <= i2 < old_frames[b2].len()
                            && #[trigger] old_frames[b2][i2].frame == hi;
                    if b1 == bone_idx {
                        let j1 = if i1 < p {
                            i1
                        } else {
                            i1 + 1
                        };
                        assert(new_frames[b1][j1].frame == lo);
                    } else {
                        assert(new_frames[b1][i1].frame == lo);
                    }
                    if b2 == bone_idx {
                        let j2 = if i2 < p {
                            i2
                        } else {
                            i2 + 1
                        };
                        assert(new_frames[b2][j2].frame == hi);
                    } else {
                        assert(new_frames[b2][i2].frame == hi);
                    }
                },
            }
        }
        *self = BoneKeyframes { frame_range_inclusive: Some(new_range), keyframes };
    }
}

/// `new` holds the same keyframes as `old`, each with its dual quaternion turned from Z up to Y up.
pub open spec fn all_turned_y_up(new: Map<u8, Seq<BoneKeyframe>>, old: Map<u8, Seq<BoneKeyframe>>) -> bool {
    &&& new.dom() == old.dom()
    &&& forall|b: u8| #[trigger]
        old.contains_key(b) ==> new[b].len() == old[b].len() && forall|i: int|
            0 <= i < old[b].len() ==> turned_y_up(#[trigger] new[b][i], old[b][i])
}

/// `new` holds the same keyframes as `old`, each with its matrix transposed.
pub open spec fn all_transposed(new: Map<u8, Seq<BoneKeyframe>>, old: Map<u8, Seq<BoneKeyframe>>) -> bool {
    &&& new.dom() == old.dom()
    &&& forall|b: u8| #[trigger]
        old.contains_key(b) ==> new[b].len() == old[b].len() && forall|i: int|
            0 <= i < old[b].len() ==> transposed_keyframe(#[trigger] new[b][i], old[b][i])
}

/// Every keyframe of every bone is a dual quaternion.
pub open spec fn all_dual_quats(frames: Map<u8, Seq<BoneKeyframe>>) -> bool {
    forall|b: u8, i: int|
        frames.contains_key(b) && 0 <= i < frames[b].len() ==> (#[trigger] frames[b][i]).bone is DualQuat
}

/// Every keyframe of every bone is a matrix.
pub open spec fn all_matrices(frames: Map<u8, Seq<BoneKeyframe>>) -> bool {
    forall|b: u8, i: int|
        frames.contains_key(b) && 0 <= i < frames[b].len() ==> (#[trigger] frames[b][i]).bone is Matrix
}

/// Keyframes at the same frames span the same range.
proof fn lemma_same_frames_same_range(
    new: Map<u8, Seq<BoneKeyframe>>,
    old: Map<u8, Seq<BoneKeyframe>>,
    range: Option<(u16, u16)>,
)
    requires
        frame_range_of(old, range),
        new.dom() == old.dom(),
        forall|b: u8| #[trigger]
            old.contains_key(b) ==> new[b].len() == old[b].len() && forall|i: int|
                0 <= i < old[b].len() ==> (#[trigger] new[b][i]).frame == old[b][i].frame,
    ensures
        frame_range_of(new, range),
{
    match range {
        None => {
            assert forall|b: u8| #[trigger] new.contains_key(b) implies new[b].len() == 0 by {
                assert(old.contains_key(b));
            }
        },
        Some((lo, hi)) => {
            assert forall|b: u8, i: int|
                new.contains_key(b) && 0 <= i < new[b].len() implies lo <= #[trigger] new[b][i].frame
                <= hi by {
                assert(old.contains_key(b));
                assert(new[b][i].frame == old[b][i].frame);
            }
            let (b1, i1) = choose|b1: u8, i1: int|
                old.contains_key(b1) && 0 <= i1 < old[b1].len() && #[trigger] old[b1][i1].frame
                    == lo;
            assert(new[b1][i1].frame == lo);
            let (b2, i2) = choose|b2: u8, i2: int|
                old.contains_key(b2) && 0 <= i2 < old[b2].len() && #[trigger] old[b2][i2].frame
                    == hi;
            assert(new[b2][i2].frame == hi);
        },
    }
}

impl BoneKeyframes {
    /// Turn every keyframe's dual quaternion from Z up right handed to Y up right handed.
    pub fn z_up_to_y_up(&mut self)
        requires
            all_dual_quats(old(self).bone_frames()),
        ensures
            all_turned_y_up(final(self).bone_frames(), old(self).bone_frames()),
            final(self).range() == old(self).range(),
    {
        broadcast use vstd::std_specs::hash::group_hash_axioms;

        proof {
            use_type_invariant(&*self);
        }
        let mut this = BoneKeyframes::new();
        std::mem::swap(&mut this, self);
        let ghost old_frames = this.bone_frames();
        let BoneKeyframes { frame_range_inclusive, mut keyframes } = this;
        let mut b: u16 = 0;
        while b < 256
            invariant
                b <= 256,
                all_dual_quats(old_frames),
                keyframes@.dom() == old_frames.dom(),
                forall|c: u8| #[trigger]
                    keyframes@.contains_key(c) && c >= b ==> keyframes@[c]@ == old_frames[c],
                forall|c: u8| #[trigger]
                    keyframes@.contains_key(c) && c < b ==> keyframes@[c]@.len() == old_frames[c].len()
                        && forall|i: int|
                        0 <= i < old_frames[c].len() ==> turned_y_up(
                            #[trigger] keyframes@[c]@[i],
                            old_frames[c][i],
                        ),
            decreases 256 - b,
        {
            let c = b as u8;
            match keyframes.remove(&c) {
                Some(mut k) => {
                    assert forall|i: int| 0 <= i < k@.len() implies (#[trigger] k@[i]).bone is DualQuat by {
                        assert(old_frames.contains_key(c) && k@[i] == old_frames[c][i]);
                    }
                    k.z_up_to_y_up();
                    keyframes.insert(c, k);
                },
                None => {},
            }
            b = b + 1;
        }
        let ghost new_frames = keyframes@.map_values(|k: SortedKeyframes| k@);
        proof {
            assert forall|c: u8| #[trigger] old_frames.contains_key(c) implies new_frames[c].len()
                == old_frames[c].len() && forall|i: int|
                0 <= i < old_frames[c].len() ==> (#[trigger] new_frames[c][i]).frame
                    == old_frames[c][i].frame by {
                assert(keyframes@.contains_key(c));
                assert(c < 256);
                assert forall|i: int| 0 <= i < old_frames[c].len() implies (#[trigger] new_frames[c][i]).frame
                    == old_frames[c][i].frame by {
                    assert(turned_y_up(keyframes@[c]@[i], old_frames[c][i]));
                }
            }
            assert(new_frames.dom() =~= old_frames.dom());
            lemma_same_frames_same_range(new_frames, old_frames, frame_range_inclusive);
        }
        *self = BoneKeyframes { frame_range_inclusive, keyframes };
    }

    /// Transpose every keyframe's matrix.
    pub fn transpose(&mut self)
        requires
            all_matrices(old(self).bone_frames()),
        ensures
            all_transposed(final(self).bone_frames(), old(self).bone_frames()),
            final(self).range() == old(self).range(),
    {
        broadcast use vstd::std_specs::hash::group_hash_axioms;

        proof {
            use_type_invariant(&*self);
        }
        let mut this = BoneKeyframes::new();
        std::mem::swap(&mut this, self);
        let ghost old_frames = this.bone_frames();
        let BoneKeyframes { frame_range_inclusive, mut keyframes } = this;
        let mut b: u16 = 0;
        while b < 256
            invariant
                b <= 256,
                all_matrices(old_frames),
                keyframes@.dom() == old_frames.dom(),
                forall|c: u8| #[trigger]
                    keyframes@.contains_key(c) && c >= b ==> keyframes@[c]@ == old_frames[c],
                forall|c: u8| #[trigger]
                    keyframes@.contains_key(c) && c < b ==> keyframes@[c]@.len() == old_frames[c].len()
                        && forall|i: int|
                        0 <= i < old_frames[c].len() ==> transposed_keyframe(
                            #[trigger] keyframes@[c]@[i],
                            old_frames[c][i],
                        ),
            decreases 256 - b,
        {
            let c = b as u8;
            match keyframes.remove(&c) {
                Some(mut k) => {
                    assert forall|i: int| 0 <= i < k@.len() implies (#[trigger] k@[i]).bone is Matrix by {
                        assert(old_frames.contains_key(c) && k@[i] == old_frames[c][i]);
                    }
                    k.transpose();
                    keyframes.insert(c, k);
                },
                None => {},
            }
            b = b + 1;
        }
        let ghost new_frames = keyframes@.map_values(|k: SortedKeyframes| k@);
        proof {
            assert forall|c: u8| #[trigger] old_frames.contains_key(c) implies new_frames[c].len()
                == old_frames[c].len() && forall|i: int|
                0 <= i < old_frames[c].len() ==> (#[trigger] new_frames[c][i]).frame
                    == old_frames[c][i].frame by {
                assert(keyframes@.contains_key(c));
                assert(c < 256);
                assert forall|i: int| 0 <= i < old_frames[c].len() implies (#[trigger] new_frames[c][i]).frame
                    == old_frames[c][i].frame by {
                    assert(transposed_keyframe(keyframes@[c]@[i], old_frames[c][i]));
                }
            }
            assert(new_frames.dom() =~= old_frames.dom());
            lemma_same_frames_same_range(new_frames, old_frames, frame_range_inclusive);
        }
        *self = BoneKeyframes { frame_range_inclusive, keyframes };
    }
}

/// A set of keyframes along with metadata such as pose markers.
#[derive(Debug)]
pub struct Action {
    /// The transform keyframes of each bone.
    pub bone_keyframes: BoneKeyframes,
    /// Labeled frame times for the action: frame 9 might be marked as the "Contact Point".
    pub pose_markers: HashMap<u16, String>,
    /// Keyframes holding every bone at once.
    pub keyframes: Vec<Keyframe>,
}

impl Action {
    /// An action without keyframes or pose markers.
    pub fn new() -> (r: Self)
        ensures
            r.bone_keyframes.range() is None,
            r.bone_keyframes.bone_frames() == Map::<u8, Seq<BoneKeyframe>>::empty(),
            r.pose_markers@ == Map::<u16, String>::empty(),
            r.keyframes@.len() == 0,
    {
        Action { bone_keyframes: BoneKeyframes::new(), pose_markers: HashMap::new(), keyframes: Vec::new() }
    }

    /// The transform keyframes of each bone.
    pub fn bone_keyframes(&self) -> (r: &BoneKeyframes)
        ensures
            r == &self.bone_keyframes,
    {
        &self.bone_keyframes
    }

    /// Add a transformation keyframe for a bone.
    pub fn insert_bone_keyframe(&mut self, bone_idx: u8, keyframe: BoneKeyframe)
        ensures
            ({
                let old_frames = old(self).bone_keyframes.bone_frames();
                let before = if old_frames.contains_key(bone_idx) {
                    old_frames[bone_idx]
                } else {
                    Seq::empty()
                };
                final(self).bone_keyframes.bone_frames() == old_frames.insert(
                    bone_idx,
                    sort_by_key(before.push(keyframe), frame_key()),
                )
            }),
            final(self).bone_keyframes.range() == match old(self).bone_keyframes.range() {
                None => Some((keyframe.frame, keyframe.frame)),
                Some((lo, hi)) => Some(
                    (
                        if keyframe.frame < lo {
                            keyframe.frame
                        } else {
                            lo
                        },
                        if keyframe.frame > hi {
                            keyframe.frame
                        } else {
                            hi
                        },
                    ),
                ),
            },
            final(self).pose_markers == old(self).pose_markers,
            final(self).keyframes == old(self).keyframes,
    {
        self.bone_keyframes.insert_bone_keyframe(bone_idx, keyframe);
    }

    /// Labeled frame times for the action.
    pub fn pose_markers(&self) -> (r: &HashMap<u16, String>)
        ensures
            r == &self.pose_markers,
    {
        &self.pose_markers
    }

    /// The labeled frame times, to change them.
    pub fn pose_markers_mut(&mut self) -> (r: &mut HashMap<u16, String>)
        ensures
            *r == old(self).pose_markers,
            final(self).pose_markers == *final(r),
            final(self).bone_keyframes == old(self).bone_keyframes,
            final(self).keyframes == old(self).keyframes,
    {
        &mut self.pose_markers
    }

    /// The smallest frame of the bone keyframes, of which there must be some.
    pub fn smallest_frame(&self) -> (r: u16)
        requires
            self.bone_keyframes.range() is Some,
        ensures
            self.bone_keyframes.range() matches Some((lo, _)) && r == lo,
    {
        match self.bone_keyframes.frame_range_inclusive() {
            Some((lo, _)) => lo,
            None => 0,
        }
    }

    /// The largest frame of the bone keyframes, of which there must be some.
    pub fn largest_frame(&self) -> (r: u16)
        requires
            self.bone_keyframes.range() is Some,
        ensures
            self.bone_keyframes.range() matches Some((_, hi)) && r == hi,
    {
        match self.bone_keyframes.frame_range_inclusive() {
            Some((_, hi)) => hi,
            None => 0,
        }
    }

    /// The last frame minus the first, for bone keyframes of which there must be some.
    pub fn frame_duration(&self) -> (r: u16)
        requires
            self.bone_keyframes.range() is Some,
        ensures
            self.bone_keyframes.range() matches Some((lo, hi)) && r + lo == hi,
    {
        match self.bone_keyframes.frame_duration() {
            Some(d) => d,
            None => 0,
        }
    }
}

/// The pose of every bone at a keyframe.
#[derive(Debug, PartialEq)]
pub struct Keyframe {
    /// The frame.
    pub frame: u16,
    /// The bones at this frame.
    pub bones: Vec<Bone>,
}

impl Keyframe {
    /// The pose `bones` at `frame`.
    pub fn new(frame: u16, bones: Vec<Bone>) -> (r: Self)
        ensures
            r.frame == frame,
            r.bones@ == bones@,
    {
        Keyframe { frame, bones }
    }

    /// All of the bones for this keyframe.
    pub fn bones(&self) -> (r: &Vec<Bone>)
        ensures
            r@ == self.bones@,
    {
        &self.bones
    }

    /// All of the bones for this keyframe, to change them.
    pub fn bones_mut(&mut self) -> (r: &mut Vec<Bone>)
        ensures
            *r == old(self).bones,
            final(self).bones == *final(r),
            final(self).frame == old(self).frame,
    {
        &mut self.bones
    }

    /// The frame number.
    pub fn frame(&self) -> (r: u16)
        ensures
            r == self.frame,
    {
        self.frame
    }
}

/// Orders keyframes by frame.
pub open spec fn keyframe_key() -> spec_fn(Keyframe) -> int {
    |k: Keyframe| k.frame as int
}

/// The smallest frame of the keyframes (`u16::MAX` for none).
pub open spec fn smallest_keyframe(s: Seq<Keyframe>) -> u16
    decreases s.len(),
{
    if s.len() == 0 {
        u16::MAX
    } else {
        let m = smallest_keyframe(s.drop_last());
        if s.last().frame < m {
            s.last().frame
        } else {
            m
        }
    }
}

/// The largest frame of the keyframes (0 for none).
pub open spec fn largest_keyframe(s: Seq<Keyframe>) -> u16
    decreases s.len(),
{
    if s.len() == 0 {
        0
    } else {
        let m = largest_keyframe(s.drop_last());
        if s.last().frame > m {
            s.last().frame
        } else {
            m
        }
    }
}

/// The smallest and largest frames are frames of the keyframes and bound all of them.
pub proof fn lemma_frame_bounds(s: Seq<Keyframe>)
    ensures
        forall|i: int|
            0 <= i < s.len() ==> smallest_keyframe(s) <= (#[trigger] s[i]).frame <= largest_keyframe(s),
        s.len() > 0 ==> exists|i: int| 0 <= i < s.len() && (#[trigger] s[i]).frame == smallest_keyframe(s),
        s.len() > 0 ==> exists|i: int| 0 <= i < s.len() && (#[trigger] s[i]).frame == largest_keyframe(s),
    decreases s.len(),
{
    if s.len() > 0 {
        let p = s.drop_last();
        lemma_frame_bounds(p);
        assert forall|i: int| 0 <= i < s.len() implies smallest_keyframe(s) <= (#[trigger] s[i]).frame
            <= largest_keyframe(s) by {
            if i < p.len() {
                assert(s[i] == p[i]);
            }
        }
        if p.len() > 0 {
            let a = choose|i: int| 0 <= i < p.len() && (#[trigger] p[i]).frame == smallest_keyframe(p);
            let b = choose|i: int| 0 <= i < p.len() && (#[trigger] p[i]).frame == largest_keyframe(p);
            assert(s[a] == p[a]);
            assert(s[b] == p[b]);
        }
        assert(s[s.len() - 1] == s.last());
    }
}

/// Keyframes with the same contents, in any order, have the same smallest and largest frames.
pub proof fn lemma_frames_of_permutation(a: Seq<Keyframe>, b: Seq<Keyframe>)
    requires
        a.to_multiset() =~= b.to_multiset(),
    ensures
        smallest_keyframe(a) == smallest_keyframe(b),
        largest_keyframe(a) == largest_keyframe(b),
{
    broadcast use vstd::seq_lib::group_to_multiset_ensures;

    lemma_frame_bounds(a);
    lemma_frame_bounds(b);
    assert(a.len() == a.to_multiset().len());
    assert(b.len() == b.to_multiset().len());
    if a.len() > 0 {
        let ia = choose|i: int| 0 <= i < a.len() && (#[trigger] a[i]).frame == smallest_keyframe(a);
        let ib = choose|i: int| 0 <= i < b.len() && (#[trigger] b[i]).frame == smallest_keyframe(b);
        let ja = choose|i: int| 0 <= i < a.len() && (#[trigger] a[i]).frame == largest_keyframe(a);
        let jb = choose|i: int| 0 <= i < b.len() && (#[trigger] b[i]).frame == largest_keyframe(b);
        assert(a.to_multiset().count(a[ia]) > 0);
        assert(b.contains(a[ia]));
        assert(b.to_multiset().count(b[ib]) > 0);
        assert(a.contains(b[ib]));
        assert(a.to_multiset().count(a[ja]) > 0);
        assert(b.contains(a[ja]));
        assert(b.to_multiset().count(b[jb]) > 0);
        assert(a.contains(b[jb]));
    } else {
        assert(b.len() == 0);
    }
}

/// All of the keyframes of an action, in ascending frame order.
#[derive(Debug)]
pub struct ActionKeyframes {
    keyframes: Vec<Keyframe>,
    smallest_frame: u16,
    largest_frame: u16,
}

/// Insert `x` into keyframes sorted by frame, after every keyframe whose frame is not larger.
fn insert_full_keyframe_sorted(out: &mut Vec<Keyframe>, x: Keyframe)
    requires
        crate::sorting::sorted_by_key(old(out)@, keyframe_key()),
    ensures
        final(out)@ == insert_by_key(old(out)@, x, keyframe_key()),
        crate::sorting::sorted_by_key(final(out)@, keyframe_key()),
{
    proof {
        crate::sorting::lemma_insert_sorted(out@, x, keyframe_key());
    }
    let mut p = out.len();
    while p > 0 && out[p - 1].frame > x.frame
        invariant
            p <= out@.len(),
            forall|j: int| p <= j < out@.len() ==> (keyframe_key())(#[trigger] out@[j]) > (keyframe_key())(x),
        decreases p,
    {
        p = p - 1;
    }
    proof {
        crate::sorting::lemma_insert_at(out@, x, keyframe_key(), p as int);
    }
    out.insert(p, x);
}

impl ActionKeyframes {
    /// The keyframes.
    pub closed spec fn keyframes_view(&self) -> Seq<Keyframe> {
        self.keyframes@
    }

    /// The smallest frame of the keyframes.
    pub closed spec fn smallest(&self) -> u16 {
        self.smallest_frame
    }

    /// The largest frame of the keyframes.
    pub closed spec fn largest(&self) -> u16 {
        self.largest_frame
    }

    #[verifier::type_invariant]
    spec fn sorted(&self) -> bool {
        &&& crate::sorting::sorted_by_key(self.keyframes@, keyframe_key())
        &&& self.smallest_frame == smallest_keyframe(self.keyframes@)
        &&& self.largest_frame == largest_keyframe(self.keyframes@)
    }

    /// Sort the keyframes by frame (a stable sort) and record the smallest and largest frame.
    ///
    /// The keyframes must not be empty.
    pub fn new(keyframes: Vec<Keyframe>) -> (r: Self)
        requires
            keyframes@.len() > 0,
        ensures
            r.keyframes_view() == sort_by_key(keyframes@, keyframe_key()),
            r.smallest() == smallest_keyframe(keyframes@),
            r.largest() == largest_keyframe(keyframes@),
    {
        let mut smallest_frame: u16 = u16::MAX;
        let mut largest_frame: u16 = 0;
        let mut i: usize = 0;
        assert(keyframes@.take(0) =~= Seq::<Keyframe>::empty());
        while i < keyframes.len()
            invariant
                i <= keyframes@.len(),
                smallest_frame == smallest_keyframe(keyframes@.take(i as int)),
                largest_frame == largest_keyframe(keyframes@.take(i as int)),
            decreases keyframes@.len() - i,
        {
            assert(keyframes@.take(i + 1).drop_last() =~= keyframes@.take(i as int));
            let f = keyframes[i].frame;
            if f < smallest_frame {
                smallest_frame = f;
            }
            if f > largest_frame {
                largest_frame = f;
            }
            i = i + 1;
        }
        assert(keyframes@.take(keyframes@.len() as int) =~= keyframes@);
        let ghost orig = keyframes@;
        let n0 = keyframes.len();
        let mut rest = keyframes;
        let mut out: Vec<Keyframe> = Vec::new();
        let mut j: usize = 0;
        assert(orig.take(0) =~= Seq::<Keyframe>::empty());
        assert(orig.skip(0) =~= orig);
        while rest.len() > 0
            invariant
                j <= orig.len(),
                orig.len() == n0,
                rest@ == orig.skip(j as int),
                out@ == sort_by_key(orig.take(j as int), keyframe_key()),
                crate::sorting::sorted_by_key(out@, keyframe_key()),
            decreases rest@.len(),
        {
            let x = rest.remove(0);
            proof {
                assert(x == orig[j as int]);
                crate::sorting::lemma_sort_take_step(orig, keyframe_key(), j as int);
                assert(orig.skip(j + 1) =~= orig.skip(j as int).drop_first());
            }
            insert_full_keyframe_sorted(&mut out, x);
            j = j + 1;
        }
        assert(orig.take(orig.len() as int) =~= orig);
        proof {
            crate::sorting::lemma_sort_by_key(orig, keyframe_key());
            lemma_frames_of_permutation(out@, orig);
        }
        ActionKeyframes { keyframes: out, smallest_frame, largest_frame }
    }

    /// The keyframes, guaranteed to be ordered from smallest frame first to largest frame last.
    pub fn keyframes(&self) -> (r: &Vec<Keyframe>)
        ensures
            r@ == self.keyframes_view(),
            crate::sorting::sorted_by_key(r@, keyframe_key()),
    {
        proof {
            use_type_invariant(self);
        }
        &self.keyframes
    }

    /// The smallest frame of the keyframes.
    pub fn smallest_frame(&self) -> (r: u16)
        ensures
            r == self.smallest(),
            r == smallest_keyframe(self.keyframes_view()),
    {
        proof {
            use_type_invariant(self);
        }
        self.smallest_frame
    }

    /// The largest frame of the keyframes.
    pub fn largest_frame(&self) -> (r: u16)
        ensures
            r == self.largest(),
            r == largest_keyframe(self.keyframes_view()),
    {
        proof {
            use_type_invariant(self);
        }
        self.largest_frame
    }

    /// Insert a keyframe, keeping the keyframes sorted: the same as pushing it and sorting
    /// again. The recorded smallest and largest frames take the new frame in, so they stay in
    /// step with the keyframes.
    pub fn insert_keyframe(&mut self, keyframe: Keyframe)
        ensures
            final(self).keyframes_view() == insert_by_key(old(self).keyframes_view(), keyframe, keyframe_key()),
            final(self).keyframes_view() == sort_by_key(old(self).keyframes_view().push(keyframe), keyframe_key()),
            final(self).smallest() == if keyframe.frame < old(self).smallest() {
                keyframe.frame
            } else {
                old(self).smallest()
            },
            final(self).largest() == if keyframe.frame > old(self).largest() {
                keyframe.frame
            } else {
                old(self).largest()
            },
    {
        proof {
            use_type_invariant(&*self);
            crate::armature::keyframes::lemma_sort_sorted(self.keyframes@, keyframe_key());
            assert(self.keyframes@.push(keyframe).drop_last() =~= self.keyframes@);
        }
        let mut taken = ActionKeyframes { keyframes: Vec::new(), smallest_frame: u16::MAX, largest_frame: 0 };
        std::mem::swap(&mut taken, self);
        let ActionKeyframes { keyframes: mut v, smallest_frame, largest_frame } = taken;
        let frame = keyframe.frame;
        let ghost before = v@;
        insert_full_keyframe_sorted(&mut v, keyframe);
        let smallest_frame = if frame < smallest_frame {
            frame
        } else {
            smallest_frame
        };
        let largest_frame = if frame > largest_frame {
            frame
        } else {
            largest_frame
        };
        proof {
            crate::sorting::lemma_sort_by_key(before.push(keyframe), keyframe_key());
            lemma_frames_of_permutation(v@, before.push(keyframe));
            assert(before.push(keyframe).drop_last() =~= before);
        }
        *self = ActionKeyframes { keyframes: v, smallest_frame, largest_frame };
    }
}

} // verus!
