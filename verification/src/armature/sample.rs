//! Choosing what to sample: which joints, which action, and which keyframes surround a frame.
use vstd::prelude::*;
use std::time::Duration;
use crate::armature::keyframes::BoneKeyframe;

verus! {

/// The joints to sample.
///
/// To only animate, say, the lower body, you'd pass in only the joint indices for the lower body,
/// typically those of a `lower_body` bone group.
#[derive(Debug, Clone, Copy)]
pub enum JointIndicesRef<'a> {
    /// All of an armature's joints.
    All,
    /// Some subset of the armature's joints, such as those of the lower body while the upper
    /// body plays another action.
    Subset(&'a [u8]),
}

/// Settings describing an armature's action.
#[derive(Debug, Clone, Copy)]
pub struct ActionSettings<'a> {
    /// The name of the action (animation) whose keyframes you want to interpolate.
    pub action_name: &'a str,
    /// How much time has elapsed in the action; sampling begins from the first defined frame.
    pub elapsed_time: Duration,
    /// The framerate.
    pub frames_per_second: u8,
    /// Whether the action repeats once the elapsed time is past its duration (a walk cycle) or
    /// stays on its last frame (a one off punch).
    pub should_loop: bool,
}

impl<'a> ActionSettings<'a> {
    /// Settings for the action named `action_name`.
    pub fn new(
        action_name: &'a str,
        elapsed_time: Duration,
        frames_per_second: u8,
        should_loop: bool,
    ) -> (r: ActionSettings<'a>)
        ensures
            r.action_name == action_name,
            r.elapsed_time == elapsed_time,
            r.frames_per_second == frames_per_second,
            r.should_loop == should_loop,
    {
        ActionSettings { action_name, elapsed_time, frames_per_second, should_loop }
    }
}

/// Settings for how to interpolate an armature's bone data: which joints, and which action at
/// which time (interpolating a walk on the lower body and a punch on the upper body, or playing
/// keyframes in slow motion).
#[derive(Debug)]
pub struct InterpolationSettings<'a> {
    /// The joints to interpolate: `[0, 2, 3]` for the first, third and fourth bone.
    pub joint_indices: &'a [u8],
    /// Settings for the current action of the armature.
    pub action: ActionSettings<'a>,
}

/// A keyframe at frame `f` is at or before the sampled frame, whose floor is `floor`.
pub open spec fn at_or_before(f: u16, floor: i64) -> bool {
    f <= floor
}

/// A keyframe at frame `f` is at or after the sampled frame, whose floor is `floor` and which is
/// a whole number when `exact`.
pub open spec fn at_or_after(f: u16, floor: i64, exact: bool) -> bool {
    f > floor || (exact && f == floor)
}

/// The frames of the keyframes, in order.
pub open spec fn frames_of(keyframes: Seq<BoneKeyframe>) -> Seq<u16> {
    keyframes.map_values(|k: BoneKeyframe| k.frame)
}

/// `r` holds the indices of the frames that surround the sampled frame: the upper one is the
/// first frame at or after it, the lower one the last frame up to the upper one that is at or
/// before it; a missing one is replaced by the other.
pub open spec fn surrounds(frames: Seq<u16>, floor: i64, exact: bool, r: (usize, usize)) -> bool {
    &&& r.0 < frames.len()
    &&& r.1 < frames.len()
    &&& (exists|i: int| 0 <= i < frames.len() && at_or_after(#[trigger] frames[i], floor, exact))
        ==> {
        &&& at_or_after(frames[r.1 as int], floor, exact)
        &&& forall|j: int| 0 <= j < r.1 ==> !at_or_after(#[trigger] frames[j], floor, exact)
        &&& (exists|j: int| 0 <= j <= r.1 && at_or_before(#[trigger] frames[j], floor)) ==> r.0
            <= r.1 && at_or_before(frames[r.0 as int], floor) && forall|j: int|
            r.0 < j <= r.1 ==> !at_or_before(#[trigger] frames[j], floor)
        &&& !(exists|j: int| 0 <= j <= r.1 && at_or_before(#[trigger] frames[j], floor)) ==> r.0
            == r.1
    }
    &&& !(exists|i: int| 0 <= i < frames.len() && at_or_after(#[trigger] frames[i], floor, exact))
        ==> {
        &&& at_or_before(frames[r.0 as int], floor)
        &&& forall|j: int| r.0 < j < frames.len() ==> !at_or_before(#[trigger] frames[j], floor)
        &&& r.1 == r.0
    }
}

/// The indices of the frames that surround the sampled frame (see `surrounds`).
///
/// The sampled frame is given by its floor and whether it is a whole number; for the frames 0,
/// 2, 3 and the sampled frame 1.5 the result is the indices of 0 and 2. If you're sampling frame
/// 1.5 and the frames are 10, 15, 31, both are the first one, and for frames 0 and 1 both are
/// the last one. The frames need not be sorted, but there must be at least one.
pub fn surrounding_frame_indices(frames: &Vec<u16>, floor: i64, exact: bool) -> (r: (usize, usize))
    requires
        frames@.len() > 0,
    ensures
        surrounds(frames@, floor, exact, r),
{
    let mut lower: Option<usize> = None;
    let mut upper: Option<usize> = None;
    let mut idx: usize = 0;
    while idx < frames.len()
        invariant_except_break
            upper is None,
            match lower {
                Some(l) => l < idx && at_or_before(frames@[l as int], floor) && forall|j: int|
                    l < j < idx ==> !at_or_before(#[trigger] frames@[j], floor),
                None => forall|j: int| 0 <= j < idx ==> !at_or_before(#[trigger] frames@[j], floor),
            },
        invariant
            idx <= frames@.len(),
            forall|j: int| 0 <= j < idx ==> !at_or_after(#[trigger] frames@[j], floor, exact),
        ensures
            match upper {
                Some(u) => {
                    &&& u < frames@.len()
                    &&& at_or_after(frames@[u as int], floor, exact)
                    &&& forall|j: int| 0 <= j < u ==> !at_or_after(#[trigger] frames@[j], floor, exact)
                    &&& match lower {
                        Some(l) => l <= u && at_or_before(frames@[l as int], floor) && forall|j: int|
                            l < j <= u ==> !at_or_before(#[trigger] frames@[j], floor),
                        None => forall|j: int| 0 <= j <= u ==> !at_or_before(#[trigger] frames@[j], floor),
                    }
                },
                None => {
                    &&& forall|j: int|
                        0 <= j < frames@.len() ==> !at_or_after(#[trigger] frames@[j], floor, exact)
                    &&& match lower {
                        Some(l) => l < frames@.len() && at_or_before(frames@[l as int], floor)
                            && forall|j: int|
                            l < j < frames@.len() ==> !at_or_before(#[trigger] frames@[j], floor),
                        None => forall|j: int|
                            0 <= j < frames@.len() ==> !at_or_before(#[trigger] frames@[j], floor),
                    }
                },
            },
        decreases frames@.len() - idx,
    {
        let f = frames[idx];
        if (f as i64) <= floor {
            lower = Some(idx);
        }
        if (f as i64) > floor || (exact && (f as i64) == floor) {
            upper = Some(idx);
            break;
        }
        idx = idx + 1;
    }
    match (lower, upper) {
        (Some(l), Some(u)) => (l, u),
        (None, Some(u)) => (u, u),
        (Some(l), None) => (l, l),
        (None, None) => {
            proof {
                let f = frames@[0];
                assert(!at_or_before(f, floor));
                assert(!at_or_after(f, floor, exact));
            }
            (0, 0)
        },
    }
}

/// The indices of the keyframes that surround the sampled frame, by their frames (see
/// `surrounding_frame_indices`): for keyframes at frames 0, 2, 3 and the sampled frame 1.5,
/// the keyframes at 0 and 2.
pub fn surrounding_keyframe_indices(keyframes: &Vec<BoneKeyframe>, floor: i64, exact: bool) -> (r: (
    usize,
    usize,
))
    requires
        keyframes@.len() > 0,
    ensures
        surrounds(frames_of(keyframes@), floor, exact, r),
{
    let mut frames: Vec<u16> = Vec::new();
    let mut i: usize = 0;
    while i < keyframes.len()
        invariant
            i <= keyframes@.len(),
            frames@ == frames_of(keyframes@).take(i as int),
        decreases keyframes@.len() - i,
    {
        frames.push(keyframes[i].frame);
        proof {
            assert(frames_of(keyframes@).take(i + 1) =~= frames_of(keyframes@).take(i as int).push(
                keyframes@[i as int].frame,
            ));
        }
        i = i + 1;
    }
    assert(frames@ =~= frames_of(keyframes@));
    surrounding_frame_indices(&frames, floor, exact)
}

} // verus!
