//! Armatures: bones, their keyframes in actions, and the data needed for skeletal animation.
pub mod action;
pub mod bone;
pub mod coordinate_system;
pub mod keyframes;
pub mod sample;

use vstd::prelude::*;
use std::collections::HashMap;
use crate::armature::action::{all_dual_quats, all_matrices, all_transposed, all_turned_y_up, Action, Keyframe};
use crate::armature::bone::{dual_quat_z_up_right_to_y_up_right, transposed, z_up_to_y_up, Bone};
use crate::armature::coordinate_system::{Axis, CoordinateSystem, Hand};
use crate::str_map::StrMap;
use crate::export::{
    duplicate_names_of, file_lists, flatten_refs, flattened, item_files, keep_duplicates,
    lemma_duplicates_of_names, lemma_empty_iff_no_entries, name_file_pairs,
};

verus! {

/// Something went wrong in the Blender child process that was trying to export armature data:
/// Blender wrote this to stderr.
#[derive(Debug, PartialEq, Clone)]
pub enum BlenderError {
    /// The stderr output of Blender.
    Stderr(String),
}

/// All of the data about a Blender armature that was exported from Blender: what is needed to
/// implement skeletal animation.
#[derive(Debug)]
pub struct BlenderArmature {
    /// The name of the armature.
    pub name: String,
    /// Each bone's index into the vectors that hold bone data.
    pub joint_indices: StrMap<u8>,
    /// The parent of each bone that has one.
    pub bone_child_to_parent: HashMap<u8, u8>,
    /// Every bone's inverse bind pose.
    pub inverse_bind_poses: Vec<Bone>,
    /// The actions of the armature, by name.
    pub bone_space_actions: StrMap<Action>,
    /// The bone indices of each bone group, by group name.
    pub bone_groups: StrMap<Vec<u8>>,
    /// The coordinate system that the bones are in.
    pub coordinate_system: CoordinateSystem,
}

impl Default for BlenderArmature {
    fn default() -> (r: Self)
        ensures
            r.name@ == Seq::<char>::empty(),
            r.joint_indices.entry_seq().len() == 0,
            r.bone_child_to_parent@ == Map::<u8, u8>::empty(),
            r.inverse_bind_poses@.len() == 0,
            r.bone_space_actions.entry_seq().len() == 0,
            r.bone_groups.entry_seq().len() == 0,
            r.coordinate_system == (CoordinateSystem { up: Axis::Z, hand: Hand::Right }),
    {
        BlenderArmature {
            name: String::new(),
            joint_indices: StrMap::new(),
            bone_child_to_parent: HashMap::new(),
            inverse_bind_poses: Vec::new(),
            bone_space_actions: StrMap::new(),
            bone_groups: StrMap::new(),
            coordinate_system: CoordinateSystem::default(),
        }
    }
}

/// Every bone is a dual quaternion.
pub open spec fn bones_dual_quats(bones: Seq<Bone>) -> bool {
    forall|i: int| 0 <= i < bones.len() ==> (#[trigger] bones[i]) is DualQuat
}

/// `new` is `old` with every dual quaternion turned from Z up to Y up.
pub open spec fn bones_turned_y_up(new: Seq<Bone>, old: Seq<Bone>) -> bool {
    &&& new.len() == old.len()
    &&& forall|i: int|
        0 <= i < old.len() ==> match (#[trigger] new[i], old[i]) {
            (Bone::DualQuat(q), Bone::DualQuat(q0)) => q@ == z_up_to_y_up(q0@),
            _ => false,
        }
}

/// Every bone is a matrix.
pub open spec fn bones_matrices(bones: Seq<Bone>) -> bool {
    forall|i: int| 0 <= i < bones.len() ==> (#[trigger] bones[i]) is Matrix
}

/// `new` is `old` with every matrix transposed.
pub open spec fn bones_transposed(new: Seq<Bone>, old: Seq<Bone>) -> bool {
    &&& new.len() == old.len()
    &&& forall|i: int|
        0 <= i < old.len() ==> match (#[trigger] new[i], old[i]) {
            (Bone::Matrix(m), Bone::Matrix(m0)) => m@ == transposed(m0@),
            _ => false,
        }
}

/// Turn every dual quaternion of `bones` from Z up to Y up.
fn turn_bones_y_up(bones: &mut Vec<Bone>)
    requires
        bones_dual_quats(old(bones)@),
    ensures
        bones_turned_y_up(final(bones)@, old(bones)@),
{
    let ghost start = bones@;
    let mut i: usize = 0;
    while i < bones.len()
        invariant
            bones@.len() == start.len(),
            i <= start.len(),
            bones_dual_quats(start),
            forall|j: int| i <= j < start.len() ==> #[trigger] bones@[j] == start[j],
            forall|j: int|
                0 <= j < i ==> match (#[trigger] bones@[j], start[j]) {
                    (Bone::DualQuat(q), Bone::DualQuat(q0)) => q@ == z_up_to_y_up(q0@),
                    _ => false,
                },
        decreases start.len() - i,
    {
        let mut b = bones[i];
        dual_quat_z_up_right_to_y_up_right(&mut b);
        bones.set(i, b);
        i = i + 1;
    }
}

/// Transpose every matrix of `bones`.
fn transpose_bones(bones: &mut Vec<Bone>)
    requires
        bones_matrices(old(bones)@),
    ensures
        bones_transposed(final(bones)@, old(bones)@),
{
    let ghost start = bones@;
    let mut i: usize = 0;
    while i < bones.len()
        invariant
            bones@.len() == start.len(),
            i <= start.len(),
            bones_matrices(start),
            forall|j: int| i <= j < start.len() ==> #[trigger] bones@[j] == start[j],
            forall|j: int|
                0 <= j < i ==> match (#[trigger] bones@[j], start[j]) {
                    (Bone::Matrix(m), Bone::Matrix(m0)) => m@ == transposed(m0@),
                    _ => false,
                },
        decreases start.len() - i,
    {
        let mut b = bones[i];
        b.transpose();
        bones.set(i, b);
        i = i + 1;
    }
}

/// Every bone of the action is a dual quaternion.
pub open spec fn action_dual_quats(a: Action) -> bool {
    &&& all_dual_quats(a.bone_keyframes.bone_frames())
    &&& forall|k: int| 0 <= k < a.keyframes@.len() ==> bones_dual_quats(#[trigger] a.keyframes@[k].bones@)
}

/// `new` is the action `old` with every bone turned from Z up to Y up.
pub open spec fn action_turned_y_up(new: Action, old: Action) -> bool {
    &&& all_turned_y_up(new.bone_keyframes.bone_frames(), old.bone_keyframes.bone_frames())
    &&& new.bone_keyframes.range() == old.bone_keyframes.range()
    &&& new.pose_markers == old.pose_markers
    &&& new.keyframes@.len() == old.keyframes@.len()
    &&& forall|k: int|
        0 <= k < old.keyframes@.len() ==> (#[trigger] new.keyframes@[k]).frame == old.keyframes@[k].frame
            && bones_turned_y_up(new.keyframes@[k].bones@, old.keyframes@[k].bones@)
}

/// Turn every bone of an action from Z up to Y up.
fn turn_action_y_up(action: &mut Action)
    requires
        action_dual_quats(*old(action)),
    ensures
        action_turned_y_up(*final(action), *old(action)),
{
    action.bone_keyframes.z_up_to_y_up();
    let ghost start = action.keyframes@;
    let mut keyframes: Vec<Keyframe> = Vec::new();
    std::mem::swap(&mut keyframes, &mut action.keyframes);
    let mut out: Vec<Keyframe> = Vec::new();
    let n = keyframes.len();
    let mut i: usize = 0;
    while keyframes.len() > 0
        invariant
            start.len() == n,
            i <= n,
            keyframes@ == start.skip(i as int),
            out@.len() == i,
            forall|k: int| 0 <= k < start.len() ==> bones_dual_quats(#[trigger] start[k].bones@),
            forall|k: int|
                0 <= k < i ==> (#[trigger] out@[k]).frame == start[k].frame && bones_turned_y_up(
                    out@[k].bones@,
                    start[k].bones@,
                ),
        decreases keyframes@.len(),
    {
        let mut kf = keyframes.remove(0);
        proof {
            assert(kf == start[i as int]);
            assert(start.skip(i + 1) =~= start.skip(i as int).drop_first());
        }
        turn_bones_y_up(&mut kf.bones);
        out.push(kf);
        i = i + 1;
    }
    action.keyframes = out;
}

/// `new` is the action `old` with every bone keyframe's matrix transposed.
pub open spec fn action_transposed(new: Action, old: Action) -> bool {
    &&& all_transposed(new.bone_keyframes.bone_frames(), old.bone_keyframes.bone_frames())
    &&& new.bone_keyframes.range() == old.bone_keyframes.range()
    &&& new.pose_markers == old.pose_markers
    &&& new.keyframes == old.keyframes
}

/// The actions in `new` are those of `old` (same names, same order), each related by `rel`.
pub open spec fn actions_related(
    new: Seq<(String, Action)>,
    old: Seq<(String, Action)>,
    rel: spec_fn(Action, Action) -> bool,
) -> bool {
    &&& new.len() == old.len()
    &&& forall|i: int| 0 <= i < old.len() ==> (#[trigger] new[i]).0 == old[i].0 && rel(new[i].1, old[i].1)
}

impl BlenderArmature {
    /// Shift the data in the armature to a new coordinate system.
    ///
    /// If the armature is already in `system` nothing changes. Only converting from Blender's Z
    /// up right handed system to Y up right handed is supported (any other change is a caller
    /// error), and then every bone must be a dual quaternion: the new +Y axis is the old
    /// +Z axis and the new +Z axis is the old -Y axis.
    pub fn change_coordinate_system(&mut self, system: CoordinateSystem)
        requires
            old(self).coordinate_system != system ==> {
                &&& old(self).coordinate_system == (CoordinateSystem { up: Axis::Z, hand: Hand::Right })
                &&& system == (CoordinateSystem { up: Axis::Y, hand: Hand::Right })
                &&& bones_dual_quats(old(self).inverse_bind_poses@)
                &&& forall|i: int|
                    0 <= i < old(self).bone_space_actions.entry_seq().len() ==> action_dual_quats(
                        (#[trigger] old(self).bone_space_actions.entry_seq()[i]).1,
                    )
            },
        ensures
            old(self).coordinate_system == system ==> *final(self) == *old(self),
            old(self).coordinate_system != system ==> {
                &&& final(self).coordinate_system == system
                &&& bones_turned_y_up(final(self).inverse_bind_poses@, old(self).inverse_bind_poses@)
                &&& actions_related(
                    final(self).bone_space_actions.entry_seq(),
                    old(self).bone_space_actions.entry_seq(),
                    |n: Action, o: Action| action_turned_y_up(n, o),
                )
                &&& final(self).name == old(self).name
                &&& final(self).joint_indices == old(self).joint_indices
                &&& final(self).bone_child_to_parent == old(self).bone_child_to_parent
                &&& final(self).bone_groups == old(self).bone_groups
            },
    {
        if self.coordinate_system == system {
            return;
        }
        turn_bones_y_up(&mut self.inverse_bind_poses);
        let mut actions: StrMap<Action> = StrMap::new();
        std::mem::swap(&mut actions, &mut self.bone_space_actions);
        let mut entries = actions.into_entries();
        let ghost start = entries@;
        let n = entries.len();
        let mut out: Vec<(String, Action)> = Vec::new();
        let mut i: usize = 0;
        while entries.len() > 0
            invariant
                start.len() == n,
                i <= n,
                entries@ == start.skip(i as int),
                crate::str_map::keys_distinct(start),
                forall|k: int| 0 <= k < start.len() ==> action_dual_quats((#[trigger] start[k]).1),
                out@.len() == i,
                forall|k: int|
                    0 <= k < i ==> (#[trigger] out@[k]).0 == start[k].0 && action_turned_y_up(
                        out@[k].1,
                        start[k].1,
                    ),
            decreases entries@.len(),
        {
            let (name, mut action) = entries.remove(0);
            proof {
                assert((name, action) == start[i as int]);
                assert(start.skip(i + 1) =~= start.skip(i as int).drop_first());
            }
            turn_action_y_up(&mut action);
            out.push((name, action));
            i = i + 1;
        }
        proof {
            assert forall|a: int, b: int|
                0 <= a < out@.len() && 0 <= b < out@.len() && a != b implies (#[trigger] out@[a]).0@
                != (#[trigger] out@[b]).0@ by {
                assert(start[a].0@ != start[b].0@);
            }
        }
        self.bone_space_actions = StrMap::from_entries(out);
        self.coordinate_system = system;
    }

    /// Transpose all of the bone matrices of the actions' bone keyframes and of the inverse bind
    /// poses. Blender uses row major matrices, but OpenGL uses column major matrices so you'll
    /// usually want to transpose your matrices before using them.
    ///
    /// Every one of those bones must be a matrix: a dual quaternion cannot be transposed.
    pub fn transpose_actions(&mut self)
        requires
            bones_matrices(old(self).inverse_bind_poses@),
            forall|i: int|
                0 <= i < old(self).bone_space_actions.entry_seq().len() ==> all_matrices(
                    (#[trigger] old(self).bone_space_actions.entry_seq()[i]).1.bone_keyframes.bone_frames(),
                ),
        ensures
            bones_transposed(final(self).inverse_bind_poses@, old(self).inverse_bind_poses@),
            actions_related(
                final(self).bone_space_actions.entry_seq(),
                old(self).bone_space_actions.entry_seq(),
                |n: Action, o: Action| action_transposed(n, o),
            ),
            final(self).name == old(self).name,
            final(self).joint_indices == old(self).joint_indices,
            final(self).bone_child_to_parent == old(self).bone_child_to_parent,
            final(self).bone_groups == old(self).bone_groups,
            final(self).coordinate_system == old(self).coordinate_system,
    {
        let mut actions: StrMap<Action> = StrMap::new();
        std::mem::swap(&mut actions, &mut self.bone_space_actions);
        let mut entries = actions.into_entries();
        let ghost start = entries@;
        let n = entries.len();
        let mut out: Vec<(String, Action)> = Vec::new();
        let mut i: usize = 0;
        while entries.len() > 0
            invariant
                start.len() == n,
                i <= n,
                entries@ == start.skip(i as int),
                crate::str_map::keys_distinct(start),
                forall|k: int|
                    0 <= k < start.len() ==> all_matrices((#[trigger] start[k]).1.bone_keyframes.bone_frames()),
                out@.len() == i,
                forall|k: int|
                    0 <= k < i ==> (#[trigger] out@[k]).0 == start[k].0 && action_transposed(
                        out@[k].1,
                        start[k].1,
                    ),
            decreases entries@.len(),
        {
            let (name, mut action) = entries.remove(0);
            proof {
                assert((name, action) == start[i as int]);
                assert(start.skip(i + 1) =~= start.skip(i as int).drop_first());
            }
            action.bone_keyframes.transpose();
            out.push((name, action));
            i = i + 1;
        }
        proof {
            assert forall|a: int, b: int|
                0 <= a < out@.len() && 0 <= b < out@.len() && a != b implies (#[trigger] out@[a]).0@
                != (#[trigger] out@[b]).0@ by {
                assert(start[a].0@ != start[b].0@);
            }
        }
        self.bone_space_actions = StrMap::from_entries(out);
        transpose_bones(&mut self.inverse_bind_poses);
    }
}

/// `r` holds the entries of `m` once each, in strictly ascending key order.
pub open spec fn entries_in_key_order<'a, V>(r: Seq<(u8, &'a V)>, m: Map<u8, V>) -> bool {
    &&& forall|i: int, j: int| 0 <= i < j < r.len() ==> (#[trigger] r[i]).0 < (#[trigger] r[j]).0
    &&& forall|i: int| 0 <= i < r.len() ==> m.contains_key((#[trigger] r[i]).0) && *r[i].1 == m[r[i].0]
    &&& forall|k: u8| #[trigger] m.contains_key(k) ==> exists|i: int| 0 <= i < r.len() && (#[trigger] r[i]).0 == k
}

/// Two lists of the entries of one map in ascending key order are the same list: maps with equal
/// contents, whatever the order of their insertions or the seed of their hasher, are serialized
/// identically.
pub proof fn lemma_equal_maps_serialize_equally<'a, 'b, V>(
    r1: Seq<(u8, &'a V)>,
    r2: Seq<(u8, &'b V)>,
    m1: Map<u8, V>,
    m2: Map<u8, V>,
)
    requires
        m1 == m2,
        entries_in_key_order(r1, m1),
        entries_in_key_order(r2, m2),
    ensures
        r1.len() == r2.len(),
        forall|i: int| 0 <= i < r1.len() ==> r1[i].0 == r2[i].0 && *r1[i].1 == *r2[i].1,
    decreases r1.len() + r2.len(),
{
    if r1.len() > 0 && r2.len() > 0 {
        // The first keys are both the smallest key of the map.
        let k1 = r1[0].0;
        let k2 = r2[0].0;
        assert(m2.contains_key(k1));
        let j = choose|i: int| 0 <= i < r2.len() && (#[trigger] r2[i]).0 == k1;
        if j > 0 {
            assert(r2[0].0 < r2[j].0);
        }
        assert(m1.contains_key(k2));
        let i = choose|i: int| 0 <= i < r1.len() && (#[trigger] r1[i]).0 == k2;
        if i > 0 {
            assert(r1[0].0 < r1[i].0);
        }
        assert(k1 == k2);
        let t1 = r1.drop_first();
        let t2 = r2.drop_first();
        let m = m1.remove(k1);
        assert forall|k: u8| #[trigger] m.contains_key(k) implies exists|i: int|
            0 <= i < t1.len() && (#[trigger] t1[i]).0 == k by {
            let a = choose|a: int| 0 <= a < r1.len() && (#[trigger] r1[a]).0 == k;
            assert(a > 0);
            assert(t1[a - 1] == r1[a]);
        }
        assert forall|k: u8| #[trigger] m.contains_key(k) implies exists|i: int|
            0 <= i < t2.len() && (#[trigger] t2[i]).0 == k by {
            let a = choose|a: int| 0 <= a < r2.len() && (#[trigger] r2[a]).0 == k;
            assert(a > 0);
            assert(t2[a - 1] == r2[a]);
        }
        assert forall|a: int| 0 <= a < t1.len() implies m.contains_key((#[trigger] t1[a]).0) && *t1[a].1
            == m[t1[a].0] by {
            assert(t1[a] == r1[a + 1]);
            assert(r1[0].0 < r1[a + 1].0);
        }
        assert forall|a: int| 0 <= a < t2.len() implies m.contains_key((#[trigger] t2[a]).0) && *t2[a].1
            == m[t2[a].0] by {
            assert(t2[a] == r2[a + 1]);
            assert(r2[0].0 < r2[a + 1].0);
        }
        assert forall|a: int, b: int| 0 <= a < b < t1.len() implies (#[trigger] t1[a]).0 < (#[trigger] t1[b]).0 by {
            assert(t1[a] == r1[a + 1] && t1[b] == r1[b + 1]);
        }
        assert forall|a: int, b: int| 0 <= a < b < t2.len() implies (#[trigger] t2[a]).0 < (#[trigger] t2[b]).0 by {
            assert(t2[a] == r2[a + 1] && t2[b] == r2[b + 1]);
        }
        lemma_equal_maps_serialize_equally(t1, t2, m, m);
        assert forall|a: int| 0 <= a < r1.len() implies r1[a].0 == r2[a].0 && *r1[a].1 == *r2[a].1 by {
            if a > 0 {
                assert(t1[a - 1] == r1[a] && t2[a - 1] == r2[a]);
            }
        }
    } else if r1.len() > 0 {
        assert(m2.contains_key(r1[0].0));
    } else if r2.len() > 0 {
        assert(m1.contains_key(r2[0].0));
    }
}

/// The entries of a map keyed by bone index, in ascending key order: the same map gives the same
/// order every time, which keeps serialized assets reproducible.
pub fn serialize_hashmap_deterministic<'a, V>(value: &'a HashMap<u8, V>) -> (r: Vec<(u8, &'a V)>)
    ensures
        entries_in_key_order(r@, value@),
        forall|i: int, j: int| 0 <= i < j < r@.len() ==> (#[trigger] r@[i]).0 < (#[trigger] r@[j]).0,
        forall|i: int|
            0 <= i < r@.len() ==> value@.contains_key((#[trigger] r@[i]).0) && *r@[i].1 == value@[r@[i].0],
        forall|k: u8| #[trigger]
            value@.contains_key(k) ==> exists|i: int| 0 <= i < r@.len() && (#[trigger] r@[i]).0 == k,
{
    broadcast use vstd::std_specs::hash::group_hash_axioms;

    let mut out: Vec<(u8, &'a V)> = Vec::new();
    let mut k: u16 = 0;
    while k < 256
        invariant
            k <= 256,
            forall|i: int, j: int| 0 <= i < j < out@.len() ==> (#[trigger] out@[i]).0 < (#[trigger] out@[j]).0,
            forall|i: int| 0 <= i < out@.len() ==> (#[trigger] out@[i]).0 < k,
            forall|i: int|
                0 <= i < out@.len() ==> value@.contains_key((#[trigger] out@[i]).0) && *out@[i].1
                    == value@[out@[i].0],
            forall|c: u8| #[trigger]
                value@.contains_key(c) && c < k ==> exists|i: int| 0 <= i < out@.len() && (#[trigger] out@[i]).0 == c,
        decreases 256 - k,
    {
        let c = k as u8;
        let ghost before = out@;
        match value.get(&c) {
            Some(v) => {
                out.push((c, v));
            },
            None => {},
        }
        proof {
            assert forall|cc: u8| #[trigger] value@.contains_key(cc) && cc < k + 1 implies exists|i: int|
                0 <= i < out@.len() && (#[trigger] out@[i]).0 == cc by {
                if cc == c {
                    assert(out@[out@.len() - 1].0 == c);
                } else {
                    let i = choose|i: int| 0 <= i < before.len() && (#[trigger] before[i]).0 == cc;
                    assert(out@[i] == before[i]);
                }
            }
        }
        k = k + 1;
    }
    out
}

impl BlenderArmature {
    /// The name of the armature.
    pub fn name(&self) -> (r: &String)
        ensures
            r@ == self.name@,
    {
        &self.name
    }

    /// Set the name of the armature.
    pub fn set_name(&mut self, name: String)
        ensures
            *final(self) == (BlenderArmature { name, ..*old(self) }),
    {
        self.name = name;
    }

    /// The bone indices of each bone group, by group name.
    pub fn bone_groups(&self) -> (r: &StrMap<Vec<u8>>)
        ensures
            r == &self.bone_groups,
    {
        &self.bone_groups
    }

    /// Create (or replace) a bone group.
    pub fn create_bone_group(&mut self, name: String, joint_indices: Vec<u8>)
        ensures
            final(self).bone_groups.contents() == old(self).bone_groups.contents().insert(
                name@,
                joint_indices,
            ),
            *final(self) == (BlenderArmature { bone_groups: final(self).bone_groups, ..*old(self) }),
    {
        self.bone_groups.insert(name, joint_indices);
    }

    /// Each bone's index into the vectors that hold bone data, by bone name.
    pub fn joint_indices(&self) -> (r: &StrMap<u8>)
        ensures
            r == &self.joint_indices,
    {
        &self.joint_indices
    }

    /// Set a bone's index into the vectors that hold bone data.
    pub fn insert_joint_index(&mut self, joint_name: String, joint_idx: u8)
        ensures
            final(self).joint_indices.contents() == old(self).joint_indices.contents().insert(
                joint_name@,
                joint_idx,
            ),
            *final(self) == (BlenderArmature { joint_indices: final(self).joint_indices, ..*old(self) }),
    {
        self.joint_indices.insert(joint_name, joint_idx);
    }

    /// Every bone's inverse bind pose.
    pub fn inverse_bind_poses(&self) -> (r: &Vec<Bone>)
        ensures
            r@ == self.inverse_bind_poses@,
    {
        &self.inverse_bind_poses
    }

    /// Set the inverse bind poses.
    pub fn set_inverse_bind_poses(&mut self, poses: Vec<Bone>)
        ensures
            *final(self) == (BlenderArmature { inverse_bind_poses: poses, ..*old(self) }),
    {
        self.inverse_bind_poses = poses;
    }

    /// The actions of the armature, by name.
    pub fn bone_space_actions(&self) -> (r: &StrMap<Action>)
        ensures
            r == &self.bone_space_actions,
    {
        &self.bone_space_actions
    }

    /// Insert (or replace) an action.
    pub fn insert_bone_space_action(&mut self, name: String, action: Action)
        ensures
            final(self).bone_space_actions.contents() == old(self).bone_space_actions.contents().insert(
                name@,
                action,
            ),
            *final(self) == (BlenderArmature { bone_space_actions: final(self).bone_space_actions, ..*old(self) }),
    {
        self.bone_space_actions.insert(name, action);
    }

    /// Remove an action, returning it if there was one of that name.
    pub fn remove_bone_space_action(&mut self, name: &String) -> (r: Option<Action>)
        ensures
            final(self).bone_space_actions.contents() == old(self).bone_space_actions.contents().remove(
                name@,
            ),
            *final(self) == (BlenderArmature { bone_space_actions: final(self).bone_space_actions, ..*old(self) }),
            match r {
                Some(a) => old(self).bone_space_actions.contents().contains_key(name@) && a
                    == old(self).bone_space_actions.contents()[name@],
                None => !old(self).bone_space_actions.contents().contains_key(name@),
            },
    {
        self.bone_space_actions.remove(name)
    }

    /// The parent of each bone that has one.
    pub fn bone_child_to_parent(&self) -> (r: &HashMap<u8, u8>)
        ensures
            r@ == self.bone_child_to_parent@,
    {
        &self.bone_child_to_parent
    }

    /// Record the parent of a bone.
    pub fn insert_child_to_parent(&mut self, child: u8, parent: u8)
        ensures
            final(self).bone_child_to_parent@ == old(self).bone_child_to_parent@.insert(child, parent),
            *final(self) == (BlenderArmature { bone_child_to_parent: final(self).bone_child_to_parent, ..*old(self) }),
    {
        broadcast use vstd::std_specs::hash::group_hash_axioms;

        self.bone_child_to_parent.insert(child, parent);
    }

    /// The bind pose position of a bone, by index: the negated last three values of its inverse
    /// bind pose dual quaternion.
    ///
    /// The bone must exist and be a dual quaternion.
    pub fn bone_model_space_bind_position(&self, bone_idx: u8) -> (r: [u32; 3])
        requires
            bone_idx < self.inverse_bind_poses@.len(),
            self.inverse_bind_poses@[bone_idx as int] is DualQuat,
        ensures
            self.inverse_bind_poses@[bone_idx as int] matches Bone::DualQuat(q) && r@ == seq![
                crate::float_bits::spec_negate(q[5]),
                crate::float_bits::spec_negate(q[6]),
                crate::float_bits::spec_negate(q[7]),
            ],
    {
        match &self.inverse_bind_poses[bone_idx as usize] {
            Bone::DualQuat(q) => {
                let r = [
                    crate::float_bits::negate(q[5]),
                    crate::float_bits::negate(q[6]),
                    crate::float_bits::negate(q[7]),
                ];
                assert(r@ =~= seq![
                    crate::float_bits::spec_negate(q[5]),
                    crate::float_bits::spec_negate(q[6]),
                    crate::float_bits::spec_negate(q[7]),
                ]);
                r
            },
            Bone::Matrix(_) => [0, 0, 0],
        }
    }

    /// The bind pose position of the bone with the given name, which must have a joint index
    /// whose bone is a dual quaternion.
    pub fn bone_model_space_position_with_name(&self, name: &String) -> (r: [u32; 3])
        requires
            self.joint_indices.contents().contains_key(name@),
            self.joint_indices.contents()[name@] < self.inverse_bind_poses@.len(),
            self.inverse_bind_poses@[self.joint_indices.contents()[name@] as int] is DualQuat,
        ensures
            self.inverse_bind_poses@[self.joint_indices.contents()[name@] as int] matches Bone::DualQuat(
                q,
            ) && r@ == seq![
                crate::float_bits::spec_negate(q[5]),
                crate::float_bits::spec_negate(q[6]),
                crate::float_bits::spec_negate(q[7]),
            ],
    {
        let idx = match self.joint_indices.get(name) {
            Some(i) => *i,
            None => 0,
        };
        self.bone_model_space_bind_position(idx)
    }
}

/// An error when flattening the armatures exported across several files into one map of
/// armature name to armature data.
#[derive(Debug)]
pub enum FlattenArmatureError {
    /// Some armature names appear in more than one file.
    DuplicateArmatureNamesAcrossFiles {
        /// Each duplicated armature name with the files that it appears in.
        duplicates: StrMap<Vec<String>>,
    },
}

/// Flatten the armatures of all of the files into one map of armature name to armature
/// reference, failing when an armature name appears in two or more files.
pub fn flatten_exported_armatures<'a>(armatures_by_filename: &'a StrMap<StrMap<BlenderArmature>>) -> (r:
    Result<StrMap<&'a BlenderArmature>, FlattenArmatureError>)
    ensures
        ({
            let pairs = name_file_pairs(armatures_by_filename.entry_seq());
            let fl = flattened(armatures_by_filename.entry_seq());
            match r {
                Ok(m) => duplicate_names_of(pairs) == Map::<Seq<char>, Seq<Seq<char>>>::empty() && (
                forall|n: Seq<char>| #[trigger] m.contents().contains_key(n) == fl.contains_key(n))
                    && (forall|n: Seq<char>| #[trigger]
                    m.contents().contains_key(n) ==> *m.contents()[n] == fl[n]),
                Err(FlattenArmatureError::DuplicateArmatureNamesAcrossFiles { duplicates }) => file_lists(
                    duplicates,
                ) == duplicate_names_of(pairs) && duplicate_names_of(pairs) != Map::<
                    Seq<char>,
                    Seq<Seq<char>>,
                >::empty(),
            }
        }),
{
    let names = item_files(armatures_by_filename);
    let duplicates = keep_duplicates(names);
    proof {
        lemma_duplicates_of_names(name_file_pairs(armatures_by_filename.entry_seq()));
        lemma_empty_iff_no_entries(duplicates);
    }
    if duplicates.len() > 0 {
        return Err(FlattenArmatureError::DuplicateArmatureNamesAcrossFiles { duplicates });
    }
    Ok(flatten_refs(armatures_by_filename))
}

} // verus!
