use landon::armature::action::{Action, ActionKeyframes, Keyframe};
use landon::armature::bone::Bone;
use landon::armature::coordinate_system::{Axis, CoordinateSystem, Hand};
use landon::armature::keyframes::{BoneKeyframe, SortedKeyframes};
use landon::armature::sample::{surrounding_frame_indices, surrounding_keyframe_indices};
use landon::armature::BlenderArmature;

const BONE_IDX: u8 = 123;

fn bits<const N: usize>(values: [f32; N]) -> [u32; N] {
    values.map(|x| x.to_bits())
}

fn bone_dual_quat_identity() -> Bone {
    Bone::DualQuat(bits([0., 0., 0., 1., 0., 0., 0., 0.]))
}

/// The surrounding keyframes of a sampled frame, taken as an `f32` frame.
fn get_surrounding_keyframes(keyframes: &Vec<BoneKeyframe>, current_frame: f32) -> (BoneKeyframe, BoneKeyframe) {
    let floor = current_frame.floor();
    let (lower, upper) = surrounding_keyframe_indices(keyframes, floor as i64, floor == current_frame);
    (keyframes[lower], keyframes[upper])
}

#[test]
fn surrounding_keyframes() {
    let keyframes = vec![
        BoneKeyframe::new(2, bone_dual_quat_identity()),
        BoneKeyframe::new(5, bone_dual_quat_identity()),
        BoneKeyframe::new(8, bone_dual_quat_identity()),
    ];

    let tests = vec![
        (0.0, [0, 0]),
        (4.0, [0, 1]),
        (5.0, [1, 1]),
        (7.0, [1, 2]),
        (8.0, [2, 2]),
        (9.0, [2, 2]),
    ];

    for (elapsed_frames, [expected_lower, expected_upper]) in tests {
        let (lower, upper) = get_surrounding_keyframes(&keyframes, elapsed_frames);
        assert_eq!(lower, keyframes[expected_lower]);
        assert_eq!(upper, keyframes[expected_upper]);
    }
}

#[test]
fn surrounding_keyframes_between_whole_frames() {
    let keyframes = vec![
        BoneKeyframe::new(0, bone_dual_quat_identity()),
        BoneKeyframe::new(2, bone_dual_quat_identity()),
        BoneKeyframe::new(3, bone_dual_quat_identity()),
    ];
    assert_eq!(surrounding_keyframe_indices(&keyframes, 1, false), (0, 1));

    let late = vec![
        BoneKeyframe::new(10, bone_dual_quat_identity()),
        BoneKeyframe::new(15, bone_dual_quat_identity()),
        BoneKeyframe::new(31, bone_dual_quat_identity()),
    ];
    assert_eq!(surrounding_keyframe_indices(&late, 1, false), (0, 0));

    let early = vec![
        BoneKeyframe::new(0, bone_dual_quat_identity()),
        BoneKeyframe::new(1, bone_dual_quat_identity()),
    ];
    assert_eq!(surrounding_keyframe_indices(&early, 1, false), (1, 1));
}

fn idle_action(bone: Bone) -> Action {
    let mut action = Action::new();
    action.keyframes.push(Keyframe::new(0, vec![bone]));
    action.insert_bone_keyframe(BONE_IDX, BoneKeyframe::new(0, bone));
    action
}

#[test]
fn convert_dual_quaternions_z_up_right_to_y_up_right() {
    let mut arm = BlenderArmature::default();

    let expected_bone = bits([0., 1., 3., -2., 4., 5., 7., -6.]);

    let bone = Bone::DualQuat(bits([0., 1., 2., 3., 4., 5., 6., 7.]));
    arm.inverse_bind_poses = vec![bone];
    arm.insert_bone_space_action("Idle".to_string(), idle_action(bone));

    arm.change_coordinate_system(CoordinateSystem::new(Axis::Y, Hand::Right));

    assert_eq!(arm.inverse_bind_poses[0].as_slice(), &expected_bone);
    let action = arm.bone_space_actions.get(&"Idle".to_string()).unwrap();
    assert_eq!(action.keyframes[0].bones()[0].as_slice(), &expected_bone);
    let bone_keyframes = action.bone_keyframes().get(BONE_IDX).unwrap();
    assert_eq!(bone_keyframes.keyframes()[0].bone().as_slice(), &expected_bone);
    assert_eq!(arm.coordinate_system, CoordinateSystem::new(Axis::Y, Hand::Right));
}

#[test]
fn does_not_change_if_coordinate_system_same() {
    let mut arm = BlenderArmature::default();
    arm.change_coordinate_system(CoordinateSystem::new(Axis::Y, Hand::Right));

    let expected_bone = bits([0., 1., 2., 3., 4., 5., 6., 7.]);

    let bone = Bone::DualQuat(bits([0., 1., 2., 3., 4., 5., 6., 7.]));
    arm.inverse_bind_poses = vec![bone];
    arm.insert_bone_space_action("Idle".to_string(), idle_action(bone));

    arm.change_coordinate_system(CoordinateSystem::new(Axis::Y, Hand::Right));

    assert_eq!(arm.inverse_bind_poses[0].as_slice(), &expected_bone);
    let action = arm.bone_space_actions.get(&"Idle".to_string()).unwrap();
    assert_eq!(action.keyframes[0].bones()[0].as_slice(), &expected_bone);
}

#[test]
fn four_quarter_turns_give_the_bone_back() {
    let mut bone = Bone::DualQuat(bits([0.5, 1., 2., 3., 4., 5., 6., 7.]));
    for _ in 0..4 {
        landon::armature::bone::dual_quat_z_up_right_to_y_up_right(&mut bone);
    }
    assert_eq!(bone, Bone::DualQuat(bits([0.5, 1., 2., 3., 4., 5., 6., 7.])));
}

#[test]
fn transpose_actions() {
    let mut start_armature = BlenderArmature::default();
    let mut action = Action::new();
    action.insert_bone_keyframe(
        BONE_IDX,
        BoneKeyframe::new(
            1,
            Bone::Matrix(bits([
                1.0, 0.0, 0.0, 0.0, 0.0, 1.0, 0.0, 0.0, 0.0, 0.0, 1.0, 0.0, 0.0, 0.0, 5.0, 1.0,
            ])),
        ),
    );
    start_armature.insert_bone_space_action("Some Action Name".to_string(), action);

    start_armature.transpose_actions();

    let action = start_armature
        .bone_space_actions
        .get(&"Some Action Name".to_string())
        .unwrap();
    let keyframes = action.bone_keyframes().get(BONE_IDX).unwrap();
    assert_eq!(
        keyframes.keyframes(),
        &vec![BoneKeyframe::new(
            1,
            Bone::Matrix(bits([
                1.0, 0.0, 0.0, 0.0, 0.0, 1.0, 0.0, 0.0, 0.0, 0.0, 1.0, 5.0, 0.0, 0.0, 0.0, 1.0,
            ])),
        )]
    );
    assert_eq!(action.smallest_frame(), 1);
    assert_eq!(action.largest_frame(), 1);
}

#[test]
fn transposing_twice_gives_the_matrix_back() {
    let values = bits([
        1.0, 2.0, 3.0, 4.0, 5.0, 6.0, 7.0, 8.0, 9.0, 10.0, 11.0, 12.0, 13.0, 14.0, 15.0, 16.0,
    ]);
    let mut bone = Bone::Matrix(values);
    bone.transpose();
    assert_ne!(bone, Bone::Matrix(values));
    bone.transpose();
    assert_eq!(bone, Bone::Matrix(values));
}

#[test]
fn bind_pos_with_idx() {
    let mut armature = BlenderArmature::default();
    armature
        .inverse_bind_poses
        .push(Bone::DualQuat(bits([1., 2., 3., 4., 5., 6., 7., 8.])));
    assert_eq!(armature.bone_model_space_bind_position(0), bits([-6., -7., -8.]));
}

#[test]
fn keyframes_stay_sorted_by_frame() {
    let a = BoneKeyframe::new(5, bone_dual_quat_identity());
    let b = BoneKeyframe::new(2, Bone::DualQuat(bits([1., 0., 0., 0., 0., 0., 0., 0.])));
    let c = BoneKeyframe::new(5, Bone::DualQuat(bits([2., 0., 0., 0., 0., 0., 0., 0.])));
    let mut sorted = SortedKeyframes::new(vec![a, b]);
    assert_eq!(sorted.keyframes(), &vec![b, a]);
    sorted.push(c);
    // A keyframe with an equal frame goes after the existing one.
    assert_eq!(sorted.keyframes(), &vec![b, a, c]);
}

#[test]
fn frame_range_follows_the_keyframes() {
    let mut action = Action::new();
    assert_eq!(action.bone_keyframes().frame_range_inclusive(), None);
    action.insert_bone_keyframe(0, BoneKeyframe::new(10, bone_dual_quat_identity()));
    action.insert_bone_keyframe(1, BoneKeyframe::new(4, bone_dual_quat_identity()));
    action.insert_bone_keyframe(0, BoneKeyframe::new(12, bone_dual_quat_identity()));
    assert_eq!(action.smallest_frame(), 4);
    assert_eq!(action.largest_frame(), 12);
    assert_eq!(action.frame_duration(), 8);
}

#[test]
fn deterministic_order_of_bone_indices() {
    let mut map = std::collections::HashMap::new();
    map.insert(9u8, "nine");
    map.insert(1u8, "one");
    map.insert(200u8, "two hundred");
    let ordered = landon::armature::serialize_hashmap_deterministic(&map);
    let keys: Vec<u8> = ordered.iter().map(|(k, _)| *k).collect();
    assert_eq!(keys, vec![1, 9, 200]);
    assert_eq!(*ordered[2].1, "two hundred");
}

#[test]
fn surrounding_frames_of_a_sampled_frame() {
    // Sampling frame 1.5: floor 1, not a whole number.
    assert_eq!(surrounding_frame_indices(&vec![0, 2, 3], 1, false), (0, 1));
    assert_eq!(surrounding_frame_indices(&vec![10, 15, 31], 1, false), (0, 0));
    assert_eq!(surrounding_frame_indices(&vec![0, 1], 1, false), (1, 1));
    // Sampling frame 2 exactly.
    assert_eq!(surrounding_frame_indices(&vec![0, 2, 3], 2, true), (1, 1));
}

#[test]
fn inserting_a_keyframe_keeps_the_frame_range_in_step() {
    let mut keyframes = ActionKeyframes::new(vec![Keyframe::new(5, vec![])]);
    keyframes.insert_keyframe(Keyframe::new(2, vec![]));
    keyframes.insert_keyframe(Keyframe::new(9, vec![]));

    let frames: Vec<u16> = keyframes.keyframes().iter().map(|k| k.frame).collect();
    assert_eq!(frames, vec![2, 5, 9]);
    assert_eq!(keyframes.smallest_frame(), 2);
    assert_eq!(keyframes.largest_frame(), 9);
}

#[test]
fn equal_maps_serialize_equally() {
    let mut a = std::collections::HashMap::new();
    let mut b = std::collections::HashMap::new();
    for k in [5u8, 3, 250, 0, 17] {
        a.insert(k, k as u32 * 2);
    }
    for k in [17u8, 0, 250, 3, 5] {
        b.insert(k, k as u32 * 2);
    }
    let ra = landon::armature::serialize_hashmap_deterministic(&a);
    let rb = landon::armature::serialize_hashmap_deterministic(&b);
    assert_eq!(ra, rb);
    assert_eq!(ra.iter().map(|(k, _)| *k).collect::<Vec<u8>>(), vec![0, 3, 5, 17, 250]);
}
