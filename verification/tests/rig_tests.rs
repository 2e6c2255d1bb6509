use meshfit::rig::{make_rtmw3d_armature, make_simple_torso_armature, JointRef, RTMW3D_BONES};

#[test]
fn rtmw3d_armature_has_all_bones() {
    let a = make_rtmw3d_armature();
    assert_eq!(a.bones.len(), RTMW3D_BONES);
    assert_eq!(a.bones.len(), 126);
}

#[test]
fn rtmw3d_torso_and_limbs() {
    let a = make_rtmw3d_armature();
    let b = &a.bones;
    assert_eq!(b[0].name, "pelvis");
    assert_eq!(b[0].parent_index, -1);
    assert_eq!(b[0].head, JointRef::PelvisCenter);
    assert_eq!(b[0].tail, JointRef::ShoulderCenter);
    assert_eq!(b[1].name, "spine");
    assert_eq!(b[1].tail, JointRef::Neck);
    assert_eq!(b[4].name, "forearm.L");
    assert_eq!((b[4].head, b[4].tail), (JointRef::K(7), JointRef::K(9)));
    assert_eq!(b[19].name, "foot_heel.R");
    assert_eq!(b[19].parent_index, 13);
    assert_eq!(b[24].name, "ear.R");
    assert_eq!(b[24].parent_index, 22);
}

#[test]
fn rtmw3d_face_chains() {
    let a = make_rtmw3d_armature();
    let b = &a.bones;
    assert_eq!(b[25].name, "jaw_00");
    assert_eq!(b[25].parent_index, 20);
    assert_eq!((b[25].head, b[25].tail), (JointRef::K(23), JointRef::K(24)));
    assert_eq!(b[40].name, "jaw_15");
    assert_eq!(b[40].parent_index, 39);
    assert_eq!(b[40].tail, JointRef::K(39));
    assert_eq!(b[52].name, "nose_lower_00");
    assert_eq!(b[52].parent_index, 51);
    assert_eq!(b[77].name, "lip_inner_00");
    assert_eq!(b[77].parent_index, 76);
}

#[test]
fn rtmw3d_hands() {
    let a = make_rtmw3d_armature();
    let b = &a.bones;
    assert_eq!(b[84].name, "hand.L");
    assert_eq!(b[84].parent_index, 4);
    assert_eq!(b[85].name, "thumb.L_00");
    assert_eq!((b[85].head, b[85].tail), (JointRef::K(91), JointRef::K(92)));
    assert_eq!(b[105].name, "hand.R");
    assert_eq!(b[105].parent_index, 7);
    assert_eq!(b[125].name, "pinky.R_03");
    assert_eq!(b[125].parent_index, 124);
    assert_eq!(b[125].tail, JointRef::K(132));
}

#[test]
fn rtmw3d_parents_precede_children() {
    let a = make_rtmw3d_armature();
    for (i, bone) in a.bones.iter().enumerate() {
        if i == 0 {
            assert_eq!(bone.parent_index, -1);
        } else {
            assert!(bone.parent_index >= 0 && (bone.parent_index as usize) < i);
        }
    }
}

#[test]
fn rtmw3d_keypoints_in_range_and_names_unique() {
    let a = make_rtmw3d_armature();
    let mut names: Vec<&str> = Vec::new();
    for bone in &a.bones {
        for j in [bone.head, bone.tail] {
            if let JointRef::K(k) = j {
                assert!(k < 133);
            }
        }
        names.push(bone.name.as_str());
    }
    names.sort();
    names.dedup();
    assert_eq!(names.len(), 126);
}

#[test]
fn simple_torso_armature() {
    let a = make_simple_torso_armature(1, 2, 3);
    assert_eq!(a.bones.len(), 2);
    assert_eq!(a.bones[0].name, "pelvis");
    assert_eq!((a.bones[0].parent_index, a.bones[0].head, a.bones[0].tail), (-1, 1, 2));
    assert_eq!(a.bones[1].name, "spine");
    assert_eq!((a.bones[1].parent_index, a.bones[1].head, a.bones[1].tail), (0, 2, 3));
}

#[test]
fn find_bone_returns_first_match() {
    let mut a = make_simple_torso_armature(0u8, 0, 0);
    assert_eq!(a.find_bone("spine"), Some(1));
    assert_eq!(a.find_bone("pelvis"), Some(0));
    assert_eq!(a.find_bone("neck"), None);
    a.bones[1].name = "pelvis".to_string();
    assert_eq!(a.find_bone("pelvis"), Some(0));
}

#[test]
fn nul_free_names() {
    let mut a = make_simple_torso_armature(0u8, 0, 0);
    assert!(a.names_are_nul_free());
    a.bones[1].name = "sp\0ine".to_string();
    assert!(!a.names_are_nul_free());
}
