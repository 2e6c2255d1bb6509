use meshfit::blend::{blend_write_outcome, check_blend_path, BlenderShimWriteBlendResult, JointId};

#[test]
fn joint_codes_follow_declaration_order() {
    let all = [
        JointId::Pelvis,
        JointId::Spine,
        JointId::Neck,
        JointId::LeftShoulder,
        JointId::RightShoulder,
        JointId::LeftHip,
        JointId::RightHip,
    ];
    for (i, j) in all.iter().enumerate() {
        assert_eq!(j.code(), i as i32);
        assert_eq!(JointId::from_code(i as i32), Some(*j));
    }
    assert_eq!(JointId::from_code(7), None);
    assert_eq!(JointId::from_code(-1), None);
}

#[test]
fn blend_path_checks() {
    assert_eq!(check_blend_path(Some("/tmp/out.blend")), Ok(()));
    assert_eq!(check_blend_path(None), Err("blend_path is not valid UTF-8".to_string()));
    assert_eq!(
        check_blend_path(Some("/tmp/o\0ut.blend")),
        Err("blend_path contains interior NUL byte".to_string())
    );
}

#[test]
fn blend_write_outcomes() {
    assert_eq!(blend_write_outcome(BlenderShimWriteBlendResult { ok: 1 }, String::new()), Ok(()));
    assert_eq!(blend_write_outcome(BlenderShimWriteBlendResult { ok: -3 }, "ignored".to_string()), Ok(()));
    assert_eq!(
        blend_write_outcome(BlenderShimWriteBlendResult { ok: 0 }, String::new()),
        Err("failed to write blend file".to_string())
    );
    assert_eq!(
        blend_write_outcome(BlenderShimWriteBlendResult { ok: 0 }, "disk full".to_string()),
        Err("disk full".to_string())
    );
}
