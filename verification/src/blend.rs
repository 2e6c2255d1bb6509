//! Values exchanged with the native Blender shim, and the decisions around
//! writing an armature to a `.blend` file.
use vstd::prelude::*;
use crate::text::{chars_of};

verus! {

/// Joints that the shim knows by number.
#[derive(Debug, Clone, Copy, PartialEq, Eq)]
pub enum JointId {
    Pelvis,
    Spine,
    Neck,
    LeftShoulder,
    RightShoulder,
    LeftHip,
    RightHip,
}

/// The number by which the shim knows a joint.
pub open spec fn joint_code(j: JointId) -> int {
    match j {
        JointId::Pelvis => 0,
        JointId::Spine => 1,
        JointId::Neck => 2,
        JointId::LeftShoulder => 3,
        JointId::RightShoulder => 4,
        JointId::LeftHip => 5,
        JointId::RightHip => 6,
    }
}

impl JointId {
    /// The number by which the shim knows this joint (`Pelvis` is 0, ..., `RightHip` is 6).
    pub fn code(self) -> (c: i32)
        ensures
            c == joint_code(self),
            self == JointId::Pelvis ==> c == 0,
            self == JointId::Spine ==> c == 1,
            self == JointId::Neck ==> c == 2,
            self == JointId::LeftShoulder ==> c == 3,
            self == JointId::RightShoulder ==> c == 4,
            self == JointId::LeftHip ==> c == 5,
            self == JointId::RightHip ==> c == 6,
    {
        match self {
            JointId::Pelvis => 0,
            JointId::Spine => 1,
            JointId::Neck => 2,
            JointId::LeftShoulder => 3,
            JointId::RightShoulder => 4,
            JointId::LeftHip => 5,
            JointId::RightHip => 6,
        }
    }

    /// The joint that the shim knows by `code`, if any.
    pub fn from_code(code: i32) -> (j: Option<JointId>)
        ensures
            match j {
                Some(j) => joint_code(j) == code,
                None => !(0 <= code <= 6),
            },
    {
        match code {
            0 => Some(JointId::Pelvis),
            1 => Some(JointId::Spine),
            2 => Some(JointId::Neck),
            3 => Some(JointId::LeftShoulder),
            4 => Some(JointId::RightShoulder),
            5 => Some(JointId::LeftHip),
            6 => Some(JointId::RightHip),
            _ => None,
        }
    }
}

/// A joint's number gives the joint back, and distinct joints have distinct numbers.
pub proof fn lemma_joint_code_round_trip(a: JointId, b: JointId)
    ensures
        0 <= joint_code(a) <= 6,
        joint_code(a) == joint_code(b) ==> a == b,
{
}

/// Armature validation as the shim reports it (flags as integers, nonzero meaning set).
#[derive(Debug, Clone, Copy, PartialEq)]
pub struct BlenderShimArmatureValidationResult {
    pub ok: i32,
    pub has_invalid_parent: i32,
    pub has_degenerate_bone: i32,
    pub first_invalid_bone_index: i32,
}

/// Armature validation with the flags as booleans.
#[derive(Debug, Clone, Copy, PartialEq)]
pub struct ArmatureValidationResult {
    pub ok: bool,
    pub has_invalid_parent: bool,
    pub has_degenerate_bone: bool,
    pub first_invalid_bone_index: i32,
}

/// The shim's answer to a request to write a `.blend` file (`ok` nonzero on success).
#[derive(Debug, Clone, Copy, PartialEq)]
pub struct BlenderShimWriteBlendResult {
    pub ok: i32,
}

/// Checks the target path of a `.blend` file before it is handed to the shim as a C
/// string. `path` is the path as text, `None` where it is not valid UTF-8.
pub fn check_blend_path(path: Option<&str>) -> (r: Result<(), String>)
    ensures
        path is None ==> (r matches Err(m) && m@ == "blend_path is not valid UTF-8"@),
        path matches Some(p) && p@.contains('\0') ==> (r matches Err(m) && m@
            == "blend_path contains interior NUL byte"@),
        path matches Some(p) && !p@.contains('\0') ==> r is Ok,
{
    match path {
        None => Err(String::from_str("blend_path is not valid UTF-8")),
        Some(p) => {
            let chars = chars_of(p);
            let mut k: usize = 0;
            while k < chars.len()
                invariant
                    path == Some(p),
                    chars@ == p@,
                    k <= chars.len(),
                    forall|m: int| 0 <= m < k ==> chars@[m] != '\0',
                decreases chars.len() - k,
            {
                if chars[k] == '\0' {
                    assert(p@.contains('\0'));
                    return Err(String::from_str("blend_path contains interior NUL byte"));
                }
                k = k + 1;
            }
            Ok(())
        },
    }
}

/// What writing a `.blend` file came to, from the shim's answer and the error message
/// it left (empty when it left none).
pub fn blend_write_outcome(result: BlenderShimWriteBlendResult, message: String) -> (r: Result<(), String>)
    ensures
        result.ok != 0 ==> r is Ok,
        result.ok == 0 ==> (r matches Err(m) && m@ == (if message@.len() == 0 {
            "failed to write blend file"@
        } else {
            message@
        })),
        r matches Err(m) ==> m@.len() > 0,
{
    proof { reveal_strlit("failed to write blend file"); }
    if result.ok != 0 {
        Ok(())
    } else if message.as_str().unicode_len() == 0 {
        Err(String::from_str("failed to write blend file"))
    } else {
        Err(message)
    }
}

} // verus!
