//! Armature descriptions and the bone layout that the RTMW3D whole-body
//! keypoints are rigged with.
//!
//! A bone's head and tail are kept abstract (`P`): the library decides the
//! armature's shape (names, parents, which keypoints each bone joins); the
//! positions themselves are computed by the caller.
use vstd::prelude::*;
use crate::text::{
    append_zero_padded, chars_equal, chars_of, contains_text, decimal, digit_char, lemma_zero_padded_injective,
    occurs_at, zero_padded,
};

verus! {

/// Number of keypoints that an RTMW3D whole-body estimate holds.
pub const RTMW3D_KEYPOINTS: usize = 133;

/// Number of bones in the RTMW3D armature.
pub const RTMW3D_BONES: usize = 126;

/// Where a bone end of the RTMW3D armature sits.
#[derive(Clone, Copy, Debug, PartialEq, Eq)]
pub enum JointRef {
    /// Keypoint number `k` of the estimate.
    K(usize),
    /// Midpoint of the two hips (keypoints 11 and 12).
    PelvisCenter,
    /// Midpoint of the two shoulders (keypoints 5 and 6).
    ShoulderCenter,
    /// Midpoint of the shoulder center and the nose (keypoint 0).
    Neck,
}

/// One bone: its name, the index of its parent bone (`-1` for none), and its two ends.
#[derive(Clone, Debug, PartialEq)]
pub struct BoneDesc<P> {
    pub name: String,
    pub parent_index: i32,
    pub head: P,
    pub tail: P,
}

/// An armature: its bones, parents given by index into `bones`.
#[derive(Clone, Debug, PartialEq)]
pub struct ArmatureDesc<P> {
    pub bones: Vec<BoneDesc<P>>,
}

/// What a bone is, as a mathematical value.
pub struct BoneLayout<P> {
    pub name: Seq<char>,
    pub parent: int,
    pub head: P,
    pub tail: P,
}

/// The bone `b` is exactly the bone that `l` describes.
pub open spec fn bone_matches<P>(b: BoneDesc<P>, l: BoneLayout<P>) -> bool {
    &&& b.name@ == l.name
    &&& b.parent_index as int == l.parent
    &&& b.head == l.head
    &&& b.tail == l.tail
}

/// Name of bone number `k` of a chain: `{prefix}_{k:02}`.
pub open spec fn chain_bone_name(prefix: Seq<char>, k: nat) -> Seq<char> {
    prefix + "_"@ + zero_padded(k, 2)
}

/// Bone `i` of a chain of bones that starts at bone index `first`, hangs from `parent`,
/// and joins the joints `joint(0), joint(1), ...` in turn.
pub open spec fn chain_layout(
    prefix: Seq<char>,
    parent: int,
    first: int,
    i: int,
    joint: spec_fn(int) -> JointRef,
) -> BoneLayout<JointRef> {
    let k = i - first;
    BoneLayout {
        name: chain_bone_name(prefix, k as nat),
        parent: if k == 0 {
            parent
        } else {
            i - 1
        },
        head: joint(k),
        tail: joint(k + 1),
    }
}

pub open spec fn single(name: Seq<char>, parent: int, head: JointRef, tail: JointRef) -> BoneLayout<
    JointRef,
> {
    BoneLayout { name, parent, head, tail }
}

/// Joints of a finger: the hand keypoint `root`, then four keypoints from `first` on.
pub open spec fn finger_joint(root: usize, first: int) -> spec_fn(int) -> JointRef {
    |k: int|
        if k == 0 {
            JointRef::K(root)
        } else {
            JointRef::K((first + k - 1) as usize)
        }
}

/// Joints of a run of consecutive keypoints from `first` on.
pub open spec fn run_joint(first: int) -> spec_fn(int) -> JointRef {
    |k: int| JointRef::K((first + k) as usize)
}

/// Bone `i` of the RTMW3D armature (for `0 <= i < 126`).
pub open spec fn rtmw3d_bone(i: int) -> BoneLayout<JointRef> {
    if i == 0 {
        single("pelvis"@, -1, JointRef::PelvisCenter, JointRef::ShoulderCenter)
    } else if i == 1 {
        single("spine"@, 0, JointRef::ShoulderCenter, JointRef::Neck)
    } else if i == 2 {
        single("clavicle.L"@, 1, JointRef::Neck, JointRef::K(5))
    } else if i == 3 {
        single("upper_arm.L"@, 2, JointRef::K(5), JointRef::K(7))
    } else if i == 4 {
        single("forearm.L"@, 3, JointRef::K(7), JointRef::K(9))
    } else if i == 5 {
        single("clavicle.R"@, 1, JointRef::Neck, JointRef::K(6))
    } else if i == 6 {
        single("upper_arm.R"@, 5, JointRef::K(6), JointRef::K(8))
    } else if i == 7 {
        single("forearm.R"@, 6, JointRef::K(8), JointRef::K(10))
    } else if i == 8 {
        single("hip.L"@, 0, JointRef::PelvisCenter, JointRef::K(11))
    } else if i == 9 {
        single("thigh.L"@, 8, JointRef::K(11), JointRef::K(13))
    } else if i == 10 {
        single("shin.L"@, 9, JointRef::K(13), JointRef::K(15))
    } else if i == 11 {
        single("hip.R"@, 0, JointRef::PelvisCenter, JointRef::K(12))
    } else if i == 12 {
        single("thigh.R"@, 11, JointRef::K(12), JointRef::K(14))
    } else if i == 13 {
        single("shin.R"@, 12, JointRef::K(14), JointRef::K(16))
    } else if i == 14 {
        single("foot_big_toe.L"@, 10, JointRef::K(15), JointRef::K(17))
    } else if i == 15 {
        single("foot_small_toe.L"@, 10, JointRef::K(15), JointRef::K(18))
    } else if i == 16 {
        single("foot_heel.L"@, 10, JointRef::K(15), JointRef::K(19))
    } else if i == 17 {
        single("foot_big_toe.R"@, 13, JointRef::K(16), JointRef::K(20))
    } else if i == 18 {
        single("foot_small_toe.R"@, 13, JointRef::K(16), JointRef::K(21))
    } else if i == 19 {
        single("foot_heel.R"@, 13, JointRef::K(16), JointRef::K(22))
    } else if i == 20 {
        single("head"@, 1, JointRef::Neck, JointRef::K(0))
    } else if i == 21 {
        single("eye.L"@, 20, JointRef::K(0), JointRef::K(1))
    } else if i == 22 {
        single("eye.R"@, 20, JointRef::K(0), JointRef::K(2))
    } else if i == 23 {
        single("ear.L"@, 21, JointRef::K(1), JointRef::K(3))
    } else if i == 24 {
        single("ear.R"@, 22, JointRef::K(2), JointRef::K(4))
    } else if i < 41 {
        chain_layout("jaw"@, 20, 25, i, run_joint(23))
    } else if i < 45 {
        chain_layout("brow.R"@, 20, 41, i, run_joint(40))
    } else if i < 49 {
        chain_layout("brow.L"@, 20, 45, i, run_joint(45))
    } else if i < 52 {
        chain_layout("nose_bridge"@, 20, 49, i, run_joint(50))
    } else if i < 56 {
        chain_layout("nose_lower"@, 51, 52, i, run_joint(54))
    } else if i < 61 {
        chain_layout("eye_loop.R"@, 20, 56, i, run_joint(59))
    } else if i < 66 {
        chain_layout("eye_loop.L"@, 20, 61, i, run_joint(65))
    } else if i < 77 {
        chain_layout("lip_outer"@, 20, 66, i, run_joint(71))
    } else if i < 84 {
        chain_layout("lip_inner"@, 76, 77, i, run_joint(83))
    } else if i == 84 {
        single("hand.L"@, 4, JointRef::K(9), JointRef::K(91))
    } else if i < 89 {
        chain_layout("thumb.L"@, 84, 85, i, finger_joint(91, 92))
    } else if i < 93 {
        chain_layout("index.L"@, 84, 89, i, finger_joint(91, 96))
    } else if i < 97 {
        chain_layout("middle.L"@, 84, 93, i, finger_joint(91, 100))
    } else if i < 101 {
        chain_layout("ring.L"@, 84, 97, i, finger_joint(91, 104))
    } else if i < 105 {
        chain_layout("pinky.L"@, 84, 101, i, finger_joint(91, 108))
    } else if i == 105 {
        single("hand.R"@, 7, JointRef::K(10), JointRef::K(112))
    } else if i < 110 {
        chain_layout("thumb.R"@, 105, 106, i, finger_joint(112, 113))
    } else if i < 114 {
        chain_layout("index.R"@, 105, 110, i, finger_joint(112, 117))
    } else if i < 118 {
        chain_layout("middle.R"@, 105, 114, i, finger_joint(112, 121))
    } else if i < 122 {
        chain_layout("ring.R"@, 105, 118, i, finger_joint(112, 125))
    } else {
        chain_layout("pinky.R"@, 105, 122, i, finger_joint(112, 129))
    }
}

/// The first `n` bones of `bones` are the first `n` bones of the RTMW3D armature.
pub open spec fn rtmw3d_prefix(bones: Seq<BoneDesc<JointRef>>, n: int) -> bool {
    &&& bones.len() == n
    &&& forall|j: int| 0 <= j < n ==> bone_matches(#[trigger] bones[j], rtmw3d_bone(j))
}

/// Appends a bone and returns its index.
fn add_bone<P>(bones: &mut Vec<BoneDesc<P>>, name: String, parent_index: i32, head: P, tail: P) -> (idx: i32)
    requires
        old(bones).len() < i32::MAX,
    ensures
        final(bones)@ == old(bones)@.push(BoneDesc { name, parent_index, head, tail }),
        idx as int == old(bones).len(),
{
    bones.push(BoneDesc { name, parent_index, head, tail });
    (bones.len() - 1) as i32
}

/// The name `{prefix}_{k:02}`.
fn chain_name(prefix: &str, k: usize) -> (name: String)
    ensures
        name@ == chain_bone_name(prefix@, k as nat),
{
    let mut name = String::from_str(prefix);
    name.append("_");
    append_zero_padded(&mut name, k, 2);
    name
}

/// Appends a chain of bones joining `chain[0], chain[1], ...` in turn, the first hanging
/// from `parent_index` and each next one from the one before; returns the index of the
/// last bone appended (`parent_index` when the chain has a single joint).
fn add_chain(bones: &mut Vec<BoneDesc<JointRef>>, prefix: &str, parent_index: i32, chain: &Vec<JointRef>) -> (last: i32)
    requires
        chain.len() >= 1,
        old(bones).len() + chain.len() < i32::MAX,
        -1 <= parent_index < old(bones).len(),
    ensures
        final(bones).len() == old(bones).len() + chain.len() - 1,
        forall|j: int| 0 <= j < old(bones).len() ==> final(bones)@[j] == old(bones)@[j],
        forall|k: int|
            0 <= k < chain.len() - 1 ==> bone_matches(
                #[trigger] final(bones)@[old(bones).len() + k],
                BoneLayout {
                    name: chain_bone_name(prefix@, k as nat),
                    parent: if k == 0 {
                        parent_index as int
                    } else {
                        old(bones).len() + k - 1
                    },
                    head: chain@[k],
                    tail: chain@[k + 1],
                },
            ),
        last == (if chain.len() == 1 {
            parent_index as int
        } else {
            old(bones).len() + chain.len() - 2
        }),
{
    let ghost start = bones@;
    let mut parent = parent_index;
    let mut i: usize = 0;
    while i < chain.len() - 1
        invariant
            chain.len() >= 1,
            start.len() + chain.len() < i32::MAX,
            -1 <= parent_index < start.len(),
            i <= chain.len() - 1,
            bones.len() == start.len() + i,
            forall|j: int| 0 <= j < start.len() ==> bones@[j] == start[j],
            forall|k: int|
                0 <= k < i ==> bone_matches(
                    #[trigger] bones@[start.len() + k],
                    BoneLayout {
                        name: chain_bone_name(prefix@, k as nat),
                        parent: if k == 0 {
                            parent_index as int
                        } else {
                            start.len() + k - 1
                        },
                        head: chain@[k],
                        tail: chain@[k + 1],
                    },
                ),
            parent == (if i == 0 {
                parent_index as int
            } else {
                start.len() + i - 1
            }),
        decreases chain.len() - 1 - i,
    {
        let name = chain_name(prefix, i);
        parent = add_bone(bones, name, parent, chain[i], chain[i + 1]);
        i = i + 1;
    }
    parent
}

/// The keypoints `first, first + 1, ..., first + count - 1`.
fn keypoint_run(first: usize, count: usize) -> (run: Vec<JointRef>)
    requires
        first + count <= RTMW3D_KEYPOINTS,
    ensures
        run.len() == count,
        forall|k: int| 0 <= k < count ==> run@[k] == (run_joint(first as int))(k),
{
    let mut run: Vec<JointRef> = Vec::new();
    let mut k: usize = 0;
    while k < count
        invariant
            first + count <= RTMW3D_KEYPOINTS,
            k <= count,
            run.len() == k,
            forall|j: int| 0 <= j < k ==> run@[j] == (run_joint(first as int))(j),
        decreases count - k,
    {
        run.push(JointRef::K(first + k));
        k = k + 1;
    }
    run
}

/// The joints of a finger: the hand keypoint `root`, then the four keypoints from `first` on.
fn finger(root: usize, first: usize) -> (run: Vec<JointRef>)
    requires
        first + 4 <= RTMW3D_KEYPOINTS,
    ensures
        run.len() == 5,
        forall|k: int| 0 <= k < 5 ==> run@[k] == (finger_joint(root, first as int))(k),
{
    let mut run: Vec<JointRef> = Vec::new();
    run.push(JointRef::K(root));
    let mut k: usize = 0;
    while k < 4
        invariant
            first + 4 <= RTMW3D_KEYPOINTS,
            k <= 4,
            run.len() == k + 1,
            forall|j: int| 0 <= j < k + 1 ==> run@[j] == (finger_joint(root, first as int))(j),
        decreases 4 - k,
    {
        run.push(JointRef::K(first + k));
        k = k + 1;
    }
    run
}

/// Torso, limbs, feet and the coarse head: bones 0 to 24. Returns the indices of the
/// head and of the two forearms.
fn add_body(bones: &mut Vec<BoneDesc<JointRef>>) -> (ids: (i32, i32, i32))
    requires
        old(bones).len() == 0,
    ensures
        rtmw3d_prefix(final(bones)@, 25),
        ids == (20i32, 4i32, 7i32),
{
    // torso
    let pelvis_i = add_bone(bones, String::from_str("pelvis"), -1, JointRef::PelvisCenter, JointRef::ShoulderCenter);
    let spine_i = add_bone(bones, String::from_str("spine"), pelvis_i, JointRef::ShoulderCenter, JointRef::Neck);
    // arms
    let clav_l_i = add_bone(bones, String::from_str("clavicle.L"), spine_i, JointRef::Neck, JointRef::K(5));
    let upper_arm_l_i = add_bone(bones, String::from_str("upper_arm.L"), clav_l_i, JointRef::K(5), JointRef::K(7));
    let forearm_l_i = add_bone(bones, String::from_str("forearm.L"), upper_arm_l_i, JointRef::K(7), JointRef::K(9));
    let clav_r_i = add_bone(bones, String::from_str("clavicle.R"), spine_i, JointRef::Neck, JointRef::K(6));
    let upper_arm_r_i = add_bone(bones, String::from_str("upper_arm.R"), clav_r_i, JointRef::K(6), JointRef::K(8));
    let forearm_r_i = add_bone(bones, String::from_str("forearm.R"), upper_arm_r_i, JointRef::K(8), JointRef::K(10));
    // legs
    let hip_l_i = add_bone(bones, String::from_str("hip.L"), pelvis_i, JointRef::PelvisCenter, JointRef::K(11));
    let thigh_l_i = add_bone(bones, String::from_str("thigh.L"), hip_l_i, JointRef::K(11), JointRef::K(13));
    let shin_l_i = add_bone(bones, String::from_str("shin.L"), thigh_l_i, JointRef::K(13), JointRef::K(15));
    let hip_r_i = add_bone(bones, String::from_str("hip.R"), pelvis_i, JointRef::PelvisCenter, JointRef::K(12));
    let thigh_r_i = add_bone(bones, String::from_str("thigh.R"), hip_r_i, JointRef::K(12), JointRef::K(14));
    let shin_r_i = add_bone(bones, String::from_str("shin.R"), thigh_r_i, JointRef::K(14), JointRef::K(16));
    // feet
    let _ = add_bone(bones, String::from_str("foot_big_toe.L"), shin_l_i, JointRef::K(15), JointRef::K(17));
    let _ = add_bone(bones, String::from_str("foot_small_toe.L"), shin_l_i, JointRef::K(15), JointRef::K(18));
    let _ = add_bone(bones, String::from_str("foot_heel.L"), shin_l_i, JointRef::K(15), JointRef::K(19));
    let _ = add_bone(bones, String::from_str("foot_big_toe.R"), shin_r_i, JointRef::K(16), JointRef::K(20));
    let _ = add_bone(bones, String::from_str("foot_small_toe.R"), shin_r_i, JointRef::K(16), JointRef::K(21));
    let _ = add_bone(bones, String::from_str("foot_heel.R"), shin_r_i, JointRef::K(16), JointRef::K(22));
    // coarse head
    let head_i = add_bone(bones, String::from_str("head"), spine_i, JointRef::Neck, JointRef::K(0));
    let eye_l_i = add_bone(bones, String::from_str("eye.L"), head_i, JointRef::K(0), JointRef::K(1));
    let eye_r_i = add_bone(bones, String::from_str("eye.R"), head_i, JointRef::K(0), JointRef::K(2));
    let _ = add_bone(bones, String::from_str("ear.L"), eye_l_i, JointRef::K(1), JointRef::K(3));
    let _ = add_bone(bones, String::from_str("ear.R"), eye_r_i, JointRef::K(2), JointRef::K(4));
    assert(rtmw3d_prefix(bones@, 25));
    (head_i, forearm_l_i, forearm_r_i)
}

/// A chain appended to an RTMW3D prefix extends it, when the layout's bones at those
/// indices are the chain's bones.
proof fn lemma_chain_extends(
    before: Seq<BoneDesc<JointRef>>,
    after: Seq<BoneDesc<JointRef>>,
    chain: Seq<JointRef>,
    prefix: Seq<char>,
    parent: int,
    joint: spec_fn(int) -> JointRef,
)
    requires
        rtmw3d_prefix(before, before.len() as int),
        chain.len() >= 1,
        after.len() == before.len() + chain.len() - 1,
        forall|j: int| 0 <= j < before.len() ==> after[j] == before[j],
        forall|k: int|
            0 <= k < chain.len() - 1 ==> bone_matches(
                #[trigger] after[before.len() + k],
                BoneLayout {
                    name: chain_bone_name(prefix, k as nat),
                    parent: if k == 0 {
                        parent
                    } else {
                        before.len() + k - 1
                    },
                    head: chain[k],
                    tail: chain[k + 1],
                },
            ),
        forall|k: int| 0 <= k < chain.len() ==> chain[k] == joint(k),
        forall|i: int|
            before.len() <= i < after.len() ==> rtmw3d_bone(i) == chain_layout(
                prefix,
                parent,
                before.len() as int,
                i,
                joint,
            ),
    ensures
        rtmw3d_prefix(after, after.len() as int),
{
    assert forall|j: int| 0 <= j < after.len() implies bone_matches(#[trigger] after[j], rtmw3d_bone(j)) by {
        if j >= before.len() {
            let k = j - before.len();
            assert(after[before.len() + k] == after[j]);
        }
    }
}

/// Face bones: jaw, brows, nose, eye loops and lips, bones 25 to 83.
fn add_face(bones: &mut Vec<BoneDesc<JointRef>>, head_i: i32)
    requires
        rtmw3d_prefix(old(bones)@, 25),
        head_i == 20,
    ensures
        rtmw3d_prefix(final(bones)@, 84),
{
    // face: 68 points = 23..90; jaw 23..39
    let ghost b0 = bones@;
    let run = keypoint_run(23, 17);
    let _ = add_chain(bones, "jaw", head_i, &run);
    proof { lemma_chain_extends(b0, bones@, run@, "jaw"@, 20, run_joint(23)); }
    // eyebrows
    let ghost b1 = bones@;
    let run = keypoint_run(40, 5);
    let _ = add_chain(bones, "brow.R", head_i, &run);
    proof { lemma_chain_extends(b1, bones@, run@, "brow.R"@, 20, run_joint(40)); }
    let ghost b2 = bones@;
    let run = keypoint_run(45, 5);
    let _ = add_chain(bones, "brow.L", head_i, &run);
    proof { lemma_chain_extends(b2, bones@, run@, "brow.L"@, 20, run_joint(45)); }
    // nose
    let ghost b3 = bones@;
    let run = keypoint_run(50, 4);
    let nose_bridge_i = add_chain(bones, "nose_bridge", head_i, &run);
    proof { lemma_chain_extends(b3, bones@, run@, "nose_bridge"@, 20, run_joint(50)); }
    let ghost b4 = bones@;
    let run = keypoint_run(54, 5);
    let _ = add_chain(bones, "nose_lower", nose_bridge_i, &run);
    proof { lemma_chain_extends(b4, bones@, run@, "nose_lower"@, 51, run_joint(54)); }
    // eye loops as open chains
    let ghost b5 = bones@;
    let run = keypoint_run(59, 6);
    let _ = add_chain(bones, "eye_loop.R", head_i, &run);
    proof { lemma_chain_extends(b5, bones@, run@, "eye_loop.R"@, 20, run_joint(59)); }
    let ghost b6 = bones@;
    let run = keypoint_run(65, 6);
    let _ = add_chain(bones, "eye_loop.L", head_i, &run);
    proof { lemma_chain_extends(b6, bones@, run@, "eye_loop.L"@, 20, run_joint(65)); }
    // mouth
    let ghost b7 = bones@;
    let run = keypoint_run(71, 12);
    let mouth_outer_i = add_chain(bones, "lip_outer", head_i, &run);
    proof { lemma_chain_extends(b7, bones@, run@, "lip_outer"@, 20, run_joint(71)); }
    let ghost b8 = bones@;
    let run = keypoint_run(83, 8);
    let _ = add_chain(bones, "lip_inner", mouth_outer_i, &run);
    proof { lemma_chain_extends(b8, bones@, run@, "lip_inner"@, 76, run_joint(83)); }
}

/// Hands and fingers: bones 84 to 125.
fn add_hands(bones: &mut Vec<BoneDesc<JointRef>>, forearm_l_i: i32, forearm_r_i: i32)
    requires
        rtmw3d_prefix(old(bones)@, 84),
        forearm_l_i == 4,
        forearm_r_i == 7,
    ensures
        rtmw3d_prefix(final(bones)@, 126),
{
    // left hand: 91..111
    let hand_l_i = add_bone(bones, String::from_str("hand.L"), forearm_l_i, JointRef::K(9), JointRef::K(91));
    assert(rtmw3d_prefix(bones@, 85));
    let ghost b0 = bones@;
    let run = finger(91, 92);
    let _ = add_chain(bones, "thumb.L", hand_l_i, &run);
    proof { lemma_chain_extends(b0, bones@, run@, "thumb.L"@, 84, finger_joint(91, 92)); }
    let ghost b1 = bones@;
    let run = finger(91, 96);
    let _ = add_chain(bones, "index.L", hand_l_i, &run);
    proof { lemma_chain_extends(b1, bones@, run@, "index.L"@, 84, finger_joint(91, 96)); }
    let ghost b2 = bones@;
    let run = finger(91, 100);
    let _ = add_chain(bones, "middle.L", hand_l_i, &run);
    proof { lemma_chain_extends(b2, bones@, run@, "middle.L"@, 84, finger_joint(91, 100)); }
    let ghost b3 = bones@;
    let run = finger(91, 104);
    let _ = add_chain(bones, "ring.L", hand_l_i, &run);
    proof { lemma_chain_extends(b3, bones@, run@, "ring.L"@, 84, finger_joint(91, 104)); }
    let ghost b4 = bones@;
    let run = finger(91, 108);
    let _ = add_chain(bones, "pinky.L", hand_l_i, &run);
    proof { lemma_chain_extends(b4, bones@, run@, "pinky.L"@, 84, finger_joint(91, 108)); }
    // right hand: 112..132
    let hand_r_i = add_bone(bones, String::from_str("hand.R"), forearm_r_i, JointRef::K(10), JointRef::K(112));
    assert(rtmw3d_prefix(bones@, 106));
    let ghost b5 = bones@;
    let run = finger(112, 113);
    let _ = add_chain(bones, "thumb.R", hand_r_i, &run);
    proof { lemma_chain_extends(b5, bones@, run@, "thumb.R"@, 105, finger_joint(112, 113)); }
    let ghost b6 = bones@;
    let run = finger(112, 117);
    let _ = add_chain(bones, "index.R", hand_r_i, &run);
    proof { lemma_chain_extends(b6, bones@, run@, "index.R"@, 105, finger_joint(112, 117)); }
    let ghost b7 = bones@;
    let run = finger(112, 121);
    let _ = add_chain(bones, "middle.R", hand_r_i, &run);
    proof { lemma_chain_extends(b7, bones@, run@, "middle.R"@, 105, finger_joint(112, 121)); }
    let ghost b8 = bones@;
    let run = finger(112, 125);
    let _ = add_chain(bones, "ring.R", hand_r_i, &run);
    proof { lemma_chain_extends(b8, bones@, run@, "ring.R"@, 105, finger_joint(112, 125)); }
    let ghost b9 = bones@;
    let run = finger(112, 129);
    let _ = add_chain(bones, "pinky.R", hand_r_i, &run);
    proof { lemma_chain_extends(b9, bones@, run@, "pinky.R"@, 105, finger_joint(112, 129)); }
}

/// The armature that RTMW3D whole-body keypoints are rigged with: 126 bones (torso,
/// limbs, feet, head, face chains, hands and fingers), each joining two keypoints of the
/// estimate or points derived from them (see [`JointRef`]).
pub fn make_rtmw3d_armature() -> (armature: ArmatureDesc<JointRef>)
    ensures
        armature.bones.len() == RTMW3D_BONES,
        forall|i: int| 0 <= i < RTMW3D_BONES ==> bone_matches(#[trigger] armature.bones@[i], rtmw3d_bone(i)),
        parents_precede(armature.bones@),
{
    let mut bones = Vec::<BoneDesc<JointRef>>::new();
    let (head_i, forearm_l_i, forearm_r_i) = add_body(&mut bones);
    add_face(&mut bones, head_i);
    add_hands(&mut bones, forearm_l_i, forearm_r_i);
    let armature = ArmatureDesc { bones };
    proof { lemma_rtmw3d_parents_precede(armature); }
    armature
}

/// Every bone's parent comes before it: the first bone is the root (`-1`), every other
/// bone hangs from an earlier one. Such an armature is a single tree.
pub open spec fn parents_precede<P>(bones: Seq<BoneDesc<P>>) -> bool {
    &&& bones.len() >= 1
    &&& bones[0].parent_index == -1
    &&& forall|i: int| 1 <= i < bones.len() ==> 0 <= #[trigger] bones[i].parent_index < i
}

/// A bone end names a keypoint of the estimate only within its 133 keypoints.
pub open spec fn joint_in_range(j: JointRef) -> bool {
    j matches JointRef::K(k) ==> k < RTMW3D_KEYPOINTS
}

/// The RTMW3D armature is a single tree whose bones come after their parents.
pub proof fn lemma_rtmw3d_parents_precede(armature: ArmatureDesc<JointRef>)
    requires
        armature.bones.len() == RTMW3D_BONES,
        forall|i: int| 0 <= i < RTMW3D_BONES ==> bone_matches(#[trigger] armature.bones@[i], rtmw3d_bone(i)),
    ensures
        parents_precede(armature.bones@),
{
    assert(bone_matches(armature.bones@[0], rtmw3d_bone(0)));
    assert forall|i: int| 1 <= i < armature.bones@.len() implies 0 <= #[trigger] armature.bones@[i].parent_index < i by {
        assert(bone_matches(armature.bones@[i], rtmw3d_bone(i)));
    }
}

/// Every keypoint that a bone of the RTMW3D armature joins is one of the estimate's 133.
pub proof fn lemma_rtmw3d_joints_in_range(armature: ArmatureDesc<JointRef>)
    requires
        armature.bones.len() == RTMW3D_BONES,
        forall|i: int| 0 <= i < RTMW3D_BONES ==> bone_matches(#[trigger] armature.bones@[i], rtmw3d_bone(i)),
    ensures
        forall|i: int|
            0 <= i < armature.bones.len() ==> joint_in_range(#[trigger] armature.bones@[i].head)
                && joint_in_range(armature.bones@[i].tail),
{
    assert forall|i: int| 0 <= i < armature.bones.len() implies joint_in_range(#[trigger] armature.bones@[i].head)
        && joint_in_range(armature.bones@[i].tail) by {
        assert(bone_matches(armature.bones@[i], rtmw3d_bone(i)));
    }
}

/// Keypoints that begin a face chain without ending any bone: the first keypoint of the
/// jaw line (23), of each brow (40, 45), of the nose bridge (50), of the lower nose (54),
/// of each eye loop (59, 65) and of the outer (71) and inner (83) lip loops.
pub open spec fn face_chain_start(k: int) -> bool {
    k == 23 || k == 40 || k == 45 || k == 50 || k == 54 || k == 59 || k == 65 || k == 71 || k == 83
}

/// Of the bones from 25 on (face chains, hands, fingers), each ends one keypoint further
/// along than the bone before, skipping the face chain starts.
proof fn lemma_rtmw3d_late_tail(i: int)
    requires
        25 <= i < RTMW3D_BONES,
    ensures
        rtmw3d_bone(i).tail == JointRef::K(
            (i + if i < 41 {
                -1int
            } else if i < 45 {
                0int
            } else if i < 49 {
                1int
            } else if i < 52 {
                2int
            } else if i < 56 {
                3int
            } else if i < 61 {
                4int
            } else if i < 66 {
                5int
            } else if i < 77 {
                6int
            } else {
                7int
            }) as usize,
        ),
{
}

/// Of the bones from 25 on, each after the first of its chain starts where the bone
/// before it ends, and hangs from it.
proof fn lemma_rtmw3d_late_connect(i: int)
    requires
        25 < i < RTMW3D_BONES,
        i != 41 && i != 45 && i != 49 && i != 52 && i != 56 && i != 61 && i != 66 && i != 77,
    ensures
        0 <= rtmw3d_bone(i).parent < i,
        rtmw3d_bone(i).head == rtmw3d_bone(rtmw3d_bone(i).parent).tail,
{
    let p = rtmw3d_bone(i).parent;
    if 84 < i && i < 105 && (i - 85) % 4 == 0 {
        assert(p == 84);
    } else if 105 < i && (i - 106) % 4 == 0 {
        assert(p == 105);
    } else if i == 84 {
        assert(p == 4);
    } else if i == 105 {
        assert(p == 7);
    } else {
        assert(p == i - 1);
        lemma_rtmw3d_late_tail(i - 1);
    }
}

/// The bones of the RTMW3D armature connect: each bone starts where its parent bone
/// ends, except the two hip bones, which start where the pelvis bone (their parent)
/// starts, and the first bone of each face chain, which hangs from a head bone.
pub proof fn lemma_rtmw3d_bones_connect(armature: ArmatureDesc<JointRef>)
    requires
        armature.bones.len() == RTMW3D_BONES,
        forall|i: int| 0 <= i < RTMW3D_BONES ==> bone_matches(#[trigger] armature.bones@[i], rtmw3d_bone(i)),
    ensures
        forall|i: int|
            1 <= i < RTMW3D_BONES && i != 8 && i != 11 && i != 25 && i != 41 && i != 45 && i != 49 && i != 52
                && i != 56 && i != 61 && i != 66 && i != 77 ==> (#[trigger] armature.bones@[i]).head
                == armature.bones@[armature.bones@[i].parent_index as int].tail,
        armature.bones@[8].parent_index == 0 && armature.bones@[8].head == armature.bones@[0].head,
        armature.bones@[11].parent_index == 0 && armature.bones@[11].head == armature.bones@[0].head,
        armature.bones@[20].name@ == "head"@,
        forall|i: int|
            i == 25 || i == 41 || i == 45 || i == 49 || i == 56 || i == 61 || i == 66 ==> (
            #[trigger] armature.bones@[i]).parent_index == 20,
        armature.bones@[52].parent_index == 51 && armature.bones@[77].parent_index == 76,
{
    let b = armature.bones@;
    assert(bone_matches(b[0], rtmw3d_bone(0)));
    assert(bone_matches(b[20], rtmw3d_bone(20)));
    assert(bone_matches(b[52], rtmw3d_bone(52)));
    assert(bone_matches(b[77], rtmw3d_bone(77)));
    assert forall|i: int|
        i == 25 || i == 41 || i == 45 || i == 49 || i == 56 || i == 61 || i == 66 implies (
        #[trigger] b[i]).parent_index == 20 by {
        assert(bone_matches(b[i], rtmw3d_bone(i)));
    }
    assert(bone_matches(b[8], rtmw3d_bone(8)));
    assert(bone_matches(b[11], rtmw3d_bone(11)));
    assert forall|i: int|
        1 <= i < RTMW3D_BONES && i != 8 && i != 11 && i != 25 && i != 41 && i != 45 && i != 49 && i != 52
            && i != 56 && i != 61 && i != 66 && i != 77 implies (#[trigger] b[i]).head
            == b[b[i].parent_index as int].tail by {
        assert(bone_matches(b[i], rtmw3d_bone(i)));
        let p = rtmw3d_bone(i).parent;
        if i > 25 {
            lemma_rtmw3d_late_connect(i);
        }
        assert(0 <= p < i);
        assert(bone_matches(b[p], rtmw3d_bone(p)));
    }
}

/// No two bones of the RTMW3D armature end at the same point, and every keypoint of the
/// estimate ends exactly one bone, but for the nine where a face chain begins
/// (see [`face_chain_start`]).
pub proof fn lemma_rtmw3d_tails(armature: ArmatureDesc<JointRef>)
    requires
        armature.bones.len() == RTMW3D_BONES,
        forall|i: int| 0 <= i < RTMW3D_BONES ==> bone_matches(#[trigger] armature.bones@[i], rtmw3d_bone(i)),
    ensures
        forall|i: int, j: int|
            0 <= i < j < RTMW3D_BONES ==> (#[trigger] armature.bones@[i]).tail != (#[trigger] armature.bones@[j]).tail,
        forall|k: int|
            0 <= k < RTMW3D_KEYPOINTS && !face_chain_start(k) ==> exists|i: int|
                0 <= i < RTMW3D_BONES && (#[trigger] armature.bones@[i]).tail == JointRef::K(k as usize),
        forall|i: int| 0 <= i < RTMW3D_BONES ==> !((#[trigger] armature.bones@[i]).tail matches JointRef::K(k)
            && face_chain_start(k as int)),
{
    let b = armature.bones@;
    assert forall|i: int, j: int| 0 <= i < j < RTMW3D_BONES implies (#[trigger] b[i]).tail != (#[trigger] b[j]).tail by {
        assert(bone_matches(b[i], rtmw3d_bone(i)));
        assert(bone_matches(b[j], rtmw3d_bone(j)));
        if j >= 25 {
            lemma_rtmw3d_late_tail(j);
            if i >= 25 {
                lemma_rtmw3d_late_tail(i);
            }
        }
    }
    assert forall|i: int| 0 <= i < RTMW3D_BONES implies !((#[trigger] b[i]).tail matches JointRef::K(k)
        && face_chain_start(k as int)) by {
        assert(bone_matches(b[i], rtmw3d_bone(i)));
        if i >= 25 {
            lemma_rtmw3d_late_tail(i);
        }
    }
    assert forall|k: int| 0 <= k < RTMW3D_KEYPOINTS && !face_chain_start(k) implies exists|i: int|
        0 <= i < RTMW3D_BONES && (#[trigger] b[i]).tail == JointRef::K(k as usize) by {
        let i: int = if k == 0 {
            20
        } else if k <= 4 {
            k + 20
        } else if k == 5 {
            2
        } else if k == 6 {
            5
        } else if k == 7 {
            3
        } else if k == 8 {
            6
        } else if k == 9 {
            4
        } else if k == 10 {
            7
        } else if k == 11 {
            8
        } else if k == 12 {
            11
        } else if k == 13 {
            9
        } else if k == 14 {
            12
        } else if k == 15 {
            10
        } else if k == 16 {
            13
        } else if k <= 22 {
            k - 3
        } else if k < 40 {
            k + 1
        } else if k < 45 {
            k
        } else if k < 50 {
            k - 1
        } else if k < 54 {
            k - 2
        } else if k < 59 {
            k - 3
        } else if k < 65 {
            k - 4
        } else if k < 71 {
            k - 5
        } else if k < 83 {
            k - 6
        } else {
            k - 7
        };
        assert(bone_matches(b[i], rtmw3d_bone(i)));
        if i >= 25 {
            lemma_rtmw3d_late_tail(i);
        }
        assert(b[i].tail == JointRef::K(k as usize));
    }
}

/// Keypoints of the left side of the body in the whole-body layout: left eye (1), ear
/// (3), shoulder (5), elbow (7), wrist (9), hip (11), knee (13), ankle (15), the left
/// foot (17 to 19) and the left hand (91 to 111).
pub open spec fn left_keypoint(k: int) -> bool {
    ||| (1 <= k <= 15 && k % 2 == 1)
    ||| (17 <= k <= 19)
    ||| (91 <= k <= 111)
}

/// Keypoints of the right side of the body in the whole-body layout: right eye (2), ear
/// (4), shoulder (6), elbow (8), wrist (10), hip (12), knee (14), ankle (16), the right
/// foot (20 to 22) and the right hand (112 to 132).
pub open spec fn right_keypoint(k: int) -> bool {
    ||| (2 <= k <= 16 && k % 2 == 0)
    ||| (20 <= k <= 22)
    ||| (112 <= k <= 132)
}

/// A bone end at a left-side keypoint.
pub open spec fn left_end(j: JointRef) -> bool {
    j matches JointRef::K(k) && left_keypoint(k as int)
}

/// A bone end at a right-side keypoint.
pub open spec fn right_end(j: JointRef) -> bool {
    j matches JointRef::K(k) && right_keypoint(k as int)
}

/// A name whose last two characters are `.` and `c` carries the mark `.c`.
proof fn lemma_side_mark(name: Seq<char>, c: char)
    requires
        name.len() >= 2,
        name[name.len() - 2] == '.',
        name[name.len() - 1] == c,
    ensures
        contains_text(name, seq!['.', c]),
{
    let i = name.len() - 2;
    assert(occurs_at(name, seq!['.', c], i));
}

/// A chain bone's name carries the mark that ends its prefix.
proof fn lemma_side_mark_chain(prefix: Seq<char>, c: char, k: nat)
    requires
        prefix.len() >= 2,
        prefix[prefix.len() - 2] == '.',
        prefix[prefix.len() - 1] == c,
    ensures
        contains_text(chain_bone_name(prefix, k), seq!['.', c]),
{
    let i = prefix.len() - 2;
    let name = chain_bone_name(prefix, k);
    assert(name[i] == '.');
    assert(name[i + 1] == c);
    assert(occurs_at(name, seq!['.', c], i));
}

/// Bone `i` of the RTMW3D armature joins a left-side keypoint only if its name
/// carries the `.L` mark.
proof fn lemma_left_bone_names(i: int)
    requires
        0 <= i < RTMW3D_BONES,
    ensures
        left_end(rtmw3d_bone(i).head) || left_end(rtmw3d_bone(i).tail) ==> contains_text(
            rtmw3d_bone(i).name,
            seq!['.', 'L'],
        ),
{
    if i == 2 {
        reveal_strlit("clavicle.L");
        lemma_side_mark("clavicle.L"@, 'L');
    } else if i == 3 {
        reveal_strlit("upper_arm.L");
        lemma_side_mark("upper_arm.L"@, 'L');
    } else if i == 4 {
        reveal_strlit("forearm.L");
        lemma_side_mark("forearm.L"@, 'L');
    } else if i == 8 {
        reveal_strlit("hip.L");
        lemma_side_mark("hip.L"@, 'L');
    } else if i == 9 {
        reveal_strlit("thigh.L");
        lemma_side_mark("thigh.L"@, 'L');
    } else if i == 10 {
        reveal_strlit("shin.L");
        lemma_side_mark("shin.L"@, 'L');
    } else if i == 14 {
        reveal_strlit("foot_big_toe.L");
        lemma_side_mark("foot_big_toe.L"@, 'L');
    } else if i == 15 {
        reveal_strlit("foot_small_toe.L");
        lemma_side_mark("foot_small_toe.L"@, 'L');
    } else if i == 16 {
        reveal_strlit("foot_heel.L");
        lemma_side_mark("foot_heel.L"@, 'L');
    } else if i == 21 {
        reveal_strlit("eye.L");
        lemma_side_mark("eye.L"@, 'L');
    } else if i == 23 {
        reveal_strlit("ear.L");
        lemma_side_mark("ear.L"@, 'L');
    } else if i == 84 {
        reveal_strlit("hand.L");
        lemma_side_mark("hand.L"@, 'L');
    } else if 85 <= i < 89 {
        reveal_strlit("thumb.L");
        lemma_side_mark_chain("thumb.L"@, 'L', (i - 85) as nat);
    } else if 89 <= i < 93 {
        reveal_strlit("index.L");
        lemma_side_mark_chain("index.L"@, 'L', (i - 89) as nat);
    } else if 93 <= i < 97 {
        reveal_strlit("middle.L");
        lemma_side_mark_chain("middle.L"@, 'L', (i - 93) as nat);
    } else if 97 <= i < 101 {
        reveal_strlit("ring.L");
        lemma_side_mark_chain("ring.L"@, 'L', (i - 97) as nat);
    } else if 101 <= i < 105 {
        reveal_strlit("pinky.L");
        lemma_side_mark_chain("pinky.L"@, 'L', (i - 101) as nat);
    } else if i >= 25 {
        lemma_rtmw3d_late_tail(i);
    }
}

/// Bone `i` of the RTMW3D armature joins a right-side keypoint only if its name
/// carries the `.R` mark.
proof fn lemma_right_bone_names(i: int)
    requires
        0 <= i < RTMW3D_BONES,
    ensures
        right_end(rtmw3d_bone(i).head) || right_end(rtmw3d_bone(i).tail) ==> contains_text(
            rtmw3d_bone(i).name,
            seq!['.', 'R'],
        ),
{
    if i == 5 {
        reveal_strlit("clavicle.R");
        lemma_side_mark("clavicle.R"@, 'R');
    } else if i == 6 {
        reveal_strlit("upper_arm.R");
        lemma_side_mark("upper_arm.R"@, 'R');
    } else if i == 7 {
        reveal_strlit("forearm.R");
        lemma_side_mark("forearm.R"@, 'R');
    } else if i == 11 {
        reveal_strlit("hip.R");
        lemma_side_mark("hip.R"@, 'R');
    } else if i == 12 {
        reveal_strlit("thigh.R");
        lemma_side_mark("thigh.R"@, 'R');
    } else if i == 13 {
        reveal_strlit("shin.R");
        lemma_side_mark("shin.R"@, 'R');
    } else if i == 17 {
        reveal_strlit("foot_big_toe.R");
        lemma_side_mark("foot_big_toe.R"@, 'R');
    } else if i == 18 {
        reveal_strlit("foot_small_toe.R");
        lemma_side_mark("foot_small_toe.R"@, 'R');
    } else if i == 19 {
        reveal_strlit("foot_heel.R");
        lemma_side_mark("foot_heel.R"@, 'R');
    } else if i == 22 {
        reveal_strlit("eye.R");
        lemma_side_mark("eye.R"@, 'R');
    } else if i == 24 {
        reveal_strlit("ear.R");
        lemma_side_mark("ear.R"@, 'R');
    } else if i == 105 {
        reveal_strlit("hand.R");
        lemma_side_mark("hand.R"@, 'R');
    } else if 106 <= i < 110 {
        reveal_strlit("thumb.R");
        lemma_side_mark_chain("thumb.R"@, 'R', (i - 106) as nat);
    } else if 110 <= i < 114 {
        reveal_strlit("index.R");
        lemma_side_mark_chain("index.R"@, 'R', (i - 110) as nat);
    } else if 114 <= i < 118 {
        reveal_strlit("middle.R");
        lemma_side_mark_chain("middle.R"@, 'R', (i - 114) as nat);
    } else if 118 <= i < 122 {
        reveal_strlit("ring.R");
        lemma_side_mark_chain("ring.R"@, 'R', (i - 118) as nat);
    } else if 122 <= i < 126 {
        reveal_strlit("pinky.R");
        lemma_side_mark_chain("pinky.R"@, 'R', (i - 122) as nat);
    } else if i >= 25 {
        lemma_rtmw3d_late_tail(i);
    }
}

/// Sides are kept apart: every bone of the RTMW3D armature that reaches a keypoint of
/// the left side of the body (see [`left_keypoint`]) is named with `.L`, every one that
/// reaches a keypoint of the right side is named with `.R`, and no bone reaches both.
pub proof fn lemma_rtmw3d_sides(armature: ArmatureDesc<JointRef>)
    requires
        armature.bones.len() == RTMW3D_BONES,
        forall|i: int| 0 <= i < RTMW3D_BONES ==> bone_matches(#[trigger] armature.bones@[i], rtmw3d_bone(i)),
    ensures
        forall|i: int|
            0 <= i < RTMW3D_BONES && (left_end((#[trigger] armature.bones@[i]).head) || left_end(
                armature.bones@[i].tail,
            )) ==> contains_text(armature.bones@[i].name@, seq!['.', 'L']),
        forall|i: int|
            0 <= i < RTMW3D_BONES && (right_end((#[trigger] armature.bones@[i]).head) || right_end(
                armature.bones@[i].tail,
            )) ==> contains_text(armature.bones@[i].name@, seq!['.', 'R']),
        forall|i: int|
            0 <= i < RTMW3D_BONES ==> !((left_end((#[trigger] armature.bones@[i]).head) || left_end(
                armature.bones@[i].tail,
            )) && (right_end(armature.bones@[i].head) || right_end(armature.bones@[i].tail))),
{
    let b = armature.bones@;
    assert forall|i: int| 0 <= i < RTMW3D_BONES implies {
        &&& (left_end((#[trigger] b[i]).head) || left_end(b[i].tail)) ==> contains_text(b[i].name@, seq!['.', 'L'])
        &&& (right_end(b[i].head) || right_end(b[i].tail)) ==> contains_text(b[i].name@, seq!['.', 'R'])
        &&& !((left_end(b[i].head) || left_end(b[i].tail)) && (right_end(b[i].head) || right_end(b[i].tail)))
    } by {
        assert(bone_matches(b[i], rtmw3d_bone(i)));
        lemma_left_bone_names(i);
        lemma_right_bone_names(i);
        if i >= 25 {
            lemma_rtmw3d_late_tail(i);
        }
    }
}

/// The minimal torso armature: a `pelvis` bone (root) from the pelvis to the spine
/// joint, and a `spine` bone hanging from it, from the spine joint to the neck.
pub fn make_simple_torso_armature<P: Copy>(pelvis: P, spine: P, neck: P) -> (armature: ArmatureDesc<P>)
    ensures
        armature.bones.len() == 2,
        bone_matches(armature.bones@[0], BoneLayout { name: "pelvis"@, parent: -1, head: pelvis, tail: spine }),
        bone_matches(armature.bones@[1], BoneLayout { name: "spine"@, parent: 0, head: spine, tail: neck }),
        parents_precede(armature.bones@),
{
    let mut bones: Vec<BoneDesc<P>> = Vec::new();
    bones.push(BoneDesc { name: String::from_str("pelvis"), parent_index: -1, head: pelvis, tail: spine });
    bones.push(BoneDesc { name: String::from_str("spine"), parent_index: 0, head: spine, tail: neck });
    ArmatureDesc { bones }
}

impl<P> ArmatureDesc<P> {
    /// Index of the first bone named `name`, if any bone is.
    pub fn find_bone(&self, name: &str) -> (found: Option<usize>)
        ensures
            match found {
                Some(i) => i < self.bones.len() && self.bones@[i as int].name@ == name@ && forall|j: int|
                    0 <= j < i ==> #[trigger] self.bones@[j].name@ != name@,
                None => forall|j: int| 0 <= j < self.bones.len() ==> #[trigger] self.bones@[j].name@ != name@,
            },
    {
        let wanted = chars_of(name);
        let mut i: usize = 0;
        while i < self.bones.len()
            invariant
                wanted@ == name@,
                i <= self.bones.len(),
                forall|j: int| 0 <= j < i ==> #[trigger] self.bones@[j].name@ != name@,
            decreases self.bones.len() - i,
        {
            if chars_equal(&chars_of(self.bones[i].name.as_str()), &wanted) {
                return Some(i);
            }
            i = i + 1;
        }
        None
    }

    /// Whether no bone name holds a NUL character (each can then be passed on as a C string).
    pub fn names_are_nul_free(&self) -> (ok: bool)
        ensures
            ok == forall|j: int| 0 <= j < self.bones.len() ==> !(#[trigger] self.bones@[j].name@).contains('\0'),
    {
        let mut i: usize = 0;
        while i < self.bones.len()
            invariant
                i <= self.bones.len(),
                forall|j: int| 0 <= j < i ==> !(#[trigger] self.bones@[j].name@).contains('\0'),
            decreases self.bones.len() - i,
        {
            let name = chars_of(self.bones[i].name.as_str());
            let mut k: usize = 0;
            while k < name.len()
                invariant
                    i < self.bones.len(),
                    name@ == self.bones@[i as int].name@,
                    k <= name.len(),
                    forall|m: int| 0 <= m < k ==> name@[m] != '\0',
                decreases name.len() - k,
            {
                if name[k] == '\0' {
                    assert(name@.contains('\0'));
                    return false;
                }
                k = k + 1;
            }
            i = i + 1;
        }
        true
    }
}

/// A decimal digit character.
pub open spec fn is_digit(c: char) -> bool {
    '0' <= c && c <= '9'
}

/// A chain bone's name ends in two digits after an underscore that follows the prefix.
proof fn lemma_chain_name_shape(prefix: Seq<char>, k: nat)
    requires
        k < 100,
    ensures
        chain_bone_name(prefix, k).len() == prefix.len() + 3,
        chain_bone_name(prefix, k).subrange(0, prefix.len() as int) == prefix,
        chain_bone_name(prefix, k)[prefix.len() as int] == '_',
        is_digit(chain_bone_name(prefix, k).last()),
{
    let n = chain_bone_name(prefix, k);
    reveal_strlit("_");
    if k < 10 {
        assert(decimal(k) == seq![digit_char(k as int)]);
    } else {
        assert(decimal(k / 10) == seq![digit_char((k / 10) as int)]);
        assert(decimal(k) == seq![digit_char((k / 10) as int), digit_char((k % 10) as int)]);
    }
    assert(n.subrange(0, prefix.len() as int) =~= prefix);
}

/// Names of two chain bones differ unless prefix and position both agree.
proof fn lemma_chain_names_differ(p1: Seq<char>, k1: nat, p2: Seq<char>, k2: nat)
    requires
        k1 < 100,
        k2 < 100,
        p1 != p2 || k1 != k2,
    ensures
        chain_bone_name(p1, k1) != chain_bone_name(p2, k2),
{
    let a = chain_bone_name(p1, k1);
    let b = chain_bone_name(p2, k2);
    reveal_strlit("_");
    lemma_chain_name_shape(p1, k1);
    lemma_chain_name_shape(p2, k2);
    if a == b {
        if p1 == p2 {
            let sa = zero_padded(k1, 2);
            let sb = zero_padded(k2, 2);
            assert(sa =~= a.subrange(p1.len() as int + 1, a.len() as int));
            assert(sb =~= b.subrange(p2.len() as int + 1, b.len() as int));
            lemma_zero_padded_injective(k1, k2, 2);
        } else {
            assert(p1 =~= a.subrange(0, p1.len() as int));
            assert(p2 =~= b.subrange(0, p2.len() as int));
        }
    }
}

/// A chain bone's name differs from any name that does not end in a digit.
proof fn lemma_chain_name_not_plain(p: Seq<char>, k: nat, name: Seq<char>)
    requires
        k < 100,
        name.len() > 0,
        !is_digit(name.last()),
    ensures
        chain_bone_name(p, k) != name,
{
    lemma_chain_name_shape(p, k);
}

/// Bone `i` of the RTMW3D armature is one of the bones that stand alone (not in a chain).
pub open spec fn is_single_bone(i: int) -> bool {
    (0 <= i <= 24) || i == 84 || i == 105
}

/// The first bone index of the chain that bone `i` belongs to (for chain bones).
pub open spec fn chain_first(i: int) -> int {
    if i < 41 {
        25
    } else if i < 45 {
        41
    } else if i < 49 {
        45
    } else if i < 52 {
        49
    } else if i < 56 {
        52
    } else if i < 61 {
        56
    } else if i < 66 {
        61
    } else if i < 77 {
        66
    } else if i < 84 {
        77
    } else if i < 89 {
        85
    } else if i < 93 {
        89
    } else if i < 97 {
        93
    } else if i < 101 {
        97
    } else if i < 105 {
        101
    } else if i < 110 {
        106
    } else if i < 114 {
        110
    } else if i < 118 {
        114
    } else if i < 122 {
        118
    } else if i < 126 {
        122
    } else {
        0
    }
}

/// The name prefix of the chain that bone `i` belongs to (for chain bones).
pub open spec fn chain_prefix(i: int) -> Seq<char> {
    if i < 41 {
        "jaw"@
    } else if i < 45 {
        "brow.R"@
    } else if i < 49 {
        "brow.L"@
    } else if i < 52 {
        "nose_bridge"@
    } else if i < 56 {
        "nose_lower"@
    } else if i < 61 {
        "eye_loop.R"@
    } else if i < 66 {
        "eye_loop.L"@
    } else if i < 77 {
        "lip_outer"@
    } else if i < 84 {
        "lip_inner"@
    } else if i < 89 {
        "thumb.L"@
    } else if i < 93 {
        "index.L"@
    } else if i < 97 {
        "middle.L"@
    } else if i < 101 {
        "ring.L"@
    } else if i < 105 {
        "pinky.L"@
    } else if i < 110 {
        "thumb.R"@
    } else if i < 114 {
        "index.R"@
    } else if i < 118 {
        "middle.R"@
    } else if i < 122 {
        "ring.R"@
    } else if i < 126 {
        "pinky.R"@
    } else {
        Seq::empty()
    }
}

/// Chain bones are named after their chain and their place in it.
proof fn lemma_chain_bone_names(i: int)
    requires
        0 <= i < RTMW3D_BONES,
        !is_single_bone(i),
    ensures
        rtmw3d_bone(i).name == chain_bone_name(chain_prefix(i), (i - chain_first(i)) as nat),
        0 <= i - chain_first(i) < 100,
{
}

/// Distinct chains have distinct prefixes.
proof fn lemma_chain_prefixes_distinct(i: int, j: int)
    requires
        0 <= i < RTMW3D_BONES,
        0 <= j < RTMW3D_BONES,
        !is_single_bone(i),
        !is_single_bone(j),
        chain_first(i) != chain_first(j),
    ensures
        chain_prefix(i) != chain_prefix(j),
{
    reveal_strlit("jaw");
    reveal_strlit("brow.R");
    reveal_strlit("brow.L");
    reveal_strlit("nose_bridge");
    reveal_strlit("nose_lower");
    reveal_strlit("eye_loop.R");
    reveal_strlit("eye_loop.L");
    reveal_strlit("lip_outer");
    reveal_strlit("lip_inner");
    reveal_strlit("thumb.L");
    reveal_strlit("index.L");
    reveal_strlit("middle.L");
    reveal_strlit("ring.L");
    reveal_strlit("pinky.L");
    reveal_strlit("thumb.R");
    reveal_strlit("index.R");
    reveal_strlit("middle.R");
    reveal_strlit("ring.R");
    reveal_strlit("pinky.R");
    let a = chain_prefix(i);
    let b = chain_prefix(j);
    if a == b {
        assert(a.len() == b.len());
        assert(a[0] == b[0]);
        assert(a[1] == b[1]);
        assert(a[2] == b[2]);
        assert(a[3] == b[3]);
        assert(a[4] == b[4]);
        assert(a[5] == b[5]);
        assert(a[6] == b[6]);
        assert(a[7] == b[7]);
        assert(a[8] == b[8]);
        assert(a[9] == b[9]);
        assert(a[10] == b[10]);
    }
}

/// The names of the single bones are distinct and none ends in a digit.
proof fn lemma_single_bone_names(i: int, j: int)
    requires
        is_single_bone(i),
        is_single_bone(j),
    ensures
        i != j ==> rtmw3d_bone(i).name != rtmw3d_bone(j).name,
        rtmw3d_bone(i).name.len() > 0,
        !is_digit(rtmw3d_bone(i).name.last()),
{
    reveal_strlit("pelvis");
    reveal_strlit("spine");
    reveal_strlit("clavicle.L");
    reveal_strlit("upper_arm.L");
    reveal_strlit("forearm.L");
    reveal_strlit("clavicle.R");
    reveal_strlit("upper_arm.R");
    reveal_strlit("forearm.R");
    reveal_strlit("hip.L");
    reveal_strlit("thigh.L");
    reveal_strlit("shin.L");
    reveal_strlit("hip.R");
    reveal_strlit("thigh.R");
    reveal_strlit("shin.R");
    reveal_strlit("foot_big_toe.L");
    reveal_strlit("foot_small_toe.L");
    reveal_strlit("foot_heel.L");
    reveal_strlit("foot_big_toe.R");
    reveal_strlit("foot_small_toe.R");
    reveal_strlit("foot_heel.R");
    reveal_strlit("head");
    reveal_strlit("eye.L");
    reveal_strlit("eye.R");
    reveal_strlit("ear.L");
    reveal_strlit("ear.R");
    reveal_strlit("hand.L");
    reveal_strlit("hand.R");
    let a = rtmw3d_bone(i).name;
    let b = rtmw3d_bone(j).name;
    if i != j && a == b {
        assert(a.len() == b.len());
        assert(a[0] == b[0]);
        assert(a[1] == b[1]);
        assert(a[2] == b[2]);
        assert(a[3] == b[3]);
        assert(a[4] == b[4]);
        assert(a[5] == b[5]);
        assert(a[6] == b[6]);
        assert(a[7] == b[7]);
        assert(a[8] == b[8]);
        assert(a[9] == b[9]);
        assert(a[10] == b[10]);
        assert(a[11] == b[11]);
        assert(a[12] == b[12]);
        assert(a[13] == b[13]);
        assert(a[14] == b[14]);
        assert(a[15] == b[15]);
    }
}

/// No two bones of the RTMW3D layout share a name.
proof fn lemma_rtmw3d_layout_names_distinct(i: int, j: int)
    requires
        0 <= i < RTMW3D_BONES,
        0 <= j < RTMW3D_BONES,
        i != j,
    ensures
        rtmw3d_bone(i).name != rtmw3d_bone(j).name,
{
    if is_single_bone(i) && is_single_bone(j) {
        lemma_single_bone_names(i, j);
    } else if is_single_bone(i) {
        lemma_single_bone_names(i, i);
        lemma_chain_bone_names(j);
        lemma_chain_name_not_plain(chain_prefix(j), (j - chain_first(j)) as nat, rtmw3d_bone(i).name);
    } else if is_single_bone(j) {
        lemma_single_bone_names(j, j);
        lemma_chain_bone_names(i);
        lemma_chain_name_not_plain(chain_prefix(i), (i - chain_first(i)) as nat, rtmw3d_bone(j).name);
    } else {
        lemma_chain_bone_names(i);
        lemma_chain_bone_names(j);
        if chain_first(i) != chain_first(j) {
            lemma_chain_prefixes_distinct(i, j);
        }
        lemma_chain_names_differ(
            chain_prefix(i),
            (i - chain_first(i)) as nat,
            chain_prefix(j),
            (j - chain_first(j)) as nat,
        );
    }
}

/// No two bones of the RTMW3D armature share a name.
pub proof fn lemma_rtmw3d_names_distinct(armature: ArmatureDesc<JointRef>)
    requires
        armature.bones.len() == RTMW3D_BONES,
        forall|i: int| 0 <= i < RTMW3D_BONES ==> bone_matches(#[trigger] armature.bones@[i], rtmw3d_bone(i)),
    ensures
        forall|i: int, j: int|
            0 <= i < armature.bones.len() && 0 <= j < armature.bones.len() && i != j ==> (
            #[trigger] armature.bones@[i]).name@ != (#[trigger] armature.bones@[j]).name@,
{
    assert forall|i: int, j: int|
        0 <= i < armature.bones.len() && 0 <= j < armature.bones.len() && i != j implies (
        #[trigger] armature.bones@[i]).name@ != (#[trigger] armature.bones@[j]).name@ by {
        assert(bone_matches(armature.bones@[i], rtmw3d_bone(i)));
        assert(bone_matches(armature.bones@[j], rtmw3d_bone(j)));
        lemma_rtmw3d_layout_names_distinct(i, j);
    }
}

} // verus!
