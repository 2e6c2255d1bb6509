//! Decisions of the ONNX pose pipeline that depend only on tensor shapes:
//! which detector output to decode, and whether the pose model answered in the
//! expected SimCC layout.
use vstd::prelude::*;
use std::path::PathBuf;

verus! {

#[verifier::external_type_specification]
#[verifier::external_body]
pub struct ExPathBuf(PathBuf);

/// Arguments of the ONNX pose pipeline.
pub struct OnnxArgs {
    pub det_model_path: PathBuf,
    pub w3d_model_path: PathBuf,
    pub image_path: PathBuf,
}

/// A detector output `[1, N, 5]` or `[1, N, 6]`: `N` packed detections
/// (`x1, y1, x2, y2, score[, class]`).
pub open spec fn is_packed_detections(shape: Seq<usize>) -> bool {
    shape.len() == 3 && shape[0] == 1 && (shape[2] == 5 || shape[2] == 6)
}

/// Whether a detector output has the packed-detections shape.
pub fn is_packed_detection_shape(shape: &Vec<usize>) -> (r: bool)
    ensures
        r == is_packed_detections(shape@),
        r <==> (shape.len() == 3 && shape[0] == 1 && (shape[2] == 5 || shape[2] == 6)),
{
    shape.len() == 3 && shape[0] == 1 && (shape[2] == 5 || shape[2] == 6)
}

/// A packed-detections output holding at least one detection.
pub open spec fn has_packed_detections(shape: Seq<usize>) -> bool {
    is_packed_detections(shape) && shape[1] > 0
}

/// Of the detector's float outputs (by shape, in output order), the one whose best
/// detection is decoded: the first packed-detections output that holds a detection.
pub fn select_packed_output(shapes: &Vec<Vec<usize>>) -> (sel: Option<usize>)
    ensures
        match sel {
            Some(i) => i < shapes.len() && has_packed_detections(shapes@[i as int]@) && forall|j: int|
                0 <= j < i ==> !has_packed_detections(#[trigger] shapes@[j]@),
            None => forall|j: int| 0 <= j < shapes.len() ==> !has_packed_detections(#[trigger] shapes@[j]@),
        },
        sel matches Some(i) ==> shapes@[i as int]@.len() == 3 && shapes@[i as int]@[0] == 1
            && shapes@[i as int]@[1] > 0 && (shapes@[i as int]@[2] == 5 || shapes@[i as int]@[2] == 6),
{
    let mut i: usize = 0;
    while i < shapes.len()
        invariant
            i <= shapes.len(),
            forall|j: int| 0 <= j < i ==> !has_packed_detections(#[trigger] shapes@[j]@),
        decreases shapes.len() - i,
    {
        if is_packed_detection_shape(&shapes[i]) && shapes[i][1] > 0 {
            return Some(i);
        }
        i = i + 1;
    }
    None
}

/// Only a `[1, N, 5]` or `[1, N, 6]` output is read as packed detections: an output
/// `[1, N, c]` with any other number `c` of columns is refused, and the output chosen
/// for decoding is never one of those.
pub proof fn lemma_packed_detections_columns(shapes: Seq<Seq<usize>>, n: usize, c: usize, sel: Option<usize>)
    requires
        match sel {
            Some(i) => i < shapes.len() && has_packed_detections(shapes[i as int]) && forall|j: int|
                0 <= j < i ==> !has_packed_detections(#[trigger] shapes[j]),
            None => forall|j: int| 0 <= j < shapes.len() ==> !has_packed_detections(#[trigger] shapes[j]),
        },
    ensures
        c != 5 && c != 6 ==> !is_packed_detections(seq![1usize, n, c]),
        (c == 5 || c == 6) ==> is_packed_detections(seq![1usize, n, c]),
        sel matches Some(i) ==> shapes[i as int][2] == 5 || shapes[i as int][2] == 6,
        sel matches Some(i) ==> shapes[i as int].len() == 3 && shapes[i as int][0] == 1 && shapes[i as int][1] > 0,
{
}

/// A detector output `[1, B, 4]`: `B` boxes.
pub open spec fn is_box_output(shape: Seq<usize>) -> bool {
    shape.len() == 3 && shape[0] == 1 && shape[2] == 4
}

/// A detector output `[1, B, C]` with `B > 0` and `C > 1`: per-box class scores.
pub open spec fn is_score_output(shape: Seq<usize>) -> bool {
    shape.len() == 3 && shape[0] == 1 && shape[1] > 0 && shape[2] > 1
}

/// Index of the first output (by shape) that has the box shape.
pub fn find_box_output(shapes: &Vec<Vec<usize>>) -> (sel: Option<usize>)
    ensures
        match sel {
            Some(i) => i < shapes.len() && is_box_output(shapes@[i as int]@) && forall|j: int|
                0 <= j < i ==> !is_box_output(#[trigger] shapes@[j]@),
            None => forall|j: int| 0 <= j < shapes.len() ==> !is_box_output(#[trigger] shapes@[j]@),
        },
        forall|j: int|
            0 <= j < shapes.len() ==> (#[trigger] shapes@[j]@.len() == 3 && shapes@[j]@[0] == 1 && shapes@[j]@[2] == 4
                <==> is_box_output(shapes@[j]@)),
        sel matches Some(i) ==> shapes@[i as int]@.len() == 3 && shapes@[i as int]@[0] == 1 && shapes@[i as int]@[2] == 4,
{
    let mut i: usize = 0;
    while i < shapes.len()
        invariant
            i <= shapes.len(),
            forall|j: int| 0 <= j < i ==> !is_box_output(#[trigger] shapes@[j]@),
        decreases shapes.len() - i,
    {
        let s = &shapes[i];
        if s.len() == 3 && s[0] == 1 && s[2] == 4 {
            return Some(i);
        }
        i = i + 1;
    }
    None
}

/// Index of the first output (by shape) that has the score shape.
pub fn find_score_output(shapes: &Vec<Vec<usize>>) -> (sel: Option<usize>)
    ensures
        match sel {
            Some(i) => i < shapes.len() && is_score_output(shapes@[i as int]@) && forall|j: int|
                0 <= j < i ==> !is_score_output(#[trigger] shapes@[j]@),
            None => forall|j: int| 0 <= j < shapes.len() ==> !is_score_output(#[trigger] shapes@[j]@),
        },
        forall|j: int|
            0 <= j < shapes.len() ==> (#[trigger] shapes@[j]@.len() == 3 && shapes@[j]@[0] == 1 && shapes@[j]@[1] > 0
                && shapes@[j]@[2] > 1 <==> is_score_output(shapes@[j]@)),
        sel matches Some(i) ==> shapes@[i as int]@.len() == 3 && shapes@[i as int]@[0] == 1 && shapes@[i as int]@[1] > 0
            && shapes@[i as int]@[2] > 1,
{
    let mut i: usize = 0;
    while i < shapes.len()
        invariant
            i <= shapes.len(),
            forall|j: int| 0 <= j < i ==> !is_score_output(#[trigger] shapes@[j]@),
        decreases shapes.len() - i,
    {
        let s = &shapes[i];
        if s.len() == 3 && s[0] == 1 && s[1] > 0 && s[2] > 1 {
            return Some(i);
        }
        i = i + 1;
    }
    None
}

/// Width of the pose model's input crop.
pub const POSE_INPUT_W: usize = 288;
/// Height of the pose model's input crop.
pub const POSE_INPUT_H: usize = 384;
/// Depth range of the pose model's z axis, in bins of the input scale.
pub const POSE_INPUT_Z: usize = 288;
/// Number of keypoints the pose model estimates.
pub const POSE_KEYPOINTS: usize = 133;

/// One of the three SimCC outputs of the pose model.
#[derive(Debug, Clone, Copy, PartialEq, Eq)]
pub enum SimccAxis {
    X,
    Y,
    Z,
}

/// Number of bins along an axis: twice the input extent (split ratio 2).
pub open spec fn simcc_bins(axis: SimccAxis) -> int {
    match axis {
        SimccAxis::X => 2 * POSE_INPUT_W,
        SimccAxis::Y => 2 * POSE_INPUT_H,
        SimccAxis::Z => 2 * POSE_INPUT_Z,
    }
}

impl SimccAxis {
    /// Number of bins along this axis.
    pub fn bins(self) -> (n: usize)
        ensures
            n == simcc_bins(self),
            n == match self {
                SimccAxis::X => 576usize,
                SimccAxis::Y => 768usize,
                SimccAxis::Z => 576usize,
            },
    {
        match self {
            SimccAxis::X => POSE_INPUT_W * 2,
            SimccAxis::Y => POSE_INPUT_H * 2,
            SimccAxis::Z => POSE_INPUT_Z * 2,
        }
    }
}

/// Whether an output along `axis` has the expected shape `[1, 133, bins]`.
pub fn has_simcc_shape(shape: &Vec<usize>, axis: SimccAxis) -> (r: bool)
    ensures
        r == (shape@ == seq![1usize, POSE_KEYPOINTS, simcc_bins(axis) as usize]),
        r == (shape@ == seq![1usize, 133usize, match axis {
            SimccAxis::X => 576usize,
            SimccAxis::Y => 768usize,
            SimccAxis::Z => 576usize,
        }]),
{
    let r = shape.len() == 3 && shape[0] == 1 && shape[1] == POSE_KEYPOINTS && shape[2] == axis.bins();
    assert(r == (shape@ =~= seq![1usize, POSE_KEYPOINTS, simcc_bins(axis) as usize]));
    r
}

} // verus!
