use meshfit::onnx::{
    find_box_output, find_score_output, has_simcc_shape, is_packed_detection_shape, select_packed_output,
    SimccAxis,
};

#[test]
fn rtm_det_test_0() {}

#[test]
fn run_onnx_test_0() {}

#[test]
fn packed_detection_shapes() {
    assert!(is_packed_detection_shape(&vec![1, 100, 6]));
    assert!(is_packed_detection_shape(&vec![1, 0, 5]));
    assert!(!is_packed_detection_shape(&vec![2, 100, 6]));
    assert!(!is_packed_detection_shape(&vec![1, 100, 4]));
    assert!(!is_packed_detection_shape(&vec![100, 6]));
}

#[test]
fn first_packed_output_with_detections_is_selected() {
    let shapes = vec![vec![1, 100, 4], vec![1, 0, 6], vec![1, 8, 6], vec![1, 9, 6]];
    assert_eq!(select_packed_output(&shapes), Some(2));
    assert_eq!(select_packed_output(&vec![vec![1, 0, 6]]), None);
    assert_eq!(select_packed_output(&vec![]), None);
}

#[test]
fn box_and_score_outputs() {
    let shapes = vec![vec![1, 50, 80], vec![1, 50, 4]];
    assert_eq!(find_box_output(&shapes), Some(1));
    assert_eq!(find_score_output(&shapes), Some(0));
    assert_eq!(find_score_output(&vec![vec![1, 0, 80], vec![1, 5, 1]]), None);
}

#[test]
fn simcc_shapes() {
    assert_eq!(SimccAxis::X.bins(), 576);
    assert_eq!(SimccAxis::Y.bins(), 768);
    assert_eq!(SimccAxis::Z.bins(), 576);
    assert!(has_simcc_shape(&vec![1, 133, 576], SimccAxis::X));
    assert!(has_simcc_shape(&vec![1, 133, 768], SimccAxis::Y));
    assert!(!has_simcc_shape(&vec![1, 133, 576], SimccAxis::Y));
    assert!(!has_simcc_shape(&vec![1, 17, 576], SimccAxis::Z));
    assert!(!has_simcc_shape(&vec![133, 576], SimccAxis::X));
}
