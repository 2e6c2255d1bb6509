use meshfit::probe::{check_matmul_shape, sam_padding, select_test_case, DeviceChoice, TestArgs, TestCase};

#[test]
fn test_cases_by_name() {
    assert_eq!(select_test_case("basic"), Ok(TestCase::Basic));
    assert_eq!(select_test_case("sam-preprocess"), Ok(TestCase::SamPreprocess));
    assert_eq!(select_test_case("matmul"), Err("unknown test case: matmul".to_string()));
    assert_eq!(select_test_case("Basic"), Err("unknown test case: Basic".to_string()));
}

#[test]
fn device_choice() {
    let a = TestArgs { cpu: true, cuda_device: 3, case: "basic".to_string() };
    assert_eq!(a.device(), DeviceChoice::Cpu);
    let b = TestArgs { cpu: false, cuda_device: 3, case: "basic".to_string() };
    assert_eq!(b.device(), DeviceChoice::Cuda(3));
}

#[test]
fn matmul_shape_check() {
    assert_eq!(check_matmul_shape(2, 4), Ok(()));
    assert_eq!(check_matmul_shape(3, 4), Err("unexpected output shape: (3, 4)".to_string()));
    assert_eq!(check_matmul_shape(2, 40), Err("unexpected output shape: (2, 40)".to_string()));
}

#[test]
fn sam_padding_to_1024() {
    assert_eq!(sam_padding(128), 896);
    assert_eq!(sam_padding(1024), 0);
}
