use meshfit::mask::{
    image_mask_file_name, is_cuda_runtime_error, is_supported_extension, is_supported_image,
    mask_file_name, should_retry_on_cpu, supported_images,
};

#[test]
fn cuda_driver_error_is_recognised() {
    assert!(is_cuda_runtime_error("DriverError(CUDA_ERROR_NO_DEVICE, \"no CUDA-capable device\")"));
    assert!(is_cuda_runtime_error("Cuda error while launching kernel"));
    assert!(is_cuda_runtime_error("load failed: CUDA_ERROR_UNSUPPORTED_PTX_VERSION"));
    assert!(is_cuda_runtime_error("Unsupported PTX version"));
    assert!(is_cuda_runtime_error("the provided PTX was compiled with an Unsupported Toolchain."));
}

#[test]
fn other_errors_are_not_cuda_errors() {
    assert!(!is_cuda_runtime_error("no image files found in \"imgs\""));
    assert!(!is_cuda_runtime_error("cudart missing"));
    assert!(!is_cuda_runtime_error(""));
}

#[test]
fn cuda_error_check_ignores_case() {
    assert_eq!(is_cuda_runtime_error("CUDA "), is_cuda_runtime_error("cuda "));
    assert!(is_cuda_runtime_error("cUdA_eRrOr_x"));
}

#[test]
fn retry_on_cpu_only_when_not_forced() {
    assert!(should_retry_on_cpu(false, "DriverError(CUDA_ERROR_NO_DEVICE)"));
    assert!(!should_retry_on_cpu(true, "DriverError(CUDA_ERROR_NO_DEVICE)"));
    assert!(!should_retry_on_cpu(false, "permission denied"));
}

#[test]
fn supported_image_extensions() {
    assert!(is_supported_image("shots/cat.png"));
    assert!(is_supported_image("shots/cat.PNG"));
    assert!(is_supported_image("cat.JpG"));
    assert!(is_supported_image("cat.jpeg"));
    assert!(is_supported_image("cat.bmp"));
    assert!(is_supported_image("cat.webp"));
    assert!(is_supported_image("archive.tar.png"));
    assert!(is_supported_image("/data/run.v2/frame_001.Webp"));
    assert!(is_supported_image("./a/../b/.hidden.bmp"));
}

#[test]
fn unsupported_image_paths() {
    assert!(!is_supported_image("cat.gif"));
    assert!(!is_supported_image("README"));
    assert!(!is_supported_image(".png"));
    assert!(!is_supported_image("frames.png/readme"));
    assert!(!is_supported_image("cat.png.txt"));
    assert!(!is_supported_image("cat."));
    assert!(!is_supported_image("/data/run.png/frame"));
}

#[test]
fn supported_extension_ignores_case() {
    assert!(is_supported_extension("WEBP"));
    assert!(is_supported_extension("Jpeg"));
    assert!(!is_supported_extension("tiff"));
    assert!(!is_supported_extension(""));
}

#[test]
fn mask_file_names_are_zero_padded() {
    assert_eq!(mask_file_name(Some("cat"), 7), "cat_mask_007.png");
    assert_eq!(mask_file_name(Some("cat"), 0), "cat_mask_000.png");
    assert_eq!(mask_file_name(None, 12), "image_mask_012.png");
    assert_eq!(mask_file_name(Some("dog"), 1234), "dog_mask_1234.png");
}

#[test]
fn mask_file_names_are_distinct() {
    let names: Vec<String> = (0..1100).map(|i| mask_file_name(Some("x"), i)).collect();
    let mut sorted = names.clone();
    sorted.sort();
    sorted.dedup();
    assert_eq!(sorted.len(), names.len());
}

#[test]
fn colons_outside_a_drive_prefix_keep_the_extension() {
    assert!(is_supported_image("dir/a:b.png"));
    assert!(is_supported_image("shots/12:30.JPG"));
    assert!(!is_supported_image("dir/a:b.txt"));
}

#[test]
fn mask_names_follow_the_image_stem() {
    assert_eq!(image_mask_file_name("in/cat.png", 0), "cat_mask_000.png");
    assert_eq!(image_mask_file_name("in/a.b.jpeg", 12), "a.b_mask_012.png");
    assert_eq!(image_mask_file_name(".hidden", 3), ".hidden_mask_003.png");
    assert_eq!(image_mask_file_name("photo.", 1), "photo_mask_001.png");
    assert_eq!(image_mask_file_name("in/", 1), "in_mask_001.png");
}

#[test]
fn mask_name_without_stem_falls_back_to_image() {
    assert_eq!(image_mask_file_name("", 5), "image_mask_005.png");
    assert_eq!(image_mask_file_name("/", 5), "image_mask_005.png");
}

#[test]
fn supported_images_keeps_positions_in_order() {
    let paths: Vec<String> = ["a.png", "b.txt", "c/d.JPEG", "e", "f.webp", ".png"]
        .iter()
        .map(|s| s.to_string())
        .collect();
    assert_eq!(supported_images(&paths), vec![0, 2, 4]);
    assert_eq!(supported_images(&Vec::new()), Vec::<usize>::new());
}
