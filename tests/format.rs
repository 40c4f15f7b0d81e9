use android_native_surface::error::RenderError;
use android_native_surface::format::{best_sample_index, config_request, select_config, ConfigRequest, PixelFormat};

fn req(red: u8, green: u8, blue: u8, alpha: u8, depth: u8, stencil: u8, float_pixels: bool) -> ConfigRequest {
    ConfigRequest { red, green, blue, alpha, depth, stencil, float_pixels }
}

#[test]
fn codes_round_trip() {
    for code in [1, 2, 3, 4, 22, 33, 35, 43, 48, 49, 50, 51, 52, 53, 54, 56, 0, 57, -7] {
        assert_eq!(PixelFormat::from_code(code).code(), code);
    }
    assert_eq!(PixelFormat::from_code(2), PixelFormat::R8G8B8X8_UNORM);
    assert_eq!(PixelFormat::from_code(43), PixelFormat::R10G10B10A2_UNORM);
    assert_eq!(PixelFormat::from_code(57), PixelFormat::Other(57));
    assert_eq!(PixelFormat::D24_UNORM_S8_UINT.code(), 50);
}

#[test]
fn baseline_formats_request_rgba8() {
    let b = req(8, 8, 8, 8, 24, 8, false);
    assert_eq!(config_request(PixelFormat::R8G8B8A8_UNORM), Ok(b));
    assert_eq!(config_request(PixelFormat::R8G8B8X8_UNORM), Ok(b));
}

#[test]
fn colour_formats_narrow_the_baseline() {
    assert_eq!(config_request(PixelFormat::R8G8B8_UNORM), Ok(req(8, 8, 8, 0, 24, 8, false)));
    assert_eq!(config_request(PixelFormat::R5G6B5_UNORM), Ok(req(5, 6, 5, 0, 24, 8, false)));
    assert_eq!(config_request(PixelFormat::R16G16B16A16_FLOAT), Ok(req(16, 16, 16, 16, 24, 8, true)));
    assert_eq!(config_request(PixelFormat::R10G10B10A2_UNORM), Ok(req(10, 10, 10, 2, 24, 8, false)));
    assert_eq!(config_request(PixelFormat::R8_UNORM), Ok(req(8, 0, 0, 0, 24, 8, false)));
}

#[test]
fn depth_and_stencil_formats() {
    assert_eq!(config_request(PixelFormat::D16_UNORM), Ok(req(8, 8, 8, 8, 16, 8, false)));
    assert_eq!(config_request(PixelFormat::D24_UNORM), Ok(req(8, 8, 8, 8, 24, 8, false)));
    assert_eq!(config_request(PixelFormat::D24_UNORM_S8_UINT), Ok(req(8, 8, 8, 8, 24, 8, false)));
    assert_eq!(config_request(PixelFormat::D32_FLOAT), Ok(req(8, 8, 8, 8, 32, 8, true)));
    assert_eq!(config_request(PixelFormat::D32_FLOAT_S8_UINT), Ok(req(8, 8, 8, 8, 32, 8, true)));
    assert_eq!(config_request(PixelFormat::S8_UINT), Ok(req(8, 8, 8, 8, 24, 8, false)));
}

#[test]
fn unmodelled_formats_are_unsupported() {
    for f in [
        PixelFormat::BLOB,
        PixelFormat::Y8Cb8Cr8_420,
        PixelFormat::YCbCr_P010,
        PixelFormat::Other(57),
        PixelFormat::Other(0),
    ] {
        assert_eq!(config_request(f), Err(RenderError::UnsupportedFormat));
    }
}

#[test]
fn first_of_equal_maxima_wins() {
    assert_eq!(best_sample_index(&vec![2, 4, 4, 1]), Some(1));
    assert_eq!(best_sample_index(&vec![4, 2, 4]), Some(0));
    assert_eq!(best_sample_index(&vec![0]), Some(0));
    assert_eq!(best_sample_index(&vec![1, 2, 3]), Some(2));
    assert_eq!(best_sample_index(&vec![]), None);
}

#[test]
fn selection_is_deterministic_and_stable() {
    for _ in 0..3 {
        let picked = select_config(vec!["a", "b", "c", "d"], &vec![2, 4, 4, 1]);
        assert_eq!(picked, Ok("b"));
    }
}

#[test]
fn selection_of_nothing_fails() {
    let none: Vec<u32> = Vec::new();
    assert_eq!(select_config(none, &vec![]), Err(RenderError::NoMatchingConfiguration));
}
