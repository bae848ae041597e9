use pxlha::frame::{
    ColorLayout, FrameFormat, PixelFormat, CODE_ARGB8888, CODE_XBGR8888, CODE_XRGB8888, MAX_POOL_SIZE,
};

fn format(width: u32, height: u32, stride: u32) -> FrameFormat {
    FrameFormat { format: PixelFormat::Xrgb8888, width, height, stride }
}

#[test]
fn wire_codes_are_those_of_the_protocol() {
    assert_eq!(CODE_ARGB8888, 0);
    assert_eq!(CODE_XRGB8888, 1);
    assert_eq!(CODE_XBGR8888, 0x34324258);
}

#[test]
fn supported_codes_are_decoded() {
    assert_eq!(PixelFormat::from_code(0), Some(PixelFormat::Argb8888));
    assert_eq!(PixelFormat::from_code(1), Some(PixelFormat::Xrgb8888));
    assert_eq!(PixelFormat::from_code(0x34324258), Some(PixelFormat::Xbgr8888));
}

#[test]
fn other_codes_are_not_decoded() {
    assert_eq!(PixelFormat::from_code(2), None);
    assert_eq!(PixelFormat::from_code(0x34324241), None);
    assert_eq!(PixelFormat::from_code(u32::MAX), None);
}

#[test]
fn code_and_from_code_are_inverse() {
    for format in [PixelFormat::Argb8888, PixelFormat::Xrgb8888, PixelFormat::Xbgr8888] {
        assert_eq!(PixelFormat::from_code(format.code()), Some(format));
    }
}

#[test]
fn layout_tells_which_formats_arrive_blue_first() {
    assert_eq!(PixelFormat::Argb8888.layout(), ColorLayout::Bgra8);
    assert_eq!(PixelFormat::Xrgb8888.layout(), ColorLayout::Bgra8);
    assert_eq!(PixelFormat::Xbgr8888.layout(), ColorLayout::Rgba8);
}

#[test]
fn byte_size_is_stride_times_height() {
    assert_eq!(format(1920, 1080, 7680).byte_size(), 8_294_400);
    assert_eq!(format(3, 2, 16).byte_size(), 32);
    assert_eq!(format(0, 0, 0).byte_size(), 0);
}

#[test]
fn byte_size_does_not_wrap() {
    assert_eq!(format(1, u32::MAX, u32::MAX).byte_size(), 18_446_744_065_119_617_025);
}

#[test]
fn fits_pool_up_to_the_largest_signed_size() {
    assert_eq!(MAX_POOL_SIZE, 2_147_483_647);
    assert!(format(1920, 1080, 7680).fits_pool());
    assert!(format(1, 1, 2_147_483_647).fits_pool());
    assert!(!format(1, 2, 1_073_741_824).fits_pool());
    assert!(!format(1, 0, 2_147_483_648).fits_pool());
    assert!(!format(2_147_483_648, 1, 4).fits_pool());
    assert!(!format(1, 2_147_483_648, 0).fits_pool());
}
