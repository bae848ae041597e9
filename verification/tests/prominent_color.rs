use pxlha::frame::{ColorLayout, FrameCopy, FrameFormat, PixelFormat};
use pxlha::prominent_color::{
    determine_prominent_color, prominent_color, quantize, Bucket, Color, Heatmap, LIGHTNESS_MIN,
    SATURATION_MIN, SKIP_PIXEL,
};

const STRIDE: usize = 68;

fn frame_of(pixels: &[[u8; 3]]) -> Vec<u8> {
    let mut data = vec![0u8; pixels.len() * STRIDE];
    for (k, pixel) in pixels.iter().enumerate() {
        data[k * STRIDE] = pixel[0];
        data[k * STRIDE + 1] = pixel[1];
        data[k * STRIDE + 2] = pixel[2];
        data[k * STRIDE + 3] = 0xff;
    }
    data
}

fn color_of(data: &[u8]) -> Color {
    let frame_format = FrameFormat {
        format: PixelFormat::Xbgr8888,
        width: (data.len() / 4) as u32,
        height: 1,
        stride: data.len() as u32,
    };
    determine_prominent_color(FrameCopy {
        frame_format,
        frame_color_type: ColorLayout::Rgba8,
        frame_mmap: data,
    })
}

fn color(hue: u32, saturation: u32, lightness: u32) -> Color {
    Color { hue, saturation, lightness }
}

fn bucket(hue: u32, saturation: u32, lightness: u32) -> Bucket {
    Bucket { hue, saturation, lightness }
}

#[test]
fn minimums_are_fifteen_hundredths() {
    assert_eq!(LIGHTNESS_MIN, 0.15f32.to_bits());
    assert_eq!(SATURATION_MIN, 0.15f32.to_bits());
    assert_eq!(SKIP_PIXEL, 16);
}

#[test]
fn black_frame_gives_the_neutral_color() {
    let data = vec![0u8; 40 * STRIDE];
    assert_eq!(color_of(&data), color(0, 0, 0));
}

#[test]
fn grey_frame_gives_the_neutral_color() {
    let data = frame_of(&[[128, 128, 128]; 50]);
    assert_eq!(color_of(&data), color(0, 0, 0));
    let data = frame_of(&[[255, 255, 255], [0, 0, 0], [17, 17, 17], [200, 200, 200]]);
    assert_eq!(color_of(&data), color(0, 0, 0));
}

#[test]
fn empty_frame_gives_the_neutral_color() {
    assert_eq!(color_of(&[]), color(0, 0, 0));
    assert_eq!(Color::neutral(), color(0, 0, 0));
}

#[test]
fn frame_shorter_than_one_stride_gives_the_neutral_color() {
    let data = vec![200u8, 10, 10, 255, 200, 10, 10, 255];
    assert_eq!(color_of(&data), color(0, 0, 0));
    let data = vec![255u8; STRIDE - 1];
    assert_eq!(color_of(&data), color(0, 0, 0));
}

#[test]
fn red_frame_gives_red() {
    let data = frame_of(&[[255, 0, 0]; 3]);
    assert_eq!(color_of(&data), color(0, 100, 50));
}

#[test]
fn blue_frame_gives_blue() {
    let data = frame_of(&[[0, 0, 255]; 3]);
    assert_eq!(color_of(&data), color(240, 100, 50));
}

#[test]
fn dominant_block_gives_the_floor_of_its_bucket() {
    let mut pixels = vec![[30u8, 235, 40]; 11];
    pixels.extend_from_slice(&[
        [255, 0, 0],
        [0, 0, 255],
        [200, 180, 20],
        [10, 10, 200],
        [100, 50, 50],
        [255, 0, 1],
        [128, 128, 128],
        [0, 0, 0],
        [1, 1, 0],
    ]);
    let data = frame_of(&pixels);
    assert_eq!(color_of(&data), color(120, 80, 50));
}

#[test]
fn dominant_block_wins_wherever_it_stands() {
    let mut pixels = vec![[255u8, 0, 0], [0, 0, 255], [200, 180, 20], [10, 10, 200]];
    pixels.extend_from_slice(&[[30u8, 235, 40]; 5]);
    let data = frame_of(&pixels);
    assert_eq!(color_of(&data), color(120, 80, 50));
}

#[test]
fn lightness_is_bucketed_by_lightness() {
    let data = frame_of(&[[10, 10, 200]; 4]);
    assert_eq!(color_of(&data), color(240, 90, 40));
    let data = frame_of(&[[100, 50, 50]; 4]);
    assert_eq!(color_of(&data), color(0, 30, 25));
}

#[test]
fn first_bucket_to_reach_the_highest_count_wins() {
    let red = [255u8, 0, 0];
    let blue = [0u8, 0, 255];
    assert_eq!(color_of(&frame_of(&[red, blue])), color(0, 100, 50));
    assert_eq!(color_of(&frame_of(&[blue, red])), color(240, 100, 50));
    assert_eq!(color_of(&frame_of(&[red, blue, blue, red])), color(240, 100, 50));
    assert_eq!(color_of(&frame_of(&[red, blue, blue, red, red])), color(0, 100, 50));
}

#[test]
fn only_the_first_pixel_of_each_stride_is_sampled() {
    let mut data = vec![0u8; 3 * STRIDE];
    for k in 0..3 {
        data[k * STRIDE] = 255;
        for pixel in 1..17 {
            data[k * STRIDE + pixel * 4 + 2] = 255;
        }
    }
    assert_eq!(color_of(&data), color(0, 100, 50));
}

#[test]
fn skip_sets_the_distance_between_samples() {
    let data: Vec<u8> = vec![255, 0, 0, 255, 0, 0, 255, 255, 0, 0, 255, 255];
    assert_eq!(prominent_color(&data, 0), color(240, 100, 50));
    assert_eq!(prominent_color(&data, 1), color(0, 100, 50));
    assert_eq!(prominent_color(&data, 2), color(0, 100, 50));
    assert_eq!(prominent_color(&data, 3), color(0, 0, 0));
    assert_eq!(prominent_color(&data, usize::MAX), color(0, 0, 0));
    assert_eq!(prominent_color(&data, usize::MAX / 4), color(0, 0, 0));
}

#[test]
fn trailing_bytes_are_not_sampled() {
    let mut data = frame_of(&[[255, 0, 0]]);
    data.extend_from_slice(&[0, 0, 255, 255, 0, 0, 255, 255]);
    assert_eq!(color_of(&data), color(0, 100, 50));
}

#[test]
fn quantize_takes_the_floor_of_each_coordinate() {
    let bits = |x: f32| x.to_bits();
    assert_eq!(quantize(bits(120.0), bits(80.0), bits(50.0)), Some(bucket(12, 16, 10)));
    assert_eq!(quantize(bits(129.99), bits(84.99), bits(54.99)), Some(bucket(12, 16, 10)));
    assert_eq!(quantize(bits(0.0), bits(0.15), bits(0.15)), Some(bucket(0, 0, 0)));
    assert_eq!(quantize(bits(359.9), bits(100.0), bits(100.0)), Some(bucket(35, 20, 20)));
    assert_eq!(quantize(bits(360.0), bits(100.0), bits(100.0)), Some(bucket(36, 20, 20)));
}

#[test]
fn quantize_discards_dark_and_grey_samples() {
    let bits = |x: f32| x.to_bits();
    assert_eq!(quantize(bits(120.0), bits(80.0), bits(0.149)), None);
    assert_eq!(quantize(bits(120.0), bits(0.149), bits(50.0)), None);
    assert_eq!(quantize(bits(120.0), bits(0.0), bits(50.0)), None);
    assert_eq!(quantize(bits(120.0), bits(80.0), bits(0.0)), None);
    assert_eq!(quantize(bits(120.0), bits(-1.0), bits(50.0)), None);
}

#[test]
fn quantize_discards_samples_outside_the_grid() {
    let bits = |x: f32| x.to_bits();
    assert_eq!(quantize(bits(370.0), bits(80.0), bits(50.0)), None);
    assert_eq!(quantize(bits(120.0), bits(105.0), bits(50.0)), None);
    assert_eq!(quantize(bits(120.0), bits(80.0), bits(105.0)), None);
    assert_eq!(quantize(bits(f32::INFINITY), bits(80.0), bits(50.0)), None);
}

#[test]
fn representative_is_the_lower_corner() {
    assert_eq!(bucket(12, 16, 10).representative(), color(120, 80, 50));
    assert_eq!(bucket(0, 0, 0).representative(), color(0, 0, 0));
    assert_eq!(bucket(36, 20, 20).representative(), color(360, 100, 100));
}

#[test]
fn heatmap_reports_the_leader() {
    let mut heatmap = Heatmap::new();
    assert_eq!(heatmap.prominent(), color(0, 0, 0));
    heatmap.record(None);
    assert_eq!(heatmap.prominent(), color(0, 0, 0));
    heatmap.record(Some(bucket(1, 2, 3)));
    assert_eq!(heatmap.prominent(), color(10, 10, 15));
    heatmap.record(Some(bucket(12, 16, 10)));
    assert_eq!(heatmap.prominent(), color(10, 10, 15));
    heatmap.record(None);
    heatmap.record(Some(bucket(12, 16, 10)));
    assert_eq!(heatmap.prominent(), color(120, 80, 50));
    heatmap.record(Some(bucket(1, 2, 3)));
    assert_eq!(heatmap.prominent(), color(120, 80, 50));
    heatmap.record(Some(bucket(1, 2, 3)));
    assert_eq!(heatmap.prominent(), color(10, 10, 15));
}

#[test]
fn heatmap_keeps_the_corners_of_the_grid_apart() {
    let mut heatmap = Heatmap::new();
    heatmap.record(Some(bucket(36, 20, 20)));
    heatmap.record(Some(bucket(0, 0, 0)));
    heatmap.record(Some(bucket(0, 0, 0)));
    assert_eq!(heatmap.prominent(), color(0, 0, 0));
    heatmap.record(Some(bucket(36, 20, 20)));
    heatmap.record(Some(bucket(36, 20, 20)));
    assert_eq!(heatmap.prominent(), color(360, 100, 100));
}
