use dem2mesh::elevation::{
    elevations_from_rgb, height_field, pixel_elevation, png2elevation_rs, ElevationError,
    ImageHeader,
};

fn encode_png(width: u32, height: u32, color: png::ColorType, depth: png::BitDepth, data: &[u8]) -> Vec<u8> {
    let mut out: Vec<u8> = Vec::new();
    {
        let mut encoder = png::Encoder::new(&mut out, width, height);
        encoder.set_color(color);
        encoder.set_depth(depth);
        let mut writer = encoder.write_header().unwrap();
        writer.write_image_data(data).unwrap();
    }
    out
}

fn rgb_tile(pixel: impl Fn(usize, usize) -> [u8; 3]) -> Vec<u8> {
    let mut data: Vec<u8> = Vec::with_capacity(256 * 256 * 3);
    for row in 0..256 {
        for col in 0..256 {
            data.extend_from_slice(&pixel(row, col));
        }
    }
    encode_png(256, 256, png::ColorType::Rgb, png::BitDepth::Eight, &data)
}

fn tile_shape() -> ImageHeader {
    ImageHeader { width: 256, height: 256, channels: 3, bit_depth: 8 }
}

#[test]
fn pixel_formula_has_exact_values() {
    assert_eq!(pixel_elevation(0, 0, 0), -8388608);
    assert_eq!(pixel_elevation(128, 0, 0), 0);
    assert_eq!(pixel_elevation(128, 0, 1), 1);
    assert_eq!(pixel_elevation(128, 1, 0), 256);
    assert_eq!(pixel_elevation(1, 2, 3), 65536 + 512 + 3 - 8388608);
    assert_eq!(pixel_elevation(255, 255, 255), 8388607);
}

#[test]
fn pixel_formula_matches_the_real_valued_one() {
    for &(r, g, b) in &[(0u8, 0u8, 0u8), (128, 0, 0), (127, 255, 255), (200, 17, 64), (255, 255, 255)] {
        let real = r as f32 * 256.0 + g as f32 + b as f32 / 256.0 - 32768.0;
        assert_eq!(pixel_elevation(r, g, b) as f32 / 256.0, real);
    }
}

#[test]
fn raster_is_read_pixel_by_pixel() {
    let heights = elevations_from_rgb(&[128, 0, 0, 128, 0, 7, 0, 0, 0, 129, 2, 3]);
    assert_eq!(heights, vec![0, 7, -8388608, 65536 + 512 + 3]);
    assert_eq!(elevations_from_rgb(&[]), Vec::<i32>::new());
}

#[test]
fn valid_tile_gives_65536_samples() {
    let bytes = rgb_tile(|row, col| [row as u8, col as u8, (row ^ col) as u8]);
    let heights = png2elevation_rs(&bytes).unwrap();
    assert_eq!(heights.len(), 65536);
}

#[test]
fn decoding_is_repeatable() {
    let bytes = rgb_tile(|row, col| [(row / 2) as u8, (col * 3) as u8, (row + col) as u8]);
    let first = png2elevation_rs(&bytes).unwrap();
    let second = png2elevation_rs(&bytes).unwrap();
    assert_eq!(first, second);
}

#[test]
fn samples_follow_raster_order() {
    let bytes = rgb_tile(|row, col| [row as u8, col as u8, (row ^ col) as u8]);
    let heights = png2elevation_rs(&bytes).unwrap();
    for &(row, col) in &[(0usize, 0usize), (0, 1), (1, 0), (17, 200), (255, 254), (255, 255)] {
        let expected = pixel_elevation(row as u8, col as u8, (row ^ col) as u8);
        assert_eq!(heights[row * 256 + col], expected);
    }
}

#[test]
fn all_zero_image_is_the_lowest_elevation() {
    let bytes = rgb_tile(|_, _| [0, 0, 0]);
    let heights = png2elevation_rs(&bytes).unwrap();
    assert_eq!(heights.len(), 65536);
    assert!(heights.iter().all(|&h| h == -8388608));
    assert!(heights.iter().all(|&h| h as f32 / 256.0 == -32768.0));
}

#[test]
fn mid_red_pixel_is_sea_level() {
    let bytes = rgb_tile(|_, _| [128, 0, 0]);
    let heights = png2elevation_rs(&bytes).unwrap();
    assert!(heights.iter().all(|&h| h == 0));
    assert_eq!(heights[0] as f32 / 256.0, 0.0);
}

#[test]
fn decoded_samples_match_the_raster() {
    let mut data: Vec<u8> = Vec::new();
    for row in 0..256u32 {
        for col in 0..256u32 {
            data.extend_from_slice(&[(row % 251) as u8, (col % 241) as u8, 9]);
        }
    }
    let bytes = encode_png(256, 256, png::ColorType::Rgb, png::BitDepth::Eight, &data);
    let heights = png2elevation_rs(&bytes).unwrap();
    assert_eq!(heights, elevations_from_rgb(&data));
}

#[test]
fn empty_input_is_malformed() {
    assert_eq!(png2elevation_rs(&[]), Err(ElevationError::Malformed));
}

#[test]
fn garbage_is_malformed() {
    let bytes: Vec<u8> = (0..500u32).map(|i| (i * 7 + 3) as u8).collect();
    assert_eq!(png2elevation_rs(&bytes), Err(ElevationError::Malformed));
}

#[test]
fn truncated_stream_is_malformed() {
    let bytes = rgb_tile(|row, col| [row as u8, col as u8, (row * col) as u8]);
    let cut = &bytes[..bytes.len() / 2];
    assert_eq!(png2elevation_rs(cut), Err(ElevationError::Malformed));
}

#[test]
fn corrupted_stream_is_malformed() {
    let mut bytes = rgb_tile(|row, col| [row as u8, col as u8, (row * col) as u8]);
    let at = bytes.len() / 2;
    for b in &mut bytes[at..at + 64] {
        *b = !*b;
    }
    assert_eq!(png2elevation_rs(&bytes), Err(ElevationError::Malformed));
}

#[test]
fn header_alone_is_malformed() {
    let bytes = rgb_tile(|_, _| [1, 2, 3]);
    assert_eq!(png2elevation_rs(&bytes[..33]), Err(ElevationError::Malformed));
}

#[test]
fn small_image_is_a_format_error() {
    let data = vec![0u8; 128 * 128 * 3];
    let bytes = encode_png(128, 128, png::ColorType::Rgb, png::BitDepth::Eight, &data);
    let actual = ImageHeader { width: 128, height: 128, channels: 3, bit_depth: 8 };
    assert_eq!(
        png2elevation_rs(&bytes),
        Err(ElevationError::Format { expected: tile_shape(), actual })
    );
}

#[test]
fn same_byte_count_in_another_shape_is_a_format_error() {
    let data = vec![0u8; 512 * 128 * 3];
    let bytes = encode_png(512, 128, png::ColorType::Rgb, png::BitDepth::Eight, &data);
    let actual = ImageHeader { width: 512, height: 128, channels: 3, bit_depth: 8 };
    assert_eq!(
        png2elevation_rs(&bytes),
        Err(ElevationError::Format { expected: tile_shape(), actual })
    );
}

#[test]
fn alpha_channel_is_a_format_error() {
    let data = vec![0u8; 256 * 256 * 4];
    let bytes = encode_png(256, 256, png::ColorType::Rgba, png::BitDepth::Eight, &data);
    let actual = ImageHeader { width: 256, height: 256, channels: 4, bit_depth: 8 };
    assert_eq!(
        png2elevation_rs(&bytes),
        Err(ElevationError::Format { expected: tile_shape(), actual })
    );
}

#[test]
fn grayscale_is_a_format_error() {
    let data = vec![0u8; 256 * 256];
    let bytes = encode_png(256, 256, png::ColorType::Grayscale, png::BitDepth::Eight, &data);
    let actual = ImageHeader { width: 256, height: 256, channels: 1, bit_depth: 8 };
    assert_eq!(
        png2elevation_rs(&bytes),
        Err(ElevationError::Format { expected: tile_shape(), actual })
    );
}

#[test]
fn sixteen_bit_channels_are_a_format_error() {
    let data = vec![0u8; 256 * 256 * 6];
    let bytes = encode_png(256, 256, png::ColorType::Rgb, png::BitDepth::Sixteen, &data);
    let actual = ImageHeader { width: 256, height: 256, channels: 3, bit_depth: 16 };
    assert_eq!(
        png2elevation_rs(&bytes),
        Err(ElevationError::Format { expected: tile_shape(), actual })
    );
}

#[test]
fn tile_shape_is_recognised() {
    assert_eq!(ImageHeader::tile(), tile_shape());
    assert!(tile_shape().is_tile());
    assert!(!ImageHeader { width: 255, height: 256, channels: 3, bit_depth: 8 }.is_tile());
    assert!(!ImageHeader { width: 256, height: 257, channels: 3, bit_depth: 8 }.is_tile());
    assert!(!ImageHeader { width: 256, height: 256, channels: 4, bit_depth: 8 }.is_tile());
    assert!(!ImageHeader { width: 256, height: 256, channels: 3, bit_depth: 16 }.is_tile());
}

#[test]
fn failed_announcement_is_malformed() {
    assert_eq!(height_field(None, None), Err(ElevationError::Malformed));
    let frame = Some((tile_shape(), vec![0u8; 196608]));
    assert_eq!(height_field(None, frame), Err(ElevationError::Malformed));
}

#[test]
fn failed_frame_is_malformed() {
    assert_eq!(height_field(Some(tile_shape()), None), Err(ElevationError::Malformed));
}

#[test]
fn announced_shape_is_judged_before_the_frame() {
    let announced = ImageHeader { width: 512, height: 256, channels: 3, bit_depth: 8 };
    let refusal = Err(ElevationError::Format { expected: tile_shape(), actual: announced });
    assert_eq!(height_field(Some(announced), None), refusal);
    let frame = Some((tile_shape(), vec![0u8; 196608]));
    assert_eq!(height_field(Some(announced), frame), refusal);
}

#[test]
fn delivered_shape_is_judged_too() {
    let delivered = ImageHeader { width: 16, height: 16, channels: 3, bit_depth: 8 };
    let frame = Some((delivered, vec![0u8; 196608]));
    assert_eq!(
        height_field(Some(tile_shape()), frame),
        Err(ElevationError::Format { expected: tile_shape(), actual: delivered })
    );
}

#[test]
fn raster_of_another_size_is_malformed() {
    let short = Some((tile_shape(), vec![0u8; 196605]));
    assert_eq!(height_field(Some(tile_shape()), short), Err(ElevationError::Malformed));
    let long = Some((tile_shape(), vec![0u8; 196611]));
    assert_eq!(height_field(Some(tile_shape()), long), Err(ElevationError::Malformed));
    let empty = Some((tile_shape(), Vec::new()));
    assert_eq!(height_field(Some(tile_shape()), empty), Err(ElevationError::Malformed));
}

#[test]
fn good_answers_give_the_height_field() {
    let mut raster = vec![0u8; 196608];
    raster[0] = 128;
    raster[5] = 9;
    raster[196607] = 255;
    let heights = height_field(Some(tile_shape()), Some((tile_shape(), raster.clone()))).unwrap();
    assert_eq!(heights.len(), 65536);
    assert_eq!(heights[0], 0);
    assert_eq!(heights[1], -8388608 + 9);
    assert_eq!(heights[65535], -8388608 + 255);
    assert_eq!(heights, elevations_from_rgb(&raster));
}
