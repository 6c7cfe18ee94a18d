use sprite_engine::decode::{premultiply, DecodeError};
use sprite_engine::image::Image;

fn encode(width: u32, height: u32, color: png::ColorType, data: &[u8]) -> Vec<u8> {
    encode_with_depth(width, height, color, png::BitDepth::Eight, data)
}

fn encode_with_depth(
    width: u32,
    height: u32,
    color: png::ColorType,
    depth: png::BitDepth,
    data: &[u8],
) -> Vec<u8> {
    let mut out = Vec::new();
    {
        let mut enc = png::Encoder::new(&mut out, width, height);
        enc.set_color(color);
        enc.set_depth(depth);
        let mut writer = enc.write_header().unwrap();
        writer.write_image_data(data).unwrap();
    }
    out
}

#[test]
fn premultiply_scales_by_alpha_rounding_down() {
    assert_eq!(premultiply(200, 100, 50, 128), (100, 50, 25, 128));
    assert_eq!(premultiply(255, 255, 255, 255), (255, 255, 255, 255));
    assert_eq!(premultiply(255, 10, 0, 0), (0, 0, 0, 0));
}

#[test]
fn from_rgba8_premultiplies_each_pixel() {
    let img = Image::from_rgba8(2, 1, &[200, 100, 50, 128, 1, 2, 3, 255]).unwrap();
    assert_eq!(img.size(), (2, 1));
    assert_eq!(img.as_slice(), &[(100, 50, 25, 128), (1, 2, 3, 255)]);
}

#[test]
fn from_rgba8_rejects_wrong_byte_count() {
    assert_eq!(Image::from_rgba8(2, 2, &[0; 12]), Err(DecodeError::SizeMismatch));
    assert_eq!(Image::from_rgba8(1, 1, &[0; 5]), Err(DecodeError::SizeMismatch));
}

#[test]
fn from_rgba8_rejects_oversized_dimensions() {
    assert_eq!(Image::from_rgba8(1 << 31, 0, &[]), Err(DecodeError::TooLarge));
    assert_eq!(Image::from_rgba8(0, u32::MAX, &[]), Err(DecodeError::TooLarge));
}

#[test]
fn from_png_decodes_and_premultiplies() {
    let bytes = encode(2, 1, png::ColorType::Rgba, &[200, 100, 50, 128, 10, 20, 30, 255]);
    let img = Image::from_png(&bytes).unwrap();
    assert_eq!(img.size(), (2, 1));
    assert_eq!(img.as_slice(), &[(100, 50, 25, 128), (10, 20, 30, 255)]);
}

#[test]
fn from_png_rejects_non_rgba() {
    let bytes = encode(2, 1, png::ColorType::Rgb, &[1, 2, 3, 4, 5, 6]);
    assert_eq!(Image::from_png(&bytes), Err(DecodeError::UnsupportedFormat));
}

#[test]
fn from_png_rejects_garbage() {
    assert_eq!(Image::from_png(b"not a png at all"), Err(DecodeError::Malformed));
    assert_eq!(Image::from_png(&[]), Err(DecodeError::Malformed));
}

#[test]
fn from_png_rejects_sixteen_bit_rgba() {
    let bytes = encode_with_depth(1, 1, png::ColorType::Rgba, png::BitDepth::Sixteen, &[0; 8]);
    assert_eq!(Image::from_png(&bytes), Err(DecodeError::UnsupportedFormat));
}
