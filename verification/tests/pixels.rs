use icoutils_rs::create::decode_png_rgba;
use icoutils_rs::error::IcoError;
use icoutils_rs::pixels::{
    gray_alpha_to_rgba, gray_to_rgba, indexed_to_rgba, normalize_pixels, rgb_to_rgba, DecodedPng,
};

fn frame(color_type: u8, bytes: Vec<u8>, palette: Option<Vec<u8>>, transparency: Option<Vec<u8>>) -> DecodedPng {
    DecodedPng { width: 1, height: 1, color_type, bytes, palette, transparency }
}

#[test]
fn indexed_pixel_takes_colour_and_alpha() {
    let palette = [255, 0, 0, 0, 255, 0];
    let transparency = [128];
    let out = indexed_to_rgba(Some(&palette), Some(&transparency), &[0]).unwrap();
    assert_eq!(out, vec![255, 0, 0, 128]);
}

#[test]
fn indexed_pixel_without_alpha_entry_is_opaque() {
    let palette = [255, 0, 0, 0, 255, 0];
    let transparency = [128];
    let out = indexed_to_rgba(Some(&palette), Some(&transparency), &[1, 0, 1]).unwrap();
    assert_eq!(out, vec![0, 255, 0, 255, 255, 0, 0, 128, 0, 255, 0, 255]);
    let out = indexed_to_rgba(Some(&palette), None, &[0, 1]).unwrap();
    assert_eq!(out, vec![255, 0, 0, 255, 0, 255, 0, 255]);
}

#[test]
fn indexed_pixel_beyond_palette_is_refused() {
    let palette = [255, 0, 0, 0, 255, 0];
    assert_eq!(
        indexed_to_rgba(Some(&palette), None, &[0, 2]),
        Err(IcoError::PaletteIndexOutOfRange)
    );
    // an entry that lacks its last byte is not there
    assert_eq!(
        indexed_to_rgba(Some(&palette[..5]), None, &[1]),
        Err(IcoError::PaletteIndexOutOfRange)
    );
    assert_eq!(indexed_to_rgba(Some(&[]), None, &[0]), Err(IcoError::PaletteIndexOutOfRange));
    assert_eq!(indexed_to_rgba(Some(&[]), None, &[]), Ok(vec![]));
}

#[test]
fn indexed_image_needs_a_palette() {
    assert_eq!(indexed_to_rgba(None, None, &[0]), Err(IcoError::PaletteMissing));
    assert_eq!(indexed_to_rgba(None, Some(&[1]), &[]), Err(IcoError::PaletteMissing));
}

#[test]
fn rgb_gets_opaque_alpha() {
    assert_eq!(rgb_to_rgba(&[1, 2, 3, 4, 5, 6]), vec![1, 2, 3, 255, 4, 5, 6, 255]);
    assert_eq!(rgb_to_rgba(&[1, 2, 3, 4, 5]), vec![1, 2, 3, 255]);
    assert_eq!(rgb_to_rgba(&[1, 2]), Vec::<u8>::new());
    assert_eq!(rgb_to_rgba(&[]), Vec::<u8>::new());
}

#[test]
fn gray_is_spread_over_three_channels() {
    assert_eq!(gray_to_rgba(&[7, 200]), vec![7, 7, 7, 255, 200, 200, 200, 255]);
    assert_eq!(gray_to_rgba(&[]), Vec::<u8>::new());
}

#[test]
fn gray_alpha_keeps_its_alpha() {
    assert_eq!(gray_alpha_to_rgba(&[7, 1, 200, 2]), vec![7, 7, 7, 1, 200, 200, 200, 2]);
    assert_eq!(gray_alpha_to_rgba(&[7, 1, 200]), vec![7, 7, 7, 1]);
    assert_eq!(gray_alpha_to_rgba(&[7]), Vec::<u8>::new());
}

#[test]
fn frames_are_normalized_by_colour_type() {
    assert_eq!(normalize_pixels(&frame(6, vec![1, 2, 3, 4], None, None)), Ok(vec![1, 2, 3, 4]));
    assert_eq!(normalize_pixels(&frame(2, vec![1, 2, 3], None, None)), Ok(vec![1, 2, 3, 255]));
    assert_eq!(normalize_pixels(&frame(0, vec![5], None, None)), Ok(vec![5, 5, 5, 255]));
    assert_eq!(normalize_pixels(&frame(4, vec![5, 6], None, None)), Ok(vec![5, 5, 5, 6]));
    assert_eq!(
        normalize_pixels(&frame(3, vec![1], Some(vec![0, 0, 0, 9, 8, 7]), Some(vec![1, 2]))),
        Ok(vec![9, 8, 7, 2])
    );
    assert_eq!(normalize_pixels(&frame(3, vec![1], None, None)), Err(IcoError::PaletteMissing));
    assert_eq!(
        normalize_pixels(&frame(5, vec![1], None, None)),
        Err(IcoError::UnsupportedColorType)
    );
}

#[test]
fn indexed_png_is_expanded_through_its_palette() {
    let mut buf = Vec::new();
    {
        let mut encoder = png::Encoder::new(&mut buf, 2, 1);
        encoder.set_color(png::ColorType::Indexed);
        encoder.set_depth(png::BitDepth::Eight);
        encoder.set_palette(vec![255, 0, 0, 0, 0, 255]);
        encoder.set_trns(vec![128]);
        let mut writer = encoder.write_header().unwrap();
        writer.write_image_data(&[0, 1]).unwrap();
    }
    assert_eq!(decode_png_rgba(&buf).unwrap(), (2, 1, vec![255, 0, 0, 128, 0, 0, 255, 255]));
}
