use icoutils_rs::container::{entry_to_meta, read_container};
use icoutils_rs::create::{
    build_ico, clamp_u16, container_kind, decode_png_rgba, describe_payload, encode_one,
    encode_pixels, to_dim_byte, EncodedImage,
};
use icoutils_rs::error::IcoError;
use icoutils_rs::parse::{is_png_bytes, parse_dib_info, parse_png_info};
use icoutils_rs::types::{Command, CreateInput, ParsedArgs};

fn make_png(width: u32, height: u32, color: png::ColorType, depth: png::BitDepth, data: &[u8]) -> Vec<u8> {
    let mut buf = Vec::new();
    {
        let mut encoder = png::Encoder::new(&mut buf, width, height);
        encoder.set_color(color);
        encoder.set_depth(depth);
        let mut writer = encoder.write_header().unwrap();
        writer.write_image_data(data).unwrap();
    }
    buf
}

fn make_rgba_png_1x1() -> Vec<u8> {
    make_png(1, 1, png::ColorType::Rgba, png::BitDepth::Eight, &[0, 0, 0, 0])
}

fn make_rgba16_png_1x1() -> Vec<u8> {
    make_png(1, 1, png::ColorType::Rgba, png::BitDepth::Sixteen, &[0, 0, 0, 0, 0, 0, 0, 0])
}

fn input(raw_png: bool, hotspot_x: i32, hotspot_y: i32) -> CreateInput {
    CreateInput { path: "mem".to_string(), raw_png, min_bit_depth: -1, hotspot_x, hotspot_y }
}

fn image(width: u32, height: u32, bit_depth: u32, data: Vec<u8>) -> EncodedImage {
    EncodedImage { width, height, bit_depth, hotspot_x: 0, hotspot_y: 0, data }
}

fn args(icon_only: bool, cursor_only: bool) -> ParsedArgs {
    ParsedArgs {
        command: Command::Create,
        output: None,
        image_index: -1,
        width: -1,
        height: -1,
        bit_depth: -1,
        palette_size: -1,
        hotspot_x: 0,
        hotspot_y: 0,
        hotspot_x_set: false,
        hotspot_y_set: false,
        alpha_threshold: 127,
        icon_only,
        cursor_only,
        compat_png_bitcount: true,
        files: vec![],
        create_inputs: vec![],
    }
}

#[test]
fn create_raw_png_cursor_writes_hotspot_fields() {
    let bytes = make_rgba_png_1x1();
    let input = CreateInput {
        path: "mem".to_string(),
        raw_png: true,
        min_bit_depth: -1,
        hotspot_x: 7,
        hotspot_y: 9,
    };
    let img = encode_one(&input, &bytes).unwrap();
    let ico = build_ico(2, true, &[img], true);

    assert_eq!(&ico[0..2], &[0, 0]);
    assert_eq!(u16::from_le_bytes([ico[2], ico[3]]), 2);
    assert_eq!(u16::from_le_bytes([ico[4], ico[5]]), 1);
    assert_eq!(ico[6], 1);
    assert_eq!(ico[7], 1);
    assert_eq!(u16::from_le_bytes([ico[10], ico[11]]), 7);
    assert_eq!(u16::from_le_bytes([ico[12], ico[13]]), 9);
}

#[test]
fn create_raw_png_rgba16_normalizes_icon_bit_count_to_32() {
    let bytes = make_rgba16_png_1x1();
    let input = CreateInput {
        path: "mem".to_string(),
        raw_png: true,
        min_bit_depth: -1,
        hotspot_x: 0,
        hotspot_y: 0,
    };
    let img = encode_one(&input, &bytes).unwrap();
    let ico = build_ico(1, false, &[img], true);

    assert_eq!(u16::from_le_bytes([ico[2], ico[3]]), 1);
    assert_eq!(u16::from_le_bytes([ico[4], ico[5]]), 1);
    assert_eq!(u16::from_le_bytes([ico[10], ico[11]]), 1);
    assert_eq!(u16::from_le_bytes([ico[12], ico[13]]), 32);
}

#[test]
fn create_raw_png_rgba16_can_write_ihdr_bit_count() {
    let bytes = make_rgba16_png_1x1();
    let input = CreateInput {
        path: "mem".to_string(),
        raw_png: true,
        min_bit_depth: -1,
        hotspot_x: 0,
        hotspot_y: 0,
    };
    let img = encode_one(&input, &bytes).unwrap();
    let ico = build_ico(1, false, &[img], false);

    assert_eq!(u16::from_le_bytes([ico[12], ico[13]]), 64);
}

#[test]
fn raw_input_is_stored_byte_for_byte() {
    let bytes = make_rgba16_png_1x1();
    let img = encode_one(&input(true, 0, 0), &bytes).unwrap();
    assert_eq!(img.data, bytes);
    assert_eq!((img.width, img.height, img.bit_depth), (1, 1, 64));
}

#[test]
fn raw_input_must_be_a_png() {
    let r = encode_one(&input(true, 0, 0), b"BM not a png at all");
    assert_eq!(r.unwrap_err(), IcoError::NotAPng);
}

#[test]
fn hotspot_of_input_is_clamped() {
    let bytes = make_rgba_png_1x1();
    let img = encode_one(&input(true, -5, 70000), &bytes).unwrap();
    assert_eq!(img.hotspot_x, 0);
    assert_eq!(img.hotspot_y, 65535);
}

#[test]
fn clamp_u16_keeps_the_range() {
    assert_eq!(clamp_u16(-1), 0);
    assert_eq!(clamp_u16(0), 0);
    assert_eq!(clamp_u16(1), 1);
    assert_eq!(clamp_u16(65534), 65534);
    assert_eq!(clamp_u16(65535), 65535);
    assert_eq!(clamp_u16(65536), 65535);
    assert_eq!(clamp_u16(i32::MAX), 65535);
    assert_eq!(clamp_u16(i32::MIN), 0);
}

#[test]
fn dimension_byte_wraps_at_256() {
    assert_eq!(to_dim_byte(0), 0);
    assert_eq!(to_dim_byte(1), 1);
    assert_eq!(to_dim_byte(255), 255);
    assert_eq!(to_dim_byte(256), 0);
    assert_eq!(to_dim_byte(257), 0);
    assert_eq!(to_dim_byte(u32::MAX), 0);
}

#[test]
fn large_dimensions_are_written_as_zero() {
    let images = [image(256, 300, 32, vec![1, 2, 3]), image(255, 16, 32, vec![4])];
    let ico = build_ico(1, false, &images, true);
    assert_eq!(ico[6], 0);
    assert_eq!(ico[7], 0);
    assert_eq!(ico[6 + 16], 255);
    assert_eq!(ico[7 + 16], 16);
}

#[test]
fn container_layout_is_exact() {
    let mut a = image(16, 32, 8, vec![0xaa, 0xbb, 0xcc]);
    a.hotspot_x = 0x0102;
    a.hotspot_y = 0x0304;
    let b = image(48, 48, 24, vec![0xdd, 0xee]);
    let ico = build_ico(2, true, &[a, b], true);
    let expected: Vec<u8> = vec![
        0, 0, 2, 0, 2, 0, // header
        16, 32, 0, 0, 0x02, 0x01, 0x04, 0x03, 3, 0, 0, 0, 38, 0, 0, 0, // first entry
        48, 48, 0, 0, 0, 0, 0, 0, 2, 0, 0, 0, 41, 0, 0, 0, // second entry
        0xaa, 0xbb, 0xcc, 0xdd, 0xee, // payloads
    ];
    assert_eq!(ico, expected);
}

#[test]
fn icon_entry_reports_planes_and_depth() {
    let ico = build_ico(1, false, &[image(16, 16, 24, vec![40, 0, 0, 0])], true);
    assert_eq!(&ico[0..6], &[0, 0, 1, 0, 1, 0]);
    assert_eq!(u16::from_le_bytes([ico[10], ico[11]]), 1);
    assert_eq!(u16::from_le_bytes([ico[12], ico[13]]), 24);
    assert_eq!(u32::from_le_bytes([ico[14], ico[15], ico[16], ico[17]]), 4);
    assert_eq!(u32::from_le_bytes([ico[18], ico[19], ico[20], ico[21]]), 22);
    assert_eq!(&ico[22..], &[40, 0, 0, 0]);
}

#[test]
fn icon_depth_beyond_the_field_is_clamped() {
    let ico = build_ico(1, false, &[image(1, 1, 70000, vec![])], true);
    assert_eq!(u16::from_le_bytes([ico[12], ico[13]]), 65535);
    let ico = build_ico(1, false, &[image(1, 1, 0x8000_0000, vec![])], true);
    assert_eq!(u16::from_le_bytes([ico[12], ico[13]]), 0);
}

#[test]
fn empty_container_is_a_bare_header() {
    assert_eq!(build_ico(1, false, &[], true), vec![0, 0, 1, 0, 0, 0]);
    assert_eq!(build_ico(2, true, &[], false), vec![0, 0, 2, 0, 0, 0]);
}

#[test]
fn offsets_accumulate_over_payloads() {
    let images = [
        image(1, 1, 32, vec![0; 300]),
        image(1, 1, 32, vec![0; 5]),
        image(1, 1, 32, vec![0; 1]),
    ];
    let ico = build_ico(1, false, &images, true);
    let offset = |k: usize| {
        let at = 6 + 16 * k + 12;
        u32::from_le_bytes([ico[at], ico[at + 1], ico[at + 2], ico[at + 3]])
    };
    assert_eq!(offset(0), 6 + 48);
    assert_eq!(offset(1), 6 + 48 + 300);
    assert_eq!(offset(2), 6 + 48 + 305);
    assert_eq!(ico.len(), 6 + 48 + 306);
}

#[test]
fn round_trip_keeps_cursor_hotspot() {
    let bytes = make_rgba_png_1x1();
    let img = encode_one(&input(true, 7, 9), &bytes).unwrap();
    let ico = build_ico(2, true, &[img], true);
    let entries = read_container(&ico).unwrap();
    assert_eq!(entries.len(), 1);
    let meta = entry_to_meta(1, &entries[0]).unwrap();
    assert!(!meta.is_icon);
    assert_eq!((meta.hotspot_x, meta.hotspot_y), (7, 9));
    assert_eq!((meta.width, meta.height, meta.bit_depth), (1, 1, 32));
    assert_eq!(entries[0].data, bytes);
}

#[test]
fn compat_switch_decides_png_bit_count() {
    let bytes = make_rgba16_png_1x1();
    let img = encode_one(&input(true, 0, 0), &bytes).unwrap();
    let on = build_ico(1, false, &[img.clone()], true);
    let off = build_ico(1, false, &[img], false);
    assert_eq!(u16::from_le_bytes([on[12], on[13]]), 32);
    assert_eq!(u16::from_le_bytes([off[12], off[13]]), 64);
}

#[test]
fn decoded_pixels_are_rgba() {
    let rgb = make_png(2, 1, png::ColorType::Rgb, png::BitDepth::Eight, &[1, 2, 3, 4, 5, 6]);
    assert_eq!(decode_png_rgba(&rgb).unwrap(), (2, 1, vec![1, 2, 3, 255, 4, 5, 6, 255]));
    let gray = make_png(1, 2, png::ColorType::Grayscale, png::BitDepth::Eight, &[9, 200]);
    assert_eq!(decode_png_rgba(&gray).unwrap(), (1, 2, vec![9, 9, 9, 255, 200, 200, 200, 255]));
    let ga = make_png(1, 1, png::ColorType::GrayscaleAlpha, png::BitDepth::Eight, &[9, 77]);
    assert_eq!(decode_png_rgba(&ga).unwrap(), (1, 1, vec![9, 9, 9, 77]));
    let rgba = make_png(1, 1, png::ColorType::Rgba, png::BitDepth::Eight, &[1, 2, 3, 4]);
    assert_eq!(decode_png_rgba(&rgba).unwrap(), (1, 1, vec![1, 2, 3, 4]));
}

#[test]
fn decoding_refuses_what_is_no_png() {
    assert_eq!(decode_png_rgba(b"GIF89a").unwrap_err(), IcoError::NotAPng);
    assert_eq!(decode_png_rgba(&[]).unwrap_err(), IcoError::NotAPng);
}

#[test]
fn decoding_reports_broken_pixel_data() {
    let png = make_rgba_png_1x1();
    // signature, IHDR chunk, then the head of IDAT and two bytes of its data
    let cut = &png[..8 + 25 + 8 + 2];
    assert!(parse_png_info(cut).is_ok());
    assert_eq!(decode_png_rgba(cut).unwrap_err(), IcoError::DecodeFailed);
}

#[test]
fn small_opaque_picture_becomes_a_bitmap() {
    let png = make_png(2, 2, png::ColorType::Rgb, png::BitDepth::Eight, &[255; 12]);
    let img = encode_one(&input(false, 3, 4), &png).unwrap();
    assert!(!is_png_bytes(&img.data));
    let (w, h, bpp, _) = parse_dib_info(&img.data).unwrap();
    assert_eq!((img.width, img.height, img.bit_depth), (w, h, bpp));
    assert_eq!((img.width, img.height), (2, 2));
    assert_eq!((img.hotspot_x, img.hotspot_y), (3, 4));
    assert_ne!(img.data, png);
}

#[test]
fn translucent_picture_becomes_a_png() {
    let img = encode_pixels(1, 1, vec![10, 20, 30, 128], 0, 0).unwrap();
    assert!(is_png_bytes(&img.data));
    assert_eq!((img.width, img.height, img.bit_depth), (1, 1, 32));
    assert_eq!(decode_png_rgba(&img.data).unwrap(), (1, 1, vec![10, 20, 30, 128]));
}

#[test]
fn pixels_of_the_wrong_size_are_not_encoded() {
    assert_eq!(encode_pixels(1, 1, vec![0; 8], 0, 0).unwrap_err(), IcoError::EncodeFailed);
    assert_eq!(encode_pixels(0, 1, vec![], 0, 0).unwrap_err(), IcoError::EncodeFailed);
    assert_eq!(encode_pixels(1, 0, vec![], 0, 0).unwrap_err(), IcoError::EncodeFailed);
    assert_eq!(encode_pixels(2, 2, vec![0; 15], 0, 0).unwrap_err(), IcoError::EncodeFailed);
}

#[test]
fn sixteen_bit_samples_are_not_encoded() {
    let png = make_rgba16_png_1x1();
    assert_eq!(encode_one(&input(false, 0, 0), &png).unwrap_err(), IcoError::EncodeFailed);
}

#[test]
fn payload_is_described_by_its_own_header() {
    let png = make_rgba16_png_1x1();
    let img = describe_payload(png.clone(), 1, 2).unwrap();
    assert_eq!((img.width, img.height, img.bit_depth), (1, 1, 64));
    assert_eq!((img.hotspot_x, img.hotspot_y), (1, 2));
    assert_eq!(img.data, png);
    assert_eq!(describe_payload(vec![1, 2, 3], 0, 0).unwrap_err(), IcoError::Truncated);
}

#[test]
fn container_kind_follows_the_flags() {
    assert_eq!(container_kind(&args(false, false)), (1, false));
    assert_eq!(container_kind(&args(true, false)), (1, false));
    assert_eq!(container_kind(&args(false, true)), (2, true));
    assert_eq!(container_kind(&args(true, true)), (1, false));
}

#[test]
fn frame_too_large_for_any_buffer_is_not_decoded() {
    let mut png = vec![137, 80, 78, 71, 13, 10, 26, 10, 0, 0, 0, 13];
    png.extend_from_slice(b"IHDR");
    png.extend_from_slice(&u32::MAX.to_be_bytes());
    png.extend_from_slice(&u32::MAX.to_be_bytes());
    png.extend_from_slice(&[255, 6, 0, 0, 0, 0, 0, 0, 0]);
    assert_eq!(parse_png_info(&png), Ok((u32::MAX, u32::MAX, 1020)));
    assert_eq!(decode_png_rgba(&png).unwrap_err(), IcoError::DecodeFailed);
}
