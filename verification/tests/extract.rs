use icoutils_rs::container::{entry_to_meta, read_container};
use icoutils_rs::extract::{extract_target, gen_extract_name, strip_ico_cur_ext, ExtractTarget};
use icoutils_rs::parse::is_png_bytes;
use icoutils_rs::types::EntryMeta;

fn make_rgba_png_1x1() -> Vec<u8> {
    let mut buf = Vec::new();
    {
        let mut encoder = png::Encoder::new(&mut buf, 1, 1);
        encoder.set_color(png::ColorType::Rgba);
        encoder.set_depth(png::BitDepth::Eight);
        let mut writer = encoder.write_header().unwrap();
        writer.write_image_data(&[1, 2, 3, 4]).unwrap();
    }
    buf
}

fn build_ico_with_png(png_bytes: &[u8], width: u8, height: u8) -> Vec<u8> {
    let mut out = Vec::new();
    out.extend_from_slice(&0u16.to_le_bytes());
    out.extend_from_slice(&1u16.to_le_bytes());
    out.extend_from_slice(&1u16.to_le_bytes());

    out.push(width);
    out.push(height);
    out.push(0);
    out.push(0);
    out.extend_from_slice(&1u16.to_le_bytes());
    out.extend_from_slice(&32u16.to_le_bytes());
    out.extend_from_slice(&(png_bytes.len() as u32).to_le_bytes());
    out.extend_from_slice(&(6u32 + 16u32).to_le_bytes());

    out.extend_from_slice(png_bytes);
    out
}

fn meta() -> EntryMeta {
    EntryMeta {
        index: 2,
        width: 32,
        height: 48,
        bit_depth: 8,
        palette_size: 256,
        is_icon: true,
        hotspot_x: 0,
        hotspot_y: 0,
    }
}

#[test]
fn extract_raw_png_entry_writes_original_png_bytes() {
    let png_bytes = make_rgba_png_1x1();
    let ico_bytes = build_ico_with_png(&png_bytes, 1, 1);

    let entries = read_container(&ico_bytes).unwrap();
    assert!(is_png_bytes(&entries[0].data));

    let meta = entry_to_meta(1, &entries[0]).unwrap();
    let name = gen_extract_name("a/b/c.ico", &meta);
    assert_eq!(name, "c_1_1x1x32.png");
    let name2 = match extract_target(r"a\b\c.CUR", Some("outdir"), true, &meta) {
        ExtractTarget::InDirectory { directory, file_name } => format!(r"{}\{}", directory, file_name),
        other => panic!("not a file in a directory: {:?}", other),
    };
    assert!(name2.ends_with(r"outdir\c_1_1x1x32.png"));

    let data = &entries[0].data;
    assert_eq!(data.as_slice(), png_bytes.as_slice());
}

#[test]
fn extension_is_stripped_in_any_case() {
    assert_eq!(strip_ico_cur_ext("a.ico"), "a");
    assert_eq!(strip_ico_cur_ext("a.cur"), "a");
    assert_eq!(strip_ico_cur_ext("a.ICO"), "a");
    assert_eq!(strip_ico_cur_ext("a.CuR"), "a");
    assert_eq!(strip_ico_cur_ext("a.iCo"), "a");
    assert_eq!(strip_ico_cur_ext(".ico"), "");
    assert_eq!(strip_ico_cur_ext("a.b.cur"), "a.b");
    assert_eq!(strip_ico_cur_ext("gr\u{fc}n.ico"), "gr\u{fc}n");
}

#[test]
fn other_endings_are_kept() {
    assert_eq!(strip_ico_cur_ext("a.png"), "a.png");
    assert_eq!(strip_ico_cur_ext("a.icon"), "a.icon");
    assert_eq!(strip_ico_cur_ext("aico"), "aico");
    assert_eq!(strip_ico_cur_ext("ico"), "ico");
    assert_eq!(strip_ico_cur_ext("a.icr"), "a.icr");
    assert_eq!(strip_ico_cur_ext("a.cuo"), "a.cuo");
    assert_eq!(strip_ico_cur_ext("a.ico "), "a.ico ");
    assert_eq!(strip_ico_cur_ext(""), "");
    assert_eq!(strip_ico_cur_ext("a.\u{131}co"), "a.\u{131}co");
}

#[test]
fn name_is_made_of_stem_and_numbers() {
    assert_eq!(gen_extract_name("app.ico", &meta()), "app_2_32x48x8.png");
    assert_eq!(gen_extract_name("app", &meta()), "app_2_32x48x8.png");
    assert_eq!(gen_extract_name("", &meta()), "_2_32x48x8.png");
    assert_eq!(gen_extract_name("(standard in)", &meta()), "(standard in)_2_32x48x8.png");
}

#[test]
fn name_drops_the_directories() {
    assert_eq!(gen_extract_name("/usr/share/app.ico", &meta()), "app_2_32x48x8.png");
    assert_eq!(gen_extract_name(r"C:\icons\app.CUR", &meta()), "app_2_32x48x8.png");
    assert_eq!(gen_extract_name(r"a/b\c/d.ico", &meta()), "d_2_32x48x8.png");
    assert_eq!(gen_extract_name(r"a\b/c", &meta()), "c_2_32x48x8.png");
    assert_eq!(gen_extract_name("dir.ico/", &meta()), "_2_32x48x8.png");
    assert_eq!(gen_extract_name("dir.ico/x", &meta()), "x_2_32x48x8.png");
}

#[test]
fn target_without_output_is_the_generated_name() {
    match extract_target("x/app.ico", None, false, &meta()) {
        ExtractTarget::Path(p) => assert_eq!(p, "app_2_32x48x8.png"),
        other => panic!("unexpected target {:?}", other),
    }
}

#[test]
fn target_in_a_directory() {
    match extract_target("x/app.ico", Some("out"), true, &meta()) {
        ExtractTarget::InDirectory { directory, file_name } => {
            assert_eq!(directory, "out");
            assert_eq!(file_name, "app_2_32x48x8.png");
        },
        other => panic!("unexpected target {:?}", other),
    }
    // a directory named "-" is a directory
    assert!(matches!(
        extract_target("app.ico", Some("-"), true, &meta()),
        ExtractTarget::InDirectory { .. }
    ));
}

#[test]
fn target_dash_is_standard_out() {
    assert!(matches!(
        extract_target("app.ico", Some("-"), false, &meta()),
        ExtractTarget::StandardOut
    ));
}

#[test]
fn target_is_the_named_file() {
    match extract_target("app.ico", Some("out.png"), false, &meta()) {
        ExtractTarget::Path(p) => assert_eq!(p, "out.png"),
        other => panic!("unexpected target {:?}", other),
    }
    match extract_target("app.ico", Some("--"), false, &meta()) {
        ExtractTarget::Path(p) => assert_eq!(p, "--"),
        other => panic!("unexpected target {:?}", other),
    }
}
