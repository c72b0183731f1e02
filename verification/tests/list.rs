use icoutils_rs::container::{
    entry_to_meta, matches_filters, next_selected, read_container, ContainerEntry,
};
use icoutils_rs::error::{ContainerError, EntryError, IcoError};
use icoutils_rs::list::{format_list_line, list_entries, list_from_bytes};
use icoutils_rs::types::{Command, EntryMeta, ParsedArgs};

const SIGNATURE: [u8; 8] = [137, 80, 78, 71, 13, 10, 26, 10];

fn no_criteria() -> ParsedArgs {
    ParsedArgs {
        command: Command::List,
        output: None,
        image_index: -1,
        width: -1,
        height: -1,
        bit_depth: -1,
        palette_size: -1,
        hotspot_x: 0,
        hotspot_y: 0,
        hotspot_x_set: false,
        hotspot_y_set: false,
        alpha_threshold: 127,
        icon_only: false,
        cursor_only: false,
        compat_png_bitcount: true,
        files: vec![],
        create_inputs: vec![],
    }
}

fn meta(index: i32, width: i32, is_icon: bool, hotspot: (i32, i32)) -> EntryMeta {
    EntryMeta {
        index,
        width,
        height: width,
        bit_depth: 32,
        palette_size: 0,
        is_icon,
        hotspot_x: hotspot.0,
        hotspot_y: hotspot.1,
    }
}

fn png_payload(width: u32, height: u32, bit_depth: u8, color_type: u8) -> Vec<u8> {
    let mut out = SIGNATURE.to_vec();
    out.extend_from_slice(&[0, 0, 0, 13]);
    out.extend_from_slice(b"IHDR");
    out.extend_from_slice(&width.to_be_bytes());
    out.extend_from_slice(&height.to_be_bytes());
    out.extend_from_slice(&[bit_depth, color_type, 0, 0, 0]);
    out.extend_from_slice(&[0, 0, 0, 0]);
    out
}

fn dib_payload(width: i32, height: i32, bit_count: u16, clr_used: u32) -> Vec<u8> {
    let mut out = Vec::new();
    out.extend_from_slice(&40u32.to_le_bytes());
    out.extend_from_slice(&width.to_le_bytes());
    out.extend_from_slice(&height.to_le_bytes());
    out.extend_from_slice(&1u16.to_le_bytes());
    out.extend_from_slice(&bit_count.to_le_bytes());
    out.extend_from_slice(&[0; 16]);
    out.extend_from_slice(&clr_used.to_le_bytes());
    out.extend_from_slice(&[0; 4]);
    out
}

fn icon(data: Vec<u8>) -> ContainerEntry {
    ContainerEntry { is_icon: true, hotspot: None, data }
}

fn cursor(data: Vec<u8>, hotspot: (u16, u16)) -> ContainerEntry {
    ContainerEntry { is_icon: false, hotspot: Some(hotspot), data }
}

#[test]
fn list_single_icon_entry() {
    let mut dir = ico::IconDir::new(ico::ResourceType::Icon);
    let image = ico::IconImage::from_rgba_data(16, 16, vec![0u8; 4 * 16 * 16]);
    dir.add_entry(ico::IconDirEntry::encode(&image).unwrap());
    let mut bytes = Vec::new();
    dir.write(&mut bytes).unwrap();

    let args = ParsedArgs {
        command: Command::List,
        output: None,
        image_index: -1,
        width: -1,
        height: -1,
        bit_depth: -1,
        palette_size: -1,
        hotspot_x: 0,
        hotspot_y: 0,
        hotspot_x_set: false,
        hotspot_y_set: false,
        alpha_threshold: 127,
        icon_only: false,
        cursor_only: false,
        compat_png_bitcount: true,
        files: vec![],
        create_inputs: vec![],
    };

    let (matched, lines) = list_from_bytes(&bytes, &args).unwrap();
    assert_eq!(matched, 1);
    assert!(lines[0].starts_with("--icon --index=1 --width=16 --height=16 "));
}

#[test]
fn list_line_of_an_icon() {
    let m = EntryMeta {
        index: 3,
        width: 48,
        height: 32,
        bit_depth: 8,
        palette_size: 256,
        is_icon: true,
        hotspot_x: 5,
        hotspot_y: 6,
    };
    assert_eq!(
        format_list_line(&m),
        "--icon --index=3 --width=48 --height=32 --bit-depth=8 --palette-size=256"
    );
}

#[test]
fn list_line_of_a_cursor_names_the_hotspot() {
    let m = EntryMeta {
        index: 1,
        width: 32,
        height: 32,
        bit_depth: 32,
        palette_size: 0,
        is_icon: false,
        hotspot_x: 7,
        hotspot_y: 65535,
    };
    assert_eq!(
        format_list_line(&m),
        "--cursor --index=1 --width=32 --height=32 --bit-depth=32 --palette-size=0 --hotspot-x=7 --hotspot-y=65535"
    );
}

#[test]
fn list_line_writes_numbers_in_full() {
    let m = EntryMeta {
        index: 10,
        width: i32::MAX,
        height: i32::MIN,
        bit_depth: -1,
        palette_size: 1000000,
        is_icon: true,
        hotspot_x: 0,
        hotspot_y: 0,
    };
    assert_eq!(
        format_list_line(&m),
        "--icon --index=10 --width=2147483647 --height=-2147483648 --bit-depth=-1 --palette-size=1000000"
    );
}

#[test]
fn width_criterion_selects_exactly() {
    let mut args = no_criteria();
    args.width = 32;
    let widths = [16, 32, 48];
    let selected: Vec<i32> = (1..=3)
        .filter(|i| matches_filters(&args, &meta(*i, widths[(*i - 1) as usize], true, (0, 0))))
        .collect();
    assert_eq!(selected, vec![2]);
}

#[test]
fn every_criterion_is_an_exact_match() {
    let m = EntryMeta {
        index: 2,
        width: 32,
        height: 24,
        bit_depth: 8,
        palette_size: 256,
        is_icon: true,
        hotspot_x: 0,
        hotspot_y: 0,
    };
    assert!(matches_filters(&no_criteria(), &m));
    let check = |set: fn(&mut ParsedArgs, i32), good: i32| {
        let mut args = no_criteria();
        set(&mut args, good);
        assert!(matches_filters(&args, &m));
        set(&mut args, good + 1);
        assert!(!matches_filters(&args, &m));
        set(&mut args, good - 1);
        assert!(!matches_filters(&args, &m));
    };
    check(|a, v| a.image_index = v, 2);
    check(|a, v| a.width = v, 32);
    check(|a, v| a.height = v, 24);
    check(|a, v| a.bit_depth = v, 8);
    check(|a, v| a.palette_size = v, 256);
}

#[test]
fn icon_only_excludes_cursors() {
    let mut args = no_criteria();
    args.icon_only = true;
    assert!(matches_filters(&args, &meta(1, 16, true, (0, 0))));
    assert!(!matches_filters(&args, &meta(1, 16, false, (0, 0))));
    args.width = 16;
    args.image_index = 1;
    assert!(!matches_filters(&args, &meta(1, 16, false, (0, 0))));
}

#[test]
fn cursor_only_excludes_icons() {
    let mut args = no_criteria();
    args.cursor_only = true;
    assert!(!matches_filters(&args, &meta(1, 16, true, (0, 0))));
    assert!(matches_filters(&args, &meta(1, 16, false, (3, 4))));
}

#[test]
fn unset_hotspot_matches_any_hotspot() {
    let mut args = no_criteria();
    args.hotspot_x = 1;
    args.hotspot_y = 2;
    assert!(matches_filters(&args, &meta(1, 16, false, (0, 0))));
    assert!(matches_filters(&args, &meta(1, 16, false, (7, 9))));
    assert!(matches_filters(&args, &meta(1, 16, false, (65535, 65535))));
}

#[test]
fn set_hotspot_must_be_met() {
    let mut args = no_criteria();
    args.hotspot_x = 7;
    args.hotspot_x_set = true;
    assert!(matches_filters(&args, &meta(1, 16, false, (7, 9))));
    assert!(!matches_filters(&args, &meta(1, 16, false, (8, 9))));
    args.hotspot_y = 9;
    args.hotspot_y_set = true;
    assert!(matches_filters(&args, &meta(1, 16, false, (7, 9))));
    assert!(!matches_filters(&args, &meta(1, 16, false, (7, 10))));
}

#[test]
fn icon_hotspot_counts_as_zero() {
    let mut args = no_criteria();
    args.hotspot_x = 7;
    args.hotspot_x_set = true;
    assert!(!matches_filters(&args, &meta(1, 16, true, (7, 0))));
    args.hotspot_x = 0;
    assert!(matches_filters(&args, &meta(1, 16, true, (7, 0))));
    assert!(matches_filters(&args, &meta(1, 16, true, (1, 1))));
}

#[test]
fn meta_of_a_png_entry() {
    let entry = cursor(png_payload(64, 48, 16, 6), (3, 4));
    assert_eq!(
        entry_to_meta(5, &entry),
        Ok(EntryMeta {
            index: 5,
            width: 64,
            height: 48,
            bit_depth: 64,
            palette_size: 0,
            is_icon: false,
            hotspot_x: 3,
            hotspot_y: 4,
        })
    );
}

#[test]
fn meta_of_a_bitmap_entry() {
    let entry = icon(dib_payload(16, 32, 4, 0));
    assert_eq!(
        entry_to_meta(1, &entry),
        Ok(EntryMeta {
            index: 1,
            width: 16,
            height: 16,
            bit_depth: 4,
            palette_size: 16,
            is_icon: true,
            hotspot_x: 0,
            hotspot_y: 0,
        })
    );
}

#[test]
fn payload_kind_goes_by_all_eight_signature_bytes() {
    // the first four bytes of the signature alone do not make a PNG payload:
    // the entry is read as a bitmap header, whose plane count is then zero
    let mut data = vec![0x89, b'P', b'N', b'G', 0, 0, 0, 0];
    data.extend_from_slice(&[0; 40]);
    assert_eq!(
        entry_to_meta(1, &icon(data)),
        Err(EntryError { index: 1, error: IcoError::InvalidPlanes })
    );
}

#[test]
fn meta_error_carries_the_place() {
    let entry = icon(dib_payload(0, 32, 4, 0));
    assert_eq!(
        entry_to_meta(7, &entry),
        Err(EntryError { index: 7, error: IcoError::InvalidWidth })
    );
    let entry = icon(SIGNATURE.to_vec());
    assert_eq!(
        entry_to_meta(2, &entry),
        Err(EntryError { index: 2, error: IcoError::Truncated })
    );
    assert_eq!(EntryError { index: 2, error: IcoError::Truncated }.message(), "premature end");
}

#[test]
fn entries_are_listed_in_order() {
    let entries = vec![
        icon(png_payload(16, 16, 8, 6)),
        icon(dib_payload(32, 64, 8, 0)),
        icon(png_payload(48, 48, 8, 2)),
    ];
    let (matched, lines) = list_entries(&entries, &no_criteria()).unwrap();
    assert_eq!(matched, 3);
    assert_eq!(
        lines,
        vec![
            "--icon --index=1 --width=16 --height=16 --bit-depth=32 --palette-size=0",
            "--icon --index=2 --width=32 --height=32 --bit-depth=8 --palette-size=256",
            "--icon --index=3 --width=48 --height=48 --bit-depth=24 --palette-size=0",
        ]
    );
    let mut args = no_criteria();
    args.width = 32;
    let (matched, lines) = list_entries(&entries, &args).unwrap();
    assert_eq!(matched, 1);
    assert_eq!(
        lines,
        vec!["--icon --index=2 --width=32 --height=32 --bit-depth=8 --palette-size=256"]
    );
    args.width = 33;
    assert_eq!(list_entries(&entries, &args), Ok((0, vec![])));
    assert_eq!(list_entries(&[], &no_criteria()), Ok((0, vec![])));
}

#[test]
fn first_unreadable_entry_stops_the_listing() {
    let entries = vec![
        icon(png_payload(16, 16, 8, 6)),
        icon(dib_payload(32, 64, 8, 0)[..20].to_vec()),
        icon(vec![]),
    ];
    assert_eq!(
        list_entries(&entries, &no_criteria()),
        Err(EntryError { index: 2, error: IcoError::Truncated })
    );
    // an entry that is not selected is read all the same
    let mut args = no_criteria();
    args.image_index = 1;
    assert_eq!(
        list_entries(&entries, &args),
        Err(EntryError { index: 2, error: IcoError::Truncated })
    );
}

#[test]
fn what_is_no_container_is_not_listed() {
    assert_eq!(list_from_bytes(b"", &no_criteria()), Err(ContainerError::NotAContainer));
    assert_eq!(
        list_from_bytes(b"\x01\x00\x01\x00\x00\x00", &no_criteria()),
        Err(ContainerError::NotAContainer)
    );
    assert_eq!(read_container(b"GIF89a").unwrap_err(), ContainerError::NotAContainer);
    assert_eq!(ContainerError::NotAContainer.message(), "not an icon or cursor file");
    assert_eq!(
        ContainerError::Entry(EntryError { index: 1, error: IcoError::InvalidPlanes }).message(),
        "planes field in bitmap should be one"
    );
}

#[test]
fn empty_container_lists_nothing() {
    assert_eq!(list_from_bytes(b"\x00\x00\x01\x00\x00\x00", &no_criteria()), Ok((0, vec![])));
    assert_eq!(read_container(b"\x00\x00\x02\x00\x00\x00").unwrap().len(), 0);
}

#[test]
fn container_entries_are_read_back() {
    let png = png_payload(16, 16, 8, 6);
    let mut bytes = vec![0, 0, 2, 0, 1, 0];
    bytes.extend_from_slice(&[16, 16, 0, 0, 5, 0, 6, 0]);
    bytes.extend_from_slice(&(png.len() as u32).to_le_bytes());
    bytes.extend_from_slice(&22u32.to_le_bytes());
    bytes.extend_from_slice(&png);
    let entries = read_container(&bytes).unwrap();
    assert_eq!(entries.len(), 1);
    assert!(!entries[0].is_icon);
    assert_eq!(entries[0].hotspot, Some((5, 6)));
    assert_eq!(entries[0].data, png);
    let (matched, lines) = list_from_bytes(&bytes, &no_criteria()).unwrap();
    assert_eq!(matched, 1);
    assert_eq!(
        lines,
        vec!["--cursor --index=1 --width=16 --height=16 --bit-depth=32 --palette-size=0 --hotspot-x=5 --hotspot-y=6"]
    );
}

#[test]
fn unreadable_entry_fails_the_file() {
    let mut bytes = vec![0, 0, 1, 0, 1, 0];
    bytes.extend_from_slice(&[16, 16, 0, 0, 1, 0, 32, 0]);
    bytes.extend_from_slice(&3u32.to_le_bytes());
    bytes.extend_from_slice(&22u32.to_le_bytes());
    bytes.extend_from_slice(&[1, 2, 3]);
    assert_eq!(
        list_from_bytes(&bytes, &no_criteria()),
        Err(ContainerError::Entry(EntryError { index: 1, error: IcoError::Truncated }))
    );
}

#[test]
fn selected_entries_are_found_one_by_one() {
    let entries = vec![
        icon(png_payload(16, 16, 8, 6)),
        icon(dib_payload(32, 64, 8, 0)),
        icon(png_payload(16, 16, 8, 2)),
        icon(vec![]),
    ];
    let mut args = no_criteria();
    args.width = 16;
    let first = next_selected(&entries, 0, &args).unwrap().unwrap();
    assert_eq!((first.0, first.1.index, first.1.bit_depth), (0, 1, 32));
    let second = next_selected(&entries, 1, &args).unwrap().unwrap();
    assert_eq!((second.0, second.1.index, second.1.bit_depth), (2, 3, 24));
    assert_eq!(
        next_selected(&entries, 3, &args),
        Err(EntryError { index: 4, error: IcoError::Truncated })
    );
    assert_eq!(next_selected(&entries, 4, &args), Ok(None));
    assert_eq!(next_selected(&entries, 9, &args), Ok(None));
    args.width = 99;
    assert_eq!(next_selected(&entries[..3], 0, &args), Ok(None));
    assert_eq!(
        next_selected(&entries, 0, &args),
        Err(EntryError { index: 4, error: IcoError::Truncated })
    );
}
