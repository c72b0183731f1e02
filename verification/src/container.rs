use crate::codec::{ico_directory, read_directory};
use crate::error::{ContainerError, EntryError};
use crate::parse::{
    as_signed32, dib_info, has_png_signature, is_png_bytes, parse_dib_info, parse_png_info,
    png_info, to_signed32,
};
use crate::types::{EntryMeta, ParsedArgs};
use vstd::prelude::*;

verus! {

/// One entry of a container as the directory gives it.
#[derive(Clone, Debug)]
pub struct ContainerEntry {
    /// The entry belongs to an icon file, not to a cursor file.
    pub is_icon: bool,
    /// The hotspot that the directory stores; a cursor file has one for
    /// every entry, an icon file has none.
    pub hotspot: Option<(u16, u16)>,
    /// The payload: a PNG stream, or a bitmap that starts with its
    /// information header.
    pub data: Vec<u8>,
}

/// The mathematical value of a [`ContainerEntry`].
pub struct ContainerEntryView {
    pub is_icon: bool,
    pub hotspot: Option<(u16, u16)>,
    pub data: Seq<u8>,
}

impl View for ContainerEntry {
    type V = ContainerEntryView;

    open spec fn view(&self) -> ContainerEntryView {
        ContainerEntryView { is_icon: self.is_icon, hotspot: self.hotspot, data: self.data@ }
    }
}

/// The values of a sequence of entries, in the same order.
pub open spec fn entry_views(entries: Seq<ContainerEntry>) -> Seq<ContainerEntryView> {
    entries.map_values(|e: ContainerEntry| e@)
}

/// Reads the entries of an icon or cursor file. There are never more than
/// 65535 of them.
pub fn read_container(bytes: &[u8]) -> (r: Result<Vec<ContainerEntry>, ContainerError>)
    ensures
        match r {
            Ok(entries) => ico_directory(bytes@) == Some(entry_views(entries@)) && entries.len()
                <= 0xffff,
            Err(e) => e == ContainerError::NotAContainer && ico_directory(bytes@) is None,
        },
{
    match read_directory(bytes) {
        Some(entries) => Ok(entries),
        None => Err(ContainerError::NotAContainer),
    }
}

// ---------------------------------------------------------------------------
// What is known of one entry
// ---------------------------------------------------------------------------

/// The hotspot that an entry stores, and (0, 0) where it stores none.
pub open spec fn stored_hotspot(entry: ContainerEntryView) -> (i32, i32) {
    match entry.hotspot {
        Some(h) => (h.0 as i32, h.1 as i32),
        None => (0i32, 0i32),
    }
}

/// What is known of the entry at place `index`, read from its payload: from
/// the `IHDR` of a PNG stream, which has no palette to speak of, and from
/// the bitmap header of anything else. A payload whose header cannot be read
/// gives the error of the header reader, with the place of the entry.
pub open spec fn entry_meta(index: i32, entry: ContainerEntryView) -> Result<
    EntryMeta,
    EntryError,
> {
    let hotspot = stored_hotspot(entry);
    if has_png_signature(entry.data) {
        match png_info(entry.data) {
            Err(e) => Err(EntryError { index, error: e }),
            Ok(info) => Ok(
                EntryMeta {
                    index,
                    width: as_signed32(info.0 as int) as i32,
                    height: as_signed32(info.1 as int) as i32,
                    bit_depth: as_signed32(info.2 as int) as i32,
                    palette_size: 0,
                    is_icon: entry.is_icon,
                    hotspot_x: hotspot.0,
                    hotspot_y: hotspot.1,
                },
            ),
        }
    } else {
        match dib_info(entry.data) {
            Err(e) => Err(EntryError { index, error: e }),
            Ok(info) => Ok(
                EntryMeta {
                    index,
                    width: as_signed32(info.0 as int) as i32,
                    height: as_signed32(info.1 as int) as i32,
                    bit_depth: as_signed32(info.2 as int) as i32,
                    palette_size: as_signed32(info.3 as int) as i32,
                    is_icon: entry.is_icon,
                    hotspot_x: hotspot.0,
                    hotspot_y: hotspot.1,
                },
            ),
        }
    }
}

/// Describes the entry at place `index` (counted from 1) of a container.
pub fn entry_to_meta(index: i32, entry: &ContainerEntry) -> (r: Result<EntryMeta, EntryError>)
    ensures
        r == entry_meta(index, entry@),
{
    let (hotspot_x, hotspot_y): (i32, i32) = match entry.hotspot {
        Some((x, y)) => (x as i32, y as i32),
        None => (0, 0),
    };
    let is_icon: bool = entry.is_icon;
    if is_png_bytes(entry.data.as_slice()) {
        match parse_png_info(entry.data.as_slice()) {
            Err(e) => Err(EntryError { index, error: e }),
            Ok((w, h, bpp)) => Ok(
                EntryMeta {
                    index,
                    width: to_signed32(w),
                    height: to_signed32(h),
                    bit_depth: to_signed32(bpp),
                    palette_size: 0,
                    is_icon,
                    hotspot_x,
                    hotspot_y,
                },
            ),
        }
    } else {
        match parse_dib_info(entry.data.as_slice()) {
            Err(e) => Err(EntryError { index, error: e }),
            Ok((w, h, bpp, palette)) => Ok(
                EntryMeta {
                    index,
                    width: to_signed32(w),
                    height: to_signed32(h),
                    bit_depth: to_signed32(bpp),
                    palette_size: to_signed32(palette),
                    is_icon,
                    hotspot_x,
                    hotspot_y,
                },
            ),
        }
    }
}

// ---------------------------------------------------------------------------
// Selecting entries
// ---------------------------------------------------------------------------

/// Whether a value meets a criterion, of which -1 means "any".
pub open spec fn criterion_met(wanted: i32, actual: i32) -> bool {
    wanted == -1 || actual == wanted
}

/// The hotspot that counts when entries are selected: an icon has none, so
/// (0, 0) is taken for it whatever is stored.
pub open spec fn effective_hotspot(meta: EntryMeta) -> (i32, i32) {
    if meta.is_icon {
        (0i32, 0i32)
    } else {
        (meta.hotspot_x, meta.hotspot_y)
    }
}

/// Whether an entry is selected by the arguments: every criterion that is
/// given is met exactly, the entry is of the kind asked for, and where a
/// hotspot coordinate is given the entry has it.
pub open spec fn entry_matches(args: ParsedArgs, meta: EntryMeta) -> bool {
    &&& criterion_met(args.image_index, meta.index)
    &&& criterion_met(args.width, meta.width)
    &&& criterion_met(args.height, meta.height)
    &&& criterion_met(args.bit_depth, meta.bit_depth)
    &&& criterion_met(args.palette_size, meta.palette_size)
    &&& (args.icon_only ==> meta.is_icon)
    &&& (args.cursor_only ==> !meta.is_icon)
    &&& (args.hotspot_x_set ==> effective_hotspot(meta).0 == args.hotspot_x)
    &&& (args.hotspot_y_set ==> effective_hotspot(meta).1 == args.hotspot_y)
}

/// Tells whether an entry is selected by the arguments.
pub fn matches_filters(args: &ParsedArgs, meta: &EntryMeta) -> (r: bool)
    ensures
        r == entry_matches(*args, *meta),
{
    if args.image_index != -1 && meta.index != args.image_index {
        return false;
    }
    if args.width != -1 && meta.width != args.width {
        return false;
    }
    if args.height != -1 && meta.height != args.height {
        return false;
    }
    if args.bit_depth != -1 && meta.bit_depth != args.bit_depth {
        return false;
    }
    if args.palette_size != -1 && meta.palette_size != args.palette_size {
        return false;
    }
    if (args.icon_only && !meta.is_icon) || (args.cursor_only && meta.is_icon) {
        return false;
    }
    let (hx, hy): (i32, i32) = if meta.is_icon {
        (0, 0)
    } else {
        (meta.hotspot_x, meta.hotspot_y)
    };
    if args.hotspot_x_set && hx != args.hotspot_x {
        return false;
    }
    if args.hotspot_y_set && hy != args.hotspot_y {
        return false;
    }
    true
}

/// Whether the entry at position `k` (counted from 0) can be described and
/// is not selected.
pub open spec fn passed_over(entries: Seq<ContainerEntryView>, args: ParsedArgs, k: int) -> bool {
    match entry_meta((k + 1) as i32, entries[k]) {
        Ok(meta) => !entry_matches(args, meta),
        Err(_) => false,
    }
}

/// Finds the first selected entry at or behind position `from` (counted
/// from 0), with what is known of it.
///
/// Every entry on the way is described, selected or not; the first one whose
/// header cannot be read ends the search with its error.
pub fn next_selected(entries: &[ContainerEntry], from: usize, args: &ParsedArgs) -> (r: Result<
    Option<(usize, EntryMeta)>,
    EntryError,
>)
    requires
        entries.len() <= 0xffff,
    ensures
        match r {
            Ok(Some(found)) => {
                &&& from <= found.0 < entries.len()
                &&& entry_meta((found.0 + 1) as i32, entries[found.0 as int]@) == Ok::<
                    EntryMeta,
                    EntryError,
                >(found.1)
                &&& entry_matches(*args, found.1)
                &&& forall|k: int| from <= k < found.0 ==> passed_over(entry_views(entries@), *args, k)
            },
            Ok(None) => forall|k: int|
                from <= k < entries.len() ==> passed_over(entry_views(entries@), *args, k),
            Err(e) => exists|at: int|
                {
                    &&& from <= at < entries.len()
                    &&& #[trigger] entry_meta((at + 1) as i32, entries[at]@) == Err::<
                        EntryMeta,
                        EntryError,
                    >(e)
                    &&& forall|k: int| from <= k < at ==> passed_over(entry_views(entries@), *args, k)
                },
        },
{
    let mut i: usize = from;
    while i < entries.len()
        invariant
            from <= i,
            entries.len() <= 0xffff,
            forall|k: int| from <= k < i && k < entries.len() ==> passed_over(entry_views(entries@), *args, k),
        decreases entries.len() - i,
    {
        assert(entry_views(entries@)[i as int] == entries[i as int]@);
        match entry_to_meta((i + 1) as i32, &entries[i]) {
            Err(e) => {
                return Err(e);
            },
            Ok(meta) => {
                if matches_filters(args, &meta) {
                    return Ok(Some((i, meta)));
                }
            },
        }
        i += 1;
    }
    Ok(None)
}

/// Asking for icons only leaves out every cursor, whatever else is asked.
pub proof fn lemma_icon_only_excludes_cursors(args: ParsedArgs, meta: EntryMeta)
    requires
        args.icon_only,
        !meta.is_icon,
    ensures
        !entry_matches(args, meta),
{
}

/// Asking for cursors only leaves out every icon, whatever else is asked.
pub proof fn lemma_cursor_only_excludes_icons(args: ParsedArgs, meta: EntryMeta)
    requires
        args.cursor_only,
        meta.is_icon,
    ensures
        !entry_matches(args, meta),
{
}

/// While no hotspot coordinate is asked for, the hotspot of an entry has no
/// say in whether it is selected.
pub proof fn lemma_unset_hotspot_matches_any(
    args: ParsedArgs,
    meta: EntryMeta,
    hotspot_x: i32,
    hotspot_y: i32,
)
    requires
        !args.hotspot_x_set,
        !args.hotspot_y_set,
    ensures
        entry_matches(args, meta) == entry_matches(
            args,
            EntryMeta { hotspot_x, hotspot_y, ..meta },
        ),
{
}

/// The hotspot stored with an icon has no say in whether it is selected: an
/// icon is matched as if its hotspot were (0, 0).
pub proof fn lemma_icon_hotspot_is_ignored(
    args: ParsedArgs,
    meta: EntryMeta,
    hotspot_x: i32,
    hotspot_y: i32,
)
    requires
        meta.is_icon,
    ensures
        entry_matches(args, meta) == entry_matches(
            args,
            EntryMeta { hotspot_x, hotspot_y, ..meta },
        ),
{
}

/// With nothing asked for, every entry is selected.
pub proof fn lemma_no_criteria_match_all(args: ParsedArgs, meta: EntryMeta)
    requires
        args.image_index == -1,
        args.width == -1,
        args.height == -1,
        args.bit_depth == -1,
        args.palette_size == -1,
        !args.icon_only,
        !args.cursor_only,
        !args.hotspot_x_set,
        !args.hotspot_y_set,
    ensures
        entry_matches(args, meta),
{
}

} // verus!
