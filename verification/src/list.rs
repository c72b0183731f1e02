use crate::codec::ico_directory;
use crate::container::{
    entry_matches, entry_meta, entry_to_meta, entry_views, matches_filters, read_container,
    ContainerEntry, ContainerEntryView,
};
use crate::error::{ContainerError, EntryError};
use crate::text::{decimal, push_decimal};
use crate::types::{string_views, EntryMeta, ParsedArgs};
use vstd::prelude::*;
use vstd::string::StringExecFns;

verus! {

/// The line that describes one entry: the options that would select it.
/// The hotspot is named for a cursor only.
pub open spec fn list_line(meta: EntryMeta) -> Seq<char> {
    (if meta.is_icon {
        "--icon"@
    } else {
        "--cursor"@
    }) + " --index="@ + decimal(meta.index as int) + " --width="@ + decimal(meta.width as int)
        + " --height="@ + decimal(meta.height as int) + " --bit-depth="@ + decimal(
        meta.bit_depth as int,
    ) + " --palette-size="@ + decimal(meta.palette_size as int) + (if meta.is_icon {
        Seq::<char>::empty()
    } else {
        " --hotspot-x="@ + decimal(meta.hotspot_x as int) + " --hotspot-y="@ + decimal(
            meta.hotspot_y as int,
        )
    })
}

/// Writes the line that describes one entry.
pub fn format_list_line(meta: &EntryMeta) -> (line: String)
    ensures
        line@ == list_line(*meta),
{
    let mut line: String = String::new();
    if meta.is_icon {
        line.append("--icon");
    } else {
        line.append("--cursor");
    }
    line.append(" --index=");
    push_decimal(&mut line, meta.index);
    line.append(" --width=");
    push_decimal(&mut line, meta.width);
    line.append(" --height=");
    push_decimal(&mut line, meta.height);
    line.append(" --bit-depth=");
    push_decimal(&mut line, meta.bit_depth);
    line.append(" --palette-size=");
    push_decimal(&mut line, meta.palette_size);
    if !meta.is_icon {
        line.append(" --hotspot-x=");
        push_decimal(&mut line, meta.hotspot_x);
        line.append(" --hotspot-y=");
        push_decimal(&mut line, meta.hotspot_y);
    }
    assert(line@ =~= list_line(*meta));
    line
}

/// The lines for the selected ones among the first `k` entries, in the order
/// of the container. Where the header of an entry cannot be read, the error
/// of the first such entry takes the place of the lines.
pub open spec fn listed_lines(entries: Seq<ContainerEntryView>, args: ParsedArgs, k: int) -> Result<
    Seq<Seq<char>>,
    EntryError,
>
    decreases k,
{
    if k <= 0 {
        Ok(Seq::empty())
    } else {
        match listed_lines(entries, args, k - 1) {
            Err(e) => Err(e),
            Ok(lines) => match entry_meta(k as i32, entries[k - 1]) {
                Err(e) => Err(e),
                Ok(meta) => if entry_matches(args, meta) {
                    Ok(lines.push(list_line(meta)))
                } else {
                    Ok(lines)
                },
            },
        }
    }
}

/// The listing of a file: the lines of its selected entries, or why it has
/// none to show.
pub open spec fn listing(bytes: Seq<u8>, args: ParsedArgs) -> Result<
    Seq<Seq<char>>,
    ContainerError,
> {
    match ico_directory(bytes) {
        None => Err(ContainerError::NotAContainer),
        Some(entries) => match listed_lines(entries, args, entries.len() as int) {
            Ok(lines) => Ok(lines),
            Err(e) => Err(ContainerError::Entry(e)),
        },
    }
}

/// Describes the selected entries of a container, one line each, and counts
/// them.
pub fn list_entries(entries: &[ContainerEntry], args: &ParsedArgs) -> (r: Result<
    (usize, Vec<String>),
    EntryError,
>)
    requires
        entries.len() <= 0xffff,
    ensures
        match r {
            Ok(found) => listed_lines(entry_views(entries@), *args, entries.len() as int) == Ok::<
                Seq<Seq<char>>,
                EntryError,
            >(string_views(found.1@)) && found.0 == found.1.len(),
            Err(e) => listed_lines(entry_views(entries@), *args, entries.len() as int) == Err::<
                Seq<Seq<char>>,
                EntryError,
            >(e),
        },
{
    let ghost views = entry_views(entries@);
    let mut lines: Vec<String> = Vec::new();
    let mut i: usize = 0;
    assert(string_views(lines@) =~= Seq::<Seq<char>>::empty());
    while i < entries.len()
        invariant
            i <= entries.len(),
            entries.len() <= 0xffff,
            views == entry_views(entries@),
            listed_lines(views, *args, i as int) == Ok::<Seq<Seq<char>>, EntryError>(
                string_views(lines@),
            ),
        decreases entries.len() - i,
    {
        let index: i32 = (i + 1) as i32;
        assert(views[i as int] == entries[i as int]@);
        match entry_to_meta(index, &entries[i]) {
            Err(e) => {
                assert(listed_lines(views, *args, i + 1) == Err::<Seq<Seq<char>>, EntryError>(e));
                proof {
                    lemma_listing_fails_for_good(views, *args, i + 1, entries.len() as int);
                }
                return Err(e);
            },
            Ok(meta) => {
                if matches_filters(args, &meta) {
                    let ghost before = string_views(lines@);
                    let line = format_list_line(&meta);
                    lines.push(line);
                    assert(string_views(lines@) =~= before.push(list_line(meta)));
                }
            },
        }
        i += 1;
    }
    Ok((lines.len(), lines))
}

/// Once the listing of the first `k` entries has failed, that of any more
/// entries fails in the same way.
proof fn lemma_listing_fails_for_good(
    entries: Seq<ContainerEntryView>,
    args: ParsedArgs,
    k: int,
    m: int,
)
    requires
        0 <= k <= m,
        listed_lines(entries, args, k) is Err,
    ensures
        listed_lines(entries, args, m) == listed_lines(entries, args, k),
    decreases m - k,
{
    if k < m {
        lemma_listing_fails_for_good(entries, args, k, m - 1);
    }
}

/// Reads a container and describes its selected entries, one line each.
pub fn list_from_bytes(bytes: &[u8], args: &ParsedArgs) -> (r: Result<
    (usize, Vec<String>),
    ContainerError,
>)
    ensures
        match r {
            Ok(found) => listing(bytes@, *args) == Ok::<Seq<Seq<char>>, ContainerError>(
                string_views(found.1@),
            ) && found.0 == found.1.len(),
            Err(e) => listing(bytes@, *args) == Err::<Seq<Seq<char>>, ContainerError>(e),
        },
{
    match read_container(bytes) {
        Err(e) => Err(e),
        Ok(entries) => match list_entries(entries.as_slice(), args) {
            Ok(found) => Ok(found),
            Err(e) => Err(ContainerError::Entry(e)),
        },
    }
}

} // verus!
