use crate::bitmap::{palette_covers_pixels, palette_suffices};
use crate::codec::{
    bitmap_entry_to_png, ico_directory, ico_entry_png, read_directory, TranscodeFailure,
};
use crate::container::entry_views;
use crate::error::{ContainerError, EntryError, IcoError};
use crate::parse::{has_png_signature, is_png_bytes};
use crate::text::{decimal, opt_str_view, push_decimal, str_eq};
use crate::types::EntryMeta;
use vstd::prelude::*;
use vstd::slice::slice_to_vec;
use vstd::string::StrSliceExecFns;
use vstd::string::StringExecFns;

verus! {

// ---------------------------------------------------------------------------
// The name of an extracted file
// ---------------------------------------------------------------------------

/// Whether a character parts the directories of a path: a slash or a
/// backslash.
pub open spec fn is_separator(c: char) -> bool {
    c == '/' || c == '\\'
}

/// The place behind the last separator of a path, and 0 where it has none.
pub open spec fn base_start(path: Seq<char>) -> int
    decreases path.len(),
{
    if path.len() == 0 {
        0
    } else if is_separator(path.last()) {
        path.len() as int
    } else {
        base_start(path.drop_last())
    }
}

/// What is left of a path behind its last separator.
pub open spec fn base_name(path: Seq<char>) -> Seq<char> {
    path.skip(base_start(path))
}

/// Whether a name ends in `.ico` or `.cur`, in small or capital letters.
pub open spec fn has_ico_cur_ext(name: Seq<char>) -> bool {
    let n = name.len() as int;
    &&& n >= 4
    &&& name[n - 4] == '.'
    &&& {
        ||| {
            &&& (name[n - 3] == 'i' || name[n - 3] == 'I')
            &&& (name[n - 2] == 'c' || name[n - 2] == 'C')
            &&& (name[n - 1] == 'o' || name[n - 1] == 'O')
        }
        ||| {
            &&& (name[n - 3] == 'c' || name[n - 3] == 'C')
            &&& (name[n - 2] == 'u' || name[n - 2] == 'U')
            &&& (name[n - 1] == 'r' || name[n - 1] == 'R')
        }
    }
}

/// A name without its `.ico` or `.cur` ending, where it has one.
pub open spec fn stem(name: Seq<char>) -> Seq<char> {
    if has_ico_cur_ext(name) {
        name.take(name.len() - 4)
    } else {
        name
    }
}

/// The file name under which an entry is extracted: the stem of the input
/// name, then place, width, height and bit depth of the entry.
pub open spec fn extract_name(inname: Seq<char>, meta: EntryMeta) -> Seq<char> {
    stem(base_name(inname)) + "_"@ + decimal(meta.index as int) + "_"@ + decimal(
        meta.width as int,
    ) + "x"@ + decimal(meta.height as int) + "x"@ + decimal(meta.bit_depth as int) + ".png"@
}

/// Takes the ending `.ico` or `.cur` off a name, in whatever case it is
/// written.
pub fn strip_ico_cur_ext(name: &str) -> (r: &str)
    ensures
        r@ == stem(name@),
{
    let n: usize = name.unicode_len();
    if n < 4 {
        return name;
    }
    let dot: char = name.get_char(n - 4);
    let a: char = name.get_char(n - 3);
    let b: char = name.get_char(n - 2);
    let c: char = name.get_char(n - 1);
    let ico: bool = (a == 'i' || a == 'I') && (b == 'c' || b == 'C') && (c == 'o' || c == 'O');
    let cur: bool = (a == 'c' || a == 'C') && (b == 'u' || b == 'U') && (c == 'r' || c == 'R');
    if dot == '.' && (ico || cur) {
        let r: &str = name.substring_char(0, n - 4);
        assert(r@ =~= name@.take(n - 4));
        r
    } else {
        name
    }
}

/// Moving on by one character either starts a new base name or keeps the
/// old one.
proof fn lemma_base_start_step(path: Seq<char>, i: int)
    requires
        0 <= i < path.len(),
    ensures
        base_start(path.take(i + 1)) == if is_separator(path[i]) {
            i + 1
        } else {
            base_start(path.take(i))
        },
        0 <= base_start(path.take(i)) <= i,
    decreases i,
{
    assert(path.take(i + 1).drop_last() =~= path.take(i));
    if i > 0 {
        lemma_base_start_step(path, i - 1);
    }
}

/// Finds the part of a path behind its last slash or backslash.
fn base_of(path: &str) -> (r: &str)
    ensures
        r@ == base_name(path@),
{
    let n: usize = path.unicode_len();
    let mut start: usize = 0;
    let mut i: usize = 0;
    while i < n
        invariant
            i <= n,
            n == path@.len(),
            start <= i,
            start == base_start(path@.take(i as int)),
        decreases n - i,
    {
        let c: char = path.get_char(i);
        proof {
            lemma_base_start_step(path@, i as int);
        }
        if c == '/' || c == '\\' {
            start = i + 1;
        }
        i += 1;
    }
    assert(path@.take(n as int) =~= path@);
    let r: &str = path.substring_char(start, n);
    assert(r@ =~= path@.skip(start as int));
    r
}

/// Makes the file name under which an entry of the file `inname` is
/// extracted.
pub fn gen_extract_name(inname: &str, meta: &EntryMeta) -> (r: String)
    ensures
        r@ == extract_name(inname@, *meta),
{
    let mut name: String = String::new();
    name.append(strip_ico_cur_ext(base_of(inname)));
    name.append("_");
    push_decimal(&mut name, meta.index);
    name.append("_");
    push_decimal(&mut name, meta.width);
    name.append("x");
    push_decimal(&mut name, meta.height);
    name.append("x");
    push_decimal(&mut name, meta.bit_depth);
    name.append(".png");
    assert(name@ =~= extract_name(inname@, *meta));
    name
}

// ---------------------------------------------------------------------------
// Where an extracted entry goes
// ---------------------------------------------------------------------------

/// Where the picture of one entry is written.
#[derive(Clone, Debug)]
pub enum ExtractTarget {
    /// To the standard output.
    StandardOut,
    /// To the file of this path.
    Path(String),
    /// To a file of this name in this directory.
    InDirectory { directory: String, file_name: String },
}

/// The mathematical value of an [`ExtractTarget`].
pub enum ExtractTargetView {
    StandardOut,
    Path(Seq<char>),
    InDirectory { directory: Seq<char>, file_name: Seq<char> },
}

impl View for ExtractTarget {
    type V = ExtractTargetView;

    open spec fn view(&self) -> ExtractTargetView {
        match self {
            ExtractTarget::StandardOut => ExtractTargetView::StandardOut,
            ExtractTarget::Path(p) => ExtractTargetView::Path(p@),
            ExtractTarget::InDirectory { directory, file_name } => ExtractTargetView::InDirectory {
                directory: directory@,
                file_name: file_name@,
            },
        }
    }
}

/// Where an entry goes, given what was asked for as output and whether that
/// is a directory.
///
/// With no output named the entry goes to a file of its own name. A
/// directory takes a file of that name. Anything else is the output itself:
/// the standard output for `-`, a file otherwise.
pub open spec fn target_of(
    inname: Seq<char>,
    output: Option<Seq<char>>,
    output_is_dir: bool,
    meta: EntryMeta,
) -> ExtractTargetView {
    match output {
        None => ExtractTargetView::Path(extract_name(inname, meta)),
        Some(out) => if output_is_dir {
            ExtractTargetView::InDirectory {
                directory: out,
                file_name: extract_name(inname, meta),
            }
        } else if out == "-"@ {
            ExtractTargetView::StandardOut
        } else {
            ExtractTargetView::Path(out)
        },
    }
}

/// Decides where the picture of one entry is written.
pub fn extract_target(inname: &str, output: Option<&str>, output_is_dir: bool, meta: &EntryMeta) -> (r:
    ExtractTarget)
    ensures
        r@ == target_of(inname@, opt_str_view(output), output_is_dir, *meta),
{
    match output {
        None => ExtractTarget::Path(gen_extract_name(inname, meta)),
        Some(out) => {
            if output_is_dir {
                ExtractTarget::InDirectory {
                    directory: out.to_string(),
                    file_name: gen_extract_name(inname, meta),
                }
            } else if str_eq(out, "-") {
                ExtractTarget::StandardOut
            } else {
                ExtractTarget::Path(out.to_string())
            }
        },
    }
}

// ---------------------------------------------------------------------------
// The picture of an entry
// ---------------------------------------------------------------------------

/// The value of an attempt to bring a bitmap into PNG form.
pub open spec fn transcoded_view(t: Result<Vec<u8>, TranscodeFailure>) -> Result<
    Seq<u8>,
    TranscodeFailure,
> {
    match t {
        Ok(png) => Ok(png@),
        Err(e) => Err(e),
    }
}

/// What an attempt to bring the bitmap at place `index` (counted from 1)
/// into PNG form comes to.
pub open spec fn png_of_transcoded(index: i32, t: Result<Seq<u8>, TranscodeFailure>) -> Result<
    Seq<u8>,
    EntryError,
> {
    match t {
        Ok(png) => Ok(png),
        Err(TranscodeFailure::Decode) => Err(
            EntryError { index, error: IcoError::BitmapDecodeFailed },
        ),
        Err(TranscodeFailure::Encode) => Err(EntryError { index, error: IcoError::EncodeFailed }),
    }
}

/// The PNG stream for the payload at position `index` (counted from 0) of a
/// file: a PNG payload as it is, a bitmap as the decoder and the PNG writer
/// turn it out. A bitmap with a pixel that names a colour beyond its colour
/// table is not decoded.
pub open spec fn payload_png(bytes: Seq<u8>, index: int, data: Seq<u8>) -> Result<
    Seq<u8>,
    EntryError,
> {
    if has_png_signature(data) {
        Ok(data)
    } else if !palette_suffices(data) {
        Err(EntryError { index: (index + 1) as i32, error: IcoError::BitmapDecodeFailed })
    } else {
        png_of_transcoded((index + 1) as i32, ico_entry_png(bytes, index))
    }
}

/// The PNG stream for the entry at position `index` (counted from 0) of a
/// file.
pub open spec fn entry_png_of(bytes: Seq<u8>, index: int) -> Result<Seq<u8>, ContainerError> {
    match ico_directory(bytes) {
        None => Err(ContainerError::NotAContainer),
        Some(entries) => if index < 0 || index >= entries.len() {
            Err(ContainerError::NoSuchEntry)
        } else {
            match payload_png(bytes, index, entries[index].data) {
                Ok(png) => Ok(png),
                Err(e) => Err(ContainerError::Entry(e)),
            }
        },
    }
}

/// Says what an attempt to bring the bitmap at place `index` (counted from
/// 1) into PNG form comes to.
pub fn png_from_transcoded(index: i32, t: Result<Vec<u8>, TranscodeFailure>) -> (r: Result<
    Vec<u8>,
    EntryError,
>)
    ensures
        match r {
            Ok(png) => png_of_transcoded(index, transcoded_view(t)) == Ok::<Seq<u8>, EntryError>(
                png@,
            ),
            Err(e) => png_of_transcoded(index, transcoded_view(t)) == Err::<Seq<u8>, EntryError>(
                e,
            ),
        },
{
    match t {
        Ok(png) => Ok(png),
        Err(TranscodeFailure::Decode) => Err(
            EntryError { index, error: IcoError::BitmapDecodeFailed },
        ),
        Err(TranscodeFailure::Encode) => Err(EntryError { index, error: IcoError::EncodeFailed }),
    }
}

/// Makes the PNG stream for the entry at position `index` (counted from 0)
/// of a file: the payload itself where that is a PNG stream already, the
/// decoded bitmap written anew otherwise.
pub fn entry_png(bytes: &[u8], index: usize) -> (r: Result<Vec<u8>, ContainerError>)
    ensures
        match r {
            Ok(png) => entry_png_of(bytes@, index as int) == Ok::<Seq<u8>, ContainerError>(png@),
            Err(e) => entry_png_of(bytes@, index as int) == Err::<Seq<u8>, ContainerError>(e),
        },
{
    let entries = match read_directory(bytes) {
        Some(entries) => entries,
        None => {
            return Err(ContainerError::NotAContainer);
        },
    };
    if index >= entries.len() {
        return Err(ContainerError::NoSuchEntry);
    }
    assert(entry_views(entries@)[index as int] == entries[index as int]@);
    let data: &[u8] = entries[index].data.as_slice();
    if is_png_bytes(data) {
        return Ok(slice_to_vec(data));
    }
    let place: i32 = (index + 1) as i32;
    if !palette_covers_pixels(data) {
        return Err(
            ContainerError::Entry(EntryError { index: place, error: IcoError::BitmapDecodeFailed }),
        );
    }
    match png_from_transcoded(place, bitmap_entry_to_png(bytes, index)) {
        Ok(png) => Ok(png),
        Err(e) => Err(ContainerError::Entry(e)),
    }
}

} // verus!
