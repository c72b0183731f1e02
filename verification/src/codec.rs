use crate::bitmap::palette_suffices;
use crate::container::{entry_views, ContainerEntry, ContainerEntryView};
use crate::parse::{has_png_signature, png_info};
use crate::pixels::{opt_bytes, DecodedPng, DecodedPngView};
use vstd::prelude::*;

verus! {

// ---------------------------------------------------------------------------
// The PNG decoder
// ---------------------------------------------------------------------------

/// The step at which the PNG decoder gave up.
#[derive(Clone, Copy, Debug, PartialEq, Eq, Structural)]
pub enum PngDecodeFailure {
    /// The stream was refused before any pixel data was reached.
    Header,
    /// The pixel data of the first frame could not be decoded.
    Frame,
}

/// The number of bytes that the samples of a frame take: every row padded
/// to whole bytes.
pub open spec fn png_frame_len(width: u32, height: u32, bits_per_pixel: u32) -> int {
    (width * bits_per_pixel + 7) / 8 * height
}

/// Whether the frame that the header of `data` announces can be held in one
/// buffer. A stream without a readable header announces none.
pub open spec fn png_frame_fits(data: Seq<u8>) -> bool {
    match png_info(data) {
        Ok(info) => png_frame_len(info.0, info.1, info.2) <= usize::MAX / 2,
        Err(_) => true,
    }
}

/// What the `png` crate's decoder makes of a byte stream: the first frame
/// with its palette and transparency table, or the step that failed.
pub uninterp spec fn png_decoded(data: Seq<u8>) -> Result<DecodedPngView, PngDecodeFailure>;

/// Decodes the first frame of a PNG stream with the `png` crate:
/// `Decoder::new`, `Decoder::read_info`, then `Reader::next_frame` into a
/// buffer of `Reader::output_buffer_size` bytes, with no transformation of
/// the samples.
///
/// Believed, not proved: the outcome depends on the bytes alone; it is
/// `png_decoded` of them. The frame's width, height and colour type are
/// those of `OutputInfo`, its bytes the first `OutputInfo::buffer_size`
/// bytes of the buffer, palette and transparency those of `Reader::info`.
/// Left out are streams that announce a frame too large for any buffer.
#[verifier::external_body]
pub(crate) fn png_decode(data: &[u8]) -> (r: Result<DecodedPng, PngDecodeFailure>)
    requires
        png_frame_fits(data@),
    ensures
        match r {
            Ok(frame) => png_decoded(data@) == Ok::<DecodedPngView, PngDecodeFailure>(frame@),
            Err(e) => png_decoded(data@) == Err::<DecodedPngView, PngDecodeFailure>(e),
        },
{
    let decoder = png::Decoder::new(std::io::Cursor::new(data));
    let mut reader = decoder.read_info().map_err(|_| PngDecodeFailure::Header)?;
    let mut bytes = vec![0u8; reader.output_buffer_size()];
    let out = reader.next_frame(&mut bytes).map_err(|_| PngDecodeFailure::Frame)?;
    bytes.truncate(out.buffer_size());
    Ok(DecodedPng {
        width: out.width,
        height: out.height,
        color_type: out.color_type as u8,
        bytes,
        palette: reader.info().palette.as_ref().map(|p| p.to_vec()),
        transparency: reader.info().trns.as_ref().map(|t| t.to_vec()),
    })
}

// ---------------------------------------------------------------------------
// The entry encoder
// ---------------------------------------------------------------------------

/// Whether pixels of this size can be handed to the entry encoder: the
/// picture is not empty, has four bytes for every pixel, and its pixel count
/// fits in 32 bits.
pub open spec fn encodable(width: u32, height: u32, rgba: Seq<u8>) -> bool {
    &&& width >= 1
    &&& height >= 1
    &&& width * height <= u32::MAX
    &&& rgba.len() == 4 * width * height
}

/// The payload that the `ico` crate chooses for a picture: a bitmap or a
/// PNG stream, or nothing where its encoder fails.
pub uninterp spec fn ico_encoded(width: u32, height: u32, rgba: Seq<u8>) -> Option<Seq<u8>>;

/// Encodes pixels as the payload of one entry with the `ico` crate:
/// `IconImage::from_rgba_data`, `IconDirEntry::encode`, then
/// `IconDirEntry::data`.
///
/// Believed, not proved: the payload depends on the size and the pixels
/// alone; it is `ico_encoded` of them. Left out are the pictures on which
/// `from_rgba_data` panics (an empty one, a wrong number of bytes) and those
/// whose pixel count overflows the encoder's 32-bit arithmetic.
#[verifier::external_body]
pub(crate) fn ico_encode(width: u32, height: u32, rgba: Vec<u8>) -> (r: Option<Vec<u8>>)
    requires
        encodable(width, height, rgba@),
    ensures
        opt_bytes(r) == ico_encoded(width, height, rgba@),
{
    let image = ico::IconImage::from_rgba_data(width, height, rgba);
    let entry = ico::IconDirEntry::encode(&image).ok()?;
    Some(entry.data().to_vec())
}

// ---------------------------------------------------------------------------
// The container reader
// ---------------------------------------------------------------------------

/// The entries that the `ico` crate reads from the bytes of a file, or
/// nothing where it refuses them.
pub uninterp spec fn ico_directory(bytes: Seq<u8>) -> Option<Seq<ContainerEntryView>>;

/// Reads the directory of an icon or cursor file with `ico::IconDir::read`
/// and copies out of each entry what `IconDirEntry::resource_type`,
/// `IconDirEntry::cursor_hotspot` and `IconDirEntry::data` return.
///
/// Believed, not proved: whether the bytes are accepted, and which entries
/// are found, depends on the bytes alone; it is `ico_directory` of them. The
/// count of entries is read from a 16-bit field, so there are at most 65535.
#[verifier::external_body]
pub(crate) fn read_directory(bytes: &[u8]) -> (r: Option<Vec<ContainerEntry>>)
    ensures
        match r {
            Some(entries) => ico_directory(bytes@) == Some(entry_views(entries@))
                && entries.len() <= 0xffff,
            None => ico_directory(bytes@) is None,
        },
{
    let dir = ico::IconDir::read(std::io::Cursor::new(bytes)).ok()?;
    Some(
        dir.entries().iter().map(
            |e|
                ContainerEntry {
                    is_icon: matches!(e.resource_type(), ico::ResourceType::Icon),
                    hotspot: e.cursor_hotspot(),
                    data: e.data().to_vec(),
                },
        ).collect(),
    )
}

// ---------------------------------------------------------------------------
// The bitmap decoder
// ---------------------------------------------------------------------------

/// The step at which an entry could not be brought into PNG form.
#[derive(Clone, Copy, Debug, PartialEq, Eq, Structural)]
pub enum TranscodeFailure {
    /// The payload could not be decoded to pixels.
    Decode,
    /// The pixels could not be written as a PNG stream.
    Encode,
}

/// Whether entry `index` of the file `bytes` is a bitmap that can be handed
/// to the decoder: the file has such an entry, its payload is no PNG stream,
/// and no pixel of it names a colour that its colour table lacks.
pub open spec fn decodable_bitmap(bytes: Seq<u8>, index: int) -> bool {
    match ico_directory(bytes) {
        Some(entries) => {
            &&& 0 <= index < entries.len()
            &&& !has_png_signature(entries[index].data)
            &&& palette_suffices(entries[index].data)
        },
        None => false,
    }
}

/// The PNG stream that the `ico` crate makes of entry `index` of a file, or
/// the step that failed.
pub uninterp spec fn ico_entry_png(bytes: Seq<u8>, index: int) -> Result<
    Seq<u8>,
    TranscodeFailure,
>;

/// Decodes the bitmap at entry `index` of a file and writes the picture as
/// a PNG stream, with the `ico` crate: `IconDir::read`,
/// `IconDirEntry::decode`, then `IconImage::write_png`.
///
/// Believed, not proved: the outcome depends on the bytes and the index
/// alone; it is `ico_entry_png` of them. Left out are the bitmaps on which
/// the decoder panics, which are those with a pixel that names a colour
/// beyond the colour table.
#[verifier::external_body]
pub(crate) fn bitmap_entry_to_png(bytes: &[u8], index: usize) -> (r: Result<
    Vec<u8>,
    TranscodeFailure,
>)
    requires
        decodable_bitmap(bytes@, index as int),
    ensures
        match r {
            Ok(png) => ico_entry_png(bytes@, index as int) == Ok::<Seq<u8>, TranscodeFailure>(
                png@,
            ),
            Err(e) => ico_entry_png(bytes@, index as int) == Err::<Seq<u8>, TranscodeFailure>(e),
        },
{
    let dir = ico::IconDir::read(std::io::Cursor::new(bytes)).map_err(
        |_| TranscodeFailure::Decode,
    )?;
    let image = dir.entries()[index].decode().map_err(|_| TranscodeFailure::Decode)?;
    let mut png = Vec::new();
    image.write_png(&mut png).map_err(|_| TranscodeFailure::Encode)?;
    Ok(png)
}

} // verus!
