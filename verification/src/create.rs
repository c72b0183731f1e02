use crate::codec::{
    encodable, ico_encode, ico_encoded, png_decode, png_decoded, png_frame_fits, png_frame_len,
    PngDecodeFailure,
};
use crate::error::IcoError;
use crate::layout::{
    clamp_to_u16, container_bytes, container_header, dim_byte, directory, directory_entry,
    entry_in_place, header_in_place, lemma_container_entry_fields, lemma_container_header,
    lemma_offset_step, payload_len_before, payload_offset, payloads, u16_le, u32_le,
};
use crate::parse::{
    dib_info, has_png_signature, is_png_bytes, parse_dib_info, parse_png_info, png_info,
    to_signed32,
};
use crate::pixels::{normalize_pixels, normalized_pixels, DecodedPng, DecodedPngView};
use crate::types::{CreateInput, CreateInputView, ParsedArgs};
use vstd::prelude::*;
use vstd::slice::slice_to_vec;

verus! {

/// One image as it goes into a container: the payload bytes and what the
/// directory says of them.
#[derive(Clone, Debug)]
pub struct EncodedImage {
    pub width: u32,
    pub height: u32,
    pub bit_depth: u32,
    pub hotspot_x: u16,
    pub hotspot_y: u16,
    pub data: Vec<u8>,
}

/// The mathematical value of an [`EncodedImage`].
pub struct EncodedImageView {
    pub width: u32,
    pub height: u32,
    pub bit_depth: u32,
    pub hotspot_x: u16,
    pub hotspot_y: u16,
    pub data: Seq<u8>,
}

impl View for EncodedImage {
    type V = EncodedImageView;

    open spec fn view(&self) -> EncodedImageView {
        EncodedImageView {
            width: self.width,
            height: self.height,
            bit_depth: self.bit_depth,
            hotspot_x: self.hotspot_x,
            hotspot_y: self.hotspot_y,
            data: self.data@,
        }
    }
}

/// The values of a sequence of images, in the same order.
pub open spec fn image_views(images: Seq<EncodedImage>) -> Seq<EncodedImageView> {
    images.map_values(|img: EncodedImage| img@)
}

/// The container that a run creates: a cursor file (resource type 2) where
/// cursors only were asked for and icons only were not, an icon file
/// (resource type 1) otherwise. The flag tells whether it is a cursor file.
pub fn container_kind(args: &ParsedArgs) -> (r: (u16, bool))
    ensures
        r.1 == (args.cursor_only && !args.icon_only),
        r.0 == if r.1 {
            2u16
        } else {
            1u16
        },
{
    let is_cursor: bool = args.cursor_only && !args.icon_only;
    let container_type: u16 = if is_cursor {
        2
    } else {
        1
    };
    (container_type, is_cursor)
}

/// Encodes a width or height for the directory.
pub fn to_dim_byte(dim: u32) -> (r: u8)
    ensures
        r == dim_byte(dim),
        dim >= 256 ==> r == 0,
        dim < 256 ==> r == dim,
{
    if dim >= 256 {
        0
    } else {
        dim as u8
    }
}

/// Brings a number into the range of a 16-bit field: 0 for anything
/// negative, 65535 for anything above.
pub fn clamp_u16(v: i32) -> (r: u16)
    ensures
        r == clamp_to_u16(v as int),
{
    if v <= 0 {
        0
    } else if v >= 65535 {
        65535
    } else {
        v as u16
    }
}

fn write_u16_le(out: &mut Vec<u8>, v: u16)
    ensures
        final(out)@ == old(out)@ + u16_le(v as int),
{
    out.push((v % 256) as u8);
    out.push((v / 256) as u8);
    assert(out@ =~= old(out)@ + u16_le(v as int));
}

fn write_u32_le(out: &mut Vec<u8>, v: u32)
    ensures
        final(out)@ == old(out)@ + u32_le(v as int),
{
    out.push((v % 256) as u8);
    out.push((v / 256 % 256) as u8);
    out.push((v / 65536 % 256) as u8);
    out.push((v / 16777216) as u8);
    assert(out@ =~= old(out)@ + u32_le(v as int));
}

fn write_bytes(out: &mut Vec<u8>, bytes: &[u8])
    ensures
        final(out)@ == old(out)@ + bytes@,
{
    let mut i: usize = 0;
    while i < bytes.len()
        invariant
            i <= bytes.len(),
            out@ == old(out)@ + bytes@.subrange(0, i as int),
        decreases bytes.len() - i,
    {
        out.push(bytes[i]);
        i += 1;
    }
    assert(bytes@.subrange(0, i as int) =~= bytes@);
}

/// Appends the directory entry of one image whose payload starts at
/// `offset`.
fn write_directory_entry(
    out: &mut Vec<u8>,
    img: &EncodedImage,
    offset: u32,
    is_cursor: bool,
    compat_png_bitcount: bool,
)
    ensures
        final(out)@ == old(out)@ + directory_entry(
            img@,
            offset as int,
            is_cursor,
            compat_png_bitcount,
        ),
{
    reveal(directory_entry);
    out.push(to_dim_byte(img.width));
    out.push(to_dim_byte(img.height));
    out.push(0);
    out.push(0);
    let ghost fixed = seq![dim_byte(img.width), dim_byte(img.height), 0u8, 0u8];
    assert(out@ =~= old(out)@ + fixed);
    let planes: u16;
    let bit_count: u16;
    if is_cursor {
        planes = img.hotspot_x;
        bit_count = img.hotspot_y;
    } else {
        planes = 1;
        let depth: i32 = if compat_png_bitcount && is_png_bytes(img.data.as_slice()) {
            32
        } else {
            to_signed32(img.bit_depth)
        };
        bit_count = clamp_u16(depth);
    }
    write_u16_le(out, planes);
    write_u16_le(out, bit_count);
    let len: u32 = (img.data.len() as u64 % 0x1_0000_0000) as u32;
    write_u32_le(out, len);
    write_u32_le(out, offset);
    assert(out@ =~= old(out)@ + (fixed + (u16_le(planes as int) + u16_le(bit_count as int))
        + u32_le(len as int) + u32_le(offset as int)));
}

/// Serialises a container: the header, one directory entry per image, then
/// the payloads, all in the order given.
///
/// Every image is stored; nothing is reordered or shared. Fields that are
/// too narrow for their value keep its low bits, and payload offsets wrap in
/// 32 bits.
pub fn build_ico(
    container_type: u16,
    is_cursor: bool,
    images: &[EncodedImage],
    compat_png_bitcount: bool,
) -> (out: Vec<u8>)
    ensures
        out@ == container_bytes(
            container_type,
            is_cursor,
            image_views(images@),
            compat_png_bitcount,
        ),
        out@.len() == 6 + 16 * images.len() + payload_len_before(
            image_views(images@),
            images.len() as int,
        ),
        header_in_place(out@, container_type, images.len() as int),
        forall|k: int|
            0 <= k < images.len() ==> entry_in_place(
                out@,
                k,
                (#[trigger] images@[k])@,
                payload_offset(image_views(images@), k),
                is_cursor,
                compat_png_bitcount,
            ),
{
    let ghost views = image_views(images@);
    let n: usize = images.len();
    let count: u16 = (n as u64 % 65536) as u16;
    let mut out: Vec<u8> = Vec::new();
    write_u16_le(&mut out, 0);
    write_u16_le(&mut out, container_type);
    write_u16_le(&mut out, count);

    let base: u64 = (6 + 16 * (n as u64 % 0x1_0000_0000)) % 0x1_0000_0000;
    let mut cur: u32 = base as u32;
    let mut i: usize = 0;
    while i < n
        invariant
            i <= n,
            n == images.len(),
            views == image_views(images@),
            cur == payload_offset(views, i as int),
            out@ == container_header(container_type, n as int) + directory(
                views,
                i as int,
                is_cursor,
                compat_png_bitcount,
            ),
        decreases n - i,
    {
        let img = &images[i];
        assert(views[i as int] == img@);
        let ghost head = container_header(container_type, n as int);
        let ghost done = directory(views, i as int, is_cursor, compat_png_bitcount);
        let ghost entry = directory_entry(img@, cur as int, is_cursor, compat_png_bitcount);
        write_directory_entry(&mut out, img, cur, is_cursor, compat_png_bitcount);
        let len: u32 = (img.data.len() as u64 % 0x1_0000_0000) as u32;
        proof {
            lemma_offset_step(views, i as int);
            assert(directory(views, i + 1, is_cursor, compat_png_bitcount) == done + entry);
            assert((head + done) + entry =~= head + (done + entry));
        }
        cur = ((cur as u64 + len as u64) % 0x1_0000_0000) as u32;
        i += 1;
    }

    let mut j: usize = 0;
    while j < n
        invariant
            j <= n,
            n == images.len(),
            views == image_views(images@),
            out@ == container_header(container_type, n as int) + directory(
                views,
                n as int,
                is_cursor,
                compat_png_bitcount,
            ) + payloads(views, j as int),
        decreases n - j,
    {
        assert(views[j as int] == images[j as int]@);
        let ghost front = container_header(container_type, n as int) + directory(
            views,
            n as int,
            is_cursor,
            compat_png_bitcount,
        );
        let ghost done = payloads(views, j as int);
        write_bytes(&mut out, images[j].data.as_slice());
        proof {
            assert(payloads(views, j + 1) == done + views[j as int].data);
            assert((front + done) + views[j as int].data =~= front + (done + views[j as int].data));
        }
        j += 1;
    }
    proof {
        lemma_container_header(container_type, is_cursor, views, compat_png_bitcount);
        assert forall|k: int| 0 <= k < images.len() implies entry_in_place(
            out@,
            k,
            (#[trigger] images@[k])@,
            payload_offset(views, k),
            is_cursor,
            compat_png_bitcount,
        ) by {
            assert(views[k] == images@[k]@);
            lemma_container_entry_fields(container_type, is_cursor, views, compat_png_bitcount, k);
        }
    }
    out
}

// ---------------------------------------------------------------------------
// From a file to an image
// ---------------------------------------------------------------------------

/// The value of a decoding outcome.
pub open spec fn decoded_view(d: Result<DecodedPng, PngDecodeFailure>) -> Result<
    DecodedPngView,
    PngDecodeFailure,
> {
    match d {
        Ok(frame) => Ok(frame@),
        Err(e) => Err(e),
    }
}

/// Width, height and pixels (red, green, blue, alpha) of a decoding outcome.
/// A stream that the decoder refuses at its header is no PNG; one that it
/// gives up later could not be decoded.
pub open spec fn rgba_of_decoded(d: Result<DecodedPngView, PngDecodeFailure>) -> Result<
    (u32, u32, Seq<u8>),
    IcoError,
> {
    match d {
        Err(PngDecodeFailure::Header) => Err(IcoError::NotAPng),
        Err(PngDecodeFailure::Frame) => Err(IcoError::DecodeFailed),
        Ok(frame) => match normalized_pixels(frame) {
            Ok(pixels) => Ok((frame.width, frame.height, pixels)),
            Err(e) => Err(e),
        },
    }
}

/// Width, height and pixels of a PNG stream.
///
/// A stream whose header cannot be read is no PNG. One that announces more
/// samples than a buffer can hold is not decoded. Every other stream is
/// handed to the decoder.
pub open spec fn decoded_rgba(data: Seq<u8>) -> Result<(u32, u32, Seq<u8>), IcoError> {
    if png_info(data) is Err {
        Err(IcoError::NotAPng)
    } else if !png_frame_fits(data) {
        Err(IcoError::DecodeFailed)
    } else {
        rgba_of_decoded(png_decoded(data))
    }
}

/// What the directory will say of a payload, read from the payload itself:
/// from its `IHDR` where it is a PNG stream, from its bitmap header
/// otherwise.
pub open spec fn described_payload(data: Seq<u8>, hotspot_x: u16, hotspot_y: u16) -> Result<
    EncodedImageView,
    IcoError,
> {
    if has_png_signature(data) {
        match png_info(data) {
            Err(e) => Err(e),
            Ok(info) => Ok(
                EncodedImageView {
                    width: info.0,
                    height: info.1,
                    bit_depth: info.2,
                    hotspot_x,
                    hotspot_y,
                    data,
                },
            ),
        }
    } else {
        match dib_info(data) {
            Err(e) => Err(e),
            Ok(info) => Ok(
                EncodedImageView {
                    width: info.0,
                    height: info.1,
                    bit_depth: info.2,
                    hotspot_x,
                    hotspot_y,
                    data,
                },
            ),
        }
    }
}

/// The image that pixels are encoded to. Pixels that the encoder cannot take
/// (an empty picture, a wrong number of bytes) count as a failure to encode.
pub open spec fn encoded_pixels(
    width: u32,
    height: u32,
    rgba: Seq<u8>,
    hotspot_x: u16,
    hotspot_y: u16,
) -> Result<EncodedImageView, IcoError> {
    if !encodable(width, height, rgba) {
        Err(IcoError::EncodeFailed)
    } else {
        match ico_encoded(width, height, rgba) {
            None => Err(IcoError::EncodeFailed),
            Some(data) => described_payload(data, hotspot_x, hotspot_y),
        }
    }
}

/// The image that one input file becomes.
///
/// A raw input must be a PNG stream and is stored byte for byte. Any other
/// input is decoded to pixels and encoded anew. The hotspot is that of the
/// input, clamped to 16 bits.
pub open spec fn encoded_image(input: CreateInputView, bytes: Seq<u8>) -> Result<
    EncodedImageView,
    IcoError,
> {
    let hotspot_x = clamp_to_u16(input.hotspot_x as int);
    let hotspot_y = clamp_to_u16(input.hotspot_y as int);
    if input.raw_png {
        match png_info(bytes) {
            Err(e) => Err(e),
            Ok(info) => Ok(
                EncodedImageView {
                    width: info.0,
                    height: info.1,
                    bit_depth: info.2,
                    hotspot_x,
                    hotspot_y,
                    data: bytes,
                },
            ),
        }
    } else {
        match decoded_rgba(bytes) {
            Err(e) => Err(e),
            Ok(picture) => encoded_pixels(picture.0, picture.1, picture.2, hotspot_x, hotspot_y),
        }
    }
}

/// Turns what the decoder returned into width, height and four bytes for
/// every pixel.
pub fn rgba_from_decoded(d: Result<DecodedPng, PngDecodeFailure>) -> (r: Result<
    (u32, u32, Vec<u8>),
    IcoError,
>)
    ensures
        match r {
            Ok(t) => rgba_of_decoded(decoded_view(d)) == Ok::<(u32, u32, Seq<u8>), IcoError>(
                (t.0, t.1, t.2@),
            ),
            Err(e) => rgba_of_decoded(decoded_view(d)) == Err::<(u32, u32, Seq<u8>), IcoError>(e),
        },
{
    match d {
        Err(PngDecodeFailure::Header) => Err(IcoError::NotAPng),
        Err(PngDecodeFailure::Frame) => Err(IcoError::DecodeFailed),
        Ok(frame) => match normalize_pixels(&frame) {
            Ok(pixels) => Ok((frame.width, frame.height, pixels)),
            Err(e) => Err(e),
        },
    }
}

/// Tells whether the samples of a frame fit in one buffer.
fn frame_fits(width: u32, height: u32, bits_per_pixel: u32) -> (r: bool)
    ensures
        r == (png_frame_len(width, height, bits_per_pixel) <= usize::MAX / 2),
{
    assert(width * bits_per_pixel <= 0xffff_ffff * 0xffff_ffff) by (nonlinear_arith)
        requires
            width <= 0xffff_ffff,
            bits_per_pixel <= 0xffff_ffff,
    ;
    let row: u64 = (width as u64 * bits_per_pixel as u64 + 7) / 8;
    assert(row * height <= 0x2000_0000_0000_0000 * 0xffff_ffff) by (nonlinear_arith)
        requires
            row <= 0x2000_0000_0000_0000,
            height <= 0xffff_ffff,
    ;
    let total: u128 = row as u128 * height as u128;
    total <= (usize::MAX / 2) as u128
}

/// Decodes a PNG stream to width, height and pixels in red, green, blue,
/// alpha order.
pub fn decode_png_rgba(data: &[u8]) -> (r: Result<(u32, u32, Vec<u8>), IcoError>)
    ensures
        match r {
            Ok(t) => decoded_rgba(data@) == Ok::<(u32, u32, Seq<u8>), IcoError>((t.0, t.1, t.2@)),
            Err(e) => decoded_rgba(data@) == Err::<(u32, u32, Seq<u8>), IcoError>(e),
        },
{
    match parse_png_info(data) {
        Err(_) => {
            return Err(IcoError::NotAPng);
        },
        Ok((width, height, bits_per_pixel)) => {
            if !frame_fits(width, height, bits_per_pixel) {
                return Err(IcoError::DecodeFailed);
            }
        },
    }
    rgba_from_decoded(png_decode(data))
}

/// Reads from a finished payload what the directory will say of it.
pub fn describe_payload(data: Vec<u8>, hotspot_x: u16, hotspot_y: u16) -> (r: Result<
    EncodedImage,
    IcoError,
>)
    ensures
        match r {
            Ok(img) => described_payload(data@, hotspot_x, hotspot_y) == Ok::<
                EncodedImageView,
                IcoError,
            >(img@),
            Err(e) => described_payload(data@, hotspot_x, hotspot_y) == Err::<
                EncodedImageView,
                IcoError,
            >(e),
        },
{
    let (width, height, bit_depth) = if is_png_bytes(data.as_slice()) {
        match parse_png_info(data.as_slice()) {
            Ok(info) => info,
            Err(e) => {
                return Err(e);
            },
        }
    } else {
        match parse_dib_info(data.as_slice()) {
            Ok((w, h, bpp, _)) => (w, h, bpp),
            Err(e) => {
                return Err(e);
            },
        }
    };
    Ok(EncodedImage { width, height, bit_depth, hotspot_x, hotspot_y, data })
}

/// Tells whether the encoder can take pixels of this size.
fn can_encode(width: u32, height: u32, rgba: &Vec<u8>) -> (r: bool)
    ensures
        r == encodable(width, height, rgba@),
{
    if width < 1 || height < 1 {
        return false;
    }
    assert(width * height <= 0xffff_ffff * 0xffff_ffff) by (nonlinear_arith)
        requires
            width <= 0xffff_ffff,
            height <= 0xffff_ffff,
    ;
    let pixels: u64 = width as u64 * height as u64;
    if pixels > 0xffff_ffff {
        return false;
    }
    assert(4 * width * height == 4 * (width * height)) by (nonlinear_arith);
    rgba.len() as u64 == 4 * pixels
}

/// Encodes pixels as the payload of one entry and reads back from the
/// payload what the directory will say of it.
pub fn encode_pixels(width: u32, height: u32, rgba: Vec<u8>, hotspot_x: u16, hotspot_y: u16) -> (r:
    Result<EncodedImage, IcoError>)
    ensures
        match r {
            Ok(img) => encoded_pixels(width, height, rgba@, hotspot_x, hotspot_y) == Ok::<
                EncodedImageView,
                IcoError,
            >(img@),
            Err(e) => encoded_pixels(width, height, rgba@, hotspot_x, hotspot_y) == Err::<
                EncodedImageView,
                IcoError,
            >(e),
        },
{
    if !can_encode(width, height, &rgba) {
        return Err(IcoError::EncodeFailed);
    }
    match ico_encode(width, height, rgba) {
        None => Err(IcoError::EncodeFailed),
        Some(data) => describe_payload(data, hotspot_x, hotspot_y),
    }
}

/// Makes of one input file the image that goes into the container.
pub fn encode_one(input: &CreateInput, bytes: &[u8]) -> (r: Result<EncodedImage, IcoError>)
    ensures
        match r {
            Ok(img) => encoded_image(input@, bytes@) == Ok::<EncodedImageView, IcoError>(img@),
            Err(e) => encoded_image(input@, bytes@) == Err::<EncodedImageView, IcoError>(e),
        },
{
    let hotspot_x: u16 = clamp_u16(input.hotspot_x);
    let hotspot_y: u16 = clamp_u16(input.hotspot_y);
    if input.raw_png {
        return match parse_png_info(bytes) {
            Err(e) => Err(e),
            Ok((width, height, bit_depth)) => Ok(
                EncodedImage {
                    width,
                    height,
                    bit_depth,
                    hotspot_x,
                    hotspot_y,
                    data: slice_to_vec(bytes),
                },
            ),
        };
    }
    match decode_png_rgba(bytes) {
        Err(e) => Err(e),
        Ok((width, height, rgba)) => encode_pixels(width, height, rgba, hotspot_x, hotspot_y),
    }
}

} // verus!
