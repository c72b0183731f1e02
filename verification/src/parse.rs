use crate::error::IcoError;
use vstd::arithmetic::power2::pow2;
use vstd::prelude::*;

verus! {

// ---------------------------------------------------------------------------
// Fixed-width integers inside a byte sequence
// ---------------------------------------------------------------------------

/// The unsigned 16-bit value stored little-endian at `offset`.
pub open spec fn le_u16_at(data: Seq<u8>, offset: int) -> int {
    data[offset] + 256 * data[offset + 1]
}

/// The unsigned 32-bit value stored little-endian at `offset`.
pub open spec fn le_u32_at(data: Seq<u8>, offset: int) -> int {
    data[offset] + 256 * data[offset + 1] + 65536 * data[offset + 2] + 16777216 * data[offset + 3]
}

/// The unsigned 32-bit value stored big-endian at `offset`.
pub open spec fn be_u32_at(data: Seq<u8>, offset: int) -> int {
    16777216 * data[offset] + 65536 * data[offset + 1] + 256 * data[offset + 2] + data[offset + 3]
}

/// A 32-bit pattern read as a two's complement number.
pub open spec fn as_signed32(v: int) -> int {
    if v >= 0x8000_0000 {
        v - 0x1_0000_0000
    } else {
        v
    }
}

/// The signed 32-bit value stored little-endian at `offset`.
pub open spec fn le_i32_at(data: Seq<u8>, offset: int) -> int {
    as_signed32(le_u32_at(data, offset))
}

/// Reads the bits of a `u32` as a two's complement number.
pub fn to_signed32(v: u32) -> (r: i32)
    ensures
        r == as_signed32(v as int),
{
    if v >= 0x8000_0000 {
        let low: i32 = (v - 0x8000_0000) as i32;
        low - 0x7fff_ffff - 1
    } else {
        v as i32
    }
}

/// Reads a big-endian `u32`, or reports that the bytes end too early.
fn read_be_u32(data: &[u8], offset: usize) -> (r: Result<u32, IcoError>)
    ensures
        offset + 4 <= data.len() ==> r == Ok::<u32, IcoError>(be_u32_at(data@, offset as int) as u32),
        offset + 4 > data.len() ==> r == Err::<u32, IcoError>(IcoError::Truncated),
        r is Ok ==> r->Ok_0 == be_u32_at(data@, offset as int),
{
    if data.len() < 4 || offset > data.len() - 4 {
        return Err(IcoError::Truncated);
    }
    let b0: u32 = data[offset] as u32;
    let b1: u32 = data[offset + 1] as u32;
    let b2: u32 = data[offset + 2] as u32;
    let b3: u32 = data[offset + 3] as u32;
    Ok(16777216 * b0 + 65536 * b1 + 256 * b2 + b3)
}

/// Reads a little-endian `u32`, or reports that the bytes end too early.
pub(crate) fn read_le_u32(data: &[u8], offset: usize) -> (r: Result<u32, IcoError>)
    ensures
        offset + 4 <= data.len() ==> r == Ok::<u32, IcoError>(le_u32_at(data@, offset as int) as u32),
        offset + 4 > data.len() ==> r == Err::<u32, IcoError>(IcoError::Truncated),
        r is Ok ==> r->Ok_0 == le_u32_at(data@, offset as int),
{
    if data.len() < 4 || offset > data.len() - 4 {
        return Err(IcoError::Truncated);
    }
    let b0: u32 = data[offset] as u32;
    let b1: u32 = data[offset + 1] as u32;
    let b2: u32 = data[offset + 2] as u32;
    let b3: u32 = data[offset + 3] as u32;
    Ok(b0 + 256 * b1 + 65536 * b2 + 16777216 * b3)
}

/// Reads a little-endian `i32`, or reports that the bytes end too early.
pub(crate) fn read_le_i32(data: &[u8], offset: usize) -> (r: Result<i32, IcoError>)
    ensures
        offset + 4 <= data.len() ==> r == Ok::<i32, IcoError>(le_i32_at(data@, offset as int) as i32),
        offset + 4 > data.len() ==> r == Err::<i32, IcoError>(IcoError::Truncated),
        r is Ok ==> r->Ok_0 == le_i32_at(data@, offset as int),
{
    match read_le_u32(data, offset) {
        Err(e) => Err(e),
        Ok(v) => Ok(to_signed32(v)),
    }
}

/// Reads a little-endian `u16`, or reports that the bytes end too early.
pub(crate) fn read_le_u16(data: &[u8], offset: usize) -> (r: Result<u16, IcoError>)
    ensures
        offset + 2 <= data.len() ==> r == Ok::<u16, IcoError>(le_u16_at(data@, offset as int) as u16),
        offset + 2 > data.len() ==> r == Err::<u16, IcoError>(IcoError::Truncated),
        r is Ok ==> r->Ok_0 == le_u16_at(data@, offset as int),
{
    if data.len() < 2 || offset > data.len() - 2 {
        return Err(IcoError::Truncated);
    }
    let b0: u16 = data[offset] as u16;
    let b1: u16 = data[offset + 1] as u16;
    Ok(b0 + 256 * b1)
}

// ---------------------------------------------------------------------------
// PNG header
// ---------------------------------------------------------------------------

/// Whether the bytes begin with the eight bytes that open every PNG stream.
pub open spec fn has_png_signature(data: Seq<u8>) -> bool {
    &&& data.len() >= 8
    &&& data[0] == 137
    &&& data[1] == 80
    &&& data[2] == 78
    &&& data[3] == 71
    &&& data[4] == 13
    &&& data[5] == 10
    &&& data[6] == 26
    &&& data[7] == 10
}

/// Whether the four bytes at `pos` spell the chunk type `IHDR`.
pub open spec fn is_ihdr_at(data: Seq<u8>, pos: int) -> bool {
    &&& data[pos] == 73
    &&& data[pos + 1] == 72
    &&& data[pos + 2] == 68
    &&& data[pos + 3] == 82
}

/// Walks the chunk sequence that starts at `pos` and gives the offset of the
/// data of the first `IHDR` chunk.
///
/// A chunk is a big-endian length, a four-byte type, that many bytes of data
/// and a four-byte checksum, which is not looked at. The walk fails with
/// `Truncated` when a chunk does not fit in the bytes, when the bytes end
/// before an `IHDR` was seen, or when the `IHDR` holds fewer than 13 bytes.
pub open spec fn find_ihdr(data: Seq<u8>, pos: int) -> Result<int, IcoError>
    decreases data.len() - pos,
{
    if pos < 0 || pos + 8 > data.len() {
        Err(IcoError::Truncated)
    } else {
        let len = be_u32_at(data, pos);
        if pos + 8 + len + 4 > data.len() {
            Err(IcoError::Truncated)
        } else if is_ihdr_at(data, pos + 4) {
            if len < 13 {
                Err(IcoError::Truncated)
            } else {
                Ok(pos + 8)
            }
        } else {
            find_ihdr(data, pos + 8 + len + 4)
        }
    }
}

/// The number of samples per pixel of a PNG colour type.
pub open spec fn png_channels(color_type: u8) -> Option<int> {
    if color_type == 0 {
        Some(1)
    } else if color_type == 2 {
        Some(3)
    } else if color_type == 3 {
        Some(1)
    } else if color_type == 4 {
        Some(2)
    } else if color_type == 6 {
        Some(4)
    } else {
        None
    }
}

/// The bits that one pixel takes: the palette index width for an indexed
/// image, the sample depth times the number of samples otherwise.
pub open spec fn png_bits_per_pixel(bit_depth: u8, color_type: u8) -> Option<int> {
    match png_channels(color_type) {
        None => None,
        Some(channels) => if color_type == 3 {
            Some(bit_depth as int)
        } else {
            Some(bit_depth * channels)
        },
    }
}

/// Width, height and bits per pixel of the `IHDR` whose data starts at `p`.
pub open spec fn ihdr_info(data: Seq<u8>, p: int) -> Result<(u32, u32, u32), IcoError> {
    match png_bits_per_pixel(data[p + 8], data[p + 9]) {
        None => Err(IcoError::UnsupportedColorType),
        Some(bpp) => Ok((be_u32_at(data, p) as u32, be_u32_at(data, p + 4) as u32, bpp as u32)),
    }
}

/// What the chunk sequence from `pos` on says of the image.
pub open spec fn png_info_from(data: Seq<u8>, pos: int) -> Result<(u32, u32, u32), IcoError> {
    match find_ihdr(data, pos) {
        Err(e) => Err(e),
        Ok(p) => ihdr_info(data, p),
    }
}

/// Width, height and bits per pixel of a PNG byte stream.
pub open spec fn png_info(data: Seq<u8>) -> Result<(u32, u32, u32), IcoError> {
    if !has_png_signature(data) {
        Err(IcoError::NotAPng)
    } else {
        png_info_from(data, 8)
    }
}

/// Tells whether the bytes begin with the PNG signature.
pub fn is_png_bytes(data: &[u8]) -> (r: bool)
    ensures
        r == has_png_signature(data@),
{
    data.len() >= 8 && data[0] == 137 && data[1] == 80 && data[2] == 78 && data[3] == 71
        && data[4] == 13 && data[5] == 10 && data[6] == 26 && data[7] == 10
}

/// Reads width, height and bits per pixel from the first `IHDR` chunk of a
/// PNG byte stream. Nothing behind that chunk is looked at.
pub fn parse_png_info(data: &[u8]) -> (r: Result<(u32, u32, u32), IcoError>)
    ensures
        r == png_info(data@),
{
    if !is_png_bytes(data) {
        return Err(IcoError::NotAPng);
    }
    let mut pos: usize = 8;
    while data.len() - pos >= 8
        invariant
            8 <= pos <= data.len(),
            png_info(data@) == png_info_from(data@, pos as int),
        decreases data.len() - pos,
    {
        let len: usize = match read_be_u32(data, pos) {
            Ok(v) => v as usize,
            Err(e) => {
                return Err(e);
            },
        };
        let body: usize = pos + 8;
        let left: usize = data.len() - body;
        if len > left || left - len < 4 {
            return Err(IcoError::Truncated);
        }
        if data[pos + 4] == 73 && data[pos + 5] == 72 && data[pos + 6] == 68 && data[pos + 7]
            == 82 {
            if len < 13 {
                return Err(IcoError::Truncated);
            }
            let w: u32 = match read_be_u32(data, body) {
                Ok(v) => v,
                Err(e) => {
                    return Err(e);
                },
            };
            let h: u32 = match read_be_u32(data, body + 4) {
                Ok(v) => v,
                Err(e) => {
                    return Err(e);
                },
            };
            let bit_depth: u8 = data[body + 8];
            let color_type: u8 = data[body + 9];
            let channels: u32 = match color_type {
                0 => 1,
                2 => 3,
                3 => 1,
                4 => 2,
                6 => 4,
                _ => {
                    return Err(IcoError::UnsupportedColorType);
                },
            };
            let bits_per_pixel: u32 = if color_type == 3 {
                bit_depth as u32
            } else {
                (bit_depth as u32) * channels
            };
            return Ok((w, h, bits_per_pixel));
        }
        pos = body + len + 4;
    }
    Err(IcoError::Truncated)
}

/// A stream whose first `IHDR` declares colour type 6 (truecolour with alpha)
/// is reported with four samples per pixel: 32 bits at depth 8, 64 at depth
/// 16.
pub proof fn lemma_rgba_bits_per_pixel(data: Seq<u8>, p: int)
    requires
        has_png_signature(data),
        find_ihdr(data, 8) == Ok::<int, IcoError>(p),
        data[p + 9] == 6,
    ensures
        png_info(data) is Ok,
        png_info(data)->Ok_0.2 == 4 * data[p + 8],
        data[p + 8] == 8 ==> png_info(data)->Ok_0.2 == 32,
        data[p + 8] == 16 ==> png_info(data)->Ok_0.2 == 64,
{
}

/// A stream whose first `IHDR` declares colour type 3 (indexed) is reported
/// with the bit depth field itself as its bits per pixel.
pub proof fn lemma_indexed_bits_per_pixel(data: Seq<u8>, p: int)
    requires
        has_png_signature(data),
        find_ihdr(data, 8) == Ok::<int, IcoError>(p),
        data[p + 9] == 3,
    ensures
        png_info(data) is Ok,
        png_info(data)->Ok_0.2 == data[p + 8],
{
}

// ---------------------------------------------------------------------------
// Bitmap information header
// ---------------------------------------------------------------------------

/// The number of palette entries that a bitmap header implies.
///
/// There is no palette from 32 bits per pixel on, nor from 24 bits on where
/// the header names no count. Otherwise a count that the header names is
/// taken at its word, and a header that names none has `1 << bit_count`
/// entries.
pub open spec fn dib_palette_count(clr_used: int, bit_count: int) -> Result<u32, IcoError> {
    if (clr_used == 0 && bit_count >= 24) || bit_count >= 32 {
        Ok(0u32)
    } else if clr_used != 0 {
        Ok(clr_used as u32)
    } else if pow2(bit_count as nat) > u32::MAX {
        Err(IcoError::PaletteTooLarge)
    } else {
        Ok(pow2(bit_count as nat) as u32)
    }
}

/// The height of the image proper. The stored height counts the colour rows
/// and the mask rows stacked on them, so it is halved, rounding toward zero.
pub open spec fn dib_image_height(stored: int) -> int {
    if stored < 0 {
        (-stored) / 2
    } else {
        stored / 2
    }
}

/// Width, height, bit count and palette size of an entry that starts with a
/// bitmap information header.
pub open spec fn dib_info(data: Seq<u8>) -> Result<(u32, u32, u32, u32), IcoError> {
    if data.len() < 4 {
        Err(IcoError::Truncated)
    } else if le_u32_at(data, 0) < 40 {
        Err(IcoError::HeaderTooShort)
    } else if data.len() < 40 {
        Err(IcoError::Truncated)
    } else if le_u32_at(data, 16) != 0 {
        Err(IcoError::UnsupportedCompression)
    } else if le_u16_at(data, 12) != 1 {
        Err(IcoError::InvalidPlanes)
    } else if le_u32_at(data, 36) != 0 {
        Err(IcoError::InvalidField)
    } else if le_i32_at(data, 4) <= 0 {
        Err(IcoError::InvalidWidth)
    } else {
        match dib_palette_count(le_u32_at(data, 32), le_u16_at(data, 14)) {
            Err(e) => Err(e),
            Ok(palette) => Ok(
                (
                    le_i32_at(data, 4) as u32,
                    dib_image_height(le_i32_at(data, 8)) as u32,
                    le_u16_at(data, 14) as u32,
                    palette,
                ),
            ),
        }
    }
}

/// `1 << n`, where that fits in 32 bits.
fn shift_one(n: u16) -> (r: Option<u32>)
    ensures
        n < 32 ==> r == Some(pow2(n as nat) as u32) && pow2(n as nat) <= u32::MAX,
        n >= 32 ==> r is None,
{
    if n >= 32 {
        None
    } else {
        proof {
            vstd::bits::lemma_u32_pow2_no_overflow(n as nat);
            vstd::bits::lemma_u32_shl_is_mul(1u32, n as u32);
        }
        Some(1u32 << (n as u32))
    }
}

/// Reads width, height, bit count and palette size from the bitmap
/// information header that an entry without PNG payload starts with.
pub fn parse_dib_info(data: &[u8]) -> (r: Result<(u32, u32, u32, u32), IcoError>)
    ensures
        r == dib_info(data@),
{
    if data.len() < 4 {
        return Err(IcoError::Truncated);
    }
    let header_size: u32 = match read_le_u32(data, 0) {
        Ok(v) => v,
        Err(e) => {
            return Err(e);
        },
    };
    if header_size < 40 {
        return Err(IcoError::HeaderTooShort);
    }
    if data.len() < 40 {
        return Err(IcoError::Truncated);
    }
    let width: i32 = match read_le_i32(data, 4) {
        Ok(v) => v,
        Err(e) => {
            return Err(e);
        },
    };
    let height: i32 = match read_le_i32(data, 8) {
        Ok(v) => v,
        Err(e) => {
            return Err(e);
        },
    };
    let planes: u16 = match read_le_u16(data, 12) {
        Ok(v) => v,
        Err(e) => {
            return Err(e);
        },
    };
    let bit_count: u16 = match read_le_u16(data, 14) {
        Ok(v) => v,
        Err(e) => {
            return Err(e);
        },
    };
    let compression: u32 = match read_le_u32(data, 16) {
        Ok(v) => v,
        Err(e) => {
            return Err(e);
        },
    };
    let clr_used: u32 = match read_le_u32(data, 32) {
        Ok(v) => v,
        Err(e) => {
            return Err(e);
        },
    };
    let clr_important: u32 = match read_le_u32(data, 36) {
        Ok(v) => v,
        Err(e) => {
            return Err(e);
        },
    };

    if compression != 0 {
        return Err(IcoError::UnsupportedCompression);
    }
    if planes != 1 {
        return Err(IcoError::InvalidPlanes);
    }
    if clr_important != 0 {
        return Err(IcoError::InvalidField);
    }
    if width <= 0 {
        return Err(IcoError::InvalidWidth);
    }
    let height_abs: u32 = if height >= 0 {
        height as u32
    } else {
        (-(height + 1)) as u32 + 1
    };
    let image_height: u32 = height_abs / 2;
    let palette_count: u32 = if (clr_used == 0 && bit_count >= 24) || bit_count >= 32 {
        0
    } else if clr_used != 0 {
        clr_used
    } else {
        match shift_one(bit_count) {
            Some(v) => v,
            None => {
                return Err(IcoError::PaletteTooLarge);
            },
        }
    };
    Ok((width as u32, image_height, bit_count as u32, palette_count))
}

/// A header of at least 40 bytes that declares compressed pixel data is
/// refused as such, whatever else it holds.
pub proof fn lemma_compressed_dib_rejected(data: Seq<u8>)
    requires
        data.len() >= 40,
        le_u32_at(data, 0) >= 40,
        le_u32_at(data, 16) != 0,
    ensures
        dib_info(data) == Err::<(u32, u32, u32, u32), IcoError>(IcoError::UnsupportedCompression),
{
}

/// A buffer that is too short for the 40 header bytes is refused: as
/// `HeaderTooShort` where it declares a header of under 40 bytes, as
/// `Truncated` otherwise.
pub proof fn lemma_short_dib_rejected(data: Seq<u8>)
    requires
        data.len() < 40,
    ensures
        dib_info(data) == if data.len() >= 4 && le_u32_at(data, 0) < 40 {
            Err::<(u32, u32, u32, u32), IcoError>(IcoError::HeaderTooShort)
        } else {
            Err::<(u32, u32, u32, u32), IcoError>(IcoError::Truncated)
        },
{
}

/// A bitmap of 32 bits per pixel or more has no palette, whatever count its
/// header names. One of 24 to 31 bits has the palette that its header names,
/// and none where it names none.
pub proof fn lemma_palette_of_deep_bitmap(data: Seq<u8>)
    requires
        dib_info(data) is Ok,
        le_u16_at(data, 14) >= 24,
    ensures
        le_u16_at(data, 14) >= 32 ==> dib_info(data)->Ok_0.3 == 0,
        le_u16_at(data, 14) < 32 ==> dib_info(data)->Ok_0.3 == le_u32_at(data, 32),
{
}

/// No header makes the palette size overflow: a bit count is only shifted
/// when it is below 24.
pub proof fn lemma_palette_always_fits(data: Seq<u8>)
    ensures
        dib_info(data) != Err::<(u32, u32, u32, u32), IcoError>(IcoError::PaletteTooLarge),
{
    if data.len() >= 40 {
        let bit_count = le_u16_at(data, 14);
        if 0 <= bit_count < 24 {
            vstd::bits::lemma_u32_pow2_no_overflow(bit_count as nat);
        }
    }
}

} // verus!
