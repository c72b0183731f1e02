use crate::parse::{le_i32_at, le_u16_at, le_u32_at, read_le_i32, read_le_u16, read_le_u32};
use vstd::prelude::*;

verus! {

/// The header of a bitmap whose pixels are indices into a colour table.
#[derive(Clone, Copy, Debug, PartialEq, Eq, Structural)]
pub struct PaletteBitmap {
    /// The width of the picture in pixels, at least 1.
    pub width: u32,
    /// The height of the picture proper, half of what the header stores.
    pub height: u32,
    /// The bits that one index takes: 1, 4 or 8.
    pub bits: u16,
    /// The number of entries of the colour table.
    pub colors: u32,
}

/// The most entries that a colour table of this index width has.
pub open spec fn full_palette(bits: int) -> int {
    if bits == 1 {
        2
    } else if bits == 4 {
        16
    } else {
        256
    }
}

/// The entries of the colour table: as many as the header names, and the
/// full table where it names none or too many.
pub open spec fn palette_entries(bits: int, clr_used: int) -> int {
    if clr_used == 0 || clr_used > full_palette(bits) {
        full_palette(bits)
    } else {
        clr_used
    }
}

/// The header of a palette bitmap of at most 8192 x 8192 pixels: forty
/// bytes that declare a header of forty bytes, a width of at least 1, an
/// even stored height of at least 2, and 1, 4 or 8 bits per pixel.
pub open spec fn palette_bitmap(data: Seq<u8>) -> Option<PaletteBitmap> {
    let width = le_i32_at(data, 4);
    let stored = le_i32_at(data, 8);
    let bits = le_u16_at(data, 14);
    if data.len() >= 40 && le_u32_at(data, 0) == 40 && width >= 1 && stored >= 2 && stored % 2
        == 0 && (bits == 1 || bits == 4 || bits == 8) && width * (stored / 2) <= 0x400_0000 {
        Some(
            PaletteBitmap {
                width: width as u32,
                height: (stored / 2) as u32,
                bits: bits as u16,
                colors: palette_entries(bits, le_u32_at(data, 32)) as u32,
            },
        )
    } else {
        None
    }
}

/// The bytes that the indices of one row take.
pub open spec fn row_bytes(width: int, bits: int) -> int {
    if bits == 1 {
        (width + 7) / 8
    } else if bits == 4 {
        (width + 1) / 2
    } else {
        width
    }
}

/// The bytes from one row to the next: rows are padded to four bytes.
pub open spec fn row_stride(width: int, bits: int) -> int {
    (row_bytes(width, bits) + 3) / 4 * 4
}

/// The byte of its row in which pixel `c` stands.
pub open spec fn pixel_byte(c: int, bits: int) -> int {
    if bits == 1 {
        c / 8
    } else if bits == 4 {
        c / 2
    } else {
        c
    }
}

/// The value of bit `k` of a byte, counted from the highest.
pub open spec fn bit_weight(k: int) -> int {
    if k == 0 {
        128
    } else if k == 1 {
        64
    } else if k == 2 {
        32
    } else if k == 3 {
        16
    } else if k == 4 {
        8
    } else if k == 5 {
        4
    } else if k == 6 {
        2
    } else {
        1
    }
}

/// The index that `byte` holds for pixel `c`. Pixels are packed from the
/// highest bit down.
pub open spec fn pixel_index(byte: u8, bits: int, c: int) -> int {
    if bits == 1 {
        byte as int / bit_weight(c % 8) % 2
    } else if bits == 4 {
        if c % 2 == 0 {
            byte as int / 16
        } else {
            byte as int % 16
        }
    } else {
        byte as int
    }
}

/// Where the byte of pixel `c` of stored row `r` stands: behind the header,
/// the colour table and the rows before.
pub open spec fn pixel_place(b: PaletteBitmap, r: int, c: int) -> int {
    40 + 4 * b.colors + r * row_stride(b.width as int, b.bits as int) + pixel_byte(
        c,
        b.bits as int,
    )
}

/// Whether pixel `c` of stored row `r`, where the bytes reach that far,
/// names an entry that the colour table has.
pub open spec fn pixel_fits(data: Seq<u8>, b: PaletteBitmap, r: int, c: int) -> bool {
    pixel_place(b, r, c) < data.len() ==> pixel_index(
        data[pixel_place(b, r, c)],
        b.bits as int,
        c,
    ) < b.colors
}

/// Whether every pixel of the bitmap with header `b` names an entry that
/// the colour table has.
pub open spec fn all_pixels_fit(data: Seq<u8>, b: PaletteBitmap) -> bool {
    forall|r: int, c: int|
        0 <= r < b.height && 0 <= c < b.width ==> #[trigger] pixel_fits(data, b, r, c)
}

/// Whether no pixel of a palette bitmap names a colour that its colour
/// table lacks. Bytes that are no palette bitmap have no such pixel.
pub open spec fn palette_suffices(data: Seq<u8>) -> bool {
    match palette_bitmap(data) {
        None => true,
        Some(b) => all_pixels_fit(data, b),
    }
}

/// Reads the header of a palette bitmap.
pub fn read_palette_bitmap(data: &[u8]) -> (r: Option<PaletteBitmap>)
    ensures
        r == palette_bitmap(data@),
        r matches Some(b) ==> {
            &&& 1 <= b.width <= 0x400_0000
            &&& 1 <= b.height <= 0x400_0000
            &&& (b.bits == 1 || b.bits == 4 || b.bits == 8)
            &&& 1 <= b.colors <= full_palette(b.bits as int)
        },
{
    if data.len() < 40 {
        return None;
    }
    let header_size: u32 = match read_le_u32(data, 0) {
        Ok(v) => v,
        Err(_) => {
            return None;
        },
    };
    let width: i32 = match read_le_i32(data, 4) {
        Ok(v) => v,
        Err(_) => {
            return None;
        },
    };
    let stored: i32 = match read_le_i32(data, 8) {
        Ok(v) => v,
        Err(_) => {
            return None;
        },
    };
    let bits: u16 = match read_le_u16(data, 14) {
        Ok(v) => v,
        Err(_) => {
            return None;
        },
    };
    let clr_used: u32 = match read_le_u32(data, 32) {
        Ok(v) => v,
        Err(_) => {
            return None;
        },
    };
    if header_size != 40 || width < 1 || stored < 2 || stored % 2 != 0 {
        return None;
    }
    if bits != 1 && bits != 4 && bits != 8 {
        return None;
    }
    let height: u32 = (stored / 2) as u32;
    assert(width * (stored / 2) <= 0x7fff_ffff * 0x4000_0000) by (nonlinear_arith)
        requires
            1 <= width <= 0x7fff_ffff,
            1 <= stored / 2 <= 0x4000_0000,
    ;
    if width as u64 * height as u64 > 0x400_0000 {
        return None;
    }
    assert(width <= 0x400_0000 && height <= 0x400_0000) by (nonlinear_arith)
        requires
            width >= 1,
            height >= 1,
            width * height <= 0x400_0000,
    ;
    let full: u32 = if bits == 1 {
        2
    } else if bits == 4 {
        16
    } else {
        256
    };
    let colors: u32 = if clr_used == 0 || clr_used > full {
        full
    } else {
        clr_used
    };
    Some(PaletteBitmap { width: width as u32, height, bits, colors })
}

/// An index is always below the size of the full colour table.
proof fn lemma_index_below_full(byte: u8, bits: int, c: int)
    requires
        bits == 1 || bits == 4 || bits == 8,
        0 <= c,
    ensures
        0 <= pixel_index(byte, bits, c) < full_palette(bits),
{
}

/// Rows further down stand further back.
proof fn lemma_rows_ascend(stride: int, r: int, later: int)
    requires
        0 <= stride,
        0 <= r <= later,
    ensures
        r * stride <= later * stride,
        (r + 1) * stride == r * stride + stride,
{
    assert(r * stride <= later * stride) by (nonlinear_arith)
        requires
            0 <= stride,
            0 <= r <= later,
    ;
    assert((r + 1) * stride == r * stride + stride) by (nonlinear_arith);
}

/// Reads the index that a byte holds for pixel `c`.
fn index_in(byte: u8, bits: u16, c: u32) -> (r: u8)
    requires
        bits == 1 || bits == 4 || bits == 8,
    ensures
        r == pixel_index(byte, bits as int, c as int),
{
    if bits == 1 {
        let k: u32 = c % 8;
        let weight: u8 = if k == 0 {
            128
        } else if k == 1 {
            64
        } else if k == 2 {
            32
        } else if k == 3 {
            16
        } else if k == 4 {
            8
        } else if k == 5 {
            4
        } else if k == 6 {
            2
        } else {
            1
        };
        byte / weight % 2
    } else if bits == 4 {
        if c % 2 == 0 {
            byte / 16
        } else {
            byte % 16
        }
    } else {
        byte
    }
}

/// Finds the byte of its row in which pixel `c` stands.
fn byte_of_pixel(c: u32, bits: u16) -> (r: u32)
    ensures
        r == pixel_byte(c as int, bits as int),
{
    if bits == 1 {
        c / 8
    } else if bits == 4 {
        c / 2
    } else {
        c
    }
}

/// Tells whether every pixel of a palette bitmap names a colour that its
/// colour table has. Only a bitmap with a shortened colour table needs to be
/// looked through.
pub fn palette_covers_pixels(data: &[u8]) -> (ok: bool)
    ensures
        ok == palette_suffices(data@),
{
    let b: PaletteBitmap = match read_palette_bitmap(data) {
        Some(b) => b,
        None => {
            return true;
        },
    };
    let bits: u16 = b.bits;
    let full: u32 = if bits == 1 {
        2
    } else if bits == 4 {
        16
    } else {
        256
    };
    if b.colors >= full {
        assert forall|r: int, c: int| 0 <= r < b.height && 0 <= c < b.width implies #[trigger] pixel_fits(
            data@,
            b,
            r,
            c,
        ) by {
            if pixel_place(b, r, c) < data@.len() {
                lemma_index_below_full(data@[pixel_place(b, r, c)], bits as int, c);
            }
        }
        return true;
    }
    let row: u64 = if bits == 1 {
        (b.width as u64 + 7) / 8
    } else if bits == 4 {
        (b.width as u64 + 1) / 2
    } else {
        b.width as u64
    };
    let stride: u64 = (row + 3) / 4 * 4;
    let base: u64 = 40 + 4 * b.colors as u64;
    let len: u128 = data.len() as u128;
    let mut r: u32 = 0;
    let mut row_at: u128 = base as u128;
    while r < b.height && row_at < len
        invariant
            palette_suffices(data@) == all_pixels_fit(data@, b),
            bits == b.bits,
            bits == 1 || bits == 4 || bits == 8,
            1 <= b.width <= 0x400_0000,
            b.colors < 256,
            stride == row_stride(b.width as int, bits as int),
            stride <= 0x400_0004,
            base == 40 + 4 * b.colors,
            len == data@.len(),
            len <= usize::MAX,
            r <= b.height,
            b.height <= 0x400_0000,
            row_at == base + r * stride,
            forall|r0: int, c: int|
                0 <= r0 < r && 0 <= c < b.width ==> #[trigger] pixel_fits(data@, b, r0, c),
        decreases b.height - r,
    {
        let mut c: u32 = 0;
        while c < b.width && row_at + (byte_of_pixel(c, bits) as u128) < len
            invariant
                palette_suffices(data@) == all_pixels_fit(data@, b),
                bits == b.bits,
                bits == 1 || bits == 4 || bits == 8,
                b.colors < 256,
                stride == row_stride(b.width as int, bits as int),
                base == 40 + 4 * b.colors,
                len == data@.len(),
                len <= usize::MAX,
                r < b.height,
                b.height <= 0x400_0000,
                row_at == base + r * stride,
                row_at < len,
                c <= b.width,
                forall|c0: int| 0 <= c0 < c ==> #[trigger] pixel_fits(data@, b, r as int, c0),
            decreases b.width - c,
        {
            let within: u32 = byte_of_pixel(c, bits);
            let at: usize = (row_at + within as u128) as usize;
            assert(r * stride == r * row_stride(b.width as int, b.bits as int));
            assert(at == pixel_place(b, r as int, c as int));
            let index: u8 = index_in(data[at], bits, c);
            if index as u32 >= b.colors {
                assert(!pixel_fits(data@, b, r as int, c as int));
                return false;
            }
            c += 1;
        }
        proof {
            assert forall|c0: int| 0 <= c0 < b.width implies #[trigger] pixel_fits(
                data@,
                b,
                r as int,
                c0,
            ) by {
                if c0 >= c {
                    assert(pixel_byte(c0, bits as int) >= pixel_byte(c as int, bits as int));
                }
            }
            lemma_rows_ascend(stride as int, r as int, r as int);
            assert((r + 1) * stride <= 0x400_0000 * 0x400_0004) by (nonlinear_arith)
                requires
                    0 <= r + 1 <= 0x400_0000,
                    0 <= stride <= 0x400_0004,
            ;
        }
        r += 1;
        row_at = row_at + stride as u128;
    }
    proof {
        assert forall|r0: int, c0: int| 0 <= r0 < b.height && 0 <= c0 < b.width implies #[trigger] pixel_fits(
            data@,
            b,
            r0,
            c0,
        ) by {
            if r0 >= r {
                lemma_rows_ascend(stride as int, r as int, r0);
            }
        }
    }
    true
}

} // verus!
