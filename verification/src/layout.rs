use crate::create::EncodedImageView;
use crate::parse::{as_signed32, has_png_signature, le_u16_at, le_u32_at};
use vstd::prelude::*;

verus! {

// ---------------------------------------------------------------------------
// Fields of the directory
// ---------------------------------------------------------------------------

/// The two bytes of a 16-bit field, low byte first.
pub open spec fn u16_le(v: int) -> Seq<u8> {
    seq![(v % 256) as u8, (v / 256 % 256) as u8]
}

/// The four bytes of a 32-bit field, low byte first.
pub open spec fn u32_le(v: int) -> Seq<u8> {
    seq![
        (v % 256) as u8,
        (v / 256 % 256) as u8,
        (v / 65536 % 256) as u8,
        (v / 16777216 % 256) as u8,
    ]
}

/// The byte that stands for a width or height: the number itself up to 255,
/// and 0 for everything from 256 on.
pub open spec fn dim_byte(dim: u32) -> u8 {
    if dim >= 256 {
        0
    } else {
        dim as u8
    }
}

/// The nearest value that a 16-bit field can hold.
pub open spec fn clamp_to_u16(v: int) -> u16 {
    if v <= 0 {
        0
    } else if v >= 65535 {
        65535
    } else {
        v as u16
    }
}

/// The bit count that the directory of an icon file reports for an image.
///
/// With `compat` set a PNG payload is always reported as 32 bits deep,
/// whatever its header says. Otherwise the depth of the image is reported,
/// read as a signed number and clamped to the field.
pub open spec fn icon_bit_count(img: EncodedImageView, compat: bool) -> u16 {
    if compat && has_png_signature(img.data) {
        32
    } else {
        clamp_to_u16(as_signed32(img.bit_depth as int))
    }
}

/// The number of payload bytes of the first `k` images.
pub open spec fn payload_len_before(images: Seq<EncodedImageView>, k: int) -> int
    decreases k,
{
    if k <= 0 {
        0
    } else {
        payload_len_before(images, k - 1) + images[k - 1].data.len()
    }
}

/// Where the payload of image `k` starts, counted from the start of the
/// file. Payloads follow the directory one after the other; the sum is kept
/// in 32 bits and wraps.
pub open spec fn payload_offset(images: Seq<EncodedImageView>, k: int) -> int {
    (6 + 16 * images.len() + payload_len_before(images, k)) % 0x1_0000_0000
}

/// The sixteen bytes that describe one image in the directory.
#[verifier::opaque]
pub open spec fn directory_entry(
    img: EncodedImageView,
    offset: int,
    is_cursor: bool,
    compat: bool,
) -> Seq<u8> {
    seq![dim_byte(img.width), dim_byte(img.height), 0u8, 0u8] + (if is_cursor {
        u16_le(img.hotspot_x as int) + u16_le(img.hotspot_y as int)
    } else {
        u16_le(1) + u16_le(icon_bit_count(img, compat) as int)
    }) + u32_le(img.data.len() as int % 0x1_0000_0000) + u32_le(offset)
}

/// The directory entries of the first `k` images.
pub open spec fn directory(
    images: Seq<EncodedImageView>,
    k: int,
    is_cursor: bool,
    compat: bool,
) -> Seq<u8>
    decreases k,
{
    if k <= 0 {
        Seq::empty()
    } else {
        directory(images, k - 1, is_cursor, compat) + directory_entry(
            images[k - 1],
            payload_offset(images, k - 1),
            is_cursor,
            compat,
        )
    }
}

/// The payloads of the first `k` images, one after the other.
pub open spec fn payloads(images: Seq<EncodedImageView>, k: int) -> Seq<u8>
    decreases k,
{
    if k <= 0 {
        Seq::empty()
    } else {
        payloads(images, k - 1) + images[k - 1].data
    }
}

/// The six bytes that open a container: a reserved zero, the resource kind
/// and the number of entries.
pub open spec fn container_header(container_type: u16, count: int) -> Seq<u8> {
    u16_le(0) + u16_le(container_type as int) + u16_le(count % 65536)
}

/// The bytes of a whole container: header, directory, payloads.
pub open spec fn container_bytes(
    container_type: u16,
    is_cursor: bool,
    images: Seq<EncodedImageView>,
    compat: bool,
) -> Seq<u8> {
    container_header(container_type, images.len() as int) + directory(
        images,
        images.len() as int,
        is_cursor,
        compat,
    ) + payloads(images, images.len() as int)
}

/// Whether the directory entry of image `k` stands in `bytes` at its place,
/// byte `6 + 16 * k`, field by field: width and height, two zero bytes, the
/// hotspot (in a cursor file) or one plane and the bit count (in an icon
/// file), the length of the payload, and `offset`.
pub open spec fn entry_in_place(
    bytes: Seq<u8>,
    k: int,
    img: EncodedImageView,
    offset: int,
    is_cursor: bool,
    compat: bool,
) -> bool {
    let at = 6 + 16 * k;
    &&& at + 16 <= bytes.len()
    &&& bytes[at] == dim_byte(img.width)
    &&& bytes[at + 1] == dim_byte(img.height)
    &&& bytes[at + 2] == 0
    &&& bytes[at + 3] == 0
    &&& le_u16_at(bytes, at + 4) == if is_cursor {
        img.hotspot_x
    } else {
        1
    }
    &&& le_u16_at(bytes, at + 6) == if is_cursor {
        img.hotspot_y
    } else {
        icon_bit_count(img, compat)
    }
    &&& le_u32_at(bytes, at + 8) == img.data.len() % 0x1_0000_0000
    &&& le_u32_at(bytes, at + 12) == offset
}

/// Whether `bytes` open with the header of a container of this kind with
/// `count` entries.
pub open spec fn header_in_place(bytes: Seq<u8>, container_type: u16, count: int) -> bool {
    &&& bytes.len() >= 6
    &&& bytes[0] == 0
    &&& bytes[1] == 0
    &&& le_u16_at(bytes, 2) == container_type
    &&& le_u16_at(bytes, 4) == count % 65536
}

// ---------------------------------------------------------------------------
// What the layout guarantees
// ---------------------------------------------------------------------------

/// The payload of an image starts where the one before it ends, in 32-bit
/// arithmetic.
pub proof fn lemma_offset_step(images: Seq<EncodedImageView>, k: int)
    requires
        0 <= k < images.len(),
    ensures
        payload_offset(images, k + 1) == (payload_offset(images, k) + images[k].data.len()
            % 0x1_0000_0000) % 0x1_0000_0000,
{
    let base = 6 + 16 * images.len() + payload_len_before(images, k);
    let len = images[k].data.len() as int;
    assert(payload_len_before(images, k + 1) == payload_len_before(images, k) + len);
    vstd::arithmetic::div_mod::lemma_add_mod_noop(base, len, 0x1_0000_0000);
}

/// The bytes of a directory entry, field by field.
pub proof fn lemma_directory_entry_fields(
    img: EncodedImageView,
    offset: int,
    is_cursor: bool,
    compat: bool,
)
    ensures
        ({
            let e = directory_entry(img, offset, is_cursor, compat);
            &&& e.len() == 16
            &&& e[0] == dim_byte(img.width)
            &&& e[1] == dim_byte(img.height)
            &&& e[2] == 0
            &&& e[3] == 0
            &&& e.subrange(4, 6) == if is_cursor {
                u16_le(img.hotspot_x as int)
            } else {
                u16_le(1)
            }
            &&& e.subrange(6, 8) == if is_cursor {
                u16_le(img.hotspot_y as int)
            } else {
                u16_le(icon_bit_count(img, compat) as int)
            }
            &&& e.subrange(8, 12) == u32_le(img.data.len() as int % 0x1_0000_0000)
            &&& e.subrange(12, 16) == u32_le(offset)
        }),
{
    reveal(directory_entry);
    let e = directory_entry(img, offset, is_cursor, compat);
    assert(e.len() == 16);
    assert(e.subrange(4, 6) =~= if is_cursor {
        u16_le(img.hotspot_x as int)
    } else {
        u16_le(1)
    });
    assert(e.subrange(6, 8) =~= if is_cursor {
        u16_le(img.hotspot_y as int)
    } else {
        u16_le(icon_bit_count(img, compat) as int)
    });
    assert(e.subrange(8, 12) =~= u32_le(img.data.len() as int % 0x1_0000_0000));
    assert(e.subrange(12, 16) =~= u32_le(offset));
}

/// The directory of `m` images is `16 * m` bytes long.
pub proof fn lemma_directory_len(
    images: Seq<EncodedImageView>,
    m: int,
    is_cursor: bool,
    compat: bool,
)
    requires
        0 <= m,
    ensures
        directory(images, m, is_cursor, compat).len() == 16 * m,
    decreases m,
{
    if m > 0 {
        lemma_directory_len(images, m - 1, is_cursor, compat);
        lemma_directory_entry_fields(
            images[m - 1],
            payload_offset(images, m - 1),
            is_cursor,
            compat,
        );
    }
}

/// The entry of image `k` stands in the directory at `16 * k`.
pub proof fn lemma_directory_layout(
    images: Seq<EncodedImageView>,
    m: int,
    k: int,
    is_cursor: bool,
    compat: bool,
)
    requires
        0 <= k < m,
    ensures
        directory(images, m, is_cursor, compat).len() == 16 * m,
        directory(images, m, is_cursor, compat).subrange(16 * k, 16 * k + 16) == directory_entry(
            images[k],
            payload_offset(images, k),
            is_cursor,
            compat,
        ),
    decreases m,
{
    let last = directory_entry(images[m - 1], payload_offset(images, m - 1), is_cursor, compat);
    let front = directory(images, m - 1, is_cursor, compat);
    lemma_directory_len(images, m - 1, is_cursor, compat);
    lemma_directory_entry_fields(images[m - 1], payload_offset(images, m - 1), is_cursor, compat);
    assert(directory(images, m, is_cursor, compat) == front + last);
    if k == m - 1 {
        assert((front + last).subrange(16 * k, 16 * k + 16) =~= last);
    } else {
        lemma_directory_layout(images, m - 1, k, is_cursor, compat);
        assert((front + last).subrange(16 * k, 16 * k + 16) =~= front.subrange(
            16 * k,
            16 * k + 16,
        ));
    }
}

/// The payloads of the first `m` images take as many bytes as their lengths
/// add up to.
pub proof fn lemma_payloads_len(images: Seq<EncodedImageView>, m: int)
    requires
        0 <= m,
    ensures
        payloads(images, m).len() == payload_len_before(images, m),
        0 <= payload_len_before(images, m),
    decreases m,
{
    if m > 0 {
        lemma_payloads_len(images, m - 1);
    }
}

/// The payload of image `k` stands among the payloads behind those of the
/// images before it.
pub proof fn lemma_payloads_layout(images: Seq<EncodedImageView>, m: int, k: int)
    requires
        0 <= k < m,
    ensures
        payloads(images, m).len() == payload_len_before(images, m),
        0 <= payload_len_before(images, k),
        payload_len_before(images, k) + images[k].data.len() <= payload_len_before(images, m),
        payloads(images, m).subrange(
            payload_len_before(images, k),
            payload_len_before(images, k) + images[k].data.len(),
        ) == images[k].data,
    decreases m,
{
    let front = payloads(images, m - 1);
    let last = images[m - 1].data;
    lemma_payloads_len(images, m - 1);
    assert(payloads(images, m) == front + last);
    if k == m - 1 {
        assert((front + last).subrange(front.len() as int, (front.len() + last.len()) as int)
            =~= last);
    } else {
        lemma_payloads_layout(images, m - 1, k);
        let a = payload_len_before(images, k);
        let b = a + images[k].data.len();
        assert((front + last).subrange(a, b) =~= front.subrange(a, b));
    }
}

/// A container is its six header bytes, sixteen bytes for each image and
/// the payloads.
pub proof fn lemma_container_len(
    container_type: u16,
    is_cursor: bool,
    images: Seq<EncodedImageView>,
    compat: bool,
)
    ensures
        container_header(container_type, images.len() as int).len() == 6,
        container_bytes(container_type, is_cursor, images, compat).len() == 6 + 16 * images.len()
            + payload_len_before(images, images.len() as int),
{
    lemma_directory_len(images, images.len() as int, is_cursor, compat);
    lemma_payloads_len(images, images.len() as int);
}

/// In a container the entry of image `k` stands at byte `6 + 16 * k`.
pub proof fn lemma_container_entry(
    container_type: u16,
    is_cursor: bool,
    images: Seq<EncodedImageView>,
    compat: bool,
    k: int,
)
    requires
        0 <= k < images.len(),
    ensures
        6 + 16 * k + 16 <= container_bytes(container_type, is_cursor, images, compat).len(),
        container_bytes(container_type, is_cursor, images, compat).subrange(
            6 + 16 * k,
            6 + 16 * k + 16,
        ) == directory_entry(images[k], payload_offset(images, k), is_cursor, compat),
{
    let n = images.len() as int;
    let head = container_header(container_type, n);
    let dir = directory(images, n, is_cursor, compat);
    let pay = payloads(images, n);
    lemma_container_len(container_type, is_cursor, images, compat);
    lemma_directory_layout(images, n, k, is_cursor, compat);
    lemma_payloads_len(images, n);
    assert(head.len() == 6);
    assert(dir.len() == 16 * n);
    assert(container_bytes(container_type, is_cursor, images, compat) == head + dir + pay);
    assert((head + dir + pay).subrange(6 + 16 * k, 6 + 16 * k + 16) =~= dir.subrange(
        16 * k,
        16 * k + 16,
    ));
}

/// A container opens with its header and is as long as header, directory
/// and payloads together.
pub proof fn lemma_container_header(
    container_type: u16,
    is_cursor: bool,
    images: Seq<EncodedImageView>,
    compat: bool,
)
    ensures
        header_in_place(
            container_bytes(container_type, is_cursor, images, compat),
            container_type,
            images.len() as int,
        ),
        container_bytes(container_type, is_cursor, images, compat).len() == 6 + 16 * images.len()
            + payload_len_before(images, images.len() as int),
{
    let n = images.len() as int;
    let head = container_header(container_type, n);
    let rest = directory(images, n, is_cursor, compat) + payloads(images, n);
    lemma_container_len(container_type, is_cursor, images, compat);
    let bytes = container_bytes(container_type, is_cursor, images, compat);
    assert(bytes =~= head + rest);
    assert(head.len() == 6);
    assert(forall|i: int| 0 <= i < 6 ==> bytes[i] == head[i]);
    assert(head[0] == 0 && head[1] == 0);
    assert(head[2] == container_type % 256 && head[3] == container_type / 256 % 256);
    assert(head[4] == (n % 65536) % 256 && head[5] == (n % 65536) / 256 % 256);
}

/// In a container every field of the entry of image `k` stands at its
/// place.
pub proof fn lemma_container_entry_fields(
    container_type: u16,
    is_cursor: bool,
    images: Seq<EncodedImageView>,
    compat: bool,
    k: int,
)
    requires
        0 <= k < images.len(),
    ensures
        entry_in_place(
            container_bytes(container_type, is_cursor, images, compat),
            k,
            images[k],
            payload_offset(images, k),
            is_cursor,
            compat,
        ),
{
    let bytes = container_bytes(container_type, is_cursor, images, compat);
    let offset = payload_offset(images, k);
    let entry = directory_entry(images[k], offset, is_cursor, compat);
    let at = 6 + 16 * k;
    lemma_container_entry(container_type, is_cursor, images, compat, k);
    lemma_directory_entry_fields(images[k], offset, is_cursor, compat);
    let part = bytes.subrange(at, at + 16);
    assert(forall|i: int| 0 <= i < 16 ==> part[i] == bytes[at + i]);
    assert(part[0] == bytes[at] && part[1] == bytes[at + 1] && part[2] == bytes[at + 2]
        && part[3] == bytes[at + 3]);
    lemma_u16_field(entry.subrange(4, 6), if is_cursor {
        images[k].hotspot_x as int
    } else {
        1
    });
    assert(entry.subrange(4, 6)[0] == bytes[at + 4] && entry.subrange(4, 6)[1] == bytes[at + 5]);
    lemma_u16_field(entry.subrange(6, 8), if is_cursor {
        images[k].hotspot_y as int
    } else {
        icon_bit_count(images[k], compat) as int
    });
    assert(entry.subrange(6, 8)[0] == bytes[at + 6] && entry.subrange(6, 8)[1] == bytes[at + 7]);
    lemma_u32_field(entry.subrange(8, 12), images[k].data.len() as int % 0x1_0000_0000);
    assert(entry.subrange(8, 12)[0] == bytes[at + 8] && entry.subrange(8, 12)[1] == bytes[at + 9]
        && entry.subrange(8, 12)[2] == bytes[at + 10] && entry.subrange(8, 12)[3] == bytes[at
        + 11]);
    lemma_u32_field(entry.subrange(12, 16), offset);
    assert(entry.subrange(12, 16)[0] == bytes[at + 12] && entry.subrange(12, 16)[1] == bytes[at
        + 13] && entry.subrange(12, 16)[2] == bytes[at + 14] && entry.subrange(12, 16)[3]
        == bytes[at + 15]);
}

/// A 16-bit field is read back as the value written.
proof fn lemma_u16_field(field: Seq<u8>, v: int)
    requires
        0 <= v < 0x1_0000,
        field == u16_le(v),
    ensures
        field.len() == 2,
        le_u16_at(field, 0) == v,
{
}

/// A 32-bit field is read back as the value written.
proof fn lemma_u32_field(field: Seq<u8>, v: int)
    requires
        0 <= v < 0x1_0000_0000,
        field == u32_le(v),
    ensures
        field.len() == 4,
        le_u32_at(field, 0) == v,
{
}

/// The payload of image `k` stands in the file behind the directory and the
/// payloads before it. Where that place is below 4 GiB, it is the offset
/// which the directory names.
pub proof fn lemma_container_payload(
    container_type: u16,
    is_cursor: bool,
    images: Seq<EncodedImageView>,
    compat: bool,
    k: int,
)
    requires
        0 <= k < images.len(),
    ensures
        ({
            let bytes = container_bytes(container_type, is_cursor, images, compat);
            let start = 6 + 16 * images.len() + payload_len_before(images, k);
            &&& start + images[k].data.len() <= bytes.len()
            &&& bytes.subrange(start, start + images[k].data.len()) == images[k].data
            &&& start < 0x1_0000_0000 ==> payload_offset(images, k) == start
        }),
{
    let n = images.len() as int;
    let head = container_header(container_type, n);
    let dir = directory(images, n, is_cursor, compat);
    let pay = payloads(images, n);
    lemma_container_len(container_type, is_cursor, images, compat);
    lemma_directory_len(images, n, is_cursor, compat);
    lemma_payloads_layout(images, n, k);
    let a = payload_len_before(images, k);
    let b = a + images[k].data.len();
    assert(head.len() == 6);
    assert(dir.len() == 16 * n);
    assert(container_bytes(container_type, is_cursor, images, compat) == head + dir + pay);
    assert((head + dir + pay).subrange(6 + 16 * n + a, 6 + 16 * n + b) =~= pay.subrange(a, b));
}

/// A width or height of 256 or more is written as a zero byte, a smaller
/// one as itself.
pub proof fn lemma_large_dimension_is_zero_byte(
    container_type: u16,
    is_cursor: bool,
    images: Seq<EncodedImageView>,
    compat: bool,
    k: int,
)
    requires
        0 <= k < images.len(),
    ensures
        images[k].width >= 256 ==> container_bytes(container_type, is_cursor, images, compat)[6
            + 16 * k] == 0,
        images[k].height >= 256 ==> container_bytes(container_type, is_cursor, images, compat)[6
            + 16 * k + 1] == 0,
        images[k].width < 256 ==> container_bytes(container_type, is_cursor, images, compat)[6
            + 16 * k] == images[k].width,
        images[k].height < 256 ==> container_bytes(container_type, is_cursor, images, compat)[6
            + 16 * k + 1] == images[k].height,
{
    lemma_container_entry_fields(container_type, is_cursor, images, compat, k);
}

/// In an icon file the bit count of a PNG payload reads 32 when the
/// compatibility switch is on, and what the image says when it is off: 64
/// for a picture with four 16-bit samples per pixel.
pub proof fn lemma_icon_png_bit_count(
    container_type: u16,
    images: Seq<EncodedImageView>,
    compat: bool,
    k: int,
)
    requires
        0 <= k < images.len(),
        has_png_signature(images[k].data),
    ensures
        ({
            let bytes = container_bytes(container_type, false, images, compat);
            let bit_count = le_u16_at(bytes, 6 + 16 * k + 6);
            &&& compat ==> bit_count == 32
            &&& !compat ==> bit_count == clamp_to_u16(as_signed32(images[k].bit_depth as int))
            &&& !compat && images[k].bit_depth == 64 ==> bit_count == 64
        }),
{
    lemma_container_entry_fields(container_type, false, images, compat, k);
}

/// In a cursor file the two 16-bit fields behind the reserved byte hold the
/// hotspot of the image.
pub proof fn lemma_cursor_hotspot_fields(
    container_type: u16,
    images: Seq<EncodedImageView>,
    compat: bool,
    k: int,
)
    requires
        0 <= k < images.len(),
    ensures
        ({
            let bytes = container_bytes(container_type, true, images, compat);
            &&& le_u16_at(bytes, 6 + 16 * k + 4) == images[k].hotspot_x
            &&& le_u16_at(bytes, 6 + 16 * k + 6) == images[k].hotspot_y
        }),
{
    lemma_container_entry_fields(container_type, true, images, compat, k);
}

} // verus!
