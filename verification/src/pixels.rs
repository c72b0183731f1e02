use crate::error::IcoError;
use vstd::prelude::*;

verus! {

/// What a PNG decoder hands back for one frame: the samples as they are
/// stored, with what is needed to read them.
#[derive(Clone, Debug)]
pub struct DecodedPng {
    pub width: u32,
    pub height: u32,
    /// The colour type as the PNG header numbers it: 0 grey, 2 truecolour,
    /// 3 indexed, 4 grey with alpha, 6 truecolour with alpha.
    pub color_type: u8,
    /// The samples, row by row.
    pub bytes: Vec<u8>,
    /// The palette, three bytes for each entry.
    pub palette: Option<Vec<u8>>,
    /// The alpha values of the first palette entries.
    pub transparency: Option<Vec<u8>>,
}

/// The mathematical value of a [`DecodedPng`].
pub struct DecodedPngView {
    pub width: u32,
    pub height: u32,
    pub color_type: u8,
    pub bytes: Seq<u8>,
    pub palette: Option<Seq<u8>>,
    pub transparency: Option<Seq<u8>>,
}

/// The bytes of an optional buffer.
pub open spec fn opt_bytes(v: Option<Vec<u8>>) -> Option<Seq<u8>> {
    match v {
        Some(b) => Some(b@),
        None => None,
    }
}

impl View for DecodedPng {
    type V = DecodedPngView;

    open spec fn view(&self) -> DecodedPngView {
        DecodedPngView {
            width: self.width,
            height: self.height,
            color_type: self.color_type,
            bytes: self.bytes@,
            palette: opt_bytes(self.palette),
            transparency: opt_bytes(self.transparency),
        }
    }
}

// ---------------------------------------------------------------------------
// Four bytes for every pixel
// ---------------------------------------------------------------------------

/// Red, green, blue pixels with an opaque alpha byte behind each. Bytes
/// behind the last whole pixel are left out.
pub open spec fn rgb_expanded(rgb: Seq<u8>) -> Seq<u8> {
    Seq::new(
        (rgb.len() / 3 * 4) as nat,
        |i: int|
            if i % 4 == 3 {
                255u8
            } else {
                rgb[i / 4 * 3 + i % 4]
            },
    )
}

/// Grey pixels, each written three times with an opaque alpha byte.
pub open spec fn gray_expanded(gray: Seq<u8>) -> Seq<u8> {
    Seq::new(
        (gray.len() * 4) as nat,
        |i: int|
            if i % 4 == 3 {
                255u8
            } else {
                gray[i / 4]
            },
    )
}

/// Pairs of grey and alpha: the grey written three times, then the alpha.
/// A byte behind the last whole pair is left out.
pub open spec fn gray_alpha_expanded(ga: Seq<u8>) -> Seq<u8> {
    Seq::new(
        (ga.len() / 2 * 4) as nat,
        |i: int|
            if i % 4 == 3 {
                ga[i / 4 * 2 + 1]
            } else {
                ga[i / 4 * 2]
            },
    )
}

/// Whether the palette holds all three bytes of entry `index`.
pub open spec fn palette_has(palette: Seq<u8>, index: u8) -> bool {
    3 * index + 2 < palette.len()
}

/// The alpha of palette entry `index`: what the transparency table says,
/// and opaque where it says nothing.
pub open spec fn palette_alpha(transparency: Option<Seq<u8>>, index: u8) -> u8 {
    match transparency {
        Some(t) => if index < t.len() {
            t[index as int]
        } else {
            255
        },
        None => 255,
    }
}

/// Palette indices replaced by the colours they stand for.
pub open spec fn indexed_expanded(
    palette: Seq<u8>,
    transparency: Option<Seq<u8>>,
    idx: Seq<u8>,
) -> Seq<u8> {
    Seq::new(
        (idx.len() * 4) as nat,
        |i: int|
            if i % 4 == 3 {
                palette_alpha(transparency, idx[i / 4])
            } else {
                palette[3 * idx[i / 4] + i % 4]
            },
    )
}

/// The pixels of an indexed image, where it has a palette that holds every
/// index used.
pub open spec fn indexed_pixels(
    palette: Option<Seq<u8>>,
    transparency: Option<Seq<u8>>,
    idx: Seq<u8>,
) -> Result<Seq<u8>, IcoError> {
    match palette {
        None => Err(IcoError::PaletteMissing),
        Some(p) => if forall|k: int| 0 <= k < idx.len() ==> palette_has(p, #[trigger] idx[k]) {
            Ok(indexed_expanded(p, transparency, idx))
        } else {
            Err(IcoError::PaletteIndexOutOfRange)
        },
    }
}

/// The pixels of a decoded frame as red, green, blue, alpha.
pub open spec fn normalized_pixels(frame: DecodedPngView) -> Result<Seq<u8>, IcoError> {
    if frame.color_type == 6 {
        Ok(frame.bytes)
    } else if frame.color_type == 2 {
        Ok(rgb_expanded(frame.bytes))
    } else if frame.color_type == 0 {
        Ok(gray_expanded(frame.bytes))
    } else if frame.color_type == 4 {
        Ok(gray_alpha_expanded(frame.bytes))
    } else if frame.color_type == 3 {
        indexed_pixels(frame.palette, frame.transparency, frame.bytes)
    } else {
        Err(IcoError::UnsupportedColorType)
    }
}

/// Adds an opaque alpha byte to every red, green, blue pixel.
pub fn rgb_to_rgba(rgb: &[u8]) -> (out: Vec<u8>)
    ensures
        out@ == rgb_expanded(rgb@),
{
    let n: usize = rgb.len() / 3;
    let mut out: Vec<u8> = Vec::new();
    let mut i: usize = 0;
    while i < n
        invariant
            i <= n,
            n == rgb.len() / 3,
            out@.len() == 4 * i,
            forall|j: int| 0 <= j < 4 * i ==> out@[j] == #[trigger] rgb_expanded(rgb@)[j],
        decreases n - i,
    {
        out.push(rgb[3 * i]);
        out.push(rgb[3 * i + 1]);
        out.push(rgb[3 * i + 2]);
        out.push(255);
        i += 1;
    }
    assert(out@ =~= rgb_expanded(rgb@));
    out
}

/// Turns every grey pixel into an opaque red, green, blue, alpha pixel.
pub fn gray_to_rgba(gray: &[u8]) -> (out: Vec<u8>)
    ensures
        out@ == gray_expanded(gray@),
{
    let n: usize = gray.len();
    let mut out: Vec<u8> = Vec::new();
    let mut i: usize = 0;
    while i < n
        invariant
            i <= n,
            n == gray.len(),
            out@.len() == 4 * i,
            forall|j: int| 0 <= j < 4 * i ==> out@[j] == #[trigger] gray_expanded(gray@)[j],
        decreases n - i,
    {
        let g: u8 = gray[i];
        out.push(g);
        out.push(g);
        out.push(g);
        out.push(255);
        i += 1;
    }
    assert(out@ =~= gray_expanded(gray@));
    out
}

/// Turns every pair of grey and alpha into a red, green, blue, alpha pixel.
pub fn gray_alpha_to_rgba(ga: &[u8]) -> (out: Vec<u8>)
    ensures
        out@ == gray_alpha_expanded(ga@),
{
    let n: usize = ga.len() / 2;
    let mut out: Vec<u8> = Vec::new();
    let mut i: usize = 0;
    while i < n
        invariant
            i <= n,
            n == ga.len() / 2,
            out@.len() == 4 * i,
            forall|j: int| 0 <= j < 4 * i ==> out@[j] == #[trigger] gray_alpha_expanded(ga@)[j],
        decreases n - i,
    {
        let g: u8 = ga[2 * i];
        let a: u8 = ga[2 * i + 1];
        out.push(g);
        out.push(g);
        out.push(g);
        out.push(a);
        i += 1;
    }
    assert(out@ =~= gray_alpha_expanded(ga@));
    out
}

/// Replaces every palette index by the colour it stands for, with the alpha
/// that the transparency table gives it.
pub fn indexed_to_rgba(palette: Option<&[u8]>, transparency: Option<&[u8]>, idx: &[u8]) -> (r:
    Result<Vec<u8>, IcoError>)
    ensures
        match r {
            Ok(out) => indexed_pixels(slice_view(palette), slice_view(transparency), idx@) == Ok::<
                Seq<u8>,
                IcoError,
            >(out@),
            Err(e) => indexed_pixels(slice_view(palette), slice_view(transparency), idx@) == Err::<
                Seq<u8>,
                IcoError,
            >(e),
        },
{
    let pal: &[u8] = match palette {
        Some(p) => p,
        None => {
            return Err(IcoError::PaletteMissing);
        },
    };
    let ghost trns = slice_view(transparency);
    let ghost want = indexed_expanded(pal@, trns, idx@);
    let n: usize = idx.len();
    let mut out: Vec<u8> = Vec::new();
    let mut i: usize = 0;
    while i < n
        invariant
            i <= n,
            n == idx.len(),
            slice_view(palette) == Some(pal@),
            trns == slice_view(transparency),
            want == indexed_expanded(pal@, trns, idx@),
            out@.len() == 4 * i,
            forall|k: int| 0 <= k < i ==> palette_has(pal@, #[trigger] idx@[k]),
            forall|j: int| 0 <= j < 4 * i ==> out@[j] == #[trigger] want[j],
        decreases n - i,
    {
        let p: usize = idx[i] as usize;
        if pal.len() < 3 || 3 * p > pal.len() - 3 {
            assert(!palette_has(pal@, idx@[i as int]));
            return Err(IcoError::PaletteIndexOutOfRange);
        }
        let a: u8 = match transparency {
            Some(t) => if p < t.len() {
                t[p]
            } else {
                255
            },
            None => 255,
        };
        out.push(pal[3 * p]);
        out.push(pal[3 * p + 1]);
        out.push(pal[3 * p + 2]);
        out.push(a);
        i += 1;
    }
    assert(out@ =~= want);
    Ok(out)
}

/// The bytes of an optional slice.
pub open spec fn slice_view(s: Option<&[u8]>) -> Option<Seq<u8>> {
    match s {
        Some(b) => Some(b@),
        None => None,
    }
}

/// Brings the samples of a decoded frame into the one form that the encoder
/// takes: four bytes a pixel, red, green, blue, alpha.
pub fn normalize_pixels(frame: &DecodedPng) -> (r: Result<Vec<u8>, IcoError>)
    ensures
        match r {
            Ok(out) => normalized_pixels(frame@) == Ok::<Seq<u8>, IcoError>(out@),
            Err(e) => normalized_pixels(frame@) == Err::<Seq<u8>, IcoError>(e),
        },
{
    let bytes: &[u8] = frame.bytes.as_slice();
    if frame.color_type == 6 {
        let mut out: Vec<u8> = Vec::new();
        out.extend_from_slice(bytes);
        assert(out@ =~= bytes@);
        Ok(out)
    } else if frame.color_type == 2 {
        Ok(rgb_to_rgba(bytes))
    } else if frame.color_type == 0 {
        Ok(gray_to_rgba(bytes))
    } else if frame.color_type == 4 {
        Ok(gray_alpha_to_rgba(bytes))
    } else if frame.color_type == 3 {
        let palette: Option<&[u8]> = match &frame.palette {
            Some(p) => Some(p.as_slice()),
            None => None,
        };
        let transparency: Option<&[u8]> = match &frame.transparency {
            Some(t) => Some(t.as_slice()),
            None => None,
        };
        indexed_to_rgba(palette, transparency, bytes)
    } else {
        Err(IcoError::UnsupportedColorType)
    }
}

} // verus!
