use vstd::prelude::*;

verus! {

/// What can be wrong with one payload, or with the pixels it is made from.
#[derive(Clone, Copy, Debug, PartialEq, Eq, Structural)]
pub enum IcoError {
    /// The bytes do not start with the PNG signature, or no decoder takes
    /// them for a PNG stream.
    NotAPng,
    /// A header or a chunk reaches past the end of the bytes.
    Truncated,
    /// The colour type of a PNG header is none of 0, 2, 3, 4, 6.
    UnsupportedColorType,
    /// A bitmap header declares fewer than 40 bytes.
    HeaderTooShort,
    /// A bitmap header declares compressed pixel data.
    UnsupportedCompression,
    /// The plane count of a bitmap header is not one.
    InvalidPlanes,
    /// The important-colours field of a bitmap header is not zero.
    InvalidField,
    /// The width of a bitmap header is zero or negative.
    InvalidWidth,
    /// The palette implied by a bitmap's bit count does not fit in 32 bits.
    PaletteTooLarge,
    /// An indexed pixel refers to a palette entry that is not there.
    PaletteIndexOutOfRange,
    /// An indexed image carries no palette.
    PaletteMissing,
    /// The pixel data of a PNG stream could not be decoded.
    DecodeFailed,
    /// The pixel data of a bitmap entry could not be decoded.
    BitmapDecodeFailed,
    /// The pixels could not be encoded as an entry payload.
    EncodeFailed,
}

impl IcoError {
    /// The text of the message for this error.
    pub open spec fn message_text(self) -> Seq<char> {
        match self {
            IcoError::NotAPng => "not a png file"@,
            IcoError::Truncated => "premature end"@,
            IcoError::UnsupportedColorType => "unsupported png color type"@,
            IcoError::HeaderTooShort => "bitmap header is too short"@,
            IcoError::UnsupportedCompression => "compressed image data not supported"@,
            IcoError::InvalidPlanes => "planes field in bitmap should be one"@,
            IcoError::InvalidField => "clr_important field in bitmap should be zero"@,
            IcoError::InvalidWidth => "invalid bitmap width"@,
            IcoError::PaletteTooLarge => "palette too large"@,
            IcoError::PaletteIndexOutOfRange => "png palette index out of range"@,
            IcoError::PaletteMissing => "png palette missing"@,
            IcoError::DecodeFailed => "failed to decode png"@,
            IcoError::BitmapDecodeFailed => "failed to decode bitmap entry"@,
            IcoError::EncodeFailed => "failed to encode image"@,
        }
    }

    /// The message that is shown for this error.
    pub fn message(&self) -> (r: String)
        ensures
            r@ == self.message_text(),
    {
        match self {
            IcoError::NotAPng => "not a png file".to_string(),
            IcoError::Truncated => "premature end".to_string(),
            IcoError::UnsupportedColorType => "unsupported png color type".to_string(),
            IcoError::HeaderTooShort => "bitmap header is too short".to_string(),
            IcoError::UnsupportedCompression => "compressed image data not supported".to_string(),
            IcoError::InvalidPlanes => "planes field in bitmap should be one".to_string(),
            IcoError::InvalidField => "clr_important field in bitmap should be zero".to_string(),
            IcoError::InvalidWidth => "invalid bitmap width".to_string(),
            IcoError::PaletteTooLarge => "palette too large".to_string(),
            IcoError::PaletteIndexOutOfRange => "png palette index out of range".to_string(),
            IcoError::PaletteMissing => "png palette missing".to_string(),
            IcoError::DecodeFailed => "failed to decode png".to_string(),
            IcoError::BitmapDecodeFailed => "failed to decode bitmap entry".to_string(),
            IcoError::EncodeFailed => "failed to encode image".to_string(),
        }
    }
}

/// An error of one entry of a container, with the place of that entry
/// counted from 1.
#[derive(Clone, Copy, Debug, PartialEq, Eq, Structural)]
pub struct EntryError {
    pub index: i32,
    pub error: IcoError,
}

impl EntryError {
    /// The message that is shown for this error: that of the error itself.
    pub fn message(&self) -> (r: String)
        ensures
            r@ == self.error.message_text(),
    {
        self.error.message()
    }
}

/// Why a container could not be read or described.
#[derive(Clone, Copy, Debug, PartialEq, Eq, Structural)]
pub enum ContainerError {
    /// The bytes are not those of an icon or cursor file.
    NotAContainer,
    /// The container has no entry at the place asked for.
    NoSuchEntry,
    /// The header of one entry could not be read.
    Entry(EntryError),
}

impl ContainerError {
    /// The text of the message for this error.
    pub open spec fn message_text(self) -> Seq<char> {
        match self {
            ContainerError::NotAContainer => "not an icon or cursor file"@,
            ContainerError::NoSuchEntry => "no such image"@,
            ContainerError::Entry(e) => e.error.message_text(),
        }
    }

    /// The message that is shown for this error.
    pub fn message(&self) -> (r: String)
        ensures
            r@ == self.message_text(),
    {
        match self {
            ContainerError::NotAContainer => "not an icon or cursor file".to_string(),
            ContainerError::NoSuchEntry => "no such image".to_string(),
            ContainerError::Entry(e) => e.message(),
        }
    }
}

} // verus!
