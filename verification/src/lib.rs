//! Reading, selecting and writing the images of Windows icon and cursor
//! files.
//!
//! An icon or cursor file is a directory of images. Each image is a PNG
//! stream or a bitmap that starts with its information header, and the
//! directory says little of it that can be relied on. This crate reads what
//! is to be known of an image from the image itself ([`parse`]), selects
//! entries by it ([`container`]), describes, names and extracts them
//! ([`list`], [`extract`]), makes images of pictures ([`create`]) and lays
//! out new files byte for byte ([`layout`]).
//!
//! Decoding and encoding of pixels, and the reading of the outer directory,
//! are left to the `png` and `ico` crates. Everything that is taken on trust
//! from them is gathered in [`codec`]; the rest is verified.

pub mod bitmap;
pub mod cli;
pub mod codec;
pub mod container;
pub mod create;
pub mod error;
pub mod extract;
pub mod layout;
pub mod list;
pub mod parse;
pub mod pixels;
pub mod text;
pub mod types;
pub mod util;
