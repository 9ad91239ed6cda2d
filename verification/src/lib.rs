//! Conversion between row-major RGBA pixel matrices and uncompressed 24-bit
//! BMP files, with the byte layout of the files stated and proved.
//!
//! - [`image`]: the in-memory image and its mathematical model.
//! - [`matrix`]: the RGBA matrix, and the way to and from an image.
//! - [`layout`]: what a file looks like, byte for byte.
//! - [`encode`] and [`decode`]: from an image to the bytes of its file, and
//!   back.
//! - [`path`]: the zero-terminated path argument.
//! - [`entry`]: the two operations, with absent arguments and status codes.
//! - [`status`]: the failures and their codes.
//! - [`theorems`]: what holds of every image and every file.

pub mod decode;
pub mod encode;
pub mod entry;
pub mod image;
pub mod layout;
pub mod matrix;
pub mod path;
pub mod status;
pub mod theorems;

pub use entry::{read_bmp_to_rgba_matrix, write_bmp_from_rgba_matrix};
