//! The two operations, with the file system left to the caller. A write
//! prepares the file to store, and gives the status once the caller has
//! tried to store it. A read names the file to load, and goes on from what
//! the caller could load. An absent argument stands for a null pointer.

use crate::decode::{decoded, parse_header, read_pixels, Header};
use crate::image::Image;
use crate::layout::{bmp_file, file_size};
use crate::matrix::{image_matrix, matrix_error, matrix_image, matrix_len};
use crate::path::{decode_path, path_text};
use crate::status::{status, Error, STATUS_BUFFER_TOO_SMALL, STATUS_FAILED, STATUS_OK};
use vstd::prelude::*;

verus! {

/// The bytes behind an argument that may be absent.
pub open spec fn bytes_of(argument: Option<&[u8]>) -> Option<Seq<u8>> {
    match argument {
        Some(bytes) => Some(bytes@),
        None => None,
    }
}

/// A file to store: the path to create or truncate, and the bytes to put
/// there.
#[derive(Debug, PartialEq, Eq)]
pub struct FileToStore {
    pub path: String,
    pub bytes: Vec<u8>,
}

/// A file to store, as text and bytes.
pub struct StoredFile {
    pub path: Seq<char>,
    pub bytes: Seq<u8>,
}

impl View for FileToStore {
    type V = StoredFile;

    open spec fn view(&self) -> StoredFile {
        StoredFile { path: self.path@, bytes: self.bytes@ }
    }
}

/// What writing a matrix comes to: the file to store, or the first reason
/// why there is none. Both arguments must be there; then the path must be
/// text, the dimensions and the buffer must make a matrix, and the file's
/// size must fit the size field of the file header.
pub open spec fn write_outcome(
    rgba: Option<Seq<u8>>,
    width: nat,
    height: nat,
    path: Option<Seq<u8>>,
) -> Result<StoredFile, Error> {
    if rgba is None || path is None {
        Err(Error::NullArgument)
    } else if path_text(path->0) is None {
        Err(Error::InvalidPath)
    } else if matrix_error(rgba->0.len(), width, height) is Some {
        Err(matrix_error(rgba->0.len(), width, height)->0)
    } else if file_size(width, height) > u32::MAX {
        Err(Error::SizeOverflow)
    } else {
        Ok(
            StoredFile {
                path: path_text(path->0)->0,
                bytes: bmp_file(matrix_image(rgba->0, width, height)),
            },
        )
    }
}

/// Prepares the file that holds an RGBA matrix of `width` by `height`
/// pixels: its path, taken from a zero-terminated buffer, and its bytes.
/// Storing the file is left to the caller.
pub fn write_bmp_from_rgba_matrix(
    rgba_matrix: Option<&[u8]>,
    width: u32,
    height: u32,
    file_path: Option<&[u8]>,
) -> (prepared: Result<FileToStore, Error>)
    ensures
        match prepared {
            Ok(file) => write_outcome(
                bytes_of(rgba_matrix),
                width as nat,
                height as nat,
                bytes_of(file_path),
            ) == Ok::<StoredFile, Error>(file@),
            Err(e) => write_outcome(
                bytes_of(rgba_matrix),
                width as nat,
                height as nat,
                bytes_of(file_path),
            ) == Err::<StoredFile, Error>(e),
        },
{
    let (rgba, buffer) = match (rgba_matrix, file_path) {
        (Some(rgba), Some(buffer)) => (rgba, buffer),
        _ => {
            return Err(Error::NullArgument);
        },
    };
    let path: String = match decode_path(buffer) {
        Ok(path) => path,
        Err(e) => {
            return Err(e);
        },
    };
    let image: Image = match Image::from_rgba(rgba, width, height) {
        Ok(image) => image,
        Err(e) => {
            return Err(e);
        },
    };
    match image.encode() {
        Ok(bytes) => Ok(FileToStore { path, bytes }),
        Err(e) => Err(e),
    }
}

/// The path of the file that a read is to load, or the reason why it is to
/// load none: the path buffer and the three outputs must all be there, and
/// the path must be text.
pub open spec fn requested_path(
    path: Option<Seq<u8>>,
    has_width: bool,
    has_height: bool,
    has_rgba_matrix: bool,
) -> Result<Seq<char>, Error> {
    if path is None || !has_width || !has_height || !has_rgba_matrix {
        Err(Error::NullArgument)
    } else if path_text(path->0) is None {
        Err(Error::InvalidPath)
    } else {
        Ok(path_text(path->0)->0)
    }
}

/// The path of the file to load for a read, given the path buffer and
/// whether each of the three outputs is there.
pub fn read_request(
    file_path: Option<&[u8]>,
    has_width: bool,
    has_height: bool,
    has_rgba_matrix: bool,
) -> (request: Result<String, Error>)
    ensures
        match request {
            Ok(path) => requested_path(bytes_of(file_path), has_width, has_height, has_rgba_matrix)
                == Ok::<Seq<char>, Error>(path@),
            Err(e) => requested_path(bytes_of(file_path), has_width, has_height, has_rgba_matrix)
                == Err::<Seq<char>, Error>(e),
        },
{
    match file_path {
        Some(buffer) => {
            if has_width && has_height && has_rgba_matrix {
                decode_path(buffer)
            } else {
                Err(Error::NullArgument)
            }
        },
        None => Err(Error::NullArgument),
    }
}

/// The status code of a write whose file was handed to the file system: 0
/// when the file was stored, -1 when opening, writing or closing it failed.
pub fn write_status(stored: bool) -> (code: i32)
    ensures
        code == (if stored {
            STATUS_OK
        } else {
            STATUS_FAILED
        }),
{
    if stored {
        status(Ok(()))
    } else {
        status(Err(Error::FileSystem))
    }
}

/// What a read leaves behind: its status code and the values of the three
/// outputs.
pub struct ReadEffect {
    pub status: i32,
    pub width: u32,
    pub height: u32,
    pub rgba: Seq<u8>,
}

/// What reading a file leaves behind, given what the outputs held before. A
/// file that could not be loaded, or that is refused, changes nothing. An
/// accepted one has its dimensions stored; then its matrix goes to the front
/// of the buffer, unless the buffer is too short for it, in which case the
/// buffer is left as it was.
pub open spec fn read_effect(
    file: Option<Seq<u8>>,
    width: u32,
    height: u32,
    rgba: Seq<u8>,
) -> ReadEffect {
    match file {
        Some(file) => match decoded(file) {
            Ok(image) => if matrix_len(image.width, image.height) <= rgba.len() {
                ReadEffect {
                    status: STATUS_OK,
                    width: image.width as u32,
                    height: image.height as u32,
                    rgba: image_matrix(image) + rgba.skip(
                        matrix_len(image.width, image.height) as int,
                    ),
                }
            } else {
                ReadEffect {
                    status: STATUS_BUFFER_TOO_SMALL,
                    width: image.width as u32,
                    height: image.height as u32,
                    rgba,
                }
            },
            Err(_) => ReadEffect { status: STATUS_FAILED, width, height, rgba },
        },
        None => ReadEffect { status: STATUS_FAILED, width, height, rgba },
    }
}

/// Reads the bytes of a file into an RGBA matrix. `file` holds what was
/// loaded from the requested path, and is absent when the file system
/// could not supply it. The length of `rgba_matrix` is the capacity of the
/// output buffer; `width` and `height` receive the dimensions. Returns the
/// status code.
pub fn read_bmp_to_rgba_matrix(
    file: Option<&[u8]>,
    width: &mut u32,
    height: &mut u32,
    rgba_matrix: &mut [u8],
) -> (status: i32)
    ensures
        (ReadEffect {
            status,
            width: *final(width),
            height: *final(height),
            rgba: final(rgba_matrix)@,
        }) == read_effect(bytes_of(file), *old(width), *old(height), old(rgba_matrix)@),
{
    let file: &[u8] = match file {
        Some(file) => file,
        None => {
            return Error::FileSystem.code();
        },
    };
    let header: Header = match parse_header(file) {
        Ok(header) => header,
        Err(e) => {
            return e.code();
        },
    };
    *width = header.width;
    *height = header.height;
    assert(header.width as u64 * header.height as u64 <= 0x7FFF_FFFF * 0x8000_0000)
        by (nonlinear_arith)
        requires
            header.width <= 0x7FFF_FFFF,
            header.height <= 0x8000_0000,
    ;
    assert(4 * header.width * header.height == 4 * (header.width * header.height))
        by (nonlinear_arith);
    let needed: u64 = 4 * (header.width as u64 * header.height as u64);
    if needed > rgba_matrix.len() as u64 {
        return Error::BufferTooSmall.code();
    }
    let image: Image = read_pixels(file, header);
    status(image.copy_to_rgba(rgba_matrix))
}

} // verus!
