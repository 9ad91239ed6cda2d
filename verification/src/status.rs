//! Failures and the numeric status codes they are reported as.

use vstd::prelude::*;

verus! {

/// Status code of a completed operation.
pub const STATUS_OK: i32 = 0;

/// Status code of every failure but an undersized output buffer.
pub const STATUS_FAILED: i32 = -1;

/// Status code of a read whose output buffer cannot hold the image.
pub const STATUS_BUFFER_TOO_SMALL: i32 = -2;

/// Why an operation did not complete.
#[derive(Clone, Copy, Debug, PartialEq, Eq, Structural)]
pub enum Error {
    /// A required argument was absent (a null pointer at the C boundary).
    NullArgument,
    /// The path buffer holds no zero terminator, or the bytes before it are
    /// not UTF-8.
    InvalidPath,
    /// The width or the height is zero.
    EmptyImage,
    /// A size derived from the dimensions does not fit its representation.
    SizeOverflow,
    /// The pixel matrix holds fewer bytes than its dimensions call for.
    ShortMatrix,
    /// The file system refused to open, read, write or close the file.
    FileSystem,
    /// The file ends before its headers do.
    TruncatedHeader,
    /// The file does not start with the bytes `BM`.
    BadMagic,
    /// The pixel data offset points past the end of the file.
    BadPixelOffset,
    /// The info header is not the 40-byte one.
    UnsupportedHeaderSize,
    /// The plane count is not 1.
    UnsupportedPlanes,
    /// The image is not stored with 24 bits per pixel.
    UnsupportedBitsPerPixel,
    /// The pixel data is compressed.
    UnsupportedCompression,
    /// The stored width is not positive, or the stored height is zero.
    BadDimensions,
    /// The file ends before its pixel data does.
    TruncatedPixelData,
    /// The output buffer cannot hold the decoded image.
    BufferTooSmall,
}

impl Error {
    /// The status code an error is reported as: only an undersized output
    /// buffer is told apart from the rest.
    pub open spec fn spec_code(self) -> i32 {
        if self == Error::BufferTooSmall {
            STATUS_BUFFER_TOO_SMALL
        } else {
            STATUS_FAILED
        }
    }

    /// The status code this error is reported as.
    #[verifier::when_used_as_spec(spec_code)]
    pub fn code(self) -> (code: i32)
        ensures
            code == self.spec_code(),
    {
        match self {
            Error::BufferTooSmall => STATUS_BUFFER_TOO_SMALL,
            _ => STATUS_FAILED,
        }
    }
}

/// The status code of an outcome.
pub open spec fn status_of(outcome: Result<(), Error>) -> i32 {
    match outcome {
        Ok(_) => STATUS_OK,
        Err(e) => e.spec_code(),
    }
}

/// The status code of an outcome: 0 for success, the error's code otherwise.
pub fn status(outcome: Result<(), Error>) -> (code: i32)
    ensures
        code == status_of(outcome),
        code == 0 || code == -1 || code == -2,
        code == 0 <==> outcome is Ok,
        code == -2 <==> outcome == Err::<(), Error>(Error::BufferTooSmall),
{
    match outcome {
        Ok(_) => STATUS_OK,
        Err(e) => e.code(),
    }
}

} // verus!
