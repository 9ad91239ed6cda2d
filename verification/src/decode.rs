//! Reading the bytes of a file back into an image.

use crate::image::{lemma_index_in_bounds, Image, Pixel, Raster};
use crate::layout::{
    le16_at, le32_at, lemma_slot_position, padded_row, pixel_data_size, row_in_slot,
    stored_row_size, BITS_AT, BITS_PER_PIXEL, COMPRESSION_AT, FILE_HEADER_SIZE, HEADERS_SIZE,
    HEIGHT_AT, INFO_SIZE_AT, INFO_HEADER_SIZE, MAGIC_0, MAGIC_1, PIXEL_OFFSET_AT, PLANES,
    PLANES_AT, UNCOMPRESSED, WIDTH_AT,
};
use crate::status::Error;
use vstd::prelude::*;

verus! {

/// What the headers of a file declare.
#[derive(Clone, Copy, Debug, PartialEq, Eq, Structural)]
pub struct Header {
    /// Pixels in a row.
    pub width: u32,
    /// Rows.
    pub height: u32,
    /// Whether the first stored row is the top one. The height field of such
    /// a file is negative.
    pub top_down: bool,
    /// Where the pixel data starts.
    pub pixel_offset: u32,
}

/// The headers of a file as they are read, before any of it is checked: the
/// width and the height field are signed, and a negative height field gives
/// its magnitude as the height and declares the rows stored top-down.
pub open spec fn header_of(file: Seq<u8>) -> Header {
    let field = le32_at(file, HEIGHT_AT as int);
    Header {
        width: le32_at(file, WIDTH_AT as int) as u32,
        height: if field >= 0x8000_0000 {
            (0x1_0000_0000 - field) as u32
        } else {
            field as u32
        },
        top_down: field >= 0x8000_0000,
        pixel_offset: le32_at(file, PIXEL_OFFSET_AT as int) as u32,
    }
}

/// The first reason for which a file is refused, if there is one. The file
/// header is checked first: it must be there, start with `BM`, and point to
/// a byte of the file. Then the info header: it must be there, be the
/// 40-byte one, and declare one plane, 24 bits per pixel, no compression, a
/// positive width and a height other than zero. Last, every stored row must
/// be in the file.
pub open spec fn header_error(file: Seq<u8>) -> Option<Error> {
    let header = header_of(file);
    if file.len() < FILE_HEADER_SIZE {
        Some(Error::TruncatedHeader)
    } else if file[0] != MAGIC_0 || file[1] != MAGIC_1 {
        Some(Error::BadMagic)
    } else if header.pixel_offset >= file.len() {
        Some(Error::BadPixelOffset)
    } else if file.len() < HEADERS_SIZE {
        Some(Error::TruncatedHeader)
    } else if le32_at(file, INFO_SIZE_AT as int) != INFO_HEADER_SIZE {
        Some(Error::UnsupportedHeaderSize)
    } else if le16_at(file, PLANES_AT as int) != PLANES {
        Some(Error::UnsupportedPlanes)
    } else if le16_at(file, BITS_AT as int) != BITS_PER_PIXEL {
        Some(Error::UnsupportedBitsPerPixel)
    } else if le32_at(file, COMPRESSION_AT as int) != UNCOMPRESSED {
        Some(Error::UnsupportedCompression)
    } else if header.width == 0 || header.width >= 0x8000_0000 || header.height == 0 {
        Some(Error::BadDimensions)
    } else if header.pixel_offset + pixel_data_size(header.width as nat, header.height as nat)
        > file.len() {
        Some(Error::TruncatedPixelData)
    } else {
        None
    }
}

/// Where the three bytes of the pixel at column `x` of row `y` (counted from
/// the top) stand in a file with the given headers.
pub open spec fn pixel_position(header: Header, x: int, y: int) -> int {
    header.pixel_offset + row_in_slot(header.height as nat, header.top_down, y) * padded_row(
        header.width as nat,
    ) + 3 * x
}

/// The pixel at column `x` of row `y` (counted from the top) of a file.
pub open spec fn stored_pixel(file: Seq<u8>, x: int, y: int) -> Pixel {
    let at = pixel_position(header_of(file), x, y);
    Pixel { r: file[at + 2], g: file[at + 1], b: file[at] }
}

/// The image that an accepted file holds.
pub open spec fn stored_image(file: Seq<u8>) -> Raster {
    let header = header_of(file);
    Raster {
        width: header.width as nat,
        height: header.height as nat,
        pixels: Seq::new(
            header.width as nat * header.height as nat,
            |i: int| stored_pixel(file, i % (header.width as int), i / (header.width as int)),
        ),
    }
}

/// What reading a file gives: its image, or the reason it is refused for.
pub open spec fn decoded(file: Seq<u8>) -> Result<Raster, Error> {
    match header_error(file) {
        Some(e) => Err(e),
        None => Ok(stored_image(file)),
    }
}

/// The 16-bit field at `at`.
fn read_le16(file: &[u8], at: usize) -> (value: u16)
    requires
        at + 2 <= file@.len(),
    ensures
        value == le16_at(file@, at as int),
{
    file[at] as u16 + 0x100 * (file[at + 1] as u16)
}

/// The 32-bit field at `at`.
fn read_le32(file: &[u8], at: usize) -> (value: u32)
    requires
        at + 4 <= file@.len(),
    ensures
        value == le32_at(file@, at as int),
{
    file[at] as u32 + 0x100 * (file[at + 1] as u32) + 0x1_0000 * (file[at + 2] as u32) + 0x100_0000
        * (file[at + 3] as u32)
}

/// Reads and checks the headers of a file, and checks that the pixel data
/// they declare is in the file.
pub fn parse_header(file: &[u8]) -> (parsed: Result<Header, Error>)
    ensures
        match parsed {
            Ok(header) => header_error(file@) is None && header == header_of(file@),
            Err(e) => header_error(file@) == Some(e),
        },
{
    let len: usize = file.len();
    if len < FILE_HEADER_SIZE as usize {
        return Err(Error::TruncatedHeader);
    }
    if file[0] != MAGIC_0 || file[1] != MAGIC_1 {
        return Err(Error::BadMagic);
    }
    let pixel_offset: u32 = read_le32(file, PIXEL_OFFSET_AT);
    if pixel_offset as usize >= len {
        return Err(Error::BadPixelOffset);
    }
    if len < HEADERS_SIZE as usize {
        return Err(Error::TruncatedHeader);
    }
    if read_le32(file, INFO_SIZE_AT) != INFO_HEADER_SIZE {
        return Err(Error::UnsupportedHeaderSize);
    }
    if read_le16(file, PLANES_AT) != PLANES {
        return Err(Error::UnsupportedPlanes);
    }
    if read_le16(file, BITS_AT) != BITS_PER_PIXEL {
        return Err(Error::UnsupportedBitsPerPixel);
    }
    if read_le32(file, COMPRESSION_AT) != UNCOMPRESSED {
        return Err(Error::UnsupportedCompression);
    }
    let width: u32 = read_le32(file, WIDTH_AT);
    let field: u32 = read_le32(file, HEIGHT_AT);
    let top_down: bool = field >= 0x8000_0000;
    let height: u32 = if top_down {
        (0x1_0000_0000 - field as u64) as u32
    } else {
        field
    };
    if width == 0 || width >= 0x8000_0000 || height == 0 {
        return Err(Error::BadDimensions);
    }
    let row: u64 = stored_row_size(width);
    assert(row * height <= 0x1_8000_0000 * 0x8000_0000) by (nonlinear_arith)
        requires
            row <= 0x1_8000_0000,
            height <= 0x8000_0000,
    ;
    let data: u64 = row * (height as u64);
    if pixel_offset as u64 + data > len as u64 {
        return Err(Error::TruncatedPixelData);
    }
    Ok(Header { width, height, top_down, pixel_offset })
}

/// The pixels of a file whose headers were accepted.
pub(crate) fn read_pixels(file: &[u8], header: Header) -> (image: Image)
    requires
        header_error(file@) is None,
        header == header_of(file@),
    ensures
        image.wf(),
        image@ == stored_image(file@),
{
    let width: u32 = header.width;
    let height: u32 = header.height;
    let len: usize = file.len();
    let row_size: u64 = stored_row_size(width);
    proof {
        assert(row_size * height >= row_size) by (nonlinear_arith)
            requires
                height >= 1,
                row_size >= 0,
        ;
        assert(row_size * height >= 3 * (width * height)) by (nonlinear_arith)
            requires
                row_size >= 3 * width,
                height >= 0,
        ;
    }
    let row: usize = row_size as usize;
    let offset: usize = header.pixel_offset as usize;
    let mut image: Image = Image::blank(width, height);
    let ghost target = stored_image(file@);
    let mut filled: usize = 0;
    let mut y: u32 = 0;
    while y < height
        invariant
            y <= height,
            filled == y * width,
            header_error(file@) is None,
            header == header_of(file@),
            width == header.width,
            height == header.height,
            offset == header.pixel_offset,
            row == padded_row(width as nat),
            offset + row * height <= file@.len() <= usize::MAX,
            image.wf(),
            image@.width == width,
            image@.height == height,
            target == stored_image(file@),
            forall|i: int| 0 <= i < filled ==> image@.pixels[i] == target.pixels[i],
        decreases height - y,
    {
        let slot: u32 = if header.top_down {
            y
        } else {
            height - 1 - y
        };
        proof {
            lemma_slot_position(width as nat, height as nat, slot as int, 0);
        }
        let start: usize = offset + slot as usize * row;
        let mut x: u32 = 0;
        while x < width
            invariant
                x <= width,
                y < height,
                slot < height,
                slot == row_in_slot(height as nat, header.top_down, y as int),
                filled == y * width + x,
                start == offset + slot * row,
                header == header_of(file@),
                width == header.width,
                height == header.height,
                offset == header.pixel_offset,
                row == padded_row(width as nat),
                offset + row * height <= file@.len() <= usize::MAX,
                image.wf(),
                image@.width == width,
                image@.height == height,
                target == stored_image(file@),
                forall|i: int| 0 <= i < filled ==> image@.pixels[i] == target.pixels[i],
            decreases width - x,
        {
            proof {
                lemma_slot_position(width as nat, height as nat, slot as int, 3 * x + 2);
                lemma_index_in_bounds(width as nat, height as nat, x as int, y as int);
            }
            let at: usize = start + 3 * (x as usize);
            let pixel = Pixel { r: file[at + 2], g: file[at + 1], b: file[at] };
            image.set_pixel(x, y, pixel);
            x = x + 1;
            filled = filled + 1;
        }
        assert(y * width + width == (y + 1) * width) by (nonlinear_arith);
        y = y + 1;
    }
    assert(height * width == width * height) by (nonlinear_arith);
    assert(image@.pixels =~= target.pixels);
    image
}

impl Image {
    /// The image that a file holds. Rows stored bottom-up and rows stored
    /// top-down both come out with row 0 at the top.
    pub fn decode(file: &[u8]) -> (read: Result<Image, Error>)
        ensures
            match read {
                Ok(image) => image.wf() && decoded(file@) == Ok::<Raster, Error>(image@),
                Err(e) => decoded(file@) == Err::<Raster, Error>(e),
            },
    {
        let header: Header = match parse_header(file) {
            Ok(header) => header,
            Err(e) => {
                return Err(e);
            },
        };
        Ok(read_pixels(file, header))
    }
}

} // verus!
