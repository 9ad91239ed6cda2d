//! The byte layout of a file: sizes, little-endian fields, the two headers
//! and the padded rows of pixel data.

use crate::image::Raster;
use vstd::prelude::*;

verus! {

/// First byte of every file, the letter `B`.
pub const MAGIC_0: u8 = 0x42;

/// Second byte of every file, the letter `M`.
pub const MAGIC_1: u8 = 0x4D;

/// Length of the file header.
pub const FILE_HEADER_SIZE: u32 = 14;

/// Length of the info header.
pub const INFO_HEADER_SIZE: u32 = 40;

/// Length of both headers, which is where the pixel data of a written file
/// starts.
pub const HEADERS_SIZE: u32 = 54;

/// The plane count of every file.
pub const PLANES: u16 = 1;

/// The bits one pixel takes in the pixel data.
pub const BITS_PER_PIXEL: u16 = 24;

/// The compression field of uncompressed pixel data.
pub const UNCOMPRESSED: u32 = 0;

/// Where the file header holds the offset of the pixel data.
pub const PIXEL_OFFSET_AT: usize = 10;

/// Where the info header holds its own size.
pub const INFO_SIZE_AT: usize = 14;

/// Where the info header holds the width.
pub const WIDTH_AT: usize = 18;

/// Where the info header holds the height.
pub const HEIGHT_AT: usize = 22;

/// Where the info header holds the plane count.
pub const PLANES_AT: usize = 26;

/// Where the info header holds the bits per pixel.
pub const BITS_AT: usize = 28;

/// Where the info header holds the compression.
pub const COMPRESSION_AT: usize = 30;

/// Bytes that the pixels of one row take.
pub open spec fn row_bytes(width: nat) -> nat {
    3 * width
}

/// Zero bytes that follow the pixels of one row, so that the row's length is
/// a multiple of four.
pub open spec fn row_padding(width: nat) -> nat {
    ((4 - row_bytes(width) % 4) % 4) as nat
}

/// Bytes that one stored row takes, padding included.
pub open spec fn padded_row(width: nat) -> nat {
    row_bytes(width) + row_padding(width)
}

/// Bytes that the pixel data of an image takes.
pub open spec fn pixel_data_size(width: nat, height: nat) -> nat {
    padded_row(width) * height
}

/// Bytes that the file of an image takes.
pub open spec fn file_size(width: nat, height: nat) -> nat {
    HEADERS_SIZE as nat + pixel_data_size(width, height)
}

/// The two bytes of a 16-bit field, least significant first.
pub open spec fn le16(value: nat) -> Seq<u8> {
    seq![(value % 0x100) as u8, (value / 0x100 % 0x100) as u8]
}

/// The four bytes of a 32-bit field, least significant first.
pub open spec fn le32(value: nat) -> Seq<u8> {
    seq![
        (value % 0x100) as u8,
        (value / 0x100 % 0x100) as u8,
        (value / 0x1_0000 % 0x100) as u8,
        (value / 0x100_0000 % 0x100) as u8,
    ]
}

/// The value of the 16-bit field that starts at byte `at`.
pub open spec fn le16_at(bytes: Seq<u8>, at: int) -> nat {
    bytes[at] as nat + 0x100 * bytes[at + 1] as nat
}

/// The value of the 32-bit field that starts at byte `at`.
pub open spec fn le32_at(bytes: Seq<u8>, at: int) -> nat {
    bytes[at] as nat + 0x100 * bytes[at + 1] as nat + 0x1_0000 * bytes[at + 2] as nat + 0x100_0000
        * bytes[at + 3] as nat
}

/// The file header of an image of the given size.
pub open spec fn file_header(width: nat, height: nat) -> Seq<u8> {
    seq![MAGIC_0, MAGIC_1]  // magic
        + le32(file_size(width, height))  // size of the file
        + le16(0)  // reserved
        + le16(0)  // reserved
        + le32(HEADERS_SIZE as nat)  // offset of the pixel data
}

/// The info header that declares the given width, height field and pixel
/// data size. A height field below 2^31 declares rows stored bottom-up; one
/// from 2^31 on is the two's complement of a negative height and declares
/// rows stored top-down.
pub open spec fn info_header(width: nat, height_field: nat, data_size: nat) -> Seq<u8> {
    le32(INFO_HEADER_SIZE as nat)  // size of this header
        + le32(width)  // width
        + le32(height_field)  // height
        + le16(PLANES as nat)  // planes
        + le16(BITS_PER_PIXEL as nat)  // bits per pixel
        + le32(UNCOMPRESSED as nat)  // compression
        + le32(data_size)  // size of the pixel data
        + le32(0)  // horizontal resolution
        + le32(0)  // vertical resolution
        + le32(0)  // colours in the palette
        + le32(0)  // important colours
}

/// Byte `col` of the stored form of row `y` (counted from the top): blue,
/// green and red of each pixel from left to right, then zeros.
pub open spec fn row_byte(image: Raster, y: int, col: int) -> u8 {
    if col < row_bytes(image.width) {
        let pixel = image.pixel(col / 3, y);
        if col % 3 == 0 {
            pixel.b
        } else if col % 3 == 1 {
            pixel.g
        } else {
            pixel.r
        }
    } else {
        0
    }
}

/// The image row that is stored at position `slot` of the pixel data. The
/// same reckoning gives the position at which a row is stored.
pub open spec fn row_in_slot(height: nat, top_down: bool, slot: int) -> int {
    if top_down {
        slot
    } else {
        height - 1 - slot
    }
}

/// The pixel data of an image, its rows stored in the given order.
pub open spec fn pixel_data(image: Raster, top_down: bool) -> Seq<u8> {
    Seq::new(
        pixel_data_size(image.width, image.height),
        |i: int|
            row_byte(
                image,
                row_in_slot(image.height, top_down, i / (padded_row(image.width) as int)),
                i % (padded_row(image.width) as int),
            ),
    )
}

/// The height field of an image whose rows are stored in the given order:
/// the height itself for rows stored bottom-up, the two's complement of its
/// negative for rows stored top-down.
pub open spec fn height_field(height: nat, top_down: bool) -> nat {
    if top_down {
        (0x1_0000_0000 - height) as nat
    } else {
        height
    }
}

/// The file of an image with its rows stored in the given order.
#[verifier::opaque]
pub open spec fn file_in_order(image: Raster, top_down: bool) -> Seq<u8> {
    file_header(image.width, image.height) + info_header(
        image.width,
        height_field(image.height, top_down),
        pixel_data_size(image.width, image.height),
    ) + pixel_data(image, top_down)
}

/// The file of an image: both headers, then the rows from the bottom one up.
pub open spec fn bmp_file(image: Raster) -> Seq<u8> {
    file_in_order(image, false)
}

/// The file of an image in the other row order: a negative height in the
/// info header, then the rows from the top one down.
pub open spec fn top_down_bmp_file(image: Raster) -> Seq<u8> {
    file_in_order(image, true)
}

/// Bytes that one stored row takes, padding included.
pub fn stored_row_size(width: u32) -> (size: u64)
    ensures
        size == padded_row(width as nat),
        size <= 3 * width + 3,
{
    let row: u64 = 3 * (width as u64);
    let padding: u64 = (4 - row % 4) % 4;
    row + padding
}

/// The size of the file of an image of the given size, if the size field of
/// the file header can hold it.
pub fn stored_file_size(width: u32, height: u32) -> (size: Option<u32>)
    ensures
        match size {
            Some(size) => size == file_size(width as nat, height as nat),
            None => file_size(width as nat, height as nat) > u32::MAX,
        },
{
    let row: u64 = stored_row_size(width);
    if height == 0 {
        return Some(HEADERS_SIZE);
    }
    if row > u32::MAX as u64 {
        assert(row * height >= row) by (nonlinear_arith)
            requires
                height >= 1,
                row >= 0,
        ;
        return None;
    }
    assert(row * height <= 0xFFFF_FFFE_0000_0001) by (nonlinear_arith)
        requires
            row <= 0xFFFF_FFFF,
            height <= 0xFFFF_FFFF,
    ;
    let data: u64 = row * (height as u64);
    if data > (u32::MAX - HEADERS_SIZE) as u64 {
        return None;
    }
    Some(HEADERS_SIZE + data as u32)
}

/// A slot and a column inside it name one byte of the pixel data, and the
/// byte's position tells them apart again.
pub proof fn lemma_slot_position(width: nat, height: nat, slot: int, col: int)
    requires
        0 <= slot < height,
        0 <= col < padded_row(width),
    ensures
        0 <= slot * padded_row(width) + col < pixel_data_size(width, height),
        (slot * padded_row(width) + col) / (padded_row(width) as int) == slot,
        (slot * padded_row(width) + col) % (padded_row(width) as int) == col,
{
    let row = padded_row(width) as int;
    assert(slot * row + row <= height * row) by (nonlinear_arith)
        requires
            0 <= slot < height,
            row >= 0,
    ;
    assert(row * height == height * row) by (nonlinear_arith);
    assert(0 <= slot * row) by (nonlinear_arith)
        requires
            0 <= slot,
            0 <= row,
    ;
    vstd::arithmetic::div_mod::lemma_fundamental_div_mod_converse(slot * row + col, row, slot, col);
}

/// Reading a field gives back the value that was laid out, whatever stands
/// before and after it.
pub proof fn lemma_le32_at(bytes: Seq<u8>, at: int, value: nat)
    requires
        0 <= at,
        at + 4 <= bytes.len(),
        value <= u32::MAX,
        bytes.subrange(at, at + 4) == le32(value),
    ensures
        le32_at(bytes, at) == value,
{
    let field = bytes.subrange(at, at + 4);
    assert(bytes[at] == field[0]);
    assert(bytes[at + 1] == field[1]);
    assert(bytes[at + 2] == field[2]);
    assert(bytes[at + 3] == field[3]);
}

/// Reading a field gives back the value that was laid out, whatever stands
/// before and after it.
pub proof fn lemma_le16_at(bytes: Seq<u8>, at: int, value: nat)
    requires
        0 <= at,
        at + 2 <= bytes.len(),
        value <= u16::MAX,
        bytes.subrange(at, at + 2) == le16(value),
    ensures
        le16_at(bytes, at) == value,
{
    let field = bytes.subrange(at, at + 2);
    assert(bytes[at] == field[0]);
    assert(bytes[at + 1] == field[1]);
}

/// A field laid out inside a part of a file is read back from the file at
/// the part's start plus the field's place in the part.
pub proof fn lemma_le32_in_part(file: Seq<u8>, part: Seq<u8>, start: int, at: int, value: nat)
    requires
        0 <= start,
        start + part.len() <= file.len(),
        file.subrange(start, start + part.len()) == part,
        0 <= at,
        at + 4 <= part.len(),
        part.subrange(at, at + 4) == le32(value),
        value <= u32::MAX,
    ensures
        le32_at(file, start + at) == value,
{
    let whole = file.subrange(start, start + part.len());
    assert(file[start + at] == whole[at]);
    assert(file[start + at + 1] == whole[at + 1]);
    assert(file[start + at + 2] == whole[at + 2]);
    assert(file[start + at + 3] == whole[at + 3]);
    assert(file.subrange(start + at, start + at + 4) =~= part.subrange(at, at + 4));
    lemma_le32_at(file, start + at, value);
}

/// A field laid out inside a part of a file is read back from the file at
/// the part's start plus the field's place in the part.
pub proof fn lemma_le16_in_part(file: Seq<u8>, part: Seq<u8>, start: int, at: int, value: nat)
    requires
        0 <= start,
        start + part.len() <= file.len(),
        file.subrange(start, start + part.len()) == part,
        0 <= at,
        at + 2 <= part.len(),
        part.subrange(at, at + 2) == le16(value),
        value <= u16::MAX,
    ensures
        le16_at(file, start + at) == value,
{
    let whole = file.subrange(start, start + part.len());
    assert(file[start + at] == whole[at]);
    assert(file[start + at + 1] == whole[at + 1]);
    assert(file.subrange(start + at, start + at + 2) =~= part.subrange(at, at + 2));
    lemma_le16_at(file, start + at, value);
}

/// Where the fields of the file header stand in it.
pub proof fn lemma_file_header(width: nat, height: nat)
    ensures
        ({
            let header = file_header(width, height);
            &&& header.len() == FILE_HEADER_SIZE
            &&& header[0] == MAGIC_0
            &&& header[1] == MAGIC_1
            &&& header.subrange(2, 6) == le32(file_size(width, height))
            &&& header.subrange(6, 8) == le16(0)
            &&& header.subrange(8, 10) == le16(0)
            &&& header.subrange(10, 14) == le32(HEADERS_SIZE as nat)
        }),
{
    let header = file_header(width, height);
    assert(header.subrange(2, 6) =~= le32(file_size(width, height)));
    assert(header.subrange(6, 8) =~= le16(0));
    assert(header.subrange(8, 10) =~= le16(0));
    assert(header.subrange(10, 14) =~= le32(HEADERS_SIZE as nat));
}

/// Where the fields of the info header stand in it.
pub proof fn lemma_info_header(width: nat, height_field: nat, data_size: nat)
    ensures
        ({
            let header = info_header(width, height_field, data_size);
            &&& header.len() == INFO_HEADER_SIZE
            &&& header.subrange(0, 4) == le32(INFO_HEADER_SIZE as nat)
            &&& header.subrange(4, 8) == le32(width)
            &&& header.subrange(8, 12) == le32(height_field)
            &&& header.subrange(12, 14) == le16(PLANES as nat)
            &&& header.subrange(14, 16) == le16(BITS_PER_PIXEL as nat)
            &&& header.subrange(16, 20) == le32(UNCOMPRESSED as nat)
            &&& header.subrange(20, 24) == le32(data_size)
            &&& header.subrange(24, 40) == le32(0) + le32(0) + le32(0) + le32(0)
        }),
{
    let header = info_header(width, height_field, data_size);
    let sizes = le32(INFO_HEADER_SIZE as nat) + le32(width) + le32(height_field);
    let kinds = le16(PLANES as nat) + le16(BITS_PER_PIXEL as nat) + le32(UNCOMPRESSED as nat);
    let rest = le32(data_size) + le32(0) + le32(0) + le32(0) + le32(0);
    assert(sizes.len() == 12 && kinds.len() == 8 && rest.len() == 20);
    assert(header =~= sizes + kinds + rest);
    assert(header.subrange(0, 4) =~= le32(INFO_HEADER_SIZE as nat));
    assert(header.subrange(4, 8) =~= le32(width));
    assert(header.subrange(8, 12) =~= le32(height_field));
    assert(header.subrange(12, 14) =~= le16(PLANES as nat));
    assert(header.subrange(14, 16) =~= le16(BITS_PER_PIXEL as nat));
    assert(header.subrange(16, 20) =~= le32(UNCOMPRESSED as nat));
    assert(header.subrange(20, 24) =~= le32(data_size));
    assert(header.subrange(24, 40) =~= le32(0) + le32(0) + le32(0) + le32(0));
}

/// An image whose file fits the size field has dimensions that fit the
/// signed fields of the info header, and its pixels fit its pixel data.
pub proof fn lemma_dimensions_fit(width: nat, height: nat)
    requires
        width >= 1,
        height >= 1,
        file_size(width, height) <= u32::MAX,
    ensures
        width < 0x8000_0000,
        height < 0x8000_0000,
        3 * (width * height) <= pixel_data_size(width, height),
        padded_row(width) <= pixel_data_size(width, height),
{
    let row = padded_row(width) as int;
    assert(row * height >= row) by (nonlinear_arith)
        requires
            height >= 1,
            row >= 0,
    ;
    assert(row * height >= 4 * height) by (nonlinear_arith)
        requires
            row >= 4,
            height >= 0,
    ;
    assert(row * height >= 3 * (width * height)) by (nonlinear_arith)
        requires
            row >= 3 * width,
            height >= 0,
    ;
}

/// A file is its file header, its info header and its pixel data, one
/// after the other.
pub proof fn lemma_file_parts(image: Raster, top_down: bool)
    ensures
        ({
            let file = file_in_order(image, top_down);
            let data = pixel_data(image, top_down);
            &&& file.len() == file_size(image.width, image.height)
            &&& data.len() == pixel_data_size(image.width, image.height)
            &&& file.subrange(0, 14) == file_header(image.width, image.height)
            &&& file.subrange(14, 54) == info_header(
                image.width,
                height_field(image.height, top_down),
                pixel_data_size(image.width, image.height),
            )
            &&& file.subrange(54, file.len() as int) == data
        }),
{
    reveal(file_in_order);
    let file = file_in_order(image, top_down);
    let first = file_header(image.width, image.height);
    let second = info_header(
        image.width,
        height_field(image.height, top_down),
        pixel_data_size(image.width, image.height),
    );
    let data = pixel_data(image, top_down);
    assert(first.len() == 14);
    assert(second.len() == 40);
    assert(file == first + second + data);
    assert(file.subrange(0, 14) =~= first);
    assert(file.subrange(14, 54) =~= second);
    assert(file.subrange(54, file.len() as int) =~= data);
}

/// The fields of both headers are read back from a file at their places.
pub proof fn lemma_header_fields(image: Raster, top_down: bool)
    requires
        image.wf(),
        file_size(image.width, image.height) <= u32::MAX,
    ensures
        ({
            let file = file_in_order(image, top_down);
            &&& file.len() == file_size(image.width, image.height)
            &&& file[0] == MAGIC_0
            &&& file[1] == MAGIC_1
            &&& le32_at(file, 2) == file_size(image.width, image.height)
            &&& le32_at(file, PIXEL_OFFSET_AT as int) == HEADERS_SIZE
            &&& le32_at(file, INFO_SIZE_AT as int) == INFO_HEADER_SIZE
            &&& le32_at(file, WIDTH_AT as int) == image.width
            &&& le32_at(file, HEIGHT_AT as int) == height_field(image.height, top_down)
            &&& le16_at(file, PLANES_AT as int) == PLANES
            &&& le16_at(file, BITS_AT as int) == BITS_PER_PIXEL
            &&& le32_at(file, COMPRESSION_AT as int) == UNCOMPRESSED
            &&& le32_at(file, 34) == pixel_data_size(image.width, image.height)
        }),
{
    let file = file_in_order(image, top_down);
    let width = image.width;
    let height = image.height;
    let field = height_field(height, top_down);
    let size = pixel_data_size(width, height);
    let first = file_header(width, height);
    let second = info_header(width, field, size);
    lemma_dimensions_fit(width, height);
    lemma_file_parts(image, top_down);
    lemma_file_header(width, height);
    lemma_info_header(width, field, size);
    assert(file[0] == file.subrange(0, 14)[0]);
    assert(file[1] == file.subrange(0, 14)[1]);
    lemma_le32_in_part(file, first, 0, 2, file_size(width, height));
    lemma_le32_in_part(file, first, 0, 10, HEADERS_SIZE as nat);
    lemma_le32_in_part(file, second, 14, 0, INFO_HEADER_SIZE as nat);
    lemma_le32_in_part(file, second, 14, 4, width);
    lemma_le32_in_part(file, second, 14, 8, field);
    lemma_le16_in_part(file, second, 14, 12, PLANES as nat);
    lemma_le16_in_part(file, second, 14, 14, BITS_PER_PIXEL as nat);
    lemma_le32_in_part(file, second, 14, 16, UNCOMPRESSED as nat);
    lemma_le32_in_part(file, second, 14, 20, size);
}

/// What a file does not use is zero: the reserved bytes of the file header
/// and the last four fields of the info header.
pub proof fn lemma_unused_fields(image: Raster, top_down: bool)
    ensures
        forall|i: int| 6 <= i < 10 ==> file_in_order(image, top_down)[i] == 0,
        forall|i: int| 38 <= i < HEADERS_SIZE ==> file_in_order(image, top_down)[i] == 0,
{
    let file = file_in_order(image, top_down);
    let size = pixel_data_size(image.width, image.height);
    let first = file_header(image.width, image.height);
    let second = info_header(image.width, height_field(image.height, top_down), size);
    lemma_file_parts(image, top_down);
    lemma_file_header(image.width, image.height);
    lemma_info_header(image.width, height_field(image.height, top_down), size);
    assert forall|i: int| 6 <= i < 10 implies file[i] == 0 by {
        assert(file[i] == file.subrange(0, 14)[i]);
        assert(first[i] == if i < 8 {
            first.subrange(6, 8)[i - 6]
        } else {
            first.subrange(8, 10)[i - 8]
        });
    }
    assert forall|i: int| 38 <= i < HEADERS_SIZE implies file[i] == 0 by {
        assert(file[i] == file.subrange(14, 54)[i - 14]);
        assert(second[i - 14] == second.subrange(24, 40)[i - 38]);
    }
}

/// The pixel data follows the headers.
pub proof fn lemma_data_follows(image: Raster, top_down: bool)
    ensures
        file_in_order(image, top_down).len() == HEADERS_SIZE + pixel_data_size(
            image.width,
            image.height,
        ),
        forall|i: int|
            0 <= i < pixel_data_size(image.width, image.height) ==> file_in_order(
                image,
                top_down,
            )[HEADERS_SIZE + i] == pixel_data(image, top_down)[i],
{
    let file = file_in_order(image, top_down);
    let data = pixel_data(image, top_down);
    lemma_file_parts(image, top_down);
    assert forall|i: int| 0 <= i < data.len() implies file[HEADERS_SIZE + i] == data[i] by {
        assert(file[HEADERS_SIZE + i] == file.subrange(54, file.len() as int)[i]);
    }
}

/// The byte at column `col` of slot `slot` of the pixel data belongs to the
/// row that is stored in that slot.
pub proof fn lemma_data_byte(image: Raster, top_down: bool, slot: int, col: int)
    requires
        0 <= slot < image.height,
        0 <= col < padded_row(image.width),
    ensures
        0 <= slot * padded_row(image.width) + col < pixel_data_size(image.width, image.height),
        pixel_data(image, top_down)[slot * padded_row(image.width) + col] == row_byte(
            image,
            row_in_slot(image.height, top_down, slot),
            col,
        ),
{
    lemma_slot_position(image.width, image.height, slot, col);
}

} // verus!
