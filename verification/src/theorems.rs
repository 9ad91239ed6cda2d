//! What holds of every image and every file: the shape of a written file,
//! that reading gives back what was written, and how the two operations
//! answer one another.

use crate::decode::{
    decoded, header_error, header_of, pixel_position, stored_image, stored_pixel, Header,
};
use crate::entry::{read_effect, requested_path, write_outcome, ReadEffect, StoredFile};
use crate::image::{lemma_index_in_bounds, Pixel, Raster};
use crate::layout::{
    bmp_file, file_in_order, file_size, le32, le32_at, lemma_data_byte,
    lemma_data_follows, lemma_dimensions_fit, lemma_file_parts, lemma_header_fields,
    lemma_info_header,
    lemma_slot_position, padded_row, pixel_data, pixel_data_size, row_bytes, row_in_slot,
    row_padding, top_down_bmp_file, HEADERS_SIZE, HEIGHT_AT, WIDTH_AT,
};
use crate::matrix::{image_matrix, matrix_image, matrix_len, OPAQUE};
use crate::path::path_text;
use crate::status::{Error, STATUS_FAILED, STATUS_OK};
use vstd::prelude::*;

verus! {

/// The file of an image of width `W` and height `H` is
/// `54 + (3 * W + pad) * H` bytes long, where `pad = (4 - 3 * W mod 4) mod 4`.
pub proof fn theorem_file_length(image: Raster)
    ensures
        bmp_file(image).len() == 54 + (3 * image.width + (4 - (3 * image.width) % 4) % 4)
            * image.height,
        bmp_file(image).len() == file_size(image.width, image.height),
{
    lemma_file_parts(image, false);
}

/// Every stored row is a multiple of four bytes long: its pixels, then
/// fewer than four bytes of padding.
pub proof fn theorem_rows_are_padded(width: nat)
    ensures
        padded_row(width) % 4 == 0,
        padded_row(width) == row_bytes(width) + row_padding(width),
        row_padding(width) < 4,
{
}

/// A written file starts with the bytes `0x42 0x4D`; its bytes 18 to 21 are
/// the width and its bytes 22 to 25 the height, least significant byte
/// first.
pub proof fn theorem_signature_and_dimensions(image: Raster)
    requires
        image.wf(),
        file_size(image.width, image.height) <= u32::MAX,
    ensures
        bmp_file(image)[0] == 0x42,
        bmp_file(image)[1] == 0x4D,
        bmp_file(image).subrange(18, 22) == le32(image.width),
        bmp_file(image).subrange(22, 26) == le32(image.height),
        le32_at(bmp_file(image), 18) == image.width,
        le32_at(bmp_file(image), 22) == image.height,
{
    let file = bmp_file(image);
    lemma_header_fields(image, false);
    lemma_file_parts(image, false);
    lemma_info_header(image.width, image.height, pixel_data_size(image.width, image.height));
    assert(file.subrange(18, 22) =~= file.subrange(14, 54).subrange(4, 8));
    assert(file.subrange(22, 26) =~= file.subrange(14, 54).subrange(8, 12));
}

/// Every padding byte of a written file is zero: in each stored row, the
/// bytes after the pixels.
pub proof fn theorem_padding_is_zero(image: Raster, slot: int, col: int)
    requires
        0 <= slot < image.height,
        row_bytes(image.width) <= col < padded_row(image.width),
    ensures
        HEADERS_SIZE + slot * padded_row(image.width) + col < bmp_file(image).len(),
        bmp_file(image)[HEADERS_SIZE + slot * padded_row(image.width) + col] == 0,
{
    lemma_data_follows(image, false);
    lemma_data_byte(image, false, slot, col);
}

/// The rows of a written file stand bottom-up: the pixel at column `x` of
/// row `y` (counted from the top) takes the three bytes at
/// `54 + (H - 1 - y) * (3 * W + pad) + 3 * x`, as blue, green and red.
pub proof fn theorem_rows_are_stored_bottom_up(image: Raster, x: int, y: int)
    requires
        0 <= x < image.width,
        0 <= y < image.height,
    ensures
        ({
            let at = HEADERS_SIZE + (image.height - 1 - y) * padded_row(image.width) + 3 * x;
            &&& 0 <= at && at + 2 < bmp_file(image).len()
            &&& bmp_file(image)[at] == image.pixel(x, y).b
            &&& bmp_file(image)[at + 1] == image.pixel(x, y).g
            &&& bmp_file(image)[at + 2] == image.pixel(x, y).r
        }),
{
    let slot = image.height - 1 - y;
    lemma_data_follows(image, false);
    lemma_data_byte(image, false, slot, 3 * x);
    lemma_data_byte(image, false, slot, 3 * x + 1);
    lemma_data_byte(image, false, slot, 3 * x + 2);
}

/// The headers of a written file declare the image's size, its row order,
/// and pixel data that starts right after them; such a file is accepted.
pub proof fn lemma_written_header(image: Raster, top_down: bool)
    requires
        image.wf(),
        file_size(image.width, image.height) <= u32::MAX,
    ensures
        header_of(file_in_order(image, top_down)) == (Header {
            width: image.width as u32,
            height: image.height as u32,
            top_down,
            pixel_offset: HEADERS_SIZE,
        }),
        header_error(file_in_order(image, top_down)) is None,
        image.width < 0x8000_0000,
        image.height < 0x8000_0000,
{
    lemma_header_fields(image, top_down);
    lemma_dimensions_fit(image.width, image.height);
}

/// The pixel that is read at a position of a written file is the pixel of
/// the image at that position.
pub proof fn lemma_stored_pixel(image: Raster, top_down: bool, x: int, y: int)
    requires
        image.wf(),
        file_size(image.width, image.height) <= u32::MAX,
        0 <= x < image.width,
        0 <= y < image.height,
    ensures
        stored_pixel(file_in_order(image, top_down), x, y) == image.pixel(x, y),
{
    let file = file_in_order(image, top_down);
    let row = padded_row(image.width) as int;
    let slot = row_in_slot(image.height, top_down, y);
    let data = pixel_data(image, top_down);
    lemma_written_header(image, top_down);
    assert(pixel_position(header_of(file), x, y) == HEADERS_SIZE + (slot * row + 3 * x));
    lemma_data_byte(image, top_down, slot, 3 * x);
    lemma_data_byte(image, top_down, slot, 3 * x + 1);
    lemma_data_byte(image, top_down, slot, 3 * x + 2);
    assert(file[HEADERS_SIZE + (slot * row + 3 * x)] == data[slot * row + 3 * x]
        && file[HEADERS_SIZE + (slot * row + 3 * x + 1)] == data[slot * row + 3 * x + 1]
        && file[HEADERS_SIZE + (slot * row + 3 * x + 2)] == data[slot * row + 3 * x + 2]) by {
        lemma_data_follows(image, top_down);
    }
}

/// Reading gives back what was written: the file of an image, with its rows
/// stored in either order, is accepted and holds that image.
pub proof fn theorem_read_back(image: Raster, top_down: bool)
    requires
        image.wf(),
        file_size(image.width, image.height) <= u32::MAX,
    ensures
        decoded(file_in_order(image, top_down)) == Ok::<Raster, Error>(image),
{
    let file = file_in_order(image, top_down);
    let width = image.width;
    let height = image.height;
    lemma_written_header(image, top_down);
    let read = stored_image(file);
    assert(read.pixels.len() == image.pixels.len());
    assert forall|i: int| 0 <= i < image.pixels.len() implies read.pixels[i] == image.pixels[i] by {
        let w = width as int;
        let x = i % w;
        let y = i / w;
        vstd::arithmetic::div_mod::lemma_fundamental_div_mod(i, w);
        assert(w * y == y * w) by (nonlinear_arith);
        assert(0 <= y < height) by {
            vstd::arithmetic::div_mod::lemma_div_pos_is_pos(i, w);
            assert(width * height == height * w) by (nonlinear_arith)
                requires
                    w == width,
            ;
            vstd::arithmetic::div_mod::lemma_div_by_multiple_is_strongly_ordered(
                i,
                height * w,
                height as int,
                w,
            );
            vstd::arithmetic::div_mod::lemma_div_by_multiple(height as int, w);
        }
        lemma_stored_pixel(image, top_down, x, y);
    }
    assert(read.pixels =~= image.pixels);
}

/// The two files of one image, rows bottom-up and rows top-down, are read
/// as the same image.
pub proof fn theorem_row_order_is_hidden(image: Raster)
    requires
        image.wf(),
        file_size(image.width, image.height) <= u32::MAX,
    ensures
        decoded(bmp_file(image)) == Ok::<Raster, Error>(image),
        decoded(top_down_bmp_file(image)) == decoded(bmp_file(image)),
{
    theorem_read_back(image, false);
    theorem_read_back(image, true);
}

/// A file with a negative height field is read as an image of that many
/// rows, and its rows are read in the order they are stored in: row `y`
/// (counted from the top) from the `y`-th stored row.
pub proof fn theorem_top_down_rows(file: Seq<u8>, x: int, y: int)
    requires
        header_error(file) is None,
        le32_at(file, HEIGHT_AT as int) >= 0x8000_0000,
        0 <= x < header_of(file).width,
        0 <= y < header_of(file).height,
    ensures
        decoded(file) == Ok::<Raster, Error>(stored_image(file)),
        stored_image(file).height == 0x1_0000_0000 - le32_at(file, HEIGHT_AT as int),
        stored_image(file).width == le32_at(file, WIDTH_AT as int),
        ({
            let at = header_of(file).pixel_offset + y * padded_row(stored_image(file).width) + 3
                * x;
            &&& 0 <= at && at + 2 < file.len()
            &&& stored_image(file).pixel(x, y) == (Pixel {
                r: file[at + 2],
                g: file[at + 1],
                b: file[at],
            })
        }),
{
    let header = header_of(file);
    lemma_index_in_bounds(header.width as nat, header.height as nat, x, y);
    lemma_slot_position(header.width as nat, header.height as nat, y, 3 * x + 2);
    assert(0 <= y * padded_row(header.width as nat)) by (nonlinear_arith)
        requires
            0 <= y,
    ;
}

/// A file with a positive height field is read as an image of that many
/// rows, and its rows are read against the order they are stored in: row
/// `y` (counted from the top) from the stored row that has `y` rows after
/// it.
pub proof fn theorem_bottom_up_rows(file: Seq<u8>, x: int, y: int)
    requires
        header_error(file) is None,
        le32_at(file, HEIGHT_AT as int) < 0x8000_0000,
        0 <= x < header_of(file).width,
        0 <= y < header_of(file).height,
    ensures
        decoded(file) == Ok::<Raster, Error>(stored_image(file)),
        stored_image(file).height == le32_at(file, HEIGHT_AT as int),
        stored_image(file).width == le32_at(file, WIDTH_AT as int),
        ({
            let at = header_of(file).pixel_offset + (stored_image(file).height - 1 - y)
                * padded_row(stored_image(file).width) + 3 * x;
            &&& 0 <= at && at + 2 < file.len()
            &&& stored_image(file).pixel(x, y) == (Pixel {
                r: file[at + 2],
                g: file[at + 1],
                b: file[at],
            })
        }),
{
    let header = header_of(file);
    let slot = header.height - 1 - y;
    lemma_index_in_bounds(header.width as nat, header.height as nat, x, y);
    lemma_slot_position(header.width as nat, header.height as nat, slot, 3 * x + 2);
    assert(0 <= slot * padded_row(header.width as nat)) by (nonlinear_arith)
        requires
            0 <= slot,
    ;
}

/// Images of up to 4096 by 4096 pixels are written: given their matrix and
/// a path, no size of theirs overflows.
pub proof fn theorem_moderate_images_are_written(
    rgba: Seq<u8>,
    width: nat,
    height: nat,
    path: Seq<u8>,
)
    requires
        1 <= width <= 4096,
        1 <= height <= 4096,
        rgba.len() == matrix_len(width, height),
        path_text(path) is Some,
    ensures
        write_outcome(Some(rgba), width, height, Some(path)) is Ok,
{
    assert(width * height <= 4096 * 4096) by (nonlinear_arith)
        requires
            width <= 4096,
            height <= 4096,
    ;
    assert(4 * width * height == 4 * (width * height)) by (nonlinear_arith);
    assert(padded_row(width) * height <= 12288 * 4096) by (nonlinear_arith)
        requires
            padded_row(width) <= 12288,
            height <= 4096,
    ;
}

/// A matrix that went through an image comes back with its colours, and
/// with every alpha byte opaque.
pub proof fn theorem_matrix_of_image(rgba: Seq<u8>, width: nat, height: nat)
    requires
        matrix_len(width, height) <= rgba.len(),
    ensures
        image_matrix(matrix_image(rgba, width, height)).len() == matrix_len(width, height),
        forall|i: int|
            0 <= i < matrix_len(width, height) ==> #[trigger] image_matrix(
                matrix_image(rgba, width, height),
            )[i] == (if i % 4 == 3 {
                OPAQUE
            } else {
                rgba[i]
            }),
{
    assert(4 * width * height == 4 * (width * height)) by (nonlinear_arith);
}

/// Writing a matrix and reading the file back into a buffer that can hold
/// it succeeds, stores the dimensions that were written, and fills the
/// front of the buffer with the matrix that was written, but for the alpha
/// bytes, which are all opaque. The rest of the buffer is left as it was.
pub proof fn theorem_round_trip(
    rgba: Seq<u8>,
    width: nat,
    height: nat,
    path: Seq<u8>,
    old_width: u32,
    old_height: u32,
    buffer: Seq<u8>,
)
    requires
        write_outcome(Some(rgba), width, height, Some(path)) is Ok,
        matrix_len(width, height) <= buffer.len(),
    ensures
        ({
            let file = write_outcome(Some(rgba), width, height, Some(path))->Ok_0;
            let read = read_effect(Some(file.bytes), old_width, old_height, buffer);
            &&& read.status == STATUS_OK
            &&& read.width == width
            &&& read.height == height
            &&& read.rgba.len() == buffer.len()
            &&& forall|i: int|
                0 <= i < matrix_len(width, height) ==> #[trigger] read.rgba[i] == (if i % 4 == 3 {
                    OPAQUE
                } else {
                    rgba[i]
                })
            &&& forall|i: int|
                matrix_len(width, height) <= i < buffer.len() ==> #[trigger] read.rgba[i]
                    == buffer[i]
        }),
{
    let image = matrix_image(rgba, width, height);
    assert(width * height >= 0) by (nonlinear_arith);
    theorem_read_back(image, false);
    lemma_dimensions_fit(width, height);
    theorem_matrix_of_image(rgba, width, height);
}

/// Reading a written file into a buffer that is too short for its matrix,
/// be it by one byte, gives the status -2, stores the dimensions that were
/// written, and leaves the buffer as it was.
pub proof fn theorem_buffer_too_small(
    rgba: Seq<u8>,
    width: nat,
    height: nat,
    path: Seq<u8>,
    old_width: u32,
    old_height: u32,
    buffer: Seq<u8>,
)
    requires
        write_outcome(Some(rgba), width, height, Some(path)) is Ok,
        buffer.len() < matrix_len(width, height),
    ensures
        ({
            let file = write_outcome(Some(rgba), width, height, Some(path))->Ok_0;
            let read = read_effect(Some(file.bytes), old_width, old_height, buffer);
            &&& read.status == -2
            &&& read.width == width
            &&& read.height == height
            &&& read.rgba == buffer
        }),
{
    let image = matrix_image(rgba, width, height);
    assert(width * height >= 0) by (nonlinear_arith);
    theorem_read_back(image, false);
    lemma_dimensions_fit(width, height);
}

/// A file that could not be loaded, or that is refused, is reported with
/// the status -1, and none of the outputs is changed.
pub proof fn theorem_refused_file(
    file: Option<Seq<u8>>,
    old_width: u32,
    old_height: u32,
    buffer: Seq<u8>,
)
    requires
        file matches Some(bytes) ==> header_error(bytes) is Some,
    ensures
        read_effect(file, old_width, old_height, buffer) == (ReadEffect {
            status: STATUS_FAILED,
            width: old_width,
            height: old_height,
            rgba: buffer,
        }),
        STATUS_FAILED == -1,
{
}

/// An absent argument fails either operation before anything else is looked
/// at, with an error whose status is -1: no file is to be stored, and none
/// to be loaded.
pub proof fn theorem_absent_arguments(
    rgba: Option<Seq<u8>>,
    width: nat,
    height: nat,
    path: Option<Seq<u8>>,
    has_width: bool,
    has_height: bool,
    has_rgba_matrix: bool,
)
    ensures
        rgba is None || path is None ==> write_outcome(rgba, width, height, path) == Err::<
            StoredFile,
            Error,
        >(Error::NullArgument),
        path is None || !has_width || !has_height || !has_rgba_matrix ==> requested_path(
            path,
            has_width,
            has_height,
            has_rgba_matrix,
        ) == Err::<Seq<char>, Error>(Error::NullArgument),
        Error::NullArgument.spec_code() == -1,
{
}

/// Whatever fails a write fails it with the status -1.
pub proof fn theorem_write_failures(
    rgba: Option<Seq<u8>>,
    width: nat,
    height: nat,
    path: Option<Seq<u8>>,
)
    ensures
        write_outcome(rgba, width, height, path) matches Err(e) ==> e.spec_code() == -1,
{
}

} // verus!
