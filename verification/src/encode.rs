//! Writing an image out as the bytes of a file.

use crate::image::Image;
use crate::layout::{
    bmp_file, file_header, file_in_order, file_size, info_header, le16, le32, lemma_slot_position,
    padded_row, pixel_data, pixel_data_size, row_bytes, stored_file_size, stored_row_size,
    BITS_PER_PIXEL, HEADERS_SIZE, INFO_HEADER_SIZE, MAGIC_0, MAGIC_1, PLANES, UNCOMPRESSED,
};
use crate::status::Error;
use vstd::prelude::*;

verus! {

/// Appends a 16-bit field.
fn push_le16(out: &mut Vec<u8>, value: u16)
    ensures
        final(out)@ == old(out)@ + le16(value as nat),
{
    out.push((value % 0x100) as u8);
    out.push((value / 0x100) as u8);
}

/// Appends a 32-bit field.
fn push_le32(out: &mut Vec<u8>, value: u32)
    ensures
        final(out)@ == old(out)@ + le32(value as nat),
{
    out.push((value % 0x100) as u8);
    out.push((value / 0x100 % 0x100) as u8);
    out.push((value / 0x1_0000 % 0x100) as u8);
    out.push((value / 0x100_0000) as u8);
}

/// The two headers of the file of an image of the given size.
fn headers(width: u32, height: u32, size: u32) -> (out: Vec<u8>)
    requires
        size == file_size(width as nat, height as nat),
    ensures
        out@ == file_header(width as nat, height as nat) + info_header(
            width as nat,
            height as nat,
            pixel_data_size(width as nat, height as nat),
        ),
        out@.len() == HEADERS_SIZE,
{
    let mut out: Vec<u8> = Vec::new();
    out.push(MAGIC_0);
    out.push(MAGIC_1);
    push_le32(&mut out, size);
    push_le16(&mut out, 0);
    push_le16(&mut out, 0);
    push_le32(&mut out, HEADERS_SIZE);
    push_le32(&mut out, INFO_HEADER_SIZE);
    push_le32(&mut out, width);
    push_le32(&mut out, height);
    push_le16(&mut out, PLANES);
    push_le16(&mut out, BITS_PER_PIXEL);
    push_le32(&mut out, UNCOMPRESSED);
    push_le32(&mut out, size - HEADERS_SIZE);
    push_le32(&mut out, 0);
    push_le32(&mut out, 0);
    push_le32(&mut out, 0);
    push_le32(&mut out, 0);
    assert(out@ =~= file_header(width as nat, height as nat) + info_header(
        width as nat,
        height as nat,
        pixel_data_size(width as nat, height as nat),
    ));
    out
}

impl Image {
    /// The file of this image: the file header, the info header, then the
    /// rows from the bottom one up, each as blue, green and red of its pixels
    /// followed by zeros up to a multiple of four bytes. An image whose file
    /// would outgrow the 32-bit size field of the file header has no file.
    pub fn encode(&self) -> (file: Result<Vec<u8>, Error>)
        requires
            self.wf(),
        ensures
            match file {
                Ok(bytes) => {
                    &&& file_size(self@.width, self@.height) <= u32::MAX
                    &&& bytes@ == bmp_file(self@)
                },
                Err(e) => {
                    &&& e == Error::SizeOverflow
                    &&& file_size(self@.width, self@.height) > u32::MAX
                },
            },
    {
        let width: u32 = self.get_width();
        let height: u32 = self.get_height();
        let size: u32 = match stored_file_size(width, height) {
            Some(size) => size,
            None => {
                return Err(Error::SizeOverflow);
            },
        };
        let row: u64 = stored_row_size(width);
        let mut out: Vec<u8> = headers(width, height, size);
        let ghost head = out@;
        let ghost data = pixel_data(self@, false);
        let mut slot: u32 = 0;
        while slot < height
            invariant
                slot <= height,
                self.wf(),
                self@.width == width,
                self@.height == height,
                row == padded_row(width as nat),
                size == HEADERS_SIZE + row * height,
                data == pixel_data(self@, false),
                out@.len() == HEADERS_SIZE + slot * row,
                forall|i: int| 0 <= i < HEADERS_SIZE ==> out@[i] == head[i],
                forall|i: int| 0 <= i < slot * row ==> out@[HEADERS_SIZE + i] == data[i],
            decreases height - slot,
        {
            let y: u32 = height - 1 - slot;
            let ghost base = slot * row;
            let mut x: u32 = 0;
            while x < width
                invariant
                    x <= width,
                    slot < height,
                    y == height - 1 - slot,
                    base == slot * row,
                    self.wf(),
                    self@.width == width,
                    self@.height == height,
                    row == padded_row(width as nat),
                    size == HEADERS_SIZE + row * height,
                    data == pixel_data(self@, false),
                    out@.len() == HEADERS_SIZE + base + 3 * x,
                    forall|i: int| 0 <= i < HEADERS_SIZE ==> out@[i] == head[i],
                    forall|i: int| 0 <= i < base + 3 * x ==> out@[HEADERS_SIZE + i] == data[i],
                decreases width - x,
            {
                let pixel = self.get_pixel(x, y);
                proof {
                    lemma_slot_position(width as nat, height as nat, slot as int, 3 * x);
                    lemma_slot_position(width as nat, height as nat, slot as int, 3 * x + 1);
                    lemma_slot_position(width as nat, height as nat, slot as int, 3 * x + 2);
                }
                out.push(pixel.b);
                out.push(pixel.g);
                out.push(pixel.r);
                x = x + 1;
            }
            let mut col: u64 = 3 * (width as u64);
            while col < row
                invariant
                    row_bytes(width as nat) <= col <= row,
                    slot < height,
                    base == slot * row,
                    row == padded_row(width as nat),
                    size == HEADERS_SIZE + row * height,
                    data == pixel_data(self@, false),
                    self@.width == width,
                    self@.height == height,
                    out@.len() == HEADERS_SIZE + base + col,
                    forall|i: int| 0 <= i < HEADERS_SIZE ==> out@[i] == head[i],
                    forall|i: int| 0 <= i < base + col ==> out@[HEADERS_SIZE + i] == data[i],
                decreases row - col,
            {
                proof {
                    lemma_slot_position(width as nat, height as nat, slot as int, col as int);
                }
                out.push(0);
                col = col + 1;
            }
            assert(slot * row + row == (slot + 1) * row) by (nonlinear_arith);
            slot = slot + 1;
        }
        proof {
            reveal(file_in_order);
            assert(slot * row == pixel_data_size(width as nat, height as nat))
                by (nonlinear_arith)
                requires
                    slot == height,
                    row == padded_row(width as nat),
                    pixel_data_size(width as nat, height as nat) == padded_row(width as nat)
                        * height,
            ;
            assert(out@ =~= head + data);
        }
        Ok(out)
    }
}

} // verus!
