//! The RGBA matrix: four bytes per pixel, red, green, blue and alpha, the
//! rows one after the other from the top. An image takes the three colour
//! channels of a matrix; a matrix made from an image is opaque.

use crate::image::{lemma_index_in_bounds, Image, Pixel, Raster};
use crate::status::Error;
use vstd::prelude::*;

verus! {

/// The alpha byte of every pixel that is written to a matrix.
pub const OPAQUE: u8 = 255;

/// Bytes that the matrix of an image of the given size takes.
pub open spec fn matrix_len(width: nat, height: nat) -> nat {
    4 * width * height
}

/// Why a buffer of `len` bytes is no matrix of the given size, if it is
/// none: a matrix has a pixel, a length that fits the address space, and
/// all of its bytes in the buffer.
pub open spec fn matrix_error(len: nat, width: nat, height: nat) -> Option<Error> {
    if width == 0 || height == 0 {
        Some(Error::EmptyImage)
    } else if matrix_len(width, height) > usize::MAX {
        Some(Error::SizeOverflow)
    } else if len < matrix_len(width, height) {
        Some(Error::ShortMatrix)
    } else {
        None
    }
}

/// The image that the first bytes of `rgba` describe. Alpha is dropped.
pub open spec fn matrix_image(rgba: Seq<u8>, width: nat, height: nat) -> Raster {
    Raster {
        width,
        height,
        pixels: Seq::new(
            width * height,
            |i: int| Pixel { r: rgba[4 * i], g: rgba[4 * i + 1], b: rgba[4 * i + 2] },
        ),
    }
}

/// The matrix of an image. Every pixel is opaque.
pub open spec fn image_matrix(image: Raster) -> Seq<u8> {
    Seq::new(
        matrix_len(image.width, image.height),
        |i: int|
            if i % 4 == 0 {
                image.pixels[i / 4].r
            } else if i % 4 == 1 {
                image.pixels[i / 4].g
            } else if i % 4 == 2 {
                image.pixels[i / 4].b
            } else {
                OPAQUE
            },
    )
}

/// The length of the matrix of an image of the given size. An image has at
/// least one pixel, and the length must fit the address space.
pub fn matrix_size(width: u32, height: u32) -> (size: Result<usize, Error>)
    ensures
        match size {
            Ok(len) => width >= 1 && height >= 1 && len == matrix_len(width as nat, height as nat),
            Err(e) => if width == 0 || height == 0 {
                e == Error::EmptyImage
            } else {
                e == Error::SizeOverflow && matrix_len(width as nat, height as nat) > usize::MAX
            },
        },
{
    if width == 0 || height == 0 {
        return Err(Error::EmptyImage);
    }
    assert(width as u64 * height as u64 <= 0xFFFF_FFFE_0000_0001) by (nonlinear_arith)
        requires
            width <= 0xFFFF_FFFF,
            height <= 0xFFFF_FFFF,
    ;
    let count: u64 = width as u64 * height as u64;
    assert(4 * width * height == 4 * (width * height)) by (nonlinear_arith);
    if count > (usize::MAX / 4) as u64 {
        return Err(Error::SizeOverflow);
    }
    Ok(4 * (count as usize))
}

impl Image {
    /// The image that a matrix describes: pixel `(x, y)` takes its red, green
    /// and blue from the bytes at `4 * (y * width + x)` and the two after
    /// it. Bytes past the matrix are not read.
    pub fn from_rgba(rgba: &[u8], width: u32, height: u32) -> (made: Result<Image, Error>)
        ensures
            match made {
                Ok(image) => {
                    &&& matrix_error(rgba@.len(), width as nat, height as nat) is None
                    &&& image.wf()
                    &&& image@ == matrix_image(rgba@, width as nat, height as nat)
                },
                Err(e) => matrix_error(rgba@.len(), width as nat, height as nat) == Some(e),
            },
    {
        let len: usize = match matrix_size(width, height) {
            Ok(len) => len,
            Err(e) => {
                return Err(e);
            },
        };
        if rgba.len() < len {
            return Err(Error::ShortMatrix);
        }
        assert(4 * width * height == 4 * (width * height)) by (nonlinear_arith);
        let mut image: Image = Image::blank(width, height);
        let ghost target = matrix_image(rgba@, width as nat, height as nat);
        let mut at: usize = 0;
        let mut y: u32 = 0;
        while y < height
            invariant
                y <= height,
                at == y * width,
                image.wf(),
                image@.width == width,
                image@.height == height,
                target == matrix_image(rgba@, width as nat, height as nat),
                4 * (width * height) <= rgba@.len() <= usize::MAX,
                forall|i: int| 0 <= i < at ==> image@.pixels[i] == target.pixels[i],
            decreases height - y,
        {
            let mut x: u32 = 0;
            while x < width
                invariant
                    x <= width,
                    y < height,
                    at == y * width + x,
                    image.wf(),
                    image@.width == width,
                    image@.height == height,
                    target == matrix_image(rgba@, width as nat, height as nat),
                    4 * (width * height) <= rgba@.len() <= usize::MAX,
                    forall|i: int| 0 <= i < at ==> image@.pixels[i] == target.pixels[i],
                decreases width - x,
            {
                proof {
                    lemma_index_in_bounds(width as nat, height as nat, x as int, y as int);
                }
                let pixel = Pixel { r: rgba[4 * at], g: rgba[4 * at + 1], b: rgba[4 * at + 2] };
                image.set_pixel(x, y, pixel);
                x = x + 1;
                at = at + 1;
            }
            assert(y * width + width == (y + 1) * width) by (nonlinear_arith);
            y = y + 1;
        }
        assert(height * width == width * height) by (nonlinear_arith);
        assert(image@.pixels =~= target.pixels);
        Ok(image)
    }

    /// Writes the image to the front of a buffer as a matrix: the four bytes
    /// at `4 * (y * width + x)` become red, green and blue of pixel `(x, y)`
    /// and an opaque alpha. Bytes past the matrix keep their value. A buffer
    /// that is too short for the matrix is left as it was.
    pub fn copy_to_rgba(&self, rgba: &mut [u8]) -> (copied: Result<(), Error>)
        requires
            self.wf(),
        ensures
            match copied {
                Ok(_) => {
                    &&& matrix_len(self@.width, self@.height) <= old(rgba)@.len()
                    &&& final(rgba)@ == image_matrix(self@) + old(rgba)@.skip(
                        matrix_len(self@.width, self@.height) as int,
                    )
                },
                Err(e) => {
                    &&& e == Error::BufferTooSmall
                    &&& matrix_len(self@.width, self@.height) > old(rgba)@.len()
                    &&& final(rgba)@ == old(rgba)@
                },
            },
    {
        let width: u32 = self.get_width();
        let height: u32 = self.get_height();
        let ghost source = image_matrix(self@);
        assert(4 * width * height == 4 * (width * height)) by (nonlinear_arith);
        assert(width as u64 * height as u64 <= 0xFFFF_FFFE_0000_0001) by (nonlinear_arith)
            requires
                width <= 0xFFFF_FFFF,
                height <= 0xFFFF_FFFF,
        ;
        if width as u64 * height as u64 > (rgba.len() / 4) as u64 {
            return Err(Error::BufferTooSmall);
        }
        let mut at: usize = 0;
        let mut y: u32 = 0;
        while y < height
            invariant
                y <= height,
                at == y * width,
                self.wf(),
                self@.width == width,
                self@.height == height,
                source == image_matrix(self@),
                source.len() == 4 * (width * height),
                rgba@.len() == old(rgba)@.len(),
                4 * (width * height) <= rgba@.len() <= usize::MAX,
                forall|i: int| 0 <= i < 4 * at ==> rgba@[i] == source[i],
                forall|i: int| 4 * at <= i < rgba@.len() ==> rgba@[i] == old(rgba)@[i],
            decreases height - y,
        {
            let mut x: u32 = 0;
            while x < width
                invariant
                    x <= width,
                    y < height,
                    at == y * width + x,
                    self.wf(),
                    self@.width == width,
                    self@.height == height,
                    source == image_matrix(self@),
                    source.len() == 4 * (width * height),
                    rgba@.len() == old(rgba)@.len(),
                    4 * (width * height) <= rgba@.len() <= usize::MAX,
                    forall|i: int| 0 <= i < 4 * at ==> rgba@[i] == source[i],
                    forall|i: int| 4 * at <= i < rgba@.len() ==> rgba@[i] == old(rgba)@[i],
                decreases width - x,
            {
                proof {
                    lemma_index_in_bounds(width as nat, height as nat, x as int, y as int);
                }
                let pixel = self.get_pixel(x, y);
                rgba[4 * at] = pixel.r;
                rgba[4 * at + 1] = pixel.g;
                rgba[4 * at + 2] = pixel.b;
                rgba[4 * at + 3] = OPAQUE;
                x = x + 1;
                at = at + 1;
            }
            assert(y * width + width == (y + 1) * width) by (nonlinear_arith);
            y = y + 1;
        }
        assert(height * width == width * height) by (nonlinear_arith);
        Ok(())
    }
}

} // verus!
