//! The in-memory image: a rectangle of RGB pixels addressed from its top-left
//! corner.

use crate::status::Error;
use vstd::prelude::*;

verus! {

/// One pixel: its red, green and blue channels.
#[derive(Clone, Copy, Debug, PartialEq, Eq, Structural)]
pub struct Pixel {
    pub r: u8,
    pub g: u8,
    pub b: u8,
}

/// The colour of a freshly made image.
pub open spec fn black() -> Pixel {
    Pixel { r: 0, g: 0, b: 0 }
}

/// The mathematical image: `pixels` holds the rows one after the other, top
/// row first, each row from left to right.
pub struct Raster {
    pub width: nat,
    pub height: nat,
    pub pixels: Seq<Pixel>,
}

impl Raster {
    /// Both dimensions are positive and every position has its pixel.
    pub open spec fn wf(self) -> bool {
        &&& self.width >= 1
        &&& self.height >= 1
        &&& self.pixels.len() == self.width * self.height
    }

    /// Where the pixel at column `x` of row `y` stands in `pixels`.
    pub open spec fn index(self, x: int, y: int) -> int {
        y * self.width + x
    }

    /// The pixel at column `x` of row `y`, row 0 being the top one.
    pub open spec fn pixel(self, x: int, y: int) -> Pixel {
        self.pixels[self.index(x, y)]
    }

    /// The image of the given size whose pixels are all black.
    pub open spec fn blank(width: nat, height: nat) -> Raster {
        Raster { width, height, pixels: Seq::new(width * height, |i: int| black()) }
    }

    /// This image with the pixel at column `x` of row `y` replaced.
    pub open spec fn with_pixel(self, x: int, y: int, value: Pixel) -> Raster {
        Raster { pixels: self.pixels.update(self.index(x, y), value), ..self }
    }
}

/// Positions inside an image have their index inside its pixel sequence, and
/// the index tells column and row apart.
pub proof fn lemma_index_in_bounds(width: nat, height: nat, x: int, y: int)
    requires
        0 <= x < width,
        0 <= y < height,
    ensures
        0 <= y * width + x < width * height,
        (y * width + x) / (width as int) == y,
        (y * width + x) % (width as int) == x,
{
    let w = width as int;
    assert(y * w + w <= height * w) by (nonlinear_arith)
        requires
            0 <= y < height,
            w >= 0,
    ;
    assert(width * height == height * w) by (nonlinear_arith)
        requires
            w == width,
    ;
    assert(0 <= y * w) by (nonlinear_arith)
        requires
            0 <= y,
            0 <= w,
    ;
    vstd::arithmetic::div_mod::lemma_fundamental_div_mod_converse(y * w + x, w, y, x);
}

/// An image held in memory.
#[derive(Debug, PartialEq, Eq)]
pub struct Image {
    width: u32,
    height: u32,
    pixels: Vec<Pixel>,
}

impl View for Image {
    type V = Raster;

    closed spec fn view(&self) -> Raster {
        Raster {
            width: self.width as nat,
            height: self.height as nat,
            pixels: self.pixels@,
        }
    }
}

impl Image {
    /// The invariant of every image this module hands out.
    pub open spec fn wf(&self) -> bool {
        &&& self@.wf()
        &&& self@.width <= u32::MAX
        &&& self@.height <= u32::MAX
        &&& self@.pixels.len() <= usize::MAX
    }

    /// The black image of the given size. An image has at least one pixel,
    /// and its pixel count must fit the address space.
    pub fn new(width: u32, height: u32) -> (made: Result<Image, Error>)
        ensures
            match made {
                Ok(image) => {
                    &&& width >= 1 && height >= 1 && width * height <= usize::MAX
                    &&& image.wf()
                    &&& image@ == Raster::blank(width as nat, height as nat)
                },
                Err(e) => if width == 0 || height == 0 {
                    e == Error::EmptyImage
                } else {
                    e == Error::SizeOverflow && width * height > usize::MAX
                },
            },
    {
        if width == 0 || height == 0 {
            return Err(Error::EmptyImage);
        }
        assert(width as u64 * height as u64 <= 0xFFFF_FFFE_0000_0001) by (nonlinear_arith)
            requires
                width <= 0xFFFF_FFFF,
                height <= 0xFFFF_FFFF,
        ;
        if width as u64 * height as u64 > usize::MAX as u64 {
            return Err(Error::SizeOverflow);
        }
        Ok(Image::blank(width, height))
    }

    /// The black image of a size that was checked.
    pub(crate) fn blank(width: u32, height: u32) -> (image: Image)
        requires
            width >= 1,
            height >= 1,
            width * height <= usize::MAX,
        ensures
            image.wf(),
            image@ == Raster::blank(width as nat, height as nat),
    {
        let count: usize = width as usize * height as usize;
        let mut pixels: Vec<Pixel> = Vec::new();
        let mut filled: usize = 0;
        while filled < count
            invariant
                filled <= count,
                pixels@.len() == filled,
                forall|i: int| 0 <= i < filled ==> pixels@[i] == black(),
            decreases count - filled,
        {
            pixels.push(Pixel { r: 0, g: 0, b: 0 });
            filled = filled + 1;
        }
        let image = Image { width, height, pixels };
        assert(image@.pixels =~= Raster::blank(width as nat, height as nat).pixels);
        image
    }

    /// The number of pixels in a row.
    pub fn get_width(&self) -> (width: u32)
        ensures
            width == self@.width,
    {
        self.width
    }

    /// The number of rows.
    pub fn get_height(&self) -> (height: u32)
        ensures
            height == self@.height,
    {
        self.height
    }

    /// The pixel at column `x` of row `y`, row 0 being the top one.
    pub fn get_pixel(&self, x: u32, y: u32) -> (pixel: Pixel)
        requires
            self.wf(),
            x < self@.width,
            y < self@.height,
        ensures
            pixel == self@.pixel(x as int, y as int),
    {
        proof {
            lemma_index_in_bounds(self@.width, self@.height, x as int, y as int);
        }
        let at: usize = y as usize * self.width as usize + x as usize;
        self.pixels[at]
    }

    /// Replaces the pixel at column `x` of row `y`, row 0 being the top one.
    pub fn set_pixel(&mut self, x: u32, y: u32, value: Pixel)
        requires
            old(self).wf(),
            x < old(self)@.width,
            y < old(self)@.height,
        ensures
            final(self).wf(),
            final(self)@ == old(self)@.with_pixel(x as int, y as int, value),
    {
        proof {
            lemma_index_in_bounds(self@.width, self@.height, x as int, y as int);
        }
        let at: usize = y as usize * self.width as usize + x as usize;
        self.pixels[at] = value;
    }
}

} // verus!
