//! Decoded images as plain pixel data: colour images with four channels
//! per pixel, and grey images with one.
//!
//! Both are stored row by row, the top row first, each row from left to
//! right. Channel values are held in 16 bits, which takes images of 8 and
//! of 16 bits per channel alike: only the order of the grey values that
//! come of them counts for a hash.

use crate::error::HashError;
use vstd::prelude::*;

verus! {

/// The mathematical content of a [`ColorImage`].
pub struct ColorView {
    pub width: nat,
    pub height: nat,
    /// Red, green, blue and alpha of each pixel, row by row.
    pub channels: Seq<u16>,
}

impl ColorView {
    /// The channel data holds exactly four values per pixel.
    pub open spec fn wf(self) -> bool {
        self.channels.len() == 4 * (self.width * self.height)
    }

    /// The image has no pixels.
    pub open spec fn is_empty(self) -> bool {
        self.width == 0 || self.height == 0
    }

    /// The position in `channels` of the red value of pixel `(x, y)`.
    pub open spec fn offset(self, x: int, y: int) -> int {
        4 * (y * self.width + x)
    }

    /// The red value of pixel `(x, y)`.
    pub open spec fn red(self, x: int, y: int) -> u16 {
        self.channels[self.offset(x, y)]
    }

    /// The green value of pixel `(x, y)`.
    pub open spec fn green(self, x: int, y: int) -> u16 {
        self.channels[self.offset(x, y) + 1]
    }

    /// The blue value of pixel `(x, y)`.
    pub open spec fn blue(self, x: int, y: int) -> u16 {
        self.channels[self.offset(x, y) + 2]
    }
}

/// The mathematical content of a [`GreyImage`].
pub struct GreyView {
    pub width: nat,
    pub height: nat,
    /// The intensity of each pixel, row by row.
    pub samples: Seq<u16>,
}

impl GreyView {
    /// The sample data holds exactly one value per pixel.
    pub open spec fn wf(self) -> bool {
        self.samples.len() == self.width * self.height
    }

    /// The intensity in column `x` of row `y`.
    pub open spec fn sample(self, x: int, y: int) -> u16 {
        self.samples[y * self.width + x]
    }
}

/// A decoded image with red, green, blue and alpha channels.
#[derive(Clone, Debug)]
pub struct ColorImage {
    pub(crate) width: u32,
    pub(crate) height: u32,
    pub(crate) data: Vec<u16>,
}

/// An image with a single intensity channel.
#[derive(Clone, Debug)]
pub struct GreyImage {
    pub(crate) width: u32,
    pub(crate) height: u32,
    pub(crate) samples: Vec<u16>,
}

/// The same values, each held in 16 bits.
pub open spec fn widened(bytes: Seq<u8>) -> Seq<u16> {
    Seq::new(bytes.len(), |i: int| bytes[i] as u16)
}

/// The number of pixels of an image stays below `2^64`.
proof fn lemma_area_fits(width: u32, height: u32)
    ensures
        width * height <= 0xFFFF_FFFE_0000_0001,
{
    assert(width * height <= 0xFFFF_FFFF * 0xFFFF_FFFF) by (nonlinear_arith)
        requires
            width <= 0xFFFF_FFFF,
            height <= 0xFFFF_FFFF,
    ;
}

impl View for ColorImage {
    type V = ColorView;

    closed spec fn view(&self) -> ColorView {
        ColorView {
            width: self.width as nat,
            height: self.height as nat,
            channels: self.data@,
        }
    }
}

impl ColorImage {
    /// The pixel data matches the dimensions.
    pub open spec fn wf(&self) -> bool {
        self@.wf()
    }

    /// Makes an image of `width` by `height` pixels from its channel data:
    /// four values per pixel (red, green, blue, alpha), row by row.
    ///
    /// Fails with `InvalidImage` unless `data` holds exactly
    /// `4 * width * height` values. An image without pixels is accepted here;
    /// it is hashing that rejects it.
    pub fn new(width: u32, height: u32, data: Vec<u16>) -> (result: Result<ColorImage, HashError>)
        ensures
            data.len() == 4 * (width * height) ==> (result matches Ok(img) && img.wf() && img@ == (
            ColorView { width: width as nat, height: height as nat, channels: data@ })),
            data.len() != 4 * (width * height) ==> result == Err::<ColorImage, HashError>(
                HashError::InvalidImage,
            ),
    {
        proof {
            lemma_area_fits(width, height);
        }
        let area: u128 = (width as u128) * (height as u128);
        if data.len() as u128 == 4 * area {
            Ok(ColorImage { width, height, data })
        } else {
            Err(HashError::InvalidImage)
        }
    }

    /// Makes an image from channel data of 8 bits per value, laid out as
    /// for [`ColorImage::new`]. The values are kept as they are.
    ///
    /// Fails with `InvalidImage` unless `bytes` holds exactly
    /// `4 * width * height` values.
    pub fn from_bytes(width: u32, height: u32, bytes: &[u8]) -> (result: Result<
        ColorImage,
        HashError,
    >)
        ensures
            bytes@.len() == 4 * (width * height) ==> (result matches Ok(img) && img.wf() && img@
                == (ColorView {
                width: width as nat,
                height: height as nat,
                channels: widened(bytes@),
            })),
            bytes@.len() != 4 * (width * height) ==> result == Err::<ColorImage, HashError>(
                HashError::InvalidImage,
            ),
    {
        let mut data: Vec<u16> = Vec::new();
        let mut i: usize = 0;
        while i < bytes.len()
            invariant
                i <= bytes@.len(),
                data@ == widened(bytes@.take(i as int)),
            decreases bytes.len() - i,
        {
            data.push(bytes[i] as u16);
            i += 1;
            assert(data@ =~= widened(bytes@.take(i as int)));
        }
        assert(bytes@.take(i as int) =~= bytes@);
        ColorImage::new(width, height, data)
    }

    /// The number of pixels in a row.
    pub fn width(&self) -> (w: u32)
        ensures
            w == self@.width,
    {
        self.width
    }

    /// The number of rows.
    pub fn height(&self) -> (h: u32)
        ensures
            h == self@.height,
    {
        self.height
    }
}

impl View for GreyImage {
    type V = GreyView;

    closed spec fn view(&self) -> GreyView {
        GreyView {
            width: self.width as nat,
            height: self.height as nat,
            samples: self.samples@,
        }
    }
}

impl GreyImage {
    /// The sample data matches the dimensions.
    pub open spec fn wf(&self) -> bool {
        self@.wf()
    }

    /// Makes a grey image of `width` by `height` pixels from its
    /// intensities, given row by row.
    ///
    /// Fails with `InvalidGridShape` unless `samples` holds exactly
    /// `width * height` values.
    pub fn new(width: u32, height: u32, samples: Vec<u16>) -> (result: Result<GreyImage, HashError>)
        ensures
            samples.len() == width * height ==> (result matches Ok(img) && img.wf() && img@ == (
            GreyView { width: width as nat, height: height as nat, samples: samples@ })),
            samples.len() != width * height ==> result == Err::<GreyImage, HashError>(
                HashError::InvalidGridShape,
            ),
    {
        proof {
            lemma_area_fits(width, height);
        }
        let area: u128 = (width as u128) * (height as u128);
        if samples.len() as u128 == area {
            Ok(GreyImage { width, height, samples })
        } else {
            Err(HashError::InvalidGridShape)
        }
    }

    /// The number of pixels in a row.
    pub fn width(&self) -> (w: u32)
        ensures
            w == self@.width,
    {
        self.width
    }

    /// The number of rows.
    pub fn height(&self) -> (h: u32)
        ensures
            h == self@.height,
    {
        self.height
    }

    /// The intensity in column `x` of row `y`.
    pub fn get_pixel(&self, x: u32, y: u32) -> (value: u16)
        requires
            self.wf(),
            x < self@.width,
            y < self@.height,
        ensures
            value == self@.sample(x as int, y as int),
    {
        proof {
            lemma_sample_in_bounds(self@, x as int, y as int);
            assert(self@.samples.len() == self.samples.len());
        }
        let index: usize = (y as usize) * (self.width as usize) + (x as usize);
        self.samples[index]
    }
}

/// The position of a pixel inside the image lies inside the sample data.
pub proof fn lemma_sample_in_bounds(grid: GreyView, x: int, y: int)
    requires
        grid.wf(),
        0 <= x < grid.width,
        0 <= y < grid.height,
    ensures
        0 <= y * grid.width + x < grid.samples.len(),
{
    assert(y * grid.width + x < grid.width * grid.height && 0 <= y * grid.width)
        by (nonlinear_arith)
        requires
            0 <= x < grid.width,
            0 <= y < grid.height,
    ;
}

} // verus!
