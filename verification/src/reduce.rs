//! From a decoded image to its signature grid: the image is turned grey and
//! then resampled, nearest neighbour, to nine samples by eight.
//!
//! Both steps are done by the `image` crate. What it computes is taken on
//! trust here, in the two private functions `grayscale` and `resize_nearest`;
//! everything else in this module is proved from their contracts.

use crate::error::HashError;
use crate::pixels::{lemma_sample_in_bounds, ColorImage, ColorView, GreyImage, GreyView};
use vstd::prelude::*;

verus! {

/// The scale of the signature grid that images are reduced to.
pub const IMG_SCALE: u32 = 8;

/// The grey intensity of a colour: the weighted sum of red, green and blue
/// with the weights 0.2126, 0.7152 and 0.0722, rounded down. Alpha plays no
/// part. A grey colour, whose three values are equal, keeps its value.
pub open spec fn luma(red: u16, green: u16, blue: u16) -> int {
    (2126 * red + 7152 * green + 722 * blue) / 10000
}

/// The grey image of a colour image: pixel by pixel its [`luma`].
pub open spec fn grey_of(img: ColorView) -> GreyView {
    GreyView {
        width: img.width,
        height: img.height,
        samples: Seq::new(
            img.width * img.height,
            |i: int| luma(img.channels[4 * i], img.channels[4 * i + 1], img.channels[4 * i + 2]) as u16,
        ),
    }
}

/// The samples, row by row, that `image::imageops::resize` with the filter
/// `Nearest` returns for a grey image of `width` by `height` pixels with the
/// given 16-bit samples, when asked for `new_width` by `new_height` pixels.
///
/// The crate picks each sample's source position in floating point, so the
/// result is named here and not written out.
pub uninterp spec fn nearest_samples(
    width: nat,
    height: nat,
    samples: Seq<u16>,
    new_width: nat,
    new_height: nat,
) -> Seq<u16>;

/// A grey image resampled to `new_width` by `new_height` pixels.
pub open spec fn resized(src: GreyView, new_width: nat, new_height: nat) -> GreyView {
    GreyView {
        width: new_width,
        height: new_height,
        samples: nearest_samples(src.width, src.height, src.samples, new_width, new_height),
    }
}

/// While it works, the resampling holds an intermediate image as wide as
/// the source and `new_height` rows high, with four channels of four bytes
/// per pixel, and then the result, with two bytes per pixel. Both must be
/// addressable.
pub open spec fn resize_fits(width: nat, new_width: nat, new_height: nat) -> bool {
    &&& 16 * (width * new_height) <= isize::MAX
    &&& 2 * (new_width * new_height) <= isize::MAX
}

/// Whether an image can be reduced to a signature grid: it has pixels, and
/// the resampling fits into memory (on a 64-bit machine it always does).
pub open spec fn reducible(img: ColorView) -> bool {
    &&& !img.is_empty()
    &&& resize_fits(img.width, (IMG_SCALE + 1) as nat, IMG_SCALE as nat)
}

/// Whether an image has the size of a signature grid already.
pub open spec fn has_signature_size(img: ColorView) -> bool {
    img.width == IMG_SCALE + 1 && img.height == IMG_SCALE
}

/// The signature grid of a reducible image.
pub open spec fn signature_of(img: ColorView) -> GreyView {
    resized(grey_of(img), (IMG_SCALE + 1) as nat, IMG_SCALE as nat)
}

/// Calls `image::imageops::grayscale` on an image that has pixels.
///
/// Trusted: the result has the dimensions of the image, and each of its
/// samples is the [`luma`] of the pixel in its place. For 16-bit channels
/// the crate computes `(2126 r + 7152 g + 722 b) / 10000` in 32-bit
/// integers, which cannot overflow, and drops alpha.
///
/// An image without pixels is left out: the crate walks the pixels row by
/// row and, in an image of width 0 with more than one row, reads a pixel
/// that is not there.
#[verifier::external_body]
fn grayscale(img: &ColorImage) -> (grey: GreyImage)
    requires
        img.wf(),
        img@.width > 0,
        img@.height > 0,
    ensures
        grey@ == grey_of(img@),
{
    let pixels = image::ImageBuffer::<image::Rgba<u16>, &[u16]>::from_raw(
        img.width,
        img.height,
        img.data.as_slice(),
    ).unwrap();
    let grey = image::imageops::grayscale(&pixels);
    GreyImage { width: grey.width(), height: grey.height(), samples: grey.into_raw() }
}

/// Calls `image::imageops::resize` with the filter `Nearest` on a grey image
/// that has pixels.
///
/// Trusted: the result has the dimensions asked for, one sample per pixel,
/// and its samples are those that [`nearest_samples`] names. Where the
/// dimensions asked for are the image's own, the crate resamples nothing
/// and returns a copy, so the samples are those of the image.
#[verifier::external_body]
fn resize_nearest(src: &GreyImage, new_width: u32, new_height: u32) -> (out: GreyImage)
    requires
        src.wf(),
        src@.width > 0,
        src@.height > 0,
        new_width > 0,
        new_height > 0,
        resize_fits(src@.width, new_width as nat, new_height as nat),
    ensures
        out@.width == new_width,
        out@.height == new_height,
        out@.samples == nearest_samples(
            src@.width,
            src@.height,
            src@.samples,
            new_width as nat,
            new_height as nat,
        ),
        out@.samples.len() == new_width * new_height,
        (new_width == src@.width && new_height == src@.height) ==> out@.samples == src@.samples,
{
    let pixels = image::ImageBuffer::<image::Luma<u16>, &[u16]>::from_raw(
        src.width,
        src.height,
        src.samples.as_slice(),
    ).unwrap();
    let out = image::imageops::resize(
        &pixels,
        new_width,
        new_height,
        image::imageops::FilterType::Nearest,
    );
    GreyImage { width: out.width(), height: out.height(), samples: out.into_raw() }
}

/// The luma of a colour lies between the least and the greatest of its
/// three values, so it fits where they fit.
pub proof fn lemma_luma_range(red: u16, green: u16, blue: u16, low: int, high: int)
    requires
        low <= red <= high,
        low <= green <= high,
        low <= blue <= high,
    ensures
        low <= luma(red, green, blue) <= high,
{
}

/// The grey image has one sample per pixel, and its sample at `(x, y)` is
/// the luma of the pixel at `(x, y)`.
pub proof fn lemma_grey_sample(img: ColorView, x: int, y: int)
    requires
        img.wf(),
        0 <= x < img.width,
        0 <= y < img.height,
    ensures
        grey_of(img).wf(),
        grey_of(img).sample(x, y) == luma(img.red(x, y), img.green(x, y), img.blue(x, y)),
{
    lemma_sample_in_bounds(grey_of(img), x, y);
    lemma_luma_range(img.red(x, y), img.green(x, y), img.blue(x, y), 0, 0xFFFF);
}

/// Converts the image to its signature grid.
///
/// The result is a grey image nine samples wide and eight high, whose
/// samples can be compared to derive the fingerprint. An image that is
/// nine pixels by eight already is only turned grey. An image without
/// pixels, or one too wide to be resampled in memory, is rejected with
/// `InvalidImage`.
pub fn to_grey_signature_image(img: &ColorImage) -> (result: Result<GreyImage, HashError>)
    requires
        img.wf(),
    ensures
        reducible(img@) ==> (result matches Ok(grid) && grid.wf() && grid@ == signature_of(img@)),
        !reducible(img@) ==> result == Err::<GreyImage, HashError>(HashError::InvalidImage),
        has_signature_size(img@) ==> (result matches Ok(grid) && grid@ == grey_of(img@)),
{
    if img.width() == 0 || img.height() == 0 {
        return Err(HashError::InvalidImage);
    }
    let rows: u64 = IMG_SCALE as u64;
    assert(rows == 8);
    let intermediate: u64 = 16 * (img.width() as u64 * rows);
    if intermediate > isize::MAX as u64 {
        return Err(HashError::InvalidImage);
    }
    let grey_image = grayscale(img);
    let signature_image = resize_nearest(&grey_image, IMG_SCALE + 1, IMG_SCALE);
    Ok(signature_image)
}

} // verus!
