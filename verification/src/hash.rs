//! The difference hash of an image.

use crate::error::HashError;
use crate::gradient::{fingerprint, is_signature, signature_hash};
use crate::pixels::{ColorImage, ColorView};
use crate::reduce::{
    grey_of, has_signature_size, reducible, signature_of, to_grey_signature_image, IMG_SCALE,
};
use vstd::arithmetic::power2::pow2;
use vstd::prelude::*;

verus! {

/// The difference hash of an image: the fingerprint of its signature grid.
/// An image that cannot be reduced to a signature grid has none.
pub open spec fn dhash(img: ColorView) -> Result<u64, HashError> {
    if reducible(img) {
        Ok(signature_hash(signature_of(img)) as u64)
    } else {
        Err(HashError::InvalidImage)
    }
}

/// The signature grid of a reducible image is a signature grid of scale
/// [`IMG_SCALE`].
pub proof fn lemma_signature_shape(img: ColorView)
    requires
        signature_of(img).wf(),
    ensures
        is_signature(signature_of(img)),
        signature_of(img).height == IMG_SCALE,
{
}

/// Computes the difference hash of an image.
///
/// The hash is a signature of the image that can be compared with those of
/// other images by [`crate::distance::hamming_distance`]. The hash of an
/// image of nine pixels by eight is the fingerprint of its grey image, with
/// nothing resampled. An image without
/// pixels, or one too wide to be resampled in memory, is rejected with
/// `InvalidImage`.
pub fn get_dhash(img: &ColorImage) -> (result: Result<u64, HashError>)
    requires
        img.wf(),
    ensures
        result == dhash(img@),
        result is Ok <==> reducible(img@),
        result matches Ok(hash) ==> hash <= pow2((IMG_SCALE * IMG_SCALE) as nat) - 1,
        has_signature_size(img@) ==> result == Ok::<u64, HashError>(
            signature_hash(grey_of(img@)) as u64,
        ),
{
    proof {
        vstd::arithmetic::power2::lemma2_to64();
    }
    match to_grey_signature_image(img) {
        Ok(buffered_image) => {
            proof {
                lemma_signature_shape(img@);
            }
            fingerprint(&buffered_image)
        },
        Err(e) => Err(e),
    }
}

/// Hashing is a function of the decoded pixel data: images with the same
/// dimensions and the same channel values have the same hash, however often
/// and wherever it is computed.
pub proof fn lemma_same_pixels_same_hash(a: ColorImage, b: ColorImage)
    requires
        a.wf(),
        b.wf(),
        a@.width == b@.width,
        a@.height == b@.height,
        a@.channels =~= b@.channels,
    ensures
        dhash(a@) == dhash(b@),
{
    assert(a@ == b@);
}

/// Alpha plays no part in the hash: images that agree in red, green and
/// blue at every pixel have the same hash.
pub proof fn lemma_alpha_plays_no_part(a: ColorView, b: ColorView)
    requires
        a.wf(),
        b.wf(),
        a.width == b.width,
        a.height == b.height,
        forall|i: int| 0 <= i < a.channels.len() && i % 4 != 3 ==> a.channels[i] == b.channels[i],
    ensures
        dhash(a) == dhash(b),
{
    assert(grey_of(a).samples =~= grey_of(b).samples);
}

} // verus!
