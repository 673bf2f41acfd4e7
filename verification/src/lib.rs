//! Difference hashes of images and the Hamming distance between them.
//!
//! A difference hash is a 64-bit fingerprint of an image. The image is
//! reduced to a 9x8 grid of grey samples, each sample is compared with its
//! right-hand neighbour, and the 64 comparison results are packed into one
//! word. Two fingerprints are compared by counting the bits in which they
//! differ.

pub mod distance;
pub mod error;
pub mod gradient;
pub mod hash;
pub mod packing;
pub mod pixels;
pub mod reduce;

pub use distance::hamming_distance;
pub use error::HashError;
pub use gradient::{compare_neighbours, fingerprint};
pub use hash::get_dhash;
pub use packing::pack_bits;
pub use pixels::{ColorImage, GreyImage};
pub use reduce::to_grey_signature_image;
