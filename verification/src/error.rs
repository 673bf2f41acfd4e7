//! The ways in which hashing an image can fail.

use vstd::prelude::*;

verus! {

/// Why an image or a grid was rejected.
#[derive(Clone, Copy, Debug, PartialEq, Eq, Structural)]
pub enum HashError {
    /// The image has a zero dimension, its pixel data does not match its
    /// dimensions, or it is too wide to be resampled in memory.
    InvalidImage,
    /// The grid is not a signature grid: its width is not its height plus
    /// one, its height is not between 1 and 8, or its sample data does not
    /// match its dimensions. Also given for more comparisons than the 64
    /// that a fingerprint can hold.
    InvalidGridShape,
}

} // verus!
