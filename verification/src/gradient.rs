//! From a signature grid to a fingerprint: one bit per comparison of a
//! sample with its right-hand neighbour.

use crate::distance::{bit_at, hamming};
use crate::error::HashError;
use crate::packing::{
    differences, lemma_hamming_of_packed, lemma_packed_all_false, lemma_packed_all_true,
    lemma_packed_bit, lemma_packed_bound, pack_bits, packed,
};
use crate::pixels::{lemma_sample_in_bounds, GreyImage, GreyView};
use vstd::arithmetic::div_mod::lemma_fundamental_div_mod_converse;
use vstd::arithmetic::power2::pow2;
use vstd::prelude::*;

verus! {

/// The largest scale whose `scale * scale` bits fit into a fingerprint.
pub const MAX_SCALE: u32 = 8;

/// A signature grid of scale `n` is `n + 1` samples wide and `n` samples
/// high, for some `n` between 1 and [`MAX_SCALE`]. Its scale is its height.
pub open spec fn is_signature(grid: GreyView) -> bool {
    &&& grid.wf()
    &&& 1 <= grid.height <= MAX_SCALE
    &&& grid.width == grid.height + 1
}

/// The comparison that bit `k` of the fingerprint records. The grid is
/// walked column by column, each column from top to bottom, so bit `k`
/// belongs to column `k / n` and row `k % n`, where `n` is the scale. It is
/// set when the sample there strictly exceeds the one to its right.
pub open spec fn gradient_bit(grid: GreyView, k: int) -> bool {
    let n = grid.height as int;
    grid.sample(k / n, k % n) > grid.sample(k / n + 1, k % n)
}

/// The `n * n` comparisons of a signature grid of scale `n`, in the order
/// of the bits that record them.
pub open spec fn gradient_bits(grid: GreyView) -> Seq<bool> {
    Seq::new(grid.height * grid.height, |k: int| gradient_bit(grid, k))
}

/// The fingerprint of a signature grid.
pub open spec fn signature_hash(grid: GreyView) -> nat {
    packed(gradient_bits(grid))
}

/// Compares each sample of a signature grid with its right-hand neighbour.
///
/// The result holds `n * n` booleans for a grid of scale `n`, column by
/// column and each column from top to bottom; an entry is `true` when the
/// left sample strictly exceeds the right one. A grid that is not a
/// signature grid is rejected with `InvalidGridShape`.
pub fn compare_neighbours(grid: &GreyImage) -> (result: Result<Vec<bool>, HashError>)
    requires
        grid.wf(),
    ensures
        is_signature(grid@) ==> (result matches Ok(bits) && bits@ == gradient_bits(grid@)),
        !is_signature(grid@) ==> result == Err::<Vec<bool>, HashError>(
            HashError::InvalidGridShape,
        ),
{
    let n: u32 = grid.height();
    if n < 1 || n > MAX_SCALE || grid.width() != n + 1 {
        return Err(HashError::InvalidGridShape);
    }
    let mut bits: Vec<bool> = Vec::new();
    let mut i: u32 = 0;
    while i < n
        invariant
            grid.wf(),
            is_signature(grid@),
            n == grid@.height,
            i <= n,
            bits@.len() == i * n,
            forall|k: int| 0 <= k < bits@.len() ==> bits@[k] == gradient_bit(grid@, k),
        decreases n - i,
    {
        let mut j: u32 = 0;
        while j < n
            invariant
                grid.wf(),
                is_signature(grid@),
                n == grid@.height,
                i < n,
                j <= n,
                bits@.len() == i * n + j,
                forall|k: int| 0 <= k < bits@.len() ==> bits@[k] == gradient_bit(grid@, k),
            decreases n - j,
        {
            let left_pixel = grid.get_pixel(i, j);
            let right_pixel = grid.get_pixel(i + 1, j);
            proof {
                lemma_gradient_bit_at(grid@, i as int, j as int);
            }
            bits.push(left_pixel > right_pixel);
            j += 1;
        }
        assert(i * n + n == (i + 1) * n) by (nonlinear_arith);
        i += 1;
    }
    assert(bits@ =~= gradient_bits(grid@));
    Ok(bits)
}

/// Derives the fingerprint of a signature grid.
///
/// A grid of scale `n` gives a fingerprint of `n * n` meaningful bits. A
/// grid that is not a signature grid is rejected with `InvalidGridShape`.
pub fn fingerprint(grid: &GreyImage) -> (result: Result<u64, HashError>)
    requires
        grid.wf(),
    ensures
        is_signature(grid@) ==> (result matches Ok(hash) && hash == signature_hash(grid@) && hash
            < pow2(grid@.height * grid@.height)),
        !is_signature(grid@) ==> result == Err::<u64, HashError>(HashError::InvalidGridShape),
{
    match compare_neighbours(grid) {
        Ok(bits) => {
            proof {
                lemma_packed_bound(bits@);
                lemma_scale_squared(grid@);
            }
            pack_bits(&bits)
        },
        Err(e) => Err(e),
    }
}

/// In a signature grid of scale `n`, the comparison at column `col` and row
/// `row` is recorded at position `col * n + row`.
pub proof fn lemma_gradient_bit_at(grid: GreyView, col: int, row: int)
    requires
        is_signature(grid),
        0 <= col < grid.height,
        0 <= row < grid.height,
    ensures
        0 <= col * grid.height + row < gradient_bits(grid).len(),
        gradient_bits(grid)[col * grid.height + row] == (grid.sample(col, row) > grid.sample(
            col + 1,
            row,
        )),
{
    let n = grid.height as int;
    let k = col * n + row;
    lemma_fundamental_div_mod_converse(k, n, col, row);
    assert(0 <= col * n && col * n + n <= n * n) by (nonlinear_arith)
        requires
            0 <= col < n,
    ;
}

/// Position `k` of a signature grid of scale `n` belongs to a column and a
/// row below `n`, and both samples that are compared there lie in the grid.
pub proof fn lemma_bit_position(grid: GreyView, k: int)
    requires
        is_signature(grid),
        0 <= k < grid.height * grid.height,
    ensures
        0 <= k / (grid.height as int) < grid.height,
        0 <= k % (grid.height as int) < grid.height,
        0 <= (k % (grid.height as int)) * grid.width + k / (grid.height as int),
        (k % (grid.height as int)) * grid.width + k / (grid.height as int) + 1
            < grid.samples.len(),
{
    let n = grid.height as int;
    assert(0 <= k / n < n && 0 <= k % n < n) by (nonlinear_arith)
        requires
            0 <= k < n * n,
            0 < n,
    ;
    lemma_sample_in_bounds(grid, k / n, k % n);
    lemma_sample_in_bounds(grid, k / n + 1, k % n);
}

/// A grid in which no sample exceeds its right-hand neighbour has the
/// fingerprint 0.
pub proof fn lemma_no_descent_hashes_to_zero(grid: GreyView)
    requires
        is_signature(grid),
        forall|col: int, row: int|
            0 <= col < grid.height && 0 <= row < grid.height ==> #[trigger] grid.sample(col, row)
                <= grid.sample(col + 1, row),
    ensures
        signature_hash(grid) == 0,
{
    let bits = gradient_bits(grid);
    assert forall|k: int| 0 <= k < bits.len() implies !bits[k] by {
        lemma_bit_position(grid, k);
    }
    lemma_packed_all_false(bits);
}

/// A grid whose samples are all the same has the fingerprint 0: nowhere
/// does a sample strictly exceed its neighbour.
pub proof fn lemma_flat_grid_hashes_to_zero(grid: GreyView)
    requires
        is_signature(grid),
        forall|i: int, j: int|
            0 <= i < grid.samples.len() && 0 <= j < grid.samples.len() ==> grid.samples[i]
                == grid.samples[j],
    ensures
        signature_hash(grid) == 0,
{
    assert forall|col: int, row: int|
        0 <= col < grid.height && 0 <= row < grid.height implies #[trigger] grid.sample(col, row)
        <= grid.sample(col + 1, row) by {
        lemma_sample_in_bounds(grid, col, row);
        lemma_sample_in_bounds(grid, col + 1, row);
    }
    lemma_no_descent_hashes_to_zero(grid);
}

/// A grid of scale `n` in which every sample strictly exceeds its
/// right-hand neighbour has all `n * n` bits of its fingerprint set.
pub proof fn lemma_descending_grid_hashes_to_all_ones(grid: GreyView)
    requires
        is_signature(grid),
        forall|col: int, row: int|
            0 <= col < grid.height && 0 <= row < grid.height ==> #[trigger] grid.sample(col, row)
                > grid.sample(col + 1, row),
    ensures
        signature_hash(grid) == pow2(grid.height * grid.height) - 1,
{
    let bits = gradient_bits(grid);
    assert forall|k: int| 0 <= k < bits.len() implies bits[k] by {
        lemma_bit_position(grid, k);
    }
    lemma_packed_all_true(bits);
}

/// Adding one offset to every sample of a grid, where none leaves the range
/// of intensities, does not change the fingerprint: only the order of
/// neighbours counts.
pub proof fn lemma_offset_keeps_hash(grid: GreyView, shifted: GreyView, offset: int)
    requires
        is_signature(grid),
        shifted.width == grid.width,
        shifted.height == grid.height,
        shifted.samples.len() == grid.samples.len(),
        forall|i: int|
            0 <= i < grid.samples.len() ==> shifted.samples[i] == grid.samples[i] + offset,
    ensures
        signature_hash(shifted) == signature_hash(grid),
{
    assert forall|k: int| 0 <= k < grid.height * grid.height implies gradient_bit(shifted, k)
        == gradient_bit(grid, k) by {
        lemma_bit_position(grid, k);
    }
    assert(gradient_bits(shifted) =~= gradient_bits(grid));
}

/// Bit `col * n + row` of the fingerprint of a grid of scale `n` is set
/// exactly when the sample at column `col` and row `row` strictly exceeds
/// the one to its right.
pub proof fn lemma_fingerprint_bit(grid: GreyView, col: int, row: int)
    requires
        is_signature(grid),
        0 <= col < grid.height,
        0 <= row < grid.height,
    ensures
        0 <= col * grid.height + row < 64,
        bit_at(signature_hash(grid) as u64, (col * grid.height + row) as nat) == (grid.sample(
            col,
            row,
        ) > grid.sample(col + 1, row)),
{
    lemma_gradient_bit_at(grid, col, row);
    lemma_scale_squared(grid);
    lemma_packed_bit(gradient_bits(grid), (col * grid.height + row) as nat);
}

/// The distance between the fingerprints of two grids of one scale is the
/// number of places at which one grid gets darker to the right and the
/// other does not.
pub proof fn lemma_hamming_of_fingerprints(a: GreyView, b: GreyView)
    requires
        is_signature(a),
        is_signature(b),
        a.height == b.height,
    ensures
        hamming(signature_hash(a) as u64, signature_hash(b) as u64) == differences(
            gradient_bits(a),
            gradient_bits(b),
        ),
{
    lemma_scale_squared(a);
    lemma_hamming_of_packed(gradient_bits(a), gradient_bits(b));
}

/// A signature grid has at most 64 comparisons.
pub proof fn lemma_scale_squared(grid: GreyView)
    requires
        is_signature(grid),
    ensures
        1 <= grid.height * grid.height <= 64,
{
    assert(1 <= grid.height * grid.height <= 64) by (nonlinear_arith)
        requires
            1 <= grid.height <= 8,
    ;
}

} // verus!
