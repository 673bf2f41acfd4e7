//! The Hamming distance between two fingerprints.

use vstd::arithmetic::power2::{lemma_pow2_strictly_increases, lemma_pow2_unfold, pow2};
use vstd::bits::lemma_u64_shr_is_div;
use vstd::prelude::*;

verus! {

/// Whether bit `k` of `x` is set; bit 0 is the least significant one.
pub open spec fn bit_at(x: u64, k: nat) -> bool {
    (x >> (k as u64)) & 1 == 1
}

/// The number of set bits among the lowest `n` bits of `x`.
pub open spec fn ones_below(x: u64, n: nat) -> nat
    decreases n,
{
    if n == 0 {
        0
    } else {
        ones_below(x, (n - 1) as nat) + if bit_at(x, (n - 1) as nat) {
            1nat
        } else {
            0nat
        }
    }
}

/// The number of set bits of `x`.
pub open spec fn popcount(x: u64) -> nat {
    ones_below(x, 64)
}

/// `u64::count_ones` of the standard library returns the number of ones in
/// the binary representation of its argument.
pub assume_specification[ u64::count_ones ](i: u64) -> (r: u32)
    ensures
        r == popcount(i),
;

/// The number of positions below `n` at which the bits of `a` and `b` differ.
pub open spec fn differing_bits_below(a: u64, b: u64, n: nat) -> nat
    decreases n,
{
    if n == 0 {
        0
    } else {
        differing_bits_below(a, b, (n - 1) as nat) + if bit_at(a, (n - 1) as nat) != bit_at(
            b,
            (n - 1) as nat,
        ) {
            1nat
        } else {
            0nat
        }
    }
}

/// The Hamming distance of two 64-bit words: the number of bit positions at
/// which they differ.
pub open spec fn hamming(a: u64, b: u64) -> nat {
    differing_bits_below(a, b, 64)
}

proof fn lemma_xor_bit(a: u64, b: u64, k: u64)
    requires
        k < 64,
    ensures
        bit_at(a ^ b, k as nat) == (bit_at(a, k as nat) != bit_at(b, k as nat)),
{
    assert((((a ^ b) >> k) & 1 == 1) == (((a >> k) & 1 == 1) != ((b >> k) & 1 == 1)))
        by (bit_vector);
}

proof fn lemma_xor_counts_differences(a: u64, b: u64, n: nat)
    requires
        n <= 64,
    ensures
        ones_below(a ^ b, n) == differing_bits_below(a, b, n),
    decreases n,
{
    if n > 0 {
        lemma_xor_counts_differences(a, b, (n - 1) as nat);
        lemma_xor_bit(a, b, (n - 1) as u64);
    }
}

/// Bit `k` of a word is the parity of the word divided by `2^k`.
pub proof fn lemma_bit_at_is_digit(x: u64, k: nat)
    requires
        k < 64,
    ensures
        bit_at(x, k) == ((x as nat / pow2(k)) % 2 == 1),
{
    lemma_u64_shr_is_div(x, k as u64);
    let shifted = x >> (k as u64);
    assert((shifted & 1 == 1) == (shifted % 2 == 1)) by (bit_vector);
}

/// A word below `2^bits` has no bit set at position `bits` or above.
pub proof fn lemma_bits_clear_above(x: u64, bits: nat, k: nat)
    requires
        x < pow2(bits),
        bits <= k < 64,
    ensures
        !bit_at(x, k),
{
    if bits < k {
        lemma_pow2_strictly_increases(bits, k);
    }
    lemma_u64_shr_is_div(x, k as u64);
    vstd::arithmetic::div_mod::lemma_basic_div(x as int, pow2(k) as int);
    assert((0u64 & 1) == 0) by (bit_vector);
}

proof fn lemma_differing_bits_at_most(a: u64, b: u64, n: nat)
    ensures
        differing_bits_below(a, b, n) <= n,
    decreases n,
{
    if n > 0 {
        lemma_differing_bits_at_most(a, b, (n - 1) as nat);
    }
}

proof fn lemma_differing_bits_stop(a: u64, b: u64, bits: nat, n: nat)
    requires
        a < pow2(bits),
        b < pow2(bits),
        bits <= n <= 64,
    ensures
        differing_bits_below(a, b, n) == differing_bits_below(a, b, bits),
    decreases n,
{
    if n > bits {
        lemma_differing_bits_stop(a, b, bits, (n - 1) as nat);
        lemma_bits_clear_above(a, bits, (n - 1) as nat);
        lemma_bits_clear_above(b, bits, (n - 1) as nat);
    }
}

proof fn lemma_differing_bits_symmetric(a: u64, b: u64, n: nat)
    ensures
        differing_bits_below(a, b, n) == differing_bits_below(b, a, n),
    decreases n,
{
    if n > 0 {
        lemma_differing_bits_symmetric(a, b, (n - 1) as nat);
    }
}

proof fn lemma_differing_bits_of_equal(a: u64, n: nat)
    ensures
        differing_bits_below(a, a, n) == 0,
    decreases n,
{
    if n > 0 {
        lemma_differing_bits_of_equal(a, (n - 1) as nat);
    }
}

proof fn lemma_no_ones_is_zero(x: u64, n: nat)
    requires
        n <= 64,
        x < pow2(n),
        ones_below(x, n) == 0,
    ensures
        x == 0,
    decreases n,
{
    vstd::arithmetic::power2::lemma2_to64();
    if n > 0 {
        let top = (n - 1) as nat;
        let unit = pow2(top) as int;
        lemma_pow2_unfold(n);
        vstd::arithmetic::power2::lemma_pow2_pos(top);
        lemma_bit_at_is_digit(x, top);
        vstd::arithmetic::div_mod::lemma_fundamental_div_mod(x as int, unit);
        vstd::arithmetic::div_mod::lemma_mod_pos_bound(x as int, unit);
        let quotient = x as int / unit;
        assert(0 <= quotient < 2) by (nonlinear_arith)
            requires
                0 <= x < 2 * unit,
                x == unit * quotient + x as int % unit,
                0 <= x as int % unit < unit,
        ;
        assert(quotient == 0);
        assert(unit * quotient == 0) by (nonlinear_arith)
            requires
                quotient == 0,
        ;
        lemma_no_ones_is_zero(x, top);
    }
}

/// Between two words below `2^bits`, only the lowest `bits` positions count.
pub proof fn lemma_hamming_stops(a: u64, b: u64, bits: nat)
    requires
        bits <= 64,
        a < pow2(bits),
        b < pow2(bits),
    ensures
        hamming(a, b) == differing_bits_below(a, b, bits),
{
    lemma_differing_bits_stop(a, b, bits, 64);
}

/// A fingerprint is at distance 0 from itself.
pub proof fn lemma_hamming_self(h: u64)
    ensures
        hamming(h, h) == 0,
{
    lemma_differing_bits_of_equal(h, 64);
}

/// Only equal fingerprints are at distance 0.
pub proof fn lemma_hamming_zero_means_equal(a: u64, b: u64)
    requires
        hamming(a, b) == 0,
    ensures
        a == b,
{
    vstd::arithmetic::power2::lemma2_to64();
    lemma_xor_counts_differences(a, b, 64);
    lemma_no_ones_is_zero(a ^ b, 64);
    assert(a ^ b == 0 ==> a == b) by (bit_vector);
}

/// The distance does not depend on the order of the two fingerprints.
pub proof fn lemma_hamming_symmetric(a: u64, b: u64)
    ensures
        hamming(a, b) == hamming(b, a),
{
    lemma_differing_bits_symmetric(a, b, 64);
}

/// Two fingerprints of `bits` meaningful bits each are at most `bits` apart;
/// any two fingerprints are at most 64 apart.
pub proof fn lemma_hamming_bounded(a: u64, b: u64, bits: nat)
    requires
        bits <= 64,
        a < pow2(bits),
        b < pow2(bits),
    ensures
        hamming(a, b) <= bits,
        hamming(a, b) <= 64,
{
    lemma_differing_bits_stop(a, b, bits, 64);
    lemma_differing_bits_at_most(a, b, bits);
}

/// Returns the Hamming distance between two fingerprints.
///
/// The closer the result is to 0, the more alike the two images are; 0 means
/// that the fingerprints are identical.
pub fn hamming_distance(left: u64, right: u64) -> (distance: u32)
    ensures
        distance == hamming(left, right),
        distance <= 64,
        distance == 0 <==> left == right,
{
    proof {
        lemma_xor_counts_differences(left, right, 64);
        lemma_differing_bits_at_most(left, right, 64);
        lemma_differing_bits_of_equal(left, 64);
        if hamming(left, right) == 0 {
            lemma_hamming_zero_means_equal(left, right);
        }
    }
    (left ^ right).count_ones()
}

} // verus!
