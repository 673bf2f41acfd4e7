//! Packing a sequence of booleans into a word, one bit each.

use crate::distance::{
    bit_at, differing_bits_below, hamming, lemma_bit_at_is_digit, lemma_hamming_stops,
};
use crate::error::HashError;
use vstd::arithmetic::div_mod::{
    lemma_fundamental_div_mod, lemma_fundamental_div_mod_converse, lemma_mod_pos_bound,
};
use vstd::arithmetic::power2::{
    lemma2_to64, lemma_pow2_adds, lemma_pow2_pos, lemma_pow2_strictly_increases,
    lemma_pow2_unfold, pow2,
};
use vstd::bits::{lemma_u64_pow2_no_overflow, lemma_u64_shl_is_mul};
use vstd::prelude::*;

verus! {

/// The number whose binary digits are `bits`, the first of them the least
/// significant: the sum of `2^k` over the positions `k` that hold `true`.
pub open spec fn packed(bits: Seq<bool>) -> nat
    decreases bits.len(),
{
    if bits.len() == 0 {
        0
    } else {
        packed(bits.drop_last()) + if bits.last() {
            pow2((bits.len() - 1) as nat)
        } else {
            0nat
        }
    }
}

/// Packs booleans into a word: bit `k` of the result is set exactly when
/// entry `k` is `true`, bit 0 being the least significant.
///
/// More than 64 booleans do not fit and are rejected with
/// `InvalidGridShape`.
pub fn pack_bits(bits: &Vec<bool>) -> (result: Result<u64, HashError>)
    ensures
        bits@.len() <= 64 ==> (result matches Ok(value) && value == packed(bits@)),
        bits@.len() > 64 ==> result == Err::<u64, HashError>(HashError::InvalidGridShape),
{
    if bits.len() > 64 {
        return Err(HashError::InvalidGridShape);
    }
    let mut value: u64 = 0;
    let mut i: usize = 0;
    while i < bits.len()
        invariant
            bits@.len() <= 64,
            i <= bits@.len(),
            value == packed(bits@.take(i as int)),
        decreases bits.len() - i,
    {
        proof {
            let prefix = bits@.take(i as int + 1);
            assert(prefix.drop_last() =~= bits@.take(i as int));
            lemma_packed_bound(bits@.take(i as int));
            lemma_packed_bound(prefix);
            lemma_u64_pow2_no_overflow(i as nat);
            lemma_u64_shl_is_mul(1, i as u64);
            lemma_pow2_le_word(prefix.len());
        }
        if bits[i] {
            value += 1u64 << i;
        }
        i += 1;
    }
    assert(bits@.take(i as int) =~= bits@);
    Ok(value)
}

/// `bits.len()` binary digits make a number below `2^bits.len()`.
pub proof fn lemma_packed_bound(bits: Seq<bool>)
    ensures
        packed(bits) < pow2(bits.len()),
    decreases bits.len(),
{
    if bits.len() == 0 {
        lemma2_to64();
    } else {
        lemma_packed_bound(bits.drop_last());
        lemma_pow2_unfold(bits.len());
    }
}

/// Up to 64 binary digits make a number that fits into a word.
pub proof fn lemma_pow2_le_word(n: nat)
    requires
        n <= 64,
    ensures
        pow2(n) <= 0x1_0000_0000_0000_0000,
{
    lemma2_to64();
    if n < 64 {
        lemma_pow2_strictly_increases(n, 64);
    }
}

/// Digits that are all `false` make 0.
pub proof fn lemma_packed_all_false(bits: Seq<bool>)
    requires
        forall|k: int| 0 <= k < bits.len() ==> !bits[k],
    ensures
        packed(bits) == 0,
    decreases bits.len(),
{
    if bits.len() > 0 {
        lemma_packed_all_false(bits.drop_last());
    }
}

/// Digits that are all `true` make the largest number of that many digits.
pub proof fn lemma_packed_all_true(bits: Seq<bool>)
    requires
        forall|k: int| 0 <= k < bits.len() ==> bits[k],
    ensures
        packed(bits) == pow2(bits.len()) - 1,
    decreases bits.len(),
{
    if bits.len() == 0 {
        lemma2_to64();
    } else {
        lemma_packed_all_true(bits.drop_last());
        lemma_pow2_unfold(bits.len());
    }
}

/// Binary digit `k` of the number that `bits` make is entry `k` of `bits`.
pub proof fn lemma_packed_digit(bits: Seq<bool>, k: int)
    requires
        0 <= k < bits.len(),
    ensures
        (packed(bits) / pow2(k as nat)) % 2 == if bits[k] {
            1nat
        } else {
            0nat
        },
    decreases bits.len(),
{
    let top = (bits.len() - 1) as nat;
    let rest = bits.drop_last();
    let low = packed(rest);
    let unit = pow2(k as nat);
    lemma_packed_bound(rest);
    lemma_pow2_pos(k as nat);
    if k == top {
        let digit: int = if bits[k] {
            1
        } else {
            0
        };
        assert(packed(bits) == digit * unit + low) by (nonlinear_arith)
            requires
                packed(bits) == low + if bits[k] {
                    unit
                } else {
                    0nat
                },
                digit == if bits[k] {
                    1int
                } else {
                    0int
                },
        ;
        lemma_fundamental_div_mod_converse(packed(bits) as int, unit as int, digit, low as int);
    } else {
        lemma_packed_digit(rest, k);
        if bits.last() {
            let gap = (top - k) as nat;
            lemma_pow2_adds(k as nat, gap);
            lemma_pow2_unfold(gap);
            let half = pow2((gap - 1) as nat);
            let quotient = low as int / unit as int;
            let remainder = low as int % unit as int;
            lemma_fundamental_div_mod(low as int, unit as int);
            lemma_mod_pos_bound(low as int, unit as int);
            assert(packed(bits) == (quotient + 2 * half) * unit + remainder) by (nonlinear_arith)
                requires
                    packed(bits) == low + unit * (2 * half),
                    low == unit * quotient + remainder,
            ;
            lemma_fundamental_div_mod_converse(
                packed(bits) as int,
                unit as int,
                quotient + 2 * half,
                remainder,
            );
        }
    }
}

/// Bit `k` of the word that `bits` are packed into is entry `k` of `bits`.
pub proof fn lemma_packed_bit(bits: Seq<bool>, k: nat)
    requires
        bits.len() <= 64,
        k < bits.len(),
    ensures
        bit_at(packed(bits) as u64, k) == bits[k as int],
{
    lemma_packed_bound(bits);
    lemma_pow2_le_word(bits.len());
    lemma_packed_digit(bits, k as int);
    lemma_bit_at_is_digit(packed(bits) as u64, k);
}

/// The number of positions at which two sequences of equal length differ.
pub open spec fn differences(a: Seq<bool>, b: Seq<bool>) -> nat
    decreases a.len(),
{
    if a.len() == 0 || b.len() != a.len() {
        0
    } else {
        differences(a.drop_last(), b.drop_last()) + if a.last() != b.last() {
            1nat
        } else {
            0nat
        }
    }
}

proof fn lemma_differing_bits_of_packed(a: Seq<bool>, b: Seq<bool>, n: nat)
    requires
        a.len() == b.len(),
        a.len() <= 64,
        n <= a.len(),
    ensures
        differing_bits_below(packed(a) as u64, packed(b) as u64, n) == differences(
            a.take(n as int),
            b.take(n as int),
        ),
    decreases n,
{
    if n > 0 {
        let k = (n - 1) as nat;
        lemma_differing_bits_of_packed(a, b, k);
        assert(a.take(n as int).drop_last() =~= a.take(k as int));
        assert(b.take(n as int).drop_last() =~= b.take(k as int));
        lemma_packed_bound(a);
        lemma_packed_bound(b);
        lemma_pow2_le_word(a.len());
        lemma_packed_digit(a, k as int);
        lemma_packed_digit(b, k as int);
        lemma_bit_at_is_digit(packed(a) as u64, k);
        lemma_bit_at_is_digit(packed(b) as u64, k);
    }
}

/// The Hamming distance between two packed words is the number of
/// positions at which the packed sequences differ. For two fingerprints of
/// the same scale it is the number of places in the grid where one image
/// gets darker to the right and the other does not.
pub proof fn lemma_hamming_of_packed(a: Seq<bool>, b: Seq<bool>)
    requires
        a.len() == b.len(),
        a.len() <= 64,
    ensures
        hamming(packed(a) as u64, packed(b) as u64) == differences(a, b),
{
    lemma_packed_bound(a);
    lemma_packed_bound(b);
    lemma_pow2_le_word(a.len());
    lemma_differing_bits_of_packed(a, b, a.len());
    assert(a.take(a.len() as int) =~= a);
    assert(b.take(b.len() as int) =~= b);
    lemma_hamming_stops(packed(a) as u64, packed(b) as u64, a.len());
}

} // verus!
