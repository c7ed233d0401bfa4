//! Helper functions for bit and digit operations.

use vstd::prelude::*;

verus! {

/// `n`-th power of ten, as a mathematical integer.
pub open spec fn pow10(i: nat) -> nat
    decreases i,
{
    if i == 0 {
        1
    } else {
        10 * pow10((i - 1) as nat)
    }
}

/// Returns a bool indicating whether the bit at index `n` is set.
/// Bits are indexed from the least-significant bit to the
/// most-significant bit.
pub fn set(n: u8, bits: u8) -> (r: bool)
    requires
        n < 8,
    ensures
        r == (bits & (1u8 << n) != 0),
{
    (bits & (1u8 << n)) != 0
}

/// Reconstructs a single 8-bit integer from two 4-bit nibbles.
pub fn recombine(upper: u8, lower: u8) -> (r: u8)
    requires
        upper < 16,
        lower < 16,
    ensures
        r == upper * 16 + lower,
{
    proof {
        assert(upper < 16 && lower < 16 ==> ((upper << 4) | lower) == upper * 16 + lower)
            by (bit_vector);
    }
    (upper << 4) | lower
}

/// Returns the decimal digit at index `i` in the number `n`. Digits are
/// indexed from least-significant to most-significant.
pub fn digit(i: u32, n: usize) -> (r: usize)
    requires
        pow10(i as nat) <= usize::MAX,
    ensures
        r == (n as nat / pow10(i as nat)) % 10,
{
    let mut divisor: usize = 1;
    let mut j: u32 = 0;
    while j < i
        invariant
            j <= i,
            divisor == pow10(j as nat),
            pow10(i as nat) <= usize::MAX,
        decreases i - j,
    {
        proof {
            lemma_pow10_le(j as nat + 1, i as nat);
        }
        divisor = divisor * 10;
        j = j + 1;
    }
    proof {
        lemma_pow10_pos(i as nat);
    }
    (n / divisor) % 10
}

/// Powers of ten are positive.
proof fn lemma_pow10_pos(i: nat)
    ensures
        pow10(i) >= 1,
    decreases i,
{
    if i > 0 {
        lemma_pow10_pos((i - 1) as nat);
    }
}

/// Powers of ten are monotonic in the exponent.
proof fn lemma_pow10_le(i: nat, j: nat)
    requires
        i <= j,
    ensures
        pow10(i) <= pow10(j),
    decreases j,
{
    if i < j {
        lemma_pow10_le(i, (j - 1) as nat);
        lemma_pow10_pos((j - 1) as nat);
    }
}

} // verus!
