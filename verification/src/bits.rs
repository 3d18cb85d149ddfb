//! Power-of-two arithmetic and the bit-reversal permutation.
//!
//! The radix-2 transform only accepts lengths that are powers of two, finds
//! the exponent of such a length, and permutes the input by reversing the
//! binary digits of each index. Everything here is ordinary integer logic,
//! verified against the recursive specification `rev_bits`.

use vstd::prelude::*;
use vstd::arithmetic::power2::{
    pow2, is_pow2, lemma_pow2_pos, lemma_pow2_unfold, lemma_pow2_adds,
    lemma_pow2_strictly_increases, lemma2_to64,
};
use vstd::arithmetic::div_mod::{
    lemma_small_mod, lemma_add_mod_noop, lemma_mod_multiples_basic,
};
use vstd::bits::{lemma_usize_shl_is_mul, lemma_usize_pow2_no_overflow};

verus! {

/// The low `width` bits of `i`, reversed: bit `k` of the result is bit
/// `width - 1 - k` of `i`. Bits of `i` at or above `width` are ignored.
pub open spec fn rev_bits(i: nat, width: nat) -> nat
    decreases width,
{
    if width == 0 {
        0
    } else {
        (i % 2) * pow2((width - 1) as nat) + rev_bits(i / 2, (width - 1) as nat)
    }
}

/// Reversing the bits of zero gives zero, at any width.
pub proof fn lemma_rev_bits_zero(width: nat)
    ensures
        rev_bits(0, width) == 0,
    decreases width,
{
    if width > 0 {
        lemma_rev_bits_zero((width - 1) as nat);
        assert(rev_bits(0, (width - 1) as nat) == 0);
        assert(rev_bits(0, width) == (0nat % 2) * pow2((width - 1) as nat) + rev_bits(
            0,
            (width - 1) as nat,
        ));
    }
}

/// A reversal of `width` bits fits in `width` bits.
pub proof fn lemma_rev_bits_bound(i: nat, width: nat)
    ensures
        rev_bits(i, width) < pow2(width),
    decreases width,
{
    if width == 0 {
        lemma2_to64();
    } else {
        lemma_rev_bits_bound(i / 2, (width - 1) as nat);
        lemma_pow2_unfold(width);
        lemma_pow2_pos((width - 1) as nat);
        assert(rev_bits(i, width) == (i % 2) * pow2((width - 1) as nat) + rev_bits(
            i / 2,
            (width - 1) as nat,
        ));
        vstd::arithmetic::mul::lemma_mul_inequality(
            (i % 2) as int,
            1,
            pow2((width - 1) as nat) as int,
        );
    }
}

/// An index below `pow2(h)` only has bits below `h`, so its reversal only has
/// bits at or above `width - h`: the reversal is a multiple of
/// `pow2(width - h)`.
pub proof fn lemma_rev_bits_low(i: nat, h: nat, width: nat)
    requires
        i < pow2(h),
        h <= width,
    ensures
        rev_bits(i, width) % pow2((width - h) as nat) == 0,
    decreases h,
{
    let m = pow2((width - h) as nat) as int;
    lemma_pow2_pos((width - h) as nat);
    if h == 0 {
        lemma2_to64();
        assert(i == 0);
        lemma_rev_bits_zero(width);
        lemma_small_mod(0, m as nat);
    } else {
        lemma_pow2_unfold(h);
        assert(i / 2 < pow2((h - 1) as nat));
        lemma_rev_bits_low(i / 2, (h - 1) as nat, (width - 1) as nat);
        let rl = rev_bits(i / 2, (width - 1) as nat) as int;
        assert(rl % m == 0);
        // The head term (i % 2) * pow2(width - 1) is also a multiple of m.
        let head = (i % 2) * pow2((width - 1) as nat);
        lemma_pow2_adds((width - h) as nat, (h - 1) as nat);
        let q = (i % 2) * pow2((h - 1) as nat) as int;
        assert(head == q * m) by {
            vstd::arithmetic::mul::lemma_mul_is_associative(
                (i % 2) as int,
                pow2((h - 1) as nat) as int,
                m,
            );
            vstd::arithmetic::mul::lemma_mul_is_commutative(m, pow2((h - 1) as nat) as int);
        }
        lemma_mod_multiples_basic(q, m);
        assert(head as int % m == 0);
        lemma_add_mod_noop(head as int, rl, m);
        lemma_small_mod(0, m as nat);
        assert(rev_bits(i, width) == head + rl);
    }
}

/// Clearing the highest set bit of `i` (at position `h`) removes exactly
/// `pow2(width - 1 - h)` from the reversal.
pub proof fn lemma_rev_bits_top(i: nat, h: nat, width: nat)
    requires
        h < width,
        pow2(h) <= i < pow2(h + 1),
    ensures
        rev_bits(i, width) == rev_bits((i - pow2(h)) as nat, width) + pow2(
            (width - h - 1) as nat,
        ),
    decreases h,
{
    let j = (i - pow2(h)) as nat;
    if h == 0 {
        lemma2_to64();
        assert(i == 1 && j == 0);
        lemma_rev_bits_zero((width - 1) as nat);
        lemma_rev_bits_zero(width);
        assert(rev_bits(1, width) == (1nat % 2) * pow2((width - 1) as nat) + rev_bits(
            0,
            (width - 1) as nat,
        ));
    } else {
        lemma_pow2_unfold(h);
        lemma_pow2_unfold(h + 1);
        lemma_pow2_pos((h - 1) as nat);
        // pow2(h) is even, so removing it keeps the parity.
        assert(i % 2 == j % 2);
        // Halving keeps the highest set bit at position h - 1.
        assert(pow2((h - 1) as nat) <= i / 2 < pow2(h));
        lemma_rev_bits_top(i / 2, (h - 1) as nat, (width - 1) as nat);
        assert(j / 2 == i / 2 - pow2((h - 1) as nat));
        assert(rev_bits(i, width) == (i % 2) * pow2((width - 1) as nat) + rev_bits(
            i / 2,
            (width - 1) as nat,
        ));
        assert(rev_bits(j, width) == (j % 2) * pow2((width - 1) as nat) + rev_bits(
            j / 2,
            (width - 1) as nat,
        ));
    }
}

/// The familiar guard `n != 0 && n & (n - 1) == 0` detects exactly the powers
/// of two.
pub proof fn lemma_pow2_guard(n: usize)
    ensures
        (n != 0 && (n & ((n - 1) as usize)) == 0) <==> is_pow2(n as int),
    decreases n,
{
    reveal(is_pow2);
    if n == 0 {
    } else if n == 1 {
        assert(1usize & 0usize == 0) by (bit_vector);
    } else if n % 2 == 1 {
        assert((n & ((n - 1) as usize)) != 0) by (bit_vector)
            requires
                n % 2 == 1 && n >= 3,
        ;
    } else {
        lemma_pow2_guard(n / 2);
        assert(((n & ((n - 1) as usize)) == 0) <==> (((n / 2) & ((n / 2 - 1) as usize))
            == 0)) by (bit_vector)
            requires
                n % 2 == 0 && n >= 2,
        ;
    }
}

/// The exponent of a power of two: `spec_log2(pow2(k)) == k`, and a power of
/// two is recovered from its exponent.
pub open spec fn spec_log2(n: nat) -> nat
    decreases n,
{
    if n <= 1 {
        0
    } else {
        (1 + spec_log2(n / 2)) as nat
    }
}

/// `spec_log2` inverts `pow2`.
pub proof fn lemma_log2_pow2(k: nat)
    ensures
        spec_log2(pow2(k)) == k,
    decreases k,
{
    if k == 0 {
        lemma2_to64();
    } else {
        lemma_pow2_unfold(k);
        lemma_pow2_pos((k - 1) as nat);
        lemma_log2_pow2((k - 1) as nat);
    }
}

/// A power of two is `pow2` of its `spec_log2`.
pub proof fn lemma_pow2_log2(n: nat)
    requires
        is_pow2(n as int),
    ensures
        n == pow2(spec_log2(n)),
    decreases n,
{
    reveal(is_pow2);
    if n == 1 {
        lemma2_to64();
    } else {
        lemma_pow2_log2(n / 2);
        lemma_pow2_unfold((1 + spec_log2(n / 2)) as nat);
    }
}

/// Every power of two satisfies the recursive power-of-two predicate.
pub proof fn lemma_is_pow2_pow2(k: nat)
    ensures
        is_pow2(pow2(k) as int),
    decreases k,
{
    reveal(is_pow2);
    lemma_pow2_pos(k);
    if k == 0 {
        lemma2_to64();
    } else {
        lemma_pow2_unfold(k);
        lemma_is_pow2_pow2((k - 1) as nat);
        lemma_pow2_pos((k - 1) as nat);
    }
}

/// A power of two that fits in `usize` has an exponent below the word width.
pub proof fn lemma_pow2_fits_usize(k: nat)
    requires
        pow2(k) <= usize::MAX,
    ensures
        k < usize::BITS,
{
    if k >= usize::BITS {
        if usize::BITS == 32 {
            if k > 32 {
                lemma_pow2_strictly_increases(32, k);
            }
            lemma2_to64();
        } else {
            if k > 64 {
                lemma_pow2_strictly_increases(64, k);
            }
            lemma2_to64();
        }
    }
}

/// `pow2` is monotone (non-strict).
pub proof fn lemma_pow2_increases(a: nat, b: nat)
    requires
        a <= b,
    ensures
        pow2(a) <= pow2(b),
{
    if a < b {
        lemma_pow2_strictly_increases(a, b);
    }
}

/// A left shift of one is the matching power of two.
pub proof fn lemma_shl_pow2(sh: usize)
    requires
        sh < usize::BITS,
    ensures
        (1usize << sh) == pow2(sh as nat),
{
    lemma_usize_pow2_no_overflow(sh as nat);
    lemma_usize_shl_is_mul(1, sh);
}

/// Clearing the highest set bit is subtraction of its power of two.
proof fn lemma_bv_xor_top(i: usize, h: usize)
    by (bit_vector)
    requires
        h as int + 1 < usize::BITS,
        (1usize << h) <= i,
        i < (1usize << ((h + 1) as usize)),
    ensures
        i ^ (1usize << h) == i - (1usize << h),
{
}

/// Setting a bit below the trailing zeroes of `y` adds its power of two.
proof fn lemma_bv_or_add(y: usize, s: usize, t: usize)
    by (bit_vector)
    requires
        s < usize::BITS,
        t < s,
        y % (1usize << s) == 0,
    ensures
        y | (1usize << t) == y + (1usize << t),
{
}

/// The exponent of the power-of-two length `n`: the number of significant
/// bits of an index below `n`, found exactly as the butterfly passes need it.
pub(crate) fn log2_exponent(n: usize) -> (nb: usize)
    requires
        is_pow2(n as int),
    ensures
        n == pow2(nb as nat),
        nb < usize::BITS,
        nb as nat == spec_log2(n as nat),
{
    proof {
        lemma_pow2_log2(n as nat);
        lemma_pow2_fits_usize(spec_log2(n as nat));
    }
    let ghost k: nat = spec_log2(n as nat);
    let mut nb: usize = 0;
    proof {
        lemma_shl_pow2(0);
        lemma2_to64();
    }
    while (1usize << nb) < n
        invariant
            n == pow2(k),
            k < usize::BITS,
            nb <= k,
            (1usize << nb) == pow2(nb as nat),
        decreases k - nb,
    {
        proof {
            lemma_pow2_strictly_increases(nb as nat, k);
            assert(nb < k);
            lemma_shl_pow2((nb + 1) as usize);
        }
        nb = nb + 1;
    }
    proof {
        lemma_pow2_increases(nb as nat, k);
        assert(pow2(nb as nat) >= n);
        assert(pow2(nb as nat) == pow2(k));
        if nb < k {
            lemma_pow2_strictly_increases(nb as nat, k);
        }
        lemma_log2_pow2(k);
    }
    nb
}

/// The bit-reversal permutation table for the `n == pow2(nb)` indices:
/// entry `k` is `rev_bits(k, nb)`. Each entry is derived from the entry of
/// the index with its highest bit cleared, which is already in the table.
pub(crate) fn bit_reversal_table(n: usize, nb: usize) -> (table: Vec<usize>)
    requires
        n == pow2(nb as nat),
        nb < usize::BITS,
    ensures
        table@.len() == n,
        forall|k: int| 0 <= k < n ==> table@[k] == rev_bits(k as nat, nb as nat),
{
    let mut table: Vec<usize> = Vec::new();
    table.push(0);
    proof {
        lemma_rev_bits_zero(nb as nat);
        lemma_pow2_pos(nb as nat);
    }
    let mut high_bit: usize = 0;
    let mut i: usize = 1;
    while i < n
        invariant
            n == pow2(nb as nat),
            nb < usize::BITS,
            1 <= i <= n,
            table@.len() == i,
            forall|k: int| 0 <= k < i ==> table@[k] == rev_bits(k as nat, nb as nat),
            i == 1 ==> high_bit == 0,
            i >= 2 ==> high_bit as nat + 1 <= nb as nat && pow2(high_bit as nat) <= i - 1
                < pow2(high_bit as nat + 1),
        decreases n - i,
    {
        if i & (i - 1) == 0 {
            if i > 1 {
                proof {
                    // i is a power of two strictly between pow2(high_bit)
                    // and pow2(high_bit + 2), so it is pow2(high_bit + 1).
                    lemma_pow2_guard(i);
                    lemma_pow2_log2(i as nat);
                    let m = spec_log2(i as nat);
                    if m <= high_bit as nat {
                        lemma_pow2_increases(m, high_bit as nat);
                        assert(false);
                    }
                    if m > high_bit as nat + 1 {
                        lemma_pow2_increases(high_bit as nat + 2, m);
                        lemma_pow2_unfold(high_bit as nat + 2);
                        lemma_pow2_pos(high_bit as nat + 1);
                        assert(false);
                    }
                    assert(i == pow2(high_bit as nat + 1));
                    lemma_pow2_strictly_increases(high_bit as nat + 1, high_bit as nat + 2);
                }
                high_bit = high_bit + 1;
            } else {
                proof {
                    lemma2_to64();
                }
            }
        } else {
            proof {
                // i keeps the same highest bit: it is not pow2(high_bit + 1).
                lemma_pow2_guard(i);
                lemma_is_pow2_pow2(high_bit as nat + 1);
                lemma2_to64();
            }
        }
        proof {
            assert(pow2(high_bit as nat) <= i < pow2(high_bit as nat + 1));
            assert(high_bit as nat + 1 <= nb as nat) by {
                if high_bit as nat + 1 > nb as nat {
                    lemma_pow2_increases(nb as nat, high_bit as nat);
                }
            }
        }
        let ghost h = high_bit as nat;
        proof {
            lemma_shl_pow2(high_bit);
            lemma_shl_pow2((high_bit + 1) as usize);
            lemma_bv_xor_top(i, high_bit);
        }
        let j = i ^ (1usize << high_bit);
        proof {
            assert(j == i - pow2(h));
            lemma_pow2_unfold(h + 1);
            assert(j < pow2(h));
            lemma_rev_bits_low(j as nat, h, nb as nat);
            lemma_shl_pow2((nb - high_bit) as usize);
            lemma_shl_pow2((nb - high_bit - 1) as usize);
            lemma_bv_or_add(table@[j as int] as usize, (nb - high_bit) as usize, (nb
                - high_bit - 1) as usize);
            lemma_rev_bits_top(i as nat, h, nb as nat);
            lemma_rev_bits_bound(i as nat, nb as nat);
        }
        let entry = table[j] | (1usize << (nb - high_bit - 1));
        table.push(entry);
        i = i + 1;
    }
    table
}

} // verus!

