//! The radix-2 transform: length validation, bit-reversal reorder, roots of
//! unity, and the iterative butterfly passes.
//!
//! The contract of `fft` pins the result exactly: on a power-of-two length it
//! is `spec_fft` of the input, the pointwise composition of the named
//! single-precision operations over the bit-reversed input; on any other
//! length it is the `InvalidLength` error. The roots carry a positive sine
//! component, so the spectrum follows the `e^{+i}` sign convention.

use vstd::prelude::*;
use vstd::arithmetic::power2::{
    pow2, is_pow2, lemma_pow2_unfold, lemma_pow2_adds, lemma_pow2_strictly_increases,
    lemma2_to64,
};
use vstd::arithmetic::div_mod::{
    lemma_small_mod, lemma_mod_multiples_vanish, lemma_mod_multiples_basic,
    lemma_fundamental_div_mod,
};
use vstd::arithmetic::mul::{
    lemma_mul_inequality, lemma_mul_strict_inequality, lemma_mul_is_distributive_add,
    lemma_mul_is_commutative,
};
use crate::complex::{Complex, c_add, c_sub, c_mul, complex_add, complex_sub, complex_mul};
use crate::floats::{
    F32_BITS_ZERO, F32_BITS_TWO, F32_BITS_PI, mul_bits, div_bits, cos_bits, sin_bits,
    f32_bits_of_usize, pi_bits, f32_mul, f32_div, f32_cos, f32_sin, f32_from_usize,
};
use crate::bits::{
    rev_bits, spec_log2, lemma_rev_bits_bound, lemma_pow2_guard, lemma_pow2_increases,
    log2_exponent, bit_reversal_table,
};

verus! {

/// Why a transform was refused.
#[derive(Clone, Copy, Debug, PartialEq, Eq, Structural)]
pub enum FftError {
    /// The input length is not a positive power of two.
    InvalidLength,
}

/// The angle `2.0 * pi * k / n`, composed exactly as the precomputation
/// computes it in single precision.
pub open spec fn root_angle_bits(k: int, n: int) -> u32 {
    div_bits(
        mul_bits(mul_bits(F32_BITS_TWO, F32_BITS_PI), f32_bits_of_usize(k as usize)),
        f32_bits_of_usize(n as usize),
    )
}

/// The `k`-th of the `n` roots of unity: cosine and sine of the angle, with
/// the positive (`e^{+i}`) sign convention.
pub open spec fn spec_root(k: int, n: int) -> Complex {
    Complex { re: cos_bits(root_angle_bits(k, n)), im: sin_bits(root_angle_bits(k, n)) }
}

/// The table of all `n` roots of unity.
pub open spec fn spec_roots(n: nat) -> Seq<Complex> {
    Seq::new(n, |k: int| spec_root(k, n as int))
}

/// The input in bit-reversed order, widened to complex values with a zero
/// imaginary part.
pub open spec fn spec_reorder(s: Seq<u32>) -> Seq<Complex> {
    Seq::new(
        s.len(),
        |k: int| Complex { re: s[rev_bits(k as nat, spec_log2(s.len())) as int], im: F32_BITS_ZERO },
    )
}

/// One butterfly pass over blocks of `2 * block_len` slots: the first half of
/// each block takes `cur[j] + w * cur[j + block_len]`, the second half takes
/// `cur[j - block_len] - w * cur[j]`, with `w` the root at the offset scaled
/// by `n / (2 * block_len)`.
pub open spec fn butterfly_pass(cur: Seq<Complex>, roots: Seq<Complex>, block_len: int) -> Seq<
    Complex,
> {
    let n = cur.len() as int;
    let step = n / (2 * block_len);
    Seq::new(
        cur.len(),
        |j: int|
            {
                let off = j % (2 * block_len);
                if off < block_len {
                    c_add(cur[j], c_mul(roots[off * step], cur[j + block_len]))
                } else {
                    c_sub(cur[j - block_len], c_mul(roots[(off - block_len) * step], cur[j]))
                }
            },
    )
}

/// The butterfly passes from block length `pow2(level)` up to (but not
/// including) `pow2(levels)`.
pub open spec fn butterfly_levels(
    cur: Seq<Complex>,
    roots: Seq<Complex>,
    level: nat,
    levels: nat,
) -> Seq<Complex>
    decreases levels - level,
{
    if level >= levels {
        cur
    } else {
        butterfly_levels(
            butterfly_pass(cur, roots, pow2(level) as int),
            roots,
            (level + 1) as nat,
            levels,
        )
    }
}

/// What `fft` returns on a power-of-two input: all butterfly levels applied
/// to the bit-reversed input, against the full table of roots of unity.
pub open spec fn spec_fft(s: Seq<u32>) -> Seq<Complex> {
    butterfly_levels(spec_reorder(s), spec_roots(s.len()), 0, spec_log2(s.len()))
}

/// A strictly smaller multiple of `m` lies at least `m` below.
proof fn lemma_multiple_below(a: int, b: int, m: int)
    requires
        m > 0,
        a % m == 0,
        b % m == 0,
        0 <= a < b,
    ensures
        a + m <= b,
{
    lemma_fundamental_div_mod(a, m);
    lemma_fundamental_div_mod(b, m);
    let qa = a / m;
    let qb = b / m;
    if qa >= qb {
        lemma_mul_inequality(qb, qa, m);
        lemma_mul_is_commutative(qb, m);
        lemma_mul_is_commutative(qa, m);
        assert(false);
    }
    lemma_mul_inequality(qa + 1, qb, m);
    lemma_mul_is_commutative(qa + 1, m);
    lemma_mul_is_commutative(qb, m);
    lemma_mul_is_distributive_add(m, qa, 1);
}

/// The precomputed table of the `n` roots of unity, built through the trusted
/// single-precision wrappers exactly as `spec_roots` states it.
fn roots_of_unity(n: usize) -> (roots: Vec<Complex>)
    requires
        n >= 1,
    ensures
        roots@ == spec_roots(n as nat),
{
    let pi = pi_bits();
    let two_pi = f32_mul(F32_BITS_TWO, pi);
    let n_f = f32_from_usize(n);
    let mut roots: Vec<Complex> = Vec::new();
    let mut k: usize = 0;
    while k < n
        invariant
            roots@.len() == k,
            k <= n,
            two_pi == mul_bits(F32_BITS_TWO, F32_BITS_PI),
            n_f == f32_bits_of_usize(n),
            forall|j: int| 0 <= j < k ==> roots@[j] == spec_root(j, n as int),
        decreases n - k,
    {
        let k_f = f32_from_usize(k);
        let ang = f32_div(f32_mul(two_pi, k_f), n_f);
        roots.push(Complex { re: f32_cos(ang), im: f32_sin(ang) });
        k = k + 1;
    }
    proof {
        assert(roots@ =~= spec_roots(n as nat));
    }
    roots
}

/// One butterfly pass, groupwise over the blocks, writing into a fresh
/// buffer of the same length (the ping-pong buffer of the transform).
fn butterfly_pass_exec(current: &Vec<Complex>, roots: &Vec<Complex>, block_len: usize) -> (out: Vec<
    Complex,
>)
    requires
        roots@.len() == current@.len(),
        1 <= block_len,
        2 * block_len <= current@.len(),
        current@.len() as int % (2 * block_len as int) == 0,
    ensures
        out@ == butterfly_pass(current@, roots@, block_len as int),
{
    let n = current.len();
    let block_step = n / (2 * block_len);
    let ghost goal = butterfly_pass(current@, roots@, block_len as int);
    proof {
        lemma_fundamental_div_mod(n as int, 2 * block_len as int);
    }
    let zero = Complex { re: F32_BITS_ZERO, im: F32_BITS_ZERO };
    let mut out: Vec<Complex> = Vec::new();
    let mut t: usize = 0;
    while t < n
        invariant
            out@.len() == t,
            t <= n,
        decreases n - t,
    {
        out.push(zero);
        t = t + 1;
    }
    let mut pos: usize = 0;
    while pos < n
        invariant
            current@.len() == n,
            roots@.len() == n,
            out@.len() == n,
            1 <= block_len,
            2 * block_len <= n,
            n as int % (2 * block_len as int) == 0,
            n == 2 * block_len * block_step,
            block_step == n as int / (2 * block_len as int),
            goal == butterfly_pass(current@, roots@, block_len as int),
            pos <= n,
            pos as int % (2 * block_len as int) == 0,
            forall|j: int| 0 <= j < pos ==> out@[j] == goal[j],
        decreases n - pos,
    {
        let ghost base = pos as int;
        proof {
            lemma_multiple_below(base, n as int, 2 * block_len as int);
            lemma_fundamental_div_mod(base, 2 * block_len as int);
        }
        let ghost q = base / (2 * block_len as int);
        let mut i: usize = 0;
        while i < block_len
            invariant
                current@.len() == n,
                roots@.len() == n,
                out@.len() == n,
                1 <= block_len,
                2 * block_len <= n,
                n == 2 * block_len * block_step,
                block_step == n as int / (2 * block_len as int),
                goal == butterfly_pass(current@, roots@, block_len as int),
                i <= block_len,
                pos == base + i,
                base == 2 * block_len as int * q,
                0 <= base,
                base + 2 * block_len <= n,
                forall|j: int| 0 <= j < base ==> out@[j] == goal[j],
                forall|j: int| base <= j < base + i ==> out@[j] == goal[j],
                forall|j: int|
                    base + block_len <= j < base + block_len + i ==> out@[j] == goal[j],
            decreases block_len - i,
        {
            proof {
                // The root index i * block_step stays below n.
                if block_step == 0 {
                    vstd::arithmetic::mul::lemma_mul_by_zero_is_zero(2 * block_len as int);
                    assert(false);
                }
                lemma_mul_strict_inequality(i as int, 2 * block_len as int, block_step as int);
            }
            let w = complex_mul(roots[i * block_step], current[pos + block_len]);
            let a = complex_add(current[pos], w);
            let b = complex_sub(current[pos], w);
            out[pos] = a;
            out[pos + block_len] = b;
            proof {
                let j1 = base + i;
                let j2 = base + block_len + i;
                let m = 2 * block_len as int;
                lemma_mod_multiples_vanish(q, i as int, m);
                lemma_small_mod(i as nat, m as nat);
                lemma_mod_multiples_vanish(q, block_len + i, m);
                lemma_small_mod((block_len + i) as nat, m as nat);
                assert(j1 % m == i as int);
                assert(j2 % m == block_len + i);
                assert(out@[j1] == goal[j1]);
                assert(out@[j2] == goal[j2]);
            }
            pos = pos + 1;
            i = i + 1;
        }
        pos = pos + block_len;
        proof {
            // pos advanced by one whole block of 2 * block_len slots.
            let m = 2 * block_len as int;
            lemma_mul_is_distributive_add(m, q, 1);
            lemma_mod_multiples_basic(q + 1, m);
            lemma_mul_is_commutative(q + 1, m);
        }
    }
    proof {
        assert(out@ =~= goal);
    }
    out
}

/// The fast Fourier transform of a real signal, given as the bit patterns of
/// its single-precision samples.
///
/// A length that is not a positive power of two is rejected with
/// `InvalidLength`; on success the spectrum has the input's length and is
/// exactly `spec_fft` of the input: the bit-reversal permutation followed by
/// the butterfly passes over the precomputed roots of unity.
pub fn fft(tone: &Vec<u32>) -> (r: Result<Vec<Complex>, FftError>)
    ensures
        match r {
            Ok(spectrum) => is_pow2(tone@.len() as int) && spectrum@.len() == tone@.len()
                && spectrum@ == spec_fft(tone@),
            Err(e) => !is_pow2(tone@.len() as int) && e == FftError::InvalidLength,
        },
{
    let n = tone.len();
    proof {
        lemma_pow2_guard(n);
    }
    if n == 0 {
        return Err(FftError::InvalidLength);
    }
    if n & (n - 1) != 0 {
        return Err(FftError::InvalidLength);
    }
    let nb = log2_exponent(n);
    let table = bit_reversal_table(n, nb);
    let mut current: Vec<Complex> = Vec::new();
    let mut idx: usize = 0;
    while idx < n
        invariant
            n == tone@.len(),
            n == pow2(nb as nat),
            nb as nat == spec_log2(n as nat),
            table@.len() == n,
            forall|k: int| 0 <= k < n ==> table@[k] == rev_bits(k as nat, nb as nat),
            current@.len() == idx,
            idx <= n,
            forall|k: int| 0 <= k < idx ==> current@[k] == spec_reorder(tone@)[k],
        decreases n - idx,
    {
        proof {
            lemma_rev_bits_bound(idx as nat, nb as nat);
        }
        let p = table[idx];
        current.push(Complex { re: tone[p], im: F32_BITS_ZERO });
        idx = idx + 1;
    }
    proof {
        assert(current@ =~= spec_reorder(tone@));
    }
    let roots = roots_of_unity(n);
    let ghost goal = spec_fft(tone@);
    let ghost mut level: nat = 0;
    let mut block_len: usize = 1;
    proof {
        lemma2_to64();
        assert(butterfly_levels(current@, roots@, 0, nb as nat) == goal);
    }
    while block_len < n
        invariant
            n == tone@.len(),
            n == pow2(nb as nat),
            nb < usize::BITS,
            current@.len() == n,
            roots@.len() == n,
            block_len == pow2(level),
            level <= nb as nat,
            butterfly_levels(current@, roots@, level, nb as nat) == goal,
        decreases n - block_len,
    {
        proof {
            if level >= nb as nat {
                lemma_pow2_increases(nb as nat, level);
            }
            lemma_pow2_unfold(level + 1);
            lemma_pow2_increases(level + 1, nb as nat);
            // n is a multiple of the doubled block length.
            lemma_pow2_adds((level + 1) as nat, (nb as nat - level - 1) as nat);
            lemma_mul_is_commutative(
                pow2((level + 1) as nat) as int,
                pow2((nb as nat - level - 1) as nat) as int,
            );
            lemma_mod_multiples_basic(
                pow2((nb as nat - level - 1) as nat) as int,
                pow2((level + 1) as nat) as int,
            );
        }
        let next = butterfly_pass_exec(&current, &roots, block_len);
        proof {
            assert(butterfly_levels(current@, roots@, level, nb as nat) == butterfly_levels(
                butterfly_pass(current@, roots@, pow2(level) as int),
                roots@,
                (level + 1) as nat,
                nb as nat,
            ));
            level = level + 1;
        }
        current = next;
        block_len = block_len * 2;
    }
    proof {
        if level < nb as nat {
            lemma_pow2_strictly_increases(level, nb as nat);
        }
        assert(butterfly_levels(current@, roots@, nb as nat, nb as nat) == current@);
    }
    Ok(current)
}

/// Law: the transform is deterministic. A spectrum is a function of the
/// input sequence alone, so two results of `fft` on equal inputs are equal
/// bit for bit.
pub proof fn lemma_fft_deterministic(s: Seq<u32>, r1: Seq<Complex>, r2: Seq<Complex>)
    requires
        r1 == spec_fft(s),
        r2 == spec_fft(s),
    ensures
        r1 == r2,
{
}

} // verus!
