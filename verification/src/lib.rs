//! Ceiling base-2 logarithm for 64-bit unsigned integers.
//!
//! Four strategies compute the same mathematical result, the smallest `r`
//! with `2^r >= x` (with `0` mapped to `0`): a plain doubling loop that
//! serves as the reference, a dispatcher over the full 64-bit range, a
//! bit-counting variant for any non-zero 64-bit value, and a bit-counting
//! variant specialized to values with a free top bit.

pub mod non_zero_u63;

use crate::non_zero_u63::NonZeroU63;
use vstd::prelude::*;
use vstd::std_specs::bits::u64_leading_zeros;
use vstd::arithmetic::power2::{
    pow2, lemma_pow2_pos, lemma_pow2_strictly_increases, lemma_pow2_unfold, lemma2_to64,
    lemma2_to64_rest,
};

verus! {

/// The smallest `r` such that `2^r >= x`, with the convention that
/// `x = 0` maps to `0`.
pub open spec fn log2_ceil(x: nat) -> nat
    decreases x,
{
    if x <= 1 {
        0
    } else {
        (1 + log2_ceil(((x + 1) / 2) as nat)) as nat
    }
}

/// `log2_ceil` names the smallest sufficient exponent: `2^log2_ceil(x)`
/// reaches `x`, and for a positive result the next smaller power of two
/// falls short of `x`.
pub proof fn lemma_log2_ceil_minimal(x: nat)
    ensures
        x >= 1 ==> pow2(log2_ceil(x)) >= x,
        log2_ceil(x) >= 1 ==> pow2((log2_ceil(x) - 1) as nat) < x,
    decreases x,
{
    lemma2_to64();
    if x > 1 {
        let c = ((x + 1) / 2) as nat;
        lemma_log2_ceil_minimal(c);
        let lc = log2_ceil(c);
        lemma_pow2_unfold((lc + 1) as nat);
        if lc >= 1 {
            lemma_pow2_unfold(lc);
        }
    }
}

/// The two bounds of `lemma_log2_ceil_minimal` pin the exponent down: any
/// `r` with `2^r >= x` whose predecessor power falls short of `x` equals
/// `log2_ceil(x)`.
pub proof fn lemma_log2_ceil_unique(x: nat, r: nat)
    requires
        x >= 1,
        pow2(r) >= x,
        r >= 1 ==> pow2((r - 1) as nat) < x,
    ensures
        log2_ceil(x) == r,
{
    let l = log2_ceil(x);
    lemma_log2_ceil_minimal(x);
    if l + 1 < r {
        lemma_pow2_strictly_increases(l, (r - 1) as nat);
    }
    if r + 1 < l {
        lemma_pow2_strictly_increases(r, (l - 1) as nat);
    }
}

/// Power-of-two exactness: the ceiling logarithm of `2^k` is exactly `k`,
/// and of `2^k + 1` is exactly `k + 1`.
pub proof fn lemma_log2_ceil_pow2(k: nat)
    ensures
        log2_ceil(pow2(k)) == k,
        log2_ceil((pow2(k) + 1) as nat) == k + 1,
{
    lemma_pow2_pos(k);
    if k >= 1 {
        lemma_pow2_strictly_increases((k - 1) as nat, k);
    }
    lemma_log2_ceil_unique(pow2(k), k);
    lemma_pow2_unfold((k + 1) as nat);
    lemma_log2_ceil_unique((pow2(k) + 1) as nat, (k + 1) as nat);
}

/// Reference implementation: find the smallest sufficient exponent by
/// repeated doubling. Exact on the whole 64-bit range, including at the
/// boundaries where a floating-point approximation would be unreliable.
pub fn log2_ceil_baseline(x: u64) -> (r: u32)
    ensures
        r == log2_ceil(x as nat),
{
    let mut r: u32 = 0;
    let mut p: u64 = 1;
    proof {
        lemma2_to64();
    }
    while p < x
        invariant
            r <= 63,
            p == pow2(r as nat),
            r >= 1 ==> pow2((r - 1) as nat) < x,
        decreases 64 - r,
    {
        if r == 63 {
            proof {
                lemma2_to64();
                lemma_log2_ceil_unique(x as nat, 64);
            }
            return 64;
        }
        proof {
            lemma2_to64_rest();
            lemma_pow2_strictly_increases(r as nat, 63);
            lemma_pow2_unfold((r + 1) as nat);
        }
        p = p * 2;
        r = r + 1;
    }
    proof {
        if x >= 1 {
            lemma_log2_ceil_unique(x as nat, r as nat);
        }
    }
    r
}

/// The count of leading zero bits locates a non-zero `i` between two
/// adjacent powers of two: `2^(63 - lz) <= i < 2^(64 - lz)`.
proof fn lemma_leading_zeros_bounds(i: u64)
    requires
        i != 0,
    ensures
        0 <= u64_leading_zeros(i) <= 63,
        pow2((63 - u64_leading_zeros(i)) as nat) <= i,
        i < pow2((64 - u64_leading_zeros(i)) as nat),
    decreases i,
{
    reveal_with_fuel(u64_leading_zeros, 2);
    lemma2_to64();
    lemma2_to64_rest();
    if i > 1 {
        lemma_leading_zeros_bounds(i / 2);
        let lh = u64_leading_zeros(i / 2);
        if lh == 0 {
            lemma_pow2_strictly_increases(62, 63);
            assert(false);
        }
        lemma_pow2_unfold((64 - lh) as nat);
        lemma_pow2_unfold((65 - lh) as nat);
    }
}

/// Dispatching variant over the full 64-bit range: `0` maps to `0`, values
/// with a free top bit take the specialized path, the rest take the
/// general path.
pub fn log2_ceil_v1(x: u64) -> (r: u32)
    ensures
        r == log2_ceil(x as nat),
{
    if x == 0 {
        0
    } else if x < NonZeroU63::MAX {
        let x = NonZeroU63::new_unchecked(x);
        log2_ceil_v3(x)
    } else {
        log2_ceil_v2(x)
    }
}

/// General variant for any non-zero 64-bit value:
/// `64 - count_leading_zeros(x - 1)`. Subtracting one first makes an exact
/// power of two land on its own exponent; for `x = 1` the count of leading
/// zeros of `0` is the full width, which yields `0`.
pub fn log2_ceil_v2(x: u64) -> (r: u32)
    requires
        x != 0,
    ensures
        r == log2_ceil(x as nat),
{
    let lz = (x - 1).leading_zeros();
    proof {
        if x == 1 {
            reveal(u64_leading_zeros);
        } else {
            lemma_leading_zeros_bounds((x - 1) as u64);
            let l = u64_leading_zeros((x - 1) as u64);
            lemma_log2_ceil_unique(x as nat, (64 - l) as nat);
        }
    }
    64 - lz
}

/// Specialized variant for values with a free top bit:
/// `63 - count_leading_zeros(2 * x - 1)`. The guaranteed headroom of
/// `NonZeroU63` makes `2 * x - 1` safe from overflow, so the single
/// expression covers every value of the type, the power-of-two adjustment
/// included.
pub fn log2_ceil_v3(x: NonZeroU63) -> (r: u32)
    ensures
        r == log2_ceil(x.spec_get() as nat),
{
    let v = x.get();
    let lz = (2 * v - 1).leading_zeros();
    proof {
        lemma_leading_zeros_bounds((2 * v - 1) as u64);
        let l = u64_leading_zeros((2 * v - 1) as u64);
        let e = (63 - l) as nat;
        lemma_pow2_unfold((64 - l) as nat);
        if e >= 1 {
            lemma_pow2_unfold(e);
        }
        lemma_log2_ceil_unique(v as nat, e);
    }
    NonZeroU63::BITS - lz
}

} // verus!
