//! Heights, capacities and powers of two.

use vstd::arithmetic::power2::{
    is_pow2, lemma2_to64, lemma_pow2_strictly_increases, lemma_pow2_unfold, pow2,
};
use vstd::prelude::*;

verus! {

/// The largest `k` with `2^k <= m`, and 0 for `m` below 2.
pub open spec fn log2_floor(m: nat) -> nat
    decreases m,
{
    if m <= 1 {
        0
    } else {
        1 + log2_floor(m / 2)
    }
}

/// The height of a tree that holds `n` records: the least height whose
/// capacity `2^h` takes them all, but never less than 1 for a tree with a
/// record in it.
pub open spec fn height_of(n: nat) -> nat {
    if n == 0 {
        0
    } else {
        log2_floor((n - 1) as nat) + 1
    }
}

/// `2^log2_floor(m) <= m < 2^(log2_floor(m) + 1)` for every positive `m`.
pub proof fn lemma_log2_bounds(m: nat)
    requires
        m >= 1,
    ensures
        pow2(log2_floor(m)) <= m,
        m < pow2(log2_floor(m) + 1),
    decreases m,
{
    lemma2_to64();
    if m >= 2 {
        lemma_log2_bounds(m / 2);
        lemma_pow2_unfold(log2_floor(m / 2) + 1);
        lemma_pow2_unfold(log2_floor(m / 2) + 2);
    }
}

/// Powers of two grow with the exponent.
pub proof fn lemma_pow2_monotonic(a: nat, b: nat)
    requires
        a <= b,
    ensures
        pow2(a) <= pow2(b),
{
    if a < b {
        lemma_pow2_strictly_increases(a, b);
    }
}

/// A value below `2^e` has a logarithm below `e`.
pub proof fn lemma_log2_below(m: nat, e: nat)
    requires
        1 <= m < pow2(e),
    ensures
        log2_floor(m) < e,
{
    lemma_log2_bounds(m);
    if log2_floor(m) >= e {
        lemma_pow2_monotonic(e, log2_floor(m));
    }
}

/// `n` records fit a tree of height `height_of(n)`, and more than half of
/// that capacity is in use once the tree holds two records.
pub proof fn lemma_height_capacity(n: nat)
    ensures
        n <= pow2(height_of(n)),
        n >= 2 ==> pow2((height_of(n) - 1) as nat) < n,
{
    lemma2_to64();
    if n >= 2 {
        lemma_log2_bounds((n - 1) as nat);
    }
}

/// From one positive number to the next the logarithm grows by one where
/// the next is a power of two, and stays otherwise.
pub proof fn lemma_log2_step(m: nat)
    requires
        m >= 2,
    ensures
        log2_floor(m) == log2_floor((m - 1) as nat) + (if is_pow2(m as int) {
            1nat
        } else {
            0nat
        }),
    decreases m,
{
    reveal(is_pow2);
    if m >= 4 {
        if m % 2 == 0 {
            lemma_log2_step(m / 2);
        }
    } else {
        assert(is_pow2(1));
    }
}

/// `2^e` as a machine integer.
pub fn pow2_usize(e: u32) -> (r: usize)
    requires
        pow2(e as nat) <= usize::MAX,
    ensures
        r == pow2(e as nat),
{
    let mut r: usize = 1;
    let mut i: u32 = 0;
    proof {
        lemma2_to64();
    }
    while i < e
        invariant
            i <= e,
            r == pow2(i as nat),
            pow2(e as nat) <= usize::MAX,
        decreases e - i,
    {
        proof {
            lemma_pow2_unfold((i + 1) as nat);
            lemma_pow2_monotonic((i + 1) as nat, e as nat);
        }
        r = r * 2;
        i = i + 1;
    }
    r
}

/// Whether `n` is a power of two.
pub fn is_power_of_two(n: usize) -> (b: bool)
    ensures
        b == is_pow2(n as int),
{
    if n == 0 {
        proof {
            reveal(is_pow2);
        }
        return false;
    }
    let mut m: usize = n;
    while m % 2 == 0
        invariant
            m >= 1,
            is_pow2(m as int) == is_pow2(n as int),
        decreases m,
    {
        proof {
            reveal(is_pow2);
        }
        m = m / 2;
    }
    proof {
        reveal(is_pow2);
    }
    m == 1
}

/// The height of a tree of `n` records.
pub fn height_for(n: usize) -> (h: u32)
    ensures
        h == height_of(n as nat),
        h <= 64,
{
    if n == 0 {
        return 0;
    }
    let mut m: usize = n - 1;
    let mut h: u32 = 1;
    proof {
        lemma2_to64();
        if m >= 1 {
            lemma_log2_below(m as nat, 64);
        }
    }
    while m > 1
        invariant
            h >= 1,
            h + log2_floor(m as nat) == height_of(n as nat),
            height_of(n as nat) <= 64,
        decreases m,
    {
        m = m / 2;
        h = h + 1;
    }
    h
}

} // verus!
