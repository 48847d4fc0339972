//! Saturating 64-bit arithmetic and powers of two.
//!
//! The fragmentation sums are mathematically unbounded; the executable
//! collector computes them capped at `u64::MAX`, and these helpers say
//! exactly how the capped value relates to the true one.

use vstd::prelude::*;

verus! {

/// A natural number capped at `u64::MAX`.
pub open spec fn cap64(n: nat) -> nat {
    if n <= u64::MAX {
        n
    } else {
        u64::MAX as nat
    }
}

/// Powers of two.
pub open spec fn pow2n(k: nat) -> nat
    decreases k,
{
    if k == 0 {
        1
    } else {
        2 * pow2n((k - 1) as nat)
    }
}

/// Powers of two are positive.
pub proof fn lemma_pow2n_pos(k: nat)
    ensures
        pow2n(k) >= 1,
    decreases k,
{
    if k > 0 {
        lemma_pow2n_pos((k - 1) as nat);
    }
}

/// Capping distributes over addition: adding capped values and capping
/// gives the cap of the true sum.
pub proof fn lemma_cap_add_cap(a: nat, b: nat)
    ensures
        cap64(cap64(a) + cap64(b)) == cap64(a + b),
{
}

/// Capping distributes over multiplication by a positive factor.
pub proof fn lemma_cap_mul_cap(a: nat, b: nat)
    requires
        b >= 1,
    ensures
        cap64(cap64(a) * cap64(b)) == cap64(a * b),
{
    if a <= u64::MAX && b <= u64::MAX {
    } else if a > u64::MAX {
        assert(cap64(a) * cap64(b) >= u64::MAX * 1) by (nonlinear_arith)
            requires
                cap64(a) == u64::MAX as nat && cap64(b) >= 1,
        ;
        assert(a * b >= a * 1) by (nonlinear_arith)
            requires
                b >= 1,
        ;
    } else {
        // a <= u64::MAX < b
        if a == 0 {
            assert(cap64(a) * cap64(b) == 0) by (nonlinear_arith)
                requires
                    cap64(a) == 0,
            ;
        } else {
            assert(cap64(a) * cap64(b) >= 1 * cap64(b)) by (nonlinear_arith)
                requires
                    cap64(a) >= 1,
            ;
            assert(a * b >= 1 * b) by (nonlinear_arith)
                requires
                    a >= 1,
            ;
        }
    }
}

/// Saturating 64-bit addition.
pub fn sat_add64(a: u64, b: u64) -> (r: u64)
    ensures
        r as nat == cap64(a as nat + b as nat),
{
    a.saturating_add(b)
}

/// Saturating 64-bit multiplication.
pub fn sat_mul64(a: u64, b: u64) -> (r: u64)
    ensures
        r as nat == cap64(a as nat * b as nat),
{
    match a.checked_mul(b) {
        Some(v) => v,
        None => u64::MAX,
    }
}

/// The `k`-th power of two, capped at `u64::MAX`.
pub fn pow2_capped(k: usize) -> (r: u64)
    ensures
        r as nat == cap64(pow2n(k as nat)),
{
    let mut r: u64 = 1;
    let mut i: usize = 0;
    while i < k
        invariant
            i <= k,
            r as nat == cap64(pow2n(i as nat)),
        decreases k - i,
    {
        proof {
            lemma_cap_add_cap(pow2n(i as nat), pow2n(i as nat));
            assert(pow2n((i + 1) as nat) == 2 * pow2n(i as nat));
        }
        r = sat_add64(r, r);
        i += 1;
    }
    r
}

} // verus!
