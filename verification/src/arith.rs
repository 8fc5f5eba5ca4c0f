//! Saturating arithmetic.
//!
//! Cache geometry words multiply into byte counts that no fixed-width type
//! can hold for every conceivable input, so the aggregation saturates: each
//! result is the mathematical value capped at the type's maximum. The
//! composition lemmas let a chain of capped operations be stated as one cap
//! of the exact mathematical result.

use vstd::prelude::*;

use vstd::arithmetic::div_mod::lemma_fundamental_div_mod;
use vstd::arithmetic::mul::lemma_mul_inequality;

verus! {

/// `x` capped at the largest 64-bit value.
pub open spec fn cap64(x: nat) -> nat {
    if x > u64::MAX {
        u64::MAX as nat
    } else {
        x
    }
}

/// `x` capped at the largest `usize` value.
pub open spec fn cap_usize(x: nat) -> nat {
    if x > usize::MAX {
        usize::MAX as nat
    } else {
        x
    }
}

/// Saturating 64-bit addition.
pub fn sat_add_u64(a: u64, b: u64) -> (r: u64)
    ensures
        r as nat == cap64((a + b) as nat),
{
    if a > u64::MAX - b {
        u64::MAX
    } else {
        a + b
    }
}

/// Saturating 64-bit multiplication.
pub fn sat_mul_u64(a: u64, b: u64) -> (r: u64)
    ensures
        r as nat == cap64((a * b) as nat),
{
    if a == 0 {
        proof {
            assert(a * b == 0) by (nonlinear_arith)
                requires
                    a == 0,
            ;
        }
        0
    } else {
        let q: u64 = u64::MAX / a;
        if b > q {
            proof {
                lemma_fundamental_div_mod(u64::MAX as int, a as int);
                lemma_mul_inequality(q as int + 1, b as int, a as int);
                assert(a * (q + 1) == a * q + a) by (nonlinear_arith);
                assert((q + 1) * a == a * (q + 1)) by (nonlinear_arith);
                assert(b * a == a * b) by (nonlinear_arith);
            }
            u64::MAX
        } else {
            proof {
                lemma_fundamental_div_mod(u64::MAX as int, a as int);
                lemma_mul_inequality(b as int, q as int, a as int);
                assert(b * a == a * b) by (nonlinear_arith);
                assert(q * a == a * q) by (nonlinear_arith);
            }
            a * b
        }
    }
}

/// Converts a capped 64-bit value to `usize`, saturating where `usize` is
/// narrower.
pub fn sat_u64_to_usize(v: u64) -> (r: usize)
    ensures
        r as nat == cap_usize(v as nat),
{
    if v > usize::MAX as u64 {
        usize::MAX
    } else {
        v as usize
    }
}

/// Saturating `usize` addition.
pub fn sat_add_usize(a: usize, b: usize) -> (r: usize)
    ensures
        r as nat == cap_usize((a + b) as nat),
{
    if a > usize::MAX - b {
        usize::MAX
    } else {
        a + b
    }
}

/// Capping after a capped addition caps the exact sum.
pub proof fn lemma_cap64_add(a: nat, b: nat)
    ensures
        cap64(cap64(a) + cap64(b)) == cap64(a + b),
{
}

/// Capping after a capped multiplication caps the exact product.
pub proof fn lemma_cap64_mul(a: nat, b: nat)
    ensures
        cap64(cap64(a) * cap64(b)) == cap64(a * b),
{
    let m = u64::MAX as nat;
    let x = cap64(a);
    let y = cap64(b);
    if a == 0 {
        assert(x * y == 0 && a * b == 0) by (nonlinear_arith)
            requires
                a == 0 && x == 0,
        ;
    } else if b == 0 {
        assert(x * y == 0 && a * b == 0) by (nonlinear_arith)
            requires
                b == 0 && y == 0,
        ;
    } else if a <= m && b <= m {
    } else {
        assert(1 <= x && 1 <= y && (x == m || y == m));
        assert(x * y >= m) by (nonlinear_arith)
            requires
                1 <= x && 1 <= y && (x == m || y == m),
        ;
        assert(a * b > m) by (nonlinear_arith)
            requires
                1 <= a && 1 <= b && (a > m || b > m),
        ;
    }
}

/// The `usize` cap of a 64-bit-capped value is the `usize` cap itself.
pub proof fn lemma_cap_usize_of_cap64(x: nat)
    ensures
        cap_usize(cap64(x)) == cap_usize(x),
{
}

} // verus!
