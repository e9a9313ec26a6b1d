//! Signed fixed-point arithmetic with `FIXED_ONE` units per 1.0.
//!
//! A plane coordinate `v` stands for the real number `v / FIXED_ONE`.
//! Products are scaled back down with truncation toward zero, the way a
//! hardware fixed-point multiply behaves.

use vstd::prelude::*;

verus! {

/// Number of fixed-point units per 1.0.
pub const FIXED_ONE: i64 = 65536;

/// Largest operand magnitude `fixed_mul` accepts; keeps the scaled product
/// inside `i64`.
pub const FIXED_MUL_BOUND: i64 = 0x80_0000_0000;

/// The fixed-point product: `a * b` scaled down by `FIXED_ONE`, rounded
/// toward zero.
pub open spec fn fixed_mul_spec(a: int, b: int) -> int {
    if a * b >= 0 {
        (a * b) / (FIXED_ONE as int)
    } else {
        -((-(a * b)) / (FIXED_ONE as int))
    }
}

/// Truncating toward zero never grows the magnitude of the true quotient.
pub proof fn lemma_fixed_mul_bound(a: int, b: int, m: int)
    requires
        -m <= a * b <= m,
        0 <= m,
    ensures
        -m <= fixed_mul_spec(a, b) <= m,
        -(m / (FIXED_ONE as int)) <= fixed_mul_spec(a, b) <= m / (FIXED_ONE as int),
{
    let one = FIXED_ONE as int;
    vstd::arithmetic::div_mod::lemma_div_pos_is_pos(m, one);
    if a * b >= 0 {
        vstd::arithmetic::div_mod::lemma_div_pos_is_pos(a * b, one);
        vstd::arithmetic::div_mod::lemma_div_nonincreasing(a * b, one);
        vstd::arithmetic::div_mod::lemma_div_is_ordered(a * b, m, one);
    } else {
        let p = -(a * b);
        vstd::arithmetic::div_mod::lemma_div_pos_is_pos(p, one);
        vstd::arithmetic::div_mod::lemma_div_nonincreasing(p, one);
        vstd::arithmetic::div_mod::lemma_div_is_ordered(p, m, one);
    }
}

/// The magnitudes of both operands bound the magnitude of their product.
pub proof fn lemma_product_bound(x: int, y: int, b: int)
    requires
        -b <= x <= b,
        -b <= y <= b,
        0 <= b,
    ensures
        -(b * b) <= x * y <= b * b,
{
    assert(-(b * b) <= x * y <= b * b) by (nonlinear_arith)
        requires
            -b <= x <= b,
            -b <= y <= b,
            0 <= b,
    ;
}

/// Fixed-point multiply. Computes the double-width product on unsigned
/// magnitudes, scales it down, and restores the sign.
pub fn fixed_mul(a: i64, b: i64) -> (r: i64)
    requires
        -FIXED_MUL_BOUND <= a <= FIXED_MUL_BOUND,
        -FIXED_MUL_BOUND <= b <= FIXED_MUL_BOUND,
    ensures
        r == fixed_mul_spec(a as int, b as int),
{
    let neg: bool = (a < 0) != (b < 0);
    let am: u64 = if a < 0 { (-a) as u64 } else { a as u64 };
    let bm: u64 = if b < 0 { (-b) as u64 } else { b as u64 };
    proof {
        assert(am == if a < 0 { -(a as int) } else { a as int });
        assert(bm == if b < 0 { -(b as int) } else { b as int });
        assert((am as int) * (bm as int) <= 0x80_0000_0000int * 0x80_0000_0000int)
            by (nonlinear_arith)
            requires
                am <= 0x80_0000_0000,
                bm <= 0x80_0000_0000,
        ;
    }
    let p: u128 = (am as u128) * (bm as u128);
    let q: u128 = p / (FIXED_ONE as u128);
    proof {
        assert((am as int) * (bm as int) == if (a as int) * (b as int) >= 0 {
            (a as int) * (b as int)
        } else {
            -((a as int) * (b as int))
        }) by (nonlinear_arith)
            requires
                am == if a < 0 { -(a as int) } else { a as int },
                bm == if b < 0 { -(b as int) } else { b as int },
        ;
        assert(q == (p as int) / (FIXED_ONE as int));
        vstd::arithmetic::div_mod::lemma_div_is_ordered(
            p as int,
            0x80_0000_0000int * 0x80_0000_0000int,
            FIXED_ONE as int,
        );
        assert(0x80_0000_0000int * 0x80_0000_0000int / (FIXED_ONE as int)
            < 0x8000_0000_0000_0000int);
    }
    let qi: i64 = q as i64;
    let r: i64 = if neg { -qi } else { qi };
    proof {
        let ab = (a as int) * (b as int);
        if neg {
            if ab >= 0 {
                // one operand is zero, so the product is zero
                assert(ab == 0 && q == 0) by (nonlinear_arith)
                    requires
                        ab == (a as int) * (b as int),
                        (a < 0) != (b < 0),
                        ab >= 0,
                        q == (if ab >= 0 { ab } else { -ab }) / (FIXED_ONE as int),
                ;
            }
        } else {
            assert(ab >= 0) by (nonlinear_arith)
                requires
                    ab == (a as int) * (b as int),
                    !((a < 0) != (b < 0)),
            ;
        }
    }
    r
}

} // verus!
