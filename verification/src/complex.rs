//! Complex numbers over fixed-point coordinates, with the three operations
//! the escape-time iteration needs: addition, multiplication, and the
//! squared magnitude.

use vstd::prelude::*;
use crate::fixed::{FIXED_ONE, fixed_mul, fixed_mul_spec, lemma_fixed_mul_bound, lemma_product_bound};

verus! {

/// Largest component magnitude `Complex::mul` accepts.
pub const COMPLEX_MUL_BOUND: i64 = 0x4000_0000;

/// Largest component magnitude `Complex::arg_sq` accepts.
pub const COMPLEX_ARG_BOUND: i64 = 0x40_0000_0000;

/// A complex number `a + b*i` with fixed-point components.
#[derive(Clone, Copy, Debug, PartialEq, Eq, Structural)]
pub struct Complex {
    pub a: i64,
    pub b: i64,
}

impl View for Complex {
    type V = (int, int);

    open spec fn view(&self) -> (int, int) {
        (self.a as int, self.b as int)
    }
}

/// Complex addition: `(a+bi) + (c+di) = (a+c) + (b+d)i`.
pub open spec fn cadd_spec(x: (int, int), y: (int, int)) -> (int, int) {
    (x.0 + y.0, x.1 + y.1)
}

/// Complex multiplication in fixed point:
/// `(a+bi)(c+di) = (ac-bd) + (ad+bc)i`, each product scaled down.
pub open spec fn cmul_spec(x: (int, int), y: (int, int)) -> (int, int) {
    (
        fixed_mul_spec(x.0, y.0) - fixed_mul_spec(x.1, y.1),
        fixed_mul_spec(x.0, y.1) + fixed_mul_spec(x.1, y.0),
    )
}

/// Squared magnitude in fixed point: `a*a + b*b`, each square scaled down.
pub open spec fn arg_sq_spec(z: (int, int)) -> int {
    fixed_mul_spec(z.0, z.0) + fixed_mul_spec(z.1, z.1)
}

/// A scaled square is never negative.
pub proof fn lemma_square_nonneg(a: int)
    ensures
        0 <= fixed_mul_spec(a, a),
        fixed_mul_spec(a, a) == (a * a) / (FIXED_ONE as int),
{
    assert(a * a >= 0) by (nonlinear_arith);
    vstd::arithmetic::div_mod::lemma_div_pos_is_pos(a * a, FIXED_ONE as int);
}

impl Complex {
    pub fn add(self, rhs: Self) -> (r: Self)
        requires
            i64::MIN <= self.a + rhs.a <= i64::MAX,
            i64::MIN <= self.b + rhs.b <= i64::MAX,
        ensures
            r@ == cadd_spec(self@, rhs@),
    {
        Complex { a: self.a + rhs.a, b: self.b + rhs.b }
    }

    pub fn mul(self, rhs: Self) -> (r: Self)
        requires
            -COMPLEX_MUL_BOUND <= self.a <= COMPLEX_MUL_BOUND,
            -COMPLEX_MUL_BOUND <= self.b <= COMPLEX_MUL_BOUND,
            -COMPLEX_MUL_BOUND <= rhs.a <= COMPLEX_MUL_BOUND,
            -COMPLEX_MUL_BOUND <= rhs.b <= COMPLEX_MUL_BOUND,
        ensures
            r@ == cmul_spec(self@, rhs@),
    {
        proof {
            let bb = 0x4000_0000int * 0x4000_0000int;
            lemma_product_bound(self.a as int, rhs.a as int, 0x4000_0000int);
            lemma_fixed_mul_bound(self.a as int, rhs.a as int, bb);
            lemma_product_bound(self.b as int, rhs.b as int, 0x4000_0000int);
            lemma_fixed_mul_bound(self.b as int, rhs.b as int, bb);
            lemma_product_bound(self.a as int, rhs.b as int, 0x4000_0000int);
            lemma_fixed_mul_bound(self.a as int, rhs.b as int, bb);
            lemma_product_bound(self.b as int, rhs.a as int, 0x4000_0000int);
            lemma_fixed_mul_bound(self.b as int, rhs.a as int, bb);
        }
        let ac = fixed_mul(self.a, rhs.a);
        let bd = fixed_mul(self.b, rhs.b);
        let ad = fixed_mul(self.a, rhs.b);
        let bc = fixed_mul(self.b, rhs.a);
        Complex { a: ac - bd, b: ad + bc }
    }

    pub fn arg_sq(self) -> (r: i64)
        requires
            -COMPLEX_ARG_BOUND <= self.a <= COMPLEX_ARG_BOUND,
            -COMPLEX_ARG_BOUND <= self.b <= COMPLEX_ARG_BOUND,
        ensures
            r == arg_sq_spec(self@),
            r >= 0,
    {
        proof {
            let bb = 0x40_0000_0000int * 0x40_0000_0000int;
            lemma_product_bound(self.a as int, self.a as int, 0x40_0000_0000int);
            lemma_fixed_mul_bound(self.a as int, self.a as int, bb);
            lemma_product_bound(self.b as int, self.b as int, 0x40_0000_0000int);
            lemma_fixed_mul_bound(self.b as int, self.b as int, bb);
            lemma_square_nonneg(self.a as int);
            lemma_square_nonneg(self.b as int);
        }
        let aa = fixed_mul(self.a, self.a);
        let bb = fixed_mul(self.b, self.b);
        aa + bb
    }
}

} // verus!
