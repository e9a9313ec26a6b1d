//! The escape-time iteration: `z <- z*z + c` from `z = 0`, stopping once the
//! squared magnitude reaches the escape threshold or the iteration cap.

use vstd::prelude::*;
use crate::complex::{arg_sq_spec, cadd_spec, cmul_spec, lemma_square_nonneg, Complex};
use crate::fixed::{fixed_mul_spec, FIXED_ONE};

verus! {

/// Largest coordinate magnitude `mandelbrot` accepts for `c`.
pub const ESCAPE_COORD_BOUND: i64 = 0x4_0000_0000;

/// Largest escape threshold `mandelbrot` accepts.
pub const ESCAPE_THRESHOLD_MAX: i64 = 0x10_0000_0000;

/// Largest iteration cap `mandelbrot` accepts.
pub const MAX_ITERATIONS_LIMIT: u32 = 65536;

/// Iteration cap of the reference configuration.
pub const DEFAULT_MAX_ITERATIONS: u32 = 256;

/// Escape threshold of the reference configuration: 32.0 in fixed point.
pub const DEFAULT_ESCAPE_THRESHOLD: i64 = 2097152;

/// Bound on the components of every intermediate `z` the iteration visits.
pub const ESCAPE_Z_BOUND: i64 = 0x14_0000_0004;

/// One step of the iteration: `z*z + c`.
pub open spec fn escape_step(z: (int, int), c: (int, int)) -> (int, int) {
    cadd_spec(cmul_spec(z, z), c)
}

/// The `n`-th iterate: `iterate(c, 0) = 0`, `iterate(c, n) = iterate(c, n-1)^2 + c`.
pub open spec fn iterate(c: (int, int), n: int) -> (int, int)
    decreases n,
{
    if n <= 0 {
        (0, 0)
    } else {
        escape_step(iterate(c, n - 1), c)
    }
}

/// The step at which the loop stops, scanning upward from step `i`:
/// the first `j >= i` whose iterate has squared magnitude at least `t`,
/// capped at `max`.
pub open spec fn steps_from(c: (int, int), i: int, max: int, t: int) -> int
    decreases max - i,
{
    if i >= max {
        max
    } else if arg_sq_spec(iterate(c, i)) >= t {
        i
    } else {
        steps_from(c, i + 1, max, t)
    }
}

/// How many iterations the escape loop performs for point `c` with cap `max`
/// and threshold `t`.
pub open spec fn escape_steps(c: (int, int), max: int, t: int) -> int {
    steps_from(c, 0, max, t)
}

proof fn lemma_steps_from_props(c: (int, int), i: int, max: int, t: int)
    requires
        0 <= i <= max,
    ensures
        i <= steps_from(c, i, max, t) <= max,
        forall|j: int|
            i <= j < steps_from(c, i, max, t) ==> arg_sq_spec(iterate(c, j)) < t,
        steps_from(c, i, max, t) < max ==> arg_sq_spec(
            iterate(c, steps_from(c, i, max, t)),
        ) >= t,
    decreases max - i,
{
    if i < max && arg_sq_spec(iterate(c, i)) < t {
        lemma_steps_from_props(c, i + 1, max, t);
    }
}

/// `escape_steps` stops between 0 and `max`; every earlier iterate stays
/// under the threshold; stopping early means the threshold was reached.
pub proof fn lemma_escape_steps_props(c: (int, int), max: int, t: int)
    requires
        0 <= max,
    ensures
        0 <= escape_steps(c, max, t) <= max,
        forall|j: int|
            0 <= j < escape_steps(c, max, t) ==> arg_sq_spec(iterate(c, j)) < t,
        escape_steps(c, max, t) < max ==> arg_sq_spec(
            iterate(c, escape_steps(c, max, t)),
        ) >= t,
{
    lemma_steps_from_props(c, 0, max, t);
}

/// Squared magnitude below `t` keeps both components below 2^27 units.
proof fn lemma_mag_component_bound(a: int, b: int, t: int)
    requires
        arg_sq_spec((a, b)) < t,
        0 < t <= ESCAPE_THRESHOLD_MAX,
    ensures
        -0x800_0000 <= a <= 0x800_0000,
        -0x800_0000 <= b <= 0x800_0000,
        a * a + b * b < (FIXED_ONE as int) * (t + 2),
{
    let one = FIXED_ONE as int;
    lemma_square_nonneg(a);
    lemma_square_nonneg(b);
    vstd::arithmetic::div_mod::lemma_fundamental_div_mod(a * a, one);
    vstd::arithmetic::div_mod::lemma_mod_bound(a * a, one);
    vstd::arithmetic::div_mod::lemma_fundamental_div_mod(b * b, one);
    vstd::arithmetic::div_mod::lemma_mod_bound(b * b, one);
    assert(a * a + b * b < one * (t + 2)) by (nonlinear_arith)
        requires
            a * a == one * ((a * a) / one) + (a * a) % one,
            b * b == one * ((b * b) / one) + (b * b) % one,
            (a * a) / one + (b * b) / one < t,
            0 <= (a * a) / one,
            0 <= (b * b) / one,
            (a * a) % one < one,
            (b * b) % one < one,
            one == 65536,
    ;
    assert(-0x800_0000 <= a <= 0x800_0000 && -0x800_0000 <= b <= 0x800_0000)
        by (nonlinear_arith)
        requires
            a * a + b * b < one * (t + 2),
            0 <= a * a,
            0 <= b * b,
            t <= 0x10_0000_0000,
            one == 65536,
    ;
}

/// Magnitude of a scaled product, against the plain product:
/// `|fixed_mul_spec(x, y)| * FIXED_ONE <= |x * y|`.
proof fn lemma_fixed_mul_shrinks(x: int, y: int)
    ensures
        (FIXED_ONE as int) * fixed_mul_spec(x, y) <= if x * y >= 0 {
            x * y
        } else {
            -(x * y)
        },
        -(if x * y >= 0 {
            x * y
        } else {
            -(x * y)
        }) <= (FIXED_ONE as int) * fixed_mul_spec(x, y),
{
    let one = FIXED_ONE as int;
    if x * y >= 0 {
        vstd::arithmetic::div_mod::lemma_fundamental_div_mod(x * y, one);
        vstd::arithmetic::div_mod::lemma_mod_bound(x * y, one);
        vstd::arithmetic::div_mod::lemma_div_pos_is_pos(x * y, one);
    } else {
        vstd::arithmetic::div_mod::lemma_fundamental_div_mod(-(x * y), one);
        vstd::arithmetic::div_mod::lemma_mod_bound(-(x * y), one);
        vstd::arithmetic::div_mod::lemma_div_pos_is_pos(-(x * y), one);
    }
}

/// While the iterate's squared magnitude stays under the threshold, the next
/// step's components stay within `t + |c| + 4` units.
proof fn lemma_step_component_bound(z: (int, int), c: (int, int), t: int)
    requires
        arg_sq_spec(z) < t,
        0 < t <= ESCAPE_THRESHOLD_MAX,
        -ESCAPE_COORD_BOUND <= c.0 <= ESCAPE_COORD_BOUND,
        -ESCAPE_COORD_BOUND <= c.1 <= ESCAPE_COORD_BOUND,
    ensures
        -ESCAPE_Z_BOUND <= escape_step(z, c).0 <= ESCAPE_Z_BOUND,
        -ESCAPE_Z_BOUND <= escape_step(z, c).1 <= ESCAPE_Z_BOUND,
{
    let one = FIXED_ONE as int;
    let a = z.0;
    let b = z.1;
    lemma_mag_component_bound(a, b, t);
    lemma_square_nonneg(a);
    lemma_square_nonneg(b);
    // real part: both squares are nonnegative and sum below t
    assert(fixed_mul_spec(a, a) < t);
    assert(fixed_mul_spec(b, b) < t);
    // imaginary part: |a*b| is at most (a*a + b*b) / 2
    assert(2 * (a * b) <= a * a + b * b && -(a * a + b * b) <= 2 * (a * b))
        by (nonlinear_arith);
    lemma_fixed_mul_shrinks(a, b);
    lemma_fixed_mul_shrinks(b, a);
    assert(2 * one * fixed_mul_spec(a, b) < one * (t + 2) && -(one * (t + 2)) < 2 * one
        * fixed_mul_spec(a, b)) by (nonlinear_arith)
        requires
            one * fixed_mul_spec(a, b) <= (if a * b >= 0 { a * b } else { -(a * b) }),
            -(if a * b >= 0 { a * b } else { -(a * b) }) <= one * fixed_mul_spec(a, b),
            2 * (a * b) <= a * a + b * b,
            -(a * a + b * b) <= 2 * (a * b),
            a * a + b * b < one * (t + 2),
            0 <= a * a + b * b,
            one == 65536,
    ;
    assert(2 * fixed_mul_spec(a, b) < t + 2 && -(t + 2) < 2 * fixed_mul_spec(a, b))
        by (nonlinear_arith)
        requires
            2 * one * fixed_mul_spec(a, b) < one * (t + 2),
            -(one * (t + 2)) < 2 * one * fixed_mul_spec(a, b),
            one == 65536,
    ;
    assert(fixed_mul_spec(b, a) == fixed_mul_spec(a, b)) by {
        assert(b * a == a * b) by (nonlinear_arith);
    }
}

/// The first iterate is `c` itself: `iterate(c, 1) == c`.
pub proof fn lemma_first_iterate(c: (int, int))
    ensures
        iterate(c, 1) == c,
        arg_sq_spec(iterate(c, 0)) == 0,
{
    vstd::arithmetic::div_mod::lemma_div_of0(FIXED_ONE as int);
    assert(iterate(c, 0) == (0int, 0int));
    assert(iterate(c, 1) == escape_step(iterate(c, 0), c));
}

/// A point whose squared magnitude is already at the threshold escapes after
/// exactly one iteration; with the reference threshold this covers every
/// point with `|c| > 6`, whose squared magnitude exceeds 36.0.
pub proof fn lemma_far_point_escapes_immediately(c: (int, int), max: int, t: int)
    requires
        1 <= max,
        0 < t,
        arg_sq_spec(c) >= t,
    ensures
        escape_steps(c, max, t) == 1,
{
    lemma_first_iterate(c);
    assert(steps_from(c, 0, max, t) == steps_from(c, 1, max, t));
}

/// Guaranteed divergence: any point whose true squared magnitude is at
/// least 36 — that is, `|c| >= 6` in plane units, `c.0^2 + c.1^2` at least
/// `36 * FIXED_ONE^2` in fixed-point units — escapes the reference
/// threshold of 32.0 after exactly one iteration, far fewer than the cap.
pub proof fn lemma_big_magnitude_escapes(c: (int, int), max: int)
    requires
        1 <= max,
        c.0 * c.0 + c.1 * c.1 >= 36 * 65536 * 65536,
    ensures
        escape_steps(c, max, DEFAULT_ESCAPE_THRESHOLD as int) == 1,
{
    let one = FIXED_ONE as int;
    lemma_square_nonneg(c.0);
    lemma_square_nonneg(c.1);
    vstd::arithmetic::div_mod::lemma_fundamental_div_mod(c.0 * c.0, one);
    vstd::arithmetic::div_mod::lemma_mod_bound(c.0 * c.0, one);
    vstd::arithmetic::div_mod::lemma_fundamental_div_mod(c.1 * c.1, one);
    vstd::arithmetic::div_mod::lemma_mod_bound(c.1 * c.1, one);
    assert(arg_sq_spec(c) >= DEFAULT_ESCAPE_THRESHOLD as int) by (nonlinear_arith)
        requires
            c.0 * c.0 == one * ((c.0 * c.0) / one) + (c.0 * c.0) % one,
            c.1 * c.1 == one * ((c.1 * c.1) / one) + (c.1 * c.1) % one,
            (c.0 * c.0) % one < one,
            (c.1 * c.1) % one < one,
            c.0 * c.0 + c.1 * c.1 >= 36 * 65536 * 65536,
            arg_sq_spec(c) == (c.0 * c.0) / one + (c.1 * c.1) / one,
            one == 65536,
    ;
    lemma_far_point_escapes_immediately(c, max, DEFAULT_ESCAPE_THRESHOLD as int);
}

proof fn lemma_iterate_origin(n: int)
    ensures
        iterate((0, 0), n) == (0int, 0int),
        arg_sq_spec(iterate((0, 0), n)) == 0,
    decreases n,
{
    vstd::arithmetic::div_mod::lemma_div_of0(FIXED_ONE as int);
    if n > 0 {
        lemma_iterate_origin(n - 1);
    }
}

proof fn lemma_origin_steps_from(i: int, max: int, t: int)
    requires
        0 <= i <= max,
        0 < t,
    ensures
        steps_from((0, 0), i, max, t) == max,
    decreases max - i,
{
    if i < max {
        lemma_iterate_origin(i);
        lemma_origin_steps_from(i + 1, max, t);
    }
}

/// The origin lies in the Mandelbrot set: the iteration never escapes, for
/// any positive threshold, and runs to the cap.
pub proof fn lemma_origin_never_escapes(max: int, t: int)
    requires
        0 <= max,
        0 < t,
    ensures
        escape_steps((0, 0), max, t) == max,
{
    lemma_origin_steps_from(0, max, t);
}

/// The point `2 + 2i` (131072 units per axis) escapes at the second
/// iteration under the reference threshold — well within the first five.
pub proof fn lemma_two_two_escapes_fast(max: int)
    requires
        2 <= max,
    ensures
        escape_steps((131072, 131072), max, DEFAULT_ESCAPE_THRESHOLD as int) == 2,
{
    let c = (131072int, 131072int);
    let t = DEFAULT_ESCAPE_THRESHOLD as int;
    lemma_first_iterate(c);
    assert(fixed_mul_spec(131072, 131072) == 262144) by {
        assert(131072int * 131072int == 17179869184) by (nonlinear_arith);
        assert(17179869184int / 65536int == 262144);
    }
    assert(arg_sq_spec(iterate(c, 1)) == 524288);
    assert(iterate(c, 2) == escape_step(iterate(c, 1), c));
    assert(iterate(c, 2) == (131072int, 655360int));
    assert(fixed_mul_spec(655360, 655360) == 6553600) by {
        assert(655360int * 655360int == 429496729600) by (nonlinear_arith);
        assert(429496729600int / 65536int == 6553600);
    }
    assert(arg_sq_spec(iterate(c, 2)) == 6815744);
    assert(steps_from(c, 0, max, t) == steps_from(c, 1, max, t));
    assert(steps_from(c, 1, max, t) == steps_from(c, 2, max, t));
    assert(steps_from(c, 2, max, t) == 2);
}

/// What the escape loop returns: the step count and the squared magnitude of
/// the iterate it stopped at.
#[derive(Clone, Copy, Debug, PartialEq, Eq, Structural)]
pub struct EscapeResult {
    pub iterations: u32,
    pub mag_sq: i64,
}

/// Escape-time evaluation at the fixed-point plane point `(x, y)`.
///
/// Iterates `z <- z*z + c` from `z = 0` with `c = x + y*i`, stopping as soon
/// as the squared magnitude of `z` reaches `threshold` or after
/// `max_iterations` steps. Returns the number of steps performed together
/// with the squared magnitude of the final iterate, which the host layer
/// feeds into its smooth-coloring formula.
pub fn mandelbrot(x: i64, y: i64, max_iterations: u32, threshold: i64) -> (r: EscapeResult)
    requires
        -ESCAPE_COORD_BOUND <= x <= ESCAPE_COORD_BOUND,
        -ESCAPE_COORD_BOUND <= y <= ESCAPE_COORD_BOUND,
        0 < threshold <= ESCAPE_THRESHOLD_MAX,
        max_iterations <= MAX_ITERATIONS_LIMIT,
    ensures
        r.iterations <= max_iterations,
        r.iterations == escape_steps(
            (x as int, y as int),
            max_iterations as int,
            threshold as int,
        ),
        r.mag_sq == arg_sq_spec(iterate((x as int, y as int), r.iterations as int)),
        r.mag_sq >= 0,
{
    let c = Complex { a: x, b: y };
    let ghost cv: (int, int) = (x as int, y as int);
    let ghost tv: int = threshold as int;
    let ghost maxv: int = max_iterations as int;
    let mut z = Complex { a: 0, b: 0 };
    let mut i: u32 = 0;
    proof {
        lemma_square_nonneg(0);
    }
    let mut m: i64 = z.arg_sq();
    while i < max_iterations && m < threshold
        invariant
            0 <= i <= max_iterations,
            max_iterations <= MAX_ITERATIONS_LIMIT,
            0 < threshold <= ESCAPE_THRESHOLD_MAX,
            -ESCAPE_COORD_BOUND <= x <= ESCAPE_COORD_BOUND,
            -ESCAPE_COORD_BOUND <= y <= ESCAPE_COORD_BOUND,
            c.a == x && c.b == y,
            cv == (x as int, y as int),
            tv == threshold as int,
            maxv == max_iterations as int,
            z@ == iterate(cv, i as int),
            m == arg_sq_spec(iterate(cv, i as int)),
            m >= 0,
            -ESCAPE_Z_BOUND <= z.a <= ESCAPE_Z_BOUND,
            -ESCAPE_Z_BOUND <= z.b <= ESCAPE_Z_BOUND,
            steps_from(cv, i as int, maxv, tv) == escape_steps(cv, maxv, tv),
        decreases max_iterations - i,
    {
        proof {
            lemma_mag_component_bound(z.a as int, z.b as int, tv);
            lemma_step_component_bound(z@, cv, tv);
        }
        z = z.mul(z).add(c);
        i = i + 1;
        m = z.arg_sq();
        proof {
            assert(iterate(cv, i as int) == escape_step(iterate(cv, i as int - 1), cv));
        }
    }
    proof {
        if i < max_iterations {
            assert(steps_from(cv, i as int, maxv, tv) == i as int);
        } else {
            assert(steps_from(cv, i as int, maxv, tv) == maxv);
        }
    }
    EscapeResult { iterations: i, mag_sq: m }
}

} // verus!
