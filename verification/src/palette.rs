//! The periodic cosine palette. A palette input `t` covers one full color
//! cycle per 65536 units. Each channel is
//! `0.5 * cos(2*pi*(t + phase)) + 0.5` scaled to a byte by truncation toward
//! zero, never rounding. The cosine is evaluated over one quarter wave by a
//! degree-ten Taylor polynomial at a working precision of 2^24, then mirrored
//! by symmetry; its absolute error stays below 2/65536 (about 3e-5), so a
//! truncated byte can differ from the real-valued formula only where
//! `255 * channel` falls within that error of an integer boundary, and then
//! by one. The palette is exactly periodic and every byte lands in
//! `[0, 255]`.

use vstd::prelude::*;

verus! {

/// Phase offset of the red channel: 0.0 turns.
pub const PHASE_RED: i64 = 0;

/// Phase offset of the green channel: 0.1 turns in fixed point.
pub const PHASE_GREEN: i64 = 6554;

/// Phase offset of the blue channel: 0.2 turns in fixed point.
pub const PHASE_BLUE: i64 = 13107;

/// Largest palette input `color` accepts.
pub const COLOR_INPUT_MAX: i64 = 0x100_0000_0000;

/// The working scale of the cosine evaluation: 2^24 units per 1.0.
pub const COS_WORK_ONE: i64 = 16777216;

/// Taylor coefficients of `cos(2*pi*x)` in `y = x^2`, scaled by 2^24:
/// `-(2*pi)^2/2!`, `(2*pi)^4/4!`, `-(2*pi)^6/6!`, `(2*pi)^8/8!`,
/// `-(2*pi)^10/10!`.
pub const COS_COEFF_1: i64 = -331168970;

pub const COS_COEFF_2: i64 = 1089502240;

pub const COS_COEFF_3: i64 = -1433727481;

pub const COS_COEFF_4: i64 = 1010737361;

pub const COS_COEFF_5: i64 = -443359018;

/// A product scaled down by the working scale 2^24, rounded toward zero.
pub open spec fn mul_work_spec(a: int, b: int) -> int {
    if a * b >= 0 {
        (a * b) / (COS_WORK_ONE as int)
    } else {
        -((-(a * b)) / (COS_WORK_ONE as int))
    }
}

/// A quotient by 256 rounded toward zero: the step from the working scale
/// down to the palette scale of 2^16.
pub open spec fn down_spec(r: int) -> int {
    if r >= 0 {
        r / 256
    } else {
        -((-r) / 256)
    }
}

/// Cosine over the first quarter wave, for `u` in `[0, 16384]` turn units:
/// the Taylor polynomial in `y = x^2` evaluated by Horner's rule at working
/// precision, scaled down and held inside `[0, 65536]`.
pub open spec fn quarter_cos_spec(u: int) -> int {
    let y = (u * u) / 256;
    let h4 = COS_COEFF_4 + mul_work_spec(y, COS_COEFF_5 as int);
    let h3 = COS_COEFF_3 + mul_work_spec(y, h4);
    let h2 = COS_COEFF_2 + mul_work_spec(y, h3);
    let h1 = COS_COEFF_1 + mul_work_spec(y, h2);
    let r = down_spec(COS_WORK_ONE + mul_work_spec(y, h1));
    if r < 0 {
        0
    } else if r > 65536 {
        65536
    } else {
        r
    }
}

/// Cosine over turns of 65536 units, defined for every integer input by
/// reduction into one period and quarter-wave symmetry.
pub open spec fn cos_turns_spec(u: int) -> int {
    let v = u % 65536;
    if v < 16384 {
        quarter_cos_spec(v)
    } else if v < 32768 {
        -quarter_cos_spec(32768 - v)
    } else if v < 49152 {
        -quarter_cos_spec(v - 32768)
    } else {
        quarter_cos_spec(65536 - v)
    }
}

/// One palette channel: `0.5*cos(2*pi*(t+phase)) + 0.5`, scaled to a byte by
/// truncation toward zero.
pub open spec fn channel_byte_spec(t: int, phase: int) -> int {
    (255 * ((65536 + cos_turns_spec(t + phase)) / 2)) / 65536
}

/// The palette: three phase-shifted copies of the same cosine channel.
pub open spec fn palette_spec(t: int) -> (int, int, int) {
    (
        channel_byte_spec(t, PHASE_RED as int),
        channel_byte_spec(t, PHASE_GREEN as int),
        channel_byte_spec(t, PHASE_BLUE as int),
    )
}

/// The quarter wave stays within `[0, 65536]`.
pub proof fn lemma_quarter_cos_range(u: int)
    ensures
        0 <= quarter_cos_spec(u) <= 65536,
{
}

/// The cosine stays within one amplitude: `[-65536, 65536]`.
pub proof fn lemma_cos_range(u: int)
    ensures
        -65536 <= cos_turns_spec(u) <= 65536,
{
    let v = u % 65536;
    vstd::arithmetic::div_mod::lemma_mod_bound(u, 65536);
    if v < 16384 {
        lemma_quarter_cos_range(v);
    } else if v < 32768 {
        lemma_quarter_cos_range(32768 - v);
    } else if v < 49152 {
        lemma_quarter_cos_range(v - 32768);
    } else {
        lemma_quarter_cos_range(65536 - v);
    }
}

/// Every palette byte lies in `[0, 255]`.
pub proof fn lemma_channel_range(t: int, phase: int)
    ensures
        0 <= channel_byte_spec(t, phase) <= 255,
{
    lemma_cos_range(t + phase);
    let cv = cos_turns_spec(t + phase);
    let ch = (65536 + cv) / 2;
    vstd::arithmetic::div_mod::lemma_div_pos_is_pos(65536 + cv, 2);
    vstd::arithmetic::div_mod::lemma_div_is_ordered(65536 + cv, 131072, 2);
    assert(ch <= 65536);
    vstd::arithmetic::div_mod::lemma_div_pos_is_pos(255 * ch, 65536);
    vstd::arithmetic::div_mod::lemma_div_is_ordered(255 * ch, 255int * 65536int, 65536);
    assert((255int * 65536int) / 65536int == 255);
}

/// Palette periodicity: one full period of 65536 units (1.0 in fixed point)
/// returns the same color, for every integer input.
pub proof fn lemma_palette_periodic(t: int)
    ensures
        palette_spec(t + 65536) == palette_spec(t),
{
    assert forall|phase: int| #[trigger] channel_byte_spec(t + 65536, phase)
        == channel_byte_spec(t, phase) by {
        vstd::arithmetic::div_mod::lemma_mod_add_multiples_vanish(t + phase, 65536);
    }
}

/// Palette range: every channel of every color lies in `[0, 255]`.
pub proof fn lemma_palette_in_range(t: int)
    ensures
        0 <= palette_spec(t).0 <= 255,
        0 <= palette_spec(t).1 <= 255,
        0 <= palette_spec(t).2 <= 255,
{
    lemma_channel_range(t, PHASE_RED as int);
    lemma_channel_range(t, PHASE_GREEN as int);
    lemma_channel_range(t, PHASE_BLUE as int);
}

/// A Horner step never grows past 2^27 in magnitude: the factor `y` is at
/// most 1/16 of the working scale.
proof fn lemma_mul_work_step(y: int, x: int)
    requires
        0 <= y <= 0x10_0000,
        -0x8000_0000 <= x <= 0x8000_0000,
    ensures
        -0x800_0000 <= mul_work_spec(y, x) <= 0x800_0000,
{
    assert(-(0x10_0000int * 0x8000_0000int) <= y * x <= 0x10_0000int * 0x8000_0000int)
        by (nonlinear_arith)
        requires
            0 <= y <= 0x10_0000,
            -0x8000_0000 <= x <= 0x8000_0000,
    ;
    let one = COS_WORK_ONE as int;
    if y * x >= 0 {
        vstd::arithmetic::div_mod::lemma_div_pos_is_pos(y * x, one);
        vstd::arithmetic::div_mod::lemma_div_is_ordered(
            y * x,
            0x10_0000int * 0x8000_0000int,
            one,
        );
    } else {
        vstd::arithmetic::div_mod::lemma_div_pos_is_pos(-(y * x), one);
        vstd::arithmetic::div_mod::lemma_div_is_ordered(
            -(y * x),
            0x10_0000int * 0x8000_0000int,
            one,
        );
    }
    assert((0x10_0000int * 0x8000_0000int) / (COS_WORK_ONE as int) == 0x800_0000);
}

/// Truncating product at the working scale; all operands stay far inside
/// 64 bits, so the magnitudes multiply in a `u64`.
fn mul_work(a: i64, b: i64) -> (r: i64)
    requires
        -0x8000_0000 <= a <= 0x8000_0000,
        -0x8000_0000 <= b <= 0x8000_0000,
    ensures
        r == mul_work_spec(a as int, b as int),
{
    let neg: bool = (a < 0) != (b < 0);
    let am: u64 = if a < 0 { (-a) as u64 } else { a as u64 };
    let bm: u64 = if b < 0 { (-b) as u64 } else { b as u64 };
    proof {
        assert(am == if a < 0 { -(a as int) } else { a as int });
        assert(bm == if b < 0 { -(b as int) } else { b as int });
        assert((am as int) * (bm as int) <= 0x8000_0000int * 0x8000_0000int)
            by (nonlinear_arith)
            requires
                am <= 0x8000_0000,
                bm <= 0x8000_0000,
        ;
        assert((am as int) * (bm as int) == if (a as int) * (b as int) >= 0 {
            (a as int) * (b as int)
        } else {
            -((a as int) * (b as int))
        }) by (nonlinear_arith)
            requires
                am == if a < 0 { -(a as int) } else { a as int },
                bm == if b < 0 { -(b as int) } else { b as int },
        ;
    }
    let p: u64 = am * bm;
    let q: u64 = p / (COS_WORK_ONE as u64);
    proof {
        vstd::arithmetic::div_mod::lemma_div_pos_is_pos(p as int, COS_WORK_ONE as int);
        vstd::arithmetic::div_mod::lemma_div_nonincreasing(p as int, COS_WORK_ONE as int);
    }
    let qi: i64 = q as i64;
    let r: i64 = if neg { -qi } else { qi };
    proof {
        let ab = (a as int) * (b as int);
        if neg {
            if ab >= 0 {
                // one operand is zero, so the product is zero
                assert(ab == 0 && q == 0) by (nonlinear_arith)
                    requires
                        ab == (a as int) * (b as int),
                        (a < 0) != (b < 0),
                        ab >= 0,
                        q == (if ab >= 0 { ab } else { -ab }) / (COS_WORK_ONE as int),
                ;
            }
        } else {
            assert(ab >= 0) by (nonlinear_arith)
                requires
                    ab == (a as int) * (b as int),
                    !((a < 0) != (b < 0)),
            ;
        }
    }
    r
}

/// Cosine over the first quarter wave, `u` in `[0, 16384]` turn units.
fn quarter_cos(u: u64) -> (r: i64)
    requires
        u <= 16384,
    ensures
        r == quarter_cos_spec(u as int),
        0 <= r <= 65536,
{
    proof {
        assert(u * u <= 16384 * 16384) by (nonlinear_arith)
            requires
                u <= 16384,
        ;
    }
    let y_u: u64 = (u * u) / 256;
    proof {
        vstd::arithmetic::div_mod::lemma_div_pos_is_pos(u as int * u as int, 256);
        vstd::arithmetic::div_mod::lemma_div_is_ordered(
            u as int * u as int,
            16384int * 16384int,
            256,
        );
        assert((16384int * 16384int) / 256int == 0x10_0000);
    }
    let y: i64 = y_u as i64;
    proof {
        lemma_mul_work_step(y as int, COS_COEFF_5 as int);
    }
    let h4: i64 = COS_COEFF_4 + mul_work(y, COS_COEFF_5);
    proof {
        lemma_mul_work_step(y as int, h4 as int);
    }
    let h3: i64 = COS_COEFF_3 + mul_work(y, h4);
    proof {
        lemma_mul_work_step(y as int, h3 as int);
    }
    let h2: i64 = COS_COEFF_2 + mul_work(y, h3);
    proof {
        lemma_mul_work_step(y as int, h2 as int);
    }
    let h1: i64 = COS_COEFF_1 + mul_work(y, h2);
    proof {
        lemma_mul_work_step(y as int, h1 as int);
    }
    let r24: i64 = COS_WORK_ONE + mul_work(y, h1);
    let r16: i64 = if r24 >= 0 {
        proof {
            vstd::arithmetic::div_mod::lemma_div_pos_is_pos(r24 as int, 256);
            vstd::arithmetic::div_mod::lemma_div_nonincreasing(r24 as int, 256);
        }
        ((r24 as u64) / 256) as i64
    } else {
        proof {
            vstd::arithmetic::div_mod::lemma_div_pos_is_pos(-(r24 as int), 256);
            vstd::arithmetic::div_mod::lemma_div_nonincreasing(-(r24 as int), 256);
        }
        -((((-r24) as u64) / 256) as i64)
    };
    proof {
        assert(r16 == down_spec(r24 as int));
    }
    if r16 < 0 {
        0
    } else if r16 > 65536 {
        65536
    } else {
        r16
    }
}

fn channel(t: i64, phase: i64) -> (r: u8)
    requires
        0 <= t <= COLOR_INPUT_MAX,
        0 <= phase < 65536,
    ensures
        r == channel_byte_spec(t as int, phase as int),
{
    proof {
        lemma_channel_range(t as int, phase as int);
        vstd::arithmetic::div_mod::lemma_mod_bound(t + phase, 65536);
    }
    let s: u64 = (t + phase) as u64;
    let v: u64 = s % 65536;
    let cv: i64 = if v < 16384 {
        quarter_cos(v)
    } else if v < 32768 {
        -quarter_cos(32768 - v)
    } else if v < 49152 {
        -quarter_cos(v - 32768)
    } else {
        quarter_cos(65536 - v)
    };
    proof {
        assert(cv == cos_turns_spec(t + phase));
    }
    let ch: u64 = ((65536 + cv) as u64) / 2;
    let byte: u64 = (255 * ch) / 65536;
    byte as u8
}

/// The palette function: maps a fixed-point scalar to an RGB triple. One
/// color cycle per 65536 units; bytes are truncated toward zero, never
/// rounded.
pub fn color(t: i64) -> (r: (u8, u8, u8))
    requires
        0 <= t <= COLOR_INPUT_MAX,
    ensures
        (r.0 as int, r.1 as int, r.2 as int) == palette_spec(t as int),
{
    (channel(t, PHASE_RED), channel(t, PHASE_GREEN), channel(t, PHASE_BLUE))
}

} // verus!
