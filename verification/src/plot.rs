//! The screen-to-plane coordinate mapping: a viewport is a center point plus
//! a plane width; a pixel advances by the uniform plane step
//! `plane_width / pixel_width` per column and per row, so non-square buffers
//! stretch rather than rescale the vertical axis. Each offset is computed as
//! `(coordinate * plane_width) / pixel_width` — multiply first, divide once —
//! so the flooring error of a mapped point stays under one fixed-point unit.

use vstd::prelude::*;

verus! {

/// Largest center-coordinate magnitude a viewport accepts: 256.0 fixed.
pub const CENTER_BOUND: i64 = 0x100_0000;

/// Largest pixel dimension a viewport accepts.
pub const SCREEN_DIM_MAX: u32 = 8192;

/// Horizontal plane span of the viewport: 4.0 in fixed point.
pub const DEFAULT_PLANE_WIDTH: i64 = 262144;

/// A point of the plane in fixed-point coordinates.
#[derive(Clone, Copy, Debug, PartialEq, Eq, Structural)]
pub struct Point {
    pub x: i64,
    pub y: i64,
}

/// Plane height of a viewport: the plane width scaled by the pixel aspect
/// ratio, rounded down to a fixed-point unit.
pub open spec fn plane_height_spec(width: int, pw: int, ph: int) -> int {
    (width * ph) / pw
}

/// Plane offset of a pixel coordinate: `coord * width / pw`, rounded toward
/// zero.
pub open spec fn pixel_offset_spec(coord: int, width: int, pw: int) -> int {
    if coord >= 0 {
        (coord * width) / pw
    } else {
        -(((-coord) * width) / pw)
    }
}

/// A viewport: center, plane spans, top-left corner, pixel width, and the
/// nominal per-pixel increment.
pub struct FractalPlot {
    pub center: Point,
    pub width: i64,
    pub height: i64,
    pub init_x: i64,
    pub init_y: i64,
    pub inc: i64,
    pub pixel_width: u32,
}

impl FractalPlot {
    /// Field bounds that every constructed viewport satisfies; they keep
    /// `getPoint` free of overflow.
    pub open spec fn wf(self) -> bool {
        &&& 0 < self.width <= 0x10_0000
        &&& 0 <= self.height <= 0x2_0000_0000
        &&& -CENTER_BOUND <= self.center.x <= CENTER_BOUND
        &&& -CENTER_BOUND <= self.center.y <= CENTER_BOUND
        &&& -0x200_0000 <= self.init_x <= 0x200_0000
        &&& -0x4_0000_0000 <= self.init_y <= 0x4_0000_0000
        &&& 0 <= self.inc <= self.width
        &&& 1 <= self.pixel_width <= SCREEN_DIM_MAX
    }

    /// Build the viewport for a screen of `screen_size` pixels centered at
    /// `center`, with the fixed plane span `DEFAULT_PLANE_WIDTH`.
    pub fn new(center: Point, screen_size: (u32, u32)) -> (r: Self)
        requires
            1 <= screen_size.0 <= SCREEN_DIM_MAX,
            1 <= screen_size.1 <= SCREEN_DIM_MAX,
            -CENTER_BOUND <= center.x <= CENTER_BOUND,
            -CENTER_BOUND <= center.y <= CENTER_BOUND,
        ensures
            r.center == center,
            r.width == DEFAULT_PLANE_WIDTH,
            r.height == plane_height_spec(
                DEFAULT_PLANE_WIDTH as int,
                screen_size.0 as int,
                screen_size.1 as int,
            ),
            r.init_x == center.x - DEFAULT_PLANE_WIDTH / 2,
            r.init_y == center.y - r.height / 2,
            r.inc == DEFAULT_PLANE_WIDTH as int / screen_size.0 as int,
            r.pixel_width == screen_size.0,
            r.wf(),
    {
        let pw = screen_size.0;
        let ph = screen_size.1;
        let width: i64 = DEFAULT_PLANE_WIDTH;
        let height_u: u64 = (262144u64 * (ph as u64)) / (pw as u64);
        proof {
            vstd::arithmetic::div_mod::lemma_div_pos_is_pos(
                262144 * (ph as int),
                pw as int,
            );
            vstd::arithmetic::div_mod::lemma_div_is_ordered(
                262144 * (ph as int),
                262144int * 8192int,
                pw as int,
            );
            vstd::arithmetic::div_mod::lemma_div_nonincreasing(262144int * 8192int, pw as int);
        }
        let height: i64 = height_u as i64;
        let half_height: i64 = (height_u / 2) as i64;
        let init_x: i64 = center.x - 131072;
        let init_y: i64 = center.y - half_height;
        let inc: i64 = (262144u64 / (pw as u64)) as i64;
        proof {
            vstd::arithmetic::div_mod::lemma_div_pos_is_pos(262144, pw as int);
            vstd::arithmetic::div_mod::lemma_div_nonincreasing(262144, pw as int);
        }
        FractalPlot { center, width, height, init_x, init_y, inc, pixel_width: pw }
    }

    /// Map a screen coordinate (column, row) to its plane point: the
    /// top-left corner plus `coord * width / pixel_width` per axis.
    #[allow(non_snake_case)]
    pub fn getPoint(&self, screen_coordinate: (i16, i16)) -> (r: (i64, i64))
        requires
            self.wf(),
        ensures
            r.0 == self.init_x + pixel_offset_spec(
                screen_coordinate.0 as int,
                self.width as int,
                self.pixel_width as int,
            ),
            r.1 == self.init_y + pixel_offset_spec(
                screen_coordinate.1 as int,
                self.width as int,
                self.pixel_width as int,
            ),
    {
        let u = self.init_x + pixel_offset(screen_coordinate.0, self.width, self.pixel_width);
        let v = self.init_y + pixel_offset(screen_coordinate.1, self.width, self.pixel_width);
        (u, v)
    }
}

/// Plane offset of one pixel coordinate, magnitudes multiplied in a `u64`
/// and divided once by the pixel width.
fn pixel_offset(coord: i16, width: i64, pixel_width: u32) -> (r: i64)
    requires
        0 < width <= 0x10_0000,
        1 <= pixel_width,
    ensures
        r == pixel_offset_spec(coord as int, width as int, pixel_width as int),
        -0x8_0000_0000 <= r <= 0x8_0000_0000,
{
    let m: u64 = if coord < 0 {
        (-(coord as i64)) as u64
    } else {
        coord as u64
    };
    proof {
        assert(m as int * width as int <= 32768 * 0x10_0000) by (nonlinear_arith)
            requires
                m <= 32768,
                0 < width <= 0x10_0000,
        ;
    }
    let p: u64 = m * (width as u64);
    let off_u: u64 = p / (pixel_width as u64);
    proof {
        vstd::arithmetic::div_mod::lemma_div_pos_is_pos(p as int, pixel_width as int);
        vstd::arithmetic::div_mod::lemma_div_nonincreasing(p as int, pixel_width as int);
    }
    let off: i64 = off_u as i64;
    if coord < 0 {
        -off
    } else {
        off
    }
}

/// Flooring slack of the last column: for any plane width `w > 0` and pixel
/// width `pw >= 1`, the offset of column `pw - 1` stays below `w` and within
/// `w/pw + 1` of it — the full span, short of the last increment, with under
/// one unit of rounding.
pub proof fn lemma_last_column_offset(w: int, pw: int)
    requires
        0 < w,
        1 <= pw,
    ensures
        0 <= (pw - 1) * w / pw < w,
        w - (pw - 1) * w / pw <= w / pw + 1,
{
    assert((pw - 1) * w == pw * w - w) by (nonlinear_arith);
    assert((pw - 1) * w >= 0) by (nonlinear_arith)
        requires
            0 < w,
            1 <= pw,
    ;
    let n = (pw - 1) * w;
    let q = n / pw;
    let inc = w / pw;
    vstd::arithmetic::div_mod::lemma_fundamental_div_mod(n, pw);
    vstd::arithmetic::div_mod::lemma_mod_bound(n, pw);
    vstd::arithmetic::div_mod::lemma_div_pos_is_pos(n, pw);
    vstd::arithmetic::div_mod::lemma_fundamental_div_mod(w, pw);
    vstd::arithmetic::div_mod::lemma_mod_bound(w, pw);
    vstd::arithmetic::div_mod::lemma_div_pos_is_pos(w, pw);
    let r = n % pw;
    let rw = w % pw;
    assert(pw * (w - q) == pw * w - pw * q) by (nonlinear_arith);
    assert(pw * (w - q) == w + r);
    // upper slack: pw*(w - q) <= pw*inc + 2*pw - 2 < pw*(inc + 2)
    assert(pw * (w - q) < pw * (inc + 2)) by (nonlinear_arith)
        requires
            pw * (w - q) == w + r,
            w == pw * inc + rw,
            r < pw,
            rw < pw,
            1 <= pw,
    ;
    assert(w - q < inc + 2) by (nonlinear_arith)
        requires
            pw * (w - q) < pw * (inc + 2),
            1 <= pw,
    ;
    // the offset never reaches the full span: pw*(w - q) >= w >= 1
    assert(w - q >= 1) by (nonlinear_arith)
        requires
            pw * (w - q) == w + r,
            0 <= r,
            1 <= w,
            1 <= pw,
    ;
}

} // verus!
