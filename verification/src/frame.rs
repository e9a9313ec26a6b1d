//! The per-frame driver. A frame is rendered in two verified passes around
//! the host's floating-point smoothing step: `escape_grid` evaluates the
//! escape-time iteration for every pixel of the viewport, and `fill_frame`
//! turns one palette input per pixel into the RGBA bytes of the buffer.

use vstd::prelude::*;
use crate::complex::arg_sq_spec;
use crate::escape::{
    escape_steps, iterate, mandelbrot, EscapeResult, ESCAPE_COORD_BOUND,
    ESCAPE_THRESHOLD_MAX, MAX_ITERATIONS_LIMIT,
};
use crate::palette::{color, palette_spec, COLOR_INPUT_MAX};
use crate::plot::{
    lemma_last_column_offset, pixel_offset_spec, plane_height_spec, Point, CENTER_BOUND,
    SCREEN_DIM_MAX,
};

verus! {

/// Everything one frame depends on: buffer dimensions, viewport, iteration
/// cap and escape threshold.
#[derive(Clone, Copy, Debug, PartialEq, Eq, Structural)]
pub struct RenderConfig {
    pub pixel_width: u32,
    pub pixel_height: u32,
    pub plane_width: i64,
    pub center: Point,
    pub max_iterations: u32,
    pub escape_threshold: i64,
}

impl RenderConfig {
    /// The bounds a frame can actually be rendered under.
    pub open spec fn wf(self) -> bool {
        &&& 1 <= self.pixel_width <= SCREEN_DIM_MAX
        &&& 1 <= self.pixel_height <= SCREEN_DIM_MAX
        &&& 0 < self.plane_width <= 0x10_0000
        &&& -CENTER_BOUND <= self.center.x <= CENTER_BOUND
        &&& -CENTER_BOUND <= self.center.y <= CENTER_BOUND
        &&& 1 <= self.max_iterations <= MAX_ITERATIONS_LIMIT
        &&& 0 < self.escape_threshold <= ESCAPE_THRESHOLD_MAX
    }

    /// The configuration record these six values describe.
    pub open spec fn of_values(
        pixel_width: u32,
        pixel_height: u32,
        plane_width: i64,
        center: Point,
        max_iterations: u32,
        escape_threshold: i64,
    ) -> RenderConfig {
        RenderConfig {
            pixel_width,
            pixel_height,
            plane_width,
            center,
            max_iterations,
            escape_threshold,
        }
    }

    /// Validate a configuration; a degenerate one (zero pixel dimensions,
    /// non-positive plane width or threshold, out-of-range center or cap) is
    /// rejected rather than rendered.
    pub fn new(
        pixel_width: u32,
        pixel_height: u32,
        plane_width: i64,
        center: Point,
        max_iterations: u32,
        escape_threshold: i64,
    ) -> (r: Option<RenderConfig>)
        ensures
            (r is Some <==> RenderConfig::of_values(
                pixel_width,
                pixel_height,
                plane_width,
                center,
                max_iterations,
                escape_threshold,
            ).wf()),
            (r matches Some(c) ==> c == RenderConfig::of_values(
                pixel_width,
                pixel_height,
                plane_width,
                center,
                max_iterations,
                escape_threshold,
            )),
    {
        if 1 <= pixel_width && pixel_width <= SCREEN_DIM_MAX && 1 <= pixel_height
            && pixel_height <= SCREEN_DIM_MAX && 0 < plane_width && plane_width <= 0x10_0000
            && -CENTER_BOUND <= center.x && center.x <= CENTER_BOUND && -CENTER_BOUND <= center.y
            && center.y <= CENTER_BOUND && 1 <= max_iterations
            && max_iterations <= MAX_ITERATIONS_LIMIT && 0 < escape_threshold
            && escape_threshold <= ESCAPE_THRESHOLD_MAX {
            Some(
                RenderConfig {
                    pixel_width,
                    pixel_height,
                    plane_width,
                    center,
                    max_iterations,
                    escape_threshold,
                },
            )
        } else {
            None
        }
    }
}

/// Per-pixel plane step of a configuration.
pub open spec fn increment_spec(cfg: RenderConfig) -> int {
    cfg.plane_width as int / cfg.pixel_width as int
}

/// Plane coordinate of the left buffer edge.
pub open spec fn origin_x_spec(cfg: RenderConfig) -> int {
    cfg.center.x - cfg.plane_width as int / 2
}

/// Plane coordinate of the top buffer edge.
pub open spec fn origin_y_spec(cfg: RenderConfig) -> int {
    cfg.center.y - plane_height_spec(
        cfg.plane_width as int,
        cfg.pixel_width as int,
        cfg.pixel_height as int,
    ) / 2
}

/// The plane point of the pixel with flat row-major index `i`:
/// column `i % width`, row `i / width`, each offset `coord * plane_width`
/// divided once by the pixel width.
pub open spec fn point_at_spec(cfg: RenderConfig, i: int) -> (int, int) {
    (
        origin_x_spec(cfg) + pixel_offset_spec(
            i % cfg.pixel_width as int,
            cfg.plane_width as int,
            cfg.pixel_width as int,
        ),
        origin_y_spec(cfg) + pixel_offset_spec(
            i / cfg.pixel_width as int,
            cfg.plane_width as int,
            cfg.pixel_width as int,
        ),
    )
}

/// The escape data of pixel `i` under configuration `cfg`.
pub open spec fn escape_entry_correct(cfg: RenderConfig, i: int, e: EscapeResult) -> bool {
    &&& e.iterations == escape_steps(
        point_at_spec(cfg, i),
        cfg.max_iterations as int,
        cfg.escape_threshold as int,
    )
    &&& e.mag_sq == arg_sq_spec(iterate(point_at_spec(cfg, i), e.iterations as int))
}

/// Evaluate the escape-time iteration for every pixel of the viewport, in
/// row-major order.
pub fn escape_grid(cfg: &RenderConfig) -> (r: Vec<EscapeResult>)
    requires
        cfg.wf(),
    ensures
        r@.len() == cfg.pixel_width as int * cfg.pixel_height as int,
        forall|i: int| 0 <= i < r@.len() ==> escape_entry_correct(*cfg, i, #[trigger] r@[i]),
{
    let pw = cfg.pixel_width as usize;
    let ph = cfg.pixel_height as usize;
    proof {
        vstd::arithmetic::mul::lemma_mul_upper_bound(pw as int, 8192, ph as int, 8192);
        vstd::arithmetic::mul::lemma_mul_upper_bound(
            cfg.plane_width as int,
            0x10_0000,
            ph as int,
            8192,
        );
    }
    let n = pw * ph;
    let height: u64 = ((cfg.plane_width as u64) * (ph as u64)) / (pw as u64);
    proof {
        vstd::arithmetic::div_mod::lemma_div_pos_is_pos(
            cfg.plane_width as int * ph as int,
            pw as int,
        );
        vstd::arithmetic::div_mod::lemma_div_is_ordered(
            cfg.plane_width as int * ph as int,
            0x10_0000int * 8192int,
            pw as int,
        );
        vstd::arithmetic::div_mod::lemma_div_nonincreasing(0x10_0000int * 8192int, pw as int);
        vstd::arithmetic::div_mod::lemma_div_pos_is_pos(cfg.plane_width as int, 2);
        vstd::arithmetic::div_mod::lemma_div_nonincreasing(cfg.plane_width as int, 2);
        vstd::arithmetic::div_mod::lemma_div_pos_is_pos(height as int, 2);
        vstd::arithmetic::div_mod::lemma_div_nonincreasing(height as int, 2);
    }
    let origin_x: i64 = cfg.center.x - ((cfg.plane_width as u64) / 2) as i64;
    let origin_y: i64 = cfg.center.y - (height / 2) as i64;
    let mut out: Vec<EscapeResult> = Vec::new();
    let mut idx: usize = 0;
    while idx < n
        invariant
            cfg.wf(),
            pw == cfg.pixel_width as int,
            ph == cfg.pixel_height as int,
            n == pw as int * ph as int,
            origin_x == origin_x_spec(*cfg),
            origin_y == origin_y_spec(*cfg),
            -0x200_0000 <= origin_x <= 0x200_0000,
            -0x2_0000_0000 - 0x100_0000 <= origin_y <= 0x100_0000,
            0 <= idx <= n,
            out@.len() == idx,
            forall|i: int| 0 <= i < idx ==> escape_entry_correct(*cfg, i, #[trigger] out@[i]),
        decreases n - idx,
    {
        let col = idx % pw;
        let row = idx / pw;
        proof {
            vstd::arithmetic::div_mod::lemma_mod_bound(idx as int, pw as int);
            vstd::arithmetic::div_mod::lemma_div_pos_is_pos(idx as int, pw as int);
            vstd::arithmetic::div_mod::lemma_multiply_divide_lt(idx as int, pw as int, ph as int);
            vstd::arithmetic::mul::lemma_mul_upper_bound(
                col as int,
                8192,
                cfg.plane_width as int,
                0x10_0000,
            );
            vstd::arithmetic::mul::lemma_mul_upper_bound(
                row as int,
                8192,
                cfg.plane_width as int,
                0x10_0000,
            );
        }
        let x_off: u64 = ((col as u64) * (cfg.plane_width as u64)) / (pw as u64);
        let y_off: u64 = ((row as u64) * (cfg.plane_width as u64)) / (pw as u64);
        proof {
            vstd::arithmetic::div_mod::lemma_div_pos_is_pos(
                col as int * cfg.plane_width as int,
                pw as int,
            );
            vstd::arithmetic::div_mod::lemma_div_nonincreasing(
                col as int * cfg.plane_width as int,
                pw as int,
            );
            vstd::arithmetic::div_mod::lemma_div_pos_is_pos(
                row as int * cfg.plane_width as int,
                pw as int,
            );
            vstd::arithmetic::div_mod::lemma_div_nonincreasing(
                row as int * cfg.plane_width as int,
                pw as int,
            );
        }
        let x: i64 = origin_x + x_off as i64;
        let y: i64 = origin_y + y_off as i64;
        proof {
            assert(x_off == pixel_offset_spec(
                idx as int % pw as int,
                cfg.plane_width as int,
                pw as int,
            ));
            assert(y_off == pixel_offset_spec(
                idx as int / pw as int,
                cfg.plane_width as int,
                pw as int,
            ));
            assert(-ESCAPE_COORD_BOUND <= x <= ESCAPE_COORD_BOUND);
            assert(-ESCAPE_COORD_BOUND <= y <= ESCAPE_COORD_BOUND);
        }
        let e = mandelbrot(x, y, cfg.max_iterations, cfg.escape_threshold);
        out.push(e);
        idx = idx + 1;
    }
    out
}

/// The flat row-major grid and the viewport mapper agree: pixel index
/// `row * width + col` maps to the origin plus `col` increments across and
/// `row` increments down — the same formula `FractalPlot::getPoint` uses.
pub proof fn lemma_grid_matches_viewport(cfg: RenderConfig, col: int, row: int)
    requires
        cfg.wf(),
        0 <= col < cfg.pixel_width,
        0 <= row < cfg.pixel_height,
    ensures
        point_at_spec(cfg, row * cfg.pixel_width as int + col).0 == origin_x_spec(cfg)
            + pixel_offset_spec(col, cfg.plane_width as int, cfg.pixel_width as int),
        point_at_spec(cfg, row * cfg.pixel_width as int + col).1 == origin_y_spec(cfg)
            + pixel_offset_spec(row, cfg.plane_width as int, cfg.pixel_width as int),
{
    let pw = cfg.pixel_width as int;
    vstd::arithmetic::div_mod::lemma_fundamental_div_mod_converse(
        row * pw + col,
        pw,
        row,
        col,
    );
}

/// Coordinate-mapping corner consistency: pixel (0, 0) maps exactly to the
/// top-left plane corner — the center minus half of each plane span — and
/// the last pixel of the first row never maps past the right plane edge,
/// landing within one increment of it, up to a single fixed-point unit of
/// flooring.
pub proof fn lemma_corner_mapping(cfg: RenderConfig)
    requires
        cfg.wf(),
    ensures
        point_at_spec(cfg, 0).0 == cfg.center.x - cfg.plane_width as int / 2,
        point_at_spec(cfg, 0).1 == cfg.center.y - plane_height_spec(
            cfg.plane_width as int,
            cfg.pixel_width as int,
            cfg.pixel_height as int,
        ) / 2,
        point_at_spec(cfg, cfg.pixel_width as int - 1).0 <= cfg.center.x
            + cfg.plane_width as int / 2,
        cfg.center.x + cfg.plane_width as int / 2 - point_at_spec(
            cfg,
            cfg.pixel_width as int - 1,
        ).0 <= increment_spec(cfg) + 1,
{
    let pw = cfg.pixel_width as int;
    let w = cfg.plane_width as int;
    vstd::arithmetic::div_mod::lemma_basic_div(0, pw);
    vstd::arithmetic::div_mod::lemma_small_mod(0nat, pw as nat);
    vstd::arithmetic::div_mod::lemma_basic_div(pw - 1, pw);
    vstd::arithmetic::div_mod::lemma_small_mod((pw - 1) as nat, pw as nat);
    vstd::arithmetic::div_mod::lemma_div_of0(pw);
    vstd::arithmetic::mul::lemma_mul_basics(w);
    lemma_last_column_offset(w, pw);
    vstd::arithmetic::div_mod::lemma_fundamental_div_mod(w, 2);
    vstd::arithmetic::div_mod::lemma_mod_bound(w, 2);
}

/// Pixel `i` of the buffer holds the palette color of its input and an
/// opaque alpha byte.
pub open spec fn pixel_filled(frame: Seq<u8>, ts: Seq<i64>, i: int) -> bool {
    &&& frame[4 * i] == palette_spec(ts[i] as int).0
    &&& frame[4 * i + 1] == palette_spec(ts[i] as int).1
    &&& frame[4 * i + 2] == palette_spec(ts[i] as int).2
    &&& frame[4 * i + 3] == 255
}

/// The buffer state `fill_frame` establishes: four bytes per pixel, each
/// pixel colored from its palette input.
pub open spec fn frame_filled(frame: Seq<u8>, ts: Seq<i64>) -> bool {
    &&& frame.len() == 4 * ts.len()
    &&& forall|i: int| 0 <= i < ts.len() ==> pixel_filled(frame, ts, i)
}

/// Fill the RGBA buffer: pixel `i` gets the palette color of `ts[i]` in its
/// first three bytes and 255 in its alpha byte. Every byte of the buffer is
/// written; nothing of the previous frame survives.
#[verifier::rlimit(50)]
pub fn fill_frame(frame: &mut Vec<u8>, ts: &Vec<i64>)
    requires
        old(frame)@.len() == 4 * ts@.len(),
        forall|i: int| 0 <= i < ts@.len() ==> 0 <= #[trigger] ts@[i] <= COLOR_INPUT_MAX,
    ensures
        final(frame)@.len() == old(frame)@.len(),
        frame_filled(final(frame)@, ts@),
{
    let n = ts.len();
    let total = frame.len();
    let mut i: usize = 0;
    while i < n
        invariant
            n == ts@.len(),
            total == frame@.len(),
            frame@.len() == 4 * n,
            forall|k: int| 0 <= k < n ==> 0 <= #[trigger] ts@[k] <= COLOR_INPUT_MAX,
            0 <= i <= n,
            forall|j: int| 0 <= j < i ==> pixel_filled(frame@, ts@, j),
        decreases n - i,
    {
        let ghost prev = frame@;
        let t = ts[i];
        let (cr, cg, cb) = color(t);
        proof {
            assert(4 * i + 3 < total);
        }
        let base = 4 * i;
        frame[base] = cr;
        frame[base + 1] = cg;
        frame[base + 2] = cb;
        frame[base + 3] = 255;
        proof {
            assert(pixel_filled(frame@, ts@, i as int));
            assert forall|j: int| 0 <= j < i implies pixel_filled(frame@, ts@, j) by {
                assert(pixel_filled(prev, ts@, j));
                assert(frame@[4 * j] == prev[4 * j]);
                assert(frame@[4 * j + 1] == prev[4 * j + 1]);
                assert(frame@[4 * j + 2] == prev[4 * j + 2]);
                assert(frame@[4 * j + 3] == prev[4 * j + 3]);
            }
        }
        i = i + 1;
    }
}

/// Frame-fill completeness, first half: after a fill, every pixel of the
/// buffer is fully opaque.
pub proof fn lemma_fill_alpha_opaque(frame: Seq<u8>, ts: Seq<i64>, i: int)
    requires
        frame_filled(frame, ts),
        0 <= i < ts.len(),
    ensures
        frame[4 * i + 3] == 255,
{
    assert(pixel_filled(frame, ts, i));
}

/// Frame-fill completeness, second half: the color written is a pure
/// function of the palette input, so pixels with equal inputs hold
/// identical bytes wherever they sit in the buffer.
pub proof fn lemma_fill_color_pure(frame: Seq<u8>, ts: Seq<i64>, i: int, j: int)
    requires
        frame_filled(frame, ts),
        0 <= i < ts.len(),
        0 <= j < ts.len(),
        ts[i] == ts[j],
    ensures
        frame[4 * i] == frame[4 * j],
        frame[4 * i + 1] == frame[4 * j + 1],
        frame[4 * i + 2] == frame[4 * j + 2],
        frame[4 * i + 3] == frame[4 * j + 3],
{
    assert(pixel_filled(frame, ts, i));
    assert(pixel_filled(frame, ts, j));
}

} // verus!
