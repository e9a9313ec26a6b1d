use mandelbrot::complex::Complex;
use mandelbrot::escape::mandelbrot;
use mandelbrot::events::{handle_event, HostAction, HostEvent, SurfaceState};
use mandelbrot::frame::{escape_grid, fill_frame, RenderConfig};
use mandelbrot::palette::color;
use mandelbrot::plot::{FractalPlot, Point};

// One fixed-point unit per 1.0: 65536.

#[test]
fn complex_arithmetic_matches_formulas() {
    let two_two = Complex { a: 131072, b: 131072 };
    let sq = two_two.mul(two_two);
    assert_eq!(sq, Complex { a: 0, b: 524288 });
    let z = sq.add(two_two);
    assert_eq!(z, Complex { a: 131072, b: 655360 });
    assert_eq!(two_two.arg_sq(), 524288);
    assert_eq!(z.arg_sq(), 6815744);
}

#[test]
fn viewport_top_left_corner_is_exact() {
    // center (-1.0, 0.0), 640x480 pixels, plane width 4.0
    let plot = FractalPlot::new(Point { x: -65536, y: 0 }, (640, 480));
    assert_eq!(plot.width, 262144);
    assert_eq!(plot.height, 196608); // 4.0 * 480 / 640 = 3.0
    assert_eq!(plot.inc, 409); // floor(262144 / 640)
    // pixel (0,0) maps to (cx - width/2, cy - height/2)
    assert_eq!(plot.getPoint((0, 0)), (-196608, -98304));
}

#[test]
fn viewport_last_column_stays_within_one_increment_of_right_edge() {
    let plot = FractalPlot::new(Point { x: -65536, y: 0 }, (640, 480));
    let (x, _) = plot.getPoint((639, 0));
    // (639 * 262144) / 640 = 261734
    assert_eq!(x, -196608 + 261734);
    let right_edge: i64 = -65536 + 131072; // cx + width/2
    let gap = right_edge - x;
    assert!(gap >= 0);
    // within one increment of the right edge, up to one unit of flooring
    assert!(gap <= plot.inc + 1);
}

#[test]
fn far_point_escapes_in_one_iteration() {
    // c = 7.0 + 0.0i, |c| > 6: diverges immediately
    let r = mandelbrot(458752, 0, 256, 2097152);
    assert_eq!(r.iterations, 1);
    assert!(r.iterations < 256);
    assert_eq!(r.mag_sq, 3211264); // 49.0 in fixed point
}

#[test]
fn origin_never_escapes() {
    let r = mandelbrot(0, 0, 256, 2097152);
    assert_eq!(r.iterations, 256);
    assert_eq!(r.mag_sq, 0);
}

#[test]
fn two_two_escapes_within_five_iterations() {
    // c = 2.0 + 2.0i
    let r = mandelbrot(131072, 131072, 256, 2097152);
    assert_eq!(r.iterations, 2);
    assert!(r.iterations <= 5);
    assert_eq!(r.mag_sq, 6815744); // 104.0 in fixed point
}

#[test]
fn interior_point_runs_to_the_cap() {
    // c = -0.5 + 0.5i lies inside the set
    let r = mandelbrot(-32768, 32768, 256, 2097152);
    assert_eq!(r.iterations, 256);
    assert_eq!(r.mag_sq, 15659);
}

#[test]
fn palette_color_at_zero_matches_formula() {
    // channels: 0.5*cos(2*pi*d) + 0.5 for d = 0.0, 0.1, 0.2, truncated:
    // cos(0) = 1 -> 255; trunc(230.65) = 230; trunc(166.90) = 166
    assert_eq!(color(0), (255, 230, 166));
}

#[test]
fn palette_sample_values_match_formula() {
    assert_eq!(color(16384), (127, 52, 6)); // t = 0.25
    assert_eq!(color(32768), (0, 24, 88)); // t = 0.5
    assert_eq!(color(49152), (127, 202, 248)); // t = 0.75
    assert_eq!(color(6554), (230, 166, 88)); // t = 0.1
}

#[test]
fn palette_is_periodic_with_period_one() {
    for t in [0i64, 100, 6554, 16384, 32768, 49152, 65535] {
        assert_eq!(color(t), color(t + 65536));
    }
}

#[test]
fn render_config_rejects_degenerate_inputs() {
    let center = Point { x: -65536, y: 0 };
    assert!(RenderConfig::new(0, 480, 262144, center, 256, 2097152).is_none());
    assert!(RenderConfig::new(640, 0, 262144, center, 256, 2097152).is_none());
    assert!(RenderConfig::new(640, 480, 0, center, 256, 2097152).is_none());
    assert!(RenderConfig::new(640, 480, 262144, center, 0, 2097152).is_none());
    assert!(RenderConfig::new(640, 480, 262144, center, 256, 0).is_none());
    assert!(RenderConfig::new(640, 480, 262144, center, 256, 2097152).is_some());
}

#[test]
fn escape_grid_covers_every_pixel_row_major() {
    let cfg = RenderConfig::new(4, 4, 262144, Point { x: -65536, y: 0 }, 256, 2097152)
        .unwrap();
    let grid = escape_grid(&cfg);
    assert_eq!(grid.len(), 16);
    // pixel 0 sits at the top-left plane corner (-3.0, -2.0)
    let direct = mandelbrot(-196608, -131072, 256, 2097152);
    assert_eq!(grid[0], direct);
    assert_eq!(grid[0].iterations, 2);
    // pixel 5 is column 1, row 1: (-2.0, -1.0)
    let direct_5 = mandelbrot(-196608 + 65536, -131072 + 65536, 256, 2097152);
    assert_eq!(grid[5], direct_5);
}

#[test]
fn fill_frame_four_by_four_sets_every_alpha_opaque() {
    let ts: Vec<i64> = (0..16).map(|i| (i as i64) * 4096).collect();
    let mut frame: Vec<u8> = vec![0u8; 64];
    fill_frame(&mut frame, &ts);
    for i in 0..16 {
        assert_eq!(frame[4 * i + 3], 255);
    }
}

#[test]
fn fill_frame_color_is_a_pure_function_of_the_input() {
    // pixels 2 and 11 share a palette input
    let mut ts: Vec<i64> = (0..16).map(|i| (i as i64) * 4096).collect();
    ts[11] = ts[2];
    let mut frame: Vec<u8> = vec![0u8; 64];
    fill_frame(&mut frame, &ts);
    assert_eq!(frame[4 * 2..4 * 2 + 4], frame[4 * 11..4 * 11 + 4]);
    // and each pixel holds exactly the palette color of its input
    let (r, g, b) = color(ts[2]);
    assert_eq!(&frame[4 * 2..4 * 2 + 4], &[r, g, b, 255]);
}

#[test]
fn surface_creation_readies_and_asks_for_redraw() {
    let (s, a) = handle_event(
        SurfaceState::Uninitialized,
        HostEvent::SurfaceCreated { width: 640, height: 480 },
    );
    assert_eq!(s, SurfaceState::Ready { width: 640, height: 480 });
    assert_eq!(a, HostAction::RequestRedraw);
}

#[test]
fn resize_updates_a_ready_surface() {
    let (s, a) = handle_event(
        SurfaceState::Ready { width: 640, height: 480 },
        HostEvent::Resized { width: 800, height: 600 },
    );
    assert_eq!(s, SurfaceState::Ready { width: 800, height: 600 });
    assert_eq!(a, HostAction::ResizeAndRedraw { width: 800, height: 600 });
}

#[test]
fn redraw_renders_only_when_ready() {
    let (s, a) = handle_event(
        SurfaceState::Ready { width: 640, height: 480 },
        HostEvent::RedrawRequested,
    );
    assert_eq!(s, SurfaceState::Ready { width: 640, height: 480 });
    assert_eq!(a, HostAction::Render { width: 640, height: 480 });
    let (s2, a2) = handle_event(SurfaceState::Uninitialized, HostEvent::RedrawRequested);
    assert_eq!(s2, SurfaceState::Uninitialized);
    assert_eq!(a2, HostAction::Ignore);
}

#[test]
fn close_request_exits_from_any_state() {
    let (_, a) = handle_event(SurfaceState::Uninitialized, HostEvent::CloseRequested);
    assert_eq!(a, HostAction::Exit);
    let (_, a2) = handle_event(
        SurfaceState::Ready { width: 640, height: 480 },
        HostEvent::CloseRequested,
    );
    assert_eq!(a2, HostAction::Exit);
}

#[test]
fn resize_before_surface_creation_only_asks_for_redraw() {
    let (s, a) = handle_event(
        SurfaceState::Uninitialized,
        HostEvent::Resized { width: 800, height: 600 },
    );
    assert_eq!(s, SurfaceState::Uninitialized);
    assert_eq!(a, HostAction::RequestRedraw);
}

#[test]
fn full_pipeline_renders_a_small_frame() {
    let cfg = RenderConfig::new(4, 4, 262144, Point { x: -65536, y: 0 }, 256, 2097152)
        .unwrap();
    let grid = escape_grid(&cfg);
    // the host's smooth-coloring step, in floating point
    let ts: Vec<i64> = grid
        .iter()
        .map(|e| {
            let mag = (e.mag_sq as f32) / 65536.0;
            let v = (e.iterations as f32 - mag.log2().log2()) / 256.0;
            let t = (2.0 * v + 0.5).rem_euclid(1.0);
            if t.is_finite() {
                ((t * 65536.0) as i64).clamp(0, 65535)
            } else {
                0
            }
        })
        .collect();
    let mut frame = vec![0u8; 64];
    fill_frame(&mut frame, &ts);
    for i in 0..16 {
        assert_eq!(frame[4 * i + 3], 255);
        let (r, g, b) = color(ts[i]);
        assert_eq!(&frame[4 * i..4 * i + 3], &[r, g, b]);
    }
}
