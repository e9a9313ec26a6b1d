//! A verified fixed-point core for an escape-time (Mandelbrot) renderer.
//!
//! Plane coordinates are carried as signed 64-bit fixed-point numbers with
//! `FIXED_ONE = 65536` units per 1.0. The crate provides the screen-to-plane
//! coordinate mapping, the escape-time iteration, a periodic cosine palette,
//! and the frame-fill driver that writes RGBA bytes. The host layer owns the
//! window and the presentation surface and performs the floating-point
//! smoothing of the raw escape data before asking for colors.

pub mod complex;
pub mod escape;
pub mod events;
pub mod fixed;
pub mod frame;
pub mod palette;
pub mod plot;
