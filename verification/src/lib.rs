//! Tile-based parallel rendering pipeline for a Mandelbrot-set viewer.
//!
//! The library holds the verified core: the camera state, the fixed-point
//! fractal evaluation, the tile generator, the FIFO work queue, the worker
//! decision logic and the compositing of tile results into a framebuffer.
//! Thread spawning, channels and the presentation surface live outside the
//! library and drive it through these functions.

pub mod camera;
pub mod mandelbrot;
pub mod screen;
pub mod sync_flags;
pub mod work;
