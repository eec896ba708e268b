//! Verified core of a Monte Carlo path tracer.
//!
//! The floating-point geometry and shading live with the program that drives
//! the renderer; this library holds the decisions and encodings that work on
//! plain values: choosing the nearest of several intersections, the bounce
//! budget of a path, the image dimensions and raster layout, and the plain-text
//! image format the renderer emits.

pub mod world;
pub mod image;
pub mod ppm;
pub mod path;
pub mod config;
