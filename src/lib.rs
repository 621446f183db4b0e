//! A recursive ray tracer's scene model and the exact parts of its pipeline:
//! fixed-point scene description with validated construction, material
//! presets, the recursion policy of the radiance integrator, the pixel buffer,
//! channel quantization, the plain-text PPM format, and an in-place quicksort.
pub mod geom;
pub mod image;
pub mod ppm;
pub mod render;
pub mod scene;
pub mod shape;
pub mod sort;
