//! Integer core of a perceptual image-difference metric.
//!
//! The metric compares two raster images and yields a scalar distance plus a
//! per-pixel difference map.  Its floating-point numerics (gamma curves,
//! Gaussian blur weights, masking tables) live outside this library; what is
//! verified here is the exact structure those numerics are built on: the
//! plane layout, the directional structural-difference patterns with their
//! window indexing and whole-plane pass, the symmetry of the blur-kernel tap
//! ladder and its border truncation, the dead-zone arithmetic and table-index
//! clamping of the masking stage, and the heatmap colour-ramp data.

pub mod heatmap;
pub mod image;
pub mod kernel;
pub mod malta;
pub mod masking;
