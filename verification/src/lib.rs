//! Color quantization of a raster image by k-means clustering.
//!
//! The library reduces an image's RGB colors to a small palette of `k`
//! representative colors: it samples initial centroids from the pixels,
//! repeatedly assigns each pixel to its nearest centroid by squared
//! Euclidean distance and recomputes each centroid as the truncated mean
//! of its cluster, and finally rebuilds the pixel buffer from the palette.
//! Image decoding and encoding are left to the caller: the library works
//! on a flat RGB byte buffer.

pub mod assign;
pub mod driver;
pub mod model;
pub mod reconstruct;
pub mod sampler;
pub mod update;
