//! Lossless raster-to-wavelet-container conversion core: pixel planarization,
//! encoder configuration, and box-level edits of the finished container.

pub mod boundaries;
pub mod cli;
pub mod container;
pub mod convert;
pub mod encoder;
pub mod kernels;
pub mod metadata;
pub mod parse;
pub mod paths;
pub mod planar;
pub mod rational;
pub mod resolution;
pub mod xmp;
