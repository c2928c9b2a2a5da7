//! The Shivanosh image container: an RGBA raster framed behind a small
//! fixed header and stored as a zlib stream.

pub mod codec;
pub mod container;
pub mod deflate;
pub mod error;
pub mod raster;

