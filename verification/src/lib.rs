//! A tiled, parallel escape-time fractal rendering pipeline.
//!
//! The canvas is split into rectangular tiles; a shared cursor hands tiles
//! out one at a time; workers compute the pixels of each tile and send the
//! results over a channel; a collector merges them into the final image by
//! pixel coordinate, independent of arrival order.

pub mod channel;
pub mod collect;
pub mod color;
pub mod complex_rational;
pub mod config;
pub mod fractal_image;
pub mod laws;
pub mod models;
pub mod pipeline;
pub mod rational;
pub mod tile;
