//! The plain data shapes the pipeline exchanges with its callers: render
//! responses and the streaming protocol's reply, plus the render request of
//! the exact-rational backend.

use vstd::prelude::*;

use crate::complex_rational::ComplexRationalNumber;
use crate::fractal_image::FractalImage;
use crate::rational::RationalNumber;
use crate::tile::TileData;

verus! {

/// A finished render: the image and a human-readable account of how long
/// the computation took.
#[derive(Clone, Debug)]
pub struct Response {
    pub duration: String,
    pub fractal: FractalImage,
}

/// A finished render with the duration both as text and in milliseconds.
#[derive(Clone, Debug)]
pub struct FractalResponse {
    pub duration_calculation: String,
    pub duration_ms: u128,
    pub fractal: FractalImage,
}

/// One message of the streaming protocol's server side: a reply to a height
/// query carries `height`; each progress message of a render carries one
/// completed `tile`.
#[derive(Clone, Debug)]
pub struct WebSocketResponse {
    pub height: Option<u32>,
    pub tile: Option<TileData>,
}

/// A render request for the exact-rational backend: the region of the
/// complex plane, the canvas size, the iteration limit, the palette choice
/// and the tile grid.
#[derive(Clone, Debug)]
pub struct FractalRequestRational {
    pub center: ComplexRationalNumber,
    pub width: u32,
    pub height: u32,
    pub complex_width: RationalNumber,
    pub max_iterations: u32,
    pub colors: u32,
    pub x_tiles: u32,
    pub y_tiles: u32,
    pub zoom: RationalNumber,
    pub name: String,
}

} // verus!
