//! The assembled image: a flat, row-major buffer of pixel colors.

use vstd::prelude::*;

use crate::color::Color;

verus! {

/// A rendered image: `pixels` holds `width * height` colors, row-major, the
/// pixel at column `x`, row `y` at index `y * width + x`.
#[derive(Clone, Debug)]
pub struct FractalImage {
    pub width: u32,
    pub height: u32,
    pub pixels: Vec<Color>,
}

/// An image buffer is consistent when it holds exactly one color per pixel
/// of its canvas.
pub open spec fn image_wf(img: FractalImage) -> bool {
    img.pixels@.len() == img.width as int * img.height as int
}

impl Default for FractalImage {
    /// The empty image.
    fn default() -> (r: Self)
        ensures
            r.width == 0,
            r.height == 0,
            r.pixels@ == Seq::<Color>::empty(),
    {
        FractalImage { width: 0, height: 0, pixels: Vec::new() }
    }
}

} // verus!
