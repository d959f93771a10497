//! Colors of the rendered image and the built-in 16-color palette.

use vstd::prelude::*;

verus! {

/// One pixel color: three 8-bit channels.
#[derive(Clone, Copy, PartialEq, Eq, Structural, Debug)]
pub struct Color {
    pub r: u8,
    pub g: u8,
    pub b: u8,
}

/// The color an image buffer starts out with, and the color of pixels whose
/// escape-time iteration reached the limit.
pub open spec fn default_color() -> Color {
    Color { r: 0, g: 0, b: 0 }
}

/// The default color (black) as an executable value.
pub fn black() -> (c: Color)
    ensures
        c == default_color(),
{
    Color { r: 0, g: 0, b: 0 }
}

/// The fixed 16-color palette, as a sequence of spec values.
pub open spec fn palette16() -> Seq<Color> {
    seq![
        (Color { r: 0, g: 0, b: 0 }),
        (Color { r: 128, g: 0, b: 0 }),
        (Color { r: 0, g: 128, b: 0 }),
        (Color { r: 128, g: 128, b: 0 }),
        (Color { r: 0, g: 0, b: 128 }),
        (Color { r: 128, g: 0, b: 128 }),
        (Color { r: 0, g: 128, b: 128 }),
        (Color { r: 128, g: 128, b: 0 }),
        (Color { r: 128, g: 128, b: 128 }),
        (Color { r: 255, g: 0, b: 0 }),
        (Color { r: 0, g: 255, b: 0 }),
        (Color { r: 255, g: 255, b: 0 }),
        (Color { r: 0, g: 0, b: 255 }),
        (Color { r: 255, g: 0, b: 255 }),
        (Color { r: 0, g: 255, b: 255 }),
        (Color { r: 0, g: 255, b: 255 }),
    ]
}

/// The built-in palette of the 16 basic terminal colors, in their
/// conventional order (black, maroon, green, olive, navy, purple, teal,
/// silver, gray, red, lime, yellow, blue, fuchsia, aqua, white).
pub fn color16() -> (v: Vec<Color>)
    ensures
        v@ == palette16(),
        v@.len() == 16,
{
    let mut v: Vec<Color> = Vec::new();
    v.push(Color { r: 0, g: 0, b: 0 });
    v.push(Color { r: 128, g: 0, b: 0 });
    v.push(Color { r: 0, g: 128, b: 0 });
    v.push(Color { r: 128, g: 128, b: 0 });
    v.push(Color { r: 0, g: 0, b: 128 });
    v.push(Color { r: 128, g: 0, b: 128 });
    v.push(Color { r: 0, g: 128, b: 128 });
    v.push(Color { r: 128, g: 128, b: 0 });
    v.push(Color { r: 128, g: 128, b: 128 });
    v.push(Color { r: 255, g: 0, b: 0 });
    v.push(Color { r: 0, g: 255, b: 0 });
    v.push(Color { r: 255, g: 255, b: 0 });
    v.push(Color { r: 0, g: 0, b: 255 });
    v.push(Color { r: 255, g: 0, b: 255 });
    v.push(Color { r: 0, g: 255, b: 255 });
    v.push(Color { r: 0, g: 255, b: 255 });
    proof {
        assert(v@ =~= palette16());
    }
    v
}

/// The color assigned to a pixel once its escape-time iteration count is
/// known: pixels that never escaped (the count reached the limit) are
/// default-colored; all others cycle through the palette.
pub open spec fn spec_color_of_iterations(
    cnt: nat,
    max_iterations: nat,
    colors: Seq<Color>,
) -> Color
    recommends
        colors.len() > 0,
{
    if cnt >= max_iterations {
        default_color()
    } else {
        colors[(cnt % colors.len()) as int]
    }
}

/// Picks the color for an escape-time iteration count out of a palette.
pub fn color_of_iterations(cnt: u32, max_iterations: u32, colors: &Vec<Color>) -> (c: Color)
    requires
        colors@.len() > 0,
    ensures
        c == spec_color_of_iterations(cnt as nat, max_iterations as nat, colors@),
{
    if cnt >= max_iterations {
        black()
    } else {
        let idx = (cnt as usize) % colors.len();
        colors[idx]
    }
}

} // verus!
