//! Request validation: the configuration checks made before any worker
//! starts. A bad palette size or a tile grid that does not fit the canvas
//! is rejected here, synchronously, and nothing else is.

use vstd::prelude::*;

verus! {

/// A configuration error, found at request validation time.
#[derive(Clone, Copy, PartialEq, Eq, Structural, Debug)]
pub enum ConfigError {
    /// The requested palette size is not one the renderer offers.
    UnsupportedColors,
    /// The tile grid does not fit the canvas: each axis needs at least one
    /// tile and at most one tile per pixel.
    BadTileGrid,
}

impl ConfigError {
    /// A short account of the error for logs and replies.
    pub fn message(&self) -> &'static str {
        match self {
            ConfigError::UnsupportedColors => "number of colors not supported",
            ConfigError::BadTileGrid => "tile grid does not fit the canvas",
        }
    }
}

/// Whether the palette size is one the renderer offers.
pub open spec fn colors_supported(colors: u32) -> bool {
    colors == 16 || colors == 256
}

/// Whether a tile grid fits a canvas: both within bounds and the canvas's
/// pixel count addressable on this machine.
pub open spec fn grid_supported(width: u32, height: u32, x_tiles: u32, y_tiles: u32) -> bool {
    &&& 1 <= x_tiles <= width
    &&& 1 <= y_tiles <= height
    &&& width as int * height as int <= usize::MAX
}

/// Validates a render request's palette size and tile grid before any
/// worker is spawned. Succeeds exactly when both are supported; an
/// unsupported palette is reported first.
pub fn validate_request(width: u32, height: u32, x_tiles: u32, y_tiles: u32, colors: u32) -> (r:
    Result<(), ConfigError>)
    ensures
        r is Ok <==> colors_supported(colors) && grid_supported(width, height, x_tiles, y_tiles),
        r == Result::<(), ConfigError>::Err(ConfigError::UnsupportedColors) <==> !colors_supported(
            colors,
        ),
        r == Result::<(), ConfigError>::Err(ConfigError::BadTileGrid) <==> colors_supported(colors)
            && !grid_supported(width, height, x_tiles, y_tiles),
{
    if colors != 16 && colors != 256 {
        return Err(ConfigError::UnsupportedColors);
    }
    if x_tiles < 1 || x_tiles > width || y_tiles < 1 || y_tiles > height {
        return Err(ConfigError::BadTileGrid);
    }
    proof {
        assert(width as int * height as int <= u64::MAX) by (nonlinear_arith)
            requires
                width as int <= u32::MAX as int,
                height as int <= u32::MAX as int,
        {}
    }
    let pixels = (width as u64) * (height as u64);
    if pixels > (usize::MAX as u64) {
        return Err(ConfigError::BadTileGrid);
    }
    Ok(())
}

} // verus!
