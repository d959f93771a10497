//! Partitioning of the canvas into rectangular tiles.
//!
//! A `width x height` canvas is split into a grid of tiles, each nominally
//! `x_inc x y_inc` pixels, where `x_inc = width / x_tiles` and
//! `y_inc = height / y_tiles`. The grid is walked row-major; the rightmost
//! column and the bottom row absorb the remainder, so their tiles may be
//! narrower or shorter. Tile index `idx` starts at 0 and increases by one per
//! tile in walk order.

use vstd::arithmetic::div_mod::{
    lemma_fundamental_div_mod, lemma_fundamental_div_mod_converse,
};
use vstd::arithmetic::mul::{
    lemma_mul_inequality, lemma_mul_is_distributive_add_other_way,
    lemma_mul_is_distributive_sub_other_way,
};
use vstd::prelude::*;

use crate::color::Color;

verus! {

/// A rectangular sub-region of the canvas: half-open pixel ranges
/// `[x_from, x_to) x [y_from, y_to)`, plus the tile's sequence number.
#[derive(Clone, Copy, PartialEq, Eq, Structural, Debug)]
pub struct Tile {
    pub x_from: usize,
    pub x_to: usize,
    pub y_from: usize,
    pub y_to: usize,
    pub idx: usize,
}

impl Tile {
    /// Leftmost pixel column of the tile (inclusive).
    pub fn x_from(&self) -> (r: usize)
        ensures
            r == self.x_from,
    {
        self.x_from
    }

    /// Rightmost pixel column of the tile (exclusive).
    pub fn x_to(&self) -> (r: usize)
        ensures
            r == self.x_to,
    {
        self.x_to
    }

    /// Topmost pixel row of the tile (inclusive).
    pub fn y_from(&self) -> (r: usize)
        ensures
            r == self.y_from,
    {
        self.y_from
    }

    /// Bottommost pixel row of the tile (exclusive).
    pub fn y_to(&self) -> (r: usize)
        ensures
            r == self.y_to,
    {
        self.y_to
    }

    /// The tile's sequence number in the row-major walk of the grid.
    pub fn get_idx(&self) -> (r: usize)
        ensures
            r == self.idx,
    {
        self.idx
    }
}

/// One computed pixel of a tile: its canvas coordinates and its color.
#[derive(Clone, Copy, PartialEq, Eq, Structural, Debug)]
pub struct TileDataPoint {
    pub x: usize,
    pub y: usize,
    pub c: Color,
}

impl TileDataPoint {
    /// Packs one computed pixel.
    pub fn new(x: usize, y: usize, c: Color) -> (r: TileDataPoint)
        ensures
            r == (TileDataPoint { x, y, c }),
    {
        TileDataPoint { x, y, c }
    }

    /// The pixel's canvas column.
    pub fn get_x(&self) -> (r: usize)
        ensures
            r == self.x,
    {
        self.x
    }

    /// The pixel's canvas row.
    pub fn get_y(&self) -> (r: usize)
        ensures
            r == self.y,
    {
        self.y
    }

    /// The pixel's computed color.
    pub fn get_color(&self) -> (r: &Color)
        ensures
            r == self.c,
    {
        &self.c
    }
}

/// The computed pixels of one tile, en route from a worker to the collector:
/// the tile's sequence number and one entry per pixel of the tile.
#[derive(Clone, Debug)]
pub struct TileData {
    pub idx: usize,
    pub points: Vec<TileDataPoint>,
}

impl TileData {
    /// Packs the computed pixels of one tile.
    pub fn new(idx: usize, points: Vec<TileDataPoint>) -> (r: TileData)
        ensures
            r.idx == idx,
            r.points@ == points@,
    {
        TileData { idx, points }
    }

    /// The sequence number of the tile these pixels belong to.
    pub fn get_idx(&self) -> (r: usize)
        ensures
            r == self.idx,
    {
        self.idx
    }

    /// The computed pixels, in row-major order within the tile.
    pub fn get_points(&self) -> (r: &Vec<TileDataPoint>)
        ensures
            r@ == self.points@,
    {
        &self.points
    }
}

/// Number of tile columns in the grid: the canvas width divided by the
/// nominal tile width, rounded up.
pub open spec fn num_cols(width: int, x_inc: int) -> int
    recommends
        1 <= x_inc,
{
    (width + x_inc - 1) / x_inc
}

/// Number of tile rows in the grid.
pub open spec fn num_rows(height: int, y_inc: int) -> int
    recommends
        1 <= y_inc,
{
    (height + y_inc - 1) / y_inc
}

/// Total number of tiles the grid is split into.
pub open spec fn tile_count(width: int, height: int, x_inc: int, y_inc: int) -> int {
    num_cols(width, x_inc) * num_rows(height, y_inc)
}

/// The smaller of two integers.
pub open spec fn min_int(a: int, b: int) -> int {
    if a <= b {
        a
    } else {
        b
    }
}

/// The parameters of a valid tile grid: nominal tile sizes of at least one
/// pixel that do not exceed the canvas, and a canvas whose pixel count fits
/// the machine.
pub open spec fn grid_wf(width: int, height: int, x_inc: int, y_inc: int) -> bool {
    &&& 1 <= x_inc <= width
    &&& 1 <= y_inc <= height
    &&& width * height <= usize::MAX
}

/// The `k`-th tile of the grid in row-major order: column `k mod num_cols`,
/// row `k div num_cols`, bounds clipped to the canvas.
pub open spec fn spec_tile(width: int, height: int, x_inc: int, y_inc: int, k: int) -> Tile
    recommends
        grid_wf(width, height, x_inc, y_inc),
        0 <= k < tile_count(width, height, x_inc, y_inc),
{
    let cols = num_cols(width, x_inc);
    let i = k % cols;
    let j = k / cols;
    Tile {
        x_from: (i * x_inc) as usize,
        x_to: min_int(i * x_inc + x_inc, width) as usize,
        y_from: (j * y_inc) as usize,
        y_to: min_int(j * y_inc + y_inc, height) as usize,
        idx: k as usize,
    }
}

/// A restartable walk over the tiles of one canvas: the deterministic,
/// finite, lazy sequence the partitioner produces. `next` yields the tiles
/// in row-major order; a mutual-exclusion wrapper around one value of this
/// type is the shared cursor workers pull from.
#[derive(Clone, Copy, PartialEq, Eq, Structural, Debug)]
pub struct CanvasTile {
    pub x: usize,
    pub y: usize,
    pub x_inc: usize,
    pub y_inc: usize,
    pub width: usize,
    pub height: usize,
    pub idx: usize,
}

impl CanvasTile {
    /// The grid parameters of this walk are valid.
    pub open spec fn grid_ok(self) -> bool {
        grid_wf(self.width as int, self.height as int, self.x_inc as int, self.y_inc as int)
    }

    /// Number of tile columns of this walk's grid.
    pub open spec fn cols(self) -> int {
        num_cols(self.width as int, self.x_inc as int)
    }

    /// Number of tile rows of this walk's grid.
    pub open spec fn rows(self) -> int {
        num_rows(self.height as int, self.y_inc as int)
    }

    /// Total number of tiles of this walk's grid.
    pub open spec fn count(self) -> int {
        self.cols() * self.rows()
    }

    /// How many tiles have been produced so far.
    pub open spec fn pulled(self) -> int {
        self.idx as int
    }

    /// Whether the walk has produced every tile.
    pub open spec fn done(self) -> bool {
        self.y >= self.height
    }

    /// The tile the walk will produce next (meaningful while not done).
    pub open spec fn peek(self) -> Tile {
        spec_tile(self.width as int, self.height as int, self.x_inc as int, self.y_inc as int, self.pulled())
    }

    /// Internal consistency of the walk state: the position is aligned on
    /// the grid and `idx` counts the tiles already produced.
    pub open spec fn wf(self) -> bool {
        &&& self.grid_ok()
        &&& if self.y < self.height {
            &&& self.x < self.width
            &&& self.x as int % self.x_inc as int == 0
            &&& self.y as int % self.y_inc as int == 0
            &&& self.pulled() == (self.y as int / self.y_inc as int) * self.cols() + self.x as int
                / self.x_inc as int
        } else {
            &&& self.x == 0
            &&& self.y == self.height
            &&& self.pulled() == self.count()
        }
    }

    /// Two walks cover the same canvas with the same grid.
    pub open spec fn same_grid(self, other: CanvasTile) -> bool {
        &&& self.width == other.width
        &&& self.height == other.height
        &&& self.x_inc == other.x_inc
        &&& self.y_inc == other.y_inc
    }
}

/// How many tiles the grid of the given canvas and tile counts holds: the
/// number of results one render produces.
pub fn count_tiles(width: u32, height: u32, x_tiles: u32, y_tiles: u32) -> (n: usize)
    requires
        1 <= x_tiles <= width,
        1 <= y_tiles <= height,
        width * height <= usize::MAX,
    ensures
        n as int == tile_count(
            width as int,
            height as int,
            width as int / x_tiles as int,
            height as int / y_tiles as int,
        ),
{
    let xi = (width / x_tiles) as u64;
    let yi = (height / y_tiles) as u64;
    proof {
        let w = width as int;
        let h = height as int;
        assert(1 <= w / (x_tiles as int) <= w) by {
            vstd::arithmetic::div_mod::lemma_div_non_zero(w, x_tiles as int);
            vstd::arithmetic::div_mod::lemma_div_nonincreasing(w, x_tiles as int);
        }
        assert(1 <= h / (y_tiles as int) <= h) by {
            vstd::arithmetic::div_mod::lemma_div_non_zero(h, y_tiles as int);
            vstd::arithmetic::div_mod::lemma_div_nonincreasing(h, y_tiles as int);
        }
    }
    let cols = (width as u64 + xi - 1) / xi;
    let rows = (height as u64 + yi - 1) / yi;
    proof {
        let w = width as int;
        let h = height as int;
        lemma_count_le_pixels(w, h, w / (x_tiles as int), h / (y_tiles as int));
        lemma_ceil_div(w, w / (x_tiles as int));
        lemma_ceil_div(h, h / (y_tiles as int));
        assert(cols as int * rows as int <= usize::MAX) by {
            assert(cols as int == num_cols(w, w / (x_tiles as int)));
            assert(rows as int == num_rows(h, h / (y_tiles as int)));
        }
    }
    (cols * rows) as usize
}

/// Rounding up: the quotient `(n + d - 1) / d` is at least one, covers `n`,
/// and overshoots by less than one divisor.
pub proof fn lemma_ceil_div(n: int, d: int)
    requires
        1 <= d,
        1 <= n,
    ensures
        1 <= (n + d - 1) / d <= n,
        ((n + d - 1) / d - 1) * d < n,
        n <= ((n + d - 1) / d) * d,
{
    let c = (n + d - 1) / d;
    let r = (n + d - 1) % d;
    lemma_fundamental_div_mod(n + d - 1, d);
    assert(n + d - 1 == d * c + r);
    assert(0 <= r < d) by {
        vstd::arithmetic::div_mod::lemma_mod_division_less_than_divisor(n + d - 1, d);
        vstd::arithmetic::div_mod::lemma_remainder_lower(n + d - 1, d);
    }
    assert(c * d == n + d - 1 - r) by {
        vstd::arithmetic::mul::lemma_mul_is_commutative(c, d);
    }
    assert(n <= c * d);
    assert((c - 1) * d < n) by {
        lemma_mul_is_distributive_sub_other_way(d, c, 1);
    }
    assert(1 <= c) by {
        if c <= 0 {
            lemma_mul_inequality(c, 0, d);
        }
    }
    assert(c <= n) by {
        if c > n {
            lemma_mul_inequality(n + 1, c, d);
            assert((n + 1) * d <= c * d);
            lemma_mul_is_distributive_add_other_way(d, n, 1);
            assert((n + 1) * d == n * d + d);
            lemma_mul_inequality(1, d, n);
            assert(n * 1 <= n * d) by {
                vstd::arithmetic::mul::lemma_mul_is_commutative(n, d);
                lemma_mul_inequality(1, d, n);
            }
        }
    }
}

/// The tile grid never has more tiles than the canvas has pixels.
pub proof fn lemma_count_le_pixels(width: int, height: int, x_inc: int, y_inc: int)
    requires
        grid_wf(width, height, x_inc, y_inc),
    ensures
        tile_count(width, height, x_inc, y_inc) <= width * height,
        1 <= tile_count(width, height, x_inc, y_inc),
{
    lemma_ceil_div(width, x_inc);
    lemma_ceil_div(height, y_inc);
    let c = num_cols(width, x_inc);
    let r = num_rows(height, y_inc);
    lemma_mul_inequality(c, width, r);
    assert(c * r <= width * r);
    lemma_mul_inequality(r, height, width);
    assert(r * width <= height * width);
    vstd::arithmetic::mul::lemma_mul_is_commutative(width, r);
    vstd::arithmetic::mul::lemma_mul_is_commutative(height, width);
    assert(1 <= c * r) by {
        lemma_mul_inequality(1, c, 1);
        lemma_mul_inequality(1, r, c);
    }
}

/// Splits the canvas into a grid of tiles: the start state of the row-major
/// walk. The grid must be sensible: at least one tile per axis and no more
/// tiles than pixels along each axis.
pub fn tiles(width: u32, height: u32, x_tiles: u32, y_tiles: u32) -> (c: CanvasTile)
    requires
        1 <= x_tiles <= width,
        1 <= y_tiles <= height,
        width * height <= usize::MAX,
    ensures
        c.wf(),
        !c.done(),
        c.pulled() == 0,
        c.width == width as usize,
        c.height == height as usize,
        c.x_inc as int == width as int / x_tiles as int,
        c.y_inc as int == height as int / y_tiles as int,
{
    let c = CanvasTile {
        x_inc: (width / x_tiles) as usize,
        y_inc: (height / y_tiles) as usize,
        width: width as usize,
        height: height as usize,
        x: 0,
        y: 0,
        idx: 0,
    };
    proof {
        let w = width as int;
        let xt = x_tiles as int;
        let h = height as int;
        let yt = y_tiles as int;
        assert(1 <= w / xt) by {
            vstd::arithmetic::div_mod::lemma_div_non_zero(w, xt);
        }
        assert(w / xt <= w) by {
            vstd::arithmetic::div_mod::lemma_div_nonincreasing(w, xt);
        }
        assert(1 <= h / yt) by {
            vstd::arithmetic::div_mod::lemma_div_non_zero(h, yt);
        }
        assert(h / yt <= h) by {
            vstd::arithmetic::div_mod::lemma_div_nonincreasing(h, yt);
        }
        assert(c.grid_ok());
        assert(0int % (c.x_inc as int) == 0) by {
            vstd::arithmetic::div_mod::lemma_small_mod(0, c.x_inc as nat);
        }
        assert(0int % (c.y_inc as int) == 0) by {
            vstd::arithmetic::div_mod::lemma_small_mod(0, c.y_inc as nat);
        }
        assert(0int / (c.x_inc as int) == 0 && 0int / (c.y_inc as int) == 0) by {
            vstd::arithmetic::div_mod::lemma_basic_div_specific_divisor(c.x_inc as int);
            vstd::arithmetic::div_mod::lemma_basic_div_specific_divisor(c.y_inc as int);
        }
        assert(c.wf());
    }
    c
}

impl CanvasTile {
    /// Whether the walk still has tiles to produce.
    pub fn has_next(&self) -> (r: bool)
        ensures
            r == !self.done(),
    {
        self.y < self.height
    }

    /// Produces the next tile of the row-major walk, or `None` once every
    /// tile has been produced. No two calls ever yield the same tile: each
    /// call yields the tile whose sequence number equals the number of tiles
    /// pulled before it.
    pub fn next(&mut self) -> (r: Option<Tile>)
        requires
            old(self).wf(),
        ensures
            final(self).wf(),
            final(self).same_grid(*old(self)),
            old(self).done() ==> r is None && *final(self) == *old(self),
            !old(self).done() ==> r == Some(old(self).peek()) && final(self).pulled() == old(
                self,
            ).pulled() + 1,
    {
        if self.y >= self.height {
            None
        } else {
            proof {
                lemma_next_tile_shape(*self);
            }
            let x_from = self.x;
            let x_to = if self.x_inc < self.width - self.x {
                self.x + self.x_inc
            } else {
                self.width
            };
            let y_from = self.y;
            let y_to = if self.y_inc < self.height - self.y {
                self.y + self.y_inc
            } else {
                self.height
            };
            let tile = Tile { x_from, x_to, y_from, y_to, idx: self.idx };

            proof {
                lemma_next_advance(*self);
            }
            self.idx = self.idx + 1;
            if self.x_inc < self.width - self.x {
                self.x = self.x + self.x_inc;
            } else {
                self.x = 0;
                if self.y_inc < self.height - self.y {
                    self.y = self.y + self.y_inc;
                } else {
                    self.y = self.height;
                }
            }

            Some(tile)
        }
    }
}

/// Whether the pixel at column `px`, row `py` lies inside tile `t`.
pub open spec fn tile_contains(t: Tile, px: int, py: int) -> bool {
    &&& t.x_from <= px < t.x_to
    &&& t.y_from <= py < t.y_to
}

/// The index of the one tile of the grid that covers pixel `(px, py)`.
pub open spec fn tile_index_of(width: int, x_inc: int, y_inc: int, px: int, py: int) -> int {
    (py / y_inc) * num_cols(width, x_inc) + px / x_inc
}

/// A value `v` lies in the `q`-th block of size `d` exactly when `v / d == q`.
proof fn lemma_block_of(v: int, d: int, q: int)
    requires
        1 <= d,
        0 <= v,
        0 <= q,
    ensures
        (q * d <= v < q * d + d) <==> v / d == q,
{
    if q * d <= v < q * d + d {
        lemma_fundamental_div_mod_converse(v, d, q, v - q * d);
    }
    if v / d == q {
        lemma_fundamental_div_mod(v, d);
        assert(v == d * (v / d) + v % d);
        assert(0 <= v % d < d) by {
            vstd::arithmetic::div_mod::lemma_mod_division_less_than_divisor(v, d);
            vstd::arithmetic::div_mod::lemma_remainder_lower(v, d);
        }
        vstd::arithmetic::mul::lemma_mul_is_commutative(d, q);
    }
}

/// The fields of the `k`-th tile, as mathematical integers: the usize casts
/// in `spec_tile` are lossless, the tile is non-empty, lies inside the
/// canvas, and carries `k` as its index.
pub proof fn lemma_tile_shape(width: int, height: int, x_inc: int, y_inc: int, k: int)
    requires
        grid_wf(width, height, x_inc, y_inc),
        0 <= k < tile_count(width, height, x_inc, y_inc),
    ensures
        ({
            let t = spec_tile(width, height, x_inc, y_inc, k);
            let cols = num_cols(width, x_inc);
            &&& 0 <= k % cols < cols
            &&& 0 <= k / cols < num_rows(height, y_inc)
            &&& t.x_from as int == (k % cols) * x_inc
            &&& t.x_to as int == min_int((k % cols) * x_inc + x_inc, width)
            &&& t.y_from as int == (k / cols) * y_inc
            &&& t.y_to as int == min_int((k / cols) * y_inc + y_inc, height)
            &&& t.idx == k
            &&& t.x_from < t.x_to <= width
            &&& t.y_from < t.y_to <= height
        }),
{
    let cols = num_cols(width, x_inc);
    let rows = num_rows(height, y_inc);
    let i = k % cols;
    let j = k / cols;
    lemma_ceil_div(width, x_inc);
    lemma_ceil_div(height, y_inc);
    lemma_count_le_pixels(width, height, x_inc, y_inc);
    assert(0 <= i < cols) by {
        vstd::arithmetic::div_mod::lemma_mod_division_less_than_divisor(k, cols);
        vstd::arithmetic::div_mod::lemma_remainder_lower(k, cols);
    }
    assert(0 <= j) by {
        vstd::arithmetic::div_mod::lemma_div_pos_is_pos(k, cols);
    }
    assert(j < rows) by {
        if j >= rows {
            lemma_fundamental_div_mod(k, cols);
            assert(k == cols * j + i);
            lemma_mul_inequality(rows, j, cols);
            assert(rows * cols <= j * cols);
            vstd::arithmetic::mul::lemma_mul_is_commutative(cols, j);
            vstd::arithmetic::mul::lemma_mul_is_commutative(rows, cols);
        }
    }
    // Bounds of the tile's pixel ranges.
    assert(i * x_inc + x_inc <= cols * x_inc) by {
        lemma_mul_inequality(i + 1, cols, x_inc);
        lemma_mul_is_distributive_add_other_way(x_inc, i, 1);
    }
    assert(i * x_inc < width) by {
        lemma_mul_inequality(i, cols - 1, x_inc);
        assert(i * x_inc <= (cols - 1) * x_inc);
    }
    assert(j * y_inc + y_inc <= rows * y_inc) by {
        lemma_mul_inequality(j + 1, rows, y_inc);
        lemma_mul_is_distributive_add_other_way(y_inc, j, 1);
    }
    assert(j * y_inc < height) by {
        lemma_mul_inequality(j, rows - 1, y_inc);
        assert(j * y_inc <= (rows - 1) * y_inc);
    }
    assert(0 <= i * x_inc) by {
        vstd::arithmetic::mul::lemma_mul_nonnegative(i, x_inc);
    }
    assert(0 <= j * y_inc) by {
        vstd::arithmetic::mul::lemma_mul_nonnegative(j, y_inc);
    }
    // The canvas dimensions, and so the tile bounds, fit in usize.
    assert(width <= width * height) by {
        lemma_mul_inequality(1, height, width);
        vstd::arithmetic::mul::lemma_mul_is_commutative(height, width);
    }
    assert(height <= width * height) by {
        lemma_mul_inequality(1, width, height);
        vstd::arithmetic::mul::lemma_mul_is_commutative(width, height);
    }
    let t = spec_tile(width, height, x_inc, y_inc, k);
    assert(t.x_from as int == i * x_inc);
    assert(t.x_to as int == min_int(i * x_inc + x_inc, width));
    assert(t.y_from as int == j * y_inc);
    assert(t.y_to as int == min_int(j * y_inc + y_inc, height));
    assert(t.idx == k);
    assert(t.x_from < t.x_to <= width);
    assert(t.y_from < t.y_to <= height);
}

/// The tiles of one grid exactly tile the canvas: a pixel `(px, py)` lies in
/// the `k`-th tile precisely when `k` is that pixel's tile index, which is a
/// valid index. So every pixel is covered by exactly one tile: no gaps and
/// no overlaps.
pub proof fn lemma_tiles_partition(
    width: int,
    height: int,
    x_inc: int,
    y_inc: int,
    px: int,
    py: int,
    k: int,
)
    requires
        grid_wf(width, height, x_inc, y_inc),
        0 <= px < width,
        0 <= py < height,
        0 <= k < tile_count(width, height, x_inc, y_inc),
    ensures
        0 <= tile_index_of(width, x_inc, y_inc, px, py) < tile_count(width, height, x_inc, y_inc),
        tile_contains(spec_tile(width, height, x_inc, y_inc, k), px, py) <==> k == tile_index_of(
            width,
            x_inc,
            y_inc,
            px,
            py,
        ),
{
    let cols = num_cols(width, x_inc);
    let rows = num_rows(height, y_inc);
    let i = k % cols;
    let j = k / cols;
    let ip = px / x_inc;
    let jp = py / y_inc;
    let t = spec_tile(width, height, x_inc, y_inc, k);
    lemma_tile_shape(width, height, x_inc, y_inc, k);
    lemma_ceil_div(width, x_inc);
    lemma_ceil_div(height, y_inc);
    // The pixel's own column and row indices are valid grid coordinates.
    assert(0 <= ip < cols) by {
        vstd::arithmetic::div_mod::lemma_div_pos_is_pos(px, x_inc);
        lemma_block_of(px, x_inc, ip);
        lemma_fundamental_div_mod(px, x_inc);
        if ip >= cols {
            lemma_mul_inequality(cols, ip, x_inc);
            assert(cols * x_inc <= ip * x_inc);
            assert(ip * x_inc <= px) by {
                vstd::arithmetic::div_mod::lemma_remainder_lower(px, x_inc);
                vstd::arithmetic::mul::lemma_mul_is_commutative(x_inc, ip);
            }
        }
    }
    assert(0 <= jp < rows) by {
        vstd::arithmetic::div_mod::lemma_div_pos_is_pos(py, y_inc);
        if jp >= rows {
            lemma_mul_inequality(rows, jp, y_inc);
            assert(rows * y_inc <= jp * y_inc);
            assert(jp * y_inc <= py) by {
                vstd::arithmetic::div_mod::lemma_remainder_lower(py, y_inc);
                vstd::arithmetic::mul::lemma_mul_is_commutative(y_inc, jp);
            }
        }
    }
    assert(0 <= jp * cols + ip < rows * cols) by {
        lemma_mul_inequality(jp, rows - 1, cols);
        lemma_mul_is_distributive_sub_other_way(cols, rows, 1);
        vstd::arithmetic::mul::lemma_mul_nonnegative(jp, cols);
        vstd::arithmetic::mul::lemma_mul_is_commutative(rows, cols);
    }
    // Membership in the tile's column range is exactly ip == i; same for rows.
    assert((i * x_inc <= px < i * x_inc + x_inc) <==> ip == i) by {
        lemma_block_of(px, x_inc, i);
    }
    assert((j * y_inc <= py < j * y_inc + y_inc) <==> jp == j) by {
        lemma_block_of(py, y_inc, j);
    }
    assert(tile_contains(t, px, py) <==> (ip == i && jp == j));
    if tile_contains(t, px, py) {
        lemma_fundamental_div_mod(k, cols);
        vstd::arithmetic::mul::lemma_mul_is_commutative(cols, j);
        assert(k == jp * cols + ip);
    }
    if k == tile_index_of(width, x_inc, y_inc, px, py) {
        lemma_fundamental_div_mod_converse(k, cols, jp, ip);
        assert(i == ip && j == jp);
    }
}

/// Tile indices are assigned contiguously: the `k`-th tile of the walk
/// carries index `k`, so across one grid the indices are exactly the range
/// from 0 to the tile count. In particular two distinct positions of the
/// walk never yield the same tile.
pub proof fn lemma_tiles_distinct(
    width: int,
    height: int,
    x_inc: int,
    y_inc: int,
    k1: int,
    k2: int,
)
    requires
        grid_wf(width, height, x_inc, y_inc),
        0 <= k1 < tile_count(width, height, x_inc, y_inc),
        0 <= k2 < tile_count(width, height, x_inc, y_inc),
        k1 != k2,
    ensures
        spec_tile(width, height, x_inc, y_inc, k1).idx == k1,
        spec_tile(width, height, x_inc, y_inc, k2).idx == k2,
        spec_tile(width, height, x_inc, y_inc, k1) != spec_tile(width, height, x_inc, y_inc, k2),
{
    lemma_tile_shape(width, height, x_inc, y_inc, k1);
    lemma_tile_shape(width, height, x_inc, y_inc, k2);
}

/// When the tile counts divide the canvas evenly, the grid has exactly
/// `x_tiles * y_tiles` tiles, so the indices are exactly the range from 0 to
/// `x_tiles * y_tiles`.
pub proof fn lemma_count_exact_grid(width: int, height: int, x_tiles: int, y_tiles: int)
    requires
        1 <= x_tiles <= width,
        1 <= y_tiles <= height,
        width % x_tiles == 0,
        height % y_tiles == 0,
    ensures
        num_cols(width, width / x_tiles) == x_tiles,
        num_rows(height, height / y_tiles) == y_tiles,
        tile_count(width, height, width / x_tiles, height / y_tiles) == x_tiles * y_tiles,
{
    let xi = width / x_tiles;
    let yi = height / y_tiles;
    lemma_fundamental_div_mod(width, x_tiles);
    lemma_fundamental_div_mod(height, y_tiles);
    assert(width == x_tiles * xi);
    assert(height == y_tiles * yi);
    assert(1 <= xi) by {
        vstd::arithmetic::div_mod::lemma_div_non_zero(width, x_tiles);
    }
    assert(1 <= yi) by {
        vstd::arithmetic::div_mod::lemma_div_non_zero(height, y_tiles);
    }
    // (x_tiles * xi + xi - 1) / xi == x_tiles, with remainder xi - 1.
    assert((width + xi - 1) / xi == x_tiles) by {
        vstd::arithmetic::mul::lemma_mul_is_commutative(x_tiles, xi);
        lemma_fundamental_div_mod_converse(width + xi - 1, xi, x_tiles, xi - 1);
    }
    assert((height + yi - 1) / yi == y_tiles) by {
        vstd::arithmetic::mul::lemma_mul_is_commutative(y_tiles, yi);
        lemma_fundamental_div_mod_converse(height + yi - 1, yi, y_tiles, yi - 1);
    }
}

/// No two pulls from one walk ever yield the same tile: states of the same
/// grid that have handed out different numbers of tiles hand out different
/// tiles next, whichever threads take turns advancing the walk under its
/// lock.
pub proof fn lemma_pulls_distinct(c1: CanvasTile, c2: CanvasTile)
    requires
        c1.wf(),
        c2.wf(),
        c1.same_grid(c2),
        !c1.done(),
        !c2.done(),
        c1.pulled() != c2.pulled(),
    ensures
        c1.peek() != c2.peek(),
{
    lemma_next_tile_shape(c1);
    lemma_next_tile_shape(c2);
    lemma_tiles_distinct(
        c1.width as int,
        c1.height as int,
        c1.x_inc as int,
        c1.y_inc as int,
        c1.pulled(),
        c2.pulled(),
    );
}

/// While the walk is not done, its position names exactly the tile
/// `spec_tile(pulled())`: the column and row recovered from `idx` are the
/// position's column and row.
pub proof fn lemma_next_tile_shape(c: CanvasTile)
    requires
        c.wf(),
        !c.done(),
    ensures
        c.pulled() < c.count(),
        c.pulled() % c.cols() == c.x as int / c.x_inc as int,
        c.pulled() / c.cols() == c.y as int / c.y_inc as int,
        0 <= c.x as int / (c.x_inc as int) < c.cols(),
        0 <= c.y as int / (c.y_inc as int) < c.rows(),
        c.x as int == (c.pulled() % c.cols()) * c.x_inc as int,
        c.y as int == (c.pulled() / c.cols()) * c.y_inc as int,
        c.peek().x_from == c.x,
        c.peek().y_from == c.y,
        c.peek().x_to as int == min_int(c.x as int + c.x_inc as int, c.width as int),
        c.peek().y_to as int == min_int(c.y as int + c.y_inc as int, c.height as int),
        c.peek().idx == c.idx,
{
    let xi = c.x_inc as int;
    let yi = c.y_inc as int;
    let w = c.width as int;
    let h = c.height as int;
    let x = c.x as int;
    let y = c.y as int;
    let cols = c.cols();
    let rows = c.rows();
    let qx = x / xi;
    let qy = y / yi;
    lemma_ceil_div(w, xi);
    lemma_ceil_div(h, yi);
    lemma_fundamental_div_mod(x, xi);
    lemma_fundamental_div_mod(y, yi);
    assert(x == qx * xi) by {
        vstd::arithmetic::mul::lemma_mul_is_commutative(xi, qx);
    }
    assert(y == qy * yi) by {
        vstd::arithmetic::mul::lemma_mul_is_commutative(yi, qy);
    }
    // The column index is below cols, the row index below rows.
    assert(qx < cols) by {
        if qx >= cols {
            lemma_mul_inequality(cols, qx, xi);
            assert(cols * xi <= qx * xi);
        }
    }
    assert(qy < rows) by {
        if qy >= rows {
            lemma_mul_inequality(rows, qy, yi);
            assert(rows * yi <= qy * yi);
        }
    }
    assert(0 <= qx) by {
        vstd::arithmetic::div_mod::lemma_div_pos_is_pos(x, xi);
    }
    assert(0 <= qy) by {
        vstd::arithmetic::div_mod::lemma_div_pos_is_pos(y, yi);
    }
    // idx == qy * cols + qx with 0 <= qx < cols pins idx's div and mod.
    lemma_fundamental_div_mod_converse(c.pulled(), cols, qy, qx);
    assert(c.pulled() % cols == qx && c.pulled() / cols == qy);
    // idx < count.
    assert(c.pulled() < c.count()) by {
        assert(qy * cols + qx <= (rows - 1) * cols + (cols - 1)) by {
            lemma_mul_inequality(qy, rows - 1, cols);
        }
        lemma_mul_is_distributive_sub_other_way(cols, rows, 1);
    }
}

/// Advancing the walk by one grid cell preserves well-formedness and
/// increments the pulled count: this is the state change `next` makes.
proof fn lemma_next_advance(c: CanvasTile)
    requires
        c.wf(),
        !c.done(),
    ensures
        c.idx as int + 1 <= usize::MAX,
        (c.x_inc as int) < c.width as int - c.x as int ==> (CanvasTile {
            x: (c.x + c.x_inc) as usize,
            idx: (c.idx + 1) as usize,
            ..c
        }).wf(),
        !((c.x_inc as int) < c.width as int - c.x as int) && (c.y_inc as int) < c.height as int - c.y as int ==> (CanvasTile {
            x: 0,
            y: (c.y + c.y_inc) as usize,
            idx: (c.idx + 1) as usize,
            ..c
        }).wf(),
        !((c.x_inc as int) < c.width as int - c.x as int) && !((c.y_inc as int) < c.height as int - c.y as int) ==> (CanvasTile {
            x: 0,
            y: c.height,
            idx: (c.idx + 1) as usize,
            ..c
        }).wf(),
{
    let xi = c.x_inc as int;
    let yi = c.y_inc as int;
    let w = c.width as int;
    let h = c.height as int;
    let x = c.x as int;
    let y = c.y as int;
    let cols = c.cols();
    let rows = c.rows();
    let qx = x / xi;
    let qy = y / yi;
    lemma_next_tile_shape(c);
    lemma_count_le_pixels(w, h, xi, yi);
    assert(w * h <= usize::MAX);
    lemma_ceil_div(w, xi);
    lemma_ceil_div(h, yi);
    assert(0 <= qx && 0 <= qy && qx < cols && qy < rows);
    assert(c.pulled() % cols == qx && c.pulled() / cols == qy);
    if xi < w - x {
        // Stay in the row: the new column index is qx + 1.
        let x2 = x + xi;
        assert(x2 == (qx + 1) * xi) by {
            lemma_mul_is_distributive_add_other_way(xi, qx, 1);
        }
        assert(x2 % xi == 0 && x2 / xi == qx + 1) by {
            lemma_fundamental_div_mod_converse(x2, xi, qx + 1, 0);
        }
        assert(c.pulled() + 1 == qy * cols + (qx + 1));
    } else {
        // Wrap to the next row: the current column must be the last one.
        assert(qx == cols - 1) by {
            // x + xi >= w means (qx + 1) * xi >= w, so qx + 1 >= cols.
            let x2 = x + xi;
            assert(x2 == (qx + 1) * xi) by {
                lemma_mul_is_distributive_add_other_way(xi, qx, 1);
            }
            if qx + 1 < cols {
                lemma_mul_inequality(qx + 2, cols, xi);
                assert((qx + 2) * xi <= cols * xi);
                lemma_mul_is_distributive_add_other_way(xi, qx + 1, 1);
                assert((qx + 2) * xi == (qx + 1) * xi + xi);
                assert((cols - 1) * xi < w);
                lemma_mul_is_distributive_sub_other_way(xi, cols, 1);
            }
        }
        assert(c.pulled() + 1 == (qy + 1) * cols) by {
            lemma_mul_is_distributive_add_other_way(cols, qy, 1);
        }
        if yi < h - y {
            let y2 = y + yi;
            assert(y2 == (qy + 1) * yi) by {
                lemma_mul_is_distributive_add_other_way(yi, qy, 1);
            }
            assert(y2 % yi == 0 && y2 / yi == qy + 1) by {
                lemma_fundamental_div_mod_converse(y2, yi, qy + 1, 0);
            }
            assert(0int % xi == 0 && 0int / xi == 0) by {
                vstd::arithmetic::div_mod::lemma_small_mod(0, xi as nat);
                vstd::arithmetic::div_mod::lemma_basic_div_specific_divisor(xi);
            }
        } else {
            // Last row as well: the walk is exhausted, idx reaches count.
            assert(qy == rows - 1) by {
                let y2 = y + yi;
                assert(y2 == (qy + 1) * yi) by {
                    lemma_mul_is_distributive_add_other_way(yi, qy, 1);
                }
                if qy + 1 < rows {
                    lemma_mul_inequality(qy + 2, rows, yi);
                    lemma_mul_is_distributive_add_other_way(yi, qy + 1, 1);
                    assert((rows - 1) * yi < h);
                    lemma_mul_is_distributive_sub_other_way(yi, rows, 1);
                }
            }
            assert(c.pulled() + 1 == rows * cols) by {
                vstd::arithmetic::mul::lemma_mul_is_commutative(rows, cols);
            }
            assert(c.pulled() + 1 == c.count()) by {
                vstd::arithmetic::mul::lemma_mul_is_commutative(rows, cols);
            }
        }
    }
}

} // verus!
