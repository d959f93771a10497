//! The worker side of the pipeline: computing every pixel of a tile with a
//! per-pixel kernel, for one tile or for the whole canvas.
//!
//! The kernel is any function from a pixel coordinate to its color; the
//! escape-time iteration is one such function. What a worker promises is
//! stated against the kernel's own contract: each produced point carries a
//! color the kernel may return for exactly that coordinate.

use vstd::arithmetic::div_mod::lemma_fundamental_div_mod_converse;
use vstd::prelude::*;

use crate::color::Color;
use crate::tile::{spec_tile, tile_count, tiles, Tile, TileData, TileDataPoint};

verus! {

/// Width of a tile in pixels.
pub open spec fn tile_width(t: Tile) -> int {
    t.x_to - t.x_from
}

/// Height of a tile in pixels.
pub open spec fn tile_height(t: Tile) -> int {
    t.y_to - t.y_from
}

/// Number of pixels in a tile.
pub open spec fn tile_area(t: Tile) -> int {
    tile_width(t) * tile_height(t)
}

/// A tile that covers at least one pixel, with ranges in the right order.
pub open spec fn tile_nonempty(t: Tile) -> bool {
    &&& t.x_from < t.x_to
    &&& t.y_from < t.y_to
}

/// The canvas column of the `k`-th pixel of a tile, walking the tile
/// row-major.
pub open spec fn point_x(t: Tile, k: int) -> int {
    t.x_from + k % tile_width(t)
}

/// The canvas row of the `k`-th pixel of a tile, walking the tile
/// row-major.
pub open spec fn point_y(t: Tile, k: int) -> int {
    t.y_from + k / tile_width(t)
}

/// What a worker produces for a tile: one point per pixel of the tile in
/// row-major order, each carrying a color the kernel `f` may return for
/// that pixel's coordinate.
pub open spec fn points_match<F: Fn(usize, usize) -> Color>(
    pts: Seq<TileDataPoint>,
    t: Tile,
    f: F,
) -> bool {
    &&& pts.len() == tile_area(t)
    &&& forall|k: int|
        0 <= k < pts.len() ==> {
            &&& (#[trigger] pts[k]).x as int == point_x(t, k)
            &&& pts[k].y as int == point_y(t, k)
            &&& call_ensures(f, (pts[k].x, pts[k].y), pts[k].c)
        }
}

/// The pixel walked at column `x`, row `y` of tile `t` is the
/// `(y - y_from) * width + (x - x_from)`-th of the tile.
pub proof fn lemma_point_index(t: Tile, x: int, y: int)
    requires
        tile_nonempty(t),
        t.x_from <= x < t.x_to,
        t.y_from <= y < t.y_to,
    ensures
        ({
            let k = (y - t.y_from) * tile_width(t) + (x - t.x_from);
            &&& 0 <= k < tile_area(t)
            &&& point_x(t, k) == x
            &&& point_y(t, k) == y
        }),
{
    let tw = tile_width(t);
    let th = tile_height(t);
    let k = (y - t.y_from) * tw + (x - t.x_from);
    lemma_fundamental_div_mod_converse(k, tw, y - t.y_from, x - t.x_from);
    assert(0 <= k) by {
        vstd::arithmetic::mul::lemma_mul_nonnegative(y - t.y_from, tw);
    }
    assert(k < th * tw) by {
        vstd::arithmetic::mul::lemma_mul_inequality(y - t.y_from, th - 1, tw);
        vstd::arithmetic::mul::lemma_mul_is_distributive_sub_other_way(tw, th, 1);
    }
    vstd::arithmetic::mul::lemma_mul_is_commutative(th, tw);
}

/// Computes the color of every pixel of one tile, row-major: the body of a
/// worker's per-tile step.
pub fn compute_tile_points<F: Fn(usize, usize) -> Color>(t: &Tile, f: &F) -> (pts: Vec<
    TileDataPoint,
>)
    requires
        tile_nonempty(*t),
        forall|x: usize, y: usize|
            t.x_from <= x < t.x_to && t.y_from <= y < t.y_to ==> call_requires(*f, (x, y)),
    ensures
        points_match(pts@, *t, *f),
{
    let mut pts: Vec<TileDataPoint> = Vec::new();
    let mut y = t.y_from;
    while y < t.y_to
        invariant
            tile_nonempty(*t),
            forall|xq: usize, yq: usize|
                t.x_from <= xq < t.x_to && t.y_from <= yq < t.y_to ==> call_requires(
                    *f,
                    (xq, yq),
                ),
            t.y_from <= y <= t.y_to,
            pts@.len() == (y - t.y_from) * tile_width(*t),
            forall|k: int|
                0 <= k < pts@.len() ==> {
                    &&& (#[trigger] pts@[k]).x as int == point_x(*t, k)
                    &&& pts@[k].y as int == point_y(*t, k)
                    &&& call_ensures(*f, (pts@[k].x, pts@[k].y), pts@[k].c)
                },
        decreases t.y_to - y,
    {
        let mut x = t.x_from;
        while x < t.x_to
            invariant
                tile_nonempty(*t),
                forall|xq: usize, yq: usize|
                    t.x_from <= xq < t.x_to && t.y_from <= yq < t.y_to ==> call_requires(
                        *f,
                        (xq, yq),
                    ),
                t.y_from <= y < t.y_to,
                t.x_from <= x <= t.x_to,
                pts@.len() == (y - t.y_from) * tile_width(*t) + (x - t.x_from),
                forall|k: int|
                    0 <= k < pts@.len() ==> {
                        &&& (#[trigger] pts@[k]).x as int == point_x(*t, k)
                        &&& pts@[k].y as int == point_y(*t, k)
                        &&& call_ensures(*f, (pts@[k].x, pts@[k].y), pts@[k].c)
                    },
            decreases t.x_to - x,
        {
            proof {
                lemma_point_index(*t, x as int, y as int);
            }
            let c = f(x, y);
            pts.push(TileDataPoint::new(x, y, c));
            x = x + 1;
        }
        proof {
            vstd::arithmetic::mul::lemma_mul_is_distributive_add_other_way(
                tile_width(*t),
                y - t.y_from,
                1,
            );
        }
        y = y + 1;
    }
    proof {
        vstd::arithmetic::mul::lemma_mul_is_commutative(tile_height(*t), tile_width(*t));
    }
    pts
}

/// Computes one tile completely: the tile's sequence number together with
/// all its pixels.
pub fn compute_tile<F: Fn(usize, usize) -> Color>(t: &Tile, f: &F) -> (td: TileData)
    requires
        tile_nonempty(*t),
        forall|x: usize, y: usize|
            t.x_from <= x < t.x_to && t.y_from <= y < t.y_to ==> call_requires(*f, (x, y)),
    ensures
        td.idx == t.idx,
        points_match(td.points@, *t, *f),
{
    let pts = compute_tile_points(t, f);
    TileData::new(t.get_idx(), pts)
}

/// Computes one tile with a kernel that may fail on a pixel, as an
/// escape-time kernel that panics is caught at the worker's loop boundary.
/// The first failing pixel loses the whole tile: no partial result is
/// produced, and the lost tile is never retried, so the image keeps the
/// default color there.
pub fn try_compute_tile<F: Fn(usize, usize) -> Option<Color>>(t: &Tile, f: &F) -> (r: Option<
    TileData,
>)
    requires
        tile_nonempty(*t),
        forall|x: usize, y: usize|
            t.x_from <= x < t.x_to && t.y_from <= y < t.y_to ==> call_requires(*f, (x, y)),
    ensures
        r is Some ==> {
            &&& r->Some_0.idx == t.idx
            &&& r->Some_0.points@.len() == tile_area(*t)
            &&& forall|k: int|
                0 <= k < r->Some_0.points@.len() ==> {
                    &&& (#[trigger] r->Some_0.points@[k]).x as int == point_x(*t, k)
                    &&& r->Some_0.points@[k].y as int == point_y(*t, k)
                    &&& call_ensures(
                        *f,
                        (r->Some_0.points@[k].x, r->Some_0.points@[k].y),
                        Some(r->Some_0.points@[k].c),
                    )
                }
        },
        r is None ==> exists|x: usize, y: usize|
            t.x_from <= x < t.x_to && t.y_from <= y < t.y_to && call_ensures(
                *f,
                (x, y),
                None::<Color>,
            ),
{
    let mut pts: Vec<TileDataPoint> = Vec::new();
    let mut y = t.y_from;
    while y < t.y_to
        invariant
            tile_nonempty(*t),
            forall|xq: usize, yq: usize|
                t.x_from <= xq < t.x_to && t.y_from <= yq < t.y_to ==> call_requires(
                    *f,
                    (xq, yq),
                ),
            t.y_from <= y <= t.y_to,
            pts@.len() == (y - t.y_from) * tile_width(*t),
            forall|k: int|
                0 <= k < pts@.len() ==> {
                    &&& (#[trigger] pts@[k]).x as int == point_x(*t, k)
                    &&& pts@[k].y as int == point_y(*t, k)
                    &&& call_ensures(*f, (pts@[k].x, pts@[k].y), Some(pts@[k].c))
                },
        decreases t.y_to - y,
    {
        let mut x = t.x_from;
        while x < t.x_to
            invariant
                tile_nonempty(*t),
                forall|xq: usize, yq: usize|
                    t.x_from <= xq < t.x_to && t.y_from <= yq < t.y_to ==> call_requires(
                        *f,
                        (xq, yq),
                    ),
                t.y_from <= y < t.y_to,
                t.x_from <= x <= t.x_to,
                pts@.len() == (y - t.y_from) * tile_width(*t) + (x - t.x_from),
                forall|k: int|
                    0 <= k < pts@.len() ==> {
                        &&& (#[trigger] pts@[k]).x as int == point_x(*t, k)
                        &&& pts@[k].y as int == point_y(*t, k)
                        &&& call_ensures(*f, (pts@[k].x, pts@[k].y), Some(pts@[k].c))
                    },
            decreases t.x_to - x,
        {
            proof {
                lemma_point_index(*t, x as int, y as int);
            }
            match f(x, y) {
                Some(c) => {
                    pts.push(TileDataPoint::new(x, y, c));
                },
                None => {
                    return None;
                },
            }
            x = x + 1;
        }
        proof {
            vstd::arithmetic::mul::lemma_mul_is_distributive_add_other_way(
                tile_width(*t),
                y - t.y_from,
                1,
            );
        }
        y = y + 1;
    }
    proof {
        vstd::arithmetic::mul::lemma_mul_is_commutative(tile_height(*t), tile_width(*t));
    }
    Some(TileData::new(t.get_idx(), pts))
}

/// Renders the whole canvas pixel by pixel in one thread, without tiling:
/// the non-streaming mode. The pixel at column `x`, row `y` lands at index
/// `y * width + x`.
pub fn render_direct<F: Fn(usize, usize) -> Color>(width: u32, height: u32, f: &F) -> (img:
    crate::fractal_image::FractalImage)
    requires
        1 <= width,
        1 <= height,
        width * height <= usize::MAX,
        forall|x: usize, y: usize| x < width && y < height ==> call_requires(*f, (x, y)),
    ensures
        img.width == width,
        img.height == height,
        crate::fractal_image::image_wf(img),
        forall|x: usize, y: usize|
            x < width && y < height ==> call_ensures(
                *f,
                (x, y),
                img.pixels@[crate::collect::lin(width as int, x as int, y as int)],
            ),
{
    let mut pixels: Vec<Color> = Vec::new();
    let mut y: usize = 0;
    let w = width as usize;
    let h = height as usize;
    while y < h
        invariant
            w == width as int,
            h == height as int,
            width as int * height as int <= usize::MAX,
            forall|xq: usize, yq: usize| xq < width && yq < height ==> call_requires(*f, (xq, yq)),
            0 <= y <= h,
            pixels@.len() == y * w,
            forall|xq: usize, yq: usize|
                xq < width && yq < y ==> call_ensures(
                    *f,
                    (xq, yq),
                    pixels@[crate::collect::lin(width as int, xq as int, yq as int)],
                ),
        decreases h - y,
    {
        let mut x: usize = 0;
        proof {
            assert(y * w + w <= h * w) by (nonlinear_arith)
                requires
                    0 <= y,
                    0 <= w,
                    y < h,
            {}
            vstd::arithmetic::mul::lemma_mul_is_commutative(h as int, w as int);
        }
        while x < w
            invariant
                w == width as int,
                h == height as int,
                y < h,
                y * w + w <= h * w,
                h * w == width as int * height as int,
                width as int * height as int <= usize::MAX,
                forall|xq: usize, yq: usize|
                    xq < width && yq < height ==> call_requires(*f, (xq, yq)),
                0 <= x <= w,
                pixels@.len() == y * w + x,
                forall|xq: usize, yq: usize|
                    xq < width && yq < y ==> call_ensures(
                        *f,
                        (xq, yq),
                        pixels@[crate::collect::lin(width as int, xq as int, yq as int)],
                    ),
                forall|xq: usize|
                    xq < x ==> call_ensures(
                        *f,
                        (xq, y),
                        pixels@[crate::collect::lin(width as int, xq as int, y as int)],
                    ),
            decreases w - x,
        {
            let c = f(x, y);
            pixels.push(c);
            proof {
                assert forall|xq: usize, yq: usize|
                    xq < width && yq < y implies crate::collect::lin(
                    width as int,
                    xq as int,
                    yq as int,
                ) < (y as int) * (w as int) by {
                    assert((yq as int) * (w as int) + (xq as int) < (y as int) * (w as int))
                        by (nonlinear_arith)
                        requires
                            (yq as int) < (y as int),
                            (xq as int) < (w as int),
                            0 <= (xq as int),
                            0 <= (yq as int),
                            0 <= (w as int),
                    {}
                }
            }
            x = x + 1;
        }
        proof {
            vstd::arithmetic::mul::lemma_mul_is_distributive_add_other_way(w as int, y as int, 1);
            assert forall|xq: usize, yq: usize|
                xq < width && yq < y implies crate::collect::lin(
                width as int,
                xq as int,
                yq as int,
            ) < (y as int) * (w as int) by {
                assert((yq as int) * (w as int) + (xq as int) < (y as int) * (w as int))
                    by (nonlinear_arith)
                    requires
                        (yq as int) < (y as int),
                        (xq as int) < (w as int),
                        0 <= (xq as int),
                        0 <= (yq as int),
                        0 <= (w as int),
                {}
            }
        }
        y = y + 1;
    }
    proof {
        vstd::arithmetic::mul::lemma_mul_is_commutative(h as int, w as int);
    }
    crate::fractal_image::FractalImage { width, height, pixels }
}

/// Runs the whole partition-and-compute pipeline in one thread: walks every
/// tile of the grid in order and computes its pixels. The result holds one
/// tile result per tile, in index order.
pub fn compute_all_tiles<F: Fn(usize, usize) -> Color>(
    width: u32,
    height: u32,
    x_tiles: u32,
    y_tiles: u32,
    f: &F,
) -> (out: Vec<TileData>)
    requires
        1 <= x_tiles <= width,
        1 <= y_tiles <= height,
        width * height <= usize::MAX,
        forall|x: usize, y: usize| x < width && y < height ==> call_requires(*f, (x, y)),
    ensures
        out@.len() == tile_count(
            width as int,
            height as int,
            width as int / x_tiles as int,
            height as int / y_tiles as int,
        ),
        forall|k: int|
            0 <= k < out@.len() ==> {
                let t = spec_tile(
                    width as int,
                    height as int,
                    width as int / x_tiles as int,
                    height as int / y_tiles as int,
                    k,
                );
                &&& (#[trigger] out@[k]).idx == k
                &&& points_match(out@[k].points@, t, *f)
            },
{
    let mut walk = tiles(width, height, x_tiles, y_tiles);
    let mut out: Vec<TileData> = Vec::new();
    while walk.has_next()
        invariant
            walk.wf(),
            walk.width as int == width as int,
            walk.height as int == height as int,
            walk.x_inc as int == width as int / x_tiles as int,
            walk.y_inc as int == height as int / y_tiles as int,
            forall|x: usize, y: usize| x < width && y < height ==> call_requires(*f, (x, y)),
            out@.len() == walk.pulled(),
            walk.done() ==> walk.pulled() == walk.count(),
            forall|k: int|
                0 <= k < out@.len() ==> {
                    let t = spec_tile(
                        width as int,
                        height as int,
                        width as int / x_tiles as int,
                        height as int / y_tiles as int,
                        k,
                    );
                    &&& (#[trigger] out@[k]).idx == k
                    &&& points_match(out@[k].points@, t, *f)
                },
        decreases walk.count() - walk.pulled(),
    {
        proof {
            crate::tile::lemma_next_tile_shape(walk);
            crate::tile::lemma_tile_shape(
                width as int,
                height as int,
                walk.x_inc as int,
                walk.y_inc as int,
                walk.pulled(),
            );
        }
        let ghost pulled_before = walk.pulled();
        match walk.next() {
            None => {
                proof {
                    assert(false);
                }
            },
            Some(t) => {
                proof {
                    assert(t == spec_tile(
                        width as int,
                        height as int,
                        walk.x_inc as int,
                        walk.y_inc as int,
                        pulled_before,
                    ));
                }
                let td = compute_tile(&t, f);
                out.push(td);
            },
        }
    }
    out
}

} // verus!
