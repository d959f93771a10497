//! The collector side of the pipeline: merging completed tile results into
//! a flat image buffer by pixel coordinate.
//!
//! Tile results may arrive in any order; correctness rests on every write
//! going to the index `y * width + x` of its own coordinates, never on the
//! order of arrival.

use vstd::prelude::*;

use crate::color::{default_color, Color};
use crate::fractal_image::FractalImage;
use crate::tile::{TileData, TileDataPoint};

verus! {

/// The linear index of the pixel at column `x`, row `y` in a row-major
/// buffer of the given width.
pub open spec fn lin(width: int, x: int, y: int) -> int {
    y * width + x
}

/// The point lies on a canvas of the given size.
pub open spec fn point_in_canvas(p: TileDataPoint, width: int, height: int) -> bool {
    &&& p.x < width
    &&& p.y < height
}

/// Every point of the tile result lies on the canvas.
pub open spec fn tile_data_in_canvas(td: TileData, width: int, height: int) -> bool {
    forall|k: int|
        0 <= k < td.points@.len() ==> point_in_canvas(#[trigger] td.points@[k], width, height)
}

/// The buffer after writing a sequence of points into it, each at the
/// linear index of its own coordinates, in order.
pub open spec fn write_points(buf: Seq<Color>, pts: Seq<TileDataPoint>, width: int) -> Seq<Color>
    decreases pts.len(),
{
    if pts.len() == 0 {
        buf
    } else {
        let rest = write_points(buf, pts.drop_last(), width);
        let p = pts.last();
        rest.update(lin(width, p.x as int, p.y as int), p.c)
    }
}

/// The buffer after merging a sequence of tile results into it, in order.
pub open spec fn write_tiles(buf: Seq<Color>, tds: Seq<TileData>, width: int) -> Seq<Color>
    decreases tds.len(),
{
    if tds.len() == 0 {
        buf
    } else {
        write_points(write_tiles(buf, tds.drop_last(), width), tds.last().points@, width)
    }
}

/// A pixel on the canvas has its linear index inside the buffer.
pub proof fn lemma_lin_range(width: int, height: int, x: int, y: int)
    requires
        0 <= x < width,
        0 <= y < height,
    ensures
        0 <= lin(width, x, y) < width * height,
{
    assert(0 <= y * width + x < width * height) by (nonlinear_arith)
        requires
            0 <= x < width,
            0 <= y < height,
    {}
}

/// Writing on-canvas points never changes the buffer's length.
pub proof fn lemma_write_points_len(
    buf: Seq<Color>,
    pts: Seq<TileDataPoint>,
    width: int,
    height: int,
)
    requires
        buf.len() == width * height,
        forall|k: int| 0 <= k < pts.len() ==> point_in_canvas(#[trigger] pts[k], width, height),
    ensures
        write_points(buf, pts, width).len() == buf.len(),
    decreases pts.len(),
{
    if pts.len() != 0 {
        lemma_write_points_len(buf, pts.drop_last(), width, height);
        let p = pts.last();
        lemma_lin_range(width, height, p.x as int, p.y as int);
    }
}

/// Merging on-canvas tile results never changes the buffer's length.
pub proof fn lemma_write_tiles_len(
    buf: Seq<Color>,
    tds: Seq<TileData>,
    width: int,
    height: int,
)
    requires
        buf.len() == width * height,
        forall|j: int| 0 <= j < tds.len() ==> tile_data_in_canvas(#[trigger] tds[j], width, height),
    ensures
        write_tiles(buf, tds, width).len() == buf.len(),
    decreases tds.len(),
{
    if tds.len() != 0 {
        lemma_write_tiles_len(buf, tds.drop_last(), width, height);
        lemma_write_points_len(
            write_tiles(buf, tds.drop_last(), width),
            tds.last().points@,
            width,
            height,
        );
    }
}

/// A blank image buffer: one default color per pixel of the canvas.
pub open spec fn blank(width: int, height: int) -> Seq<Color> {
    Seq::new((width * height) as nat, |i: int| default_color())
}

/// Allocates the collector's image buffer, default-colored.
pub fn new_buffer(width: u32, height: u32) -> (v: Vec<Color>)
    requires
        width * height <= usize::MAX,
    ensures
        v@ == blank(width as int, height as int),
{
    let n = (width as usize) * (height as usize);
    let mut v: Vec<Color> = Vec::new();
    let mut i: usize = 0;
    while i < n
        invariant
            n == width as int * height as int,
            0 <= i <= n,
            v@.len() == i,
            forall|j: int| 0 <= j < i ==> v@[j] == default_color(),
        decreases n - i,
    {
        v.push(crate::color::black());
        i = i + 1;
    }
    proof {
        assert(v@ =~= blank(width as int, height as int));
    }
    v
}

/// Writes every point of one tile result into the image buffer, each at
/// the linear index of its own coordinates. This is the collector's merge
/// step for one received tile.
pub fn merge_tile(pixels: &mut Vec<Color>, width: u32, height: u32, td: &TileData)
    requires
        old(pixels)@.len() == width as int * height as int,
        tile_data_in_canvas(*td, width as int, height as int),
    ensures
        final(pixels)@ == write_points(old(pixels)@, td.points@, width as int),
        final(pixels)@.len() == old(pixels)@.len(),
{
    let n = td.points.len();
    let mut i: usize = 0;
    while i < n
        invariant
            n == td.points@.len(),
            0 <= i <= n,
            pixels@.len() == width as int * height as int,
            tile_data_in_canvas(*td, width as int, height as int),
            pixels@ == write_points(old(pixels)@, td.points@.take(i as int), width as int),
        decreases n - i,
    {
        let p = &td.points[i];
        let buf_len = pixels.len();
        proof {
            assert(point_in_canvas(td.points@[i as int], width as int, height as int));
            lemma_lin_range(width as int, height as int, p.x as int, p.y as int);
            assert((width as usize) as int == width as int);
            assert((p.y as int) * (width as int) + (p.x as int) < (buf_len as int));
        }
        let idx = (p.y) * (width as usize) + (p.x);
        pixels[idx] = p.c;
        proof {
            let pts = td.points@;
            assert(pts.take(i + 1).drop_last() =~= pts.take(i as int));
            assert(pts.take(i + 1).last() == pts[i as int]);
        }
        i = i + 1;
    }
    proof {
        assert(td.points@.take(n as int) =~= td.points@);
    }
}

/// Merges a batch of tile results into a fresh image: the collector's whole
/// job when every result is already at hand. The buffer starts blank; each
/// tile's points are written by coordinate, in the order given, though any
/// order produces the same image when the tiles come from one grid.
pub fn assemble_image(width: u32, height: u32, tds: &Vec<TileData>) -> (img: FractalImage)
    requires
        width * height <= usize::MAX,
        forall|j: int|
            0 <= j < tds@.len() ==> tile_data_in_canvas(#[trigger] tds@[j], width as int, height as int),
    ensures
        img.width == width,
        img.height == height,
        img.pixels@ == write_tiles(blank(width as int, height as int), tds@, width as int),
        crate::fractal_image::image_wf(img),
{
    let mut pixels = new_buffer(width, height);
    let n = tds.len();
    let mut j: usize = 0;
    while j < n
        invariant
            n == tds@.len(),
            0 <= j <= n,
            width as int * height as int <= usize::MAX,
            forall|jq: int|
                0 <= jq < tds@.len() ==> tile_data_in_canvas(
                    #[trigger] tds@[jq],
                    width as int,
                    height as int,
                ),
            pixels@.len() == width as int * height as int,
            pixels@ == write_tiles(
                blank(width as int, height as int),
                tds@.take(j as int),
                width as int,
            ),
        decreases n - j,
    {
        merge_tile(&mut pixels, width, height, &tds[j]);
        proof {
            assert(tds@.take(j + 1).drop_last() =~= tds@.take(j as int));
            assert(tds@.take(j + 1).last() == tds@[j as int]);
        }
        j = j + 1;
    }
    proof {
        assert(tds@.take(n as int) =~= tds@);
    }
    FractalImage { width, height, pixels }
}

} // verus!
