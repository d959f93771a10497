//! The pipeline's ordering and coverage laws.
//!
//! The collector writes every received pixel at the index of its own
//! coordinates, so the assembled image is a function of *which* tile results
//! arrived, never of the order they arrived in. This module states and
//! proves that: assembling any collection of tile results of one grid gives
//! the same image as any reordering of it; a complete collection reproduces
//! the kernel at every pixel; and a collection missing one tile leaves
//! exactly that tile's pixels at the default color.

use vstd::arithmetic::div_mod::{lemma_fundamental_div_mod, lemma_fundamental_div_mod_converse};
use vstd::prelude::*;

use crate::collect::{
    blank, lemma_lin_range, lemma_write_points_len, lemma_write_tiles_len, lin, point_in_canvas,
    tile_data_in_canvas, write_points, write_tiles,
};
use crate::color::{default_color, Color};
use crate::pipeline::{
    lemma_point_index, point_x, point_y, points_match, tile_area, tile_height, tile_nonempty,
    tile_width,
};
use crate::tile::{
    grid_wf, lemma_tile_shape, lemma_tiles_partition, spec_tile, tile_contains, tile_count,
    tile_index_of, Tile, TileData, TileDataPoint,
};

verus! {

/// The points of a tile result are exactly the pixels of tile `t` under the
/// deterministic kernel `m`: one point per pixel of the tile, row-major,
/// each colored `m` of its coordinates.
pub open spec fn points_render(
    pts: Seq<TileDataPoint>,
    t: Tile,
    m: spec_fn(int, int) -> Color,
) -> bool {
    &&& pts.len() == tile_area(t)
    &&& forall|k: int|
        0 <= k < pts.len() ==> {
            &&& (#[trigger] pts[k]).x as int == point_x(t, k)
            &&& pts[k].y as int == point_y(t, k)
            &&& pts[k].c == m(point_x(t, k), point_y(t, k))
        }
}

/// A tile result renders one tile of the grid under the deterministic
/// kernel `m`: its index names a tile of the grid and its points are that
/// tile's pixels.
pub open spec fn renders_grid_tile(
    td: TileData,
    width: int,
    height: int,
    x_inc: int,
    y_inc: int,
    m: spec_fn(int, int) -> Color,
) -> bool {
    &&& 0 <= td.idx < tile_count(width, height, x_inc, y_inc)
    &&& td.idx == spec_tile(width, height, x_inc, y_inc, td.idx as int).idx
    &&& points_render(td.points@, spec_tile(width, height, x_inc, y_inc, td.idx as int), m)
}

/// What a worker computes is a render of its tile: if the kernel `f` is
/// deterministic and agrees with `m`, then a result whose points match `f`'s
/// contract holds exactly the tile's pixels under `m`.
pub proof fn lemma_computed_points_render<F: Fn(usize, usize) -> Color>(
    pts: Seq<TileDataPoint>,
    t: Tile,
    f: F,
    m: spec_fn(int, int) -> Color,
)
    requires
        points_match(pts, t, f),
        forall|x: usize, y: usize, c: Color| call_ensures(f, (x, y), c) ==> c == m(x as int, y as int),
    ensures
        points_render(pts, t, m),
{
    assert forall|k: int| 0 <= k < pts.len() implies {
        &&& (#[trigger] pts[k]).x as int == point_x(t, k)
        &&& pts[k].y as int == point_y(t, k)
        &&& pts[k].c == m(point_x(t, k), point_y(t, k))
    } by {
        assert(call_ensures(f, (pts[k].x, pts[k].y), pts[k].c));
    }
}

/// Every pixel of a tile lies inside the tile's ranges.
pub proof fn lemma_point_bounds(t: Tile, k: int)
    requires
        tile_nonempty(t),
        0 <= k < tile_area(t),
    ensures
        t.x_from <= point_x(t, k) < t.x_to,
        t.y_from <= point_y(t, k) < t.y_to,
{
    let tw = tile_width(t);
    let th = tile_height(t);
    assert(0 <= k % tw < tw);
    assert(0 <= k / tw) by {
        vstd::arithmetic::div_mod::lemma_div_pos_is_pos(k, tw);
    }
    assert(k / tw < th) by {
        if k / tw >= th {
            lemma_fundamental_div_mod(k, tw);
            vstd::arithmetic::mul::lemma_mul_inequality(th, k / tw, tw);
            vstd::arithmetic::mul::lemma_mul_is_commutative(tw, k / tw);
            vstd::arithmetic::mul::lemma_mul_is_commutative(th, tw);
        }
    }
}

/// A render of an on-canvas tile only holds on-canvas points.
pub proof fn lemma_render_in_canvas(
    td: TileData,
    t: Tile,
    m: spec_fn(int, int) -> Color,
    width: int,
    height: int,
)
    requires
        points_render(td.points@, t, m),
        tile_nonempty(t),
        t.x_to <= width,
        t.y_to <= height,
    ensures
        tile_data_in_canvas(td, width, height),
{
    assert forall|k: int|
        0 <= k < td.points@.len() implies point_in_canvas(#[trigger] td.points@[k], width, height) by {
        lemma_point_bounds(t, k);
    }
}

/// Two distinct on-canvas pixels have distinct linear indices.
pub proof fn lemma_lin_injective(width: int, x1: int, y1: int, x2: int, y2: int)
    requires
        0 <= x1 < width,
        0 <= x2 < width,
        0 <= y1,
        0 <= y2,
        lin(width, x1, y1) == lin(width, x2, y2),
    ensures
        x1 == x2,
        y1 == y2,
{
    let i = lin(width, x1, y1);
    lemma_fundamental_div_mod_converse(i, width, y1, x1);
    lemma_fundamental_div_mod_converse(i, width, y2, x2);
}

/// Writing the first `l` points of a tile's render changes exactly the
/// pixels of the tile walked so far, to the kernel's colors.
proof fn lemma_write_render_prefix(
    buf: Seq<Color>,
    pts: Seq<TileDataPoint>,
    t: Tile,
    m: spec_fn(int, int) -> Color,
    width: int,
    height: int,
    px: int,
    py: int,
    l: int,
)
    requires
        buf.len() == width * height,
        points_render(pts, t, m),
        tile_nonempty(t),
        t.x_to <= width,
        t.y_to <= height,
        0 <= px < width,
        0 <= py < height,
        0 <= l <= pts.len(),
    ensures
        ({
            let i = lin(width, px, py);
            let covered = tile_contains(t, px, py) && (py - t.y_from) * tile_width(t) + (px
                - t.x_from) < l;
            write_points(buf, pts.take(l), width)[i] == if covered {
                m(px, py)
            } else {
                buf[i]
            }
        }),
    decreases l,
{
    let i = lin(width, px, py);
    lemma_lin_range(width, height, px, py);
    if l == 0 {
        assert(pts.take(0) =~= Seq::<TileDataPoint>::empty());
    } else {
        lemma_write_render_prefix(buf, pts, t, m, width, height, px, py, l - 1);
        let p = pts[l - 1];
        assert(pts.take(l).drop_last() =~= pts.take(l - 1));
        assert(pts.take(l).last() == p);
        lemma_point_bounds(t, l - 1);
        lemma_lin_range(width, height, p.x as int, p.y as int);
        assert forall|k: int|
            0 <= k < pts.take(l - 1).len() implies point_in_canvas(
            #[trigger] pts.take(l - 1)[k],
            width,
            height,
        ) by {
            lemma_point_bounds(t, k);
        }
        lemma_write_points_len(buf, pts.take(l - 1), width, height);
        let ip = lin(width, p.x as int, p.y as int);
        if ip == i {
            lemma_lin_injective(width, p.x as int, p.y as int, px, py);
            assert(px == point_x(t, l - 1) && py == point_y(t, l - 1));
            assert(tile_contains(t, px, py));
            lemma_point_index(t, px, py);
            assert((py - t.y_from) * tile_width(t) + (px - t.x_from) == l - 1) by {
                lemma_fundamental_div_mod(l - 1, tile_width(t));
                vstd::arithmetic::mul::lemma_mul_is_commutative(
                    tile_width(t),
                    (l - 1) / tile_width(t),
                );
            }
        } else {
            if tile_contains(t, px, py) {
                lemma_point_index(t, px, py);
                let k0 = (py - t.y_from) * tile_width(t) + (px - t.x_from);
                if k0 == l - 1 {
                    assert(point_x(t, l - 1) == px && point_y(t, l - 1) == py);
                    assert(ip == i);
                }
            }
        }
    }
}

/// Merging one tile's render changes exactly the pixels of that tile, to
/// the kernel's colors, and no pixel outside it.
pub proof fn lemma_write_render(
    buf: Seq<Color>,
    pts: Seq<TileDataPoint>,
    t: Tile,
    m: spec_fn(int, int) -> Color,
    width: int,
    height: int,
    px: int,
    py: int,
)
    requires
        buf.len() == width * height,
        points_render(pts, t, m),
        tile_nonempty(t),
        t.x_to <= width,
        t.y_to <= height,
        0 <= px < width,
        0 <= py < height,
    ensures
        write_points(buf, pts, width)[lin(width, px, py)] == if tile_contains(t, px, py) {
            m(px, py)
        } else {
            buf[lin(width, px, py)]
        },
{
    lemma_write_render_prefix(buf, pts, t, m, width, height, px, py, pts.len() as int);
    assert(pts.take(pts.len() as int) =~= pts);
    if tile_contains(t, px, py) {
        lemma_point_index(t, px, py);
    }
}

/// Some tile result in the collection carries tile index `k`.
pub open spec fn has_tile(tds: Seq<TileData>, k: int) -> bool {
    exists|j: int| 0 <= j < tds.len() && (#[trigger] tds[j]).idx == k
}

/// Every member of a collection of grid-tile renders holds only on-canvas
/// points.
pub proof fn lemma_renders_all_in_canvas(
    tds: Seq<TileData>,
    width: int,
    height: int,
    x_inc: int,
    y_inc: int,
    m: spec_fn(int, int) -> Color,
)
    requires
        grid_wf(width, height, x_inc, y_inc),
        forall|j: int|
            0 <= j < tds.len() ==> renders_grid_tile(
                #[trigger] tds[j],
                width,
                height,
                x_inc,
                y_inc,
                m,
            ),
    ensures
        forall|j: int| 0 <= j < tds.len() ==> tile_data_in_canvas(#[trigger] tds[j], width, height),
{
    assert forall|j: int|
        0 <= j < tds.len() implies tile_data_in_canvas(#[trigger] tds[j], width, height) by {
        lemma_tile_shape(width, height, x_inc, y_inc, tds[j].idx as int);
        lemma_render_in_canvas(
            tds[j],
            spec_tile(width, height, x_inc, y_inc, tds[j].idx as int),
            m,
            width,
            height,
        );
    }
}

/// The color the assembled buffer holds at one pixel: the kernel's color
/// when some received tile result covers the pixel's tile index, and the
/// prior buffer's color otherwise. Arrival order does not appear.
pub proof fn lemma_assembled_pixel(
    buf: Seq<Color>,
    tds: Seq<TileData>,
    width: int,
    height: int,
    x_inc: int,
    y_inc: int,
    m: spec_fn(int, int) -> Color,
    px: int,
    py: int,
)
    requires
        grid_wf(width, height, x_inc, y_inc),
        buf.len() == width * height,
        forall|j: int|
            0 <= j < tds.len() ==> renders_grid_tile(
                #[trigger] tds[j],
                width,
                height,
                x_inc,
                y_inc,
                m,
            ),
        0 <= px < width,
        0 <= py < height,
    ensures
        write_tiles(buf, tds, width)[lin(width, px, py)] == if has_tile(
            tds,
            tile_index_of(width, x_inc, y_inc, px, py),
        ) {
            m(px, py)
        } else {
            buf[lin(width, px, py)]
        },
    decreases tds.len(),
{
    let i = lin(width, px, py);
    let kstar = tile_index_of(width, x_inc, y_inc, px, py);
    lemma_lin_range(width, height, px, py);
    if tds.len() == 0 {
    } else {
        let front = tds.drop_last();
        let td = tds.last();
        lemma_assembled_pixel(buf, front, width, height, x_inc, y_inc, m, px, py);
        let t = spec_tile(width, height, x_inc, y_inc, td.idx as int);
        lemma_tile_shape(width, height, x_inc, y_inc, td.idx as int);
        lemma_tiles_partition(width, height, x_inc, y_inc, px, py, td.idx as int);
        lemma_renders_all_in_canvas(front, width, height, x_inc, y_inc, m);
        lemma_write_tiles_len(buf, front, width, height);
        let w_front = write_tiles(buf, front, width);
        lemma_write_render(w_front, td.points@, t, m, width, height, px, py);
        if td.idx == kstar {
            assert(tile_contains(t, px, py));
            assert(has_tile(tds, kstar)) by {
                assert(tds[tds.len() - 1].idx == kstar);
            }
        } else {
            assert(!tile_contains(t, px, py));
            assert(has_tile(tds, kstar) <==> has_tile(front, kstar)) by {
                if has_tile(tds, kstar) {
                    let j = choose|j: int|
                        0 <= j < tds.len() && (#[trigger] tds[j]).idx == kstar;
                    assert(j < tds.len() - 1);
                    assert(front[j].idx == kstar);
                }
                if has_tile(front, kstar) {
                    let j = choose|j: int|
                        0 <= j < front.len() && (#[trigger] front[j]).idx == kstar;
                    assert(tds[j].idx == kstar);
                }
            }
        }
    }
}

/// Merging the same collection of tile results in two different arrival
/// orders assembles the same image: the merge is idempotent and
/// coordinate-addressed, so only which tile indices arrived matters.
pub proof fn lemma_assemble_order_independent(
    tds1: Seq<TileData>,
    tds2: Seq<TileData>,
    buf: Seq<Color>,
    width: int,
    height: int,
    x_inc: int,
    y_inc: int,
    m: spec_fn(int, int) -> Color,
)
    requires
        grid_wf(width, height, x_inc, y_inc),
        buf.len() == width * height,
        forall|j: int|
            0 <= j < tds1.len() ==> renders_grid_tile(
                #[trigger] tds1[j],
                width,
                height,
                x_inc,
                y_inc,
                m,
            ),
        forall|j: int|
            0 <= j < tds2.len() ==> renders_grid_tile(
                #[trigger] tds2[j],
                width,
                height,
                x_inc,
                y_inc,
                m,
            ),
        forall|j: int|
            0 <= j < tds1.len() ==> exists|j2: int|
                0 <= j2 < tds2.len() && (#[trigger] tds2[j2]).idx == (#[trigger] tds1[j]).idx,
        forall|j: int|
            0 <= j < tds2.len() ==> exists|j2: int|
                0 <= j2 < tds1.len() && (#[trigger] tds1[j2]).idx == (#[trigger] tds2[j]).idx,
    ensures
        write_tiles(buf, tds1, width) == write_tiles(buf, tds2, width),
{
    lemma_renders_all_in_canvas(tds1, width, height, x_inc, y_inc, m);
    lemma_renders_all_in_canvas(tds2, width, height, x_inc, y_inc, m);
    lemma_write_tiles_len(buf, tds1, width, height);
    lemma_write_tiles_len(buf, tds2, width, height);
    let out1 = write_tiles(buf, tds1, width);
    let out2 = write_tiles(buf, tds2, width);
    assert forall|i: int| 0 <= i < out1.len() implies out1[i] == out2[i] by {
        let px = i % width;
        let py = i / width;
        assert(0 <= px < width && 0 <= py && i == lin(width, px, py)) by {
            lemma_fundamental_div_mod(i, width);
            vstd::arithmetic::mul::lemma_mul_is_commutative(width, py);
        }
        assert(py < height) by {
            if py >= height {
                vstd::arithmetic::mul::lemma_mul_inequality(height, py, width);
                vstd::arithmetic::mul::lemma_mul_is_commutative(height, width);
            }
        }
        lemma_assembled_pixel(buf, tds1, width, height, x_inc, y_inc, m, px, py);
        lemma_assembled_pixel(buf, tds2, width, height, x_inc, y_inc, m, px, py);
        let kstar = tile_index_of(width, x_inc, y_inc, px, py);
        if has_tile(tds1, kstar) {
            let j = choose|j: int| 0 <= j < tds1.len() && (#[trigger] tds1[j]).idx == kstar;
            assert(has_tile(tds2, kstar)) by {
                assert(exists|j2: int|
                    0 <= j2 < tds2.len() && (#[trigger] tds2[j2]).idx == tds1[j].idx);
            }
        }
        if has_tile(tds2, kstar) {
            let j = choose|j: int| 0 <= j < tds2.len() && (#[trigger] tds2[j]).idx == kstar;
            assert(has_tile(tds1, kstar)) by {
                assert(exists|j2: int|
                    0 <= j2 < tds1.len() && (#[trigger] tds1[j2]).idx == tds2[j].idx);
            }
        }
    }
    assert(out1 =~= out2);
}

/// The image every pixel of a full render has: `m` of its coordinates.
pub open spec fn direct_render(width: int, height: int, m: spec_fn(int, int) -> Color) -> Seq<
    Color,
> {
    Seq::new((width * height) as nat, |i: int| m(i % width, i / width))
}

/// Assembling one tile result per tile of the grid over a blank buffer
/// reproduces the kernel at every pixel: the streamed, tiled render and the
/// direct pixel-by-pixel render are the same image.
pub proof fn lemma_tiled_matches_direct(
    tds: Seq<TileData>,
    width: int,
    height: int,
    x_inc: int,
    y_inc: int,
    m: spec_fn(int, int) -> Color,
)
    requires
        grid_wf(width, height, x_inc, y_inc),
        forall|j: int|
            0 <= j < tds.len() ==> renders_grid_tile(
                #[trigger] tds[j],
                width,
                height,
                x_inc,
                y_inc,
                m,
            ),
        forall|k: int|
            0 <= k < tile_count(width, height, x_inc, y_inc) ==> #[trigger] has_tile(tds, k),
    ensures
        write_tiles(blank(width, height), tds, width) == direct_render(width, height, m),
{
    lemma_renders_all_in_canvas(tds, width, height, x_inc, y_inc, m);
    lemma_write_tiles_len(blank(width, height), tds, width, height);
    let out = write_tiles(blank(width, height), tds, width);
    assert forall|i: int| 0 <= i < out.len() implies out[i] == direct_render(width, height, m)[i] by {
        let px = i % width;
        let py = i / width;
        assert(0 <= px < width && 0 <= py && i == lin(width, px, py)) by {
            lemma_fundamental_div_mod(i, width);
            vstd::arithmetic::mul::lemma_mul_is_commutative(width, py);
        }
        assert(py < height) by {
            if py >= height {
                vstd::arithmetic::mul::lemma_mul_inequality(height, py, width);
                vstd::arithmetic::mul::lemma_mul_is_commutative(height, width);
            }
        }
        lemma_assembled_pixel(blank(width, height), tds, width, height, x_inc, y_inc, m, px, py);
        crate::tile::lemma_count_le_pixels(width, height, x_inc, y_inc);
        lemma_tiles_partition(width, height, x_inc, y_inc, px, py, 0);
    }
    assert(out =~= direct_render(width, height, m));
}

/// The whole pipeline, end to end: what `compute_all_tiles` hands back --
/// one result per tile, in index order, with the colors a deterministic
/// kernel returned -- assembles over a blank buffer into exactly the direct
/// pixel-by-pixel render.
pub proof fn lemma_pipeline_end_to_end<F: Fn(usize, usize) -> Color>(
    tds: Seq<TileData>,
    width: int,
    height: int,
    x_inc: int,
    y_inc: int,
    f: F,
    m: spec_fn(int, int) -> Color,
)
    requires
        grid_wf(width, height, x_inc, y_inc),
        tds.len() == tile_count(width, height, x_inc, y_inc),
        forall|j: int|
            0 <= j < tds.len() ==> {
                &&& (#[trigger] tds[j]).idx == j
                &&& points_match(tds[j].points@, spec_tile(width, height, x_inc, y_inc, j), f)
            },
        forall|x: usize, y: usize, c: Color| call_ensures(f, (x, y), c) ==> c == m(x as int, y as int),
    ensures
        write_tiles(blank(width, height), tds, width) == direct_render(width, height, m),
{
    assert forall|j: int|
        0 <= j < tds.len() implies renders_grid_tile(#[trigger] tds[j], width, height, x_inc, y_inc, m) by {
        lemma_tile_shape(width, height, x_inc, y_inc, j);
        lemma_computed_points_render(
            tds[j].points@,
            spec_tile(width, height, x_inc, y_inc, j),
            f,
            m,
        );
    }
    assert forall|k: int|
        0 <= k < tile_count(width, height, x_inc, y_inc) implies #[trigger] has_tile(tds, k) by {
        assert(tds[k].idx == k);
    }
    lemma_tiled_matches_direct(tds, width, height, x_inc, y_inc, m);
}

/// When one tile's result is lost, the assembled image keeps the default
/// color exactly at that tile's pixels and the kernel's color everywhere
/// else; the collector still finishes.
pub proof fn lemma_missing_tile(
    tds: Seq<TileData>,
    width: int,
    height: int,
    x_inc: int,
    y_inc: int,
    m: spec_fn(int, int) -> Color,
    missing: int,
    px: int,
    py: int,
)
    requires
        grid_wf(width, height, x_inc, y_inc),
        forall|j: int|
            0 <= j < tds.len() ==> renders_grid_tile(
                #[trigger] tds[j],
                width,
                height,
                x_inc,
                y_inc,
                m,
            ),
        forall|j: int| 0 <= j < tds.len() ==> (#[trigger] tds[j]).idx != missing,
        forall|k: int|
            0 <= k < tile_count(width, height, x_inc, y_inc) && k != missing ==> #[trigger] has_tile(
                tds,
                k,
            ),
        0 <= px < width,
        0 <= py < height,
    ensures
        write_tiles(blank(width, height), tds, width)[lin(width, px, py)] == if tile_index_of(
            width,
            x_inc,
            y_inc,
            px,
            py,
        ) == missing {
            default_color()
        } else {
            m(px, py)
        },
{
    lemma_assembled_pixel(blank(width, height), tds, width, height, x_inc, y_inc, m, px, py);
    crate::tile::lemma_count_le_pixels(width, height, x_inc, y_inc);
    lemma_tiles_partition(width, height, x_inc, y_inc, px, py, 0);
    lemma_lin_range(width, height, px, py);
    let kstar = tile_index_of(width, x_inc, y_inc, px, py);
    if kstar == missing {
        if has_tile(tds, kstar) {
            let j = choose|j: int| 0 <= j < tds.len() && (#[trigger] tds[j]).idx == kstar;
            assert(false);
        }
    }
}

} // verus!
