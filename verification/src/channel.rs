//! The result channel: an unbounded multi-producer/single-consumer queue
//! carrying completed tile results from the workers to the collector, and
//! the worker and collector loops around it.
//!
//! The queue itself comes from the crossbeam-channel crate; the calls the
//! pipeline makes are declared here with what that crate's source shows.
//! Nothing is assumed about which results are in flight: the collector
//! states what holds of whatever arrived.

use vstd::prelude::*;

use crate::collect::{blank, merge_tile, new_buffer, tile_data_in_canvas, write_tiles};
use crate::color::Color;
use crate::fractal_image::FractalImage;
use crate::pipeline::compute_tile;
use crate::tile::{CanvasTile, TileData};

verus! {

/// crossbeam-channel's sending half, declared so its values can flow
/// through verified code. Verus sees nothing inside it.
#[verifier::external_type_specification]
#[verifier::external_body]
#[verifier::reject_recursive_types(T)]
pub struct ExSender<T>(crossbeam_channel::Sender<T>);

/// crossbeam-channel's receiving half, declared like the sender.
#[verifier::external_type_specification]
#[verifier::external_body]
#[verifier::reject_recursive_types(T)]
pub struct ExReceiver<T>(crossbeam_channel::Receiver<T>);

/// Relies on crossbeam_channel::unbounded: a channel of unlimited capacity
/// whose receiving half yields the sent values; sends on it never block.
#[verifier::external_body]
fn tile_channel() -> (crossbeam_channel::Sender<TileData>, crossbeam_channel::Receiver<TileData>) {
    crossbeam_channel::unbounded()
}

/// Relies on crossbeam_channel::Sender::send: on an unbounded channel it
/// returns Ok unless every receiver is gone, in which case the value is
/// returned inside the error and dropped here. Whether it succeeds depends
/// on the receiver's lifetime, so nothing is promised of the result.
#[verifier::external_body]
fn send_tile(sender: &crossbeam_channel::Sender<TileData>, td: TileData) -> bool {
    sender.send(td).is_ok()
}

/// Relies on crossbeam_channel::Receiver::recv: blocks until a value is
/// available and returns it, or returns an error once the channel is empty
/// and every sender is gone. Which value arrives depends on the senders,
/// so nothing is promised of the result.
#[verifier::external_body]
fn recv_tile(receiver: &crossbeam_channel::Receiver<TileData>) -> Option<TileData> {
    match receiver.recv() {
        Ok(td) => Some(td),
        Err(_) => None,
    }
}

/// One worker's whole run: pull tiles from the shared walk until it is
/// exhausted, compute each one, and send the result. The sender half is
/// owned and dropped on return, which is what lets the collector see the
/// channel close once every worker is done. A failed send loses that tile's
/// result and stops no other tile.
pub fn run_worker<F: Fn(usize, usize) -> Color>(
    walk: &mut CanvasTile,
    f: &F,
    sender: crossbeam_channel::Sender<TileData>,
)
    requires
        old(walk).wf(),
        forall|x: usize, y: usize|
            x < old(walk).width && y < old(walk).height ==> call_requires(*f, (x, y)),
    ensures
        final(walk).wf(),
        final(walk).done(),
        final(walk).same_grid(*old(walk)),
{
    while walk.has_next()
        invariant
            walk.wf(),
            walk.same_grid(*old(walk)),
            walk.width == old(walk).width,
            walk.height == old(walk).height,
            forall|x: usize, y: usize|
                x < walk.width && y < walk.height ==> call_requires(*f, (x, y)),
        decreases walk.count() - walk.pulled(),
    {
        proof {
            crate::tile::lemma_next_tile_shape(*walk);
            crate::tile::lemma_tile_shape(
                walk.width as int,
                walk.height as int,
                walk.x_inc as int,
                walk.y_inc as int,
                walk.pulled(),
            );
        }
        match walk.next() {
            None => {
                proof {
                    assert(false);
                }
            },
            Some(t) => {
                let td = compute_tile(&t, f);
                let _delivered = send_tile(&sender, td);
            },
        }
    }
}

/// The collector's whole run: receive tile results until the channel
/// closes, merging each one into the image buffer at its own coordinates.
/// `max_results` bounds how many results the collector will take, which a
/// caller sets to the grid's tile count: one render never produces more.
/// A result carrying any off-canvas point is dropped whole, so a malformed
/// message can never corrupt the buffer; the image is the merge of some
/// sequence of on-canvas results, whatever arrived and in whatever order.
pub fn collect_stream(
    receiver: &crossbeam_channel::Receiver<TileData>,
    width: u32,
    height: u32,
    max_results: usize,
) -> (img: FractalImage)
    requires
        width * height <= usize::MAX,
    ensures
        img.width == width,
        img.height == height,
        crate::fractal_image::image_wf(img),
        exists|tds: Seq<TileData>|
            {
                &&& forall|j: int|
                    0 <= j < tds.len() ==> tile_data_in_canvas(
                        #[trigger] tds[j],
                        width as int,
                        height as int,
                    )
                &&& img.pixels@ == write_tiles(
                    blank(width as int, height as int),
                    tds,
                    width as int,
                )
            },
{
    let mut pixels = new_buffer(width, height);
    let ghost mut received: Seq<TileData> = Seq::empty();
    let mut budget = max_results;
    let mut open = true;
    while open && budget > 0
        invariant
            pixels@.len() == width as int * height as int,
            forall|j: int|
                0 <= j < received.len() ==> tile_data_in_canvas(
                    #[trigger] received[j],
                    width as int,
                    height as int,
                ),
            pixels@ == write_tiles(blank(width as int, height as int), received, width as int),
        decreases (if open { 1int } else { 0int }), budget,
    {
        match recv_tile(receiver) {
            None => {
                open = false;
            },
            Some(td) => {
                budget = budget - 1;
                if points_in_canvas(&td, width, height) {
                    merge_tile(&mut pixels, width, height, &td);
                    proof {
                        let prev = received;
                        received = received.push(td);
                        assert(received.drop_last() =~= prev);
                        assert(received.last() == td);
                    }
                }
            },
        }
    }
    FractalImage { width, height, pixels }
}

/// Checks that every point of a tile result lies on the canvas: the
/// collector's guard against malformed results.
pub fn points_in_canvas(td: &TileData, width: u32, height: u32) -> (ok: bool)
    ensures
        ok == tile_data_in_canvas(*td, width as int, height as int),
{
    let w = width as usize;
    let h = height as usize;
    let n = td.points.len();
    let mut i: usize = 0;
    while i < n
        invariant
            n == td.points@.len(),
            0 <= i <= n,
            w == width as int,
            h == height as int,
            forall|k: int|
                0 <= k < i ==> crate::collect::point_in_canvas(
                    #[trigger] td.points@[k],
                    width as int,
                    height as int,
                ),
        decreases n - i,
    {
        let p = &td.points[i];
        if p.x >= w || p.y >= h {
            return false;
        }
        i = i + 1;
    }
    true
}

/// Runs the streamed pipeline start to finish in one thread: the worker
/// drains the walk into the channel, the sender closes, and the collector
/// assembles whatever was delivered. With more workers the same channel
/// carries the same results, merely interleaved.
pub fn render_tiled(width: u32, height: u32, x_tiles: u32, y_tiles: u32, f: &(impl Fn(
    usize,
    usize,
) -> Color)) -> (img: FractalImage)
    requires
        1 <= x_tiles <= width,
        1 <= y_tiles <= height,
        width * height <= usize::MAX,
        forall|x: usize, y: usize| x < width && y < height ==> call_requires(*f, (x, y)),
    ensures
        img.width == width,
        img.height == height,
        crate::fractal_image::image_wf(img),
        exists|tds: Seq<TileData>|
            {
                &&& forall|j: int|
                    0 <= j < tds.len() ==> tile_data_in_canvas(
                        #[trigger] tds[j],
                        width as int,
                        height as int,
                    )
                &&& img.pixels@ == write_tiles(
                    blank(width as int, height as int),
                    tds,
                    width as int,
                )
            },
{
    let expected = crate::tile::count_tiles(width, height, x_tiles, y_tiles);
    let (sender, receiver) = tile_channel();
    let mut walk = crate::tile::tiles(width, height, x_tiles, y_tiles);
    run_worker(&mut walk, f, sender);
    collect_stream(&receiver, width, height, expected)
}

} // verus!
