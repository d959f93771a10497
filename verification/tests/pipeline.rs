use fractal_tiles::channel::{collect_stream, render_tiled};
use fractal_tiles::collect::assemble_image;
use fractal_tiles::color::Color;
use fractal_tiles::pipeline::{compute_all_tiles, render_direct, try_compute_tile};
use fractal_tiles::tile::{tiles, TileData, TileDataPoint};

fn kernel(x: usize, y: usize) -> Color {
    Color {
        r: (x % 251) as u8,
        g: (y % 241) as u8,
        b: ((x * 7 + y * 13) % 256) as u8,
    }
}

#[test]
fn test_full_grid_covers_every_pixel_once() {
    let tds = compute_all_tiles(100, 100, 10, 10, &kernel);
    assert_eq!(tds.len(), 100);

    let mut covered = vec![0u32; 100 * 100];
    for td in &tds {
        for p in td.get_points() {
            covered[p.get_y() * 100 + p.get_x()] += 1;
        }
    }
    for count in covered {
        assert_eq!(count, 1);
    }
}

#[test]
fn test_assembly_is_order_independent() {
    let tds = compute_all_tiles(100, 100, 10, 10, &kernel);
    let img_in_order = assemble_image(100, 100, &tds);

    let mut reversed = tds.clone();
    reversed.reverse();
    let img_reversed = assemble_image(100, 100, &reversed);

    assert_eq!(img_in_order.pixels, img_reversed.pixels);
}

#[test]
fn test_streaming_matches_direct_render() {
    let direct = render_direct(100, 100, &kernel);

    let tds = compute_all_tiles(100, 100, 10, 10, &kernel);
    let batched = assemble_image(100, 100, &tds);

    let streamed = render_tiled(100, 100, 10, 10, &kernel);

    assert_eq!(direct.pixels.len(), 100 * 100);
    assert_eq!(direct.pixels, batched.pixels);
    assert_eq!(direct.pixels, streamed.pixels);

    for y in 0..100usize {
        for x in 0..100usize {
            assert_eq!(direct.pixels[y * 100 + x], kernel(x, y));
        }
    }
}

#[test]
fn test_missing_tile_keeps_defaults_exactly_there() {
    let tds = compute_all_tiles(9, 9, 2, 2, &kernel);
    assert_eq!(tds.len(), 9);

    let survivors: Vec<TileData> = tds.into_iter().filter(|td| td.get_idx() != 4).collect();
    assert_eq!(survivors.len(), 8);

    let img = assemble_image(9, 9, &survivors);
    let black = Color { r: 0, g: 0, b: 0 };
    for y in 0..9usize {
        for x in 0..9usize {
            let in_lost_tile = (4..8).contains(&x) && (4..8).contains(&y);
            if in_lost_tile {
                assert_eq!(img.pixels[y * 9 + x], black);
            } else {
                assert_eq!(img.pixels[y * 9 + x], kernel(x, y));
            }
        }
    }
}

#[test]
fn test_failing_kernel_loses_only_its_tile() {
    let faulty = |x: usize, y: usize| -> Option<Color> {
        if (4..8).contains(&x) && (4..8).contains(&y) {
            None
        } else {
            Some(kernel(x, y))
        }
    };

    let mut walk = tiles(9, 9, 2, 2);
    let mut survivors: Vec<TileData> = Vec::new();
    let mut failures = 0;
    while let Some(t) = walk.next() {
        match try_compute_tile(&t, &faulty) {
            Some(td) => survivors.push(td),
            None => {
                failures += 1;
                assert_eq!(t.get_idx(), 4);
            }
        }
    }
    assert_eq!(failures, 1);
    assert_eq!(survivors.len(), 8);

    let img = assemble_image(9, 9, &survivors);
    let black = Color { r: 0, g: 0, b: 0 };
    for y in 0..9usize {
        for x in 0..9usize {
            if (4..8).contains(&x) && (4..8).contains(&y) {
                assert_eq!(img.pixels[y * 9 + x], black);
            } else {
                assert_eq!(img.pixels[y * 9 + x], kernel(x, y));
            }
        }
    }
}

#[test]
fn test_collector_drops_malformed_results() {
    let (sender, receiver) = crossbeam_channel::unbounded::<TileData>();
    let good = TileData::new(
        0,
        vec![
            TileDataPoint::new(0, 0, Color { r: 9, g: 9, b: 9 }),
            TileDataPoint::new(1, 1, Color { r: 7, g: 7, b: 7 }),
        ],
    );
    let off_canvas = TileData::new(1, vec![TileDataPoint::new(5, 0, Color { r: 1, g: 1, b: 1 })]);
    sender.send(good).unwrap();
    sender.send(off_canvas).unwrap();
    drop(sender);

    let img = collect_stream(&receiver, 2, 2, 8);
    assert_eq!(img.pixels.len(), 4);
    assert_eq!(img.pixels[0], Color { r: 9, g: 9, b: 9 });
    assert_eq!(img.pixels[3], Color { r: 7, g: 7, b: 7 });
    assert_eq!(img.pixels[1], Color { r: 0, g: 0, b: 0 });
    assert_eq!(img.pixels[2], Color { r: 0, g: 0, b: 0 });
}
