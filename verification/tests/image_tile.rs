use fractal_tiles::tile::{count_tiles, tiles, Tile};

fn expect_tile(t: &Tile, x_from: usize, y_from: usize, x_to: usize, y_to: usize, idx: usize) {
    assert_eq!(t.x_from(), x_from);
    assert_eq!(t.y_from(), y_from);
    assert_eq!(t.x_to(), x_to);
    assert_eq!(t.y_to(), y_to);
    assert_eq!(t.get_idx(), idx);
}

#[test]
fn test_iterator1() {
    let mut it = tiles(9, 9, 2, 2);

    expect_tile(&it.next().unwrap(), 0, 0, 4, 4, 0);
    expect_tile(&it.next().unwrap(), 4, 0, 8, 4, 1);
    expect_tile(&it.next().unwrap(), 8, 0, 9, 4, 2);
    expect_tile(&it.next().unwrap(), 0, 4, 4, 8, 3);
    expect_tile(&it.next().unwrap(), 4, 4, 8, 8, 4);
    expect_tile(&it.next().unwrap(), 8, 4, 9, 8, 5);
    expect_tile(&it.next().unwrap(), 0, 8, 4, 9, 6);
    expect_tile(&it.next().unwrap(), 4, 8, 8, 9, 7);
    expect_tile(&it.next().unwrap(), 8, 8, 9, 9, 8);
    assert!(it.next().is_none());
}

#[test]
fn test_iterator2() {
    let mut it = tiles(9, 9, 3, 3);

    expect_tile(&it.next().unwrap(), 0, 0, 3, 3, 0);
    expect_tile(&it.next().unwrap(), 3, 0, 6, 3, 1);
    expect_tile(&it.next().unwrap(), 6, 0, 9, 3, 2);
    expect_tile(&it.next().unwrap(), 0, 3, 3, 6, 3);
    expect_tile(&it.next().unwrap(), 3, 3, 6, 6, 4);
    expect_tile(&it.next().unwrap(), 6, 3, 9, 6, 5);
    expect_tile(&it.next().unwrap(), 0, 6, 3, 9, 6);
    expect_tile(&it.next().unwrap(), 3, 6, 6, 9, 7);
    expect_tile(&it.next().unwrap(), 6, 6, 9, 9, 8);
    assert!(it.next().is_none());
}

#[test]
fn test_tiles_partition_no_gaps_no_overlaps() {
    let width: usize = 10;
    let height: usize = 7;
    let mut it = tiles(10, 7, 3, 2);
    let mut covered = vec![0u32; width * height];
    let mut expected_idx = 0;

    while let Some(t) = it.next() {
        assert_eq!(t.get_idx(), expected_idx);
        expected_idx += 1;
        assert!(t.x_from() < t.x_to() && t.x_to() <= width);
        assert!(t.y_from() < t.y_to() && t.y_to() <= height);
        for y in t.y_from()..t.y_to() {
            for x in t.x_from()..t.x_to() {
                covered[y * width + x] += 1;
            }
        }
    }

    for count in covered {
        assert_eq!(count, 1);
    }
    assert_eq!(expected_idx, count_tiles(10, 7, 3, 2));
}

#[test]
fn test_count_tiles() {
    assert_eq!(count_tiles(9, 9, 2, 2), 9);
    assert_eq!(count_tiles(9, 9, 3, 3), 9);
    assert_eq!(count_tiles(100, 100, 10, 10), 100);
    assert_eq!(count_tiles(1, 1, 1, 1), 1);
}

#[test]
fn test_idx_range_even_grid() {
    let mut it = tiles(100, 100, 10, 10);
    let mut seen = vec![false; 100];
    while let Some(t) = it.next() {
        assert!(t.get_idx() < 100);
        assert!(!seen[t.get_idx()]);
        seen[t.get_idx()] = true;
    }
    assert!(seen.iter().all(|s| *s));
}
