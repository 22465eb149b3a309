use tiled_wgpu::error::TileCacheError;
use tiled_wgpu::geometry::{PixelPoint, TileBounds, TileGrid};

fn region(left: u64, top: u64, right: u64, bottom: u64) -> TileBounds {
    TileBounds {
        top_left: PixelPoint { x: left, y: top },
        bottom_right: PixelPoint { x: right, y: bottom },
    }
}

fn overlap(a: &TileBounds, b: &TileBounds) -> bool {
    a.top_left.x < b.bottom_right.x
        && b.top_left.x < a.bottom_right.x
        && a.top_left.y < b.bottom_right.y
        && b.top_left.y < a.bottom_right.y
}

#[test]
fn sheet_of_256_by_64_has_eight_columns_and_sixteen_tiles() {
    let grid = TileGrid::new(32, 32, 0, 0, 256, 64).unwrap();
    assert_eq!(grid.tiles_per_row(), 8);
    assert_eq!(grid.rows(), 2);
    assert_eq!(grid.tile_count(), 16);
    assert_eq!(grid.bounds(0), Some(region(0, 0, 32, 32)));
    assert_eq!(grid.bounds(8), Some(region(0, 32, 32, 64)));
    assert_eq!(grid.bounds(15), Some(region(224, 32, 256, 64)));
    assert_eq!(grid.bounds(16), None);
}

#[test]
fn tiles_per_row_truncates_and_does_not_round() {
    let grid = TileGrid::new(48, 48, 1, 2, 200, 100).unwrap();
    assert_eq!(grid.tiles_per_row(), 4);
    assert_eq!(grid.rows(), 2);
    assert_eq!(grid.tile_count(), 8);
}

#[test]
fn columns_cover_a_width_that_is_a_whole_number_of_strides() {
    let grid = TileGrid::new(48, 48, 1, 0, 245, 49).unwrap();
    assert_eq!(grid.tiles_per_row(), 5);
    assert_eq!(grid.tiles_per_row() * (48 + 1), 245);
    let grid = TileGrid::new(48, 48, 1, 0, 244, 49).unwrap();
    assert_eq!(grid.tiles_per_row(), 4);
}

#[test]
fn margin_and_spacing_place_the_cells() {
    let grid = TileGrid::new(48, 40, 1, 2, 200, 100).unwrap();
    assert_eq!(grid.rows(), 2);
    assert_eq!(grid.bounds(0), Some(region(2, 2, 50, 42)));
    assert_eq!(grid.bounds(3), Some(region(149, 2, 197, 42)));
    assert_eq!(grid.bounds(5), Some(region(51, 43, 99, 83)));
    assert_eq!(grid.bounds(8), None);
}

#[test]
fn every_cell_has_the_size_of_a_tile_and_no_two_overlap() {
    let grid = TileGrid::new(16, 24, 3, 5, 200, 130).unwrap();
    let count = grid.tile_count();
    assert_eq!(count, 10 * 4);
    let cells: Vec<TileBounds> = (0..count).map(|i| grid.bounds(i).unwrap()).collect();
    for (i, a) in cells.iter().enumerate() {
        assert!(a.top_left.x >= 5 && a.top_left.y >= 5);
        assert_eq!(a.bottom_right.x - a.top_left.x, 16);
        assert_eq!(a.bottom_right.y - a.top_left.y, 24);
        for b in cells.iter().skip(i + 1) {
            assert!(!overlap(a, b));
        }
    }
}

#[test]
fn cells_without_spacing_touch_and_do_not_overlap() {
    let grid = TileGrid::new(32, 32, 0, 0, 64, 64).unwrap();
    let a = grid.bounds(0).unwrap();
    let b = grid.bounds(1).unwrap();
    let c = grid.bounds(2).unwrap();
    assert_eq!(a.bottom_right.x, b.top_left.x);
    assert_eq!(a.bottom_right.y, c.top_left.y);
    assert!(!overlap(&a, &b));
    assert!(!overlap(&a, &c));
    assert!(!overlap(&b, &c));
}

#[test]
fn grid_without_stride_is_refused() {
    assert_eq!(
        TileGrid::new(0, 32, 0, 0, 256, 64).unwrap_err(),
        TileCacheError::InvalidTilesetGeometry
    );
    assert_eq!(
        TileGrid::new(32, 0, 0, 0, 256, 64).unwrap_err(),
        TileCacheError::InvalidTilesetGeometry
    );
    assert_eq!(
        TileGrid::new(0, 0, 0, 7, 0, 0).unwrap_err(),
        TileCacheError::InvalidTilesetGeometry
    );
}

#[test]
fn spacing_alone_makes_a_grid_of_empty_cells() {
    let grid = TileGrid::new(0, 0, 4, 1, 16, 8).unwrap();
    assert_eq!(grid.tiles_per_row(), 4);
    assert_eq!(grid.rows(), 2);
    assert_eq!(grid.bounds(5), Some(region(5, 5, 5, 5)));
}

#[test]
fn image_smaller_than_a_tile_has_no_cell() {
    let grid = TileGrid::new(32, 32, 0, 0, 31, 64).unwrap();
    assert_eq!(grid.tiles_per_row(), 0);
    assert_eq!(grid.rows(), 2);
    assert_eq!(grid.tile_count(), 0);
    assert_eq!(grid.bounds(0), None);
}

#[test]
fn largest_fields_do_not_overflow() {
    let max = u32::MAX;
    let grid = TileGrid::new(max, max, max, max, max, max).unwrap();
    assert_eq!(grid.tiles_per_row(), 0);
    assert_eq!(grid.tile_count(), 0);
    let grid = TileGrid::new(1, 1, 0, max, max, max).unwrap();
    assert_eq!(grid.tiles_per_row(), max);
    assert_eq!(grid.rows(), max);
    assert_eq!(grid.tile_count(), max as u64 * max as u64);
    let last = max as u64 * max as u64 - 1;
    let far = 2 * max as u64 - 1;
    assert_eq!(grid.bounds(last), Some(region(far, far, far + 1, far + 1)));
    assert_eq!(grid.bounds(last + 1), None);
    assert_eq!(grid.bounds(u64::MAX), None);
}

#[test]
fn grid_keeps_its_fields() {
    let grid = TileGrid::new(48, 40, 1, 2, 200, 100).unwrap();
    assert_eq!(grid.tile_width(), 48);
    assert_eq!(grid.tile_height(), 40);
    assert_eq!(grid.spacing(), 1);
    assert_eq!(grid.margin(), 2);
    assert_eq!(grid.image_width(), 200);
    assert_eq!(grid.image_height(), 100);
}
