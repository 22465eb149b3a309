use tiled_wgpu::geometry::{PixelPoint, TileBounds};
use tiled_wgpu::tileset::{ImageReference, TileDescriptor, TilesetDescriptor};
use tiled_wgpu::tiletex::TilesetTextureCache;

fn region(left: u64, top: u64, right: u64, bottom: u64) -> TileBounds {
    TileBounds {
        top_left: PixelPoint { x: left, y: top },
        bottom_right: PixelPoint { x: right, y: bottom },
    }
}

fn sheet(first_gid: u32, tiles: Vec<u32>) -> TilesetDescriptor {
    TilesetDescriptor {
        first_gid,
        tile_width: 32,
        tile_height: 32,
        spacing: 0,
        margin: 0,
        images: vec![ImageReference { source: "sheet.png".to_string(), width: 256, height: 64 }],
        tiles: tiles.into_iter().map(|id| TileDescriptor { id }).collect(),
    }
}

#[test]
fn entry_indexes_every_cell_of_the_grid() {
    let entry = TilesetTextureCache::new(&sheet(1, vec![]), "texture");
    assert_eq!(entry.base_gid(), 1);
    assert_eq!(*entry.resources(), "texture");
    assert_eq!(entry.grid().tiles_per_row(), 8);
    assert_eq!(entry.len(), 16);
    assert_eq!(entry.bounds(1), Some(region(0, 0, 32, 32)));
    assert_eq!(entry.bounds(9), Some(region(0, 32, 32, 64)));
    assert_eq!(entry.bounds(16), Some(region(224, 32, 256, 64)));
    for gid in 1..=16 {
        assert_eq!(entry.bounds(gid), entry.grid().bounds(gid as u64 - 1));
    }
}

#[test]
fn index_of_an_entry_can_be_read_as_a_map() {
    let entry = TilesetTextureCache::new(&sheet(1, vec![2]), ());
    let index = entry.tile_bounds();
    assert_eq!(index.len(), 16);
    assert_eq!(index.get(&9), Some(&region(0, 32, 32, 64)));
    assert_eq!(index.get(&17), None);
    assert!(format!("{entry:?}").contains("base_gid: 1"));
}

#[test]
fn entry_has_no_region_outside_its_grid() {
    let entry = TilesetTextureCache::new(&sheet(5, vec![]), ());
    assert_eq!(entry.bounds(4), None);
    assert_eq!(entry.bounds(0), None);
    assert_eq!(entry.bounds(21), None);
    assert_eq!(entry.bounds(u32::MAX), None);
    assert_eq!(entry.bounds(5), Some(region(0, 0, 32, 32)));
    assert_eq!(entry.bounds(20), Some(region(224, 32, 256, 64)));
}

#[test]
fn described_tiles_are_placed_by_id_and_not_by_position() {
    let plain = TilesetTextureCache::new(&sheet(1, vec![]), ());
    let described = TilesetTextureCache::new(&sheet(1, vec![9, 3, 15, 3]), ());
    assert_eq!(described.len(), 16);
    for gid in 0..=20 {
        assert_eq!(described.bounds(gid), plain.bounds(gid));
    }
    assert_eq!(described.bounds(10), Some(region(32, 32, 64, 64)));
    assert_eq!(described.bounds(4), Some(region(96, 0, 128, 32)));
}

#[test]
fn description_past_the_grid_adds_no_region() {
    let entry = TilesetTextureCache::new(&sheet(1, vec![16, 40, u32::MAX]), ());
    assert_eq!(entry.len(), 16);
    assert_eq!(entry.bounds(17), None);
    assert_eq!(entry.bounds(41), None);
    assert_eq!(entry.bounds(0), None);
}

#[test]
fn ids_end_with_the_largest_number() {
    let entry = TilesetTextureCache::new(&sheet(u32::MAX - 3, vec![2, 3, 4, 9]), ());
    assert_eq!(entry.len(), 4);
    assert_eq!(entry.bounds(u32::MAX - 4), None);
    assert_eq!(entry.bounds(u32::MAX - 3), Some(region(0, 0, 32, 32)));
    assert_eq!(entry.bounds(u32::MAX), Some(region(96, 0, 128, 32)));
    assert_eq!(entry.bounds(0), None);
    assert_eq!(entry.bounds(5), None);
}

#[test]
fn entry_of_a_sheet_without_cells_is_empty() {
    let mut narrow = sheet(1, vec![0, 1]);
    narrow.images[0].width = 31;
    let entry = TilesetTextureCache::new(&narrow, ());
    assert_eq!(entry.len(), 0);
    assert_eq!(entry.bounds(1), None);
}
