use tiled_wgpu::error::TileCacheError;
use tiled_wgpu::geometry::{PixelPoint, TileBounds};
use tiled_wgpu::tilecache::GpuTileCache;
use tiled_wgpu::tileset::{ImageReference, MapDescription, TileDescriptor, TilesetDescriptor};

fn region(left: u64, top: u64, right: u64, bottom: u64) -> TileBounds {
    TileBounds {
        top_left: PixelPoint { x: left, y: top },
        bottom_right: PixelPoint { x: right, y: bottom },
    }
}

fn sheet(first_gid: u32, tile: u32, width: u32, height: u32) -> TilesetDescriptor {
    TilesetDescriptor {
        first_gid,
        tile_width: tile,
        tile_height: tile,
        spacing: 0,
        margin: 0,
        images: vec![ImageReference { source: format!("{first_gid}.png"), width, height }],
        tiles: vec![TileDescriptor { id: 0 }],
    }
}

fn found(
    result: Result<(&tiled_wgpu::tiletex::TilesetTextureCache<&'static str>, TileBounds), TileCacheError>,
) -> Result<(u32, &'static str, TileBounds), TileCacheError> {
    result.map(|(entry, bounds)| (entry.base_gid(), *entry.resources(), bounds))
}

fn desert() -> GpuTileCache<&'static str> {
    let map = MapDescription {
        tilesets: vec![sheet(1, 32, 256, 64), sheet(17, 16, 64, 32), sheet(100, 8, 16, 8)],
    };
    GpuTileCache::new(&map, vec!["ground", "walls", "items"]).unwrap()
}

#[test]
fn lookup_finds_the_tile_in_the_texture_of_its_tileset() {
    let cache = desert();
    assert_eq!(found(cache.lookup(1)), Ok((1, "ground", region(0, 0, 32, 32))));
    assert_eq!(found(cache.lookup(9)), Ok((1, "ground", region(0, 32, 32, 64))));
    assert_eq!(found(cache.lookup(16)), Ok((1, "ground", region(224, 32, 256, 64))));
    assert_eq!(found(cache.lookup(17)), Ok((17, "walls", region(0, 0, 16, 16))));
    assert_eq!(found(cache.lookup(22)), Ok((17, "walls", region(16, 16, 32, 32))));
    assert_eq!(found(cache.lookup(101)), Ok((100, "items", region(8, 0, 16, 8))));
}

#[test]
fn tile_below_every_tileset_is_unknown() {
    let cache = desert();
    assert_eq!(found(cache.lookup(0)), Err(TileCacheError::UnknownTile));
    assert!(cache.owner(0).is_none());
    let empty: GpuTileCache<&'static str> =
        GpuTileCache::new(&MapDescription { tilesets: vec![] }, vec![]).unwrap();
    assert_eq!(empty.len(), 0);
    assert_eq!(found(empty.lookup(0)), Err(TileCacheError::UnknownTile));
    assert_eq!(found(empty.lookup(u32::MAX)), Err(TileCacheError::UnknownTile));
}

#[test]
fn tile_past_the_grid_of_its_tileset_has_no_geometry() {
    let cache = desert();
    assert_eq!(found(cache.lookup(25)), Err(TileCacheError::MissingTileGeometry));
    assert_eq!(found(cache.lookup(99)), Err(TileCacheError::MissingTileGeometry));
    assert_eq!(found(cache.lookup(102)), Err(TileCacheError::MissingTileGeometry));
    assert_eq!(found(cache.lookup(u32::MAX)), Err(TileCacheError::MissingTileGeometry));
    assert_eq!(cache.owner(99).map(|entry| entry.base_gid()), Some(17));
    assert_eq!(cache.owner(u32::MAX).map(|entry| entry.base_gid()), Some(100));
}

#[test]
fn first_gid_plus_local_id_resolves_to_its_tileset() {
    let cache = desert();
    for (first_gid, count) in [(1u32, 16u32), (17, 8), (100, 2)] {
        let entry = cache.tileset(first_gid).unwrap();
        assert_eq!(entry.len(), count as usize);
        for local_id in 0..count {
            let gid = first_gid + local_id;
            let (owner, bounds) = cache.lookup(gid).unwrap();
            assert_eq!(owner.base_gid(), first_gid);
            assert_eq!(Some(bounds), entry.grid().bounds(local_id as u64));
            assert_eq!(cache.owner(gid).unwrap().base_gid(), first_gid);
        }
    }
}

#[test]
fn order_of_the_tilesets_in_the_map_does_not_matter() {
    let map = MapDescription {
        tilesets: vec![sheet(100, 8, 16, 8), sheet(1, 32, 256, 64), sheet(17, 16, 64, 32)],
    };
    let cache = GpuTileCache::new(&map, vec!["items", "ground", "walls"]).unwrap();
    assert_eq!(cache.len(), 3);
    assert_eq!(cache.first_gids(), &vec![1, 17, 100]);
    let sorted = desert();
    for gid in (0..130).chain([u32::MAX - 1, u32::MAX]) {
        assert_eq!(found(cache.lookup(gid)), found(sorted.lookup(gid)));
    }
}

#[test]
fn tileset_is_found_by_its_first_gid_only() {
    let cache = desert();
    assert_eq!(cache.tileset(17).map(|entry| *entry.resources()), Some("walls"));
    assert!(cache.tileset(18).is_none());
    assert!(cache.tileset(0).is_none());
}

#[test]
fn later_tileset_takes_the_place_of_an_earlier_one_with_the_same_first_gid() {
    let map = MapDescription {
        tilesets: vec![sheet(1, 32, 256, 64), sheet(17, 16, 64, 32), sheet(1, 8, 16, 8)],
    };
    let cache = GpuTileCache::new(&map, vec!["old", "walls", "new"]).unwrap();
    assert_eq!(cache.len(), 2);
    assert_eq!(cache.first_gids(), &vec![1, 17]);
    assert_eq!(found(cache.lookup(2)), Ok((1, "new", region(8, 0, 16, 8))));
    assert_eq!(found(cache.lookup(3)), Err(TileCacheError::MissingTileGeometry));
}

#[test]
fn tileset_with_two_images_fails_the_whole_cache() {
    let mut crowded = sheet(17, 16, 64, 32);
    crowded.images.push(ImageReference { source: "more.png".to_string(), width: 64, height: 32 });
    let map = MapDescription { tilesets: vec![sheet(1, 32, 256, 64), crowded] };
    let result = GpuTileCache::new(&map, vec!["ground", "walls"]);
    assert_eq!(result.err(), Some(TileCacheError::UnsupportedTileset));
}

#[test]
fn cache_fails_with_the_first_defect_of_the_map() {
    let mut flat = sheet(1, 0, 256, 64);
    flat.tile_height = 8;
    let mut bare = sheet(17, 16, 64, 32);
    bare.images.clear();
    let map = MapDescription { tilesets: vec![flat.clone(), bare.clone()] };
    assert_eq!(
        GpuTileCache::new(&map, vec![1, 2]).err(),
        Some(TileCacheError::InvalidTilesetGeometry)
    );
    let map = MapDescription { tilesets: vec![bare, flat] };
    assert_eq!(GpuTileCache::new(&map, vec![1, 2]).err(), Some(TileCacheError::UnsupportedTileset));
}

#[test]
fn tilesets_that_share_the_id_space_up_to_its_end() {
    let map = MapDescription {
        tilesets: vec![sheet(u32::MAX - 1, 32, 256, 64), sheet(0, 32, 64, 32)],
    };
    let cache = GpuTileCache::new(&map, vec!["last", "first"]).unwrap();
    assert_eq!(found(cache.lookup(0)), Ok((0, "first", region(0, 0, 32, 32))));
    assert_eq!(found(cache.lookup(2)), Err(TileCacheError::MissingTileGeometry));
    assert_eq!(
        found(cache.lookup(u32::MAX)),
        Ok((u32::MAX - 1, "last", region(32, 0, 64, 32)))
    );
    assert_eq!(cache.tileset(u32::MAX - 1).unwrap().len(), 2);
}
