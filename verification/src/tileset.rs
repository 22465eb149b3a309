use vstd::prelude::*;

use crate::error::TileCacheError;
use crate::geometry::{GridModel, TileGrid};

verus! {

/// One source image of a tileset: where it lies, relative to the map, and
/// the size that the map declares for it.
#[derive(Debug, Clone, PartialEq, Eq)]
pub struct ImageReference {
    pub source: String,
    pub width: u32,
    pub height: u32,
}

/// A tile that the map says more about than its place in the grid.
#[derive(Debug, Clone, Copy, PartialEq, Eq, Structural)]
pub struct TileDescriptor {
    /// Index of the tile within its tileset.
    pub id: u32,
}

/// A tileset as a map declares it.
#[derive(Debug, Clone, PartialEq, Eq)]
pub struct TilesetDescriptor {
    /// Global id of the first tile of the set.
    pub first_gid: u32,
    pub tile_width: u32,
    pub tile_height: u32,
    /// Pixels left free after each tile.
    pub spacing: u32,
    /// Pixels left free at the top and at the left of the image.
    pub margin: u32,
    pub images: Vec<ImageReference>,
    /// Only the tiles that carry a description; the others are implied by
    /// the grid.
    pub tiles: Vec<TileDescriptor>,
}

/// The part of a map that the tile cache reads: its tilesets, in the order
/// in which the map lists them.
#[derive(Debug, Clone, PartialEq, Eq)]
pub struct MapDescription {
    pub tilesets: Vec<TilesetDescriptor>,
}

impl TilesetDescriptor {
    /// The grid over the first image of the tileset.
    pub open spec fn grid_model(self) -> GridModel {
        GridModel {
            tile_width: self.tile_width as nat,
            tile_height: self.tile_height as nat,
            spacing: self.spacing as nat,
            margin: self.margin as nat,
            image_width: self.images@[0].width as nat,
            image_height: self.images@[0].height as nat,
        }
    }

    /// What keeps the tileset out of a cache, if anything does. The number
    /// of images is looked at first.
    pub open spec fn defect(self) -> Option<TileCacheError> {
        if self.images@.len() != 1 {
            Some(TileCacheError::UnsupportedTileset)
        } else if !self.grid_model().valid() {
            Some(TileCacheError::InvalidTilesetGeometry)
        } else {
            None
        }
    }

    /// Exactly one image, and a grid over it.
    pub open spec fn supported(self) -> bool {
        self.images@.len() == 1 && self.grid_model().valid()
    }

    /// The one image of the tileset.
    ///
    /// Fails with `UnsupportedTileset` where the tileset has no image or
    /// more than one.
    pub fn image(&self) -> (result: Result<&ImageReference, TileCacheError>)
        ensures
            result is Ok <==> self.images@.len() == 1,
            result matches Ok(image) ==> *image == self.images@[0],
            result matches Err(e) ==> e == TileCacheError::UnsupportedTileset,
    {
        if self.images.len() != 1 {
            return Err(TileCacheError::UnsupportedTileset);
        }
        Ok(&self.images[0])
    }

    /// The grid that the tileset lays over its image.
    ///
    /// Fails with `UnsupportedTileset` where the tileset does not have
    /// exactly one image, and otherwise with `InvalidTilesetGeometry` where
    /// a tile and its spacing are zero pixels wide or high.
    pub fn grid(&self) -> (result: Result<TileGrid, TileCacheError>)
        ensures
            result is Ok <==> self.supported(),
            result matches Ok(grid) ==> grid@ == self.grid_model(),
            result matches Ok(grid) ==> grid@.stride_x() == self.tile_width + self.spacing,
            result matches Ok(grid) ==> grid@.stride_y() == self.tile_height + self.spacing,
            result matches Err(e) ==> self.defect() == Some(e),
    {
        let image = self.image()?;
        TileGrid::new(
            self.tile_width,
            self.tile_height,
            self.spacing,
            self.margin,
            image.width,
            image.height,
        )
    }

    /// Checks that a cache can hold the tileset.
    pub fn validate(&self) -> (result: Result<(), TileCacheError>)
        ensures
            result is Ok <==> self.supported(),
            result matches Err(e) ==> self.defect() == Some(e),
    {
        match self.grid() {
            Ok(_) => Ok(()),
            Err(e) => Err(e),
        }
    }
}

impl MapDescription {
    /// Whether tileset `index` is the first of the map that a cache cannot
    /// hold.
    pub open spec fn first_defect_at(self, index: int) -> bool {
        &&& 0 <= index < self.tilesets@.len()
        &&& !self.tilesets@[index].supported()
        &&& forall|earlier: int|
            0 <= earlier < index ==> #[trigger] self.tilesets@[earlier].supported()
    }

    /// Every tileset of the map can go into a cache.
    pub open spec fn supported(self) -> bool {
        forall|index: int|
            0 <= index < self.tilesets@.len() ==> #[trigger] self.tilesets@[index].supported()
    }

    /// Checks every tileset, in the map's order, and stops at the first that
    /// a cache cannot hold.
    pub fn validate(&self) -> (result: Result<(), TileCacheError>)
        ensures
            result is Ok <==> self.supported(),
            result matches Err(e) ==> exists|index: int|
                self.first_defect_at(index) && #[trigger] self.tilesets@[index].defect() == Some(e),
    {
        let mut index: usize = 0;
        while index < self.tilesets.len()
            invariant
                index <= self.tilesets@.len(),
                forall|earlier: int|
                    0 <= earlier < index ==> #[trigger] self.tilesets@[earlier].supported(),
            decreases self.tilesets@.len() - index,
        {
            match self.tilesets[index].validate() {
                Ok(_) => {},
                Err(e) => {
                    assert(self.first_defect_at(index as int));
                    return Err(e);
                },
            }
            index += 1;
        }
        Ok(())
    }
}

} // verus!
