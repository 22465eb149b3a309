use vstd::prelude::*;

verus! {

/// Why a tile cache could not be built, or why a tile could not be found in it.
#[derive(Debug, Clone, PartialEq, Eq)]
pub enum TileCacheError {
    /// The tileset does not draw on exactly one source image.
    UnsupportedTileset,
    /// A tile and the spacing after it take up no pixels, so the atlas has no grid.
    InvalidTilesetGeometry,
    /// The tileset's image could not be decoded; holds the decoder's message.
    ImageLoad(String),
    /// No tileset of the cache starts at or below the tile id.
    UnknownTile,
    /// The tile id belongs to a tileset, but lies past the last cell of its grid.
    MissingTileGeometry,
}

} // verus!
