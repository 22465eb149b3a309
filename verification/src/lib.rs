//! An index of the tiles of a map in the Tiled format, for a renderer that
//! keeps the tilesets of the map as textures on the GPU: which tileset a
//! global tile id belongs to, and which region of its texture the tile
//! occupies.
//!
//! The library decides what is created on the GPU and where every tile
//! lies; it reads no file and talks to no device. Its caller decodes the
//! images, creates what `texture` asks for, and hands the result to
//! `tilecache::GpuTileCache`.

pub mod error;
pub mod geometry;
pub mod texture;
pub mod tilecache;
pub mod tileset;
pub mod tiletex;
